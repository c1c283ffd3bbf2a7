//! Results that may have yet to be built: a path that is at hand, or the
//! command that makes it, prepared as a cached call.

use vstd::prelude::*;
use crate::context::{ArgView, Call};
use crate::text::texts;
use crate::database::RecordView;
use crate::paths::{file_name, parent, path_file_name, path_parent};
use crate::process_builder::{padded, spaced, ProcessBuilder};
use crate::workcache::{committed, failed, ran, Context, Exec, ExecError, Outcome, Prep};
use crate::workmap::Fact;

verus! {

/// Why a command could not be prepared or did not give its result.
pub enum BuildError {
    /// There is nothing to build from.
    NoSources,
    /// No destination was set.
    NoDestination,
    /// The destination cannot take its prefix and suffix.
    BadDestination(String),
    /// Nothing can be read at the path.
    Unreadable(String),
    /// The file name of the library does not begin with the prefix of
    /// libraries and end in a character and their suffix.
    BadLibraryName(String),
    /// The call was prepared and then failed.
    Failed(ExecError),
}

/// A command prepared as a cached call: the call with its declared inputs,
/// the command line, the program, what the command writes, and what it is
/// made from.
pub struct Task {
    pub prep: Prep,
    pub call: Call,
    pub exe: String,
    pub dst: String,
    pub srcs: Vec<String>,
}

/// A path that is at hand, or the command that makes it.
pub enum Future {
    Value(String),
    Task(Task),
}

/// The directory of the path: what is left without the final component, a
/// dot where nothing is left, and the path itself where it has no parent.
pub open spec fn dir_text(path: Seq<char>) -> Seq<char> {
    match path_parent(path) {
        Some(p) => if p.len() == 0 {
            "."@
        } else {
            p
        },
        None => path,
    }
}

/// The file name of the path, and nothing where it has none.
pub open spec fn name_text(path: Seq<char>) -> Seq<char> {
    match path_file_name(path) {
        Some(n) => n,
        None => Seq::empty(),
    }
}

/// What running a process gave, as plain values.
pub open spec fn status_view(o: Result<bool, String>) -> Result<bool, Seq<char>> {
    match o {
        Ok(b) => Ok(b),
        Err(m) => Err(m@),
    }
}

/// The runner `x` can be handed every directory and process.
pub open spec fn launchable<X: FnOnce(String, ProcessBuilder) -> Result<bool, String>>(x: X) -> bool {
    forall|dir: String, pb: ProcessBuilder| call_requires(x, (dir, pb))
}

/// The directory of the path.
pub fn dir_path(path: &str) -> (dir: String)
    ensures
        dir@ == dir_text(path@),
{
    match parent(path) {
        Some(p) => {
            if p.as_str().is_empty() {
                ".".to_owned()
            } else {
                p
            }
        },
        None => path.to_owned(),
    }
}

/// The file name of the path, and nothing where it has none.
pub fn name_of(path: &str) -> (name: String)
    ensures
        name@ == name_text(path@),
{
    match file_name(path) {
        Some(n) => n,
        None => String::new(),
    }
}

impl Task {
    /// The process `pb` is the one that the task announces: the words of the
    /// command line, and as messages the program's file name as heading, the
    /// destination, an arrow and the sources.
    pub open spec fn announces(&self, pb: ProcessBuilder) -> bool {
        &&& pb.program@ == self.call.prog().word()
        &&& texts(pb.args@) == self.call.args().map_values(|a: ArgView| a.word())
        &&& pb.msgs@ == " * "@ + padded(name_text(self.exe@), 10) + ":"@ + " "@ + self.dst@ + " "@ + "<-"@
            + spaced(texts(self.srcs@))
        &&& pb.color is None
        &&& pb.verbosity == 0
        &&& pb.stdout_verbosity is None
        &&& pb.stderr_verbosity is None
        &&& pb.timeout is None
    }

    /// Handed the directory of the destination and the process that the
    /// task announces, the runner `x` may give `r`.
    pub open spec fn launches<X: FnOnce(String, ProcessBuilder) -> Result<bool, String>>(
        &self,
        x: X,
        r: Result<bool, Seq<char>>,
    ) -> bool {
        exists|dir: String, pb: ProcessBuilder, o: Result<bool, String>|
            dir@ == dir_text(self.dst@) && self.announces(pb) && #[trigger] call_ensures(x, (dir, pb), o)
                && status_view(o) == r
    }

    /// The record that a run of the task leaves: nothing discovered, and the
    /// destination as result.
    pub open spec fn record(&self) -> RecordView {
        RecordView {
            discovered_inputs: Seq::<Fact>::empty(),
            discovered_outputs: Seq::<Fact>::empty(),
            result: self.dst@,
        }
    }

    /// Carrying out the task with the runner `x` may take the shared state
    /// from `before` to `after` and give `r`: the recorded path where the
    /// record of the call is found fresh, with the store left alone; the
    /// destination where the call is a miss and the process succeeds, with
    /// the destination filed as the result of the call; the error that names
    /// the kind where a fact cannot be judged; and the failure of the body
    /// where the call is a miss and the process fails or cannot be run.
    pub open spec fn carried_out<F: Fn(&str, &str) -> bool, X: FnOnce(String, ProcessBuilder) -> Result<bool, String>>(
        &self,
        x: X,
        before: Context<F>,
        after: Context<F>,
        r: Result<String, ExecError>,
    ) -> bool {
        match r {
            Ok(v) => (self.prep.hit(&before) && v@ == before.db@[self.prep.key()].result && after.db == before.db)
                || (self.prep.miss(&before) && self.launches(x, Ok(true)) && v@ == self.dst@ && after.db@
                == before.db@.insert(self.prep.key(), self.record()) && after.db.dirty()),
            Err(ExecError::MissingFreshness(e)) => self.prep.unjudged(&before, e.kind@) && after.db == before.db,
            Err(ExecError::BodyFailed(m)) => self.prep.miss(&before) && ((self.launches(x, Ok(false)) && m@
                == "command failed"@) || self.launches(x, Err(m@))) && after.db == before.db,
        }
    }

    /// The process that the task announces.
    pub fn process(&self) -> (pb: ProcessBuilder)
        ensures
            self.announces(pb),
    {
        let (prog, args) = self.call.cmd();
        let name = name_of(self.exe.as_str());
        let pb = ProcessBuilder::new(prog.as_str(), &args).description(name.as_str()).msg(
            self.dst.as_str(),
        ).msg("<-").msgs(&self.srcs);
        proof {
            assert(texts(args@) =~= self.call.args().map_values(|a: ArgView| a.word()));
            assert(pb.msgs@ =~= " * "@ + padded(name_text(self.exe@), 10) + ":"@ + " "@ + self.dst@ + " "@
                + "<-"@ + spaced(texts(self.srcs@)));
        }
        pb
    }
}

impl Future {
    /// A path that is at hand.
    pub fn from_value(path: String) -> (f: Future)
        ensures
            f == Future::Value(path),
    {
        Future::Value(path)
    }

    /// The path. One that is at hand is handed on. For a command the cached
    /// call is executed: where its record is fresh the recorded path is
    /// returned; otherwise the runner is handed the directory of the
    /// destination and the process, and where the process succeeds the
    /// destination is filed as the result and returned.
    pub fn unwrap<F: Fn(&str, &str) -> bool, X: FnOnce(String, ProcessBuilder) -> Result<bool, String>>(
        self,
        ctx: &mut Context<F>,
        execute: X,
    ) -> (r: Result<String, ExecError>)
        requires
            self is Task ==> launchable(execute),
        ensures
            final(ctx).freshness == old(ctx).freshness,
            final(ctx).cfg == old(ctx).cfg,
            final(ctx).logger == old(ctx).logger,
            r is Err ==> final(ctx).db == old(ctx).db,
            match self {
                Future::Value(v) => r == Ok::<String, ExecError>(v) && final(ctx).db == old(ctx).db,
                Future::Task(t) => t.carried_out(execute, *old(ctx), *final(ctx), r),
            },
    {
        match self {
            Future::Value(v) => Ok(v),
            Future::Task(task) => {
                let ghost t = task;
                let pb = task.process();
                let dir = dir_path(task.dst.as_str());
                let Task { prep, call, exe, dst, srcs } = task;
                let body = move |handle: Exec| -> (o: Outcome)
                    ensures
                        o.0 == handle,
                        match o.1 {
                            Ok(v) => v@ == t.dst@ && t.launches(execute, Ok(true)),
                            Err(m) => (t.launches(execute, Ok(false)) && m@ == "command failed"@) || t.launches(
                                execute,
                                Err(m@),
                            ),
                        },
                    {
                        let o = execute(dir, pb);
                        assert(t.launches(execute, status_view(o)));
                        match o {
                            Ok(true) => (handle, Ok(dst)),
                            Ok(false) => (handle, Err("command failed".to_owned())),
                            Err(m) => (handle, Err(m)),
                        }
                    };
                let r = prep.exec(ctx, body);
                proof {
                    if r is Ok {
                        let v = r->Ok_0;
                        if !(prep.hit(old(ctx)) && v@ == old(ctx).db@[prep.key()].result
                            && ctx.db == old(ctx).db) {
                            assert(committed(body, prep.key(), old(ctx).db, ctx.db, v@));
                            let (e1, w) = choose|e1: Exec, w: String| #[trigger]
                                ran(body, e1, Ok(w)) && w@ == v@ && ctx.db@ == old(ctx).db@.insert(
                                    prep.key(),
                                    RecordView {
                                        discovered_inputs: e1.discovered_inputs.facts(),
                                        discovered_outputs: e1.discovered_outputs.facts(),
                                        result: v@,
                                    },
                                ) && ctx.db.dirty() && ctx.db.filename() == old(ctx).db.filename();
                            let e0 = choose|e0: Exec| e0.is_new() && #[trigger] call_ensures(
                                body,
                                (e0,),
                                (e1, Ok::<String, String>(w)),
                            );
                            assert(e1 == e0);
                            assert(e1.discovered_inputs.facts() =~= Seq::<Fact>::empty());
                            assert(e1.discovered_outputs.facts() =~= Seq::<Fact>::empty());
                        }
                    } else if r->Err_0 is BodyFailed {
                        let m = r->Err_0->BodyFailed_0;
                        assert(failed(body, m@));
                        let (e1, w) = choose|e1: Exec, w: String| #[trigger] ran(body, e1, Err(w)) && w@ == m@;
                        let e0 = choose|e0: Exec| e0.is_new() && #[trigger] call_ensures(
                            body,
                            (e0,),
                            (e1, Err::<String, String>(w)),
                        );
                    }
                }
                r
            },
        }
    }
}

/// What can be turned, with a probe of type `D`, into a path that may have
/// yet to be built.
pub trait IntoFuture<D: Fn(&str) -> Option<(String, u64)>>: Sized {
    /// Turned into a future with the probe `d`, the value may give `r`.
    spec fn future_given(&self, d: D, r: Result<Future, BuildError>) -> bool;

    fn into_future(self, digest_of: &D) -> (r: Result<Future, BuildError>)
        requires
            crate::context::reads_all(*digest_of),
        ensures
            self.future_given(*digest_of, r),
    ;
}

impl<'a, D: Fn(&str) -> Option<(String, u64)>> IntoFuture<D> for &'a str {
    /// A text is a path that is at hand.
    open spec fn future_given(&self, d: D, r: Result<Future, BuildError>) -> bool {
        r matches Ok(Future::Value(v)) && v@ == self@
    }

    fn into_future(self, digest_of: &D) -> (r: Result<Future, BuildError>) {
        Ok(Future::Value(self.to_owned()))
    }
}

impl<D: Fn(&str) -> Option<(String, u64)>> IntoFuture<D> for String {
    /// A text is a path that is at hand.
    open spec fn future_given(&self, d: D, r: Result<Future, BuildError>) -> bool {
        r matches Ok(Future::Value(v)) && v@ == self@
    }

    fn into_future(self, digest_of: &D) -> (r: Result<Future, BuildError>) {
        Ok(Future::Value(self))
    }
}

impl<D: Fn(&str) -> Option<(String, u64)>> IntoFuture<D> for Future {
    /// A future stays what it is.
    open spec fn future_given(&self, d: D, r: Result<Future, BuildError>) -> bool {
        r == Ok::<Future, BuildError>(*self)
    }

    fn into_future(self, digest_of: &D) -> (r: Result<Future, BuildError>) {
        Ok(self)
    }
}

} // verus!
