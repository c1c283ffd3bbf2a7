//! The archiver, which gathers objects into a static library.

use vstd::prelude::*;
use crate::builders::c::gcc::{place, placed};
use crate::context::{inputs, literals, reads, reads_all, reads_each, reads_none};
use crate::context::{ArgView, Call, InputPath};
use crate::into_future::{BuildError, Future, Task};
use crate::path_util::{prefix_suffix_added, takes_prefix_suffix, try_add_prefix_suffix};
use crate::text::{as_text, copy_opt, copy_texts, opt_text, texts, with_text};
use crate::workcache::Prep;
use crate::workmap::Key;

verus! {

/// The names under which the archiver is looked for.
pub open spec fn names() -> Seq<Seq<char>> {
    seq!["ar"@]
}

/// The names under which the archiver is looked for.
pub fn exes() -> (names: Vec<String>)
    ensures
        texts(names@) == self::names(),
{
    let mut names: Vec<String> = Vec::new();
    names.push("ar".to_owned());
    assert(texts(names@) =~= seq!["ar"@]);
    names
}

/// A run of the archiver in the making.
pub struct Ar {
    pub root: String,
    pub exe: String,
    pub dst_prefix: Option<String>,
    pub dst_suffix: Option<String>,
    pub dst: Option<String>,
    pub srcs: Vec<String>,
    pub flags: Vec<String>,
}

/// A run of the archiver in the making, as plain values.
pub struct ArView {
    pub root: Seq<char>,
    pub exe: Seq<char>,
    pub dst_prefix: Option<Seq<char>>,
    pub dst_suffix: Option<Seq<char>>,
    pub dst: Option<Seq<char>>,
    pub srcs: Seq<Seq<char>>,
    pub flags: Seq<Seq<char>>,
}

impl View for Ar {
    type V = ArView;

    open spec fn view(&self) -> ArView {
        ArView {
            root: self.root@,
            exe: self.exe@,
            dst_prefix: opt_text(self.dst_prefix),
            dst_suffix: opt_text(self.dst_suffix),
            dst: opt_text(self.dst),
            srcs: texts(self.srcs@),
            flags: texts(self.flags@),
        }
    }
}

impl ArView {
    /// The destination with its prefix and suffix.
    pub open spec fn target(self) -> Seq<char> {
        prefix_suffix_added(self.dst->0, self.dst_prefix, self.dst_suffix)
    }

    /// Every path that a run reads, in the order in which it reads them: the
    /// program, then the sources.
    pub open spec fn read_paths(self) -> Seq<Seq<char>> {
        seq![self.exe] + self.srcs
    }

    /// The arguments of the command line, given what the probe answered
    /// about the sources: the flags, the archive, the sources.
    pub open spec fn args(self, srcs: Seq<(Seq<char>, u64)>) -> Seq<ArgView> {
        literals(self.flags) + seq![ArgView::OutputPath(self.target())] + inputs(self.srcs, srcs)
    }

    /// The task `t` is the one that the run makes, given what the probe
    /// answered about the program and the sources.
    pub open spec fn makes(self, exe: (Seq<char>, u64), srcs: Seq<(Seq<char>, u64)>, t: Task) -> bool {
        &&& t.exe@ == self.exe
        &&& t.dst@ == self.target()
        &&& texts(t.srcs@) == self.srcs
        &&& t.call.prog() == ArgView::InputPath(self.exe, exe.0, exe.1)
        &&& t.call.args() == self.args(srcs)
        &&& t.prep.name() == "Call"@
        &&& t.prep.declared()@ == Map::<Key, Seq<char>>::empty().insert(
            (""@, crate::context::call_kind()),
            t.call.text(),
        )
    }

    /// The task `t` is the one that the run makes on answers that the probe
    /// `d` may give.
    pub open spec fn gives<D: Fn(&str) -> Option<(String, u64)>>(self, d: D, t: Task) -> bool {
        self.dst is Some && exists|exe: (Seq<char>, u64), srcs: Seq<(Seq<char>, u64)>| #[trigger]
            self.makes(exe, srcs, t) && reads(d, self.exe, Some(exe)) && reads_each(d, self.srcs, srcs)
    }

    /// Making the run into a task with the probe `d` may give `r`: the task
    /// that the run makes on answers that the probe may give, or the reason
    /// why there is none.
    pub open spec fn prepared<D: Fn(&str) -> Option<(String, u64)>>(self, d: D, r: Result<Future, BuildError>) -> bool {
        match r {
            Ok(f) => f matches Future::Task(t) && self.gives(d, t),
            Err(BuildError::NoDestination) => self.dst is None,
            Err(BuildError::BadDestination(x)) => self.dst == Some(x@) && !takes_prefix_suffix(
                x@,
                self.dst_prefix,
                self.dst_suffix,
            ),
            Err(BuildError::Unreadable(p)) => reads_none(d, self.read_paths(), p@),
            Err(_) => false,
        }
    }

    /// The run can be made into a task, whatever the probe reads: it has a
    /// destination, which takes its prefix and suffix.
    pub open spec fn sound(self) -> bool {
        self.dst matches Some(d) && takes_prefix_suffix(d, self.dst_prefix, self.dst_suffix)
    }
}

impl Ar {
    /// A run of the archiver, looked up under its usual name as a cached
    /// call, that builds below the root of `ctx`.
    pub fn new<F: Fn(&str, &str) -> bool, E: Fn(&str) -> bool>(
        ctx: &mut crate::context::Context<F>,
        path_var: &str,
        present: &E,
    ) -> (r: Result<Ar, crate::workcache::ExecError>)
        requires
            crate::context::sees_all(*present),
        ensures
            final(ctx).root == old(ctx).root,
            final(ctx).ctx.freshness == old(ctx).ctx.freshness,
            r is Err ==> final(ctx).ctx.db == old(ctx).ctx.db,
            crate::path_util::found(
                names(),
                path_var@,
                *present,
                old(ctx).ctx,
                final(ctx).ctx,
                crate::builders::c::gcc::program_of(r, |a: Ar| a.exe),
            ),
            r matches Ok(a) ==> a@ == (ArView {
                root: old(ctx).root@,
                exe: a.exe@,
                dst_prefix: None,
                dst_suffix: None,
                dst: None,
                srcs: Seq::empty(),
                flags: seq!["-rc"@],
            }),
    {
        match crate::path_util::find_program(ctx, &exes(), path_var, present) {
            Ok(exe) => Ok(Ar::new_with(ctx, exe)),
            Err(e) => Err(e),
        }
    }

    /// A run of the archiver `exe` that builds below the root of `ctx`,
    /// with the flags to replace and to create, and nothing else set.
    pub fn new_with<F: Fn(&str, &str) -> bool, T: crate::into_path::IntoPath>(
        ctx: &crate::context::Context<F>,
        exe: T,
    ) -> (a: Ar)
        ensures
            a@ == (ArView {
                root: ctx.root@,
                exe: exe.path_text(),
                dst_prefix: None,
                dst_suffix: None,
                dst: None,
                srcs: Seq::empty(),
                flags: seq!["-rc"@],
            }),
    {
        let mut flags: Vec<String> = Vec::new();
        flags.push("-rc".to_owned());
        let a = Ar {
            root: ctx.root.clone(),
            exe: exe.into_path(),
            dst_prefix: None,
            dst_suffix: None,
            dst: None,
            srcs: Vec::new(),
            flags,
        };
        proof {
            assert(texts(a.srcs@) =~= Seq::<Seq<char>>::empty());
            assert(texts(a.flags@) =~= seq!["-rc"@]);
        }
        a
    }

    /// A copy of the run.
    pub fn copy(&self) -> (a: Ar)
        ensures
            a@ == self@,
    {
        Ar {
            root: self.root.clone(),
            exe: self.exe.clone(),
            dst_prefix: copy_opt(&self.dst_prefix),
            dst_suffix: copy_opt(&self.dst_suffix),
            dst: copy_opt(&self.dst),
            srcs: copy_texts(&self.srcs),
            flags: copy_texts(&self.flags),
        }
    }

    pub fn set_dst_prefix(self, dst_prefix: &str) -> (a: Ar)
        ensures
            a@ == (ArView { dst_prefix: Some(dst_prefix@), ..self@ }),
    {
        let mut a = self;
        a.dst_prefix = Some(dst_prefix.to_owned());
        a
    }

    pub fn set_dst_suffix(self, dst_suffix: &str) -> (a: Ar)
        ensures
            a@ == (ArView { dst_suffix: Some(dst_suffix@), ..self@ }),
    {
        let mut a = self;
        a.dst_suffix = Some(dst_suffix.to_owned());
        a
    }

    /// Sets the destination, placed below the root.
    pub fn set_dst<T: crate::into_path::IntoPath>(self, dst: T) -> (a: Ar)
        ensures
            a@ == (ArView { dst: Some(placed(self.root@, dst.path_text())), ..self@ }),
    {
        let mut a = self;
        let dst = place(a.root.as_str(), dst.into_path());
        a.dst = Some(dst);
        a
    }

    pub fn add_src(self, src: String) -> (a: Ar)
        ensures
            a@ == (ArView { srcs: self@.srcs.push(src@), ..self@ }),
    {
        let mut a = self;
        a.srcs = with_text(a.srcs, src);
        a
    }

    pub fn add_flag(self, flag: &str) -> (a: Ar)
        ensures
            a@ == (ArView { flags: self@.flags.push(flag@), ..self@ }),
    {
        let mut a = self;
        a.flags = with_text(a.flags, flag.to_owned());
        a
    }

    /// Makes the run into a task: reads the program and the sources through
    /// the probe, puts the command line together, and prepares the cached
    /// call that declares it. Fails where no destination is set, where the
    /// destination does not take its prefix and suffix, or where nothing can
    /// be read at one of the paths.
    pub fn into_future<D: Fn(&str) -> Option<(String, u64)>>(self, digest_of: &D) -> (r: Result<Future, BuildError>)
        requires
            reads_all(*digest_of),
        ensures
            self@.prepared(*digest_of, r),
            self@.sound() && (forall|i: int|
                0 <= i < self@.read_paths().len() ==> !reads(*digest_of, #[trigger] self@.read_paths()[i], None))
                ==> r is Ok,
            !self@.sound() ==> r is Err,
    {
        let ghost v = self@;
        let ghost paths = v.read_paths();
        let dst = match &self.dst {
            None => {
                return Err(BuildError::NoDestination);
            },
            Some(d) => match try_add_prefix_suffix(d.clone(), as_text(&self.dst_prefix), as_text(&self.dst_suffix)) {
                Some(p) => p,
                None => {
                    return Err(BuildError::BadDestination(d.clone()));
                },
            },
        };
        let prog = match InputPath::read(self.exe.as_str(), digest_of) {
            Some(p) => p,
            None => {
                assert(paths[0] == v.exe);
                assert(paths.contains(v.exe));
                return Err(BuildError::Unreadable(self.exe.clone()));
            },
        };
        let ghost a_exe = (prog.digest@, prog.modified);
        let mut call = Call::new(prog);
        call.push_strs(&self.flags);
        call.push_output_path(dst.clone());
        let ghost before_srcs = call.args();
        assert(before_srcs =~= literals(v.flags) + seq![ArgView::OutputPath(v.target())]);
        match call.push_input_paths(None, &self.srcs, digest_of) {
            Ok(()) => {},
            Err(p) => {
                proof {
                    let i = choose|i: int| 0 <= i < v.srcs.len() && v.srcs[i] == p@;
                    assert(paths[1 + i] == p@);
                    assert(paths.contains(p@));
                }
                return Err(BuildError::Unreadable(p));
            },
        }
        let ghost a_srcs = choose|answers: Seq<(Seq<char>, u64)>| #[trigger]
            reads_each(*digest_of, v.srcs, answers) && call.args() == before_srcs + inputs(v.srcs, answers);
        let mut prep = Prep::new("Call");
        prep.declare_call(&call);
        let Ar { exe, srcs, .. } = self;
        let task = Task { prep, call, exe, dst, srcs };
        proof {
            assert(v.dst is Some);
            assert(reads(*digest_of, v.exe, Some(a_exe)));
            assert(reads_each(*digest_of, v.srcs, a_srcs));
            assert(v.makes(a_exe, a_srcs, task));
            assert(v.gives(*digest_of, task));
        }
        Ok(Future::Task(task))
    }

    /// Makes the run into a task and carries the task out.
    pub fn run<
        F: Fn(&str, &str) -> bool,
        D: Fn(&str) -> Option<(String, u64)>,
        X: FnOnce(String, crate::process_builder::ProcessBuilder) -> Result<bool, String>,
    >(self, ctx: &mut crate::workcache::Context<F>, digest_of: &D, execute: X) -> (r: Result<String, BuildError>)
        requires
            reads_all(*digest_of),
            crate::into_future::launchable(execute),
        ensures
            final(ctx).freshness == old(ctx).freshness,
            final(ctx).cfg == old(ctx).cfg,
            final(ctx).logger == old(ctx).logger,
            r is Err ==> final(ctx).db == old(ctx).db,
            match r {
                Ok(path) => exists|t: Task| #[trigger]
                    self@.prepared(*digest_of, Ok(Future::Task(t))) && t.carried_out(
                        execute,
                        *old(ctx),
                        *final(ctx),
                        Ok(path),
                    ),
                Err(BuildError::Failed(e)) => exists|t: Task| #[trigger]
                    self@.prepared(*digest_of, Ok(Future::Task(t))) && t.carried_out(
                        execute,
                        *old(ctx),
                        *final(ctx),
                        Err(e),
                    ),
                Err(e) => self@.prepared(*digest_of, Err(e)),
            },
    {
        match self.into_future(digest_of) {
            Err(e) => Err(e),
            Ok(f) => match f.unwrap(ctx, execute) {
                Ok(path) => Ok(path),
                Err(e) => Err(BuildError::Failed(e)),
            },
        }
    }
}

impl<D: Fn(&str) -> Option<(String, u64)>> crate::into_future::IntoFuture<D> for Ar {
    open spec fn future_given(&self, d: D, r: Result<Future, BuildError>) -> bool {
        self@.prepared(d, r)
    }

    fn into_future(self, digest_of: &D) -> (r: Result<Future, BuildError>) {
        Ar::into_future(self, digest_of)
    }
}

} // verus!
