//! A compiler driven directly: one run that compiles sources to an object,
//! one that links objects to an executable.

use vstd::prelude::*;
use crate::builders::c::{object_of, object_text};
use crate::context::{inputs, literals, reads, reads_all, reads_each, reads_none};
use crate::context::{ArgView, Call, InputPath};
use crate::into_future::{BuildError, Future, Task};
use crate::text::{texts, with_text};
use crate::workcache::Prep;
use crate::workmap::Key;

verus! {

/// A compiler: its program and the flags that every run starts with.
pub struct Compiler {
    pub exe: String,
    pub flags: Vec<String>,
}

/// A run that compiles sources to an object.
pub struct Compile {
    pub exe: String,
    pub dst: Option<String>,
    pub srcs: Vec<String>,
    pub flags: Vec<String>,
}

/// A run that links objects to an executable.
pub struct LinkExe {
    pub exe: String,
    pub dst: String,
    pub srcs: Vec<String>,
    pub flags: Vec<String>,
}

/// A run of the compiler as plain values: the program, what it writes, what
/// it is made from, and its flags.
pub struct RunView {
    pub exe: Seq<char>,
    pub dst: Seq<char>,
    pub srcs: Seq<Seq<char>>,
    pub flags: Seq<Seq<char>>,
}

impl RunView {
    /// Every path that the run reads, in the order in which it reads them:
    /// the program, then the sources.
    pub open spec fn read_paths(self) -> Seq<Seq<char>> {
        seq![self.exe] + self.srcs
    }

    /// The arguments of the command line, given what the probe answered
    /// about the sources: the output, the flags, the sources.
    pub open spec fn args(self, srcs: Seq<(Seq<char>, u64)>) -> Seq<ArgView> {
        seq![ArgView::Str("-o"@), ArgView::OutputPath(self.dst)] + literals(self.flags) + inputs(
            self.srcs,
            srcs,
        )
    }

    /// The task `t` is the one that the run makes, given what the probe
    /// answered about the program and the sources.
    pub open spec fn makes(self, exe: (Seq<char>, u64), srcs: Seq<(Seq<char>, u64)>, t: Task) -> bool {
        &&& t.exe@ == self.exe
        &&& t.dst@ == self.dst
        &&& texts(t.srcs@) == self.srcs
        &&& t.call.prog() == ArgView::InputPath(self.exe, exe.0, exe.1)
        &&& t.call.args() == self.args(srcs)
        &&& t.prep.name() == "Call"@
        &&& t.prep.declared()@ == Map::<Key, Seq<char>>::empty().insert(
            (""@, crate::context::call_kind()),
            t.call.text(),
        )
    }

    /// The task `t` is the one that the run makes on answers that the probe
    /// `d` may give.
    pub open spec fn gives<D: Fn(&str) -> Option<(String, u64)>>(self, d: D, t: Task) -> bool {
        exists|exe: (Seq<char>, u64), srcs: Seq<(Seq<char>, u64)>| #[trigger]
            self.makes(exe, srcs, t) && reads(d, self.exe, Some(exe)) && reads_each(d, self.srcs, srcs)
    }

    /// Making the run into a task with the probe `d` may give `r`: the task
    /// that the run makes on answers that the probe may give, or the path at
    /// which nothing can be read.
    pub open spec fn prepared<D: Fn(&str) -> Option<(String, u64)>>(self, d: D, r: Result<Future, BuildError>) -> bool {
        match r {
            Ok(f) => f matches Future::Task(t) && self.gives(d, t),
            Err(BuildError::Unreadable(p)) => reads_none(d, self.read_paths(), p@),
            Err(_) => false,
        }
    }
}

/// Makes a run into a task: reads the program and the sources through the
/// probe, puts the command line together, and prepares the cached call that
/// declares it.
pub fn prepare<D: Fn(&str) -> Option<(String, u64)>>(
    exe: String,
    dst: String,
    srcs: Vec<String>,
    flags: &Vec<String>,
    digest_of: &D,
) -> (r: Result<Future, BuildError>)
    requires
        reads_all(*digest_of),
    ensures
        (RunView { exe: exe@, dst: dst@, srcs: texts(srcs@), flags: texts(flags@) }).prepared(*digest_of, r),
        (forall|i: int|
            0 <= i < 1 + srcs@.len() ==> !reads(
                *digest_of,
                #[trigger] (RunView { exe: exe@, dst: dst@, srcs: texts(srcs@), flags: texts(flags@) }).read_paths()[i],
                None,
            )) ==> r is Ok,
{
    let ghost v = RunView { exe: exe@, dst: dst@, srcs: texts(srcs@), flags: texts(flags@) };
    let ghost paths = v.read_paths();
    let prog = match InputPath::read(exe.as_str(), digest_of) {
        Some(p) => p,
        None => {
            assert(paths[0] == v.exe);
            assert(paths.contains(v.exe));
            return Err(BuildError::Unreadable(exe));
        },
    };
    let ghost a_exe = (prog.digest@, prog.modified);
    let mut call = Call::new(prog);
    call.push_str("-o".to_owned());
    call.push_output_path(dst.clone());
    call.push_strs(flags);
    let ghost before_srcs = call.args();
    assert(before_srcs =~= seq![ArgView::Str("-o"@), ArgView::OutputPath(v.dst)] + literals(v.flags));
    match call.push_input_paths(None, &srcs, digest_of) {
        Ok(()) => {},
        Err(p) => {
            proof {
                let i = choose|i: int| 0 <= i < v.srcs.len() && v.srcs[i] == p@;
                assert(paths[1 + i] == p@);
                assert(paths.contains(p@));
            }
            return Err(BuildError::Unreadable(p));
        },
    }
    let ghost a_srcs = choose|answers: Seq<(Seq<char>, u64)>| #[trigger]
        reads_each(*digest_of, v.srcs, answers) && call.args() == before_srcs + inputs(v.srcs, answers);
    let mut prep = Prep::new("Call");
    prep.declare_call(&call);
    let task = Task { prep, call, exe, dst, srcs };
    proof {
        assert(reads(*digest_of, v.exe, Some(a_exe)));
        assert(reads_each(*digest_of, v.srcs, a_srcs));
        assert(v.makes(a_exe, a_srcs, task));
        assert(v.gives(*digest_of, task));
    }
    Ok(Future::Task(task))
}

impl Compiler {
    pub fn new(exe: String) -> (c: Compiler)
        ensures
            c.exe == exe,
            texts(c.flags@) == Seq::<Seq<char>>::empty(),
    {
        let c = Compiler { exe, flags: Vec::new() };
        assert(texts(c.flags@) =~= Seq::<Seq<char>>::empty());
        c
    }

    /// The run that compiles `src`, with the flag that stops before
    /// linking, and no destination set.
    pub fn compile(&self, src: String) -> (c: Compile)
        ensures
            c.exe@ == self.exe@,
            c.dst is None,
            texts(c.srcs@) == seq![src@],
            texts(c.flags@) == seq!["-c"@],
    {
        let mut srcs: Vec<String> = Vec::new();
        srcs.push(src);
        let mut flags: Vec<String> = Vec::new();
        flags.push("-c".to_owned());
        proof {
            assert(texts(srcs@) =~= seq![src@]);
            assert(texts(flags@) =~= seq!["-c"@]);
        }
        Compile { exe: self.exe.clone(), dst: None, srcs, flags }
    }

    /// The run that links `srcs` to the executable `dst`, with no flags.
    pub fn link_exe(&self, dst: String, srcs: Vec<String>) -> (l: LinkExe)
        ensures
            l.exe@ == self.exe@,
            l.dst == dst,
            l.srcs == srcs,
            texts(l.flags@) == Seq::<Seq<char>>::empty(),
    {
        let l = LinkExe { exe: self.exe.clone(), dst, srcs, flags: Vec::new() };
        assert(texts(l.flags@) =~= Seq::<Seq<char>>::empty());
        l
    }
}

impl Compile {
    /// What the run writes: the destination that is set, and otherwise the
    /// first source with the extension of objects.
    pub open spec fn target(&self) -> Seq<char> {
        match self.dst {
            Some(d) => d@,
            None => object_text(self.srcs@[0]@),
        }
    }

    /// The run as plain values.
    pub open spec fn view_run(&self) -> RunView {
        RunView { exe: self.exe@, dst: self.target(), srcs: texts(self.srcs@), flags: texts(self.flags@) }
    }

    pub fn set_dst(self, dst: String) -> (c: Compile)
        ensures
            c.dst == Some(dst),
            c.exe == self.exe,
            c.srcs == self.srcs,
            c.flags == self.flags,
    {
        let mut c = self;
        c.dst = Some(dst);
        c
    }

    pub fn add_src(self, src: String) -> (c: Compile)
        ensures
            texts(c.srcs@) == texts(self.srcs@).push(src@),
            c.exe == self.exe,
            c.dst == self.dst,
            c.flags == self.flags,
    {
        let mut c = self;
        c.srcs = with_text(c.srcs, src);
        c
    }

    pub fn add_flag(self, flag: &str) -> (c: Compile)
        ensures
            texts(c.flags@) == texts(self.flags@).push(flag@),
            c.exe == self.exe,
            c.dst == self.dst,
            c.srcs == self.srcs,
    {
        let mut c = self;
        c.flags = with_text(c.flags, flag.to_owned());
        c
    }

    pub fn add_flags(self, flags: &Vec<String>) -> (c: Compile)
        ensures
            texts(c.flags@) == texts(self.flags@) + texts(flags@),
            c.exe == self.exe,
            c.dst == self.dst,
            c.srcs == self.srcs,
    {
        let mut c = self;
        c.flags = joined(c.flags, flags);
        c
    }

    /// Makes the run into a task. Fails where there is neither a
    /// destination nor a source to name it after, or where nothing can be
    /// read at one of the paths.
    pub fn into_future<D: Fn(&str) -> Option<(String, u64)>>(self, digest_of: &D) -> (r: Result<Future, BuildError>)
        requires
            reads_all(*digest_of),
        ensures
            match r {
                Err(BuildError::NoSources) => self.dst is None && self.srcs@.len() == 0,
                _ => (self.dst is Some || self.srcs@.len() > 0) && self.view_run().prepared(*digest_of, r),
            },
    {
        let Compile { exe, dst, srcs, flags } = self;
        let dst = match dst {
            Some(d) => d,
            None => {
                if srcs.len() == 0 {
                    return Err(BuildError::NoSources);
                }
                object_of(srcs[0].as_str())
            },
        };
        prepare(exe, dst, srcs, &flags, digest_of)
    }

    /// Makes the run into a task and carries the task out.
    pub fn run<
        F: Fn(&str, &str) -> bool,
        D: Fn(&str) -> Option<(String, u64)>,
        X: FnOnce(String, crate::process_builder::ProcessBuilder) -> Result<bool, String>,
    >(self, ctx: &mut crate::workcache::Context<F>, digest_of: &D, execute: X) -> (r: Result<String, BuildError>)
        requires
            reads_all(*digest_of),
            crate::into_future::launchable(execute),
        ensures
            final(ctx).freshness == old(ctx).freshness,
            final(ctx).cfg == old(ctx).cfg,
            final(ctx).logger == old(ctx).logger,
            r is Err ==> final(ctx).db == old(ctx).db,
            match r {
                Ok(path) => exists|t: Task| #[trigger]
                    self.view_run().gives(*digest_of, t) && t.carried_out(
                        execute,
                        *old(ctx),
                        *final(ctx),
                        Ok(path),
                    ),
                Err(BuildError::Failed(e)) => exists|t: Task| #[trigger]
                    self.view_run().gives(*digest_of, t) && t.carried_out(
                        execute,
                        *old(ctx),
                        *final(ctx),
                        Err(e),
                    ),
                Err(BuildError::NoSources) => self.dst is None && self.srcs@.len() == 0,
                Err(e) => self.view_run().prepared(*digest_of, Err(e)),
            },
    {
        match self.into_future(digest_of) {
            Err(e) => Err(e),
            Ok(f) => match f.unwrap(ctx, execute) {
                Ok(path) => Ok(path),
                Err(e) => Err(BuildError::Failed(e)),
            },
        }
    }
}

impl LinkExe {
    /// The run as plain values.
    pub open spec fn view_run(&self) -> RunView {
        RunView { exe: self.exe@, dst: self.dst@, srcs: texts(self.srcs@), flags: texts(self.flags@) }
    }

    pub fn add_src(self, src: String) -> (l: LinkExe)
        ensures
            texts(l.srcs@) == texts(self.srcs@).push(src@),
            l.exe == self.exe,
            l.dst == self.dst,
            l.flags == self.flags,
    {
        let mut l = self;
        l.srcs = with_text(l.srcs, src);
        l
    }

    pub fn add_flag(self, flag: &str) -> (l: LinkExe)
        ensures
            texts(l.flags@) == texts(self.flags@).push(flag@),
            l.exe == self.exe,
            l.dst == self.dst,
            l.srcs == self.srcs,
    {
        let mut l = self;
        l.flags = with_text(l.flags, flag.to_owned());
        l
    }

    pub fn add_flags(self, flags: &Vec<String>) -> (l: LinkExe)
        ensures
            texts(l.flags@) == texts(self.flags@) + texts(flags@),
            l.exe == self.exe,
            l.dst == self.dst,
            l.srcs == self.srcs,
    {
        let mut l = self;
        l.flags = joined(l.flags, flags);
        l
    }

    /// Makes the run into a task. Fails where nothing can be read at one of
    /// the paths.
    pub fn into_future<D: Fn(&str) -> Option<(String, u64)>>(self, digest_of: &D) -> (r: Result<Future, BuildError>)
        requires
            reads_all(*digest_of),
        ensures
            self.view_run().prepared(*digest_of, r),
    {
        let LinkExe { exe, dst, srcs, flags } = self;
        prepare(exe, dst, srcs, &flags, digest_of)
    }

    /// Makes the run into a task and carries the task out.
    pub fn run<
        F: Fn(&str, &str) -> bool,
        D: Fn(&str) -> Option<(String, u64)>,
        X: FnOnce(String, crate::process_builder::ProcessBuilder) -> Result<bool, String>,
    >(self, ctx: &mut crate::workcache::Context<F>, digest_of: &D, execute: X) -> (r: Result<String, BuildError>)
        requires
            reads_all(*digest_of),
            crate::into_future::launchable(execute),
        ensures
            final(ctx).freshness == old(ctx).freshness,
            final(ctx).cfg == old(ctx).cfg,
            final(ctx).logger == old(ctx).logger,
            r is Err ==> final(ctx).db == old(ctx).db,
            match r {
                Ok(path) => exists|t: Task| #[trigger]
                    self.view_run().gives(*digest_of, t) && t.carried_out(
                        execute,
                        *old(ctx),
                        *final(ctx),
                        Ok(path),
                    ),
                Err(BuildError::Failed(e)) => exists|t: Task| #[trigger]
                    self.view_run().gives(*digest_of, t) && t.carried_out(
                        execute,
                        *old(ctx),
                        *final(ctx),
                        Err(e),
                    ),
                Err(e) => self.view_run().prepared(*digest_of, Err(e)),
            },
    {
        match self.into_future(digest_of) {
            Err(e) => Err(e),
            Ok(f) => match f.unwrap(ctx, execute) {
                Ok(path) => Ok(path),
                Err(e) => Err(BuildError::Failed(e)),
            },
        }
    }
}

/// The strings of `items` followed by copies of the strings of `more`.
pub fn joined(items: Vec<String>, more: &Vec<String>) -> (r: Vec<String>)
    ensures
        texts(r@) == texts(items@) + texts(more@),
{
    let mut r = items;
    let mut i: usize = 0;
    assert(texts(items@) + texts(more@).take(0) =~= texts(items@));
    while i < more.len()
        invariant
            i <= more@.len(),
            texts(r@) == texts(items@) + texts(more@).take(i as int),
        decreases more@.len() - i,
    {
        let ghost before = r@;
        r.push(more[i].clone());
        proof {
            assert(texts(r@) =~= texts(before).push(more@[i as int]@));
            assert(texts(more@).take(i + 1) =~= texts(more@).take(i as int).push(more@[i as int]@));
            assert(texts(r@) =~= texts(items@) + texts(more@).take(i + 1));
        }
        i += 1;
    }
    assert(texts(more@).take(i as int) =~= texts(more@));
    r
}

} // verus!
