//! The GNU C compiler as compiler and linker.

use vstd::prelude::*;
use vstd::string::StrSliceExecFns;
use crate::context::{flagged, input_path_kind, inputs, literals, reads, reads_all, reads_each, reads_none};
use crate::text::{as_text, copy_opt, copy_texts, opt_text, texts, with_text};
use crate::context::{ArgView, Call, InputPath};
use crate::into_future::{dir_path, dir_text, name_of, name_text, BuildError, Future, Task};
use crate::order::same_text;
use crate::path_util::{prefix_suffix_added, takes_prefix_suffix, try_add_prefix_suffix};
use crate::workcache::Prep;
use crate::workmap::Key;

verus! {

/// The part of the file name of a library that names it to the linker: what
/// stands between the prefix of libraries and the character before their
/// suffix. There is none where the name does not begin with the prefix, does
/// not end in the suffix, is too short to hold both and a character between,
/// or where that character is not a plain one.
pub open spec fn lib_stem(name: Seq<char>, prefix: Seq<char>, suffix: Seq<char>) -> Option<Seq<char>> {
    if name.len() >= prefix.len() + suffix.len() + 1 && name.subrange(0, prefix.len() as int) == prefix
        && name.subrange(name.len() - suffix.len(), name.len() as int) == suffix && (name[name.len()
        - suffix.len() - 1] as u32) < 128 {
        Some(name.subrange(prefix.len() as int, name.len() - suffix.len() - 1))
    } else {
        None
    }
}

/// The part of the file name of a library that names it to the linker.
pub fn stem_of(name: &str, prefix: &str, suffix: &str) -> (r: Option<String>)
    ensures
        match r {
            Some(s) => lib_stem(name@, prefix@, suffix@) == Some(s@),
            None => lib_stem(name@, prefix@, suffix@) is None,
        },
{
    let n = name.unicode_len();
    let p = prefix.unicode_len();
    let s = suffix.unicode_len();
    if p > n {
        return None;
    }
    if s >= n - p {
        return None;
    }
    if !same_text(name.substring_char(0, p), prefix) {
        return None;
    }
    if !same_text(name.substring_char(n - s, n), suffix) {
        return None;
    }
    if name.get_char(n - s - 1) as u32 >= 128 {
        return None;
    }
    Some(name.substring_char(p, n - s - 1).to_owned())
}

/// The names under which the compiler is looked for.
pub open spec fn names() -> Seq<Seq<char>> {
    seq!["gcc"@, "cc"@]
}

/// The names under which the compiler is looked for.
pub fn exes() -> (names: Vec<String>)
    ensures
        texts(names@) == self::names(),
{
    let mut names: Vec<String> = Vec::new();
    names.push("gcc".to_owned());
    names.push("cc".to_owned());
    assert(texts(names@) =~= seq!["gcc"@, "cc"@]);
    names
}

/// A run of the compiler in the making.
pub struct Gcc {
    pub root: String,
    pub exe: String,
    pub dst_prefix: Option<String>,
    pub dst_suffix: Option<String>,
    pub dst: Option<String>,
    pub srcs: Vec<String>,
    pub includes: Vec<String>,
    pub lib_prefix: String,
    pub lib_suffix: String,
    pub libs: Vec<String>,
    pub external_libs: Vec<String>,
    pub libpaths: Vec<String>,
    pub macros: Vec<String>,
    pub warnings: Vec<String>,
    pub debug: bool,
    pub profile: bool,
    pub optimize: bool,
    pub flags: Vec<String>,
}

/// A run of the compiler in the making, as plain values.
pub struct GccView {
    pub root: Seq<char>,
    pub exe: Seq<char>,
    pub dst_prefix: Option<Seq<char>>,
    pub dst_suffix: Option<Seq<char>>,
    pub dst: Option<Seq<char>>,
    pub srcs: Seq<Seq<char>>,
    pub includes: Seq<Seq<char>>,
    pub lib_prefix: Seq<char>,
    pub lib_suffix: Seq<char>,
    pub libs: Seq<Seq<char>>,
    pub external_libs: Seq<Seq<char>>,
    pub libpaths: Seq<Seq<char>>,
    pub macros: Seq<Seq<char>>,
    pub warnings: Seq<Seq<char>>,
    pub debug: bool,
    pub profile: bool,
    pub optimize: bool,
    pub flags: Seq<Seq<char>>,
}

/// What the probe answered about the files that a run reads.
pub struct Answers {
    pub exe: (Seq<char>, u64),
    pub includes: Seq<(Seq<char>, u64)>,
    pub libs: Seq<(Seq<char>, u64)>,
    pub srcs: Seq<(Seq<char>, u64)>,
}

impl View for Gcc {
    type V = GccView;

    open spec fn view(&self) -> GccView {
        GccView {
            root: self.root@,
            exe: self.exe@,
            dst_prefix: opt_text(self.dst_prefix),
            dst_suffix: opt_text(self.dst_suffix),
            dst: opt_text(self.dst),
            srcs: texts(self.srcs@),
            includes: texts(self.includes@),
            lib_prefix: self.lib_prefix@,
            lib_suffix: self.lib_suffix@,
            libs: texts(self.libs@),
            external_libs: texts(self.external_libs@),
            libpaths: texts(self.libpaths@),
            macros: texts(self.macros@),
            warnings: texts(self.warnings@),
            debug: self.debug,
            profile: self.profile,
            optimize: self.optimize,
            flags: texts(self.flags@),
        }
    }
}

/// The literal `flag` where `on` holds, and nothing otherwise.
pub open spec fn switch(on: bool, flag: Seq<char>) -> Seq<ArgView> {
    if on {
        seq![ArgView::Str(flag)]
    } else {
        Seq::empty()
    }
}

/// The directory of each library.
pub open spec fn lib_dirs(libs: Seq<Seq<char>>) -> Seq<Seq<char>> {
    libs.map_values(|l: Seq<char>| dir_text(l))
}

/// The name to the linker of each library.
pub open spec fn lib_stems(libs: Seq<Seq<char>>, prefix: Seq<char>, suffix: Seq<char>) -> Seq<Seq<char>> {
    libs.map_values(|l: Seq<char>| lib_stem(name_text(l), prefix, suffix)->0)
}

/// The declared inputs after each library has been declared as a path that
/// is read, one after another: every one is filed under its own path.
pub open spec fn libs_declared(
    before: Map<Key, Seq<char>>,
    libs: Seq<Seq<char>>,
    answers: Seq<(Seq<char>, u64)>,
) -> Map<Key, Seq<char>>
    decreases libs.len(),
{
    if libs.len() == 0 {
        before
    } else {
        libs_declared(before, libs.drop_last(), answers.drop_last()).insert(
            (libs.last(), input_path_kind()),
            crate::codec::row_text(ArgView::InputPath(libs.last(), answers.last().0, answers.last().1).row()),
        )
    }
}

impl GccView {
    /// The destination with its prefix and suffix, and the empty path where
    /// none is set.
    pub open spec fn target(self) -> Seq<char> {
        match self.dst {
            Some(d) => prefix_suffix_added(d, self.dst_prefix, self.dst_suffix),
            None => Seq::empty(),
        }
    }

    /// Every path that a run reads, in the order in which it reads them: the
    /// program, the include directories, the libraries, the sources.
    pub open spec fn read_paths(self) -> Seq<Seq<char>> {
        seq![self.exe] + self.includes + self.libs + self.srcs
    }

    /// The probe may give the answers `ans` about the files that a run
    /// reads.
    pub open spec fn answered<D: Fn(&str) -> Option<(String, u64)>>(self, d: D, ans: Answers) -> bool {
        &&& reads(d, self.exe, Some(ans.exe))
        &&& reads_each(d, self.includes, ans.includes)
        &&& reads_each(d, self.libs, ans.libs)
        &&& reads_each(d, self.srcs, ans.srcs)
    }

    /// The arguments of the command line, given the answers of the probe:
    /// the output, the include directories, the directories of libraries,
    /// the names of libraries, the switches for debugging, optimizing and
    /// profiling, the macros, the warnings, the other flags, the sources.
    pub open spec fn args(self, ans: Answers) -> Seq<ArgView> {
        (match self.dst {
            Some(_) => seq![ArgView::Str("-o"@), ArgView::OutputPath(self.target())],
            None => Seq::empty(),
        }) + flagged("-I"@, inputs(self.includes, ans.includes)) + flagged("-L"@, literals(self.libpaths))
            + flagged("-L"@, literals(lib_dirs(self.libs))) + flagged("-l"@, literals(self.external_libs))
            + flagged("-l"@, literals(lib_stems(self.libs, self.lib_prefix, self.lib_suffix))) + switch(
            self.debug,
            "-g"@,
        ) + switch(self.optimize, "-O2"@) + switch(self.profile, "-pg"@) + flagged(
            "-D"@,
            literals(self.macros),
        ) + flagged("-W"@, literals(self.warnings)) + literals(self.flags) + inputs(self.srcs, ans.srcs)
    }

    /// The task `t` is the one that the run makes, given the answers of the
    /// probe.
    pub open spec fn makes(self, ans: Answers, t: Task) -> bool {
        &&& t.exe@ == self.exe
        &&& t.dst@ == self.target()
        &&& texts(t.srcs@) == self.srcs
        &&& t.call.prog() == ArgView::InputPath(self.exe, ans.exe.0, ans.exe.1)
        &&& t.call.args() == self.args(ans)
        &&& t.prep.name() == "Call"@
        &&& t.prep.declared()@ == libs_declared(Map::<Key, Seq<char>>::empty(), self.libs, ans.libs).insert(
            (""@, crate::context::call_kind()),
            t.call.text(),
        )
    }

    /// The task `t` is the one that the run makes on answers that the probe
    /// `d` may give.
    pub open spec fn gives<D: Fn(&str) -> Option<(String, u64)>>(self, d: D, t: Task) -> bool {
        exists|ans: Answers| #[trigger] self.answered(d, ans) && self.makes(ans, t)
    }

    /// Making the run into a task with the probe `d` may give `r`: the task
    /// that the run makes on answers that the probe may give, or the reason
    /// why there is none.
    pub open spec fn prepared<D: Fn(&str) -> Option<(String, u64)>>(self, d: D, r: Result<Future, BuildError>) -> bool {
        match r {
            Ok(f) => f matches Future::Task(t) && self.gives(d, t),
            Err(BuildError::NoSources) => self.srcs.len() == 0,
            Err(BuildError::BadDestination(x)) => self.dst == Some(x@) && !takes_prefix_suffix(
                x@,
                self.dst_prefix,
                self.dst_suffix,
            ),
            Err(BuildError::Unreadable(p)) => reads_none(d, self.read_paths(), p@),
            Err(BuildError::BadLibraryName(l)) => exists|i: int|
                0 <= i < self.libs.len() && #[trigger] self.libs[i] == l@ && lib_stem(
                    name_text(l@),
                    self.lib_prefix,
                    self.lib_suffix,
                ) is None,
            Err(_) => false,
        }
    }

    /// The run can be made into a task, whatever the probe reads: it has a
    /// source, its destination takes its prefix and suffix, and every
    /// library has a name to the linker.
    pub open spec fn sound(self) -> bool {
        &&& self.srcs.len() > 0
        &&& self.dst matches Some(d) ==> takes_prefix_suffix(d, self.dst_prefix, self.dst_suffix)
        &&& forall|i: int|
            0 <= i < self.libs.len() ==> lib_stem(
                name_text(#[trigger] self.libs[i]),
                self.lib_prefix,
                self.lib_suffix,
            ) is Some
    }
}

/// The destination below the root: the path itself where the root begins
/// with it, and the path adjoined to the root otherwise.
pub open spec fn placed(root: Seq<char>, dst: Seq<char>) -> Seq<char> {
    if crate::paths::path_starts_with(root, dst) {
        dst
    } else {
        crate::paths::path_joined(root, dst)
    }
}

/// The destination below the root.
pub fn place(root: &str, dst: String) -> (r: String)
    ensures
        r@ == placed(root@, dst@),
{
    if crate::paths::starts_with(root, dst.as_str()) {
        dst
    } else {
        crate::paths::join(root, dst.as_str())
    }
}

/// Reads every library through the probe, declares it as a path that the
/// call reads, and gives the directory and the name to the linker of each.
pub fn read_libs<D: Fn(&str) -> Option<(String, u64)>>(
    prep: &mut Prep,
    libs: &Vec<String>,
    prefix: &str,
    suffix: &str,
    digest_of: &D,
) -> (r: Result<(Vec<String>, Vec<String>), BuildError>)
    requires
        reads_all(*digest_of),
    ensures
        final(prep).name() == old(prep).name(),
        match r {
            Ok((dirs, stems)) => texts(dirs@) == lib_dirs(texts(libs@)) && texts(stems@) == lib_stems(
                texts(libs@),
                prefix@,
                suffix@,
            ) && (forall|i: int|
                0 <= i < libs@.len() ==> lib_stem(name_text(#[trigger] texts(libs@)[i]), prefix@, suffix@) is Some)
                && exists|answers: Seq<(Seq<char>, u64)>| #[trigger]
                reads_each(*digest_of, texts(libs@), answers) && final(prep).declared()@ == libs_declared(
                    old(prep).declared()@,
                    texts(libs@),
                    answers,
                ),
            Err(BuildError::Unreadable(p)) => reads_none(*digest_of, texts(libs@), p@),
            Err(BuildError::BadLibraryName(l)) => exists|i: int|
                0 <= i < libs@.len() && #[trigger] texts(libs@)[i] == l@ && lib_stem(
                    name_text(l@),
                    prefix@,
                    suffix@,
                ) is None,
            Err(_) => false,
        },
{
    let ghost all = texts(libs@);
    let ghost mut answers: Seq<(Seq<char>, u64)> = Seq::empty();
    let mut dirs: Vec<String> = Vec::new();
    let mut stems: Vec<String> = Vec::new();
    let mut i: usize = 0;
    proof {
        assert(texts(dirs@) =~= lib_dirs(all.take(0)));
        assert(texts(stems@) =~= lib_stems(all.take(0), prefix@, suffix@));
    }
    while i < libs.len()
        invariant
            i <= libs@.len(),
            all == texts(libs@),
            reads_all(*digest_of),
            prep.name() == old(prep).name(),
            texts(dirs@) == lib_dirs(all.take(i as int)),
            texts(stems@) == lib_stems(all.take(i as int), prefix@, suffix@),
            forall|j: int| 0 <= j < i ==> lib_stem(name_text(#[trigger] all[j]), prefix@, suffix@) is Some,
            reads_each(*digest_of, all.take(i as int), answers),
            prep.declared()@ == libs_declared(old(prep).declared()@, all.take(i as int), answers),
        decreases libs@.len() - i,
    {
        let lib = libs[i].as_str();
        assert(all[i as int] == lib@);
        let ghost seen = answers;
        let ghost dirs_before = dirs@;
        let ghost stems_before = stems@;
        match InputPath::read(lib, digest_of) {
            None => {
                return Err(BuildError::Unreadable(libs[i].clone()));
            },
            Some(p) => {
                prep.declare_input_path(&p);
                proof {
                    answers = seen.push((p.digest@, p.modified));
                    let next = all.take(i + 1);
                    assert(next.drop_last() =~= all.take(i as int));
                    assert(answers.drop_last() =~= seen);
                    assert forall|j: int| 0 <= j < i + 1 implies reads(
                        *digest_of,
                        #[trigger] next[j],
                        Some(answers[j]),
                    ) by {
                        if j < i {
                            assert(next[j] == all.take(i as int)[j]);
                        }
                    }
                }
            },
        }
        dirs.push(dir_path(lib));
        let name = name_of(lib);
        match stem_of(name.as_str(), prefix, suffix) {
            None => {
                return Err(BuildError::BadLibraryName(libs[i].clone()));
            },
            Some(stem) => {
                stems.push(stem);
            },
        }
        proof {
            let next = all.take(i + 1);
            assert(texts(dirs@) =~= texts(dirs_before).push(dir_text(lib@)));
            assert(lib_dirs(next) =~= lib_dirs(all.take(i as int)).push(dir_text(lib@)));
            assert(texts(stems@) =~= texts(stems_before).push(lib_stem(name_text(lib@), prefix@, suffix@)->0));
            assert(lib_stems(next, prefix@, suffix@) =~= lib_stems(all.take(i as int), prefix@, suffix@).push(
                lib_stem(name_text(lib@), prefix@, suffix@)->0,
            ));
        }
        i += 1;
    }
    assert(all.take(i as int) =~= all);
    Ok((dirs, stems))
}

/// What a constructor that looks its program up gives: the path of the
/// program where one was made, and the error otherwise.
pub open spec fn program_of<T>(r: Result<T, crate::workcache::ExecError>, exe: spec_fn(T) -> String) -> Result<
    Seq<char>,
    crate::workcache::ExecError,
> {
    match r {
        Ok(t) => Ok(exe(t)@),
        Err(e) => Err(e),
    }
}

impl Gcc {
    /// A run of the compiler, looked up under its usual names as a cached
    /// call, that builds below the root of `ctx`, with nothing set, for
    /// libraries with the given prefix and suffix.
    pub fn new<F: Fn(&str, &str) -> bool, E: Fn(&str) -> bool>(
        ctx: &mut crate::context::Context<F>,
        path_var: &str,
        present: &E,
        lib_prefix: &str,
        lib_suffix: &str,
    ) -> (r: Result<Gcc, crate::workcache::ExecError>)
        requires
            crate::context::sees_all(*present),
        ensures
            final(ctx).root == old(ctx).root,
            final(ctx).ctx.freshness == old(ctx).ctx.freshness,
            r is Err ==> final(ctx).ctx.db == old(ctx).ctx.db,
            crate::path_util::found(
                names(),
                path_var@,
                *present,
                old(ctx).ctx,
                final(ctx).ctx,
                program_of(r, |g: Gcc| g.exe),
            ),
            r matches Ok(g) ==> g@ == (GccView {
                root: old(ctx).root@,
                exe: g.exe@,
                dst_prefix: None,
                dst_suffix: None,
                dst: None,
                srcs: Seq::empty(),
                includes: Seq::empty(),
                lib_prefix: lib_prefix@,
                lib_suffix: lib_suffix@,
                libs: Seq::empty(),
                external_libs: Seq::empty(),
                libpaths: Seq::empty(),
                macros: Seq::empty(),
                warnings: Seq::empty(),
                debug: false,
                profile: false,
                optimize: false,
                flags: Seq::empty(),
            }),
    {
        match crate::path_util::find_program(ctx, &exes(), path_var, present) {
            Ok(exe) => Ok(Gcc::new_with(ctx, exe, lib_prefix, lib_suffix)),
            Err(e) => Err(e),
        }
    }

    /// A run of the compiler `exe` that builds below the root of `ctx`, with
    /// nothing set, for libraries with the given prefix and suffix.
    pub fn new_with<F: Fn(&str, &str) -> bool, T: crate::into_path::IntoPath>(
        ctx: &crate::context::Context<F>,
        exe: T,
        lib_prefix: &str,
        lib_suffix: &str,
    ) -> (g: Gcc)
        ensures
            g@ == (GccView {
                root: ctx.root@,
                exe: exe.path_text(),
                dst_prefix: None,
                dst_suffix: None,
                dst: None,
                srcs: Seq::empty(),
                includes: Seq::empty(),
                lib_prefix: lib_prefix@,
                lib_suffix: lib_suffix@,
                libs: Seq::empty(),
                external_libs: Seq::empty(),
                libpaths: Seq::empty(),
                macros: Seq::empty(),
                warnings: Seq::empty(),
                debug: false,
                profile: false,
                optimize: false,
                flags: Seq::empty(),
            }),
    {
        let g = Gcc {
            root: ctx.root.clone(),
            exe: exe.into_path(),
            dst_prefix: None,
            dst_suffix: None,
            dst: None,
            srcs: Vec::new(),
            includes: Vec::new(),
            lib_prefix: lib_prefix.to_owned(),
            lib_suffix: lib_suffix.to_owned(),
            libs: Vec::new(),
            external_libs: Vec::new(),
            libpaths: Vec::new(),
            macros: Vec::new(),
            warnings: Vec::new(),
            debug: false,
            profile: false,
            optimize: false,
            flags: Vec::new(),
        };
        proof {
            assert(texts(g.srcs@) =~= Seq::<Seq<char>>::empty());
            assert(texts(g.includes@) =~= Seq::<Seq<char>>::empty());
            assert(texts(g.libs@) =~= Seq::<Seq<char>>::empty());
            assert(texts(g.external_libs@) =~= Seq::<Seq<char>>::empty());
            assert(texts(g.libpaths@) =~= Seq::<Seq<char>>::empty());
            assert(texts(g.macros@) =~= Seq::<Seq<char>>::empty());
            assert(texts(g.warnings@) =~= Seq::<Seq<char>>::empty());
            assert(texts(g.flags@) =~= Seq::<Seq<char>>::empty());
        }
        g
    }

    /// A copy of the run.
    pub fn copy(&self) -> (g: Gcc)
        ensures
            g@ == self@,
    {
        Gcc {
            root: self.root.clone(),
            exe: self.exe.clone(),
            dst_prefix: copy_opt(&self.dst_prefix),
            dst_suffix: copy_opt(&self.dst_suffix),
            dst: copy_opt(&self.dst),
            srcs: copy_texts(&self.srcs),
            includes: copy_texts(&self.includes),
            lib_prefix: self.lib_prefix.clone(),
            lib_suffix: self.lib_suffix.clone(),
            libs: copy_texts(&self.libs),
            external_libs: copy_texts(&self.external_libs),
            libpaths: copy_texts(&self.libpaths),
            macros: copy_texts(&self.macros),
            warnings: copy_texts(&self.warnings),
            debug: self.debug,
            profile: self.profile,
            optimize: self.optimize,
            flags: copy_texts(&self.flags),
        }
    }

    pub fn set_dst_prefix(self, dst_prefix: &str) -> (g: Gcc)
        ensures
            g@ == (GccView { dst_prefix: Some(dst_prefix@), ..self@ }),
    {
        let mut g = self;
        g.dst_prefix = Some(dst_prefix.to_owned());
        g
    }

    pub fn set_dst_suffix(self, dst_suffix: &str) -> (g: Gcc)
        ensures
            g@ == (GccView { dst_suffix: Some(dst_suffix@), ..self@ }),
    {
        let mut g = self;
        g.dst_suffix = Some(dst_suffix.to_owned());
        g
    }

    /// Sets the destination, placed below the root.
    pub fn set_dst<T: crate::into_path::IntoPath>(self, dst: T) -> (g: Gcc)
        ensures
            g@ == (GccView { dst: Some(placed(self.root@, dst.path_text())), ..self@ }),
    {
        let mut g = self;
        let dst = place(g.root.as_str(), dst.into_path());
        g.dst = Some(dst);
        g
    }

    pub fn add_src(self, src: String) -> (g: Gcc)
        ensures
            g@ == (GccView { srcs: self@.srcs.push(src@), ..self@ }),
    {
        let mut g = self;
        g.srcs = with_text(g.srcs, src);
        g
    }

    pub fn add_include(self, dir: String) -> (g: Gcc)
        ensures
            g@ == (GccView { includes: self@.includes.push(dir@), ..self@ }),
    {
        let mut g = self;
        g.includes = with_text(g.includes, dir);
        g
    }

    pub fn add_lib(self, lib: String) -> (g: Gcc)
        ensures
            g@ == (GccView { libs: self@.libs.push(lib@), ..self@ }),
    {
        let mut g = self;
        g.libs = with_text(g.libs, lib);
        g
    }

    pub fn add_external_lib(self, lib: &str) -> (g: Gcc)
        ensures
            g@ == (GccView { external_libs: self@.external_libs.push(lib@), ..self@ }),
    {
        let mut g = self;
        g.external_libs = with_text(g.external_libs, lib.to_owned());
        g
    }

    pub fn add_libpath<T: crate::into_path::IntoPath>(self, libpath: T) -> (g: Gcc)
        ensures
            g@ == (GccView { libpaths: self@.libpaths.push(libpath.path_text()), ..self@ }),
    {
        let mut g = self;
        g.libpaths = with_text(g.libpaths, libpath.into_path());
        g
    }

    pub fn add_macro(self, name: &str) -> (g: Gcc)
        ensures
            g@ == (GccView { macros: self@.macros.push(name@), ..self@ }),
    {
        let mut g = self;
        g.macros = with_text(g.macros, name.to_owned());
        g
    }

    pub fn add_warning(self, warning: &str) -> (g: Gcc)
        ensures
            g@ == (GccView { warnings: self@.warnings.push(warning@), ..self@ }),
    {
        let mut g = self;
        g.warnings = with_text(g.warnings, warning.to_owned());
        g
    }

    pub fn set_debug(self, debug: bool) -> (g: Gcc)
        ensures
            g@ == (GccView { debug, ..self@ }),
    {
        let mut g = self;
        g.debug = debug;
        g
    }

    pub fn set_optimize(self, optimize: bool) -> (g: Gcc)
        ensures
            g@ == (GccView { optimize, ..self@ }),
    {
        let mut g = self;
        g.optimize = optimize;
        g
    }

    pub fn set_profile(self, profile: bool) -> (g: Gcc)
        ensures
            g@ == (GccView { profile, ..self@ }),
    {
        let mut g = self;
        g.profile = profile;
        g
    }

    pub fn add_flag(self, flag: &str) -> (g: Gcc)
        ensures
            g@ == (GccView { flags: self@.flags.push(flag@), ..self@ }),
    {
        let mut g = self;
        g.flags = with_text(g.flags, flag.to_owned());
        g
    }
}

impl Gcc {
    /// Makes the run into a task: reads the program, the include
    /// directories, the libraries and the sources through the probe, puts
    /// the command line together, and prepares the cached call that
    /// declares it. Fails where there is no source, where the destination
    /// does not take its prefix and suffix, where nothing can be read at one
    /// of the paths, or where a library has no name to the linker.
    pub fn into_future<D: Fn(&str) -> Option<(String, u64)>>(self, digest_of: &D) -> (r: Result<Future, BuildError>)
        requires
            reads_all(*digest_of),
        ensures
            self@.prepared(*digest_of, r),
            self@.sound() && (forall|i: int|
                0 <= i < self@.read_paths().len() ==> !reads(*digest_of, #[trigger] self@.read_paths()[i], None))
                ==> r is Ok,
            self@.srcs.len() == 0 ==> r matches Err(BuildError::NoSources),
            !self@.sound() ==> r is Err,
    {
        let ghost v = self@;
        let ghost paths = v.read_paths();
        if self.srcs.len() == 0 {
            return Err(BuildError::NoSources);
        }
        assert(v.srcs.len() == self.srcs@.len());
        let mut prep = Prep::new("Call");
        let prog = match InputPath::read(self.exe.as_str(), digest_of) {
            Some(p) => p,
            None => {
                assert(paths[0] == v.exe);
                return Err(BuildError::Unreadable(self.exe.clone()));
            },
        };
        let ghost a_exe = (prog.digest@, prog.modified);
        let mut call = Call::new(prog);
        let dst = match &self.dst {
            Some(d) => {
                match try_add_prefix_suffix(d.clone(), as_text(&self.dst_prefix), as_text(&self.dst_suffix)) {
                    Some(p) => {
                        call.push_str("-o".to_owned());
                        call.push_output_path(p.clone());
                        p
                    },
                    None => {
                        return Err(BuildError::BadDestination(d.clone()));
                    },
                }
            },
            None => String::new(),
        };
        let ghost part0 = match v.dst {
            Some(_) => seq![ArgView::Str("-o"@), ArgView::OutputPath(v.target())],
            None => Seq::<ArgView>::empty(),
        };
        assert(dst@ == v.target());
        assert(call.args() =~= part0);
        match call.push_input_paths(Some("-I"), &self.includes, digest_of) {
            Ok(()) => {},
            Err(p) => {
                proof {
                    let i = choose|i: int| 0 <= i < v.includes.len() && v.includes[i] == p@;
                    assert(paths[1 + i] == p@);
                }
                return Err(BuildError::Unreadable(p));
            },
        }
        let ghost a_incs = choose|answers: Seq<(Seq<char>, u64)>| #[trigger]
            reads_each(*digest_of, v.includes, answers) && call.args() == part0 + flagged(
                "-I"@,
                inputs(v.includes, answers),
            );
        let (dirs, stems) = match read_libs(
            &mut prep,
            &self.libs,
            self.lib_prefix.as_str(),
            self.lib_suffix.as_str(),
            digest_of,
        ) {
            Ok(found) => found,
            Err(BuildError::Unreadable(p)) => {
                proof {
                    let i = choose|i: int| 0 <= i < v.libs.len() && v.libs[i] == p@;
                    assert(paths[1 + v.includes.len() + i] == p@);
                }
                return Err(BuildError::Unreadable(p));
            },
            Err(e) => {
                return Err(e);
            },
        };
        let ghost a_libs = choose|answers: Seq<(Seq<char>, u64)>| #[trigger]
            reads_each(*digest_of, v.libs, answers) && prep.declared()@ == libs_declared(
                Map::<Key, Seq<char>>::empty(),
                v.libs,
                answers,
            );
        call.push_flagged_strs("-L", &self.libpaths);
        call.push_flagged_strs("-L", &dirs);
        call.push_flagged_strs("-l", &self.external_libs);
        call.push_flagged_strs("-l", &stems);
        let ghost before_switches = call.args();
        if self.debug {
            call.push_str("-g".to_owned());
        }
        assert(call.args() =~= before_switches + switch(v.debug, "-g"@));
        let ghost after_debug = call.args();
        if self.optimize {
            call.push_str("-O2".to_owned());
        }
        assert(call.args() =~= after_debug + switch(v.optimize, "-O2"@));
        let ghost after_optimize = call.args();
        if self.profile {
            call.push_str("-pg".to_owned());
        }
        assert(call.args() =~= after_optimize + switch(v.profile, "-pg"@));
        call.push_flagged_strs("-D", &self.macros);
        call.push_flagged_strs("-W", &self.warnings);
        call.push_strs(&self.flags);
        let ghost before_srcs = call.args();
        match call.push_input_paths(None, &self.srcs, digest_of) {
            Ok(()) => {},
            Err(p) => {
                proof {
                    let i = choose|i: int| 0 <= i < v.srcs.len() && v.srcs[i] == p@;
                    assert(paths[1 + v.includes.len() + v.libs.len() + i] == p@);
                }
                return Err(BuildError::Unreadable(p));
            },
        }
        let ghost a_srcs = choose|answers: Seq<(Seq<char>, u64)>| #[trigger]
            reads_each(*digest_of, v.srcs, answers) && call.args() == before_srcs + inputs(v.srcs, answers);
        prep.declare_call(&call);
        let Gcc { exe, srcs, .. } = self;
        let task = Task { prep, call, exe, dst, srcs };
        proof {
            let ans = Answers { exe: a_exe, includes: a_incs, libs: a_libs, srcs: a_srcs };
            assert(v.answered(*digest_of, ans));
            assert(v.makes(ans, task));
            assert(v.gives(*digest_of, task));
            assert(v.sound());
        }
        Ok(Future::Task(task))
    }

    /// Makes the run into a task and carries the task out.
    pub fn run<
        F: Fn(&str, &str) -> bool,
        D: Fn(&str) -> Option<(String, u64)>,
        X: FnOnce(String, crate::process_builder::ProcessBuilder) -> Result<bool, String>,
    >(self, ctx: &mut crate::workcache::Context<F>, digest_of: &D, execute: X) -> (r: Result<String, BuildError>)
        requires
            reads_all(*digest_of),
            crate::into_future::launchable(execute),
        ensures
            final(ctx).freshness == old(ctx).freshness,
            final(ctx).cfg == old(ctx).cfg,
            final(ctx).logger == old(ctx).logger,
            r is Err ==> final(ctx).db == old(ctx).db,
            match r {
                Ok(path) => exists|t: Task| #[trigger]
                    self@.prepared(*digest_of, Ok(Future::Task(t))) && t.carried_out(
                        execute,
                        *old(ctx),
                        *final(ctx),
                        Ok(path),
                    ),
                Err(BuildError::Failed(e)) => exists|t: Task| #[trigger]
                    self@.prepared(*digest_of, Ok(Future::Task(t))) && t.carried_out(
                        execute,
                        *old(ctx),
                        *final(ctx),
                        Err(e),
                    ),
                Err(e) => self@.prepared(*digest_of, Err(e)),
            },
    {
        match self.into_future(digest_of) {
            Err(e) => Err(e),
            Ok(f) => match f.unwrap(ctx, execute) {
                Ok(path) => Ok(path),
                Err(e) => Err(BuildError::Failed(e)),
            },
        }
    }
}

impl<D: Fn(&str) -> Option<(String, u64)>> crate::into_future::IntoFuture<D> for Gcc {
    open spec fn future_given(&self, d: D, r: Result<Future, BuildError>) -> bool {
        self@.prepared(d, r)
    }

    fn into_future(self, digest_of: &D) -> (r: Result<Future, BuildError>) {
        Gcc::into_future(self, digest_of)
    }
}

} // verus!
