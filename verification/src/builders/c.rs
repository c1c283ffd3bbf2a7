//! Builders for C: objects, static and shared libraries, executables.

pub mod gcc;

use vstd::prelude::*;
use crate::builders::ar::{Ar, ArView};
use crate::builders::c::gcc::{placed, Gcc, GccView};
use crate::into_path::IntoPath;
use crate::paths::{no_separator, path_with_extension, with_extension};

verus! {

pub const COMPILE_PREFIX: &'static str = "";

pub const COMPILE_SUFFIX: &'static str = "o";

pub const LIB_PREFIX: &'static str = "lib";

pub const STATIC_LIB_SUFFIX: &'static str = "a";

pub const SHARED_LIB_SUFFIX: &'static str = "so";

/// The path of the object that is compiled from `src`.
pub open spec fn object_text(src: Seq<char>) -> Seq<char> {
    path_with_extension(src, "o"@)
}

/// The path of the object that is compiled from `src`.
pub fn object_of(src: &str) -> (r: String)
    ensures
        r@ == object_text(src@),
{
    proof {
        reveal_strlit("o");
        assert(no_separator("o"@));
    }
    with_extension(src, "o")
}

/// A run of the compiler `exe` with nothing set.
pub open spec fn fresh_gcc(root: Seq<char>, exe: Seq<char>, lib_prefix: Seq<char>, lib_suffix: Seq<char>) -> GccView {
    GccView {
        root,
        exe,
        dst_prefix: None,
        dst_suffix: None,
        dst: None,
        srcs: Seq::empty(),
        includes: Seq::empty(),
        lib_prefix,
        lib_suffix,
        libs: Seq::empty(),
        external_libs: Seq::empty(),
        libpaths: Seq::empty(),
        macros: Seq::empty(),
        warnings: Seq::empty(),
        debug: false,
        profile: false,
        optimize: false,
        flags: Seq::empty(),
    }
}

/// The cached searches for the compiler and then for the archiver may take
/// the shared state from `before` to `after` and give `r`: both programs,
/// or the error of the first search that failed, in which case the search
/// for the compiler may still have left its record.
pub open spec fn both_found<F: Fn(&str, &str) -> bool, E: Fn(&str) -> bool>(
    path_var: Seq<char>,
    e: E,
    before: crate::workcache::Context<F>,
    after: crate::workcache::Context<F>,
    r: Result<StaticBuilder, crate::workcache::ExecError>,
) -> bool {
    match r {
        Ok(b) => exists|between: crate::workcache::Context<F>| #[trigger]
            crate::path_util::found(crate::builders::c::gcc::names(), path_var, e, before, between, Ok(b.gcc.exe@))
                && crate::path_util::found(crate::builders::ar::names(), path_var, e, between, after, Ok(b.ar.exe@)),
        Err(err) => crate::path_util::found(crate::builders::c::gcc::names(), path_var, e, before, after, Err(err)) || exists|
            between: crate::workcache::Context<F>,
            gcc: Seq<char>,
        | #[trigger]
            crate::path_util::found(crate::builders::c::gcc::names(), path_var, e, before, between, Ok(gcc))
                && crate::path_util::found(crate::builders::ar::names(), path_var, e, between, after, Err(err)),
    }
}

/// Builds objects, static libraries and executables.
pub struct StaticBuilder {
    pub gcc: Gcc,
    pub ar: Ar,
}

impl StaticBuilder {
    /// A builder whose compiler and archiver are looked up under their
    /// usual names, for static libraries.
    pub fn new<F: Fn(&str, &str) -> bool, E: Fn(&str) -> bool>(
        ctx: &mut crate::context::Context<F>,
        path_var: &str,
        present: &E,
    ) -> (r: Result<StaticBuilder, crate::workcache::ExecError>)
        requires
            crate::context::sees_all(*present),
        ensures
            final(ctx).root == old(ctx).root,
            final(ctx).ctx.freshness == old(ctx).ctx.freshness,
            both_found(path_var@, *present, old(ctx).ctx, final(ctx).ctx, r),
            r matches Ok(b) ==> b.gcc@ == fresh_gcc(old(ctx).root@, b.gcc.exe@, "lib"@, "a"@) && b.ar@ == (ArView {
                root: old(ctx).root@,
                exe: b.ar.exe@,
                dst_prefix: None,
                dst_suffix: None,
                dst: None,
                srcs: Seq::empty(),
                flags: seq!["-rc"@],
            }),
    {
        let gcc = match Gcc::new(ctx, path_var, present, LIB_PREFIX, STATIC_LIB_SUFFIX) {
            Ok(g) => g,
            Err(e) => {
                return Err(e);
            },
        };
        let ghost between = ctx.ctx;
        assert(crate::path_util::found(
            crate::builders::c::gcc::names(),
            path_var@,
            *present,
            old(ctx).ctx,
            between,
            Ok(gcc.exe@),
        ));
        let ar = match Ar::new(ctx, path_var, present) {
            Ok(a) => a,
            Err(e) => {
                assert(crate::path_util::found(crate::builders::ar::names(), path_var@, *present, between, ctx.ctx, Err(e)));
                return Err(e);
            },
        };
        assert(crate::path_util::found(crate::builders::ar::names(), path_var@, *present, between, ctx.ctx, Ok(ar.exe@)));
        Ok(StaticBuilder::new_with(gcc, ar))
    }

    pub fn new_with(gcc: Gcc, ar: Ar) -> (b: StaticBuilder)
        ensures
            b.gcc == gcc,
            b.ar == ar,
    {
        StaticBuilder { gcc, ar }
    }

    /// The run of the compiler that compiles `src` to its object.
    pub fn compile(&self, src: String) -> (g: Gcc)
        ensures
            g@ == (GccView {
                dst: Some(placed(self.gcc@.root, object_text(src@))),
                dst_suffix: Some("o"@),
                srcs: self.gcc@.srcs.push(src@),
                flags: self.gcc@.flags.push("-c"@),
                ..self.gcc@
            }),
    {
        let dst = object_of(src.as_str());
        self.gcc.copy().set_dst(dst).set_dst_suffix(COMPILE_SUFFIX).add_src(src).add_flag("-c")
    }

    /// The run of the archiver that makes the static library `dst`.
    pub fn link_lib<T: IntoPath>(&self, dst: T) -> (a: Ar)
        ensures
            a@ == (ArView {
                dst: Some(placed(self.ar@.root, dst.path_text())),
                dst_prefix: Some("lib"@),
                dst_suffix: Some("a"@),
                ..self.ar@
            }),
    {
        self.ar.copy().set_dst(dst).set_dst_prefix(LIB_PREFIX).set_dst_suffix(STATIC_LIB_SUFFIX)
    }

    /// The run of the compiler that links the executable `dst`.
    pub fn link_exe<T: IntoPath>(&self, dst: T) -> (g: Gcc)
        ensures
            g@ == (GccView { dst: Some(placed(self.gcc@.root, dst.path_text())), ..self.gcc@ }),
    {
        self.gcc.copy().set_dst(dst)
    }

    pub fn add_include(self, dir: String) -> (b: StaticBuilder)
        ensures
            b.gcc@ == (GccView { includes: self.gcc@.includes.push(dir@), ..self.gcc@ }),
            b.ar == self.ar,
    {
        let StaticBuilder { gcc, ar } = self;
        StaticBuilder { gcc: gcc.add_include(dir), ar }
    }

    pub fn add_lib(self, lib: String) -> (b: StaticBuilder)
        ensures
            b.gcc@ == (GccView { libs: self.gcc@.libs.push(lib@), ..self.gcc@ }),
            b.ar == self.ar,
    {
        let StaticBuilder { gcc, ar } = self;
        StaticBuilder { gcc: gcc.add_lib(lib), ar }
    }

    pub fn add_external_lib(self, lib: &str) -> (b: StaticBuilder)
        ensures
            b.gcc@ == (GccView { external_libs: self.gcc@.external_libs.push(lib@), ..self.gcc@ }),
            b.ar == self.ar,
    {
        let StaticBuilder { gcc, ar } = self;
        StaticBuilder { gcc: gcc.add_external_lib(lib), ar }
    }

    pub fn add_libpath<T: IntoPath>(self, libpath: T) -> (b: StaticBuilder)
        ensures
            b.gcc@ == (GccView { libpaths: self.gcc@.libpaths.push(libpath.path_text()), ..self.gcc@ }),
            b.ar == self.ar,
    {
        let StaticBuilder { gcc, ar } = self;
        StaticBuilder { gcc: gcc.add_libpath(libpath), ar }
    }

    pub fn add_macro(self, name: &str) -> (b: StaticBuilder)
        ensures
            b.gcc@ == (GccView { macros: self.gcc@.macros.push(name@), ..self.gcc@ }),
            b.ar == self.ar,
    {
        let StaticBuilder { gcc, ar } = self;
        StaticBuilder { gcc: gcc.add_macro(name), ar }
    }

    pub fn add_warning(self, warning: &str) -> (b: StaticBuilder)
        ensures
            b.gcc@ == (GccView { warnings: self.gcc@.warnings.push(warning@), ..self.gcc@ }),
            b.ar == self.ar,
    {
        let StaticBuilder { gcc, ar } = self;
        StaticBuilder { gcc: gcc.add_warning(warning), ar }
    }

    pub fn set_debug(self, debug: bool) -> (b: StaticBuilder)
        ensures
            b.gcc@ == (GccView { debug, ..self.gcc@ }),
            b.ar == self.ar,
    {
        let StaticBuilder { gcc, ar } = self;
        StaticBuilder { gcc: gcc.set_debug(debug), ar }
    }

    pub fn set_optimize(self, optimize: bool) -> (b: StaticBuilder)
        ensures
            b.gcc@ == (GccView { optimize, ..self.gcc@ }),
            b.ar == self.ar,
    {
        let StaticBuilder { gcc, ar } = self;
        StaticBuilder { gcc: gcc.set_optimize(optimize), ar }
    }

    pub fn set_profile(self, profile: bool) -> (b: StaticBuilder)
        ensures
            b.gcc@ == (GccView { profile, ..self.gcc@ }),
            b.ar == self.ar,
    {
        let StaticBuilder { gcc, ar } = self;
        StaticBuilder { gcc: gcc.set_profile(profile), ar }
    }

    pub fn add_flag(self, flag: &str) -> (b: StaticBuilder)
        ensures
            b.gcc@ == (GccView { flags: self.gcc@.flags.push(flag@), ..self.gcc@ }),
            b.ar == self.ar,
    {
        let StaticBuilder { gcc, ar } = self;
        StaticBuilder { gcc: gcc.add_flag(flag), ar }
    }
}

/// Builds objects, shared libraries and executables.
pub struct SharedBuilder {
    pub gcc: Gcc,
}

impl SharedBuilder {
    /// A builder whose compiler is looked up under its usual names, for
    /// shared libraries.
    pub fn new<F: Fn(&str, &str) -> bool, E: Fn(&str) -> bool>(
        ctx: &mut crate::context::Context<F>,
        path_var: &str,
        present: &E,
    ) -> (r: Result<SharedBuilder, crate::workcache::ExecError>)
        requires
            crate::context::sees_all(*present),
        ensures
            final(ctx).root == old(ctx).root,
            final(ctx).ctx.freshness == old(ctx).ctx.freshness,
            r is Err ==> final(ctx).ctx.db == old(ctx).ctx.db,
            crate::path_util::found(
                crate::builders::c::gcc::names(),
                path_var@,
                *present,
                old(ctx).ctx,
                final(ctx).ctx,
                crate::builders::c::gcc::program_of(r, |b: SharedBuilder| b.gcc.exe),
            ),
            r matches Ok(b) ==> b.gcc@ == fresh_gcc(old(ctx).root@, b.gcc.exe@, "lib"@, "so"@),
    {
        match Gcc::new(ctx, path_var, present, LIB_PREFIX, SHARED_LIB_SUFFIX) {
            Ok(g) => Ok(SharedBuilder::new_with(g)),
            Err(e) => Err(e),
        }
    }

    pub fn new_with(gcc: Gcc) -> (b: SharedBuilder)
        ensures
            b.gcc == gcc,
    {
        SharedBuilder { gcc }
    }

    /// The run of the compiler that compiles `src` to an object that can
    /// stand at any address.
    pub fn compile(&self, src: String) -> (g: Gcc)
        ensures
            g@ == (GccView {
                dst: Some(placed(self.gcc@.root, object_text(src@))),
                dst_suffix: Some("o"@),
                srcs: self.gcc@.srcs.push(src@),
                flags: self.gcc@.flags.push("-c"@).push("-fPIC"@),
                ..self.gcc@
            }),
    {
        let dst = object_of(src.as_str());
        self.gcc.copy().set_dst(dst).set_dst_suffix(COMPILE_SUFFIX).add_src(src).add_flag("-c").add_flag(
            "-fPIC",
        )
    }

    /// The run of the compiler that links the shared library `dst`.
    pub fn link_lib<T: IntoPath>(&self, dst: T) -> (g: Gcc)
        ensures
            g@ == (GccView {
                dst: Some(placed(self.gcc@.root, dst.path_text())),
                dst_prefix: Some("lib"@),
                dst_suffix: Some("so"@),
                flags: self.gcc@.flags.push("-fPIC"@).push("-dynamiclib"@),
                ..self.gcc@
            }),
    {
        self.gcc.copy().set_dst(dst).set_dst_prefix(LIB_PREFIX).set_dst_suffix(SHARED_LIB_SUFFIX).add_flag(
            "-fPIC",
        ).add_flag("-dynamiclib")
    }

    /// The run of the compiler that links the executable `dst`.
    pub fn link_exe<T: IntoPath>(&self, dst: T) -> (g: Gcc)
        ensures
            g@ == (GccView { dst: Some(placed(self.gcc@.root, dst.path_text())), ..self.gcc@ }),
    {
        self.gcc.copy().set_dst(dst)
    }

    pub fn add_include(self, dir: String) -> (b: SharedBuilder)
        ensures
            b.gcc@ == (GccView { includes: self.gcc@.includes.push(dir@), ..self.gcc@ }),
    {
        SharedBuilder { gcc: self.gcc.add_include(dir) }
    }

    pub fn add_lib(self, lib: String) -> (b: SharedBuilder)
        ensures
            b.gcc@ == (GccView { libs: self.gcc@.libs.push(lib@), ..self.gcc@ }),
    {
        SharedBuilder { gcc: self.gcc.add_lib(lib) }
    }

    pub fn add_external_lib(self, lib: &str) -> (b: SharedBuilder)
        ensures
            b.gcc@ == (GccView { external_libs: self.gcc@.external_libs.push(lib@), ..self.gcc@ }),
    {
        SharedBuilder { gcc: self.gcc.add_external_lib(lib) }
    }

    pub fn add_libpath<T: IntoPath>(self, libpath: T) -> (b: SharedBuilder)
        ensures
            b.gcc@ == (GccView { libpaths: self.gcc@.libpaths.push(libpath.path_text()), ..self.gcc@ }),
    {
        SharedBuilder { gcc: self.gcc.add_libpath(libpath) }
    }

    pub fn add_macro(self, name: &str) -> (b: SharedBuilder)
        ensures
            b.gcc@ == (GccView { macros: self.gcc@.macros.push(name@), ..self.gcc@ }),
    {
        SharedBuilder { gcc: self.gcc.add_macro(name) }
    }

    pub fn add_warning(self, warning: &str) -> (b: SharedBuilder)
        ensures
            b.gcc@ == (GccView { warnings: self.gcc@.warnings.push(warning@), ..self.gcc@ }),
    {
        SharedBuilder { gcc: self.gcc.add_warning(warning) }
    }

    pub fn set_debug(self, debug: bool) -> (b: SharedBuilder)
        ensures
            b.gcc@ == (GccView { debug, ..self.gcc@ }),
    {
        SharedBuilder { gcc: self.gcc.set_debug(debug) }
    }

    pub fn set_optimize(self, optimize: bool) -> (b: SharedBuilder)
        ensures
            b.gcc@ == (GccView { optimize, ..self.gcc@ }),
    {
        SharedBuilder { gcc: self.gcc.set_optimize(optimize) }
    }

    pub fn set_profile(self, profile: bool) -> (b: SharedBuilder)
        ensures
            b.gcc@ == (GccView { profile, ..self.gcc@ }),
    {
        SharedBuilder { gcc: self.gcc.set_profile(profile) }
    }

    pub fn add_flag(self, flag: &str) -> (b: SharedBuilder)
        ensures
            b.gcc@ == (GccView { flags: self.gcc@.flags.push(flag@), ..self.gcc@ }),
    {
        SharedBuilder { gcc: self.gcc.add_flag(flag) }
    }
}

} // verus!
