use rbuild::builders::ar::Ar;
use rbuild::builders::c::gcc::{stem_of, Gcc};
use rbuild::builders::c::{SharedBuilder, StaticBuilder};
use rbuild::context::Context;
use rbuild::into_future::{dir_path, name_of, BuildError, Future, Task};
use rbuild::path_util::{find_program, locate};
use rbuild::paths::split_colon;
use rbuild::process_builder::{is_white_space, trim_end, ProcessBuilder};
use rbuild::workcache::ExecError;
use std::cell::RefCell;
use std::collections::HashSet;
use std::rc::Rc;

type Pred = Box<dyn Fn(&str, &str) -> bool>;

type Files = Rc<RefCell<HashSet<String>>>;

fn files(names: &[&str]) -> Files {
    Rc::new(RefCell::new(names.iter().map(|n| n.to_string()).collect()))
}

/// A context in which a fact holds while every path that its value names
/// between double quotes and with a slash or a dot exists in `files`.
fn context_on(files: &Files) -> Context<Pred> {
    let seen = files.clone();
    let call: Pred = Box::new(move |_: &str, value: &str| {
        value.split('"').filter(|w| !w.starts_with("d:") && (w.contains('.') || w.contains('/'))).all(|w| seen.borrow().contains(w))
    });
    let seen = files.clone();
    let input: Pred = Box::new(move |_: &str, value: &str| {
        value.split('"').filter(|w| !w.starts_with("d:") && (w.contains('.') || w.contains('/'))).all(|w| seen.borrow().contains(w))
    });
    let seen = files.clone();
    let output: Pred = Box::new(move |_: &str, value: &str| {
        value.split('"').filter(|w| !w.starts_with("d:") && (w.contains('.') || w.contains('/'))).all(|w| seen.borrow().contains(w))
    });
    Context::new_in_path("build", call, input, output, Box::new(|_: &str, _: &str| true))
}

fn digest_in(files: &Files) -> impl Fn(&str) -> Option<(String, u64)> {
    let seen = files.clone();
    move |path: &str| if seen.borrow().contains(path) { Some((format!("d:{}", path), 5)) } else { None }
}

fn task_of(f: Result<Future, BuildError>) -> Task {
    match f {
        Ok(Future::Task(t)) => t,
        Ok(Future::Value(v)) => panic!("a value: {}", v),
        Err(_) => panic!("the run could not be made into a task"),
    }
}

fn words(t: &Task) -> Vec<String> {
    let (prog, mut args) = t.call.cmd();
    args.insert(0, prog);
    args
}

#[test]
fn stem_is_what_stands_between_prefix_and_dot_suffix() {
    assert_eq!(stem_of("libbar.a", "lib", "a"), Some("bar".to_string()));
    assert_eq!(stem_of("libbar.so", "lib", "so"), Some("bar".to_string()));
    assert_eq!(stem_of("lib.a", "lib", "a"), Some("".to_string()));
    assert_eq!(stem_of("bar.o", "", "o"), Some("bar".to_string()));
    assert_eq!(stem_of("liba", "lib", "a"), None);
    assert_eq!(stem_of("bar.a", "lib", "a"), None);
    assert_eq!(stem_of("libbar.so", "lib", "a"), None);
    assert_eq!(stem_of("li", "lib", "a"), None);
    assert_eq!(stem_of("lib\u{e9}a", "lib", "a"), None);
    assert_eq!(stem_of("libb\u{e9}r.a", "lib", "a"), Some("b\u{e9}r".to_string()));
}

#[test]
fn directory_and_file_name_of_a_path() {
    assert_eq!(dir_path("build/libbar.a"), "build");
    assert_eq!(dir_path("libbar.a"), ".");
    assert_eq!(dir_path("/usr/lib/x"), "/usr/lib");
    assert_eq!(dir_path("/"), "/");
    assert_eq!(name_of("/usr/bin/gcc"), "gcc");
    assert_eq!(name_of("gcc"), "gcc");
    assert_eq!(name_of(".."), "");
}

#[test]
fn gcc_puts_the_command_line_together_in_order() {
    let fs = files(&["/usr/bin/gcc", "inc", "build/libbar.a", "foo.c", "main.c"]);
    let cx = context_on(&fs);
    let gcc = Gcc::new_with(&cx, "/usr/bin/gcc", "lib", "a")
        .set_dst("foo")
        .set_dst_suffix("exe")
        .add_include("inc".to_string())
        .add_lib("build/libbar.a".to_string())
        .add_external_lib("m")
        .add_libpath("/opt/lib")
        .add_macro("NDEBUG")
        .add_warning("all")
        .set_debug(true)
        .set_optimize(true)
        .set_profile(true)
        .add_flag("-std=c99")
        .add_src("foo.c".to_string())
        .add_src("main.c".to_string());
    let t = task_of(gcc.into_future(&digest_in(&fs)));
    assert_eq!(
        words(&t),
        vec![
            "/usr/bin/gcc", "-o", "build/foo.exe", "-I", "inc", "-L", "/opt/lib", "-L", "build", "-l", "m", "-l",
            "bar", "-g", "-O2", "-pg", "-D", "NDEBUG", "-W", "all", "-std=c99", "foo.c", "main.c"
        ]
    );
    assert_eq!(t.dst, "build/foo.exe");
    assert_eq!(t.exe, "/usr/bin/gcc");
    assert_eq!(t.srcs, vec!["foo.c", "main.c"]);
    assert_eq!(t.prep.fn_name(), "Call");
    assert_eq!(t.prep.declared_inputs().len(), 2);
    assert_eq!(t.prep.declared_inputs().get("Call", "").cloned(), Some(t.call.to_text()));
    assert_eq!(
        t.prep.declared_inputs().get("InputPath", "build/libbar.a").map(|s| s.as_str()),
        Some("[\"InputPath\",\"build/libbar.a\",\"d:build/libbar.a\",5]")
    );
    let text = t.call.to_text();
    assert!(text.starts_with("[[\"InputPath\",\"/usr/bin/gcc\",\"d:/usr/bin/gcc\",5],[[\"Str\",\"-o\",\"\",0],[\"OutputPath\",\"build/foo.exe\",\"\",0],"));
    assert!(text.ends_with("[\"InputPath\",\"main.c\",\"d:main.c\",5]]]"));
}

#[test]
fn gcc_without_destination_names_no_output() {
    let fs = files(&["gcc", "foo.c"]);
    let cx = context_on(&fs);
    let t = task_of(Gcc::new_with(&cx, "gcc", "lib", "a").add_src("foo.c".to_string()).into_future(&digest_in(&fs)));
    assert_eq!(words(&t), vec!["gcc", "foo.c"]);
    assert_eq!(t.dst, "");
    assert_eq!(t.prep.declared_inputs().len(), 1);
}

#[test]
fn gcc_reports_what_keeps_it_from_running() {
    let fs = files(&["gcc", "foo.c", "libm.a", "libx.so"]);
    let cx = context_on(&fs);
    let base = || Gcc::new_with(&cx, "gcc", "lib", "a");
    let probe = digest_in(&fs);
    assert!(matches!(base().into_future(&probe), Err(BuildError::NoSources)));
    assert!(matches!(
        base().add_src("gone.c".to_string()).into_future(&probe),
        Err(BuildError::Unreadable(p)) if p == "gone.c"
    ));
    assert!(matches!(
        Gcc::new_with(&cx, "no-gcc", "lib", "a").add_src("foo.c".to_string()).into_future(&probe),
        Err(BuildError::Unreadable(p)) if p == "no-gcc"
    ));
    assert!(matches!(
        base().add_src("foo.c".to_string()).add_include("gone".to_string()).into_future(&probe),
        Err(BuildError::Unreadable(p)) if p == "gone"
    ));
    assert!(matches!(
        base().add_src("foo.c".to_string()).add_lib("libgone.a".to_string()).into_future(&probe),
        Err(BuildError::Unreadable(p)) if p == "libgone.a"
    ));
    assert!(matches!(
        base().add_src("foo.c".to_string()).add_lib("libx.so".to_string()).into_future(&probe),
        Err(BuildError::BadLibraryName(p)) if p == "libx.so"
    ));
    let mut odd = base().add_src("foo.c".to_string()).set_dst_prefix("lib");
    odd.dst = Some("..".to_string());
    assert!(matches!(odd.into_future(&probe), Err(BuildError::BadDestination(p)) if p == ".."));
    assert!(base().add_src("foo.c".to_string()).add_lib("libm.a".to_string()).into_future(&probe).is_ok());
}

#[test]
fn destination_is_placed_below_the_root() {
    let fs = files(&[]);
    let cx = context_on(&fs);
    assert_eq!(Gcc::new_with(&cx, "gcc", "lib", "a").set_dst("foo").dst, Some("build/foo".to_string()));
    assert_eq!(Gcc::new_with(&cx, "gcc", "lib", "a").set_dst("/abs/foo").dst, Some("/abs/foo".to_string()));
    assert_eq!(Gcc::new_with(&cx, "gcc", "lib", "a").set_dst("build").dst, Some("build".to_string()));
    assert_eq!(Ar::new_with(&cx, "ar").set_dst("x/bar".to_string()).dst, Some("build/x/bar".to_string()));
    let g = Gcc::new_with(&cx, "gcc", "lib", "a");
    assert_eq!((g.root.as_str(), g.exe.as_str(), g.lib_prefix.as_str(), g.lib_suffix.as_str()), ("build", "gcc", "lib", "a"));
    let copy = g.add_flag("-x").copy();
    assert_eq!(copy.flags, vec!["-x"]);
}

#[test]
fn ar_puts_flags_archive_and_sources_together() {
    let fs = files(&["/usr/bin/ar", "build/bar.o", "build/baz.o"]);
    let cx = context_on(&fs);
    let ar = Ar::new_with(&cx, "/usr/bin/ar")
        .set_dst("bar")
        .set_dst_prefix("lib")
        .set_dst_suffix("a")
        .add_flag("-v")
        .add_src("build/bar.o".to_string())
        .add_src("build/baz.o".to_string());
    assert_eq!(ar.copy().flags, vec!["-rc", "-v"]);
    let t = task_of(ar.into_future(&digest_in(&fs)));
    assert_eq!(words(&t), vec!["/usr/bin/ar", "-rc", "-v", "build/libbar.a", "build/bar.o", "build/baz.o"]);
    assert_eq!(t.dst, "build/libbar.a");
    assert_eq!(t.prep.declared_inputs().len(), 1);
}

#[test]
fn ar_reports_what_keeps_it_from_running() {
    let fs = files(&["ar", "bar.o"]);
    let cx = context_on(&fs);
    let probe = digest_in(&fs);
    assert!(matches!(Ar::new_with(&cx, "ar").into_future(&probe), Err(BuildError::NoDestination)));
    assert!(matches!(
        Ar::new_with(&cx, "ar").set_dst("bar").add_src("gone.o".to_string()).into_future(&probe),
        Err(BuildError::Unreadable(p)) if p == "gone.o"
    ));
    assert!(matches!(
        Ar::new_with(&cx, "gone").set_dst("bar").into_future(&probe),
        Err(BuildError::Unreadable(p)) if p == "gone"
    ));
    let mut odd = Ar::new_with(&cx, "ar").set_dst_suffix("a/b");
    odd.dst = Some("bar".to_string());
    assert!(matches!(odd.into_future(&probe), Err(BuildError::BadDestination(p)) if p == "bar"));
    assert!(Ar::new_with(&cx, "ar").set_dst("bar").into_future(&probe).is_ok());
}

#[test]
fn running_a_task_calls_the_runner_once_and_then_uses_the_record() {
    let fs = files(&["gcc", "foo.c"]);
    let mut cx = context_on(&fs);
    let probe = digest_in(&fs);
    let runs = Rc::new(RefCell::new(Vec::new()));
    let make = |cx: &Context<Pred>| Gcc::new_with(cx, "gcc", "lib", "a").set_dst("foo.o").add_flag("-c").add_src("foo.c".to_string());
    let log = runs.clone();
    let written = fs.clone();
    let r = make(&cx).run(&mut cx.ctx, &probe, move |dir: String, pb: ProcessBuilder| {
        log.borrow_mut().push((dir, pb.command_line(), pb.banner()));
        written.borrow_mut().insert("build/foo.o".to_string());
        Ok(true)
    });
    assert!(matches!(r, Ok(ref p) if p == "build/foo.o"));
    assert_eq!(
        *runs.borrow(),
        vec![(
            "build".to_string(),
            "gcc -o build/foo.o -c foo.c".to_string(),
            " * gcc       : build/foo.o <- foo.c\n".to_string()
        )]
    );
    assert_eq!(cx.ctx.db.len(), 1);
    // Nothing changed: the record stands and the runner is left alone.
    let r = make(&cx).run(&mut cx.ctx, &probe, |_: String, _: ProcessBuilder| panic!("ran again"));
    assert!(matches!(r, Ok(ref p) if p == "build/foo.o"));
    // The compiler is gone from the disk: nothing can be read there.
    fs.borrow_mut().remove("gcc");
    let r = make(&cx).run(&mut cx.ctx, &probe, |_: String, _: ProcessBuilder| Ok(true));
    assert!(matches!(r, Err(BuildError::Unreadable(ref p)) if p == "gcc"));
}

#[test]
fn failing_process_fails_the_call_and_files_nothing() {
    let fs = files(&["ar", "bar.o"]);
    let mut cx = context_on(&fs);
    let probe = digest_in(&fs);
    let make = |cx: &Context<Pred>| Ar::new_with(cx, "ar").set_dst("libbar.a").add_src("bar.o".to_string());
    let r = make(&cx).run(&mut cx.ctx, &probe, |_: String, _: ProcessBuilder| Ok(false));
    assert!(matches!(r, Err(BuildError::Failed(ExecError::BodyFailed(ref m))) if m == "command failed"));
    assert_eq!(cx.ctx.db.len(), 0);
    let r = make(&cx).run(&mut cx.ctx, &probe, |_: String, _: ProcessBuilder| Err("no such program".to_string()));
    assert!(matches!(r, Err(BuildError::Failed(ExecError::BodyFailed(ref m))) if m == "no such program"));
    assert_eq!(cx.ctx.db.len(), 0);
    let r = make(&cx).run(&mut cx.ctx, &probe, |_: String, _: ProcessBuilder| Ok(true));
    assert!(matches!(r, Ok(ref p) if p == "build/libbar.a"));
    assert_eq!(cx.ctx.db.len(), 1);
}

#[test]
fn future_value_is_handed_on() {
    let fs = files(&[]);
    let mut cx = context_on(&fs);
    let r = Future::from_value("foo.o".to_string()).unwrap(&mut cx.ctx, |_: String, _: ProcessBuilder| panic!("ran"));
    assert!(matches!(r, Ok(ref p) if p == "foo.o"));
}

#[test]
fn static_builder_prepares_compiler_and_archiver() {
    let fs = files(&[]);
    let cx = context_on(&fs);
    let b = StaticBuilder::new_with(Gcc::new_with(&cx, "gcc", "lib", "a"), Ar::new_with(&cx, "ar"))
        .set_debug(true)
        .set_optimize(true)
        .set_profile(false)
        .add_include("inc".to_string())
        .add_lib("build/libz.a".to_string())
        .add_external_lib("m")
        .add_libpath("/opt/lib")
        .add_macro("X")
        .add_warning("all")
        .add_flag("-pipe");
    let g = b.compile("examples/cxx/bar.cc".to_string());
    assert_eq!(g.dst, Some("build/examples/cxx/bar.o".to_string()));
    assert_eq!(g.dst_suffix, Some("o".to_string()));
    assert_eq!(g.srcs, vec!["examples/cxx/bar.cc"]);
    assert_eq!(g.flags, vec!["-pipe", "-c"]);
    assert!(g.debug && g.optimize && !g.profile);
    assert_eq!((g.includes.len(), g.libs.len(), g.external_libs.len(), g.libpaths.len(), g.macros.len(), g.warnings.len()), (1, 1, 1, 1, 1, 1));
    let a = b.link_lib("examples/cxx/bar");
    assert_eq!(a.dst, Some("build/examples/cxx/bar".to_string()));
    assert_eq!((a.dst_prefix, a.dst_suffix), (Some("lib".to_string()), Some("a".to_string())));
    assert_eq!(a.flags, vec!["-rc"]);
    let e = b.link_exe("examples/cxx/foo_static");
    assert_eq!(e.dst, Some("build/examples/cxx/foo_static".to_string()));
    assert_eq!((e.dst_prefix, e.dst_suffix), (None, None));
    assert_eq!(e.flags, vec!["-pipe"]);
    // The builder itself is left as it was.
    assert_eq!(b.gcc.srcs.len(), 0);
    assert_eq!(b.gcc.dst, None);
}

#[test]
fn shared_builder_compiles_for_any_address() {
    let fs = files(&[]);
    let cx = context_on(&fs);
    let b = SharedBuilder::new_with(Gcc::new_with(&cx, "gcc", "lib", "so"))
        .set_debug(false)
        .set_optimize(true)
        .set_profile(true)
        .add_include("inc".to_string())
        .add_lib("build/libz.so".to_string())
        .add_external_lib("m")
        .add_libpath("/opt/lib")
        .add_macro("X")
        .add_warning("all")
        .add_flag("-pipe");
    let g = b.compile("foo.cc".to_string());
    assert_eq!(g.dst, Some("build/foo.o".to_string()));
    assert_eq!(g.flags, vec!["-pipe", "-c", "-fPIC"]);
    assert!(!g.debug && g.optimize && g.profile);
    let l = b.link_lib("bar");
    assert_eq!(l.dst, Some("build/bar".to_string()));
    assert_eq!((l.dst_prefix, l.dst_suffix), (Some("lib".to_string()), Some("so".to_string())));
    assert_eq!(l.flags, vec!["-pipe", "-fPIC", "-dynamiclib"]);
    assert_eq!(b.link_exe("foo").dst, Some("build/foo".to_string()));
    assert_eq!((b.gcc.includes.len(), b.gcc.libs.len(), b.gcc.external_libs.len(), b.gcc.libpaths.len(), b.gcc.macros.len(), b.gcc.warnings.len()), (1, 1, 1, 1, 1, 1));
}

#[test]
fn locate_takes_the_first_place_in_the_order_of_the_search() {
    let names = vec!["gcc".to_string(), "cc".to_string()];
    let dirs = vec!["/usr/local/bin".to_string(), "/usr/bin".to_string()];
    let at = |places: &'static [&'static str]| move |p: &str| places.contains(&p);
    assert_eq!(locate(&names, &dirs, &at(&["/usr/bin/gcc", "/usr/local/bin/cc"])), Some("/usr/bin/gcc".to_string()));
    assert_eq!(locate(&names, &dirs, &at(&["/usr/bin/cc", "/usr/local/bin/cc"])), Some("/usr/local/bin/cc".to_string()));
    assert_eq!(locate(&names, &dirs, &at(&["cc", "/usr/bin/gcc"])), Some("/usr/bin/gcc".to_string()));
    assert_eq!(locate(&names, &dirs, &at(&["gcc", "/usr/local/bin/gcc"])), Some("gcc".to_string()));
    assert_eq!(locate(&names, &dirs, &at(&["/bin/gcc"])), None);
    assert_eq!(locate(&names, &vec![], &at(&["cc"])), Some("cc".to_string()));
    assert_eq!(locate(&vec![], &dirs, &at(&["cc"])), None);
}

#[test]
fn find_program_searches_once_while_the_program_stays() {
    let fs = files(&["/usr/bin/cc", "/opt/bin/ar"]);
    let mut cx = context_on(&fs);
    let seen = fs.clone();
    let asked = Rc::new(RefCell::new(0));
    let count = asked.clone();
    let present = move |p: &str| {
        *count.borrow_mut() += 1;
        seen.borrow().contains(p)
    };
    let names = vec!["gcc".to_string(), "cc".to_string()];
    let r = find_program(&mut cx, &names, "/opt/bin:/usr/bin", &present);
    assert!(matches!(r, Ok(ref p) if p == "/usr/bin/cc"));
    assert_eq!(*asked.borrow(), 6);
    let record = {
        let mut prep = cx.prep("find_program");
        prep.declare_values("names", &names);
        assert_eq!(prep.declared_inputs().get("value", "names").map(|s| s.as_str()), Some("[\"gcc\",\"cc\"]"));
        cx.ctx.db.prepare("find_program", prep.declared_inputs()).unwrap()
    };
    assert_eq!(record.result, "/usr/bin/cc");
    assert_eq!(
        record.discovered_outputs.iterate(),
        vec![("output".to_string(), "OutputPath".to_string(), "[\"OutputPath\",\"/usr/bin/cc\",\"\",0]".to_string())]
    );
    let r = find_program(&mut cx, &names, "/opt/bin:/usr/bin", &present);
    assert!(matches!(r, Ok(ref p) if p == "/usr/bin/cc"));
    assert_eq!(*asked.borrow(), 6);
    // The program is removed and another appears: the search runs again.
    fs.borrow_mut().remove("/usr/bin/cc");
    fs.borrow_mut().insert("/opt/bin/gcc".to_string());
    let r = find_program(&mut cx, &names, "/opt/bin:/usr/bin", &present);
    assert!(matches!(r, Ok(ref p) if p == "/opt/bin/gcc"));
    let r = find_program(&mut cx, &vec!["tcc".to_string()], "/opt/bin:/usr/bin", &present);
    assert!(matches!(r, Err(ExecError::BodyFailed(ref m)) if m == " failed"));
}

#[test]
fn builders_look_their_programs_up() {
    let fs = files(&["/usr/bin/cc", "/opt/bin/ar"]);
    let mut cx = context_on(&fs);
    let seen = fs.clone();
    let present = move |p: &str| seen.borrow().contains(p);
    let g = Gcc::new(&mut cx, "/opt/bin:/usr/bin", &present, "lib", "a").ok().unwrap();
    assert_eq!((g.exe.as_str(), g.root.as_str()), ("/usr/bin/cc", "build"));
    let a = Ar::new(&mut cx, "/opt/bin:/usr/bin", &present).ok().unwrap();
    assert_eq!((a.exe.as_str(), a.flags.len()), ("/opt/bin/ar", 1));
    let b = StaticBuilder::new(&mut cx, "/opt/bin:/usr/bin", &present).ok().unwrap();
    assert_eq!((b.gcc.exe.as_str(), b.ar.exe.as_str(), b.gcc.lib_suffix.as_str()), ("/usr/bin/cc", "/opt/bin/ar", "a"));
    let s = SharedBuilder::new(&mut cx, "/opt/bin:/usr/bin", &present).ok().unwrap();
    assert_eq!((s.gcc.exe.as_str(), s.gcc.lib_prefix.as_str(), s.gcc.lib_suffix.as_str()), ("/usr/bin/cc", "lib", "so"));
    // The searches are on record: another list of directories changes nothing.
    assert!(matches!(Ar::new(&mut cx, "/usr/bin", &present), Ok(ref a) if a.exe == "/opt/bin/ar"));
    let mut cx = context_on(&fs);
    assert!(matches!(Ar::new(&mut cx, "/usr/bin", &present), Err(ExecError::BodyFailed(_))));
    assert!(StaticBuilder::new(&mut cx, "/usr/bin", &present).is_err());
    // The compiler was found before the archiver was missed: that search is on record.
    assert_eq!(cx.ctx.db.len(), 1);
    let mut cx = context_on(&fs);
    assert!(SharedBuilder::new(&mut cx, "/opt/bin", &present).is_err());
    assert_eq!(cx.ctx.db.len(), 0);
}

#[test]
fn process_builder_gathers_its_messages() {
    let args = vec!["-c".to_string(), "foo.c".to_string()];
    let pb = ProcessBuilder::new("gcc", &args);
    assert_eq!((pb.program.as_str(), pb.args.len(), pb.msgs.as_str()), ("gcc", 2, ""));
    assert_eq!((pb.color, pb.verbosity, pb.stdout_verbosity, pb.stderr_verbosity, pb.timeout), (None, 0, None, None, None));
    assert_eq!(pb.banner(), "");
    assert_eq!(pb.command_line(), "gcc -c foo.c");
    let pb = pb.color(2).verbosity(1).stdout_verbosity(3).stderr_verbosity(4);
    assert_eq!((pb.color, pb.verbosity, pb.stdout_verbosity, pb.stderr_verbosity), (Some(2), 1, Some(3), Some(4)));
    let pb = pb.description("gcc").msg("foo.o").msg("<-").msgs(&vec!["foo.c".to_string(), "bar.c".to_string()]);
    assert_eq!(pb.msgs, " * gcc       : foo.o <- foo.c bar.c");
    assert_eq!(pb.banner(), " * gcc       : foo.o <- foo.c bar.c\n");
    assert_eq!(ProcessBuilder::new("x", &vec![]).description("0123456789").msgs, " * 0123456789:");
    assert_eq!(ProcessBuilder::new("x", &vec![]).description("a-long-description").msgs, " * a-long-description:");
    assert_eq!(ProcessBuilder::new("x", &vec![]).description("").msgs, " *           :");
    assert_eq!(ProcessBuilder::new("x", &vec![]).description("\u{e9}t\u{e9}").msgs, " * \u{e9}t\u{e9}       :");
    assert_eq!(ProcessBuilder::new("x", &vec![]).command_line(), "x");
}

#[test]
fn failure_report_shows_the_command_and_what_it_wrote() {
    let pb = ProcessBuilder::new("gcc", &vec!["-c".to_string(), "foo.c ".to_string()]);
    assert_eq!(pb.failure_report("out \n\n", "  err\t\n"), " + gcc -c foo.c\nout\n  err\n");
    assert_eq!(pb.failure_report("", " \n"), " + gcc -c foo.c\n");
    assert_eq!(pb.failure_report("only out", ""), " + gcc -c foo.c\nonly out\n");
    assert_eq!(pb.failure_report("\u{a0}", "x\u{2003}"), " + gcc -c foo.c\nx\n");
}

#[test]
fn white_space_is_what_std_takes_for_it() {
    let mut c = '\0';
    loop {
        assert_eq!(is_white_space(c), c.is_whitespace(), "at {:?}", c);
        if c == char::MAX {
            break;
        }
        c = std::char::from_u32(c as u32 + 1).unwrap_or('\u{e000}');
    }
}

#[test]
fn trim_end_removes_trailing_white_space_only() {
    for text in ["", " ", "a", " a ", "a \t\n", "\u{a0}a\u{a0}\u{3000}", "a b  ", "\n\n", "x\u{200b}", "r\u{e9}sum\u{e9} \u{2028}"] {
        assert_eq!(trim_end(text), text.trim_end(), "on {:?}", text);
    }
}

#[test]
fn split_colon_cuts_at_every_colon() {
    for text in ["", ":", "a", "a:b", "/opt/bin:/usr/bin", "::", "a::b:", ":a", "\u{e9}:\u{e9}\u{e9}:"] {
        let expected: Vec<String> = text.split(':').map(|p| p.to_string()).collect();
        assert_eq!(split_colon(text), expected, "on {:?}", text);
    }
    assert_eq!(split_colon(""), vec![""]);
    assert_eq!(split_colon("a::b"), vec!["a", "", "b"]);
}

#[test]
fn every_library_is_declared_under_its_own_path() {
    let fs = files(&["gcc", "foo.c", "out/libbar.a", "lib/libbaz.a"]);
    let cx = context_on(&fs);
    let gcc = Gcc::new_with(&cx, "gcc", "lib", "a")
        .add_src("foo.c".to_string())
        .add_lib("out/libbar.a".to_string())
        .add_lib("lib/libbaz.a".to_string());
    let t = task_of(gcc.into_future(&digest_in(&fs)));
    assert_eq!(words(&t), vec!["gcc", "-L", "out", "-L", "lib", "-l", "bar", "-l", "baz", "foo.c"]);
    assert_eq!(t.prep.declared_inputs().len(), 3);
    assert_eq!(
        t.prep.declared_inputs().get("InputPath", "out/libbar.a").map(|s| s.as_str()),
        Some("[\"InputPath\",\"out/libbar.a\",\"d:out/libbar.a\",5]")
    );
    assert_eq!(
        t.prep.declared_inputs().get("InputPath", "lib/libbaz.a").map(|s| s.as_str()),
        Some("[\"InputPath\",\"lib/libbaz.a\",\"d:lib/libbaz.a\",5]")
    );
}
