use rbuild::builders::ar::Ar;
use rbuild::compiler::{joined, Compiler};
use rbuild::context::Context;
use rbuild::into_future::{BuildError, Future, IntoFuture, Task};
use rbuild::process_builder::ProcessBuilder;
use rbuild::workcache::{Exec, ExecError};

type Pred = Box<dyn Fn(&str, &str) -> bool>;

fn yes() -> Pred {
    Box::new(|_: &str, _: &str| true)
}

fn probe(path: &str) -> Option<(String, u64)> {
    if path.starts_with("gone") {
        None
    } else {
        Some((format!("d:{}", path), 1))
    }
}

fn task_of(f: Result<Future, BuildError>) -> Task {
    match f {
        Ok(Future::Task(t)) => t,
        _ => panic!("no task"),
    }
}

fn words(t: &Task) -> Vec<String> {
    let (prog, mut args) = t.call.cmd();
    args.insert(0, prog);
    args
}

#[test]
fn compile_names_the_object_after_its_first_source() {
    let cc = Compiler::new("cc".to_string());
    assert!(cc.flags.is_empty());
    let c = cc.compile("src/foo.c".to_string());
    assert_eq!((c.exe.as_str(), c.dst.clone(), c.srcs.clone(), c.flags.clone()), ("cc", None, vec!["src/foo.c".to_string()], vec!["-c".to_string()]));
    let t = task_of(c.add_src("bar.c".to_string()).add_flag("-g").add_flags(&vec!["-O2".to_string(), "-Wall".to_string()]).into_future(&probe));
    assert_eq!(words(&t), vec!["cc", "-o", "src/foo.o", "-c", "-g", "-O2", "-Wall", "src/foo.c", "bar.c"]);
    assert_eq!(t.dst, "src/foo.o");
    let t = task_of(cc.compile("foo.c".to_string()).set_dst("out/x.o".to_string()).into_future(&probe));
    assert_eq!(words(&t), vec!["cc", "-o", "out/x.o", "-c", "foo.c"]);
    assert_eq!(t.prep.fn_name(), "Call");
    assert_eq!(t.prep.declared_inputs().get("Call", "").cloned(), Some(t.call.to_text()));
}

#[test]
fn compile_reports_what_keeps_it_from_running() {
    let cc = Compiler::new("cc".to_string());
    let mut c = cc.compile("foo.c".to_string());
    c.srcs.clear();
    assert!(matches!(c.into_future(&probe), Err(BuildError::NoSources)));
    assert!(matches!(
        cc.compile("gone.c".to_string()).into_future(&probe),
        Err(BuildError::Unreadable(p)) if p == "gone.c"
    ));
    assert!(matches!(
        Compiler::new("gone-cc".to_string()).compile("foo.c".to_string()).into_future(&probe),
        Err(BuildError::Unreadable(p)) if p == "gone-cc"
    ));
}

#[test]
fn link_exe_lists_flags_before_sources() {
    let cc = Compiler::new("cc".to_string());
    let l = cc.link_exe("foo".to_string(), vec!["foo.o".to_string()]);
    assert!(l.flags.is_empty());
    let t = task_of(l.add_src("bar.o".to_string()).add_flag("-lm").add_flags(&vec!["-s".to_string()]).into_future(&probe));
    assert_eq!(words(&t), vec!["cc", "-o", "foo", "-lm", "-s", "foo.o", "bar.o"]);
    assert!(matches!(
        cc.link_exe("foo".to_string(), vec!["gone.o".to_string()]).into_future(&probe),
        Err(BuildError::Unreadable(p)) if p == "gone.o"
    ));
    let t = task_of(cc.link_exe("foo".to_string(), vec![]).into_future(&probe));
    assert_eq!(words(&t), vec!["cc", "-o", "foo"]);
}

#[test]
fn compile_and_link_run_as_cached_calls() {
    let mut cx: Context<Pred> = Context::new(yes(), yes(), yes(), yes());
    let cc = Compiler::new("cc".to_string());
    let obj = cc.compile("foo.c".to_string()).run(&mut cx.ctx, &probe, |dir: String, pb: ProcessBuilder| {
        assert_eq!(dir, ".");
        assert_eq!(pb.command_line(), "cc -o foo.o -c foo.c");
        Ok(true)
    });
    let obj = match obj {
        Ok(p) => p,
        Err(_) => panic!("the object was not built"),
    };
    assert_eq!(obj, "foo.o");
    let exe = cc.link_exe("bin/foo".to_string(), vec![obj]).run(&mut cx.ctx, &probe, |dir: String, pb: ProcessBuilder| {
        assert_eq!(dir, "bin");
        assert_eq!(pb.banner(), " * cc        : bin/foo <- foo.o\n");
        Ok(true)
    });
    assert!(matches!(exe, Ok(ref p) if p == "bin/foo"));
    assert_eq!(cx.ctx.db.len(), 2);
    let again = cc.compile("foo.c".to_string()).run(&mut cx.ctx, &probe, |_: String, _: ProcessBuilder| Ok(false));
    assert!(matches!(again, Ok(ref p) if p == "foo.o"));
    let failed = cc.compile("bar.c".to_string()).run(&mut cx.ctx, &probe, |_: String, _: ProcessBuilder| Ok(false));
    assert!(matches!(failed, Err(BuildError::Failed(ExecError::BodyFailed(ref m))) if m == "command failed"));
    let unread = cc.link_exe("x".to_string(), vec!["gone.o".to_string()]).run(&mut cx.ctx, &probe, |_: String, _: ProcessBuilder| Ok(true));
    assert!(matches!(unread, Err(BuildError::Unreadable(_))));
    assert_eq!(cx.ctx.db.len(), 2);
}

#[test]
fn texts_and_builders_turn_into_futures() {
    let cx: Context<Pred> = Context::new(yes(), yes(), yes(), yes());
    assert!(matches!(IntoFuture::into_future("a/b", &probe), Ok(Future::Value(ref v)) if v == "a/b"));
    assert!(matches!(IntoFuture::into_future("a/b".to_string(), &probe), Ok(Future::Value(ref v)) if v == "a/b"));
    assert!(matches!(IntoFuture::into_future(Future::from_value("x".to_string()), &probe), Ok(Future::Value(ref v)) if v == "x"));
    let ar = Ar::new_with(&cx, "ar").set_dst("bar");
    let t = task_of(IntoFuture::into_future(ar, &probe));
    assert_eq!(words(&t), vec!["ar", "-rc", "build/bar"]);
    let gcc = rbuild::builders::c::gcc::Gcc::new_with(&cx, "gcc", "lib", "a");
    assert!(matches!(IntoFuture::into_future(gcc, &probe), Err(BuildError::NoSources)));
}

#[test]
fn joined_keeps_the_order() {
    assert_eq!(joined(vec!["a".to_string()], &vec!["b".to_string(), "c".to_string()]), vec!["a", "b", "c"]);
    assert_eq!(joined(vec![], &vec![]), Vec::<String>::new());
}

#[test]
fn exec_hands_out_process_descriptions() {
    let mut exe = Exec::new();
    let pb = exe.process_builder("ar", &vec!["-rc".to_string()]);
    assert_eq!(pb.command_line(), "ar -rc");
    assert_eq!(exe.discovered_inputs.len(), 0);
}
