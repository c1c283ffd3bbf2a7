use rbuild::database::Database;
use rbuild::freshness::FreshnessMap;
use rbuild::workcache::{Context, Exec, ExecError, Logger, Prep, Work};
use std::cell::{Cell, RefCell};
use std::collections::{BTreeMap, HashMap};
use std::rc::Rc;

type Pred = Box<dyn Fn(&str, &str) -> bool>;

type Disk = Rc<RefCell<HashMap<String, String>>>;

/// A context whose predicates read a disk held in memory: a file is fresh
/// while the disk holds the recorded digest at its name, an output while the
/// disk holds anything at its name.
fn context_on(disk: &Disk) -> Context<Pred> {
    let mut freshness: FreshnessMap<Pred> = FreshnessMap::new();
    let d = disk.clone();
    freshness.insert(
        "content-hash-of-path",
        Box::new(move |name: &str, value: &str| d.borrow().get(name).map(|s| s.as_str()) == Some(value)),
    );
    let d = disk.clone();
    freshness.insert("path-exists", Box::new(move |name: &str, _value: &str| d.borrow().contains_key(name)));
    freshness.insert("value", Box::new(|_name: &str, _value: &str| true));
    Context::new_with_freshness(
        Database::new("db.json".to_string()),
        Logger::new(),
        BTreeMap::new(),
        freshness,
    )
}

fn disk_with(files: &[(&str, &str)]) -> Disk {
    let mut m = HashMap::new();
    for (k, v) in files {
        m.insert(k.to_string(), v.to_string());
    }
    Rc::new(RefCell::new(m))
}

fn prep_a(cx: &Context<Pred>, digest: &str) -> Prep {
    let mut prep = cx.prep("compile");
    prep.declare_input("content-hash-of-path", "a.txt", digest);
    prep
}

/// Runs the call on `a.txt` with a body that writes `a.o` and returns
/// `result`; counts the runs of the body.
fn run(cx: &mut Context<Pred>, disk: &Disk, digest: &str, result: &str, runs: &Rc<Cell<u32>>) -> Result<String, ExecError> {
    let prep = prep_a(cx, digest);
    let disk = disk.clone();
    let runs = runs.clone();
    let result = result.to_string();
    prep.exec(cx, move |mut exe: Exec| {
        runs.set(runs.get() + 1);
        disk.borrow_mut().insert("a.o".to_string(), "object".to_string());
        exe.discover_output("path-exists", "a.o", "a.o".to_string());
        (exe, Ok(result))
    })
}

fn ok(r: Result<String, ExecError>) -> String {
    match r {
        Ok(v) => v,
        Err(ExecError::MissingFreshness(e)) => panic!("{}", e.message()),
        Err(ExecError::BodyFailed(m)) => panic!("body failed: {}", m),
    }
}

#[test]
fn second_call_returns_the_recorded_result_without_running_the_body() {
    let disk = disk_with(&[("a.txt", "D")]);
    let mut cx = context_on(&disk);
    let runs = Rc::new(Cell::new(0));
    assert_eq!(ok(run(&mut cx, &disk, "D", "R", &runs)), "R");
    assert_eq!(runs.get(), 1);
    assert_eq!(ok(run(&mut cx, &disk, "D", "R'", &runs)), "R");
    assert_eq!(runs.get(), 1);
}

#[test]
fn first_call_is_a_miss_and_files_a_record() {
    let disk = disk_with(&[("a.txt", "D")]);
    let mut cx = context_on(&disk);
    let runs = Rc::new(Cell::new(0));
    assert_eq!(cx.db.len(), 0);
    assert!(!cx.db.is_dirty());
    assert_eq!(ok(run(&mut cx, &disk, "D", "R", &runs)), "R");
    assert_eq!(runs.get(), 1);
    assert_eq!(cx.db.len(), 1);
    assert!(cx.db.is_dirty());
    let prep = prep_a(&cx, "D");
    let record = cx.db.prepare("compile", prep.declared_inputs()).expect("a record");
    assert_eq!(record.result, "R");
    assert_eq!(record.discovered_inputs.len(), 0);
    assert_eq!(
        record.discovered_outputs.iterate(),
        vec![("a.o".to_string(), "path-exists".to_string(), "a.o".to_string())]
    );
}

#[test]
fn changed_source_makes_the_second_call_a_miss() {
    let disk = disk_with(&[("a.txt", "D")]);
    let mut cx = context_on(&disk);
    let runs = Rc::new(Cell::new(0));
    assert_eq!(ok(run(&mut cx, &disk, "D", "R", &runs)), "R");
    disk.borrow_mut().insert("a.txt".to_string(), "E".to_string());
    // The caller declares what it sees now: another digest, so another key.
    assert_eq!(ok(run(&mut cx, &disk, "E", "R'", &runs)), "R'");
    assert_eq!(runs.get(), 2);
    assert_eq!(cx.db.len(), 2);
}

#[test]
fn stale_declared_input_makes_the_second_call_a_miss() {
    let disk = disk_with(&[("a.txt", "D")]);
    let mut cx = context_on(&disk);
    let runs = Rc::new(Cell::new(0));
    assert_eq!(ok(run(&mut cx, &disk, "D", "R", &runs)), "R");
    disk.borrow_mut().insert("a.txt".to_string(), "E".to_string());
    // The same declaration as before no longer holds: same key, stale fact.
    assert_eq!(ok(run(&mut cx, &disk, "D", "R'", &runs)), "R'");
    assert_eq!(runs.get(), 2);
    assert_eq!(cx.db.len(), 1);
    let prep = prep_a(&cx, "D");
    assert_eq!(cx.db.prepare("compile", prep.declared_inputs()).unwrap().result, "R'");
}

#[test]
fn removed_output_makes_the_next_call_a_miss() {
    let disk = disk_with(&[("a.txt", "D")]);
    let mut cx = context_on(&disk);
    let runs = Rc::new(Cell::new(0));
    assert_eq!(ok(run(&mut cx, &disk, "D", "R", &runs)), "R");
    disk.borrow_mut().remove("a.o");
    assert_eq!(ok(run(&mut cx, &disk, "D", "R'", &runs)), "R'");
    assert_eq!(runs.get(), 2);
}

#[test]
fn stale_discovered_input_makes_the_next_call_a_miss() {
    let disk = disk_with(&[("a.txt", "D"), ("a.h", "H")]);
    let mut cx = context_on(&disk);
    let body = |mut exe: Exec| {
        exe.discover_input("content-hash-of-path", "a.h", "H".to_string());
        (exe, Ok("R".to_string()))
    };
    assert_eq!(ok(prep_a(&cx, "D").exec(&mut cx, body)), "R");
    assert_eq!(ok(prep_a(&cx, "D").exec(&mut cx, |exe: Exec| (exe, Ok("again".to_string())))), "R");
    disk.borrow_mut().insert("a.h".to_string(), "H2".to_string());
    assert_eq!(ok(prep_a(&cx, "D").exec(&mut cx, |exe: Exec| (exe, Ok("again".to_string())))), "again");
}

#[test]
fn failing_body_leaves_no_record() {
    let disk = disk_with(&[("a.txt", "D")]);
    let mut cx = context_on(&disk);
    let r = prep_a(&cx, "D").exec(&mut cx, |mut exe: Exec| {
        exe.discover_output("path-exists", "a.o", "a.o".to_string());
        (exe, Err("command failed".to_string()))
    });
    match r {
        Err(ExecError::BodyFailed(m)) => assert_eq!(m, "command failed"),
        _ => panic!("the failure of the body was not reported"),
    }
    assert_eq!(cx.db.len(), 0);
    assert!(!cx.db.is_dirty());
    assert!(cx.db.prepare("compile", prep_a(&cx, "D").declared_inputs()).is_none());
    // The next call is a miss again.
    let runs = Rc::new(Cell::new(0));
    assert_eq!(ok(run(&mut cx, &disk, "D", "R", &runs)), "R");
    assert_eq!(runs.get(), 1);
}

#[test]
fn failing_body_keeps_the_earlier_record() {
    let disk = disk_with(&[("a.txt", "D")]);
    let mut cx = context_on(&disk);
    let runs = Rc::new(Cell::new(0));
    assert_eq!(ok(run(&mut cx, &disk, "D", "R", &runs)), "R");
    disk.borrow_mut().remove("a.o");
    let r = prep_a(&cx, "D").exec(&mut cx, |exe: Exec| (exe, Err("no".to_string())));
    assert!(matches!(r, Err(ExecError::BodyFailed(_))));
    assert_eq!(cx.db.len(), 1);
    assert_eq!(cx.db.prepare("compile", prep_a(&cx, "D").declared_inputs()).unwrap().result, "R");
}

#[test]
fn unregistered_kind_is_reported_when_it_has_to_be_judged() {
    let disk = disk_with(&[]);
    let mut cx = context_on(&disk);
    let runs = Rc::new(Cell::new(0));
    let declare = |cx: &Context<Pred>| {
        let mut prep = cx.prep("fetch");
        prep.declare_input("url", "foo.com", "etag");
        prep
    };
    // With no record nothing is judged: the first call runs the body.
    let counted = runs.clone();
    let r = declare(&cx).exec(&mut cx, move |exe: Exec| {
        counted.set(counted.get() + 1);
        (exe, Ok("page".to_string()))
    });
    assert_eq!(ok(r), "page");
    assert_eq!(runs.get(), 1);
    // The second call has to judge the declared input.
    let counted = runs.clone();
    let r = declare(&cx).exec(&mut cx, move |exe: Exec| {
        counted.set(counted.get() + 1);
        (exe, Ok("page".to_string()))
    });
    match r {
        Err(ExecError::MissingFreshness(e)) => {
            assert_eq!(e.kind, "url");
            assert_eq!(e.message(), "missing freshness-function for 'url'");
        }
        _ => panic!("the missing predicate was not reported"),
    }
    assert_eq!(runs.get(), 1);
    assert_eq!(cx.db.len(), 1);
}

#[test]
fn unregistered_kind_after_a_stale_fact_is_not_reached() {
    let disk = disk_with(&[("a.txt", "D")]);
    let mut cx = context_on(&disk);
    let declare = |cx: &Context<Pred>| {
        let mut prep = cx.prep("f");
        // Listed by name: "a.txt" comes before "z".
        prep.declare_input("url", "z", "etag");
        prep.declare_input("content-hash-of-path", "a.txt", "D");
        prep
    };
    assert_eq!(ok(declare(&cx).exec(&mut cx, |exe: Exec| (exe, Ok("1".to_string())))), "1");
    disk.borrow_mut().insert("a.txt".to_string(), "E".to_string());
    assert_eq!(ok(declare(&cx).exec(&mut cx, |exe: Exec| (exe, Ok("2".to_string())))), "2");
}

#[test]
fn declaration_order_does_not_change_the_key() {
    let disk = disk_with(&[("a.txt", "D"), ("b.txt", "B")]);
    let mut cx = context_on(&disk);
    let mut first = cx.prep("link");
    first.declare_input("content-hash-of-path", "a.txt", "D");
    first.declare_input("content-hash-of-path", "b.txt", "B");
    first.declare_input("value", "debug", "true");
    let mut second = cx.prep("link");
    second.declare_input("value", "debug", "true");
    second.declare_input("content-hash-of-path", "b.txt", "B");
    second.declare_input("content-hash-of-path", "a.txt", "D");
    assert_eq!(ok(first.exec(&mut cx, |exe: Exec| (exe, Ok("exe".to_string())))), "exe");
    assert_eq!(ok(second.exec(&mut cx, |exe: Exec| (exe, Ok("other".to_string())))), "exe");
    assert_eq!(cx.db.len(), 1);
}

#[test]
fn redeclaring_an_input_overwrites_it() {
    let disk = disk_with(&[]);
    let cx = context_on(&disk);
    let mut prep = cx.prep("f");
    prep.declare_input("value", "flag", "false");
    prep.declare_input("value", "flag", "true");
    assert_eq!(prep.declared_inputs().len(), 1);
    assert_eq!(prep.declared_inputs().get("value", "flag").map(|s| s.as_str()), Some("true"));
    assert_eq!(prep.lookup_declared_inputs(), vec!["value".to_string()]);
    assert_eq!(prep.fn_name(), "f");
}

#[test]
fn exec_work_hands_back_the_body_on_a_miss_and_the_value_on_a_hit() {
    let disk = disk_with(&[("a.txt", "D")]);
    let mut cx = context_on(&disk);
    let prep = prep_a(&cx, "D");
    let work = match prep.exec_work(&cx, |exe: Exec| (exe, Ok("R".to_string()))) {
        Ok(w) => w,
        Err(e) => panic!("{}", e.message()),
    };
    assert!(matches!(work, Work::WorkFromTask(_)));
    assert_eq!(cx.db.len(), 0);
    assert_eq!(work.unwrap(&prep, &mut cx), Ok("R".to_string()));
    assert_eq!(cx.db.len(), 1);
    let work = match prep.exec_work(&cx, |exe: Exec| (exe, Ok("R'".to_string()))) {
        Ok(w) => w,
        Err(e) => panic!("{}", e.message()),
    };
    match work {
        Work::WorkValue(ref v) => assert_eq!(v, "R"),
        Work::WorkFromTask(_) => panic!("a fresh record was not used"),
    }
    assert_eq!(work.unwrap(&prep, &mut cx), Ok("R".to_string()));
}

#[test]
fn work_from_value_unwraps_to_the_value() {
    let disk = disk_with(&[]);
    let mut cx = context_on(&disk);
    let prep = cx.prep("f");
    let work: Work<fn(Exec) -> (Exec, Result<String, String>)> = Work::from_value("v".to_string());
    assert_eq!(work.unwrap(&prep, &mut cx), Ok("v".to_string()));
    assert_eq!(cx.db.len(), 0);
    let task = Work::from_task(|exe: Exec| (exe, Ok("w".to_string())));
    assert_eq!(task.unwrap(&prep, &mut cx), Ok("w".to_string()));
    assert_eq!(cx.db.len(), 1);
}

#[test]
fn discovered_inputs_are_listed_by_kind_and_name() {
    let mut exe = Exec::new();
    exe.discover_input("file", "b.h", "2".to_string());
    exe.discover_input("file", "a.h", "1".to_string());
    exe.discover_input("cfg", "b.h", "3".to_string());
    exe.discover_output("file", "a.o", "4".to_string());
    assert_eq!(
        exe.lookup_discovered_inputs(),
        vec![
            ("file".to_string(), "a.h".to_string()),
            ("cfg".to_string(), "b.h".to_string()),
            ("file".to_string(), "b.h".to_string()),
        ]
    );
    assert_eq!(exe.discovered_outputs.len(), 1);
}

#[test]
fn with_prep_hands_a_fresh_prep_to_the_block() {
    let disk = disk_with(&[]);
    let cx = context_on(&disk);
    let n = cx.with_prep("test1", |prep: Prep| (prep.fn_name().clone(), prep.declared_inputs().len()));
    assert_eq!(n, ("test1".to_string(), 0));
}

#[test]
fn context_new_has_no_predicates() {
    let cx: Context<Pred> = Context::new(Database::new("db.json".to_string()));
    assert!(!cx.freshness.contains("value"));
    assert_eq!(cx.db.db_filename(), "db.json");
}

#[test]
fn logger_words_its_lines() {
    assert_eq!(Logger::new().info("declared input file:foo.c is fresh"), "workcache: declared input file:foo.c is fresh");
    assert_eq!(
        Logger::new().freshness_line("declared input", "file", "foo.c", true),
        "workcache: declared input file:foo.c is fresh"
    );
    assert_eq!(
        Logger::new().freshness_line("discovered output", "file", "foo.o", false),
        "workcache: discovered output file:foo.o is not fresh"
    );
}

#[test]
fn registry_answers_by_kind() {
    let mut freshness: FreshnessMap<Pred> = FreshnessMap::new();
    freshness.insert("never", Box::new(|_: &str, _: &str| false));
    freshness.insert("same", Box::new(|name: &str, value: &str| name == value));
    assert!(freshness.contains("same"));
    assert!(!freshness.contains("other"));
    assert!(matches!(freshness.is_fresh("same", "x", "x"), Ok(true)));
    assert!(matches!(freshness.is_fresh("same", "x", "y"), Ok(false)));
    assert!(matches!(freshness.is_fresh("never", "x", "x"), Ok(false)));
    match freshness.is_fresh("other", "x", "x") {
        Err(e) => assert_eq!(e.kind, "other"),
        Ok(_) => panic!("a kind without predicate was judged"),
    }
    // A later registration replaces the earlier one.
    freshness.insert("never", Box::new(|_: &str, _: &str| true));
    assert!(matches!(freshness.is_fresh("never", "x", "x"), Ok(true)));
}

/// The cached compilation of `foo.c`, with the disk and the compiler stood
/// in for by values.
#[test]
fn test() {
    let contents: &[u8] = b"int main() { return 0; }";
    let pth = rbuild::context::InputPath::new("foo.c".to_string(), contents, 0);
    let mut cx: Context<Pred> = Context::new(Database::new("db.json".to_string()));
    cx.freshness.insert("InputPath", Box::new(|_: &str, _: &str| true));
    let mut prep = cx.prep("test1");
    prep.declare_input_path(&pth);
    let out = "foo.o".to_string();
    let s = ok(prep.exec(&mut cx, move |exe: Exec| {
        let _proof_of_concept = Prep::new("subfn");
        let _command = ("gcc", [pth.path.clone(), "-o".to_string(), out.clone()]);
        (exe, Ok(out))
    }));
    println!("{}", s);
}

#[test]
fn judged_facts_are_reported_line_by_line() {
    let disk = disk_with(&[("a.txt", "D"), ("a.h", "H")]);
    let mut cx = context_on(&disk);
    let declare = |cx: &Context<Pred>| {
        let mut prep = cx.prep("compile");
        prep.declare_input("content-hash-of-path", "a.txt", "D");
        prep.declare_input("value", "debug", "true");
        prep
    };
    let body = |mut exe: Exec| {
        exe.discover_input("content-hash-of-path", "a.h", "H".to_string());
        exe.discover_output("path-exists", "a.o", "a.o".to_string());
        (exe, Ok("R".to_string()))
    };
    // No record: nothing is judged.
    let (work, lines) = declare(&cx).exec_work_logged(&cx, body);
    assert!(lines.is_empty());
    let work = match work {
        Ok(w) => w,
        Err(e) => panic!("{}", e.message()),
    };
    assert_eq!(work.unwrap(&declare(&cx), &mut cx), Ok("R".to_string()));
    disk.borrow_mut().insert("a.o".to_string(), "object".to_string());
    // A hit: one line for every fact, group by group.
    let (work, lines) = declare(&cx).exec_work_logged(&cx, body);
    assert!(matches!(work, Ok(Work::WorkValue(ref v)) if v == "R"));
    assert_eq!(
        lines,
        vec![
            "workcache: declared input content-hash-of-path:a.txt is fresh",
            "workcache: declared input value:debug is fresh",
            "workcache: discovered input content-hash-of-path:a.h is fresh",
            "workcache: discovered output path-exists:a.o is fresh",
        ]
    );
    // A stale fact: the lines end with it.
    disk.borrow_mut().insert("a.h".to_string(), "H2".to_string());
    let (work, lines) = declare(&cx).exec_work_logged(&cx, body);
    assert!(matches!(work, Ok(Work::WorkFromTask(_))));
    assert_eq!(
        lines,
        vec![
            "workcache: declared input content-hash-of-path:a.txt is fresh",
            "workcache: declared input value:debug is fresh",
            "workcache: discovered input content-hash-of-path:a.h is not fresh",
        ]
    );
    // One group alone.
    let (r, lines) = cx.all_fresh("declared input", declare(&cx).declared_inputs());
    assert!(matches!(r, Ok(true)));
    assert_eq!(lines.len(), 2);
    let mut odd = cx.prep("f");
    odd.declare_input("value", "a", "1");
    odd.declare_input("url", "b", "2");
    odd.declare_input("value", "c", "3");
    let (r, lines) = cx.all_fresh("declared input", odd.declared_inputs());
    assert!(matches!(r, Err(ref e) if e.kind == "url"));
    assert_eq!(lines, vec!["workcache: declared input value:a is fresh"]);
    assert!(matches!(cx.freshness.all_fresh(odd.declared_inputs()), Err(ref e) if e.kind == "url"));
}
