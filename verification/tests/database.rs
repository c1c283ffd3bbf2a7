use rbuild::database::{read_store, store_body, Corrupt, Database, Record, Row};
use rbuild::freshness::FreshnessMap;
use rbuild::workcache::{Context, Exec, Logger};
use rbuild::scan::is_tame;
use rbuild::workmap::WorkMap;
use rustc_serialize::json;
use std::collections::BTreeMap;

fn map_of(entries: &[(&str, &str, &str)]) -> WorkMap {
    let mut m = WorkMap::new();
    for (kind, name, value) in entries {
        m.insert(kind, name, value);
    }
    m
}

fn record(inputs: &[(&str, &str, &str)], outputs: &[(&str, &str, &str)], result: &str) -> Record {
    Record { discovered_inputs: map_of(inputs), discovered_outputs: map_of(outputs), result: result.to_string() }
}

fn rows_of_text(text: &str) -> Vec<Row> {
    match read_store(text) {
        Ok(rows) => rows,
        Err(_) => panic!("the text of the store cannot be read"),
    }
}

#[test]
fn new_store_is_empty_and_clean() {
    let mut db = Database::new("build/db.json".to_string());
    assert_eq!(db.len(), 0);
    assert!(!db.is_dirty());
    assert_eq!(db.db_filename(), "build/db.json");
    assert!(db.prepare("f", &WorkMap::new()).is_none());
    assert_eq!(db.flush(), None);
    assert_eq!(db.save(), "workcache-store 1\n{}");
}

#[test]
fn cache_then_prepare_returns_the_record() {
    let mut db = Database::new("db.json".to_string());
    let declared = map_of(&[("file", "foo.c", "sha")]);
    db.cache("compile", &declared, record(&[("file", "foo.h", "h")], &[("file", "foo.o", "o")], "foo.o"));
    assert!(db.is_dirty());
    let r = db.prepare("compile", &declared).unwrap();
    assert_eq!(r.result, "foo.o");
    assert_eq!(r.discovered_inputs.get("file", "foo.h").map(|s| s.as_str()), Some("h"));
    assert_eq!(r.discovered_outputs.get("file", "foo.o").map(|s| s.as_str()), Some("o"));
    assert!(db.prepare("link", &declared).is_none());
    assert!(db.prepare("compile", &map_of(&[("file", "foo.c", "other")])).is_none());
    assert!(db.prepare("compile", &WorkMap::new()).is_none());
}

#[test]
fn cache_overwrites_the_record_of_a_key() {
    let mut db = Database::new("db.json".to_string());
    let declared = map_of(&[("file", "foo.c", "sha")]);
    db.cache("compile", &declared, record(&[], &[], "first"));
    db.cache("link", &declared, record(&[], &[], "other"));
    db.cache("compile", &declared, record(&[], &[], "second"));
    assert_eq!(db.len(), 2);
    assert_eq!(db.prepare("compile", &declared).unwrap().result, "second");
    assert_eq!(db.prepare("link", &declared).unwrap().result, "other");
}

#[test]
fn save_writes_keys_and_records_as_json() {
    let mut db = Database::new("db.json".to_string());
    let declared = map_of(&[("file", "foo.c", "sha"), ("cfg", "os", "linux")]);
    db.cache("compile", &declared, record(&[("file", "foo.h", "h")], &[("file", "foo.o", "o")], "foo.o"));
    let key = "[\"compile\",{\"foo.c\":{\"file\":\"sha\"},\"os\":{\"cfg\":\"linux\"}}]";
    let value = "[{\"foo.h\":{\"file\":\"h\"}},{\"foo.o\":{\"file\":\"o\"}},\"foo.o\"]";
    let mut expected = BTreeMap::new();
    expected.insert(key.to_string(), value.to_string());
    let text = db.save();
    let read: BTreeMap<String, String> = json::decode(store_body(&text).unwrap()).unwrap();
    assert_eq!(read, expected);
    assert_eq!(
        text,
        "workcache-store 1\n{\n  \"[\\\"compile\\\",{\\\"foo.c\\\":{\\\"file\\\":\\\"sha\\\"},\\\"os\\\":{\\\"cfg\\\":\\\"linux\\\"}}]\": \"[{\\\"foo.h\\\":{\\\"file\\\":\\\"h\\\"}},{\\\"foo.o\\\":{\\\"file\\\":\\\"o\\\"}},\\\"foo.o\\\"]\"\n}"
    );
}

#[test]
fn flush_hands_out_the_text_once() {
    let mut db = Database::new("db.json".to_string());
    db.cache("f", &WorkMap::new(), record(&[], &[], "r"));
    let text = db.save();
    assert_eq!(db.flush(), Some(text));
    assert!(!db.is_dirty());
    assert_eq!(db.flush(), None);
    assert_eq!(db.len(), 1);
}

#[test]
fn saved_store_reloads_to_the_same_mapping() {
    let mut db = Database::new("db.json".to_string());
    let a = map_of(&[("file", "a \"quoted\" name.c", "sha\n1"), ("cfg", "os", "linux")]);
    let b = map_of(&[("url", "foo.com", "etag")]);
    db.cache("compile", &a, record(&[("file", "a.h", "h")], &[("file", "a.o", "o")], "a.o"));
    db.cache("fetch", &b, record(&[], &[], "page \u{e9}"));
    db.cache("compile", &b, record(&[("k", "n", "v"), ("k2", "n", "v2")], &[], ""));
    let text = db.flush().unwrap();

    let mut again = Database::new("db.json".to_string());
    again.load(rows_of_text(&text));
    assert_eq!(again.len(), 3);
    assert!(!again.is_dirty());
    for (name, declared) in [("compile", &a), ("fetch", &b), ("compile", &b)] {
        let was = db.prepare(name, declared).unwrap();
        let is = again.prepare(name, declared).unwrap();
        assert_eq!(is.result, was.result);
        assert_eq!(is.discovered_inputs.iterate(), was.discovered_inputs.iterate());
        assert_eq!(is.discovered_outputs.iterate(), was.discovered_outputs.iterate());
    }
    assert!(again.prepare("fetch", &a).is_none());
    assert_eq!(again.save(), text);
}

#[test]
fn load_replaces_what_the_store_held() {
    let mut db = Database::new("db.json".to_string());
    db.load(vec![
        Row { key: "k1".to_string(), record: record(&[], &[], "one") },
        Row { key: "k2".to_string(), record: record(&[], &[], "two") },
        Row { key: "k1".to_string(), record: record(&[], &[], "three") },
    ]);
    assert_eq!(db.len(), 2);
    assert!(!db.is_dirty());
    let read: BTreeMap<String, String> = json::decode(store_body(&db.save()).unwrap()).unwrap();
    assert_eq!(read.get("k1").map(|s| s.as_str()), Some("[{},{},\"three\"]"));
    assert_eq!(read.get("k2").map(|s| s.as_str()), Some("[{},{},\"two\"]"));
    db.load(vec![]);
    assert_eq!(db.len(), 0);
}

#[test]
fn text_in_another_layout_is_taken_for_an_empty_store() {
    assert_eq!(store_body("workcache-store 1\n{}"), Some("{}"));
    assert_eq!(store_body("workcache-store 1\n"), Some(""));
    assert_eq!(store_body("workcache-store 1\n{\"\u{e9}\": \"x\"}"), Some("{\"\u{e9}\": \"x\"}"));
    assert_eq!(store_body("workcache-store 2\n{}"), None);
    assert_eq!(store_body("{\"k\": \"v\"}"), None);
    assert_eq!(store_body(""), None);
    assert_eq!(store_body("workcache-store 1"), None);
    let mut db = Database::new("db.json".to_string());
    db.load(rows_of_text("{\"k\": \"[{},{},\\\"r\\\"]\"}"));
    assert_eq!(db.len(), 0);
    assert!(!db.is_dirty());
}

type Pred = Box<dyn Fn(&str, &str) -> bool>;

fn context_over(db: Database) -> Context<Pred> {
    let mut freshness: FreshnessMap<Pred> = FreshnessMap::new();
    freshness.insert("content-hash-of-path", Box::new(|name: &str, value: &str| name == "a.txt" && value == "D"));
    freshness.insert("path-exists", Box::new(|name: &str, _: &str| name == "a.o"));
    Context::new_with_freshness(db, Logger::new(), BTreeMap::new(), freshness)
}

#[test]
fn reopened_context_hits_the_saved_record() {
    let mut cx = context_over(Database::new("db.json".to_string()));
    let mut prep = cx.prep("compile");
    prep.declare_input("content-hash-of-path", "a.txt", "D");
    let first = prep.exec(&mut cx, |mut exe: Exec| {
        exe.discover_output("path-exists", "a.o", "a.o".to_string());
        (exe, Ok("R".to_string()))
    });
    assert!(matches!(first, Ok(ref v) if v == "R"));
    let text = cx.db.flush().unwrap();

    let mut db = Database::new("db.json".to_string());
    db.load(rows_of_text(&text));
    let mut reopened = context_over(db);
    let mut prep = reopened.prep("compile");
    prep.declare_input("content-hash-of-path", "a.txt", "D");
    let second = prep.exec(&mut reopened, |_: Exec| panic!("the body ran again"));
    assert!(matches!(second, Ok(ref v) if v == "R"));
    assert!(!reopened.db.is_dirty());
    // With another digest declared the key is another: a miss.
    let mut prep = reopened.prep("compile");
    prep.declare_input("content-hash-of-path", "a.txt", "E");
    let third = prep.exec(&mut reopened, |exe: Exec| (exe, Ok("R2".to_string())));
    assert!(matches!(third, Ok(ref v) if v == "R2"));
}

#[test]
fn store_in_another_layout_reads_as_empty() {
    assert!(matches!(read_store("{\"k\": \"[{},{},\\\"r\\\"]\"}"), Ok(ref rows) if rows.is_empty()));
    assert!(matches!(read_store(""), Ok(ref rows) if rows.is_empty()));
    assert!(matches!(read_store("workcache-store 2\n{}"), Ok(ref rows) if rows.is_empty()));
    assert!(matches!(read_store("workcache-store 1\n{}"), Ok(ref rows) if rows.is_empty()));
}

#[test]
fn read_store_lists_the_rows_in_the_order_of_their_keys() {
    let text = "workcache-store 1\n{\n  \"k2\": \"[{},{\\\"a.o\\\":{\\\"file\\\":\\\"o\\\"}},\\\"two\\\"]\",\n  \"k1\": \"[{\\\"b\\\":{\\\"y\\\":\\\"2\\\",\\\"x\\\":\\\"1\\\"}},{},\\\"one\\\"]\"\n}";
    let rows = rows_of_text(text);
    assert_eq!(rows.len(), 2);
    assert_eq!((rows[0].key.as_str(), rows[0].record.result.as_str()), ("k1", "one"));
    assert_eq!(
        rows[0].record.discovered_inputs.iterate(),
        vec![
            ("b".to_string(), "x".to_string(), "1".to_string()),
            ("b".to_string(), "y".to_string(), "2".to_string())
        ]
    );
    assert_eq!(rows[0].record.discovered_outputs.len(), 0);
    assert_eq!((rows[1].key.as_str(), rows[1].record.result.as_str()), ("k2", "two"));
    assert_eq!(rows[1].record.discovered_outputs.get("file", "a.o").map(|s| s.as_str()), Some("o"));
}

#[test]
fn corrupt_store_is_told_apart() {
    // Not an object of strings.
    assert!(matches!(read_store("workcache-store 1\n[]"), Err(Corrupt::Store)));
    assert!(matches!(read_store("workcache-store 1\n{\"k\": 1}"), Err(Corrupt::Store)));
    assert!(matches!(read_store("workcache-store 1\n{\"k\": \"v\""), Err(Corrupt::Store)));
    assert!(matches!(read_store("workcache-store 1\n"), Err(Corrupt::Store)));
    // A record that is no record.
    assert!(matches!(read_store("workcache-store 1\n{\"k\": \"[{},{}]\"}"), Err(Corrupt::Record(ref k)) if k == "k"));
    assert!(matches!(read_store("workcache-store 1\n{\"a\": \"[{},{},\\\"r\\\"]\", \"b\": \"nothing\"}"), Err(Corrupt::Record(ref k)) if k == "b"));
    assert!(matches!(read_store("workcache-store 1\n{\"k\": \"[{\\\"a\\\":{\\\"b\\\":\\\"1\\\",}},{},\\\"r\\\"]\"}"), Err(Corrupt::Record(ref k)) if k == "k"));
    // Texts that the parser is not handed.
    assert!(matches!(read_store("workcache-store 1\n[{\"a\":{\"b\":1,},\"c\":2}]"), Err(Corrupt::Refused)));
    assert!(matches!(read_store("workcache-store 1\n{\"k\": true}"), Err(Corrupt::Refused)));
    assert!(matches!(read_store("workcache-store 1\n{\"k\": 1e5}"), Err(Corrupt::Refused)));
    assert!(matches!(read_store("workcache-store 1\n[[[[[[[[[\"deep\"]]]]]]]]]"), Err(Corrupt::Refused)));
}

#[test]
fn tame_texts_are_those_the_parser_can_be_handed() {
    assert!(is_tame(""));
    assert!(is_tame("{}"));
    assert!(is_tame("{\n  \"k\": \"v, } true \\\" [\"\n}"));
    assert!(is_tame("[[\"InputPath\",\"a \u{e9}.c\",\"d\",7],[]]"));
    assert!(is_tame("[[[[[[[[1]]]]]]]]"));
    assert!(!is_tame("[[[[[[[[[1]]]]]]]]]"));
    assert!(!is_tame("[{\"a\":{\"b\":1,},\"c\":2}]"));
    assert!(!is_tame("{\"a\": 1 , \n }"));
    assert!(is_tame("[1,]"));
    assert!(!is_tame("null"));
    assert!(!is_tame("-1"));
    assert!(!is_tame("1.5"));
    assert!(!is_tame("\u{e9}"));
    assert!(is_tame("\"\u{e9}\""));
    let long: String = std::iter::repeat('k').take(65535).collect();
    assert!(is_tame(&format!("{{\"{}\": \"v\"}}", long)));
    assert!(!is_tame(&format!("{{\"{}k\": \"v\"}}", long)));
    assert!(is_tame(&format!("{{\"k\": \"{}k\"}}", long)));
    let half: String = std::iter::repeat('k').take(32768).collect();
    assert!(is_tame(&format!("{{\"{}\": 1}}", half)));
    assert!(!is_tame(&format!("[{{\"{}\": 1}}]", half)));
}

#[test]
fn open_gives_what_the_file_holds() {
    let db = Database::open("build/db.json".to_string(), None).ok().unwrap();
    assert_eq!((db.len(), db.is_dirty(), db.db_filename().as_str()), (0, false, "build/db.json"));
    let mut first = Database::new("db.json".to_string());
    let declared = map_of(&[("file", "foo.c", "sha")]);
    first.cache("compile", &declared, record(&[("file", "foo.h", "h")], &[], "foo.o"));
    let text = first.flush().unwrap();
    let db = Database::open("db.json".to_string(), Some(&text)).ok().unwrap();
    assert_eq!((db.len(), db.is_dirty()), (1, false));
    assert_eq!(db.prepare("compile", &declared).unwrap().result, "foo.o");
    let db = Database::open("db.json".to_string(), Some("another layout")).ok().unwrap();
    assert_eq!(db.len(), 0);
    assert!(matches!(Database::open("db.json".to_string(), Some("workcache-store 1\n[")), Err(Corrupt::Store)));
    assert!(matches!(Database::open("db.json".to_string(), Some("workcache-store 1\nnull")), Err(Corrupt::Refused)));
}
