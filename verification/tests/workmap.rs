use rbuild::order::{compare, compare_bytes, Order};
use rbuild::workmap::{Entry, WorkKey, WorkMap};

#[test]
fn insert_overwrites_the_value_of_a_key() {
    let mut m = WorkMap::new();
    m.insert("file", "foo.c", "1");
    m.insert("file", "foo.c", "2");
    assert_eq!(m.len(), 1);
    assert_eq!(m.get("file", "foo.c").map(|s| s.as_str()), Some("2"));
}

#[test]
fn iterate_is_sorted_by_name_then_kind() {
    let mut m = WorkMap::new();
    m.insert("url", "b", "3");
    m.insert("file", "b", "2");
    m.insert("file", "a", "1");
    m.insert_work_key(WorkKey::new("cfg", "a"), "0".to_string());
    let listed = m.iterate();
    let expected = vec![
        ("a".to_string(), "cfg".to_string(), "0".to_string()),
        ("a".to_string(), "file".to_string(), "1".to_string()),
        ("b".to_string(), "file".to_string(), "2".to_string()),
        ("b".to_string(), "url".to_string(), "3".to_string()),
    ];
    assert_eq!(listed, expected);
}

#[test]
fn work_key_holds_kind_and_name() {
    let k = WorkKey::new("file", "foo.c");
    assert_eq!(k.kind, "file");
    assert_eq!(k.name, "foo.c");
}

#[test]
fn same_entries_in_any_order_list_the_same() {
    let triples = [("file", "foo.c", "1"), ("cfg", "os", "linux"), ("url", "foo.com", "etag"), ("file", "bar.c", "2")];
    let mut a = WorkMap::new();
    for (k, n, v) in triples.iter() {
        a.insert(k, n, v);
    }
    let mut b = WorkMap::new();
    for (k, n, v) in triples.iter().rev() {
        b.insert(k, n, v);
    }
    assert_eq!(a.iterate(), b.iterate());
    assert_eq!(a.len(), 4);
    assert_eq!(a.entry(0).name, "bar.c");
    assert_eq!(a.entries().len(), 4);
}

#[test]
fn names_are_ordered_by_their_bytes() {
    let mut m = WorkMap::new();
    m.insert("k", "b", "");
    m.insert("k", "ab", "");
    m.insert("k", "a", "");
    m.insert("k", "", "");
    m.insert("k", "B", "");
    m.insert("k", "\u{e9}", "");
    m.insert("k", "z", "");
    let names: Vec<String> = m.iterate().into_iter().map(|t| t.0).collect();
    assert_eq!(names, vec!["", "B", "a", "ab", "b", "z", "\u{e9}"]);
}

#[test]
fn get_tells_kinds_and_names_apart() {
    let mut m = WorkMap::new();
    m.insert("file", "a", "1");
    assert!(m.get("file", "b").is_none());
    assert!(m.get("url", "a").is_none());
    assert!(m.get("a", "file").is_none());
    assert_eq!(m.get("file", "a").map(|s| s.as_str()), Some("1"));
}

#[test]
fn from_entries_files_in_order() {
    let e = |name: &str, kind: &str, value: &str| Entry { name: name.to_string(), kind: kind.to_string(), value: value.to_string() };
    let m = WorkMap::from_entries(vec![e("b", "k", "1"), e("a", "k", "2"), e("b", "k", "3")]);
    assert_eq!(
        m.iterate(),
        vec![("a".to_string(), "k".to_string(), "2".to_string()), ("b".to_string(), "k".to_string(), "3".to_string())]
    );
}

#[test]
fn texts_compare_by_bytes() {
    assert_eq!(compare("a", "b"), Order::Less);
    assert_eq!(compare("b", "a"), Order::Greater);
    assert_eq!(compare("a", "a"), Order::Equal);
    assert_eq!(compare("", "a"), Order::Less);
    assert_eq!(compare("ab", "a"), Order::Greater);
    assert_eq!(compare("Z", "a"), Order::Less);
    assert_eq!(compare_bytes(&[1, 2], &[1, 2, 0]), Order::Less);
    assert_eq!(compare_bytes(&[255], &[1, 2, 0]), Order::Greater);
    assert_eq!(compare_bytes(&[], &[]), Order::Equal);
}
