//! Strings and vectors of strings as the texts they hold.

use vstd::prelude::*;

verus! {

/// The texts that a sequence of strings holds.
pub open spec fn texts(items: Seq<String>) -> Seq<Seq<char>> {
    items.map_values(|t: String| t@)
}

/// The text that an optional string holds.
pub open spec fn opt_text(t: Option<String>) -> Option<Seq<char>> {
    match t {
        Some(s) => Some(s@),
        None => None,
    }
}

/// A copy of the strings.
pub fn copy_texts(items: &Vec<String>) -> (copy: Vec<String>)
    ensures
        texts(copy@) == texts(items@),
{
    let mut copy: Vec<String> = Vec::new();
    let mut i: usize = 0;
    while i < items.len()
        invariant
            i <= items@.len(),
            texts(copy@) == texts(items@).take(i as int),
        decreases items@.len() - i,
    {
        let ghost before = copy@;
        copy.push(items[i].clone());
        proof {
            assert(texts(copy@) =~= texts(before).push(items@[i as int]@));
            assert(texts(items@).take(i + 1) =~= texts(items@).take(i as int).push(items@[i as int]@));
        }
        i += 1;
    }
    assert(texts(items@).take(i as int) =~= texts(items@));
    copy
}

/// A copy of the string, where there is one.
pub fn copy_opt(t: &Option<String>) -> (copy: Option<String>)
    ensures
        opt_text(copy) == opt_text(*t),
{
    match t {
        Some(s) => Some(s.clone()),
        None => None,
    }
}

/// The string as a slice, where there is one.
pub fn as_text(t: &Option<String>) -> (r: Option<&str>)
    ensures
        match r {
            Some(s) => *t matches Some(o) && o@ == s@,
            None => *t is None,
        },
{
    match t {
        Some(s) => Some(s.as_str()),
        None => None,
    }
}

/// The strings with `item` added at the end.
pub fn with_text(items: Vec<String>, item: String) -> (r: Vec<String>)
    ensures
        texts(r@) == texts(items@).push(item@),
{
    let mut r = items;
    r.push(item);
    assert(texts(r@) =~= texts(items@).push(item@));
    r
}

} // verus!
