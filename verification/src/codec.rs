//! The JSON texts of cache keys, records and the store, as `rustc_serialize`
//! writes them.
//!
//! The functions here are not verified: each hands its arguments to the JSON
//! encoder or to the JSON decoder of `rustc_serialize` and names what comes
//! back. A name says only that what comes back is fixed by the arguments.
//! The decoder is handed tame texts only: on others its parser may panic.

use vstd::prelude::*;
use std::collections::BTreeMap;
use crate::assoc::unique_keys;
use crate::scan::tame;
use crate::workmap::{facts_of, sorted, Entry, Fact};

verus! {

/// The compact JSON text of the pair of a function name and its declared
/// inputs: an array of the name and of an object that maps each fact's name
/// to an object from kinds to values.
pub uninterp spec fn key_text(fn_name: Seq<char>, inputs: Seq<Fact>) -> Seq<char>;

/// The compact JSON text of a record: an array of the discovered inputs, the
/// discovered outputs, both as objects from names to objects from kinds to
/// values, and the result.
pub uninterp spec fn record_text(inputs: Seq<Fact>, outputs: Seq<Fact>, result: Seq<char>) -> Seq<
    char,
>;

/// The indented JSON text of an object that maps each row's first text to
/// its second.
pub uninterp spec fn store_text(rows: Seq<(Seq<char>, Seq<char>)>) -> Seq<char>;

/// The texts that a sequence of pairs of strings holds.
pub open spec fn pairs_of(rows: Seq<(String, String)>) -> Seq<(Seq<char>, Seq<char>)> {
    rows.map_values(|r: (String, String)| (r.0@, r.1@))
}

/// Calls `rustc_serialize::json::encode` on the pair of `fn_name` and the
/// entries gathered by name and kind. The entries must be sorted, no key
/// twice, so that gathering them neither reorders nor drops any. The
/// contract claims that the text is fixed by the name and the listed facts.
/// The encoder cannot fail here: every key of the two levels is a string.
#[verifier::external_body]
pub(crate) fn encode_key(fn_name: &str, inputs: &Vec<Entry>) -> (text: String)
    requires
        sorted(facts_of(inputs@)),
    ensures
        text@ == key_text(fn_name@, facts_of(inputs@)),
{
    let mut map: std::collections::BTreeMap<&str, std::collections::BTreeMap<&str, &str>> =
        std::collections::BTreeMap::new();
    for e in inputs.iter() {
        map.entry(e.name.as_str()).or_default().insert(e.kind.as_str(), e.value.as_str());
    }
    rustc_serialize::json::encode(&(fn_name, map)).unwrap()
}

/// Calls `rustc_serialize::json::encode` on the triple of the discovered
/// inputs, the discovered outputs, both gathered by name and kind, and the
/// result. Both listings must be sorted, no key twice, so that gathering
/// them neither reorders nor drops any. The contract claims that the text is
/// fixed by the listed facts and the result. The encoder cannot fail here:
/// every key is a string.
#[verifier::external_body]
pub(crate) fn encode_record(inputs: &Vec<Entry>, outputs: &Vec<Entry>, result: &str) -> (text:
    String)
    requires
        sorted(facts_of(inputs@)),
        sorted(facts_of(outputs@)),
    ensures
        text@ == record_text(facts_of(inputs@), facts_of(outputs@), result@),
{
    let mut ins: std::collections::BTreeMap<&str, std::collections::BTreeMap<&str, &str>> =
        std::collections::BTreeMap::new();
    for e in inputs.iter() {
        ins.entry(e.name.as_str()).or_default().insert(e.kind.as_str(), e.value.as_str());
    }
    let mut outs: std::collections::BTreeMap<&str, std::collections::BTreeMap<&str, &str>> =
        std::collections::BTreeMap::new();
    for e in outputs.iter() {
        outs.entry(e.name.as_str()).or_default().insert(e.kind.as_str(), e.value.as_str());
    }
    rustc_serialize::json::encode(&(ins, outs, result)).unwrap()
}

/// Writes the rows as one JSON object with `rustc_serialize::json::as_pretty_json`.
/// No two rows may have the same first text, so that none is dropped. The
/// contract claims that the text is fixed by the rows. The encoder cannot
/// fail here: every key is a string.
#[verifier::external_body]
pub(crate) fn encode_store(rows: &Vec<(String, String)>) -> (text: String)
    requires
        unique_keys(pairs_of(rows@)),
    ensures
        text@ == store_text(pairs_of(rows@)),
{
    let mut map: std::collections::BTreeMap<&str, &str> = std::collections::BTreeMap::new();
    for row in rows.iter() {
        map.insert(row.0.as_str(), row.1.as_str());
    }
    rustc_serialize::json::as_pretty_json(&map).to_string()
}

/// The compact JSON text of an array of three strings and a number.
pub uninterp spec fn row_text(row: (Seq<char>, Seq<char>, Seq<char>, u64)) -> Seq<char>;

/// The compact JSON text of an array of a first row and of the array of the
/// rows that follow it.
pub uninterp spec fn call_text(
    prog: (Seq<char>, Seq<char>, Seq<char>, u64),
    args: Seq<(Seq<char>, Seq<char>, Seq<char>, u64)>,
) -> Seq<char>;

/// A row of three strings and a number as plain values.
pub open spec fn row_view(row: (String, String, String, u64)) -> (Seq<char>, Seq<char>, Seq<char>, u64) {
    (row.0@, row.1@, row.2@, row.3)
}

/// The rows that a sequence of rows holds, as plain values.
pub open spec fn rows_view(rows: Seq<(String, String, String, u64)>) -> Seq<
    (Seq<char>, Seq<char>, Seq<char>, u64),
> {
    rows.map_values(|r: (String, String, String, u64)| row_view(r))
}

/// Calls `rustc_serialize::json::encode` on a tuple of three strings and a
/// number. The contract claims that the text is fixed by the four. The
/// encoder cannot fail here: a tuple is written as an array.
#[verifier::external_body]
pub(crate) fn encode_row(row: &(String, String, String, u64)) -> (text: String)
    ensures
        text@ == row_text(row_view(*row)),
{
    rustc_serialize::json::encode(row).unwrap()
}

/// Calls `rustc_serialize::json::encode` on the pair of a row and a vector
/// of rows. The contract claims that the text is fixed by the rows. The
/// encoder cannot fail here: tuples and vectors are written as arrays.
#[verifier::external_body]
pub(crate) fn encode_call(prog: &(String, String, String, u64), args: &Vec<(String, String, String, u64)>) -> (text:
    String)
    ensures
        text@ == call_text(row_view(*prog), rows_view(args@)),
{
    rustc_serialize::json::encode(&(prog, args)).unwrap()
}

/// The compact JSON text of an array of strings.
pub uninterp spec fn strings_text(values: Seq<Seq<char>>) -> Seq<char>;

/// Calls `rustc_serialize::json::encode` on a vector of strings. The
/// contract claims that the text is fixed by the strings. The encoder cannot
/// fail here: a vector is written as an array.
#[verifier::external_body]
pub(crate) fn encode_texts(values: &Vec<String>) -> (text: String)
    ensures
        text@ == strings_text(crate::text::texts(values@)),
{
    rustc_serialize::json::encode(values).unwrap()
}

/// An object of objects of strings, as the decoder gives it.
type Nested = BTreeMap<String, BTreeMap<String, String>>;

/// A row of three strings and a number, as the decoder gives it.
type RowOf = (String, String, String, u64);

/// The pairs of key and text that the JSON text of an object of strings
/// holds, in the order of the keys. There are none where the text is not the
/// JSON text of such an object.
pub uninterp spec fn decoded_store(body: Seq<char>) -> Option<Seq<(Seq<char>, Seq<char>)>>;

/// The discovered inputs, the discovered outputs and the result that the
/// JSON text of a record holds, the facts in the order of their names and
/// kinds. There are none where the text is not the JSON text of a record.
pub uninterp spec fn decoded_record(text: Seq<char>) -> Option<(Seq<Fact>, Seq<Fact>, Seq<char>)>;

/// The row that the JSON text of an array of three strings and a number
/// holds. There is none where the text is not such a text.
pub uninterp spec fn decoded_row(text: Seq<char>) -> Option<(Seq<char>, Seq<char>, Seq<char>, u64)>;

/// The first row and the rows after it that the JSON text of a command
/// line holds. There are none where the text is not such a text.
pub uninterp spec fn decoded_call(text: Seq<char>) -> Option<
    ((Seq<char>, Seq<char>, Seq<char>, u64), Seq<(Seq<char>, Seq<char>, Seq<char>, u64)>),
>;

/// Calls `rustc_serialize::json::decode` for an object of strings and lists
/// its pairs. The text must be tame. The contract claims that what comes
/// back, pairs or nothing, is fixed by the text.
#[verifier::external_body]
pub(crate) fn decode_store(body: &str) -> (r: Option<Vec<(String, String)>>)
    requires
        tame(body@),
    ensures
        decoded_store(body@) == match r {
            Some(v) => Some(pairs_of(v@)),
            None => None,
        },
{
    rustc_serialize::json::decode::<BTreeMap<String, String>>(body).ok().map(|m| m.into_iter().collect())
}

/// Calls `rustc_serialize::json::decode` for a record and lists the facts
/// of its two objects. The text must be tame. The contract claims that what
/// comes back, a record or nothing, is fixed by the text.
#[verifier::external_body]
pub(crate) fn decode_record(text: &str) -> (r: Option<(Vec<Entry>, Vec<Entry>, String)>)
    requires
        tame(text@),
    ensures
        decoded_record(text@) == match r {
            Some(t) => Some((facts_of(t.0@), facts_of(t.1@), t.2@)),
            None => None,
        },
{
    let flat = |m: Nested| -> Vec<Entry> {
        m.into_iter().flat_map(|(name, kinds)| {
            kinds.into_iter().map(move |(kind, value)| Entry { name: name.clone(), kind, value })
        }).collect()
    };
    rustc_serialize::json::decode::<(Nested, Nested, String)>(text).ok().map(|(i, o, r)| (flat(i), flat(o), r))
}

/// Calls `rustc_serialize::json::decode` for an array of three strings and
/// a number. The text must be tame. The contract claims that what comes
/// back, a row or nothing, is fixed by the text.
#[verifier::external_body]
pub(crate) fn decode_row(text: &str) -> (r: Option<(String, String, String, u64)>)
    requires
        tame(text@),
    ensures
        decoded_row(text@) == match r {
            Some(row) => Some(row_view(row)),
            None => None,
        },
{
    rustc_serialize::json::decode::<RowOf>(text).ok()
}

/// Calls `rustc_serialize::json::decode` for the pair of a row and an array
/// of rows. The text must be tame. The contract claims that what comes
/// back, rows or nothing, is fixed by the text.
#[verifier::external_body]
pub(crate) fn decode_call(text: &str) -> (r: Option<
    ((String, String, String, u64), Vec<(String, String, String, u64)>),
>)
    requires
        tame(text@),
    ensures
        decoded_call(text@) == match r {
            Some(c) => Some((row_view(c.0), rows_view(c.1@))),
            None => None,
        },
{
    rustc_serialize::json::decode::<(RowOf, Vec<RowOf>)>(text).ok()
}

} // verus!
