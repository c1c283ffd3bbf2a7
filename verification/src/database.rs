//! The store of records: one record for each cache key under which a
//! computation has completed.

use vstd::prelude::*;
use vstd::string::StrSliceExecFns;
use vstd::string::StringExecFns;
use crate::codec::{decode_record, decode_store, decoded_record, decoded_store, pairs_of};
use crate::codec::{encode_key, encode_record, encode_store, key_text, record_text, store_text};
use crate::scan::{is_tame, tame};
use crate::workmap::entered;
use crate::assoc::{filed, lemma_added, lemma_filed_unique, lemma_map_of, lemma_replaced, map_of, unique_keys};
use crate::workmap::{Fact, WorkMap};

verus! {

/// What a computation left behind: the facts it discovered while it ran, and
/// its result.
pub struct Record {
    pub discovered_inputs: WorkMap,
    pub discovered_outputs: WorkMap,
    pub result: String,
}

/// A record as plain values: the two listings of discovered facts and the
/// result.
pub struct RecordView {
    pub discovered_inputs: Seq<Fact>,
    pub discovered_outputs: Seq<Fact>,
    pub result: Seq<char>,
}

impl View for Record {
    type V = RecordView;

    open spec fn view(&self) -> RecordView {
        RecordView {
            discovered_inputs: self.discovered_inputs.facts(),
            discovered_outputs: self.discovered_outputs.facts(),
            result: self.result@,
        }
    }
}

/// One row of the store: a cache key and the record filed under it.
pub struct Row {
    pub key: String,
    pub record: Record,
}

impl View for Row {
    type V = (Seq<char>, RecordView);

    open spec fn view(&self) -> (Seq<char>, RecordView) {
        (self.key@, self.record@)
    }
}

/// The rows that a sequence of stored rows holds, as plain values.
pub open spec fn rows_of(rows: Seq<Row>) -> Seq<(Seq<char>, RecordView)> {
    rows.map_values(|r: Row| r@)
}

/// Each row's key beside the JSON text of its record.
pub open spec fn row_texts(s: Seq<(Seq<char>, RecordView)>) -> Seq<(Seq<char>, Seq<char>)> {
    s.map_values(
        |r: (Seq<char>, RecordView)|
            (r.0, record_text(r.1.discovered_inputs, r.1.discovered_outputs, r.1.result)),
    )
}

/// The line with which the text of a store begins. It names the layout of
/// what follows; a text that begins otherwise is in no layout that this
/// store reads.
pub open spec fn header() -> Seq<char> {
    "workcache-store 1\n"@
}

/// The text of a store: the header line, then the JSON object that maps
/// each key to the JSON text of its record.
pub open spec fn store_file(rows: Seq<(Seq<char>, RecordView)>) -> Seq<char> {
    header() + store_text(row_texts(rows))
}

/// What follows the header line in `text`, where `text` begins with it.
pub open spec fn body_of(text: Seq<char>) -> Option<Seq<char>> {
    if text.len() >= header().len() && text.subrange(0, header().len() as int) == header() {
        Some(text.subrange(header().len() as int, text.len() as int))
    } else {
        None
    }
}

/// What follows the header line in the text of a store. A text that does
/// not begin with the header line has no body: it is to be taken for an
/// empty store.
pub fn store_body(text: &str) -> (body: Option<&str>)
    ensures
        match body {
            Some(b) => body_of(text@) == Some(b@),
            None => body_of(text@) is None,
        },
{
    let head = "workcache-store 1\n";
    let n = head.unicode_len();
    let len = text.unicode_len();
    if len < n {
        return None;
    }
    if !crate::order::same_text(text.substring_char(0, n), head) {
        return None;
    }
    Some(text.substring_char(n, len))
}

/// The body of the text that a store writes is the JSON object of its rows:
/// what is written with the header line is read back without it.
pub proof fn lemma_saved_body(rows: Seq<(Seq<char>, RecordView)>)
    ensures
        body_of(store_file(rows)) == Some(store_text(row_texts(rows))),
{
    let text = store_file(rows);
    let n = header().len() as int;
    assert(text.subrange(0, n) =~= header());
    assert(text.subrange(n, text.len() as int) =~= store_text(row_texts(rows)));
}

/// The key under which the record of a call is filed: the JSON text of the
/// function's name and its declared inputs.
pub open spec fn cache_key(fn_name: Seq<char>, declared_inputs: WorkMap) -> Seq<char> {
    key_text(fn_name, declared_inputs.facts())
}

/// The store: the place it is kept at, the rows it holds, and whether they
/// have changed since they were last written out.
pub struct Database {
    db_filename: String,
    db_cache: Vec<Row>,
    db_dirty: bool,
}

impl View for Database {
    type V = Map<Seq<char>, RecordView>;

    open spec fn view(&self) -> Map<Seq<char>, RecordView> {
        map_of(self.rows())
    }
}

impl Database {
    /// The rows in the order in which their keys were first filed.
    pub closed spec fn rows(&self) -> Seq<(Seq<char>, RecordView)> {
        rows_of(self.db_cache@)
    }

    /// Whether the rows have changed since they were last written out.
    pub closed spec fn dirty(&self) -> bool {
        self.db_dirty
    }

    /// The place at which the store is kept.
    pub closed spec fn filename(&self) -> Seq<char> {
        self.db_filename@
    }

    /// No key is filed twice.
    #[verifier::type_invariant]
    pub open spec fn wf(&self) -> bool {
        unique_keys(self.rows())
    }

    /// An empty store kept at `p`, with nothing to write out.
    pub fn new(p: String) -> (db: Database)
        ensures
            db@ == Map::<Seq<char>, RecordView>::empty(),
            db.rows() == Seq::<(Seq<char>, RecordView)>::empty(),
            !db.dirty(),
            db.filename() == p@,
    {
        let db = Database { db_filename: p, db_cache: Vec::new(), db_dirty: false };
        assert(db.rows() =~= Seq::<(Seq<char>, RecordView)>::empty());
        assert(db@ =~= Map::<Seq<char>, RecordView>::empty());
        db
    }

    /// The place at which the store is kept.
    pub fn db_filename(&self) -> (p: &String)
        ensures
            p@ == self.filename(),
    {
        &self.db_filename
    }

    /// Whether the rows have changed since they were last written out.
    pub fn is_dirty(&self) -> (d: bool)
        ensures
            d == self.dirty(),
    {
        self.db_dirty
    }

    /// The number of rows.
    pub fn len(&self) -> (n: usize)
        ensures
            n == self.rows().len(),
    {
        self.db_cache.len()
    }

    /// The position of the row filed under `key`, if there is one.
    fn position(&self, key: &String) -> (r: Option<usize>)
        ensures
            match r {
                Some(i) => i < self.rows().len() && self.rows()[i as int].0 == key@,
                None => forall|j: int| 0 <= j < self.rows().len() ==> (#[trigger] self.rows()[j]).0 != key@,
            },
    {
        let mut i: usize = 0;
        while i < self.db_cache.len()
            invariant
                i <= self.db_cache.len(),
                forall|j: int| 0 <= j < i ==> (#[trigger] self.rows()[j]).0 != key@,
            decreases self.db_cache.len() - i,
        {
            assert(self.rows()[i as int] == self.db_cache@[i as int]@);
            if self.db_cache[i].key == *key {
                return Some(i);
            }
            i += 1;
        }
        None
    }

    /// Looks up the record of a call by the cache key of its function name and
    /// declared inputs. That there is none says that the call was never
    /// computed.
    pub fn prepare(&self, fn_name: &str, declared_inputs: &WorkMap) -> (r: Option<&Record>)
        ensures
            match r {
                Some(record) => self@.contains_key(cache_key(fn_name@, *declared_inputs)) && record@
                    == self@[cache_key(fn_name@, *declared_inputs)],
                None => !self@.contains_key(cache_key(fn_name@, *declared_inputs)),
            },
    {
        let k = encode_key(fn_name, declared_inputs.entries());
        proof {
            use_type_invariant(self);
            lemma_map_of(self.rows());
        }
        match self.position(&k) {
            Some(i) => {
                assert(self.rows()[i as int] == self.db_cache@[i as int]@);
                Some(&self.db_cache[i].record)
            },
            None => None,
        }
    }

    /// Files `record` under the cache key of the call, in place of any record
    /// filed there before, and marks the store as changed.
    pub fn cache(&mut self, fn_name: &str, declared_inputs: &WorkMap, record: Record)
        ensures
            final(self)@ == old(self)@.insert(cache_key(fn_name@, *declared_inputs), record@),
            final(self).dirty(),
            final(self).filename() == old(self).filename(),
    {
        let k = encode_key(fn_name, declared_inputs.entries());
        proof {
            use_type_invariant(&*self);
        }
        let ghost before = self.rows();
        let ghost row = (k@, record@);
        let found = self.position(&k);
        let mut rows: Vec<Row> = Vec::new();
        std::mem::swap(&mut self.db_cache, &mut rows);
        assert(rows_of(rows@) == before);
        match found {
            Some(i) => {
                rows.set(i, Row { key: k, record });
                proof {
                    assert(rows_of(rows@) =~= before.update(i as int, row));
                    lemma_replaced(before, i as int, row);
                }
            },
            None => {
                rows.push(Row { key: k, record });
                proof {
                    assert(rows_of(rows@) =~= before.push(row));
                    lemma_added(before, row);
                }
            },
        }
        self.db_cache = rows;
        self.db_dirty = true;
    }

    /// Replaces what the store holds by the given rows, filed one after
    /// another, a later row replacing an earlier one with its key. The store
    /// must have nothing to write out.
    pub fn load(&mut self, rows: Vec<Row>)
        requires
            !old(self).dirty(),
        ensures
            final(self)@ == filed(rows_of(rows@)),
            !final(self).dirty(),
            final(self).filename() == old(self).filename(),
    {
        let ghost all = rows_of(rows@);
        let mut rows = rows;
        let mut rest: Vec<Row> = Vec::new();
        while rows.len() > 0
            invariant
                rows_of(rows@) + rows_of(rest@).reverse() == all,
            decreases rows.len(),
        {
            let ghost before = rows@;
            let ghost rest_before = rest@;
            let r = rows.pop().unwrap();
            rest.push(r);
            proof {
                assert(rows_of(rest@).reverse() =~= seq![r@] + rows_of(rest_before).reverse());
                assert(rows_of(before) =~= rows_of(rows@) + seq![r@]);
                assert(rows_of(rows@) + rows_of(rest@).reverse() =~= rows_of(before) + rows_of(
                    rest_before,
                ).reverse());
            }
        }
        assert(rows_of(rest@).reverse() =~= all);
        let mut kept: Vec<Row> = Vec::new();
        let ghost mut done: Seq<(Seq<char>, RecordView)> = Seq::empty();
        proof {
            crate::assoc::lemma_map_of_empty::<Seq<char>, RecordView>();
            assert(rows_of(kept@) =~= Seq::<(Seq<char>, RecordView)>::empty());
        }
        while rest.len() > 0
            invariant
                done + rows_of(rest@).reverse() == all,
                unique_keys(rows_of(kept@)),
                map_of(rows_of(kept@)) == filed(done),
            decreases rest.len(),
        {
            let ghost rest_before = rest@;
            let ghost kept_before = rows_of(kept@);
            let r = rest.pop().unwrap();
            proof {
                assert(rows_of(rest_before).reverse() =~= seq![r@] + rows_of(rest@).reverse());
                let next = done.push(r@);
                assert(next.drop_last() =~= done);
                assert(next + rows_of(rest@).reverse() =~= done + rows_of(rest_before).reverse());
                done = next;
            }
            let found = find_row(&kept, &r.key);
            match found {
                Some(i) => {
                    kept.set(i, r);
                    proof {
                        assert(rows_of(kept@) =~= kept_before.update(i as int, r@));
                        lemma_replaced(kept_before, i as int, r@);
                    }
                },
                None => {
                    kept.push(r);
                    proof {
                        assert(rows_of(kept@) =~= kept_before.push(r@));
                        lemma_added(kept_before, r@);
                    }
                },
            }
        }
        assert(done =~= all);
        self.db_cache = kept;
    }

    /// The text of the store: the header line, then the JSON object that
    /// maps each key to the JSON text of its record.
    pub fn save(&self) -> (text: String)
        ensures
            text@ == store_file(self.rows()),
    {
        let mut pairs: Vec<(String, String)> = Vec::new();
        let mut i: usize = 0;
        while i < self.db_cache.len()
            invariant
                i <= self.db_cache.len(),
                crate::codec::pairs_of(pairs@) == row_texts(self.rows()).take(i as int),
            decreases self.db_cache.len() - i,
        {
            let row = &self.db_cache[i];
            let t = encode_record(
                row.record.discovered_inputs.entries(),
                row.record.discovered_outputs.entries(),
                row.record.result.as_str(),
            );
            let ghost before = pairs@;
            pairs.push((row.key.clone(), t));
            proof {
                assert(self.rows()[i as int] == row@);
                assert(crate::codec::pairs_of(pairs@) =~= crate::codec::pairs_of(before).push(
                    (row.key@, t@),
                ));
                assert(row_texts(self.rows()).take(i + 1) =~= row_texts(self.rows()).take(i as int).push(
                    row_texts(self.rows())[i as int],
                ));
            }
            i += 1;
        }
        proof {
            use_type_invariant(self);
            let rows = self.rows();
            let texts = row_texts(rows);
            assert(texts.take(i as int) =~= texts);
            assert forall|a: int, b: int|
                0 <= a < texts.len() && 0 <= b < texts.len() && (#[trigger] texts[a]).0 == (#[trigger] texts[b]).0 implies a
                == b by {
                assert(rows[a].0 == rows[b].0);
            }
        }
        let mut text = "workcache-store 1\n".to_owned();
        text.append(encode_store(&pairs).as_str());
        text
    }

    /// Where the rows have changed since they were last written out: the text
    /// to write, after which the store counts as written. Otherwise nothing.
    pub fn flush(&mut self) -> (r: Option<String>)
        ensures
            final(self).rows() == old(self).rows(),
            final(self).filename() == old(self).filename(),
            !final(self).dirty(),
            match r {
                Some(text) => old(self).dirty() && text@ == store_file(old(self).rows()),
                None => !old(self).dirty(),
            },
    {
        proof {
            use_type_invariant(&*self);
        }
        if self.db_dirty {
            let text = self.save();
            self.db_dirty = false;
            Some(text)
        } else {
            None
        }
    }
}

/// The position of a row with the given key, if there is one.
fn find_row(rows: &Vec<Row>, key: &String) -> (r: Option<usize>)
    ensures
        match r {
            Some(i) => i < rows@.len() && rows_of(rows@)[i as int].0 == key@,
            None => forall|j: int| 0 <= j < rows@.len() ==> (#[trigger] rows_of(rows@)[j]).0 != key@,
        },
{
    let mut i: usize = 0;
    while i < rows.len()
        invariant
            i <= rows.len(),
            forall|j: int| 0 <= j < i ==> (#[trigger] rows_of(rows@)[j]).0 != key@,
        decreases rows.len() - i,
    {
        assert(rows_of(rows@)[i as int] == rows@[i as int]@);
        if rows[i].key == *key {
            return Some(i);
        }
        i += 1;
    }
    None
}

impl Database {
    /// The store kept at `p`: empty where there is no text of a store file,
    /// and otherwise holding what the text holds. A text in another layout
    /// gives an empty store; a text that cannot be read gives the reason.
    pub fn open(p: String, text: Option<&str>) -> (r: Result<Database, Corrupt>)
        ensures
            match r {
                Ok(db) => db.filename() == p@ && !db.dirty() && match text {
                    None => db@ == Map::<Seq<char>, RecordView>::empty(),
                    Some(t) => opened(t@, db),
                },
                Err(e) => (text matches Some(t) && unreadable(t@, e)),
            },
    {
        let mut db = Database::new(p);
        match text {
            None => Ok(db),
            Some(t) => match read_store(t) {
                Ok(rows) => {
                    let ghost read = rows@;
                    db.load(rows);
                    assert(store_reads(t@, read) && db@ == filed(rows_of(read)));
                    Ok(db)
                },
                Err(e) => Err(e),
            },
        }
    }
}

/// Filing again the rows that a store holds gives the store's own mapping.
pub proof fn lemma_reload(db: Database)
    requires
        db.wf(),
    ensures
        filed(db.rows()) == db@,
{
    lemma_filed_unique(db.rows());
}

/// Why the text of a store cannot be read.
pub enum Corrupt {
    /// What follows the header line is not tame: the parser cannot be
    /// handed it.
    Refused,
    /// What follows the header line is not the JSON text of an object of
    /// strings.
    Store,
    /// The text filed under the key is not the JSON text of a record.
    Record(String),
}

/// The row is what the pair of a key and the JSON text of a record holds:
/// the key, and the record with its facts filed one after another.
pub open spec fn row_reads(row: Row, pair: (Seq<char>, Seq<char>)) -> bool {
    &&& row.key@ == pair.0
    &&& tame(pair.1)
    &&& (decoded_record(pair.1) matches Some(t) && row.record.discovered_inputs@ == entered(t.0)
        && row.record.discovered_outputs@ == entered(t.1) && row.record.result@ == t.2)
}

/// The rows are what the text of a store holds: none where the text does
/// not begin with the header line, and otherwise one row for each pair of
/// the object that follows it, in the order of the keys.
pub open spec fn store_reads(text: Seq<char>, rows: Seq<Row>) -> bool {
    match body_of(text) {
        None => rows.len() == 0,
        Some(b) => tame(b) && (decoded_store(b) matches Some(ps) && rows.len() == ps.len() && forall|i: int|
            0 <= i < ps.len() ==> row_reads(#[trigger] rows[i], ps[i])),
    }
}

/// The text filed under `key` in the object of the tame text `body` is not
/// the JSON text of a record, or is not tame.
pub open spec fn record_fails(body: Seq<char>, key: Seq<char>) -> bool {
    (decoded_store(body) matches Some(ps) && exists|i: int|
        0 <= i < ps.len() && (#[trigger] ps[i]).0 == key && !(tame(ps[i].1) && decoded_record(ps[i].1) is Some))
}

/// The text of a store cannot be read, for the reason `e`: it begins with
/// the header line, and what follows is not tame, or is not the JSON text
/// of an object of strings, or files under the key that `e` names a text
/// that is not the JSON text of a record.
pub open spec fn unreadable(text: Seq<char>, e: Corrupt) -> bool {
    match e {
        Corrupt::Refused => (body_of(text) matches Some(b) && !tame(b)),
        Corrupt::Store => (body_of(text) matches Some(b) && tame(b) && decoded_store(b) is None),
        Corrupt::Record(k) => (body_of(text) matches Some(b) && tame(b) && record_fails(b, k@)),
    }
}

/// The store holds what the text of a store holds: the rows of the text,
/// filed one after another.
pub open spec fn opened(text: Seq<char>, db: Database) -> bool {
    exists|rows: Seq<Row>| #[trigger] store_reads(text, rows) && db@ == filed(rows_of(rows))
}

/// Reads the rows out of the text of a store. A text that does not begin
/// with the header line is in another layout and holds no rows. What follows
/// the header line is read as an object that maps each key to the JSON text
/// of its record; where it or one of the records cannot be read, the error
/// says which.
pub fn read_store(text: &str) -> (r: Result<Vec<Row>, Corrupt>)
    ensures
        match r {
            Ok(rows) => store_reads(text@, rows@),
            Err(e) => unreadable(text@, e),
        },
{
    let body = match store_body(text) {
        Some(body) => body,
        None => {
            return Ok(Vec::new());
        },
    };
    if !is_tame(body) {
        return Err(Corrupt::Refused);
    }
    let pairs = match decode_store(body) {
        Some(pairs) => pairs,
        None => {
            return Err(Corrupt::Store);
        },
    };
    let ghost ps = pairs_of(pairs@);
    let mut rows: Vec<Row> = Vec::new();
    let mut i: usize = 0;
    while i < pairs.len()
        invariant
            i <= pairs@.len(),
            ps == pairs_of(pairs@),
            body_of(text@) == Some(body@),
            tame(body@),
            decoded_store(body@) == Some(ps),
            rows@.len() == i,
            forall|j: int| 0 <= j < i ==> row_reads(#[trigger] rows@[j], ps[j]),
        decreases pairs@.len() - i,
    {
        let key = pairs[i].0.clone();
        let value = pairs[i].1.as_str();
        assert(ps[i as int] == (key@, value@));
        if !is_tame(value) {
            assert(record_fails(body@, key@));
            return Err(Corrupt::Record(key));
        }
        let record = match decode_record(value) {
            Some((inputs, outputs, result)) => Record {
                discovered_inputs: WorkMap::from_entries(inputs),
                discovered_outputs: WorkMap::from_entries(outputs),
                result,
            },
            None => {
                assert(record_fails(body@, key@));
                return Err(Corrupt::Record(key));
            },
        };
        rows.push(Row { key, record });
        i += 1;
    }
    Ok(rows)
}

} // verus!
