//! Facts and the ordered map that holds them.
//!
//! A fact has a kind, which selects how its freshness is judged, a name, which
//! tells facts of one kind apart, and a value. A `WorkMap` holds at most one
//! value for each pair of name and kind, and keeps its entries sorted by name
//! and then by kind, so that two maps with the same content list the same
//! entries in the same order.

use vstd::prelude::*;
use crate::order::{compare, text_lt, Order};
use crate::order::{lemma_text_lt_asymmetric, lemma_text_lt_total, lemma_text_lt_transitive};

verus! {

/// The pair of name and kind under which a value is filed, name first.
pub type Key = (Seq<char>, Seq<char>);

/// What an entry holds, as plain texts.
pub struct Fact {
    pub name: Seq<char>,
    pub kind: Seq<char>,
    pub value: Seq<char>,
}

impl Fact {
    /// The pair under which this fact is filed.
    pub open spec fn key(self) -> Key {
        (self.name, self.kind)
    }
}

/// `a` is filed before `b`: by name, and by kind where the names are equal.
pub open spec fn key_lt(a: Key, b: Key) -> bool {
    text_lt(a.0, b.0) || (a.0 == b.0 && text_lt(a.1, b.1))
}

/// The three-way comparison of two keys.
pub open spec fn key_order(a: Key, b: Key) -> Order {
    if a == b {
        Order::Equal
    } else if key_lt(a, b) {
        Order::Less
    } else {
        Order::Greater
    }
}

/// Each fact is filed strictly before every later one.
pub open spec fn sorted(s: Seq<Fact>) -> bool {
    forall|i: int, j: int| 0 <= i < j < s.len() ==> key_lt(#[trigger] s[i].key(), #[trigger] s[j].key())
}

/// No two facts of `s` are filed under the same key.
pub open spec fn distinct_keys(s: Seq<Fact>) -> bool {
    forall|i: int, j: int|
        0 <= i < s.len() && 0 <= j < s.len() && #[trigger] s[i].key() == #[trigger] s[j].key() ==> i == j
}

/// The map from keys to values that the facts of `s` spell out. Where a key
/// occurs once, its value is that fact's value.
pub open spec fn facts_map(s: Seq<Fact>) -> Map<Key, Seq<char>> {
    Map::new(
        |k: Key| exists|i: int| 0 <= i < s.len() && (#[trigger] s[i]).key() == k,
        |k: Key| s[choose|i: int| 0 <= i < s.len() && (#[trigger] s[i]).key() == k].value,
    )
}

/// The map that results from entering the facts of `s` one after another
/// into an empty map, a later fact replacing an earlier one with its key.
pub open spec fn entered(s: Seq<Fact>) -> Map<Key, Seq<char>>
    decreases s.len(),
{
    if s.len() == 0 {
        Map::empty()
    } else {
        entered(s.drop_last()).insert(s.last().key(), s.last().value)
    }
}

/// If `a` is filed before `b`, then `b` is not filed before `a`.
pub proof fn lemma_key_lt_asymmetric(a: Key, b: Key)
    requires
        key_lt(a, b),
    ensures
        !key_lt(b, a),
{
    if text_lt(a.0, b.0) {
        lemma_text_lt_asymmetric(a.0, b.0);
    } else {
        lemma_text_lt_asymmetric(a.1, b.1);
    }
}

/// The order of keys is transitive.
pub proof fn lemma_key_lt_transitive(a: Key, b: Key, c: Key)
    requires
        key_lt(a, b),
        key_lt(b, c),
    ensures
        key_lt(a, c),
{
    if text_lt(a.0, b.0) && text_lt(b.0, c.0) {
        lemma_text_lt_transitive(a.0, b.0, c.0);
    } else if a.0 == b.0 && b.0 == c.0 {
        lemma_text_lt_transitive(a.1, b.1, c.1);
    }
}

/// Of two different keys one is filed before the other.
pub proof fn lemma_key_lt_total(a: Key, b: Key)
    ensures
        a == b || key_lt(a, b) || key_lt(b, a),
{
    lemma_text_lt_total(a.0, b.0);
    lemma_text_lt_total(a.1, b.1);
}

/// Sorted facts have distinct keys.
pub proof fn lemma_sorted_distinct(s: Seq<Fact>)
    requires
        sorted(s),
    ensures
        distinct_keys(s),
{
    assert forall|i: int, j: int|
        0 <= i < s.len() && 0 <= j < s.len() && #[trigger] s[i].key() == #[trigger] s[j].key() implies i
        == j by {
        if i < j {
            assert(key_lt(s[i].key(), s[j].key()));
        } else if j < i {
            assert(key_lt(s[j].key(), s[i].key()));
        }
    }
}

/// Where keys are distinct, the map holds each fact's value under its key,
/// and nothing else.
pub proof fn lemma_facts_map(s: Seq<Fact>)
    requires
        distinct_keys(s),
    ensures
        forall|i: int|
            0 <= i < s.len() ==> facts_map(s).contains_key((#[trigger] s[i]).key()) && facts_map(s)[s[i].key()]
                == s[i].value,
        forall|k: Key| #[trigger]
            facts_map(s).contains_key(k) ==> exists|i: int| 0 <= i < s.len() && (#[trigger] s[i]).key() == k,
{
    assert forall|i: int| 0 <= i < s.len() implies facts_map(s).contains_key((#[trigger] s[i]).key())
        && facts_map(s)[s[i].key()] == s[i].value by {
        let k = s[i].key();
        let c = choose|c: int| 0 <= c < s.len() && (#[trigger] s[c]).key() == k;
        assert(s[c].key() == s[i].key());
    }
}

/// Identifies one fact: its kind and its name.
pub struct WorkKey {
    pub kind: String,
    pub name: String,
}

impl View for WorkKey {
    type V = Key;

    open spec fn view(&self) -> Key {
        (self.name@, self.kind@)
    }
}

impl WorkKey {
    /// The key of the given kind and name.
    pub fn new(kind: &str, name: &str) -> (k: WorkKey)
        ensures
            k.kind@ == kind@,
            k.name@ == name@,
    {
        WorkKey { kind: kind.to_owned(), name: name.to_owned() }
    }
}

/// One entry of a `WorkMap`.
pub struct Entry {
    pub name: String,
    pub kind: String,
    pub value: String,
}

impl View for Entry {
    type V = Fact;

    open spec fn view(&self) -> Fact {
        Fact { name: self.name@, kind: self.kind@, value: self.value@ }
    }
}

/// The facts that a sequence of entries holds.
pub open spec fn facts_of(entries: Seq<Entry>) -> Seq<Fact> {
    entries.map_values(|e: Entry| e@)
}

/// Compares the key made of `name_a` and `kind_a` with the one made of
/// `name_b` and `kind_b`.
pub fn compare_keys(name_a: &str, kind_a: &str, name_b: &str, kind_b: &str) -> (o: Order)
    ensures
        o == key_order((name_a@, kind_a@), (name_b@, kind_b@)),
{
    proof {
        lemma_key_lt_total((name_a@, kind_a@), (name_b@, kind_b@));
        if key_lt((name_a@, kind_a@), (name_b@, kind_b@)) {
            lemma_key_lt_asymmetric((name_a@, kind_a@), (name_b@, kind_b@));
        }
        lemma_text_lt_total(name_a@, name_b@);
        lemma_text_lt_total(kind_a@, kind_b@);
    }
    match compare(name_a, name_b) {
        Order::Less => Order::Less,
        Order::Greater => {
            proof {
                lemma_text_lt_total(name_a@, name_b@);
                if text_lt(name_a@, name_b@) {
                    lemma_text_lt_asymmetric(name_a@, name_b@);
                }
            }
            Order::Greater
        },
        Order::Equal => {
            let o = compare(kind_a, kind_b);
            proof {
                if text_lt(kind_a@, kind_b@) {
                    lemma_text_lt_asymmetric(kind_a@, kind_b@);
                }
            }
            o
        },
    }
}

/// An ordered map from pairs of name and kind to values.
pub struct WorkMap {
    entries: Vec<Entry>,
}

impl View for WorkMap {
    type V = Map<Key, Seq<char>>;

    open spec fn view(&self) -> Map<Key, Seq<char>> {
        facts_map(self.facts())
    }
}

impl WorkMap {
    /// The facts that the map holds, in the order in which it lists them.
    pub closed spec fn facts(&self) -> Seq<Fact> {
        facts_of(self.entries@)
    }

    /// The entries are sorted by name and then by kind, no key twice.
    #[verifier::type_invariant]
    pub open spec fn wf(&self) -> bool {
        sorted(self.facts())
    }

    /// The empty map.
    pub fn new() -> (m: WorkMap)
        ensures
            m.facts() == Seq::<Fact>::empty(),
            m@ == Map::<Key, Seq<char>>::empty(),
    {
        let m = WorkMap { entries: Vec::new() };
        assert(m.facts() =~= Seq::<Fact>::empty());
        assert(m@ =~= Map::<Key, Seq<char>>::empty());
        m
    }

    /// The number of entries.
    pub fn len(&self) -> (n: usize)
        ensures
            n == self.facts().len(),
    {
        self.entries.len()
    }

    /// The entries in the order of the listing.
    pub fn entries(&self) -> (r: &Vec<Entry>)
        ensures
            facts_of(r@) == self.facts(),
            sorted(self.facts()),
    {
        proof {
            use_type_invariant(self);
        }
        &self.entries
    }

    /// The map that results from filing the given entries one after another,
    /// a later entry replacing an earlier one with its key.
    pub fn from_entries(entries: Vec<Entry>) -> (m: WorkMap)
        ensures
            m@ == entered(facts_of(entries@)),
    {
        let ghost all = facts_of(entries@);
        let mut m = WorkMap::new();
        let mut entries = entries;
        let mut rest: Vec<Entry> = Vec::new();
        // Entries are taken from the back, so reverse first to file them in order.
        while entries.len() > 0
            invariant
                facts_of(entries@) + facts_of(rest@).reverse() == all,
            decreases entries.len(),
        {
            let ghost before = entries@;
            let ghost rest_before = rest@;
            let e = entries.pop().unwrap();
            rest.push(e);
            proof {
                assert(facts_of(rest@).reverse() =~= seq![e@] + facts_of(rest_before).reverse());
                assert(facts_of(before) =~= facts_of(entries@) + seq![e@]);
                assert(facts_of(entries@) + facts_of(rest@).reverse() =~= facts_of(before) + facts_of(
                    rest_before,
                ).reverse());
            }
        }
        assert(facts_of(rest@).reverse() =~= all);
        let ghost mut done: Seq<Fact> = Seq::empty();
        while rest.len() > 0
            invariant
                done + facts_of(rest@).reverse() == all,
                m@ == entered(done),
            decreases rest.len(),
        {
            let ghost rest_before = rest@;
            let e = rest.pop().unwrap();
            proof {
                assert(facts_of(rest_before).reverse() =~= seq![e@] + facts_of(rest@).reverse());
                let next = done.push(e@);
                assert(next.drop_last() =~= done);
                assert(next + facts_of(rest@).reverse() =~= done + facts_of(rest_before).reverse());
                done = next;
            }
            m.insert_work_key(WorkKey { kind: e.kind, name: e.name }, e.value);
        }
        assert(done =~= all);
        m
    }

    /// The entry at position `i` of the listing.
    pub fn entry(&self, i: usize) -> (e: &Entry)
        requires
            i < self.facts().len(),
        ensures
            e@ == self.facts()[i as int],
    {
        &self.entries[i]
    }

    /// Files `value` under `k`, in place of any value filed there before.
    pub fn insert_work_key(&mut self, k: WorkKey, value: String)
        ensures
            final(self)@ == old(self)@.insert(k@, value@),
    {
        proof {
            use_type_invariant(&*self);
        }
        let ghost before = self.facts();
        let ghost fact = Fact { name: k.name@, kind: k.kind@, value: value@ };
        let mut i: usize = 0;
        let mut found = false;
        while i < self.entries.len()
            invariant_except_break
                !found,
            invariant
                i <= self.entries.len(),
                self.facts() == before,
                forall|j: int| 0 <= j < i ==> key_lt(#[trigger] before[j].key(), k@),
            ensures
                i <= self.entries.len(),
                self.facts() == before,
                forall|j: int| 0 <= j < i ==> key_lt(#[trigger] before[j].key(), k@),
                found ==> i < before.len() && before[i as int].key() == k@,
                !found && i < before.len() ==> key_lt(k@, before[i as int].key()),
            decreases self.entries.len() - i,
        {
            let e = &self.entries[i];
            assert(before[i as int].key() == (e.name@, e.kind@));
            match compare_keys(e.name.as_str(), e.kind.as_str(), k.name.as_str(), k.kind.as_str()) {
                Order::Less => {
                    i += 1;
                },
                Order::Equal => {
                    found = true;
                    break ;
                },
                Order::Greater => {
                    proof {
                        lemma_key_lt_total(before[i as int].key(), k@);
                    }
                    break ;
                },
            }
        }
        let mut entries: Vec<Entry> = Vec::new();
        std::mem::swap(&mut self.entries, &mut entries);
        assert(facts_of(entries@) == before);
        if found {
            entries.set(i, Entry { name: k.name, kind: k.kind, value });
            proof {
                assert(facts_of(entries@) =~= before.update(i as int, fact));
                lemma_replaced(before, i as int, fact);
            }
        } else {
            entries.insert(i, Entry { name: k.name, kind: k.kind, value });
            proof {
                assert(facts_of(entries@) =~= before.insert(i as int, fact));
                lemma_inserted(before, i as int, fact);
            }
        }
        self.entries = entries;
    }

    /// Files `value` under the given kind and name, in place of any value
    /// filed there before.
    pub fn insert(&mut self, kind: &str, name: &str, value: &str)
        ensures
            final(self)@ == old(self)@.insert((name@, kind@), value@),
    {
        self.insert_work_key(WorkKey::new(kind, name), value.to_owned())
    }

    /// The value filed under the given kind and name, if there is one.
    pub fn get(&self, kind: &str, name: &str) -> (r: Option<&String>)
        ensures
            match r {
                Some(v) => self@.contains_key((name@, kind@)) && v@ == self@[(name@, kind@)],
                None => !self@.contains_key((name@, kind@)),
            },
    {
        let mut i: usize = 0;
        while i < self.entries.len()
            invariant
                i <= self.entries.len(),
                forall|j: int| 0 <= j < i ==> (#[trigger] self.facts()[j]).key() != (name@, kind@),
            decreases self.entries.len() - i,
        {
            let e = &self.entries[i];
            assert(self.facts()[i as int] == e@);
            match compare_keys(e.name.as_str(), e.kind.as_str(), name, kind) {
                Order::Equal => {
                    proof {
                        use_type_invariant(self);
                        lemma_sorted_distinct(self.facts());
                        lemma_facts_map(self.facts());
                        assert(self.facts()[i as int].key() == (name@, kind@));
                    }
                    return Some(&e.value);
                },
                _ => {},
            }
            i += 1;
        }
        None
    }

    /// Every entry as a triple of name, kind and value, sorted by name and
    /// then by kind.
    pub fn iterate(&self) -> (r: Vec<(String, String, String)>)
        ensures
            r@.len() == self.facts().len(),
            forall|i: int|
                0 <= i < r@.len() ==> (#[trigger] r@[i]).0@ == self.facts()[i].name && r@[i].1@
                    == self.facts()[i].kind && r@[i].2@ == self.facts()[i].value,
            sorted(self.facts()),
            self@ == facts_map(self.facts()),
    {
        proof {
            use_type_invariant(self);
        }
        let mut r: Vec<(String, String, String)> = Vec::new();
        let mut i: usize = 0;
        while i < self.entries.len()
            invariant
                i <= self.entries.len(),
                r@.len() == i,
                forall|j: int|
                    0 <= j < i ==> (#[trigger] r@[j]).0@ == self.facts()[j].name && r@[j].1@
                        == self.facts()[j].kind && r@[j].2@ == self.facts()[j].value,
            decreases self.entries.len() - i,
        {
            let e = &self.entries[i];
            assert(self.facts()[i as int] == e@);
            r.push((e.name.clone(), e.kind.clone(), e.value.clone()));
            i += 1;
        }
        r
    }
}

/// Replacing the value of the fact at `i` updates the map at its key.
proof fn lemma_replaced(s: Seq<Fact>, i: int, f: Fact)
    requires
        sorted(s),
        0 <= i < s.len(),
        s[i].key() == f.key(),
    ensures
        sorted(s.update(i, f)),
        facts_map(s.update(i, f)) == facts_map(s).insert(f.key(), f.value),
{
    let t = s.update(i, f);
    assert forall|a: int, b: int| 0 <= a < b < t.len() implies key_lt(
        #[trigger] t[a].key(),
        #[trigger] t[b].key(),
    ) by {
        assert(t[a].key() == s[a].key());
        assert(t[b].key() == s[b].key());
    }
    lemma_sorted_distinct(s);
    lemma_sorted_distinct(t);
    lemma_facts_map(s);
    lemma_facts_map(t);
    let m = facts_map(s).insert(f.key(), f.value);
    assert forall|k: Key| facts_map(t).contains_key(k) <==> m.contains_key(k) by {
        if facts_map(t).contains_key(k) {
            let j = choose|j: int| 0 <= j < t.len() && (#[trigger] t[j]).key() == k;
            assert(s[j].key() == k);
        }
        if m.contains_key(k) && k != f.key() {
            let j = choose|j: int| 0 <= j < s.len() && (#[trigger] s[j]).key() == k;
            assert(t[j].key() == k);
        }
        if k == f.key() {
            assert(t[i].key() == k);
        }
    }
    assert forall|k: Key| facts_map(t).contains_key(k) implies facts_map(t)[k] == m[k] by {
        let j = choose|j: int| 0 <= j < t.len() && (#[trigger] t[j]).key() == k;
        if j == i {
            assert(t[i].key() == f.key());
        } else {
            assert(t[j] == s[j]);
            assert(s[j].key() == k);
        }
    }
    assert(facts_map(t) =~= m);
}

/// Entering a fact with a new key at its place in the order adds it to the map.
proof fn lemma_inserted(s: Seq<Fact>, i: int, f: Fact)
    requires
        sorted(s),
        0 <= i <= s.len(),
        forall|j: int| 0 <= j < i ==> key_lt(#[trigger] s[j].key(), f.key()),
        i < s.len() ==> key_lt(f.key(), s[i].key()),
    ensures
        sorted(s.insert(i, f)),
        facts_map(s.insert(i, f)) == facts_map(s).insert(f.key(), f.value),
{
    let t = s.insert(i, f);
    assert forall|j: int| i <= j < s.len() implies key_lt(f.key(), #[trigger] s[j].key()) by {
        if i < j {
            assert(key_lt(s[i].key(), s[j].key()));
            lemma_key_lt_transitive(f.key(), s[i].key(), s[j].key());
        }
    }
    assert forall|a: int, b: int| 0 <= a < b < t.len() implies key_lt(
        #[trigger] t[a].key(),
        #[trigger] t[b].key(),
    ) by {
        if b < i {
            assert(t[a] == s[a] && t[b] == s[b]);
        } else if b == i {
            assert(t[a] == s[a]);
        } else if a < i {
            assert(t[a] == s[a] && t[b] == s[b - 1]);
        } else if a == i {
            assert(t[b] == s[b - 1]);
        } else {
            assert(t[a] == s[a - 1] && t[b] == s[b - 1]);
        }
    }
    lemma_sorted_distinct(s);
    lemma_sorted_distinct(t);
    lemma_facts_map(s);
    lemma_facts_map(t);
    let m = facts_map(s).insert(f.key(), f.value);
    assert forall|k: Key| facts_map(t).contains_key(k) <==> m.contains_key(k) by {
        if facts_map(t).contains_key(k) {
            let j = choose|j: int| 0 <= j < t.len() && (#[trigger] t[j]).key() == k;
            if j < i {
                assert(s[j].key() == k);
            } else if j > i {
                assert(s[j - 1].key() == k);
            }
        }
        if m.contains_key(k) && k != f.key() {
            let j = choose|j: int| 0 <= j < s.len() && (#[trigger] s[j]).key() == k;
            if j < i {
                assert(t[j].key() == k);
            } else {
                assert(t[j + 1].key() == k);
            }
        }
        if k == f.key() {
            assert(t[i].key() == k);
        }
    }
    assert forall|k: Key| facts_map(t).contains_key(k) implies facts_map(t)[k] == m[k] by {
        let j = choose|j: int| 0 <= j < t.len() && (#[trigger] t[j]).key() == k;
        if j < i {
            assert(t[j] == s[j]);
            assert(s[j].key() == k);
        } else if j > i {
            assert(t[j] == s[j - 1]);
            assert(s[j - 1].key() == k);
        }
    }
    assert(facts_map(t) =~= m);
}

/// Dropping the first of sorted facts removes its key from the map.
proof fn lemma_tail_map(s: Seq<Fact>)
    requires
        sorted(s),
        s.len() > 0,
    ensures
        sorted(s.drop_first()),
        facts_map(s.drop_first()) == facts_map(s).remove(s[0].key()),
{
    let t = s.drop_first();
    assert forall|a: int, b: int| 0 <= a < b < t.len() implies key_lt(
        #[trigger] t[a].key(),
        #[trigger] t[b].key(),
    ) by {
        assert(t[a] == s[a + 1] && t[b] == s[b + 1]);
    }
    lemma_sorted_distinct(s);
    lemma_sorted_distinct(t);
    lemma_facts_map(s);
    lemma_facts_map(t);
    let m = facts_map(s).remove(s[0].key());
    assert forall|k: Key| facts_map(t).contains_key(k) <==> m.contains_key(k) by {
        if facts_map(t).contains_key(k) {
            let j = choose|j: int| 0 <= j < t.len() && (#[trigger] t[j]).key() == k;
            assert(s[j + 1].key() == k);
        }
        if m.contains_key(k) {
            let j = choose|j: int| 0 <= j < s.len() && (#[trigger] s[j]).key() == k;
            assert(t[j - 1].key() == k);
        }
    }
    assert forall|k: Key| facts_map(t).contains_key(k) implies facts_map(t)[k] == m[k] by {
        let j = choose|j: int| 0 <= j < t.len() && (#[trigger] t[j]).key() == k;
        assert(t[j] == s[j + 1]);
        assert(s[j + 1].key() == k);
    }
    assert(facts_map(t) =~= m);
}

/// Two sorted listings that spell out the same map are the same listing:
/// what a map holds fixes the order in which it lists it.
pub proof fn lemma_listing_unique(s: Seq<Fact>, t: Seq<Fact>)
    requires
        sorted(s),
        sorted(t),
        facts_map(s) == facts_map(t),
    ensures
        s == t,
    decreases s.len(),
{
    lemma_sorted_distinct(s);
    lemma_sorted_distinct(t);
    lemma_facts_map(s);
    lemma_facts_map(t);
    if s.len() == 0 {
        if t.len() > 0 {
            assert(facts_map(t).contains_key(t[0].key()));
        }
        assert(s =~= t);
    } else if t.len() == 0 {
        assert(facts_map(s).contains_key(s[0].key()));
    } else {
        assert(facts_map(t).contains_key(s[0].key()));
        assert(facts_map(s).contains_key(t[0].key()));
        let j = choose|j: int| 0 <= j < t.len() && (#[trigger] t[j]).key() == s[0].key();
        let i = choose|i: int| 0 <= i < s.len() && (#[trigger] s[i]).key() == t[0].key();
        if j > 0 {
            assert(key_lt(t[0].key(), t[j].key()));
            if i > 0 {
                assert(key_lt(s[0].key(), s[i].key()));
                lemma_key_lt_asymmetric(t[0].key(), s[0].key());
            }
        }
        assert(s[0].key() == t[0].key());
        assert(facts_map(s)[s[0].key()] == s[0].value);
        assert(facts_map(t)[t[0].key()] == t[0].value);
        assert(s[0] == t[0]);
        lemma_tail_map(s);
        lemma_tail_map(t);
        lemma_listing_unique(s.drop_first(), t.drop_first());
        assert(s =~= seq![s[0]] + s.drop_first());
        assert(t =~= seq![t[0]] + t.drop_first());
    }
}

/// Two maps with the same content list the same facts in the same order.
pub proof fn lemma_same_content_same_listing(a: WorkMap, b: WorkMap)
    requires
        a.wf(),
        b.wf(),
        a@ == b@,
    ensures
        a.facts() == b.facts(),
{
    lemma_listing_unique(a.facts(), b.facts());
}

/// Entering facts with distinct keys one after another gives the map that
/// they spell out.
pub proof fn lemma_entered_distinct(s: Seq<Fact>)
    requires
        distinct_keys(s),
    ensures
        entered(s) == facts_map(s),
    decreases s.len(),
{
    if s.len() == 0 {
        assert(facts_map(s) =~= Map::<Key, Seq<char>>::empty());
    } else {
        let t = s.drop_last();
        let n = s.len() - 1;
        assert forall|i: int, j: int|
            0 <= i < t.len() && 0 <= j < t.len() && #[trigger] t[i].key() == #[trigger] t[j].key() implies i
            == j by {
            assert(t[i] == s[i] && t[j] == s[j]);
        }
        lemma_entered_distinct(t);
        lemma_facts_map(s);
        lemma_facts_map(t);
        let m = facts_map(t).insert(s[n].key(), s[n].value);
        assert forall|k: Key| facts_map(s).contains_key(k) <==> m.contains_key(k) by {
            if facts_map(s).contains_key(k) {
                let j = choose|j: int| 0 <= j < s.len() && (#[trigger] s[j]).key() == k;
                if j < n {
                    assert(t[j].key() == k);
                }
            }
            if m.contains_key(k) && k != s[n].key() {
                let j = choose|j: int| 0 <= j < t.len() && (#[trigger] t[j]).key() == k;
                assert(s[j].key() == k);
            }
            if k == s[n].key() {
                assert(s[n].key() == k);
            }
        }
        assert forall|k: Key| facts_map(s).contains_key(k) implies facts_map(s)[k] == m[k] by {
            let j = choose|j: int| 0 <= j < s.len() && (#[trigger] s[j]).key() == k;
            if j < n {
                assert(t[j] == s[j]);
                assert(t[j].key() == k);
                assert(s[j].key() != s[n].key());
            }
        }
        assert(facts_map(s) =~= m);
    }
}

/// The order of entry does not matter: two sequences of facts, each with
/// distinct keys, that hold the same facts give the same map.
pub proof fn lemma_entered_any_order(a: Seq<Fact>, b: Seq<Fact>)
    requires
        distinct_keys(a),
        distinct_keys(b),
        a.to_set() == b.to_set(),
    ensures
        entered(a) == entered(b),
{
    lemma_entered_distinct(a);
    lemma_entered_distinct(b);
    lemma_facts_map(a);
    lemma_facts_map(b);
    assert forall|k: Key| facts_map(a).contains_key(k) <==> facts_map(b).contains_key(k) by {
        if facts_map(a).contains_key(k) {
            let i = choose|i: int| 0 <= i < a.len() && (#[trigger] a[i]).key() == k;
            assert(a.to_set().contains(a[i]));
            assert(b.contains(a[i]));
            let j = choose|j: int| 0 <= j < b.len() && b[j] == a[i];
            assert(b[j].key() == k);
        }
        if facts_map(b).contains_key(k) {
            let i = choose|i: int| 0 <= i < b.len() && (#[trigger] b[i]).key() == k;
            assert(b.to_set().contains(b[i]));
            assert(a.contains(b[i]));
            let j = choose|j: int| 0 <= j < a.len() && a[j] == b[i];
            assert(a[j].key() == k);
        }
    }
    assert forall|k: Key| facts_map(a).contains_key(k) implies facts_map(a)[k] == facts_map(b)[k] by {
        let i = choose|i: int| 0 <= i < a.len() && (#[trigger] a[i]).key() == k;
        assert(a.to_set().contains(a[i]));
        assert(b.contains(a[i]));
        let j = choose|j: int| 0 <= j < b.len() && b[j] == a[i];
        assert(b[j].key() == k);
    }
    assert(facts_map(a) =~= facts_map(b));
}

/// A map that holds one fact lists that fact and nothing else.
pub proof fn lemma_single_listing(m: WorkMap, f: Fact)
    requires
        m.wf(),
        m@ == Map::<Key, Seq<char>>::empty().insert(f.key(), f.value),
    ensures
        m.facts() == seq![f],
{
    let s = seq![f];
    assert(facts_map(s) =~= Map::<Key, Seq<char>>::empty().insert(f.key(), f.value)) by {
        assert(s[0].key() == f.key());
        assert forall|k: Key| facts_map(s).contains_key(k) implies k == f.key() by {
            let i = choose|i: int| 0 <= i < s.len() && (#[trigger] s[i]).key() == k;
        }
        assert(facts_map(s).contains_key(f.key()));
        let c = choose|i: int| 0 <= i < s.len() && (#[trigger] s[i]).key() == f.key();
        assert(c == 0);
    }
    lemma_listing_unique(m.facts(), s);
}

/// A map that lists nothing holds nothing.
pub proof fn lemma_empty_listing(m: WorkMap)
    requires
        m.facts().len() == 0,
    ensures
        m@ == Map::<Key, Seq<char>>::empty(),
{
    assert(m@ =~= Map::<Key, Seq<char>>::empty());
}

} // verus!
