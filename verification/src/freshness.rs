//! The registry of freshness predicates, one for each kind of fact, and the
//! judgement of a whole map of facts.
//!
//! A predicate takes the name and the value of a fact and says whether the
//! fact still holds. What it answers is its own affair: it may look at the
//! disk or at the clock. The contracts here therefore say which answers of
//! the predicates a result rests on, and nothing about what they answer.

use vstd::prelude::*;
use vstd::string::StringExecFns;
use crate::assoc::{lemma_added, lemma_map_of, lemma_map_of_empty, lemma_replaced, map_of, unique_keys};
use crate::order::same_text;
use crate::workmap::{Fact, WorkMap};

verus! {

/// Predicate `f` can be asked about every name and value.
pub open spec fn total<F: Fn(&str, &str) -> bool>(f: F) -> bool {
    forall|n: &str, v: &str| call_requires(f, (n, v))
}

/// Asked about `name` and `value`, predicate `f` may answer `r`.
pub open spec fn says<F: Fn(&str, &str) -> bool>(f: F, name: Seq<char>, value: Seq<char>, r: bool) -> bool {
    exists|n: &str, v: &str| n@ == name && v@ == value && #[trigger] call_ensures(f, (n, v), r)
}

/// A fact was met whose kind has no predicate.
pub struct MissingFreshness {
    pub kind: String,
}

impl MissingFreshness {
    /// The complaint in words.
    pub fn message(&self) -> (m: String)
        ensures
            m@ == "missing freshness-function for '"@ + self.kind@ + "'"@,
    {
        let mut m = "missing freshness-function for '".to_owned();
        m.append(self.kind.as_str());
        m.append("'");
        m
    }
}

/// The predicates by kind.
pub struct FreshnessMap<F: Fn(&str, &str) -> bool> {
    preds: Vec<(String, F)>,
}

impl<F: Fn(&str, &str) -> bool> View for FreshnessMap<F> {
    type V = Map<Seq<char>, F>;

    open spec fn view(&self) -> Map<Seq<char>, F> {
        map_of(self.pairs())
    }
}

impl<F: Fn(&str, &str) -> bool> FreshnessMap<F> {
    /// The kinds with their predicates, in the order of registration.
    pub closed spec fn pairs(&self) -> Seq<(Seq<char>, F)> {
        self.preds@.map_values(|p: (String, F)| (p.0@, p.1))
    }

    /// No kind is registered twice, and every predicate can be asked about
    /// every name and value.
    #[verifier::type_invariant]
    pub open spec fn wf(&self) -> bool {
        &&& unique_keys(self.pairs())
        &&& forall|i: int| 0 <= i < self.pairs().len() ==> total((#[trigger] self.pairs()[i]).1)
    }

    /// The predicate of `f`'s kind says that `f` still holds.
    pub open spec fn fresh(&self, f: Fact) -> bool {
        self@.contains_key(f.kind) && says(self@[f.kind], f.name, f.value, true)
    }

    /// The predicate of `f`'s kind says that `f` holds no longer.
    pub open spec fn stale(&self, f: Fact) -> bool {
        self@.contains_key(f.kind) && says(self@[f.kind], f.name, f.value, false)
    }

    /// Every one of the facts was found fresh.
    pub open spec fn all_fresh_in(&self, facts: Seq<Fact>) -> bool {
        forall|i: int| 0 <= i < facts.len() ==> self.fresh(#[trigger] facts[i])
    }

    /// The fact at `i` was found stale, after all the facts before it had
    /// been found fresh.
    pub open spec fn stale_at(&self, facts: Seq<Fact>, i: int) -> bool {
        0 <= i < facts.len() && self.stale(facts[i]) && self.all_fresh_in(facts.take(i))
    }

    /// The fact at `i` has a kind without a predicate, and all the facts
    /// before it were found fresh.
    pub open spec fn unknown_at(&self, facts: Seq<Fact>, i: int) -> bool {
        0 <= i < facts.len() && !self@.contains_key(facts[i].kind) && self.all_fresh_in(facts.take(i))
    }

    /// A registry without predicates.
    pub fn new() -> (m: FreshnessMap<F>)
        ensures
            m@ == Map::<Seq<char>, F>::empty(),
    {
        let m = FreshnessMap { preds: Vec::new() };
        proof {
            lemma_map_of_empty::<Seq<char>, F>();
            assert(m.pairs() =~= Seq::<(Seq<char>, F)>::empty());
        }
        m
    }

    /// The position of the predicate of `kind`, if one is registered.
    fn position(&self, kind: &str) -> (r: Option<usize>)
        ensures
            match r {
                Some(i) => i < self.pairs().len() && self.pairs()[i as int].0 == kind@,
                None => forall|j: int| 0 <= j < self.pairs().len() ==> (#[trigger] self.pairs()[j]).0 != kind@,
            },
    {
        let mut i: usize = 0;
        while i < self.preds.len()
            invariant
                i <= self.preds.len(),
                forall|j: int| 0 <= j < i ==> (#[trigger] self.pairs()[j]).0 != kind@,
            decreases self.preds.len() - i,
        {
            assert(self.pairs()[i as int].0 == self.preds@[i as int].0@);
            if same_text(self.preds[i].0.as_str(), kind) {
                return Some(i);
            }
            i += 1;
        }
        None
    }

    /// Registers `f` as the predicate of `kind`, in place of any predicate
    /// registered for it before.
    pub fn insert(&mut self, kind: &str, f: F)
        requires
            total(f),
        ensures
            final(self)@ == old(self)@.insert(kind@, f),
    {
        proof {
            use_type_invariant(&*self);
        }
        let ghost before = self.pairs();
        let ghost pair = (kind@, f);
        let found = self.position(kind);
        let mut preds: Vec<(String, F)> = Vec::new();
        std::mem::swap(&mut self.preds, &mut preds);
        let ghost taken = preds@.map_values(|p: (String, F)| (p.0@, p.1));
        assert(taken == before);
        match found {
            Some(i) => {
                preds.set(i, (kind.to_owned(), f));
                proof {
                    let after = preds@.map_values(|p: (String, F)| (p.0@, p.1));
                    assert(after =~= before.update(i as int, pair));
                    lemma_replaced(before, i as int, pair);
                    assert forall|j: int| 0 <= j < after.len() implies total((#[trigger] after[j]).1) by {
                        if j != i {
                            assert(after[j] == before[j]);
                        }
                    }
                }
            },
            None => {
                preds.push((kind.to_owned(), f));
                proof {
                    let after = preds@.map_values(|p: (String, F)| (p.0@, p.1));
                    assert(after =~= before.push(pair));
                    lemma_added(before, pair);
                    assert forall|j: int| 0 <= j < after.len() implies total((#[trigger] after[j]).1) by {
                        if j < before.len() {
                            assert(after[j] == before[j]);
                        }
                    }
                }
            },
        }
        self.preds = preds;
    }

    /// Whether a predicate is registered for `kind`.
    pub fn contains(&self, kind: &str) -> (r: bool)
        ensures
            r == self@.contains_key(kind@),
    {
        proof {
            use_type_invariant(self);
            lemma_map_of(self.pairs());
        }
        self.position(kind).is_some()
    }

    /// Asks the predicate of `kind` whether the fact of that kind with the
    /// given name and value still holds. Without a predicate for the kind
    /// there is no answer.
    pub fn is_fresh(&self, kind: &str, name: &str, value: &str) -> (r: Result<bool, MissingFreshness>)
        ensures
            match r {
                Ok(b) => self@.contains_key(kind@) && says(self@[kind@], name@, value@, b),
                Err(e) => !self@.contains_key(kind@) && e.kind@ == kind@,
            },
    {
        proof {
            use_type_invariant(self);
            lemma_map_of(self.pairs());
        }
        match self.position(kind) {
            Some(i) => {
                let f = &self.preds[i].1;
                assert(self.pairs()[i as int].1 == *f);
                assert(total(self.pairs()[i as int].1));
                let b = f(name, value);
                Ok(b)
            },
            None => Err(MissingFreshness { kind: kind.to_owned() }),
        }
    }

    /// Judges the facts of `map` in the order of its listing and stops at the
    /// first that is not fresh. All fresh gives `true`; a stale fact gives
    /// `false`; a fact whose kind has no predicate gives the error that names
    /// the kind.
    pub fn all_fresh(&self, map: &WorkMap) -> (r: Result<bool, MissingFreshness>)
        ensures
            match r {
                Ok(true) => self.all_fresh_in(map.facts()),
                Ok(false) => exists|i: int| self.stale_at(map.facts(), i),
                Err(e) => exists|i: int| self.unknown_at(map.facts(), i) && e.kind@ == map.facts()[i].kind,
            },
            (forall|i: int| 0 <= i < map.facts().len() ==> self@.contains_key((#[trigger] map.facts()[i]).kind))
                ==> r is Ok,
    {
        let mut i: usize = 0;
        while i < map.len()
            invariant
                i <= map.facts().len(),
                self.all_fresh_in(map.facts().take(i as int)),
            decreases map.facts().len() - i,
        {
            let e = map.entry(i);
            let ghost facts = map.facts();
            match self.is_fresh(e.kind.as_str(), e.name.as_str(), e.value.as_str()) {
                Ok(true) => {
                    proof {
                        assert forall|j: int| 0 <= j < i + 1 implies self.fresh(
                            #[trigger] facts.take(i + 1)[j],
                        ) by {
                            if j < i {
                                assert(facts.take(i + 1)[j] == facts.take(i as int)[j]);
                            }
                        }
                    }
                },
                Ok(false) => {
                    assert(self.stale_at(facts, i as int));
                    return Ok(false);
                },
                Err(err) => {
                    assert(self.unknown_at(facts, i as int));
                    return Err(err);
                },
            }
            i += 1;
        }
        assert(map.facts().take(i as int) =~= map.facts());
        Ok(true)
    }
}

} // verus!
