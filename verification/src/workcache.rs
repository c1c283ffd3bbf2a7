//! Cached function calls.
//!
//! A call is prepared under the name of its function, its inputs are
//! declared, and it is executed with a body. Where the store holds a record
//! for the name and the declared inputs, and the declared inputs, the
//! discovered inputs and the discovered outputs of that record are all found
//! fresh, the recorded result is returned and the body is left alone.
//! Otherwise the body runs, records the facts it discovers, and its result is
//! filed with them in the store.

use vstd::prelude::*;
use vstd::string::StringExecFns;
use std::collections::BTreeMap;
use rustc_serialize::json::Json;
use crate::database::{cache_key, Database, Record, RecordView};
use crate::freshness::{FreshnessMap, MissingFreshness};
use crate::text::texts;
use crate::workmap::{Entry, Fact, Key, WorkKey, WorkMap};

verus! {

/// A JSON value of `rustc_serialize`, carried as it is.
#[verifier::external_type_specification]
#[verifier::external_body]
pub struct ExJson(Json);

/// The line that reports how the fact of the given kind and name, of the
/// group `cat`, was judged.
pub open spec fn line_text(cat: Seq<char>, kind: Seq<char>, name: Seq<char>, fresh: bool) -> Seq<char> {
    "workcache: "@ + cat + " "@ + kind + ":"@ + name + (if fresh {
        " is fresh"@
    } else {
        " is not fresh"@
    })
}

/// Words the lines that report what the cache does.
pub struct Logger {
    a: (),
}

impl Logger {
    pub fn new() -> Logger {
        Logger { a: () }
    }

    /// The line that reports `i`.
    pub fn info(&self, i: &str) -> (line: String)
        ensures
            line@ == "workcache: "@ + i@,
    {
        let mut line = "workcache: ".to_owned();
        line.append(i);
        line
    }

    /// The line that reports how a fact was judged: the group of facts it
    /// belongs to, its kind and name, and whether it is fresh.
    pub fn freshness_line(&self, cat: &str, kind: &str, name: &str, fresh: bool) -> (line: String)
        ensures
            line@ == line_text(cat@, kind@, name@, fresh),
    {
        let mut line = "workcache: ".to_owned();
        line.append(cat);
        line.append(" ");
        line.append(kind);
        line.append(":");
        line.append(name);
        if fresh {
            line.append(" is fresh");
        } else {
            line.append(" is not fresh");
        }
        line
    }
}

/// What a body hands back: the facts it discovered, and its result or the
/// reason of its failure.
pub type Outcome = (Exec, Result<String, String>);

/// Why a call has no result.
pub enum ExecError {
    /// A fact had to be judged whose kind has no predicate.
    MissingFreshness(MissingFreshness),
    /// The body failed, with its reason.
    BodyFailed(String),
}

/// The store, the logger, the configuration and the predicates that cached
/// calls share.
pub struct Context<F: Fn(&str, &str) -> bool> {
    pub db: Database,
    pub logger: Logger,
    pub cfg: BTreeMap<String, Json>,
    /// For each kind of fact the predicate that judges, from a fact's name
    /// and value, whether the fact still holds.
    pub freshness: FreshnessMap<F>,
}

/// The handle with which a running body records the facts it discovers.
pub struct Exec {
    pub discovered_inputs: WorkMap,
    pub discovered_outputs: WorkMap,
}

/// A call in preparation: the name of its function and the inputs declared
/// so far.
pub struct Prep {
    fn_name: String,
    declared_inputs: WorkMap,
}

/// What the look at the store gave: the recorded result, or the body that
/// has yet to run.
pub enum Work<B> {
    WorkValue(String),
    WorkFromTask(B),
}

impl<F: Fn(&str, &str) -> bool> Context<F> {
    /// A context over `db` with no configuration and no predicates.
    pub fn new(db: Database) -> (c: Context<F>)
        ensures
            c.db == db,
            c.freshness@ == Map::<Seq<char>, F>::empty(),
    {
        Context::new_with_freshness(db, Logger::new(), BTreeMap::new(), FreshnessMap::new())
    }

    /// A context made of the given parts.
    pub fn new_with_freshness(
        db: Database,
        logger: Logger,
        cfg: BTreeMap<String, Json>,
        freshness: FreshnessMap<F>,
    ) -> (c: Context<F>)
        ensures
            c.db == db,
            c.logger == logger,
            c.cfg == cfg,
            c.freshness == freshness,
    {
        Context { db, logger, cfg, freshness }
    }

    /// Prepares a call of the function named `fn_name`, with no input
    /// declared yet.
    pub fn prep(&self, fn_name: &str) -> (p: Prep)
        ensures
            p.name() == fn_name@,
            p.declared().facts() == Seq::<Fact>::empty(),
            p.declared()@ == Map::<Key, Seq<char>>::empty(),
    {
        Prep::new(fn_name)
    }

    /// Prepares a call of the function named `fn_name` and hands it to `blk`.
    pub fn with_prep<T, P: FnOnce(Prep) -> T>(&self, fn_name: &str, blk: P) -> (r: T)
        requires
            forall|p: Prep| p.name() == fn_name@ && p.declared().facts().len() == 0 ==> call_requires(blk, (p,)),
        ensures
            exists|p: Prep|
                p.name() == fn_name@ && p.declared().facts().len() == 0 && #[trigger] call_ensures(
                    blk,
                    (p,),
                    r,
                ),
    {
        let p = self.prep(fn_name);
        blk(p)
    }
}

impl Exec {
    /// No fact has been recorded.
    pub open spec fn is_new(&self) -> bool {
        self.discovered_inputs.facts().len() == 0 && self.discovered_outputs.facts().len() == 0
    }

    /// A handle with nothing recorded.
    pub fn new() -> (e: Exec)
        ensures
            e.is_new(),
            e.discovered_inputs@ == Map::<Key, Seq<char>>::empty(),
            e.discovered_outputs@ == Map::<Key, Seq<char>>::empty(),
    {
        Exec { discovered_inputs: WorkMap::new(), discovered_outputs: WorkMap::new() }
    }

    /// Records an input that the body turned out to depend on.
    pub fn discover_input(&mut self, kind: &str, name: &str, value: String)
        ensures
            final(self).discovered_inputs@ == old(self).discovered_inputs@.insert((name@, kind@), value@),
            final(self).discovered_outputs == old(self).discovered_outputs,
    {
        self.discovered_inputs.insert_work_key(WorkKey::new(kind, name), value)
    }

    /// Records an output that the body produced.
    pub fn discover_output(&mut self, kind: &str, name: &str, value: String)
        ensures
            final(self).discovered_outputs@ == old(self).discovered_outputs@.insert((name@, kind@), value@),
            final(self).discovered_inputs == old(self).discovered_inputs,
    {
        self.discovered_outputs.insert_work_key(WorkKey::new(kind, name), value)
    }

    /// The kind and the name of every discovered input, in the order of the
    /// listing.
    pub fn lookup_discovered_inputs(&self) -> (rs: Vec<(String, String)>)
        ensures
            rs@.len() == self.discovered_inputs.facts().len(),
            forall|i: int|
                0 <= i < rs@.len() ==> (#[trigger] rs@[i]).0@ == self.discovered_inputs.facts()[i].kind
                    && rs@[i].1@ == self.discovered_inputs.facts()[i].name,
    {
        let mut rs: Vec<(String, String)> = Vec::new();
        let mut i: usize = 0;
        while i < self.discovered_inputs.len()
            invariant
                i <= self.discovered_inputs.facts().len(),
                rs@.len() == i,
                forall|j: int|
                    0 <= j < i ==> (#[trigger] rs@[j]).0@ == self.discovered_inputs.facts()[j].kind
                        && rs@[j].1@ == self.discovered_inputs.facts()[j].name,
            decreases self.discovered_inputs.facts().len() - i,
        {
            let e = self.discovered_inputs.entry(i);
            rs.push((e.kind.clone(), e.name.clone()));
            i += 1;
        }
        rs
    }
}

impl Prep {
    /// The name of the function.
    pub closed spec fn name(&self) -> Seq<char> {
        self.fn_name@
    }

    /// The inputs declared so far.
    pub closed spec fn declared(&self) -> WorkMap {
        self.declared_inputs
    }

    /// The key under which the record of this call is filed.
    pub open spec fn key(&self) -> Seq<char> {
        cache_key(self.name(), self.declared())
    }

    /// The facts whose freshness decides whether `record` may stand for
    /// this call: the declared inputs, then the record's discovered inputs,
    /// then its discovered outputs.
    pub open spec fn checked(&self, record: RecordView) -> Seq<Fact> {
        self.declared().facts() + record.discovered_inputs + record.discovered_outputs
    }

    /// The store holds a record for this call and every fact that it rests
    /// on was found fresh.
    pub open spec fn hit<F: Fn(&str, &str) -> bool>(&self, ctxt: &Context<F>) -> bool {
        ctxt.db@.contains_key(self.key()) && ctxt.freshness.all_fresh_in(self.checked(ctxt.db@[self.key()]))
    }

    /// The store holds no record for this call, or one of the facts that the
    /// record rests on was found stale after all before it had been found
    /// fresh.
    pub open spec fn miss<F: Fn(&str, &str) -> bool>(&self, ctxt: &Context<F>) -> bool {
        !ctxt.db@.contains_key(self.key()) || exists|i: int|
            ctxt.freshness.stale_at(self.checked(ctxt.db@[self.key()]), i)
    }

    /// The store holds a record for this call, and a fact of the given kind
    /// had to be judged, after all before it had been found fresh, for which
    /// no predicate is registered.
    pub open spec fn unjudged<F: Fn(&str, &str) -> bool>(&self, ctxt: &Context<F>, kind: Seq<char>) -> bool {
        ctxt.db@.contains_key(self.key()) && exists|i: int|
            ctxt.freshness.unknown_at(self.checked(ctxt.db@[self.key()]), i) && self.checked(
                ctxt.db@[self.key()],
            )[i].kind == kind
    }

    /// The store holds a record for this call, every fact that it rests on
    /// has a predicate, and no predicate can find its fact stale.
    pub open spec fn settled<F: Fn(&str, &str) -> bool>(&self, ctxt: &Context<F>) -> bool {
        ctxt.db@.contains_key(self.key()) && forall|i: int|
            0 <= i < self.checked(ctxt.db@[self.key()]).len() ==> ctxt.freshness@.contains_key(
                (#[trigger] self.checked(ctxt.db@[self.key()])[i]).kind,
            ) && !ctxt.freshness.stale(self.checked(ctxt.db@[self.key()])[i])
    }

    /// A call of the function named `fn_name`, with no input declared yet.
    pub fn new(fn_name: &str) -> (p: Prep)
        ensures
            p.name() == fn_name@,
            p.declared().facts() == Seq::<Fact>::empty(),
            p.declared()@ == Map::<Key, Seq<char>>::empty(),
    {
        Prep { fn_name: fn_name.to_owned(), declared_inputs: WorkMap::new() }
    }

    /// The name of the function.
    pub fn fn_name(&self) -> (n: &String)
        ensures
            n@ == self.name(),
    {
        &self.fn_name
    }

    /// The inputs declared so far.
    pub fn declared_inputs(&self) -> (m: &WorkMap)
        ensures
            *m == self.declared(),
            m.wf(),
    {
        proof {
            use_type_invariant(&self.declared_inputs);
        }
        &self.declared_inputs
    }

    /// The kind of every declared input, in the order of the listing.
    pub fn lookup_declared_inputs(&self) -> (rs: Vec<String>)
        ensures
            rs@.len() == self.declared().facts().len(),
            forall|i: int| 0 <= i < rs@.len() ==> (#[trigger] rs@[i])@ == self.declared().facts()[i].kind,
    {
        let mut rs: Vec<String> = Vec::new();
        let mut i: usize = 0;
        while i < self.declared_inputs.len()
            invariant
                i <= self.declared_inputs.facts().len(),
                rs@.len() == i,
                forall|j: int| 0 <= j < i ==> (#[trigger] rs@[j])@ == self.declared_inputs.facts()[j].kind,
            decreases self.declared_inputs.facts().len() - i,
        {
            let e = self.declared_inputs.entry(i);
            rs.push(e.kind.clone());
            i += 1;
        }
        rs
    }

    /// Declares an input. A second declaration of the same kind and name
    /// replaces the first.
    pub fn declare_input(&mut self, kind: &str, name: &str, value: &str)
        ensures
            final(self).declared()@ == old(self).declared()@.insert((name@, kind@), value@),
            final(self).declared().wf(),
            final(self).name() == old(self).name(),
    {
        self.declared_inputs.insert_work_key(WorkKey::new(kind, name), value.to_owned());
        proof {
            use_type_invariant(&self.declared_inputs);
        }
    }
}

/// The body `blk`, started on a handle with nothing recorded, may hand back
/// `exe` with the result or failure `out`.
pub open spec fn ran<B: FnOnce(Exec) -> Outcome>(blk: B, exe: Exec, out: Result<String, String>) -> bool {
    exists|e0: Exec| e0.is_new() && #[trigger] call_ensures(blk, (e0,), (exe, out))
}

/// The body `blk` can be started on every handle with nothing recorded.
pub open spec fn runnable<B: FnOnce(Exec) -> Outcome>(blk: B) -> bool {
    forall|e0: Exec| e0.is_new() ==> call_requires(blk, (e0,))
}

/// The body `blk` may have run to the result `v`, and `after` is `before`
/// with the record of that run filed under `key`.
pub open spec fn committed<B: FnOnce(Exec) -> Outcome>(
    blk: B,
    key: Seq<char>,
    before: Database,
    after: Database,
    v: Seq<char>,
) -> bool {
    exists|exe: Exec, w: String| #[trigger]
        ran(blk, exe, Ok(w)) && w@ == v && after@ == before@.insert(
            key,
            RecordView {
                discovered_inputs: exe.discovered_inputs.facts(),
                discovered_outputs: exe.discovered_outputs.facts(),
                result: v,
            },
        ) && after.dirty() && after.filename() == before.filename()
}

/// The body `blk` may have failed for the reason `msg`.
pub open spec fn failed<B: FnOnce(Exec) -> Outcome>(blk: B, msg: Seq<char>) -> bool {
    exists|exe: Exec, w: String| #[trigger] ran(blk, exe, Err(w)) && w@ == msg
}

impl Prep {
    /// Looks at the store and judges freshness, without running anything.
    /// A record whose facts are all found fresh gives its result. No record,
    /// or a stale fact, gives back the body, which has yet to run. A fact
    /// whose kind has no predicate gives the error that names the kind.
    pub fn exec_work<F: Fn(&str, &str) -> bool, B: FnOnce(Exec) -> Outcome>(
        &self,
        ctxt: &Context<F>,
        blk: B,
    ) -> (r: Result<Work<B>, MissingFreshness>)
        ensures
            match r {
                Ok(Work::WorkValue(v)) => self.hit(ctxt) && v@ == ctxt.db@[self.key()].result,
                Ok(Work::WorkFromTask(b)) => self.miss(ctxt) && b == blk,
                Err(e) => self.unjudged(ctxt, e.kind@),
            },
            !ctxt.db@.contains_key(self.key()) ==> (r matches Ok(Work::WorkFromTask(_))),
            self.settled(ctxt) ==> (r matches Ok(Work::WorkValue(_))),
    {
        let (work, _lines) = self.exec_work_logged(ctxt, blk);
        work
    }

    /// Executes the call: returns the recorded result where the store holds
    /// a record whose facts are all found fresh, and otherwise runs `blk`
    /// and files its result with the facts it discovered. Where `blk` fails,
    /// or a fact cannot be judged, the store is left as it was.
    pub fn exec<F: Fn(&str, &str) -> bool, B: FnOnce(Exec) -> Outcome>(
        &self,
        ctxt: &mut Context<F>,
        blk: B,
    ) -> (r: Result<String, ExecError>)
        requires
            runnable(blk),
        ensures
            final(ctxt).freshness == old(ctxt).freshness,
            final(ctxt).cfg == old(ctxt).cfg,
            final(ctxt).logger == old(ctxt).logger,
            r is Err ==> final(ctxt).db == old(ctxt).db,
            self.settled(old(ctxt)) ==> (r matches Ok(v) && v@ == old(ctxt).db@[self.key()].result
                && final(ctxt).db == old(ctxt).db),
            match r {
                Ok(v) => (self.hit(old(ctxt)) && v@ == old(ctxt).db@[self.key()].result && final(ctxt).db
                    == old(ctxt).db) || (self.miss(old(ctxt)) && committed(
                    blk,
                    self.key(),
                    old(ctxt).db,
                    final(ctxt).db,
                    v@,
                )),
                Err(ExecError::MissingFreshness(e)) => self.unjudged(old(ctxt), e.kind@) && final(ctxt).db
                    == old(ctxt).db,
                Err(ExecError::BodyFailed(msg)) => self.miss(old(ctxt)) && failed(blk, msg@)
                    && final(ctxt).db == old(ctxt).db,
            },
    {
        match self.exec_work(ctxt, blk) {
            Err(e) => Err(ExecError::MissingFreshness(e)),
            Ok(work) => {
                match work.unwrap(self, ctxt) {
                    Ok(v) => Ok(v),
                    Err(msg) => Err(ExecError::BodyFailed(msg)),
                }
            },
        }
    }
}

impl<B: FnOnce(Exec) -> Outcome> Work<B> {
    /// A result that is already at hand.
    pub fn from_value(elt: String) -> (w: Work<B>)
        ensures
            w == Work::<B>::WorkValue(elt),
    {
        Work::WorkValue(elt)
    }

    /// A body that has yet to run.
    pub fn from_task(blk: B) -> (w: Work<B>)
        ensures
            w == Work::WorkFromTask(blk),
    {
        Work::WorkFromTask(blk)
    }

    /// The result of the call prepared by `prep`. A result at hand is handed
    /// on and the store is left alone. A body is run: its result is filed in
    /// the store with the facts it discovered, under the key of `prep`; where
    /// it fails, its reason is handed on and the store is left as it was.
    pub fn unwrap<F: Fn(&str, &str) -> bool>(self, prep: &Prep, ctxt: &mut Context<F>) -> (r: Result<
        String,
        String,
    >)
        requires
            self matches Work::WorkFromTask(b) ==> runnable(b),
        ensures
            final(ctxt).freshness == old(ctxt).freshness,
            final(ctxt).cfg == old(ctxt).cfg,
            final(ctxt).logger == old(ctxt).logger,
            r is Err ==> final(ctxt).db == old(ctxt).db,
            match self {
                Work::WorkValue(v) => r == Ok::<String, String>(v) && final(ctxt).db == old(ctxt).db,
                Work::WorkFromTask(b) => match r {
                    Ok(v) => committed(b, prep.key(), old(ctxt).db, final(ctxt).db, v@),
                    Err(msg) => failed(b, msg@),
                },
            },
    {
        match self {
            Work::WorkValue(v) => Ok(v),
            Work::WorkFromTask(blk) => {
                let (exe, out) = blk(Exec::new());
                assert(ran(blk, exe, out));
                match out {
                    Ok(v) => {
                        let Exec { discovered_inputs, discovered_outputs } = exe;
                        let record = Record { discovered_inputs, discovered_outputs, result: v.clone() };
                        ctxt.db.cache(prep.fn_name.as_str(), &prep.declared_inputs, record);
                        Ok(v)
                    },
                    Err(msg) => Err(msg),
                }
            },
        }
    }
}

/// The cache key of a call is fixed by the function's name and by what the
/// declared inputs hold: two maps with the same content give the same key.
pub proof fn lemma_key_by_content(fn_name: Seq<char>, a: WorkMap, b: WorkMap)
    requires
        a.wf(),
        b.wf(),
        a@ == b@,
    ensures
        cache_key(fn_name, a) == cache_key(fn_name, b),
{
    crate::workmap::lemma_same_content_same_listing(a, b);
}

/// The order in which inputs are declared does not matter to the cache key:
/// where `a` was built by declaring the facts `s` and `b` by declaring the
/// facts `t`, the same facts in another order, no key twice, the two keys
/// are the same text.
pub proof fn lemma_key_any_order(fn_name: Seq<char>, a: WorkMap, s: Seq<Fact>, b: WorkMap, t: Seq<Fact>)
    requires
        a.wf(),
        b.wf(),
        a@ == crate::workmap::entered(s),
        b@ == crate::workmap::entered(t),
        crate::workmap::distinct_keys(s),
        crate::workmap::distinct_keys(t),
        s.to_set() == t.to_set(),
    ensures
        cache_key(fn_name, a) == cache_key(fn_name, b),
{
    crate::workmap::lemma_entered_any_order(s, t);
    lemma_key_by_content(fn_name, a, b);
}

/// Once a record is filed for a call, a call of the same function with the
/// same declared inputs finds it: where nothing that the record rests on can
/// be found stale, that call is settled and is owed the recorded result.
pub proof fn lemma_filed_then_found<F: Fn(&str, &str) -> bool>(
    first: Prep,
    again: Prep,
    before: Database,
    ctxt: Context<F>,
    record: RecordView,
)
    requires
        first.declared().wf(),
        again.declared().wf(),
        first.name() == again.name(),
        first.declared()@ == again.declared()@,
        ctxt.db@ == before@.insert(first.key(), record),
        forall|i: int|
            0 <= i < again.checked(record).len() ==> ctxt.freshness@.contains_key(
                (#[trigger] again.checked(record)[i]).kind,
            ) && !ctxt.freshness.stale(again.checked(record)[i]),
    ensures
        again.key() == first.key(),
        ctxt.db@[again.key()] == record,
        again.settled(&ctxt),
{
    lemma_key_by_content(first.name(), first.declared(), again.declared());
}

/// The facts of the entries that are to be judged, in order.
pub open spec fn facts_in(checks: Seq<(&str, &Entry)>) -> Seq<Fact> {
    checks.map_values(|c: (&str, &Entry)| c.1@)
}

/// The groups of the entries that are to be judged, in order.
pub open spec fn labels_in(checks: Seq<(&str, &Entry)>) -> Seq<Seq<char>> {
    checks.map_values(|c: (&str, &Entry)| c.0@)
}

/// The lines that report the first `n` of the facts, each with its group:
/// all of them as fresh, but for the last where `last_fresh` does not hold.
pub open spec fn lines_for(labels: Seq<Seq<char>>, facts: Seq<Fact>, n: int, last_fresh: bool) -> Seq<Seq<char>> {
    Seq::new(
        n as nat,
        |j: int| line_text(labels[j], facts[j].kind, facts[j].name, j < n - 1 || last_fresh),
    )
}

/// The same group for each of `n` facts.
pub open spec fn same_label(cat: Seq<char>, n: nat) -> Seq<Seq<char>> {
    Seq::new(n, |j: int| cat)
}

impl<F: Fn(&str, &str) -> bool> Context<F> {
    /// Judging the facts in order gave `r` and the lines `lines`: with all
    /// fresh, a line for each; with a stale fact, a line for it and for each
    /// before it; with a fact that cannot be judged, a line for each before
    /// it.
    pub open spec fn judged(
        &self,
        labels: Seq<Seq<char>>,
        facts: Seq<Fact>,
        r: Result<bool, MissingFreshness>,
        lines: Seq<Seq<char>>,
    ) -> bool {
        match r {
            Ok(true) => self.freshness.all_fresh_in(facts) && lines == lines_for(labels, facts, facts.len() as int, true),
            Ok(false) => exists|i: int| #[trigger]
                self.freshness.stale_at(facts, i) && lines == lines_for(labels, facts, i + 1, false),
            Err(e) => exists|i: int| #[trigger]
                self.freshness.unknown_at(facts, i) && e.kind@ == facts[i].kind && lines == lines_for(
                    labels,
                    facts,
                    i,
                    true,
                ),
        }
    }

    /// Judges the given entries in order and stops at the first that is not
    /// fresh, as `FreshnessMap::all_fresh` does, and words a line for every
    /// entry that was judged.
    pub fn judge(&self, checks: &Vec<(&str, &Entry)>) -> (r: (Result<bool, MissingFreshness>, Vec<String>))
        ensures
            self.judged(labels_in(checks@), facts_in(checks@), r.0, texts(r.1@)),
    {
        let ghost labels = labels_in(checks@);
        let ghost facts = facts_in(checks@);
        let mut lines: Vec<String> = Vec::new();
        let mut i: usize = 0;
        proof {
            assert(texts(lines@) =~= lines_for(labels, facts, 0, true));
        }
        while i < checks.len()
            invariant
                i <= checks@.len(),
                labels == labels_in(checks@),
                facts == facts_in(checks@),
                self.freshness.all_fresh_in(facts.take(i as int)),
                texts(lines@) == lines_for(labels, facts, i as int, true),
            decreases checks@.len() - i,
        {
            let cat = checks[i].0;
            let e = checks[i].1;
            assert(facts[i as int] == e@ && labels[i as int] == cat@);
            let ghost before = lines@;
            match self.freshness.is_fresh(e.kind.as_str(), e.name.as_str(), e.value.as_str()) {
                Ok(true) => {
                    lines.push(self.logger.freshness_line(cat, e.kind.as_str(), e.name.as_str(), true));
                    proof {
                        assert forall|j: int| 0 <= j < i + 1 implies self.freshness.fresh(
                            #[trigger] facts.take(i + 1)[j],
                        ) by {
                            if j < i {
                                assert(facts.take(i + 1)[j] == facts.take(i as int)[j]);
                            }
                        }
                        assert(texts(lines@) =~= texts(before).push(lines@[i as int]@));
                        assert(texts(lines@) =~= lines_for(labels, facts, i + 1, true));
                    }
                },
                Ok(false) => {
                    lines.push(self.logger.freshness_line(cat, e.kind.as_str(), e.name.as_str(), false));
                    proof {
                        assert(self.freshness.stale_at(facts, i as int));
                        assert(texts(lines@) =~= texts(before).push(lines@[i as int]@));
                        assert(texts(lines@) =~= lines_for(labels, facts, i + 1, false));
                    }
                    return (Ok(false), lines);
                },
                Err(err) => {
                    assert(self.freshness.unknown_at(facts, i as int));
                    return (Err(err), lines);
                },
            }
            i += 1;
        }
        assert(facts.take(i as int) =~= facts);
        (Ok(true), lines)
    }

    /// Judges the facts of `map`, as `FreshnessMap::all_fresh` does, and
    /// words a line for every fact that was judged, as a fact of the group
    /// `cat`.
    pub fn all_fresh(&self, cat: &str, map: &WorkMap) -> (r: (Result<bool, MissingFreshness>, Vec<String>))
        ensures
            self.judged(same_label(cat@, map.facts().len()), map.facts(), r.0, texts(r.1@)),
    {
        let mut checks: Vec<(&str, &Entry)> = Vec::new();
        add_checks(&mut checks, cat, map);
        proof {
            assert(facts_in(checks@) =~= map.facts());
            assert(labels_in(checks@) =~= same_label(cat@, map.facts().len()));
        }
        self.judge(&checks)
    }
}

/// Adds every entry of `map` to the entries that are to be judged, as a
/// fact of the group `cat`.
pub fn add_checks<'a>(checks: &mut Vec<(&'a str, &'a Entry)>, cat: &'a str, map: &'a WorkMap)
    ensures
        facts_in(final(checks)@) == facts_in(old(checks)@) + map.facts(),
        labels_in(final(checks)@) == labels_in(old(checks)@) + same_label(cat@, map.facts().len()),
{
    let mut i: usize = 0;
    proof {
        assert(facts_in(checks@) + map.facts().take(0) =~= facts_in(checks@));
        assert(labels_in(checks@) + same_label(cat@, 0) =~= labels_in(checks@));
    }
    while i < map.len()
        invariant
            i <= map.facts().len(),
            facts_in(checks@) == facts_in(old(checks)@) + map.facts().take(i as int),
            labels_in(checks@) == labels_in(old(checks)@) + same_label(cat@, i as nat),
        decreases map.facts().len() - i,
    {
        let ghost before = checks@;
        let e = map.entry(i);
        checks.push((cat, e));
        proof {
            assert(facts_in(checks@) =~= facts_in(before).push(e@));
            assert(labels_in(checks@) =~= labels_in(before).push(cat@));
            assert(map.facts().take(i + 1) =~= map.facts().take(i as int).push(e@));
            assert(same_label(cat@, (i + 1) as nat) =~= same_label(cat@, i as nat).push(cat@));
            assert(facts_in(checks@) =~= facts_in(old(checks)@) + map.facts().take(i + 1));
            assert(labels_in(checks@) =~= labels_in(old(checks)@) + same_label(cat@, (i + 1) as nat));
        }
        i += 1;
    }
    assert(map.facts().take(i as int) =~= map.facts());
}

impl Prep {
    /// The group of each of the facts that decide whether `record` may
    /// stand for this call.
    pub open spec fn groups(&self, record: RecordView) -> Seq<Seq<char>> {
        same_label("declared input"@, self.declared().facts().len()) + same_label(
            "discovered input"@,
            record.discovered_inputs.len(),
        ) + same_label("discovered output"@, record.discovered_outputs.len())
    }

    /// Looks at the store and judges freshness as `exec_work` does, and
    /// hands back with its answer a line for every fact that was judged.
    /// With no record nothing is judged and there is no line.
    pub fn exec_work_logged<F: Fn(&str, &str) -> bool, B: FnOnce(Exec) -> Outcome>(
        &self,
        ctxt: &Context<F>,
        blk: B,
    ) -> (r: (Result<Work<B>, MissingFreshness>, Vec<String>))
        ensures
            match r.0 {
                Ok(Work::WorkValue(v)) => self.hit(ctxt) && v@ == ctxt.db@[self.key()].result,
                Ok(Work::WorkFromTask(b)) => self.miss(ctxt) && b == blk,
                Err(e) => self.unjudged(ctxt, e.kind@),
            },
            !ctxt.db@.contains_key(self.key()) ==> (r.0 matches Ok(Work::WorkFromTask(_))) && r.1@.len() == 0,
            self.settled(ctxt) ==> (r.0 matches Ok(Work::WorkValue(_))),
            ctxt.db@.contains_key(self.key()) ==> ctxt.judged(
                self.groups(ctxt.db@[self.key()]),
                self.checked(ctxt.db@[self.key()]),
                verdict(r.0),
                texts(r.1@),
            ),
    {
        match ctxt.db.prepare(self.fn_name.as_str(), &self.declared_inputs) {
            None => (Ok(Work::WorkFromTask(blk)), Vec::new()),
            Some(record) => {
                let mut checks: Vec<(&str, &Entry)> = Vec::new();
                proof {
                    assert(facts_in(checks@) =~= Seq::<Fact>::empty());
                    assert(labels_in(checks@) =~= Seq::<Seq<char>>::empty());
                }
                add_checks(&mut checks, "declared input", &self.declared_inputs);
                add_checks(&mut checks, "discovered input", &record.discovered_inputs);
                add_checks(&mut checks, "discovered output", &record.discovered_outputs);
                proof {
                    assert(facts_in(checks@) =~= self.checked(ctxt.db@[self.key()]));
                    assert(labels_in(checks@) =~= self.groups(ctxt.db@[self.key()]));
                }
                let (judgement, lines) = ctxt.judge(&checks);
                match judgement {
                    Ok(true) => (Ok(Work::WorkValue(record.result.clone())), lines),
                    Ok(false) => (Ok(Work::WorkFromTask(blk)), lines),
                    Err(e) => (Err(e), lines),
                }
            },
        }
    }
}

/// What the judgement of the facts was, given what the look at the store
/// gave: all fresh for a recorded result, a stale fact for a body that has
/// yet to run, and the error otherwise.
pub open spec fn verdict<B>(r: Result<Work<B>, MissingFreshness>) -> Result<bool, MissingFreshness> {
    match r {
        Ok(Work::WorkValue(_)) => Ok(true),
        Ok(Work::WorkFromTask(_)) => Ok(false),
        Err(e) => Err(e),
    }
}

} // verus!
