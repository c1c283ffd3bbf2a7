//! Facts about paths and command lines, and cached calls that declare them.
//!
//! An input path is fresh while the file at the path still has the digest
//! that was taken when the fact was made. An output path is fresh while
//! something exists at the path. A command line is fresh while its program
//! and every one of its arguments is. What is on disk is asked of two probes
//! that the caller supplies.

use vstd::prelude::*;
use crate::codec::{call_text, encode_call, encode_row, row_text, rows_view};
use crate::database::{Database, RecordView};
use crate::digest::{digest_bytes, digest_text};
use crate::freshness::{total, FreshnessMap};
use crate::into_path::IntoPath;
use crate::paths::{join, path_joined};
use crate::text::texts;
use crate::workcache::{Exec, Logger, Prep};
use crate::workmap::{Fact, Key};
use std::collections::BTreeMap;

verus! {

/// The kind of a command line.
pub open spec fn call_kind() -> Seq<char> {
    "Call"@
}

/// The kind of a path that is read.
pub open spec fn input_path_kind() -> Seq<char> {
    "InputPath"@
}

/// The kind of a path that is written.
pub open spec fn output_path_kind() -> Seq<char> {
    "OutputPath"@
}

/// The kind of a fact that is always fresh.
pub open spec fn value_kind() -> Seq<char> {
    "value"@
}

/// Probe `d` can be asked about every path. It answers with the digest of
/// what is at the path and the time of its last change, or with nothing
/// where nothing can be read there.
pub open spec fn reads_all<D: Fn(&str) -> Option<(String, u64)>>(d: D) -> bool {
    forall|p: &str| call_requires(d, (p,))
}

/// Probe `e` can be asked about every path.
pub open spec fn sees_all<E: Fn(&str) -> bool>(e: E) -> bool {
    forall|p: &str| call_requires(e, (p,))
}

/// A probe's answer as plain values.
pub open spec fn answer_view(a: Option<(String, u64)>) -> Option<(Seq<char>, u64)> {
    match a {
        Some(t) => Some((t.0@, t.1)),
        None => None,
    }
}

/// Asked about what is at `path`, probe `d` may answer `r`.
pub open spec fn reads<D: Fn(&str) -> Option<(String, u64)>>(d: D, path: Seq<char>, r: Option<(Seq<char>, u64)>) -> bool {
    exists|p: &str, a: Option<(String, u64)>|
        p@ == path && #[trigger] call_ensures(d, (p,), a) && r == answer_view(a)
}

/// Probe `d` may give an answer about `path` on which a file recorded with
/// `digest` is judged `r`: fresh where the digest read is the recorded one,
/// stale where it is another or nothing can be read.
pub open spec fn rereads<D: Fn(&str) -> Option<(String, u64)>>(d: D, path: Seq<char>, digest: Seq<char>, r: bool) -> bool {
    exists|seen: Option<(Seq<char>, u64)>| #![trigger reads(d, path, seen)]
        reads(d, path, seen) && r == (seen matches Some(s) && s.0 == digest)
}

/// Asked whether something exists at `path`, probe `e` may answer `r`.
pub open spec fn sees<E: Fn(&str) -> bool>(e: E, path: Seq<char>, r: bool) -> bool {
    exists|p: &str| p@ == path && #[trigger] call_ensures(e, (p,), r)
}

/// A path that is read, with the digest of its content and the time of its
/// last change when the fact was made. The time is for the reader's eye
/// and decides nothing.
pub struct InputPath {
    pub path: String,
    pub digest: String,
    pub modified: u64,
}

/// A path that is written.
pub struct OutputPath {
    pub path: String,
}

/// One token of a command line.
pub enum CallArg {
    Str(String),
    InputPath(InputPath),
    OutputPath(String),
}

/// A token as plain values.
pub enum ArgView {
    Str(Seq<char>),
    InputPath(Seq<char>, Seq<char>, u64),
    OutputPath(Seq<char>),
}

impl View for CallArg {
    type V = ArgView;

    open spec fn view(&self) -> ArgView {
        match *self {
            CallArg::Str(s) => ArgView::Str(s@),
            CallArg::InputPath(p) => ArgView::InputPath(p.path@, p.digest@, p.modified),
            CallArg::OutputPath(p) => ArgView::OutputPath(p@),
        }
    }
}

impl ArgView {
    /// The token as it stands on the command line.
    pub open spec fn word(self) -> Seq<char> {
        match self {
            ArgView::Str(s) => s,
            ArgView::InputPath(path, _, _) => path,
            ArgView::OutputPath(path) => path,
        }
    }

    /// The token as the row that is written out for it: the name of its
    /// variant, its text, and for a path that is read its digest and time.
    pub open spec fn row(self) -> (Seq<char>, Seq<char>, Seq<char>, u64) {
        match self {
            ArgView::Str(s) => ("Str"@, s, ""@, 0),
            ArgView::InputPath(path, digest, modified) => ("InputPath"@, path, digest, modified),
            ArgView::OutputPath(path) => ("OutputPath"@, path, ""@, 0),
        }
    }

    /// The probes may give the answers on which the token is judged `r`:
    /// a literal is always fresh, a path that is read is fresh where the
    /// digest read there is the recorded one, a path that is written is
    /// fresh where something exists there.
    pub open spec fn judged<D: Fn(&str) -> Option<(String, u64)>, E: Fn(&str) -> bool>(self, d: D, e: E, r: bool) -> bool {
        match self {
            ArgView::Str(_) => r,
            ArgView::InputPath(path, digest, _) => rereads(d, path, digest, r),
            ArgView::OutputPath(path) => sees(e, path, r),
        }
    }
}

impl InputPath {
    /// The fact that the file at `path` holds `contents` and was last
    /// changed at `modified`.
    pub fn new(path: String, contents: &[u8], modified: u64) -> (p: InputPath)
        ensures
            p.path == path,
            p.modified == modified,
            p.digest@ == digest_text(contents@),
    {
        InputPath { path, digest: digest_bytes(contents), modified }
    }

    /// The fact about `path` that the probe's answer makes, where the probe
    /// can read what is there.
    pub fn read<D: Fn(&str) -> Option<(String, u64)>>(path: &str, digest_of: &D) -> (r: Option<InputPath>)
        requires
            reads_all(*digest_of),
        ensures
            reads(
                *digest_of,
                path@,
                match r {
                    Some(p) => Some((p.digest@, p.modified)),
                    None => None,
                },
            ),
            r matches Some(p) ==> p.path@ == path@,
    {
        let a = digest_of(path);
        assert(reads(*digest_of, path@, answer_view(a)));
        match a {
            Some(seen) => Some(InputPath { path: path.to_owned(), digest: seen.0, modified: seen.1 }),
            None => None,
        }
    }

    /// Whether something exists at the path, by the probe's word.
    pub fn is_present<E: Fn(&str) -> bool>(&self, present: &E) -> (r: bool)
        requires
            sees_all(*present),
        ensures
            sees(*present, self.path@, r),
    {
        present(self.path.as_str())
    }

    /// Whether the file at the path still has the recorded digest, by the
    /// probe's word. Where nothing can be read there, it has not.
    pub fn is_fresh<D: Fn(&str) -> Option<(String, u64)>>(&self, digest_of: &D) -> (r: bool)
        requires
            reads_all(*digest_of),
        ensures
            rereads(*digest_of, self.path@, self.digest@, r),
    {
        let a = digest_of(self.path.as_str());
        assert(reads(*digest_of, self.path@, answer_view(a)));
        match a {
            Some(seen) => seen.0 == self.digest,
            None => false,
        }
    }
}

impl OutputPath {
    pub fn new(path: String) -> (p: OutputPath)
        ensures
            p.path == path,
    {
        OutputPath { path }
    }

    /// Whether something exists at the path, by the probe's word.
    pub fn is_fresh<E: Fn(&str) -> bool>(&self, present: &E) -> (r: bool)
        requires
            sees_all(*present),
        ensures
            sees(*present, self.path@, r),
    {
        present(self.path.as_str())
    }
}

impl CallArg {
    /// Judges the token by the probes' word.
    pub fn is_fresh<D: Fn(&str) -> Option<(String, u64)>, E: Fn(&str) -> bool>(&self, digest_of: &D, present: &E) -> (r:
        bool)
        requires
            reads_all(*digest_of),
            sees_all(*present),
        ensures
            self@.judged(*digest_of, *present, r),
    {
        match self {
            CallArg::Str(_) => true,
            CallArg::InputPath(p) => p.is_fresh(digest_of),
            CallArg::OutputPath(p) => {
                let r = present(p.as_str());
                assert(sees(*present, p@, r));
                r
            },
        }
    }

    /// The token as it stands on the command line.
    pub fn word(&self) -> (w: String)
        ensures
            w@ == self@.word(),
    {
        match self {
            CallArg::Str(s) => s.clone(),
            CallArg::InputPath(p) => p.path.clone(),
            CallArg::OutputPath(p) => p.clone(),
        }
    }

    /// The token as the row that is written out for it.
    pub fn row(&self) -> (r: (String, String, String, u64))
        ensures
            crate::codec::row_view(r) == self@.row(),
    {
        match self {
            CallArg::Str(s) => ("Str".to_owned(), s.clone(), "".to_owned(), 0),
            CallArg::InputPath(p) => ("InputPath".to_owned(), p.path.clone(), p.digest.clone(), p.modified),
            CallArg::OutputPath(p) => ("OutputPath".to_owned(), p.clone(), "".to_owned(), 0),
        }
    }
}

/// A command line: the program and its arguments.
pub struct Call {
    prog: CallArg,
    args: Vec<CallArg>,
}

impl Call {
    /// The program.
    pub closed spec fn prog(&self) -> ArgView {
        self.prog@
    }

    /// The arguments, in order.
    pub closed spec fn args(&self) -> Seq<ArgView> {
        self.args@.map_values(|a: CallArg| a@)
    }

    /// The program followed by the arguments.
    pub open spec fn tokens(&self) -> Seq<ArgView> {
        seq![self.prog()] + self.args()
    }

    /// The JSON text that stands for the command line in a map of facts.
    pub open spec fn text(&self) -> Seq<char> {
        call_text(self.prog().row(), self.args().map_values(|a: ArgView| a.row()))
    }

    /// The command line of the program `prog`, without arguments.
    pub fn new(prog: InputPath) -> (c: Call)
        ensures
            c.prog() == ArgView::InputPath(prog.path@, prog.digest@, prog.modified),
            c.args() == Seq::<ArgView>::empty(),
    {
        let c = Call { prog: CallArg::InputPath(prog), args: Vec::new() };
        assert(c.args() =~= Seq::<ArgView>::empty());
        c
    }

    /// Adds a literal argument.
    pub fn push_str(&mut self, value: String)
        ensures
            final(self).prog() == old(self).prog(),
            final(self).args() == old(self).args().push(ArgView::Str(value@)),
    {
        self.args.push(CallArg::Str(value));
        assert(self.args() =~= old(self).args().push(ArgView::Str(value@)));
    }

    /// Adds a path that the command reads.
    pub fn push_input_path(&mut self, path: InputPath)
        ensures
            final(self).prog() == old(self).prog(),
            final(self).args() == old(self).args().push(
                ArgView::InputPath(path.path@, path.digest@, path.modified),
            ),
    {
        self.args.push(CallArg::InputPath(path));
        assert(self.args() =~= old(self).args().push(
            ArgView::InputPath(path.path@, path.digest@, path.modified),
        ));
    }

    /// Adds a path that the command writes.
    pub fn push_output_path(&mut self, value: String)
        ensures
            final(self).prog() == old(self).prog(),
            final(self).args() == old(self).args().push(ArgView::OutputPath(value@)),
    {
        self.args.push(CallArg::OutputPath(value));
        assert(self.args() =~= old(self).args().push(ArgView::OutputPath(value@)));
    }

    /// Judges the program and then the arguments in order, by the probes'
    /// word, and stops at the first token that is not fresh.
    pub fn is_fresh<D: Fn(&str) -> Option<(String, u64)>, E: Fn(&str) -> bool>(&self, digest_of: &D, present: &E) -> (r:
        bool)
        requires
            reads_all(*digest_of),
            sees_all(*present),
        ensures
            r ==> forall|i: int|
                0 <= i < self.tokens().len() ==> (#[trigger] self.tokens()[i]).judged(*digest_of, *present, true),
            !r ==> exists|i: int|
                0 <= i < self.tokens().len() && (#[trigger] self.tokens()[i]).judged(
                    *digest_of,
                    *present,
                    false,
                ) && forall|j: int|
                    0 <= j < i ==> (#[trigger] self.tokens()[j]).judged(*digest_of, *present, true),
    {
        if !self.prog.is_fresh(digest_of, present) {
            assert(self.tokens()[0] == self.prog());
            return false;
        }
        let mut i: usize = 0;
        while i < self.args.len()
            invariant
                i <= self.args@.len(),
                reads_all(*digest_of),
                sees_all(*present),
                forall|j: int|
                    0 <= j < i + 1 ==> (#[trigger] self.tokens()[j]).judged(*digest_of, *present, true),
            decreases self.args@.len() - i,
        {
            let fresh = self.args[i].is_fresh(digest_of, present);
            assert(self.tokens()[i + 1] == self.args@[i as int]@);
            if !fresh {
                return false;
            }
            i += 1;
        }
        true
    }

    /// The program and the arguments as they stand on the command line.
    pub fn cmd(&self) -> (r: (String, Vec<String>))
        ensures
            r.0@ == self.prog().word(),
            r.1@.len() == self.args().len(),
            forall|i: int| 0 <= i < r.1@.len() ==> (#[trigger] r.1@[i])@ == self.args()[i].word(),
    {
        let prog = self.prog.word();
        let mut args: Vec<String> = Vec::new();
        let mut i: usize = 0;
        while i < self.args.len()
            invariant
                i <= self.args@.len(),
                args@.len() == i,
                forall|j: int| 0 <= j < i ==> (#[trigger] args@[j])@ == self.args()[j].word(),
            decreases self.args@.len() - i,
        {
            args.push(self.args[i].word());
            i += 1;
        }
        (prog, args)
    }

    /// The JSON text that stands for the command line in a map of facts.
    pub fn to_text(&self) -> (t: String)
        ensures
            t@ == self.text(),
    {
        let prog = self.prog.row();
        let mut rows: Vec<(String, String, String, u64)> = Vec::new();
        let mut i: usize = 0;
        while i < self.args.len()
            invariant
                i <= self.args@.len(),
                rows_view(rows@) == self.args().map_values(|a: ArgView| a.row()).take(i as int),
            decreases self.args@.len() - i,
        {
            let ghost before = rows@;
            let row = self.args[i].row();
            rows.push(row);
            proof {
                let all = self.args().map_values(|a: ArgView| a.row());
                assert(rows_view(rows@) =~= rows_view(before).push(crate::codec::row_view(row)));
                assert(all.take(i + 1) =~= all.take(i as int).push(all[i as int]));
            }
            i += 1;
        }
        proof {
            let all = self.args().map_values(|a: ArgView| a.row());
            assert(all.take(i as int) =~= all);
        }
        encode_call(&prog, &rows)
    }
}

/// Each of `items` with the literal `flag` before it.
pub open spec fn flagged(flag: Seq<char>, items: Seq<ArgView>) -> Seq<ArgView>
    decreases items.len(),
{
    if items.len() == 0 {
        Seq::empty()
    } else {
        flagged(flag, items.drop_last()) + seq![ArgView::Str(flag), items.last()]
    }
}

/// The texts as literal tokens.
pub open spec fn literals(texts: Seq<Seq<char>>) -> Seq<ArgView> {
    texts.map_values(|t: Seq<char>| ArgView::Str(t))
}

/// The paths as tokens that are read, each with the digest and the time
/// that the answer at its place gives.
pub open spec fn inputs(paths: Seq<Seq<char>>, answers: Seq<(Seq<char>, u64)>) -> Seq<ArgView> {
    Seq::new(paths.len(), |i: int| ArgView::InputPath(paths[i], answers[i].0, answers[i].1))
}

/// The probe may give, for each of the paths, the answer at its place.
pub open spec fn reads_each<D: Fn(&str) -> Option<(String, u64)>>(
    d: D,
    paths: Seq<Seq<char>>,
    answers: Seq<(Seq<char>, u64)>,
) -> bool {
    &&& answers.len() == paths.len()
    &&& forall|i: int| 0 <= i < paths.len() ==> reads(d, #[trigger] paths[i], Some(answers[i]))
}

/// The probe may find nothing to read at one of the paths.
pub open spec fn reads_none<D: Fn(&str) -> Option<(String, u64)>>(d: D, paths: Seq<Seq<char>>, path: Seq<char>) -> bool {
    paths.contains(path) && reads(d, path, None)
}

/// The text of the flag, where there is one.
pub open spec fn text_of_flag(flag: Option<&str>) -> Option<Seq<char>> {
    match flag {
        Some(f) => Some(f@),
        None => None,
    }
}

/// Nothing can be read at the path at place `k`, the probe may have given
/// the answers for the `k` paths before it, and the arguments went from
/// `before` to `after` by those `k` paths, each with the flag before it
/// where there is one.
pub open spec fn stopped_with<D: Fn(&str) -> Option<(String, u64)>>(
    d: D,
    paths: Seq<Seq<char>>,
    flag: Option<Seq<char>>,
    before: Seq<ArgView>,
    after: Seq<ArgView>,
    path: Seq<char>,
    k: int,
    answers: Seq<(Seq<char>, u64)>,
) -> bool {
    &&& 0 <= k < paths.len()
    &&& paths[k] == path
    &&& reads(d, path, None)
    &&& reads_each(d, paths.take(k), answers)
    &&& after == before + (match flag {
        Some(f) => flagged(f, inputs(paths.take(k), answers)),
        None => inputs(paths.take(k), answers),
    })
}

/// Reading the paths in order stopped at `path`, at which nothing can be
/// read, after the paths before it had been added to the arguments.
pub open spec fn stopped_at<D: Fn(&str) -> Option<(String, u64)>>(
    d: D,
    paths: Seq<Seq<char>>,
    flag: Option<Seq<char>>,
    before: Seq<ArgView>,
    after: Seq<ArgView>,
    path: Seq<char>,
) -> bool {
    exists|k: int, answers: Seq<(Seq<char>, u64)>| #[trigger]
        stopped_with(d, paths, flag, before, after, path, k, answers)
}

impl Call {
    /// Adds every text as a literal argument.
    pub fn push_strs(&mut self, items: &Vec<String>)
        ensures
            final(self).prog() == old(self).prog(),
            final(self).args() == old(self).args() + literals(texts(items@)),
    {
        let mut i: usize = 0;
        assert(old(self).args() + literals(texts(items@)).take(0) =~= old(self).args());
        while i < items.len()
            invariant
                i <= items@.len(),
                self.prog() == old(self).prog(),
                self.args() == old(self).args() + literals(texts(items@)).take(i as int),
            decreases items@.len() - i,
        {
            self.push_str(items[i].clone());
            proof {
                let all = literals(texts(items@));
                assert(all.take(i + 1) =~= all.take(i as int).push(all[i as int]));
                assert(self.args() =~= old(self).args() + all.take(i + 1));
            }
            i += 1;
        }
        assert(literals(texts(items@)).take(i as int) =~= literals(texts(items@)));
    }

    /// Adds every text as a literal argument with the literal `flag` before
    /// it.
    pub fn push_flagged_strs(&mut self, flag: &str, items: &Vec<String>)
        ensures
            final(self).prog() == old(self).prog(),
            final(self).args() == old(self).args() + flagged(flag@, literals(texts(items@))),
    {
        let mut i: usize = 0;
        let ghost all = literals(texts(items@));
        assert(old(self).args() + flagged(flag@, all.take(0)) =~= old(self).args());
        while i < items.len()
            invariant
                i <= items@.len(),
                all == literals(texts(items@)),
                self.prog() == old(self).prog(),
                self.args() == old(self).args() + flagged(flag@, all.take(i as int)),
            decreases items@.len() - i,
        {
            self.push_str(flag.to_owned());
            self.push_str(items[i].clone());
            proof {
                let next = all.take(i + 1);
                assert(next.drop_last() =~= all.take(i as int));
                assert(next.last() == ArgView::Str(items@[i as int]@));
                assert(self.args() =~= old(self).args() + flagged(flag@, next));
            }
            i += 1;
        }
        assert(all.take(i as int) =~= all);
    }

    /// Reads every path through the probe and adds it as a path that the
    /// command reads, with the literal `flag` before it where there is one.
    /// Stops at the first path at which nothing can be read, and names it.
    pub fn push_input_paths<D: Fn(&str) -> Option<(String, u64)>>(
        &mut self,
        flag: Option<&str>,
        paths: &Vec<String>,
        digest_of: &D,
    ) -> (r: Result<(), String>)
        requires
            reads_all(*digest_of),
        ensures
            final(self).prog() == old(self).prog(),
            match r {
                Ok(()) => exists|answers: Seq<(Seq<char>, u64)>| #[trigger]
                    reads_each(*digest_of, texts(paths@), answers) && final(self).args() == old(self).args() + (
                    match flag {
                        Some(f) => flagged(f@, inputs(texts(paths@), answers)),
                        None => inputs(texts(paths@), answers),
                    }),
                Err(p) => reads_none(*digest_of, texts(paths@), p@) && stopped_at(
                    *digest_of,
                    texts(paths@),
                    text_of_flag(flag),
                    old(self).args(),
                    final(self).args(),
                    p@,
                ),
            },
    {
        let mut i: usize = 0;
        let ghost mut answers: Seq<(Seq<char>, u64)> = Seq::empty();
        let ghost all = texts(paths@);
        proof {
            assert(inputs(all.take(0), answers) =~= Seq::<ArgView>::empty());
            assert(old(self).args() + Seq::<ArgView>::empty() =~= old(self).args());
        }
        while i < paths.len()
            invariant
                i <= paths@.len(),
                all == texts(paths@),
                reads_all(*digest_of),
                self.prog() == old(self).prog(),
                reads_each(*digest_of, all.take(i as int), answers),
                self.args() == old(self).args() + (match flag {
                    Some(f) => flagged(f@, inputs(all.take(i as int), answers)),
                    None => inputs(all.take(i as int), answers),
                }),
            decreases paths@.len() - i,
        {
            let ghost before = self.args();
            let ghost seen = answers;
            match InputPath::read(paths[i].as_str(), digest_of) {
                None => {
                    proof {
                        assert(all[i as int] == paths@[i as int]@);
                        assert(stopped_with(
                            *digest_of,
                            all,
                            text_of_flag(flag),
                            old(self).args(),
                            self.args(),
                            all[i as int],
                            i as int,
                            answers,
                        ));
                    }
                    return Err(paths[i].clone());
                },
                Some(p) => {
                    match flag {
                        Some(f) => {
                            self.push_str(f.to_owned());
                        },
                        None => {},
                    }
                    proof {
                        answers = seen.push((p.digest@, p.modified));
                        let was = inputs(all.take(i as int), seen);
                        let now = inputs(all.take(i + 1), answers);
                        assert(now.drop_last() =~= was);
                        assert(now.last() == ArgView::InputPath(p.path@, p.digest@, p.modified));
                        assert(now =~= was.push(now.last()));
                        assert forall|j: int| 0 <= j < i + 1 implies reads(
                            *digest_of,
                            #[trigger] all.take(i + 1)[j],
                            Some(answers[j]),
                        ) by {
                            if j < i {
                                assert(all.take(i + 1)[j] == all.take(i as int)[j]);
                            }
                        }
                    }
                    self.push_input_path(p);
                    proof {
                        let was = inputs(all.take(i as int), seen);
                        let now = inputs(all.take(i + 1), answers);
                        match flag {
                            Some(f) => {
                                assert(self.args() =~= old(self).args() + flagged(f@, now));
                            },
                            None => {
                                assert(self.args() =~= old(self).args() + now);
                            },
                        }
                    }
                },
            }
            i += 1;
        }
        assert(all.take(i as int) =~= all);
        Ok(())
    }
}

/// The token that a row stands for: the first text names the variant, the
/// second is the token's text, and for a path that is read the third text
/// and the number are its digest and time. A row with another first text
/// stands for no token.
pub open spec fn arg_of_row(row: (Seq<char>, Seq<char>, Seq<char>, u64)) -> Option<ArgView> {
    if row.0 == "Str"@ {
        Some(ArgView::Str(row.1))
    } else if row.0 == "InputPath"@ {
        Some(ArgView::InputPath(row.1, row.2, row.3))
    } else if row.0 == "OutputPath"@ {
        Some(ArgView::OutputPath(row.1))
    } else {
        None
    }
}

/// A token is the token that its row stands for.
pub proof fn lemma_row_of_arg(a: ArgView)
    ensures
        arg_of_row(a.row()) == Some(a),
{
    reveal_strlit("Str");
    reveal_strlit("InputPath");
    reveal_strlit("OutputPath");
    assert("Str"@.len() == 3);
    assert("InputPath"@.len() == 9);
    assert("OutputPath"@.len() == 10);
}

impl CallArg {
    /// The token that the row stands for, where it stands for one.
    pub fn from_row(row: (String, String, String, u64)) -> (r: Option<CallArg>)
        ensures
            match r {
                Some(a) => arg_of_row(crate::codec::row_view(row)) == Some(a@),
                None => arg_of_row(crate::codec::row_view(row)) is None,
            },
    {
        let (tag, text, digest, modified) = row;
        if crate::order::same_text(tag.as_str(), "Str") {
            Some(CallArg::Str(text))
        } else if crate::order::same_text(tag.as_str(), "InputPath") {
            Some(CallArg::InputPath(InputPath { path: text, digest, modified }))
        } else if crate::order::same_text(tag.as_str(), "OutputPath") {
            Some(CallArg::OutputPath(text))
        } else {
            None
        }
    }
}

impl Call {
    /// The command line that the rows stand for: the first row for the
    /// program, the others for the arguments. There is none where one of the
    /// rows stands for no token.
    pub fn from_rows(prog: (String, String, String, u64), args: Vec<(String, String, String, u64)>) -> (r: Option<
        Call,
    >)
        ensures
            match r {
                Some(c) => arg_of_row(crate::codec::row_view(prog)) == Some(c.prog()) && c.args().len()
                    == args@.len() && forall|i: int|
                    0 <= i < args@.len() ==> arg_of_row(#[trigger] rows_view(args@)[i]) == Some(c.args()[i]),
                None => arg_of_row(crate::codec::row_view(prog)) is None || exists|i: int|
                    0 <= i < args@.len() && arg_of_row(#[trigger] rows_view(args@)[i]) is None,
            },
    {
        let prog = match CallArg::from_row(prog) {
            Some(p) => p,
            None => {
                return None;
            },
        };
        let ghost all = rows_view(args@);
        let mut rest = args;
        let mut reversed: Vec<CallArg> = Vec::new();
        // Rows are taken from the back, so the tokens come out in reverse.
        while rest.len() > 0
            invariant
                all == rows_view(args@),
                rest@.len() + reversed@.len() == all.len(),
                rows_view(rest@) == all.take(rest@.len() as int),
                forall|k: int|
                    0 <= k < reversed@.len() ==> arg_of_row(all[all.len() - 1 - k]) == Some(
                        (#[trigger] reversed@[k])@,
                    ),
            decreases rest@.len(),
        {
            let ghost before = rest@;
            let row = rest.pop().unwrap();
            proof {
                assert(rows_view(before)[before.len() - 1] == crate::codec::row_view(row));
                assert(rows_view(rest@) =~= all.take(rest@.len() as int));
            }
            match CallArg::from_row(row) {
                Some(a) => {
                    reversed.push(a);
                },
                None => {
                    proof {
                        let i = rest@.len() as int;
                        assert(all[i] == crate::codec::row_view(row));
                        assert(0 <= i < args@.len());
                        assert(arg_of_row(rows_view(args@)[i]) is None);
                    }
                    return None;
                },
            }
        }
        let mut call = Call { prog, args: Vec::new() };
        assert(call.args() =~= Seq::<ArgView>::empty());
        while reversed.len() > 0
            invariant
                all == rows_view(args@),
                call.prog() == prog@,
                call.args().len() + reversed@.len() == all.len(),
                forall|k: int|
                    0 <= k < reversed@.len() ==> arg_of_row(all[all.len() - 1 - k]) == Some(
                        (#[trigger] reversed@[k])@,
                    ),
                forall|i: int| 0 <= i < call.args().len() ==> arg_of_row(all[i]) == Some(#[trigger] call.args()[i]),
            decreases reversed@.len(),
        {
            let ghost done = call.args();
            let ghost k = reversed@.len() - 1;
            let a = reversed.pop().unwrap();
            call.args.push(a);
            proof {
                assert(call.args() =~= done.push(a@));
                assert(all.len() - 1 - k == done.len());
            }
        }
        Some(call)
    }
}

/// The token that the JSON text of a row stands for. There is none where
/// the text is not tame, is not the JSON text of a row, or the row stands
/// for no token.
pub open spec fn arg_of_text(text: Seq<char>) -> Option<ArgView> {
    if crate::scan::tame(text) && crate::codec::decoded_row(text) is Some {
        arg_of_row(crate::codec::decoded_row(text)->0)
    } else {
        None
    }
}

/// The program and the arguments that the JSON text of a command line
/// stands for. There are none where the text is not tame, is not the JSON
/// text of a command line, or one of its rows stands for no token.
pub open spec fn call_of_text(text: Seq<char>) -> Option<(ArgView, Seq<ArgView>)> {
    if !crate::scan::tame(text) {
        None
    } else {
        match crate::codec::decoded_call(text) {
            None => None,
            Some(c) => if arg_of_row(c.0) is Some && forall|i: int|
                0 <= i < c.1.len() ==> arg_of_row(#[trigger] c.1[i]) is Some {
                Some(
                    (
                        arg_of_row(c.0)->0,
                        c.1.map_values(|row: (Seq<char>, Seq<char>, Seq<char>, u64)| arg_of_row(row)->0),
                    ),
                )
            } else {
                None
            },
        }
    }
}

impl CallArg {
    /// Reads a token back from the JSON text that stands for it in a map of
    /// facts.
    pub fn from_text(text: &str) -> (r: Option<CallArg>)
        ensures
            match r {
                Some(a) => arg_of_text(text@) == Some(a@),
                None => arg_of_text(text@) is None,
            },
    {
        if !crate::scan::is_tame(text) {
            return None;
        }
        match crate::codec::decode_row(text) {
            Some(row) => CallArg::from_row(row),
            None => None,
        }
    }
}

impl Call {
    /// Reads a command line back from the JSON text that stands for it in a
    /// map of facts.
    pub fn from_text(text: &str) -> (r: Option<Call>)
        ensures
            match r {
                Some(c) => call_of_text(text@) == Some((c.prog(), c.args())),
                None => call_of_text(text@) is None,
            },
    {
        if !crate::scan::is_tame(text) {
            return None;
        }
        match crate::codec::decode_call(text) {
            Some((prog, args)) => {
                let r = Call::from_rows(prog, args);
                proof {
                    if r is Some {
                        let c = r->0;
                        let rows = rows_view(args@);
                        assert(c.args() =~= rows.map_values(
                            |row: (Seq<char>, Seq<char>, Seq<char>, u64)| arg_of_row(row)->0,
                        ));
                    }
                }
                r
            },
            None => None,
        }
    }
}

/// A fact that stands for nothing on disk is always fresh: where its text
/// changes, the cache key changes with it.
pub fn value_is_fresh(_name: &str, _value: &str) -> (r: bool)
    ensures
        r,
{
    true
}

impl InputPath {
    /// The JSON text that stands for the path in a map of facts.
    pub open spec fn text(&self) -> Seq<char> {
        row_text(ArgView::InputPath(self.path@, self.digest@, self.modified).row())
    }

    /// The JSON text that stands for the path in a map of facts.
    pub fn to_text(&self) -> (t: String)
        ensures
            t@ == self.text(),
    {
        encode_row(&("InputPath".to_owned(), self.path.clone(), self.digest.clone(), self.modified))
    }
}

impl OutputPath {
    /// The JSON text that stands for the path in a map of facts.
    pub open spec fn text(&self) -> Seq<char> {
        row_text(ArgView::OutputPath(self.path@).row())
    }

    /// The JSON text that stands for the path in a map of facts.
    pub fn to_text(&self) -> (t: String)
        ensures
            t@ == self.text(),
    {
        encode_row(&("OutputPath".to_owned(), self.path.clone(), "".to_owned(), 0))
    }
}

impl Prep {
    /// Declares a fact of the kind that is always fresh. Its value is filed
    /// as the JSON text of the array of `values`.
    pub fn declare_values(&mut self, name: &str, values: &Vec<String>)
        ensures
            final(self).declared()@ == old(self).declared()@.insert(
                (name@, value_kind()),
                crate::codec::strings_text(texts(values@)),
            ),
            final(self).declared().wf(),
            final(self).name() == old(self).name(),
    {
        let text = crate::codec::encode_texts(values);
        self.declare_input("value", name, text.as_str())
    }

    /// Declares that the call reads `path`. The fact is named by the path,
    /// so that every path that is declared has a fact of its own.
    pub fn declare_input_path(&mut self, path: &InputPath)
        ensures
            final(self).declared()@ == old(self).declared()@.insert((path.path@, input_path_kind()), path.text()),
            final(self).declared().wf(),
            final(self).name() == old(self).name(),
    {
        let text = path.to_text();
        self.declare_input("InputPath", path.path.as_str(), text.as_str())
    }

    /// Declares the command line that the call runs. The fact has the empty
    /// name: a second command line replaces the first.
    pub fn declare_call(&mut self, call: &Call)
        ensures
            final(self).declared()@ == old(self).declared()@.insert((""@, call_kind()), call.text()),
            final(self).declared().wf(),
            final(self).name() == old(self).name(),
    {
        let text = call.to_text();
        self.declare_input("Call", "", text.as_str())
    }
}

impl Exec {
    /// The description of a process that runs `program` on `args`.
    pub fn process_builder(&mut self, program: &str, args: &Vec<String>) -> (p: crate::process_builder::ProcessBuilder)
        ensures
            *final(self) == *old(self),
            p.program@ == program@,
            texts(p.args@) == texts(args@),
            p.msgs@ == Seq::<char>::empty(),
            p.color is None,
            p.verbosity == 0,
            p.stdout_verbosity is None,
            p.stderr_verbosity is None,
            p.timeout is None,
    {
        crate::process_builder::ProcessBuilder::new(program, args)
    }

    /// Records under `name` that the body read `path`.
    pub fn discover_input_path(&mut self, name: &str, path: &InputPath)
        ensures
            final(self).discovered_inputs@ == old(self).discovered_inputs@.insert(
                (name@, input_path_kind()),
                path.text(),
            ),
            final(self).discovered_outputs == old(self).discovered_outputs,
    {
        self.discover_input("InputPath", name, path.to_text())
    }

    /// Records under `name` that the body wrote `path`.
    pub fn discover_output_path(&mut self, name: &str, path: &str)
        ensures
            final(self).discovered_outputs@ == old(self).discovered_outputs@.insert(
                (name@, output_path_kind()),
                row_text(ArgView::OutputPath(path@).row()),
            ),
            final(self).discovered_inputs == old(self).discovered_inputs,
    {
        let p = OutputPath::new(path.to_owned());
        self.discover_output("OutputPath", name, p.to_text())
    }
}

/// The name of the file, below the root, in which the store is kept.
pub open spec fn store_name() -> Seq<char> {
    "db.json"@
}

/// The shared state of cached calls together with the directory below which
/// everything is built.
pub struct Context<F: Fn(&str, &str) -> bool> {
    pub ctx: crate::workcache::Context<F>,
    pub root: String,
}

impl<F: Fn(&str, &str) -> bool> Context<F> {
    /// A context rooted at `build`.
    pub fn new(call: F, input_path: F, output_path: F, value: F) -> (c: Context<F>)
        requires
            total(call),
            total(input_path),
            total(output_path),
            total(value),
        ensures
            c.root@ == "build"@,
            c.ctx.db@ == Map::<Seq<char>, RecordView>::empty(),
            !c.ctx.db.dirty(),
            c.ctx.db.filename() == path_joined("build"@, store_name()),
            c.ctx.freshness@ == Map::<Seq<char>, F>::empty().insert(call_kind(), call).insert(
                input_path_kind(),
                input_path,
            ).insert(output_path_kind(), output_path).insert(value_kind(), value),
    {
        Context::new_in_path("build", call, input_path, output_path, value)
    }

    /// A context rooted at `root`, with an empty store that is kept in the
    /// file `db.json` below the root, and with the given predicates for
    /// command lines, paths that are read, paths that are written, and facts
    /// that are always fresh.
    pub fn new_in_path<T: IntoPath>(root: T, call: F, input_path: F, output_path: F, value: F) -> (c: Context<F>)
        requires
            total(call),
            total(input_path),
            total(output_path),
            total(value),
        ensures
            c.root@ == root.path_text(),
            c.ctx.db@ == Map::<Seq<char>, RecordView>::empty(),
            !c.ctx.db.dirty(),
            c.ctx.db.filename() == path_joined(root.path_text(), store_name()),
            c.ctx.freshness@ == Map::<Seq<char>, F>::empty().insert(call_kind(), call).insert(
                input_path_kind(),
                input_path,
            ).insert(output_path_kind(), output_path).insert(value_kind(), value),
    {
        let root = root.into_path();
        let db_path = join(root.as_str(), "db.json");
        let db = Database::new(db_path);
        let logger = Logger::new();
        let cfg = BTreeMap::new();
        let mut freshness = FreshnessMap::new();
        freshness.insert("Call", call);
        freshness.insert("InputPath", input_path);
        freshness.insert("OutputPath", output_path);
        freshness.insert("value", value);
        let ctx = crate::workcache::Context::new_with_freshness(db, logger, cfg, freshness);
        Context { ctx, root }
    }

    /// Prepares a call of the function named `fn_name`.
    pub fn prep(&self, fn_name: &str) -> (p: Prep)
        ensures
            p.name() == fn_name@,
            p.declared().facts() == Seq::<Fact>::empty(),
            p.declared()@ == Map::<Key, Seq<char>>::empty(),
    {
        self.ctx.prep(fn_name)
    }

    /// Prepares a call of the function named `fn_name` that runs `call`.
    pub fn prep_call(&self, fn_name: &str, call: &Call) -> (p: Prep)
        ensures
            p.name() == fn_name@,
            p.declared()@ == Map::<Key, Seq<char>>::empty().insert((""@, call_kind()), call.text()),
    {
        let mut prep = self.prep(fn_name);
        prep.declare_call(call);
        prep
    }
}

} // verus!
