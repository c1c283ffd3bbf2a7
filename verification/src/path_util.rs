//! File names with a prefix and a suffix.

use vstd::prelude::*;
use vstd::string::StringExecFns;
use crate::paths::{file_name, has_no_separator, no_separator, with_extension, with_file_name};
use crate::paths::{path_file_name, path_with_extension, path_with_file_name};
use crate::paths::{join, path_joined, split_colon};
use crate::context::{sees, sees_all, ArgView};
use crate::database::RecordView;
use crate::text::texts;
use crate::workcache::{committed, failed, ran, Context, Exec, ExecError, Outcome, Prep};
use crate::workmap::{Fact, Key};

verus! {

/// The path with `prefix` put before its file name and `suffix` after it.
/// With both, the file name becomes the prefix, the old name, a dot and the
/// suffix. With a prefix alone, the prefix and the old name. With a suffix
/// alone, the suffix replaces the extension. With neither, the path stays.
pub open spec fn prefix_suffix_added(path: Seq<char>, prefix: Option<Seq<char>>, suffix: Option<Seq<char>>) -> Seq<
    char,
> {
    match (prefix, suffix) {
        (Some(p), Some(s)) => path_with_file_name(path, p + path_file_name(path)->0 + "."@ + s),
        (Some(p), None) => path_with_file_name(path, p + path_file_name(path)->0),
        (None, Some(s)) => path_with_extension(path, s),
        (None, None) => path,
    }
}

/// The path takes the given prefix and suffix: with a prefix it has a file
/// name, and a suffix that stands alone holds no path separator.
pub open spec fn takes_prefix_suffix(path: Seq<char>, prefix: Option<Seq<char>>, suffix: Option<Seq<char>>) -> bool {
    &&& prefix is Some ==> path_file_name(path) is Some
    &&& prefix is None && suffix is Some ==> no_separator(suffix->0)
}

/// A text as plain value, where there is one.
pub open spec fn text_of(t: Option<&str>) -> Option<Seq<char>> {
    match t {
        Some(s) => Some(s@),
        None => None,
    }
}

/// Puts `prefix` before the file name of `path` and `suffix` after it.
pub fn add_prefix_suffix(path: String, prefix: Option<&str>, suffix: Option<&str>) -> (r: String)
    requires
        takes_prefix_suffix(path@, text_of(prefix), text_of(suffix)),
    ensures
        r@ == prefix_suffix_added(path@, text_of(prefix), text_of(suffix)),
{
    match (prefix, suffix) {
        (Some(prefix), Some(suffix)) => {
            let name = file_name(path.as_str());
            let mut filename = prefix.to_owned();
            filename.append(name.unwrap().as_str());
            filename.append(".");
            filename.append(suffix);
            with_file_name(path.as_str(), filename.as_str())
        },
        (Some(prefix), None) => {
            let name = file_name(path.as_str());
            let mut filename = prefix.to_owned();
            filename.append(name.unwrap().as_str());
            with_file_name(path.as_str(), filename.as_str())
        },
        (None, Some(suffix)) => with_extension(path.as_str(), suffix),
        (None, None) => path,
    }
}

/// Puts `prefix` before the file name of `path` and `suffix` after it, where
/// the path takes them, and says so where it does not.
pub fn try_add_prefix_suffix(path: String, prefix: Option<&str>, suffix: Option<&str>) -> (r: Option<String>)
    ensures
        match r {
            Some(p) => takes_prefix_suffix(path@, text_of(prefix), text_of(suffix)) && p@
                == prefix_suffix_added(path@, text_of(prefix), text_of(suffix)),
            None => !takes_prefix_suffix(path@, text_of(prefix), text_of(suffix)),
        },
{
    let fits = match (prefix, suffix) {
        (Some(_), _) => file_name(path.as_str()).is_some(),
        (None, Some(s)) => has_no_separator(s),
        (None, None) => true,
    };
    if fits {
        Some(add_prefix_suffix(path, prefix, suffix))
    } else {
        None
    }
}

/// The places at which a program of one of the names is looked for, in the
/// order of the search: for each name the name itself and then the name
/// below each of the directories.
pub open spec fn candidates(names: Seq<Seq<char>>, dirs: Seq<Seq<char>>) -> Seq<Seq<char>>
    decreases names.len(),
{
    if names.len() == 0 {
        Seq::empty()
    } else {
        candidates(names.drop_last(), dirs) + seq![names.last()] + dirs.map_values(
            |d: Seq<char>| path_joined(d, names.last()),
        )
    }
}

/// By the probe's word `path` is the first of the places at which
/// something exists.
pub open spec fn first_present<E: Fn(&str) -> bool>(e: E, places: Seq<Seq<char>>, path: Seq<char>) -> bool {
    exists|k: int|
        0 <= k < places.len() && #[trigger] places[k] == path && sees(e, path, true) && forall|j: int|
            0 <= j < k ==> sees(e, #[trigger] places[j], false)
}

/// By the probe's word nothing exists at any of the places.
pub open spec fn none_present<E: Fn(&str) -> bool>(e: E, places: Seq<Seq<char>>) -> bool {
    forall|k: int| 0 <= k < places.len() ==> sees(e, #[trigger] places[k], false)
}

/// Looks for a program of one of the names: for each name, at the name
/// itself and then below each of the directories, and takes the first place
/// at which the probe finds something.
pub fn locate<E: Fn(&str) -> bool>(names: &Vec<String>, dirs: &Vec<String>, present: &E) -> (r: Option<String>)
    requires
        sees_all(*present),
    ensures
        match r {
            Some(p) => first_present(*present, candidates(texts(names@), texts(dirs@)), p@),
            None => none_present(*present, candidates(texts(names@), texts(dirs@))),
        },
{
    let ghost ns = texts(names@);
    let ghost ds = texts(dirs@);
    let mut i: usize = 0;
    assert(ns.take(0) =~= Seq::<Seq<char>>::empty());
    while i < names.len()
        invariant
            i <= names@.len(),
            ns == texts(names@),
            ds == texts(dirs@),
            sees_all(*present),
            none_present(*present, candidates(ns.take(i as int), ds)),
        decreases names@.len() - i,
    {
        let name = names[i].as_str();
        let ghost before = candidates(ns.take(i as int), ds);
        let ghost next = ns.take(i + 1);
        let ghost all = candidates(next, ds);
        let ghost below = ds.map_values(|d: Seq<char>| path_joined(d, name@));
        proof {
            assert(next.drop_last() =~= ns.take(i as int));
            assert(next.last() == name@);
            assert(all == before + seq![name@] + below);
        }
        let here = present(name);
        assert(sees(*present, name@, here));
        if here {
            proof {
                lemma_found_within(*present, ns, ds, i + 1, before.len() as int, name@);
            }
            return Some(names[i].clone());
        }
        let mut j: usize = 0;
        while j < dirs.len()
            invariant
                j <= dirs@.len(),
                ns == texts(names@),
                ds == texts(dirs@),
                i < names@.len(),
                name@ == ns[i as int],
                sees_all(*present),
                before == candidates(ns.take(i as int), ds),
                below == ds.map_values(|d: Seq<char>| path_joined(d, name@)),
                all == before + seq![name@] + below,
                all == candidates(ns.take(i + 1), ds),
                none_present(*present, before),
                sees(*present, name@, false),
                forall|k: int| 0 <= k < j ==> sees(*present, #[trigger] below[k], false),
            decreases dirs@.len() - j,
        {
            let path = join(dirs[j].as_str(), name);
            assert(below[j as int] == path@);
            let there = present(path.as_str());
            assert(sees(*present, path@, there));
            if there {
                proof {
                    let k = before.len() + 1 + j;
                    assert(all[k] == path@);
                    assert forall|m: int| 0 <= m < k implies sees(*present, #[trigger] all[m], false) by {
                        if m < before.len() {
                            assert(all[m] == before[m]);
                        } else if m == before.len() {
                            assert(all[m] == name@);
                        } else {
                            assert(all[m] == below[m - before.len() - 1]);
                        }
                    }
                    lemma_found_within(*present, ns, ds, i + 1, k, path@);
                }
                return Some(path);
            }
            j += 1;
        }
        proof {
            assert forall|m: int| 0 <= m < all.len() implies sees(*present, #[trigger] all[m], false) by {
                if m < before.len() {
                    assert(all[m] == before[m]);
                } else if m == before.len() {
                    assert(all[m] == name@);
                } else {
                    assert(all[m] == below[m - before.len() - 1]);
                }
            }
        }
        i += 1;
    }
    assert(ns.take(i as int) =~= ns);
    None
}

/// The places for the first `n` names begin the places for all the names.
proof fn lemma_candidates_begin(names: Seq<Seq<char>>, dirs: Seq<Seq<char>>, n: int)
    requires
        0 <= n <= names.len(),
    ensures
        candidates(names.take(n), dirs).len() <= candidates(names, dirs).len(),
        forall|k: int|
            0 <= k < candidates(names.take(n), dirs).len() ==> candidates(names, dirs)[k]
                == #[trigger] candidates(names.take(n), dirs)[k],
    decreases names.len() - n,
{
    if n == names.len() {
        assert(names.take(n) =~= names);
    } else {
        lemma_candidates_begin(names, dirs, n + 1);
        let next = names.take(n + 1);
        assert(next.drop_last() =~= names.take(n));
        let part = candidates(names.take(n), dirs);
        let more = candidates(next, dirs);
        assert(more == part + seq![next.last()] + dirs.map_values(|d: Seq<char>| path_joined(d, next.last())));
        assert forall|k: int| 0 <= k < part.len() implies candidates(names, dirs)[k] == #[trigger] part[k] by {
            assert(more[k] == part[k]);
            assert(candidates(names, dirs)[k] == more[k]);
        }
    }
}

/// A place found among the places for the first `n` names, with nothing
/// before it, is the first place found among the places for all the names.
proof fn lemma_found_within<E: Fn(&str) -> bool>(
    e: E,
    names: Seq<Seq<char>>,
    dirs: Seq<Seq<char>>,
    n: int,
    k: int,
    path: Seq<char>,
)
    requires
        0 <= n <= names.len(),
        0 <= k < candidates(names.take(n), dirs).len(),
        candidates(names.take(n), dirs)[k] == path,
        sees(e, path, true),
        forall|j: int| 0 <= j < k ==> sees(e, #[trigger] candidates(names.take(n), dirs)[j], false),
    ensures
        first_present(e, candidates(names, dirs), path),
{
    lemma_candidates_begin(names, dirs, n);
    let part = candidates(names.take(n), dirs);
    let all = candidates(names, dirs);
    assert(all[k] == part[k]);
    assert forall|j: int| 0 <= j < k implies sees(e, #[trigger] all[j], false) by {
        assert(all[j] == part[j]);
    }
}

/// The call `p` is the search for a program of one of the names: it has
/// the name of the search and declares the names, as a fact that is always
/// fresh.
pub open spec fn is_search(p: Prep, names: Seq<Seq<char>>) -> bool {
    &&& p.name() == "find_program"@
    &&& p.declared().wf()
    &&& p.declared()@ == Map::<Key, Seq<char>>::empty().insert(
        ("names"@, crate::context::value_kind()),
        crate::codec::strings_text(names),
    )
}

/// The record that a search leaves which found the program at `path`: the
/// path as discovered output and as result.
pub open spec fn search_record(path: Seq<char>) -> RecordView {
    RecordView {
        discovered_inputs: Seq::<Fact>::empty(),
        discovered_outputs: seq![
            Fact {
                name: "output"@,
                kind: crate::context::output_path_kind(),
                value: crate::codec::row_text(ArgView::OutputPath(path).row()),
            },
        ],
        result: path,
    }
}

/// The search `p` among the places may take the store from `before` to
/// `after` and give `r`: the recorded path where the record of the search
/// is found fresh, with the store left alone; the first place at which the
/// probe finds something where the search is a miss, filed with the place as
/// discovered output; the error that names the kind where a fact cannot be
/// judged; and the failure where the search is a miss and the probe finds
/// nothing at any place.
pub open spec fn searched<F: Fn(&str, &str) -> bool, E: Fn(&str) -> bool>(
    p: Prep,
    e: E,
    places: Seq<Seq<char>>,
    before: Context<F>,
    after: Context<F>,
    r: Result<Seq<char>, ExecError>,
) -> bool {
    match r {
        Ok(path) => (p.hit(&before) && path == before.db@[p.key()].result && after.db == before.db) || (p.miss(
            &before,
        ) && first_present(e, places, path) && after.db@ == before.db@.insert(p.key(), search_record(path))
            && after.db.dirty()),
        Err(ExecError::MissingFreshness(k)) => p.unjudged(&before, k.kind@) && after.db == before.db,
        Err(ExecError::BodyFailed(m)) => p.miss(&before) && m@ == " failed"@ && none_present(e, places)
            && after.db == before.db,
    }
}

/// What a call gave, with the text of its result.
pub open spec fn result_text(r: Result<String, ExecError>) -> Result<Seq<char>, ExecError> {
    match r {
        Ok(v) => Ok(v@),
        Err(e) => Err(e),
    }
}

/// The cached search for a program of one of the names, below the
/// directories that `path_var` lists with colons between them, may take the
/// store from `before` to `after` and give `r`.
pub open spec fn found<F: Fn(&str, &str) -> bool, E: Fn(&str) -> bool>(
    names: Seq<Seq<char>>,
    path_var: Seq<char>,
    e: E,
    before: Context<F>,
    after: Context<F>,
    r: Result<Seq<char>, ExecError>,
) -> bool {
    exists|p: Prep| #[trigger]
        searched(p, e, candidates(names, crate::paths::colon_parts(path_var)), before, after, r) && is_search(
            p,
            names,
        )
}

/// Looks for a program of one of the names, as a cached call: at each name
/// itself and then below each directory of `path_var`, a list of
/// directories with colons between them. The path that is found is recorded
/// as an output of the call, so that the search is repeated once nothing
/// exists there any more.
pub fn find_program<F: Fn(&str, &str) -> bool, E: Fn(&str) -> bool>(
    ctx: &mut crate::context::Context<F>,
    names: &Vec<String>,
    path_var: &str,
    present: &E,
) -> (r: Result<String, ExecError>)
    requires
        sees_all(*present),
    ensures
        final(ctx).root == old(ctx).root,
        final(ctx).ctx.freshness == old(ctx).ctx.freshness,
        final(ctx).ctx.cfg == old(ctx).ctx.cfg,
        final(ctx).ctx.logger == old(ctx).ctx.logger,
        r is Err ==> final(ctx).ctx.db == old(ctx).ctx.db,
        found(texts(names@), path_var@, *present, old(ctx).ctx, final(ctx).ctx, result_text(r)),
{
    let mut prep = ctx.prep("find_program");
    prep.declare_values("names", names);
    let dirs = split_colon(path_var);
    let ghost places = candidates(texts(names@), texts(dirs@));
    let body = |handle: Exec| -> (o: Outcome)
        requires
            handle.is_new(),
        ensures
            match o.1 {
                Ok(path) => first_present(*present, places, path@) && o.0.discovered_inputs.facts()
                    == Seq::<Fact>::empty() && o.0.discovered_outputs.facts() == search_record(
                    path@,
                ).discovered_outputs,
                Err(m) => m@ == " failed"@ && none_present(*present, places),
            },
        {
            let mut handle = handle;
            match locate(names, &dirs, present) {
                Some(path) => {
                    proof {
                        crate::workmap::lemma_empty_listing(handle.discovered_outputs);
                    }
                    handle.discover_output_path("output", path.as_str());
                    proof {
                        use_type_invariant(&handle.discovered_outputs);
                        let f = search_record(path@).discovered_outputs[0];
                        assert(f.key() == ("output"@, crate::context::output_path_kind()));
                        assert(handle.discovered_outputs@ == Map::<Key, Seq<char>>::empty().insert(
                            f.key(),
                            f.value,
                        ));
                        crate::workmap::lemma_single_listing(handle.discovered_outputs, f);
                        assert(search_record(path@).discovered_outputs =~= seq![f]);
                        assert(handle.discovered_inputs.facts() =~= Seq::<Fact>::empty());
                        assert(first_present(*present, places, path@));
                    }
                    (handle, Ok(path))
                },
                None => (handle, Err(" failed".to_owned())),
            }
        };
    let r = prep.exec(&mut ctx.ctx, body);
    proof {
        if r is Ok {
            let v = r->Ok_0;
            if !(prep.hit(&old(ctx).ctx) && v@ == old(ctx).ctx.db@[prep.key()].result && ctx.ctx.db == old(
                ctx,
            ).ctx.db) {
                assert(committed(body, prep.key(), old(ctx).ctx.db, ctx.ctx.db, v@));
                let (e1, w) = choose|e1: Exec, w: String| #[trigger]
                    ran(body, e1, Ok(w)) && w@ == v@ && ctx.ctx.db@ == old(ctx).ctx.db@.insert(
                        prep.key(),
                        RecordView {
                            discovered_inputs: e1.discovered_inputs.facts(),
                            discovered_outputs: e1.discovered_outputs.facts(),
                            result: v@,
                        },
                    ) && ctx.ctx.db.dirty() && ctx.ctx.db.filename() == old(ctx).ctx.db.filename();
                let e0 = choose|e0: Exec| e0.is_new() && #[trigger] call_ensures(
                    body,
                    (e0,),
                    (e1, Ok::<String, String>(w)),
                );
            }
        } else if r->Err_0 is BodyFailed {
            let m = r->Err_0->BodyFailed_0;
            assert(failed(body, m@));
            let (e1, w) = choose|e1: Exec, w: String| #[trigger] ran(body, e1, Err(w)) && w@ == m@;
            let e0 = choose|e0: Exec| e0.is_new() && #[trigger] call_ensures(
                body,
                (e0,),
                (e1, Err::<String, String>(w)),
            );
        }
        assert(searched(prep, *present, places, old(ctx).ctx, ctx.ctx, result_text(r)));
        assert(is_search(prep, texts(names@)));
    }
    r
}

} // verus!
