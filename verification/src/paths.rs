//! Paths as texts, taken apart and put together by `std::path`.
//!
//! The functions that take paths apart are not verified: each hands its
//! arguments to one function of `std::path` and names what comes back. How `std::path` reads
//! a path belongs to the platform that the library is built for: a name
//! stands for what `std::path` gives there.

use vstd::prelude::*;
use vstd::string::StrSliceExecFns;

verus! {

/// The final component of the path, as `Path::file_name` gives it. There is
/// none where the path ends in `..` or is a root.
pub uninterp spec fn path_file_name(path: Seq<char>) -> Option<Seq<char>>;

/// The path with its final component replaced by `name`, as
/// `Path::with_file_name` gives it.
pub uninterp spec fn path_with_file_name(path: Seq<char>, name: Seq<char>) -> Seq<char>;

/// The path with the extension of its final component replaced by
/// `extension`, as `Path::with_extension` gives it.
pub uninterp spec fn path_with_extension(path: Seq<char>, extension: Seq<char>) -> Seq<char>;

/// The path `rel` adjoined to `base`, as `Path::join` gives it: `rel` itself
/// where it is absolute.
pub uninterp spec fn path_joined(base: Seq<char>, rel: Seq<char>) -> Seq<char>;

/// The path without its final component, as `Path::parent` gives it. There
/// is none where the path is a root or empty.
pub uninterp spec fn path_parent(path: Seq<char>) -> Option<Seq<char>>;

/// Whether the components of `base` begin the components of `path`, as
/// `Path::starts_with` says.
pub uninterp spec fn path_starts_with(path: Seq<char>, base: Seq<char>) -> bool;

/// The text holds no path separator.
pub open spec fn no_separator(text: Seq<char>) -> bool {
    forall|i: int| 0 <= i < text.len() ==> text[i] != '/' && text[i] != '\\'
}

/// Calls `Path::file_name`. The contract names the component that it gives.
#[verifier::external_body]
pub(crate) fn file_name(path: &str) -> (name: Option<String>)
    ensures
        path_file_name(path@) == match name {
            Some(n) => Some(n@),
            None => None,
        },
{
    std::path::Path::new(path).file_name().map(|n| n.to_string_lossy().into_owned())
}

/// Calls `Path::with_file_name`. The contract names the path that it gives.
#[verifier::external_body]
pub(crate) fn with_file_name(path: &str, name: &str) -> (r: String)
    ensures
        r@ == path_with_file_name(path@, name@),
{
    std::path::Path::new(path).with_file_name(name).to_string_lossy().into_owned()
}

/// Calls `Path::with_extension`, which panics on an extension that holds a
/// path separator. The contract names the path that it gives.
#[verifier::external_body]
pub(crate) fn with_extension(path: &str, extension: &str) -> (r: String)
    requires
        no_separator(extension@),
    ensures
        r@ == path_with_extension(path@, extension@),
{
    std::path::Path::new(path).with_extension(extension).to_string_lossy().into_owned()
}

/// Calls `Path::join`. The contract names the path that it gives.
#[verifier::external_body]
pub(crate) fn join(base: &str, rel: &str) -> (r: String)
    ensures
        r@ == path_joined(base@, rel@),
{
    std::path::Path::new(base).join(rel).to_string_lossy().into_owned()
}

/// Calls `Path::parent`. The contract names the path that it gives.
#[verifier::external_body]
pub(crate) fn parent(path: &str) -> (dir: Option<String>)
    ensures
        path_parent(path@) == match dir {
            Some(d) => Some(d@),
            None => None,
        },
{
    std::path::Path::new(path).parent().map(|d| d.to_string_lossy().into_owned())
}

/// Calls `Path::starts_with`. The contract names its answer.
#[verifier::external_body]
pub(crate) fn starts_with(path: &str, base: &str) -> (r: bool)
    ensures
        r == path_starts_with(path@, base@),
{
    std::path::Path::new(path).starts_with(base)
}

/// The pieces of the text between its colons, in order: one piece more
/// than there are colons, the empty text being one empty piece.
pub open spec fn colon_parts(text: Seq<char>) -> Seq<Seq<char>>
    decreases text.len(),
{
    if text.len() == 0 {
        seq![Seq::empty()]
    } else {
        let before = colon_parts(text.drop_last());
        if text.last() == ':' {
            before.push(Seq::empty())
        } else {
            before.drop_last().push(before.last().push(text.last()))
        }
    }
}

/// Splits the text at its colons.
pub fn split_colon(text: &str) -> (parts: Vec<String>)
    ensures
        crate::text::texts(parts@) == colon_parts(text@),
{
    broadcast use vstd::string::group_string_axioms;

    let n = text.unicode_len();
    let mut parts: Vec<String> = Vec::new();
    let mut start: usize = 0;
    let mut i: usize = 0;
    proof {
        assert(text@.take(0) =~= Seq::<char>::empty());
        assert(crate::text::texts(parts@).push(text@.subrange(0, 0)) =~= seq![Seq::<char>::empty()]);
    }
    for c in it: text.chars()
        invariant
            it.seq() == text@,
            n == text@.len(),
            i == it.index(),
            start <= i <= n,
            colon_parts(text@.take(i as int)) == crate::text::texts(parts@).push(
                text@.subrange(start as int, i as int),
            ),
    {
        let ghost done = crate::text::texts(parts@);
        let ghost piece = text@.subrange(start as int, i as int);
        proof {
            let next = text@.take(i + 1);
            assert(next.drop_last() =~= text@.take(i as int));
            assert(next.last() == c);
            assert(done.push(piece).drop_last() =~= done);
            assert(done.push(piece).last() == piece);
        }
        if c == ':' {
            let ghost before = parts@;
            parts.push(text.substring_char(start, i).to_owned());
            start = i + 1;
            proof {
                assert(crate::text::texts(parts@) =~= done.push(piece));
                assert(text@.subrange(start as int, i + 1) =~= Seq::<char>::empty());
            }
        } else {
            proof {
                assert(text@.subrange(start as int, i + 1) =~= piece.push(c));
            }
        }
        i += 1;
    }
    let ghost done = crate::text::texts(parts@);
    parts.push(text.substring_char(start, i).to_owned());
    proof {
        assert(text@.take(i as int) =~= text@);
        assert(crate::text::texts(parts@) =~= done.push(text@.subrange(start as int, i as int)));
    }
    parts
}

/// Whether the text holds no path separator.
pub fn has_no_separator(text: &str) -> (r: bool)
    ensures
        r == no_separator(text@),
{
    broadcast use vstd::string::group_string_axioms;

    for c in it: text.chars()
        invariant
            it.seq() == text@,
            forall|j: int| 0 <= j < it.index() ==> text@[j] != '/' && text@[j] != '\\',
    {
        if c == '/' || c == '\\' {
            assert(text@[it.index() as int] == c);
            return false;
        }
    }
    true
}

} // verus!
