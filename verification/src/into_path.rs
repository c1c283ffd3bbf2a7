//! What can be taken for a path.

use vstd::prelude::*;

verus! {

/// A value that can be turned into the text of a path.
pub trait IntoPath {
    /// The text of the path that the value turns into.
    spec fn path_text(&self) -> Seq<char>;

    fn into_path(self) -> (p: String)
        ensures
            p@ == self.path_text(),
    ;
}

impl<'a> IntoPath for &'a str {
    open spec fn path_text(&self) -> Seq<char> {
        self@
    }

    fn into_path(self) -> (p: String) {
        self.to_owned()
    }
}

impl IntoPath for String {
    open spec fn path_text(&self) -> Seq<char> {
        self@
    }

    fn into_path(self) -> (p: String) {
        self
    }
}

} // verus!
