//! A dependency as the import list gives it.
use vstd::prelude::*;

verus! {

/// One entry of the import list.
pub struct Entry {
    pub name: String,
    pub version: Option<String>,
    pub authors: Option<String>,
    /// The declared SPDX license expression.
    pub license: Option<String>,
    pub repository: Option<String>,
    pub description: Option<String>,
}

/// The characters of an optional string, when it is there.
pub open spec fn opt_view(o: Option<String>) -> Option<Seq<char>> {
    match o {
        Some(s) => Some(s@),
        None => None,
    }
}

} // verus!
