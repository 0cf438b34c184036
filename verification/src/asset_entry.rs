//! The normalized identifier of a tracked asset, such as `osmo>usdc`: a
//! case-folded string that keys the registry and names graph nodes.
use vstd::prelude::*;

use crate::strutil::{lower_chars, str_eq, str_lt, to_ascii_lower, lex_lt};

verus! {

#[derive(Debug)]
pub struct AssetEntry(pub String);

impl View for AssetEntry {
    type V = Seq<char>;

    open spec fn view(&self) -> Seq<char> {
        self.0@
    }
}

impl AssetEntry {
    /// Case-folds the given identifier.
    pub fn new(entry: &str) -> (r: Self)
        ensures
            r@ == lower_chars(entry@),
    {
        AssetEntry(to_ascii_lower(entry))
    }

    /// Takes an already owned identifier, case-folding it.
    pub fn from_string(entry: String) -> (r: Self)
        ensures
            r@ == lower_chars(entry@),
    {
        AssetEntry(to_ascii_lower(entry.as_str()))
    }

    /// Wraps a string that is already normalized, unchanged.
    pub fn raw(entry: String) -> (r: Self)
        ensures
            r@ == entry@,
    {
        AssetEntry(entry)
    }

    pub fn as_str(&self) -> (r: &str)
        ensures
            r@ == self@,
    {
        self.0.as_str()
    }

    /// Strict lexicographic order of two identifiers.
    pub fn lt(&self, other: &AssetEntry) -> (r: bool)
        ensures
            r == lex_lt(self@, other@),
    {
        str_lt(self.0.as_str(), other.0.as_str())
    }
}

impl Clone for AssetEntry {
    fn clone(&self) -> (r: Self)
        ensures
            r@ == self@,
    {
        AssetEntry(self.0.clone())
    }
}

impl PartialEq for AssetEntry {
    fn eq(&self, other: &Self) -> (r: bool) {
        str_eq(self.0.as_str(), other.0.as_str())
    }
}

impl vstd::std_specs::cmp::PartialEqSpecImpl for AssetEntry {
    open spec fn obeys_eq_spec() -> bool {
        true
    }

    open spec fn eq_spec(&self, other: &Self) -> bool {
        self@ == other@
    }
}

impl Eq for AssetEntry {

}

} // verus!
