//! Parsed forms of personal-name entries.
use vstd::prelude::*;

verus! {

/// The shape of a parsed name.
pub enum NameFmt {
    /// A name given as one part.
    Single(String),
    /// A name given as two parts (surname and given names).
    TwoPart(String, String),
    /// No name.
    Empty,
}

/// A parsed name entry, with the year that followed it, if any.
pub struct NameEntry {
    pub name: NameFmt,
    pub year: Option<String>,
}

impl From<(NameFmt, String)> for NameEntry {
    fn from(t: (NameFmt, String)) -> (e: NameEntry)
        ensures
            e == (NameEntry { name: t.0, year: Some(t.1) }),
    {
        let (name, year) = t;
        NameEntry { name, year: Some(year) }
    }
}

impl vstd::std_specs::convert::FromSpecImpl<(NameFmt, String)> for NameEntry {
    open spec fn obeys_from_spec() -> bool {
        true
    }

    open spec fn from_spec(t: (NameFmt, String)) -> NameEntry {
        NameEntry { name: t.0, year: Some(t.1) }
    }
}

impl From<NameFmt> for NameEntry {
    fn from(name: NameFmt) -> (e: NameEntry)
        ensures
            e == (NameEntry { name, year: None }),
    {
        NameEntry { name, year: None }
    }
}

impl vstd::std_specs::convert::FromSpecImpl<NameFmt> for NameEntry {
    open spec fn obeys_from_spec() -> bool {
        true
    }

    open spec fn from_spec(name: NameFmt) -> NameEntry {
        NameEntry { name, year: None }
    }
}

} // verus!
