//! Principals: the accounts and contracts that own, call and are paid.

use vstd::prelude::*;

verus! {

/// An account or contract, known by its textual key.
///
/// Two addresses name the same principal exactly when their keys hold the
/// same characters; the view of an address is that sequence of characters.
#[derive(Debug, Eq)]
pub struct Address {
    pub key: String,
}

impl View for Address {
    type V = Seq<char>;

    open spec fn view(&self) -> Seq<char> {
        self.key@
    }
}

impl PartialEq for Address {
    fn eq(&self, other: &Self) -> (same: bool) {
        self.key == other.key
    }
}

impl vstd::std_specs::cmp::PartialEqSpecImpl for Address {
    open spec fn obeys_eq_spec() -> bool {
        true
    }

    open spec fn eq_spec(&self, other: &Self) -> bool {
        self@ == other@
    }
}

impl Clone for Address {
    fn clone(&self) -> (copy: Self)
        ensures
            copy == *self,
    {
        Address { key: self.key.clone() }
    }
}

impl crate::assoc::Keyed for Address {
    type Key = Seq<char>;

    open spec fn key(&self) -> Seq<char> {
        self@
    }

    fn same_key(&self, other: &Self) -> (same: bool) {
        self.key == other.key
    }
}

impl Address {
    /// The address with the given key.
    pub fn new(key: &str) -> (address: Self)
        ensures
            address@ == key@,
    {
        Address { key: key.to_owned() }
    }
}

} // verus!
