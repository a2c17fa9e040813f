//! The identity of a party, as the host hands it over.

use vstd::prelude::*;

verus! {

/// An identity, held in the textual form in which the host encodes it. Two
/// addresses name the same party exactly when their texts are equal.
#[derive(Debug, PartialEq, Eq)]
pub struct Address {
    pub key: String,
}

impl View for Address {
    type V = Seq<char>;

    open spec fn view(&self) -> Seq<char> {
        self.key@
    }
}

impl Clone for Address {
    fn clone(&self) -> (r: Self)
        ensures
            r == *self,
    {
        Address { key: self.key.clone() }
    }
}

impl Address {
    /// Wraps the textual form of an identity.
    pub fn new(key: String) -> (r: Address)
        ensures
            r.key == key,
            r@ == key@,
    {
        Address { key }
    }

    /// Whether both addresses name the same party.
    pub fn same(&self, other: &Address) -> (r: bool)
        ensures
            r == (self@ == other@),
    {
        self.key == other.key
    }
}

} // verus!
