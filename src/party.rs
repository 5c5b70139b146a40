use vstd::prelude::*;

verus! {

/// An identity taking part in a contract (owner, client, provider,
/// contributor, sender or receiver), known by its address text.
#[derive(Debug)]
pub struct Party {
    address: String,
}

impl View for Party {
    type V = Seq<char>;

    closed spec fn view(&self) -> Seq<char> {
        self.address@
    }
}

impl Party {
    /// The party whose address is `address`.
    pub fn new(address: String) -> (r: Party)
        ensures
            r@ == address@,
    {
        Party { address }
    }

    /// The party's address text.
    pub fn address(&self) -> (r: &String)
        ensures
            r@ == self@,
    {
        &self.address
    }

    /// Whether `self` and `other` are the same identity.
    pub fn same(&self, other: &Party) -> (r: bool)
        ensures
            r == (self@ == other@),
    {
        self.address == other.address
    }
}

impl Clone for Party {
    fn clone(&self) -> (r: Self)
        ensures
            r == *self,
    {
        Party { address: self.address.clone() }
    }
}

impl PartialEq for Party {
    fn eq(&self, other: &Party) -> (r: bool) {
        self.same(other)
    }
}

impl vstd::std_specs::cmp::PartialEqSpecImpl for Party {
    open spec fn obeys_eq_spec() -> bool {
        true
    }

    open spec fn eq_spec(&self, other: &Party) -> bool {
        self@ == other@
    }
}

impl Eq for Party {}

} // verus!
