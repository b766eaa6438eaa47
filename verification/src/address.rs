//! Account addresses.

use vstd::prelude::*;

verus! {

/// An account address: a 160-bit identifier as used on the settlement chain,
/// held as a 32-bit high part and a 128-bit low part.
#[derive(Clone, Copy, Debug, PartialEq, Eq, Structural, Hash)]
pub struct Address {
    pub hi: u32,
    pub lo: u128,
}

impl Address {
    /// Strict order on addresses: the order of the 160-bit values.
    /// The account map is kept sorted by this order, which makes its
    /// serialization canonical.
    pub open spec fn lt(self, other: Address) -> bool {
        self.hi < other.hi || (self.hi == other.hi && self.lo < other.lo)
    }

    /// Executable comparison, equal to the specification order.
    pub fn is_lt(&self, other: &Address) -> (r: bool)
        ensures
            r == self.lt(*other),
    {
        self.hi < other.hi || (self.hi == other.hi && self.lo < other.lo)
    }
}

/// The address order is a strict total order: irreflexive, transitive, and
/// any two distinct addresses are ordered.
pub proof fn lemma_address_order_total(a: Address, b: Address, c: Address)
    ensures
        !a.lt(a),
        a.lt(b) && b.lt(c) ==> a.lt(c),
        a != b ==> a.lt(b) || b.lt(a),
{
}

} // verus!
