//! Principals: the opaque 32-byte identifiers of acting parties.

use vstd::array::*;
use vstd::prelude::*;

verus! {

broadcast use group_array_axioms;

/// The identifier of an account or contract that acts on the ledger.
#[derive(Clone, Copy, Debug, Eq)]
pub struct Principal {
    pub bytes: [u8; 32],
}

impl Principal {
    /// The principal with the given bytes.
    pub fn new(bytes: [u8; 32]) -> (r: Principal)
        ensures
            r.bytes == bytes,
    {
        Principal { bytes }
    }

    /// Whether every byte is zero: the zero address, which no party holds.
    pub open spec fn is_zero_spec(self) -> bool {
        forall|i: int| 0 <= i < 32 ==> self.bytes@[i] == 0
    }

    /// Whether this is the zero address.
    pub fn is_zero(&self) -> (r: bool)
        ensures
            r == self.is_zero_spec(),
    {
        let mut i: usize = 0;
        while i < 32
            invariant
                0 <= i <= 32,
                forall|j: int| 0 <= j < i ==> self.bytes@[j] == 0,
            decreases 32 - i,
        {
            if self.bytes[i] != 0 {
                return false;
            }
            i = i + 1;
        }
        true
    }

    /// Whether two principals are the same party.
    pub fn same(&self, other: &Principal) -> (r: bool)
        ensures
            r == (*self == *other),
    {
        let mut i: usize = 0;
        while i < 32
            invariant
                0 <= i <= 32,
                forall|j: int| 0 <= j < i ==> self.bytes@[j] == other.bytes@[j],
            decreases 32 - i,
        {
            if self.bytes[i] != other.bytes[i] {
                return false;
            }
            i = i + 1;
        }
        assert(self.bytes =~= other.bytes);
        true
    }
}

impl PartialEq for Principal {
    fn eq(&self, other: &Principal) -> (r: bool) {
        self.same(other)
    }
}

impl vstd::std_specs::cmp::PartialEqSpecImpl for Principal {
    open spec fn obeys_eq_spec() -> bool {
        true
    }

    open spec fn eq_spec(&self, other: &Principal) -> bool {
        *self == *other
    }
}

} // verus!
