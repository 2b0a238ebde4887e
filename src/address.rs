use vstd::prelude::*;

verus! {

broadcast use vstd::array::group_array_axioms;

/// The 32-byte public key of a participant's wallet.
#[derive(Clone, Copy, Debug)]
pub struct Address {
    pub bytes: [u8; 32],
}

impl Address {
    pub fn new(bytes: [u8; 32]) -> (r: Address)
        ensures
            r.bytes == bytes,
    {
        Address { bytes }
    }

    /// Compares the two keys byte by byte.
    pub fn same(&self, other: &Address) -> (r: bool)
        ensures
            r == (*self == *other),
    {
        let mut i: usize = 0;
        while i < 32
            invariant
                0 <= i <= 32,
                forall|j: int| 0 <= j < i ==> self.bytes[j] == other.bytes[j],
            decreases 32 - i,
        {
            if self.bytes[i] != other.bytes[i] {
                return false;
            }
            i = i + 1;
        }
        assert(self.bytes =~= other.bytes);
        true
    }
}

impl PartialEq for Address {
    fn eq(&self, other: &Address) -> (r: bool) {
        self.same(other)
    }
}

impl vstd::std_specs::cmp::PartialEqSpecImpl for Address {
    open spec fn obeys_eq_spec() -> bool {
        true
    }

    open spec fn eq_spec(&self, other: &Address) -> bool {
        *self == *other
    }
}

impl Eq for Address {
}

/// Who may move tokens out of a custodial account.
///
/// A wallet signs with its key; an intent's vault and the treasury sign for
/// themselves, through the program's own authority over those records.
#[derive(Clone, Copy, Debug)]
pub enum Authority {
    Wallet(Address),
    Intent(u64),
    Treasury,
}

impl Authority {
    pub fn same(&self, other: &Authority) -> (r: bool)
        ensures
            r == (*self == *other),
    {
        match (self, other) {
            (Authority::Wallet(a), Authority::Wallet(b)) => a.same(b),
            (Authority::Intent(a), Authority::Intent(b)) => *a == *b,
            (Authority::Treasury, Authority::Treasury) => true,
            _ => false,
        }
    }
}

impl PartialEq for Authority {
    fn eq(&self, other: &Authority) -> (r: bool) {
        self.same(other)
    }
}

impl vstd::std_specs::cmp::PartialEqSpecImpl for Authority {
    open spec fn obeys_eq_spec() -> bool {
        true
    }

    open spec fn eq_spec(&self, other: &Authority) -> bool {
        *self == *other
    }
}

impl Eq for Authority {
}

} // verus!
