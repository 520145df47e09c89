//! Identifiers: 32-byte hashes that name messages, transactions and
//! addresses.
use vstd::prelude::*;
use vstd::std_specs::cmp::PartialEqSpecImpl;

verus! {

/// Whether two 32-byte hashes hold the same bytes.
pub fn same_bytes(a: &[u8; 32], b: &[u8; 32]) -> (r: bool)
    ensures
        r == (*a == *b),
{
    let mut i: usize = 0;
    while i < 32
        invariant
            i <= 32,
            forall|j: int| 0 <= j < i ==> a[j] == b[j],
        decreases 32 - i,
    {
        if a[i] != b[i] {
            return false;
        }
        i += 1;
    }
    assert(*a =~= *b);
    true
}

/// The identifier of a message: a 32-byte hash.
#[derive(Clone, Copy, Debug, Eq, Hash)]
pub struct MessageId(pub [u8; 32]);

impl PartialEq for MessageId {
    fn eq(&self, other: &Self) -> (r: bool) {
        same_bytes(&self.0, &other.0)
    }
}

impl PartialEqSpecImpl for MessageId {
    open spec fn obeys_eq_spec() -> bool {
        true
    }

    open spec fn eq_spec(&self, other: &Self) -> bool {
        *self == *other
    }
}

/// The identifier of a transaction: a 32-byte hash.
#[derive(Clone, Copy, Debug, PartialEq, Eq, Hash)]
pub struct TransactionId(pub [u8; 32]);

/// An Ed25519 address: a 32-byte hash of a public key.
#[derive(Clone, Copy, Debug, PartialEq, Eq, Hash)]
pub struct Ed25519Address(pub [u8; 32]);

} // verus!
