use vstd::prelude::*;

verus! {

/// A 256-bit identifier: its high and its low 128 bits, ordered as one big-endian number.
pub type H256 = (u128, u128);

/// Identifies a stake pool.
pub type PoolId = H256;

/// Identifies a delegation.
pub type DelegationId = H256;

/// A public key, carried as the 256 bits of its compressed encoding.
#[derive(Clone, Copy, Debug, PartialEq, Eq, Structural)]
pub struct PublicKey {
    pub high: u128,
    pub low: u128,
}

impl PublicKey {
    /// The key whose encoding is `high` followed by `low`.
    pub fn new(high: u128, low: u128) -> (key: PublicKey)
        ensures
            key.high == high,
            key.low == low,
    {
        PublicKey { high, low }
    }
}

/// The identifier whose 256 bits are zero but for the low 64, which are `low`.
pub fn h256_from_low_u64(low: u64) -> (id: H256)
    ensures
        id.0 == 0,
        id.1 == low,
{
    (0u128, low as u128)
}

} // verus!
