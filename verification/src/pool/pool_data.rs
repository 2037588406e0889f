use crate::accounting::data_delta::Record;
use crate::amount::Amount;
use crate::id::PublicKey;
use vstd::prelude::*;

verus! {

/// The record of a stake pool: who may decommission it, and what its owner pledged.
#[derive(Clone, Copy, Debug, PartialEq, Eq, Structural)]
pub struct PoolData {
    pub decommission_public_key: PublicKey,
    pub pledge_amount: Amount,
}

impl PoolData {
    /// The record of a pool with the given decommission key and pledge.
    pub fn new(decommission_public_key: PublicKey, pledge_amount: Amount) -> (data: PoolData)
        ensures
            data == (PoolData { decommission_public_key, pledge_amount }),
    {
        PoolData { decommission_public_key, pledge_amount }
    }

    /// The key that may decommission the pool.
    pub fn decommission_key(&self) -> (key: PublicKey)
        ensures
            key == self.decommission_public_key,
    {
        self.decommission_public_key
    }

    /// What the owner of the pool pledged.
    pub fn pledge_amount(&self) -> (amount: Amount)
        ensures
            amount == self.pledge_amount,
    {
        self.pledge_amount
    }
}

impl Record for PoolData {
    fn same(&self, other: &Self) -> (b: bool) {
        *self == *other
    }
}

} // verus!
