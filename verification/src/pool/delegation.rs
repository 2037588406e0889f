use crate::accounting::data_delta::Record;
use crate::id::{PoolId, PublicKey};
use vstd::prelude::*;

verus! {

/// The record of a delegation: the pool that it delegates to, and who may spend from it.
#[derive(Clone, Copy, Debug, PartialEq, Eq)]
pub struct DelegationData {
    pub source_pool: PoolId,
    pub spend_public_key: PublicKey,
}

impl DelegationData {
    /// The record of a delegation to `source_pool` that `spend_public_key` may spend from.
    pub fn new(source_pool: PoolId, spend_public_key: PublicKey) -> (data: DelegationData)
        ensures
            data == (DelegationData { source_pool, spend_public_key }),
    {
        DelegationData { source_pool, spend_public_key }
    }

    /// The pool that the delegation delegates to.
    pub fn source_pool(&self) -> (pool_id: PoolId)
        ensures
            pool_id == self.source_pool,
    {
        self.source_pool
    }

    /// The key that may spend from the delegation.
    pub fn spend_public_key(&self) -> (key: PublicKey)
        ensures
            key == self.spend_public_key,
    {
        self.spend_public_key
    }
}

impl Record for DelegationData {
    fn same(&self, other: &Self) -> (b: bool) {
        self.source_pool.0 == other.source_pool.0 && self.source_pool.1 == other.source_pool.1
            && self.spend_public_key == other.spend_public_key
    }
}

} // verus!
