//! What the accounting layers need from the store underneath them.
use crate::amount::Amount;
use crate::error::StorageError;
use crate::id::{PublicKey, H256};
use crate::pool::delegation::DelegationData;
use crate::pool::pool_data::PoolData;
use std::collections::BTreeMap;
use vstd::prelude::*;

pub mod in_memory;

verus! {

/// The mathematical content of a store: what it holds for each key.
pub struct StorageModel {
    pub pool_data: Map<H256, PoolData>,
    pub pool_balances: Map<H256, Amount>,
    pub pool_delegation_shares: Map<(H256, H256), Amount>,
    pub delegation_balances: Map<H256, Amount>,
    pub delegation_data: Map<H256, DelegationData>,
}

/// The shares in one pool, by delegation.
pub open spec fn shares_of_pool<V>(shares: Map<(H256, H256), V>, pool_id: H256) -> Map<H256, V> {
    Map::new(|d: H256| shares.contains_key((pool_id, d)), |d: H256| shares[(pool_id, d)])
}

/// The map that a read of the shares of a pool stands for: no map stands for no shares.
pub open spec fn shares_read<V>(shares: Option<BTreeMap<H256, V>>) -> Map<H256, V> {
    match shares {
        Some(map) => map@,
        None => Map::empty(),
    }
}

impl StorageModel {
    /// The content of a store that holds nothing.
    pub open spec fn empty() -> StorageModel {
        StorageModel {
            pool_data: Map::empty(),
            pool_balances: Map::empty(),
            pool_delegation_shares: Map::empty(),
            delegation_balances: Map::empty(),
            delegation_data: Map::empty(),
        }
    }
}

/// Reads of the store. A read may fail, unless the store is one that never fails; a read
/// that succeeds returns what the store holds.
pub trait PoSAccountingStorageRead {
    /// What the store holds. A store that does not say holds some content or other.
    open spec fn model(&self) -> StorageModel {
        arbitrary()
    }

    /// True of a store whose reads and writes never fail. A store that does not say is not
    /// taken to be one.
    open spec fn reliable(&self) -> bool {
        false
    }

    /// The record of a pool, if the store holds one.
    fn get_pool_data(&self, pool_id: H256) -> (r: Result<Option<PoolData>, StorageError>)
        ensures
            self.reliable() ==> r is Ok,
            r matches Ok(data) ==> data == self.model().pool_data.get(pool_id),
    ;

    /// The balance of a pool, if the store holds one.
    fn get_pool_address_balance(&self, pool_id: H256) -> (r: Result<Option<Amount>, StorageError>)
        ensures
            self.reliable() ==> r is Ok,
            r matches Ok(balance) ==> balance == self.model().pool_balances.get(pool_id),
    ;

    /// The shares in a pool, by delegation. No map, or an empty one, stands for no shares.
    fn get_pool_delegation_shares(&self, pool_id: H256) -> (r: Result<
        Option<BTreeMap<H256, Amount>>,
        StorageError,
    >)
        ensures
            self.reliable() ==> r is Ok,
            r matches Ok(shares) ==> shares_read(shares) == shares_of_pool(
                self.model().pool_delegation_shares,
                pool_id,
            ),
    ;

    /// The record of a delegation, if the store holds one.
    fn get_delegation_address_data(&self, delegation_address: H256) -> (r: Result<
        Option<DelegationData>,
        StorageError,
    >)
        ensures
            self.reliable() ==> r is Ok,
            r matches Ok(data) ==> data == self.model().delegation_data.get(delegation_address),
    ;

    /// The balance of a delegation, if the store holds one.
    fn get_delegation_address_balance(&self, delegation_address: H256) -> (r: Result<
        Option<Amount>,
        StorageError,
    >)
        ensures
            self.reliable() ==> r is Ok,
            r matches Ok(balance) ==> balance == self.model().delegation_balances.get(
                delegation_address,
            ),
    ;
}

/// Writes to the store. A write may fail, unless the store is one that never fails; a write
/// that succeeds changes the one entry that it names and nothing else.
pub trait PoSAccountingStorageWrite: PoSAccountingStorageRead {
    /// Sets the record of a pool.
    fn set_pool_data(&mut self, pool_id: H256, pool_data: &PoolData) -> (r: Result<
        (),
        StorageError,
    >)
        ensures
            final(self).reliable() == old(self).reliable(),
            old(self).reliable() ==> r is Ok,
            r is Ok ==> final(self).model() == (StorageModel {
                pool_data: old(self).model().pool_data.insert(pool_id, *pool_data),
                ..old(self).model()
            }),
    ;

    /// Removes the record of a pool.
    fn del_pool_data(&mut self, pool_id: H256) -> (r: Result<(), StorageError>)
        ensures
            final(self).reliable() == old(self).reliable(),
            old(self).reliable() ==> r is Ok,
            r is Ok ==> final(self).model() == (StorageModel {
                pool_data: old(self).model().pool_data.remove(pool_id),
                ..old(self).model()
            }),
    ;

    /// Sets the balance of a pool.
    fn set_pool_address_balance(&mut self, pool_id: H256, amount: Amount) -> (r: Result<
        (),
        StorageError,
    >)
        ensures
            final(self).reliable() == old(self).reliable(),
            old(self).reliable() ==> r is Ok,
            r is Ok ==> final(self).model() == (StorageModel {
                pool_balances: old(self).model().pool_balances.insert(pool_id, amount),
                ..old(self).model()
            }),
    ;

    /// Removes the balance of the pool.
    fn del_pool(&mut self, pool_id: H256) -> (r: Result<(), StorageError>)
        ensures
            final(self).reliable() == old(self).reliable(),
            old(self).reliable() ==> r is Ok,
            r is Ok ==> final(self).model() == (StorageModel {
                pool_balances: old(self).model().pool_balances.remove(pool_id),
                ..old(self).model()
            }),
    ;

    /// Sets the balance of a delegation.
    fn set_delegation_address_balance(&mut self, delegation_target: H256, amount: Amount) -> (r:
        Result<(), StorageError>)
        ensures
            final(self).reliable() == old(self).reliable(),
            old(self).reliable() ==> r is Ok,
            r is Ok ==> final(self).model() == (StorageModel {
                delegation_balances: old(self).model().delegation_balances.insert(
                    delegation_target,
                    amount,
                ),
                ..old(self).model()
            }),
    ;

    /// Removes the balance of a delegation.
    fn del_delegation_address_balance(&mut self, delegation_target: H256) -> (r: Result<
        (),
        StorageError,
    >)
        ensures
            final(self).reliable() == old(self).reliable(),
            old(self).reliable() ==> r is Ok,
            r is Ok ==> final(self).model() == (StorageModel {
                delegation_balances: old(self).model().delegation_balances.remove(
                    delegation_target,
                ),
                ..old(self).model()
            }),
    ;

    /// Sets the share of a delegation in a pool.
    fn set_pool_delegation_shares(
        &mut self,
        pool_id: H256,
        delegation_address: H256,
        amount: Amount,
    ) -> (r: Result<(), StorageError>)
        ensures
            final(self).reliable() == old(self).reliable(),
            old(self).reliable() ==> r is Ok,
            r is Ok ==> final(self).model() == (StorageModel {
                pool_delegation_shares: old(self).model().pool_delegation_shares.insert(
                    (pool_id, delegation_address),
                    amount,
                ),
                ..old(self).model()
            }),
    ;

    /// Removes the share of a delegation in a pool.
    fn del_pool_delegation_shares(&mut self, pool_id: H256, delegation_address: H256) -> (r:
        Result<(), StorageError>)
        ensures
            final(self).reliable() == old(self).reliable(),
            old(self).reliable() ==> r is Ok,
            r is Ok ==> final(self).model() == (StorageModel {
                pool_delegation_shares: old(self).model().pool_delegation_shares.remove(
                    (pool_id, delegation_address),
                ),
                ..old(self).model()
            }),
    ;

    /// Sets the record of a delegation to one with the given pool and key.
    fn set_delegation_address_data(
        &mut self,
        delegation_address: H256,
        source_pool: H256,
        public_key: &PublicKey,
    ) -> (r: Result<(), StorageError>)
        ensures
            final(self).reliable() == old(self).reliable(),
            old(self).reliable() ==> r is Ok,
            r is Ok ==> final(self).model() == (StorageModel {
                delegation_data: old(self).model().delegation_data.insert(
                    delegation_address,
                    DelegationData { source_pool, spend_public_key: *public_key },
                ),
                ..old(self).model()
            }),
    ;

    /// Removes the record of a delegation.
    fn del_delegation_address_data(&mut self, delegation_address: H256) -> (r: Result<
        (),
        StorageError,
    >)
        ensures
            final(self).reliable() == old(self).reliable(),
            old(self).reliable() ==> r is Ok,
            r is Ok ==> final(self).model() == (StorageModel {
                delegation_data: old(self).model().delegation_data.remove(delegation_address),
                ..old(self).model()
            }),
    ;
}

} // verus!
