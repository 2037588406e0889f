//! The five collections of a store as places that a merge reads and writes.
use crate::amount::Amount;
use crate::error::StorageError;
use crate::id::{DelegationId, PoolId};
use crate::key::value_at;
use crate::pool::delegation::DelegationData;
use crate::pool::pool_data::PoolData;
use crate::storage::{shares_of_pool, PoSAccountingStorageWrite, StorageModel};
use vstd::prelude::*;

verus! {

/// One of the five collections of a store, as the place that a merge reads and writes.
pub trait StoreSlot<S: PoSAccountingStorageWrite, K, V> {
    /// The collection, taken out of what the store holds.
    spec fn part(model: StorageModel) -> Map<K, V>;

    /// What the store holds, with the collection replaced.
    spec fn with_part(model: StorageModel, part: Map<K, V>) -> StorageModel;

    /// Replacing the collection changes that collection and nothing else.
    proof fn lemma_slot(model: StorageModel, first: Map<K, V>, second: Map<K, V>)
        ensures
            Self::part(Self::with_part(model, first)) == first,
            Self::with_part(Self::with_part(model, first), second) == Self::with_part(
                model,
                second,
            ),
            Self::with_part(model, Self::part(model)) == model,
    ;

    fn read(store: &S, key: K) -> (r: Result<Option<V>, StorageError>)
        ensures
            store.reliable() ==> r is Ok,
            r matches Ok(value) ==> value == Self::part(store.model()).get(key),
    ;

    /// Sets the entry of `key` to `value`, or removes it where `value` is none.
    fn write(store: &mut S, key: K, value: Option<V>) -> (r: Result<(), StorageError>)
        ensures
            final(store).reliable() == old(store).reliable(),
            old(store).reliable() ==> r is Ok,
            r is Ok ==> final(store).model() == Self::with_part(
                old(store).model(),
                match value {
                    Some(v) => Self::part(old(store).model()).insert(key, v),
                    None => Self::part(old(store).model()).remove(key),
                },
            ),
    ;
}

/// The records of the pools.
pub struct PoolDataSlot;

/// The balances of the pools.
pub struct PoolBalanceSlot;

/// The shares of the delegations in the pools.
pub struct PoolDelegationShareSlot;

/// The balances of the delegations.
pub struct DelegationBalanceSlot;

/// The records of the delegations.
pub struct DelegationDataSlot;

impl<S: PoSAccountingStorageWrite> StoreSlot<S, PoolId, PoolData> for PoolDataSlot {
    open spec fn part(model: StorageModel) -> Map<PoolId, PoolData> {
        model.pool_data
    }

    open spec fn with_part(model: StorageModel, part: Map<PoolId, PoolData>) -> StorageModel {
        StorageModel { pool_data: part, ..model }
    }

    proof fn lemma_slot(
        model: StorageModel,
        first: Map<PoolId, PoolData>,
        second: Map<PoolId, PoolData>,
    ) {
    }

    fn read(store: &S, key: PoolId) -> (r: Result<Option<PoolData>, StorageError>) {
        store.get_pool_data(key)
    }

    fn write(store: &mut S, key: PoolId, value: Option<PoolData>) -> (r: Result<(), StorageError>) {
        match value {
            Some(data) => store.set_pool_data(key, &data),
            None => store.del_pool_data(key),
        }
    }
}

impl<S: PoSAccountingStorageWrite> StoreSlot<S, PoolId, Amount> for PoolBalanceSlot {
    open spec fn part(model: StorageModel) -> Map<PoolId, Amount> {
        model.pool_balances
    }

    open spec fn with_part(model: StorageModel, part: Map<PoolId, Amount>) -> StorageModel {
        StorageModel { pool_balances: part, ..model }
    }

    proof fn lemma_slot(
        model: StorageModel,
        first: Map<PoolId, Amount>,
        second: Map<PoolId, Amount>,
    ) {
    }

    fn read(store: &S, key: PoolId) -> (r: Result<Option<Amount>, StorageError>) {
        store.get_pool_address_balance(key)
    }

    fn write(store: &mut S, key: PoolId, value: Option<Amount>) -> (r: Result<(), StorageError>) {
        match value {
            Some(amount) => store.set_pool_address_balance(key, amount),
            None => store.del_pool(key),
        }
    }
}

impl<S: PoSAccountingStorageWrite> StoreSlot<
    S,
    (PoolId, DelegationId),
    Amount,
> for PoolDelegationShareSlot {
    open spec fn part(model: StorageModel) -> Map<(PoolId, DelegationId), Amount> {
        model.pool_delegation_shares
    }

    open spec fn with_part(
        model: StorageModel,
        part: Map<(PoolId, DelegationId), Amount>,
    ) -> StorageModel {
        StorageModel { pool_delegation_shares: part, ..model }
    }

    proof fn lemma_slot(
        model: StorageModel,
        first: Map<(PoolId, DelegationId), Amount>,
        second: Map<(PoolId, DelegationId), Amount>,
    ) {
    }

    fn read(store: &S, key: (PoolId, DelegationId)) -> (r: Result<Option<Amount>, StorageError>) {
        let ghost all = store.model().pool_delegation_shares;
        proof {
            assert(key == (key.0, key.1));
            assert(shares_of_pool(all, key.0).get(key.1) == all.get(key));
        }
        match store.get_pool_delegation_shares(key.0) {
            Ok(Some(shares)) => Ok(value_at(&shares, key.1)),
            Ok(None) => Ok(None),
            Err(e) => Err(e),
        }
    }

    fn write(store: &mut S, key: (PoolId, DelegationId), value: Option<Amount>) -> (r: Result<
        (),
        StorageError,
    >) {
        match value {
            Some(amount) => store.set_pool_delegation_shares(key.0, key.1, amount),
            None => store.del_pool_delegation_shares(key.0, key.1),
        }
    }
}

impl<S: PoSAccountingStorageWrite> StoreSlot<S, DelegationId, Amount> for DelegationBalanceSlot {
    open spec fn part(model: StorageModel) -> Map<DelegationId, Amount> {
        model.delegation_balances
    }

    open spec fn with_part(model: StorageModel, part: Map<DelegationId, Amount>) -> StorageModel {
        StorageModel { delegation_balances: part, ..model }
    }

    proof fn lemma_slot(
        model: StorageModel,
        first: Map<DelegationId, Amount>,
        second: Map<DelegationId, Amount>,
    ) {
    }

    fn read(store: &S, key: DelegationId) -> (r: Result<Option<Amount>, StorageError>) {
        store.get_delegation_address_balance(key)
    }

    fn write(store: &mut S, key: DelegationId, value: Option<Amount>) -> (r: Result<
        (),
        StorageError,
    >) {
        match value {
            Some(amount) => store.set_delegation_address_balance(key, amount),
            None => store.del_delegation_address_balance(key),
        }
    }
}

impl<S: PoSAccountingStorageWrite> StoreSlot<S, DelegationId, DelegationData> for DelegationDataSlot {
    open spec fn part(model: StorageModel) -> Map<DelegationId, DelegationData> {
        model.delegation_data
    }

    open spec fn with_part(
        model: StorageModel,
        part: Map<DelegationId, DelegationData>,
    ) -> StorageModel {
        StorageModel { delegation_data: part, ..model }
    }

    proof fn lemma_slot(
        model: StorageModel,
        first: Map<DelegationId, DelegationData>,
        second: Map<DelegationId, DelegationData>,
    ) {
    }

    fn read(store: &S, key: DelegationId) -> (r: Result<Option<DelegationData>, StorageError>) {
        store.get_delegation_address_data(key)
    }

    fn write(store: &mut S, key: DelegationId, value: Option<DelegationData>) -> (r: Result<
        (),
        StorageError,
    >) {
        match value {
            Some(data) => store.set_delegation_address_data(
                key,
                data.source_pool,
                &data.spend_public_key,
            ),
            None => store.del_delegation_address_data(key),
        }
    }
}

} // verus!
