//! The bottom layer: the changes applied to the store itself.
use crate::amount::Amount;
use crate::error::Error;
use crate::id::{DelegationId, PoolId};
use crate::key::value_at;
use crate::pool::delegation::DelegationData;
use crate::pool::delta::data::PoSAccountingDeltaData;
use crate::pool::pool_data::PoolData;
use crate::pool::storage::apply::{
    merge_amounts_into_store, merge_records_into_store, restore_in_store, storage_failure,
};
use crate::pool::storage::merge::StoreUndoView;
use crate::pool::storage::slot::{
    DelegationBalanceSlot, DelegationDataSlot, PoolBalanceSlot, PoolDataSlot,
    PoolDelegationShareSlot,
};
use crate::pool::view::PoSAccountingView;
use crate::storage::{
    shares_of_pool, PoSAccountingStorageRead, PoSAccountingStorageWrite, StorageModel,
};
use std::collections::BTreeMap;
use vstd::prelude::*;

pub mod apply;
pub mod merge;
pub mod slot;

verus! {

/// What takes back one merge into the store: for each key that the merge touched, what the
/// store held for it before.
#[derive(Clone, Debug, PartialEq, Eq)]
pub struct StoreMergeUndo {
    pool_data: BTreeMap<PoolId, Option<PoolData>>,
    pool_balances: BTreeMap<PoolId, Option<Amount>>,
    pool_delegation_shares: BTreeMap<(PoolId, DelegationId), Option<Amount>>,
    delegation_balances: BTreeMap<DelegationId, Option<Amount>>,
    delegation_data: BTreeMap<DelegationId, Option<DelegationData>>,
}

impl StoreMergeUndo {
    /// The content of the undo, collection by collection.
    pub closed spec fn view(&self) -> StoreUndoView {
        StoreUndoView {
            pool_data: self.pool_data@,
            pool_balances: self.pool_balances@,
            pool_delegation_shares: self.pool_delegation_shares@,
            delegation_balances: self.delegation_balances@,
            delegation_data: self.delegation_data@,
        }
    }

    /// What the store held as the balance of `pool_id` before the merge: `None` if the merge
    /// did not touch it, `Some(None)` if it touched it and the store held nothing.
    pub fn prior_pool_balance(&self, pool_id: PoolId) -> (prior: Option<Option<Amount>>)
        ensures
            prior == self@.pool_balances.get(pool_id),
    {
        value_at(&self.pool_balances, pool_id)
    }

    /// What the store held as the record of `pool_id` before the merge.
    pub fn prior_pool_data(&self, pool_id: PoolId) -> (prior: Option<Option<PoolData>>)
        ensures
            prior == self@.pool_data.get(pool_id),
    {
        value_at(&self.pool_data, pool_id)
    }

    /// What the store held as the share of `delegation_id` in `pool_id` before the merge.
    pub fn prior_pool_delegation_share(&self, pool_id: PoolId, delegation_id: DelegationId) -> (prior:
        Option<Option<Amount>>)
        ensures
            prior == self@.pool_delegation_shares.get((pool_id, delegation_id)),
    {
        value_at(&self.pool_delegation_shares, (pool_id, delegation_id))
    }

    /// What the store held as the balance of `delegation_id` before the merge.
    pub fn prior_delegation_balance(&self, delegation_id: DelegationId) -> (prior: Option<
        Option<Amount>,
    >)
        ensures
            prior == self@.delegation_balances.get(delegation_id),
    {
        value_at(&self.delegation_balances, delegation_id)
    }

    /// What the store held as the record of `delegation_id` before the merge.
    pub fn prior_delegation_data(&self, delegation_id: DelegationId) -> (prior: Option<
        Option<DelegationData>,
    >)
        ensures
            prior == self@.delegation_data.get(delegation_id),
    {
        value_at(&self.delegation_data, delegation_id)
    }
}

/// The bottom layer: reads come from the store, and a merge writes to it.
pub struct PoSAccountingDB<'a, S> {
    /// The store underneath, borrowed for as long as the layer lives.
    pub store: &'a mut S,
}

impl<'a, S: PoSAccountingStorageRead> PoSAccountingDB<'a, S> {
    /// What the store underneath holds.
    pub open spec fn model(&self) -> StorageModel {
        self.store.model()
    }

    /// True if the store underneath never fails.
    pub open spec fn store_is_reliable(&self) -> bool {
        self.store.reliable()
    }

    /// The bottom layer over `store`.
    pub fn new(store: &'a mut S) -> (db: Self)
        ensures
            *db.store == *old(store),
            *final(store) == *final(db.store),
    {
        Self { store }
    }
}

impl<'a, S: PoSAccountingStorageWrite> PoSAccountingDB<'a, S> {
    /// Applies `other` to the store: the pool records, the delegation records, then the pool
    /// balances, the shares and the delegation balances, each key by key in ascending order.
    ///
    /// For a record, the store has to hold what the transition starts at; it then holds what
    /// the transition ends at. For an amount, the change is added to what the store holds;
    /// the sum has to be an amount, and a sum of zero removes the entry. The merge returns
    /// what [`Self::undo_merge_with_delta`] needs to take it back.
    ///
    /// A merge that can be applied fails only where the store fails, and so never on a store
    /// that never fails. One that cannot fails at the first key that it cannot apply, unless
    /// the store fails before: with [`Error::DeltaDataMismatch`] for a record, and with the
    /// error of the sum for an amount. After a failure the store holds the part of the merge
    /// that was written before it.
    pub fn merge_with_delta(&mut self, other: PoSAccountingDeltaData) -> (r: Result<
        StoreMergeUndo,
        Error,
    >)
        ensures
            old(self).store_is_reliable() && old(self).model().merge_ok(other@) ==> r is Ok,
            r matches Ok(undo) ==> {
                &&& old(self).model().merge_ok(other@)
                &&& final(self).model() == old(self).model().merged(other@)
                &&& undo@ == old(self).model().priors(other@)
            },
            r matches Err(e) ==> {
                ||| !old(self).store_is_reliable() && e is Storage
                ||| e == Error::DeltaDataMismatch && !old(self).model().records_merge_ok(other@)
                ||| e.is_arithmetic() && old(self).model().records_merge_ok(other@) && old(
                    self,
                ).model().amounts_fail_with(other@, e)
            },
            final(self).store_is_reliable() == old(self).store_is_reliable(),
            *final(final(self).store) == *final(old(self).store),
    {
        let pool_data = merge_records_into_store::<S, PoolId, PoolData, PoolDataSlot>(
            self.store,
            &other.pool_data,
        )?;
        let delegation_data = merge_records_into_store::<
            S,
            DelegationId,
            DelegationData,
            DelegationDataSlot,
        >(self.store, &other.delegation_data)?;
        let pool_balances = merge_amounts_into_store::<S, PoolId, PoolBalanceSlot>(
            self.store,
            &other.pool_balances,
        )?;
        let pool_delegation_shares = merge_amounts_into_store::<
            S,
            (PoolId, DelegationId),
            PoolDelegationShareSlot,
        >(self.store, &other.pool_delegation_shares)?;
        let delegation_balances = merge_amounts_into_store::<
            S,
            DelegationId,
            DelegationBalanceSlot,
        >(self.store, &other.delegation_balances)?;
        Ok(
            StoreMergeUndo {
                pool_data,
                pool_balances,
                pool_delegation_shares,
                delegation_balances,
                delegation_data,
            },
        )
    }

    /// Takes back the merge that returned `undo`: each key that the merge touched is set back
    /// to what the store held for it, a value put back and a key that had none removed.
    ///
    /// Fails only where the store fails; the store then holds the part that was written
    /// before the failure.
    pub fn undo_merge_with_delta(&mut self, undo: StoreMergeUndo) -> (r: Result<(), Error>)
        ensures
            old(self).store_is_reliable() ==> r is Ok,
            r is Ok ==> final(self).model() == old(self).model().restored(undo@),
            r matches Err(e) ==> !old(self).store_is_reliable() && e is Storage,
            final(self).store_is_reliable() == old(self).store_is_reliable(),
            *final(final(self).store) == *final(old(self).store),
    {
        restore_in_store::<S, PoolId, PoolData, PoolDataSlot>(self.store, &undo.pool_data)?;
        restore_in_store::<S, DelegationId, DelegationData, DelegationDataSlot>(
            self.store,
            &undo.delegation_data,
        )?;
        restore_in_store::<S, PoolId, Amount, PoolBalanceSlot>(self.store, &undo.pool_balances)?;
        restore_in_store::<S, (PoolId, DelegationId), Amount, PoolDelegationShareSlot>(
            self.store,
            &undo.pool_delegation_shares,
        )?;
        restore_in_store::<S, DelegationId, Amount, DelegationBalanceSlot>(
            self.store,
            &undo.delegation_balances,
        )?;
        Ok(())
    }
}

impl<'a, S: PoSAccountingStorageRead> PoSAccountingView for PoSAccountingDB<'a, S> {
    open spec fn reliable(&self) -> bool {
        self.store_is_reliable()
    }

    open spec fn pool_data(&self, pool_id: PoolId) -> Result<Option<PoolData>, Error> {
        Ok(self.model().pool_data.get(pool_id))
    }

    open spec fn pool_balance(&self, pool_id: PoolId) -> Result<Option<Amount>, Error> {
        Ok(self.model().pool_balances.get(pool_id))
    }

    open spec fn pool_delegation_share(
        &self,
        pool_id: PoolId,
        delegation_id: DelegationId,
    ) -> Result<Option<Amount>, Error> {
        Ok(self.model().pool_delegation_shares.get((pool_id, delegation_id)))
    }

    open spec fn delegation_balance(&self, delegation_id: DelegationId) -> Result<
        Option<Amount>,
        Error,
    > {
        Ok(self.model().delegation_balances.get(delegation_id))
    }

    open spec fn delegation_data(&self, delegation_id: DelegationId) -> Result<
        Option<DelegationData>,
        Error,
    > {
        Ok(self.model().delegation_data.get(delegation_id))
    }

    fn get_pool_data(&self, pool_id: PoolId) -> (r: Result<Option<PoolData>, Error>) {
        match self.store.get_pool_data(pool_id) {
            Ok(data) => Ok(data),
            Err(e) => Err(storage_failure(e)),
        }
    }

    fn get_pool_balance(&self, pool_id: PoolId) -> (r: Result<Option<Amount>, Error>) {
        match self.store.get_pool_address_balance(pool_id) {
            Ok(balance) => Ok(balance),
            Err(e) => Err(storage_failure(e)),
        }
    }

    fn get_pool_delegation_share(&self, pool_id: PoolId, delegation_id: DelegationId) -> (r:
        Result<Option<Amount>, Error>) {
        let ghost all = self.model().pool_delegation_shares;
        proof {
            assert(shares_of_pool(all, pool_id).get(delegation_id) == all.get(
                (pool_id, delegation_id),
            ));
        }
        match self.store.get_pool_delegation_shares(pool_id) {
            Ok(Some(shares)) => Ok(value_at(&shares, delegation_id)),
            Ok(None) => Ok(None),
            Err(e) => Err(storage_failure(e)),
        }
    }

    fn get_pool_delegation_shares(&self, pool_id: PoolId) -> (r: Result<
        Option<BTreeMap<DelegationId, Amount>>,
        Error,
    >) {
        let ghost all = self.model().pool_delegation_shares;
        proof {
            assert forall|d: DelegationId|
                shares_of_pool(all, pool_id).get(d) == #[trigger] all.get((pool_id, d)) by {}
        }
        match self.store.get_pool_delegation_shares(pool_id) {
            Ok(Some(shares)) => {
                if shares.is_empty() {
                    proof {
                        assert(shares@ =~= Map::<DelegationId, Amount>::empty());
                    }
                    Ok(None)
                } else {
                    proof {
                        if shares@.len() == 0 {
                            shares@.dom().lemma_len0_is_empty();
                        }
                    }
                    Ok(Some(shares))
                }
            },
            Ok(None) => Ok(None),
            Err(e) => Err(storage_failure(e)),
        }
    }

    fn get_delegation_balance(&self, delegation_id: DelegationId) -> (r: Result<
        Option<Amount>,
        Error,
    >) {
        match self.store.get_delegation_address_balance(delegation_id) {
            Ok(balance) => Ok(balance),
            Err(e) => Err(storage_failure(e)),
        }
    }

    fn get_delegation_data(&self, delegation_id: DelegationId) -> (r: Result<
        Option<DelegationData>,
        Error,
    >) {
        match self.store.get_delegation_address_data(delegation_id) {
            Ok(data) => Ok(data),
            Err(e) => Err(storage_failure(e)),
        }
    }
}

} // verus!
