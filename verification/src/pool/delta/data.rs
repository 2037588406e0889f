use crate::accounting::data_delta::DataDelta;
use crate::accounting::delta_amount_collection::{
    amounts_merge_ok, amounts_undo_ok, lemma_amounts_merge_empty, lemma_amounts_merge_then_undo,
    merged_amounts, no_zero_amounts, unmerged_amounts, DeltaAmountCollection,
};
use crate::accounting::delta_data_collection::{
    data_merge_ok, inverted_data, lemma_data_merge_empty, lemma_data_merge_then_undo, merged_data,
    DeltaDataCollection, DeltaDataUndoCollection,
};
use crate::amount::SignedAmount;
use crate::error::Error;
use crate::id::{DelegationId, PoolId};
use crate::pool::delegation::DelegationData;
use crate::pool::pool_data::PoolData;
use vstd::prelude::*;

verus! {

/// The mathematical content of a [`PoSAccountingDeltaData`]: one map for each collection.
pub struct DeltaDataView {
    pub pool_data: Map<PoolId, DataDelta<PoolData>>,
    pub pool_balances: Map<PoolId, SignedAmount>,
    pub pool_delegation_shares: Map<(PoolId, DelegationId), SignedAmount>,
    pub delegation_balances: Map<DelegationId, SignedAmount>,
    pub delegation_data: Map<DelegationId, DataDelta<DelegationData>>,
}

/// The mathematical content of a [`DeltaMergeUndo`]: for the records the inverse transitions,
/// for the amounts what the merge added.
pub struct DeltaUndoView {
    pub pool_data: Map<PoolId, DataDelta<PoolData>>,
    pub pool_balances: Map<PoolId, SignedAmount>,
    pub pool_delegation_shares: Map<(PoolId, DelegationId), SignedAmount>,
    pub delegation_balances: Map<DelegationId, SignedAmount>,
    pub delegation_data: Map<DelegationId, DataDelta<DelegationData>>,
}

impl DeltaDataView {
    /// The content of the aggregate that holds no change.
    pub open spec fn empty() -> DeltaDataView {
        DeltaDataView {
            pool_data: Map::empty(),
            pool_balances: Map::empty(),
            pool_delegation_shares: Map::empty(),
            delegation_balances: Map::empty(),
            delegation_data: Map::empty(),
        }
    }

    /// True if no amount collection has an entry of zero.
    pub open spec fn wf(self) -> bool {
        &&& no_zero_amounts(self.pool_balances)
        &&& no_zero_amounts(self.pool_delegation_shares)
        &&& no_zero_amounts(self.delegation_balances)
    }

    /// True if both collections of records of `incoming` continue those of `self`.
    pub open spec fn records_merge_ok(self, incoming: DeltaDataView) -> bool {
        &&& data_merge_ok(self.pool_data, incoming.pool_data)
        &&& data_merge_ok(self.delegation_data, incoming.delegation_data)
    }

    /// True if the three collections of amounts of `incoming` can be added to those of `self`.
    pub open spec fn amounts_merge_ok(self, incoming: DeltaDataView) -> bool {
        &&& amounts_merge_ok(self.pool_balances, incoming.pool_balances)
        &&& amounts_merge_ok(self.pool_delegation_shares, incoming.pool_delegation_shares)
        &&& amounts_merge_ok(self.delegation_balances, incoming.delegation_balances)
    }

    /// True if `incoming` can be merged into `self`.
    pub open spec fn merge_ok(self, incoming: DeltaDataView) -> bool {
        self.records_merge_ok(incoming) && self.amounts_merge_ok(incoming)
    }

    /// The error that merging `incoming` into `self` ends in, where it cannot be merged: the
    /// records are merged before the amounts.
    pub open spec fn merge_error(self, incoming: DeltaDataView) -> Error {
        if !self.records_merge_ok(incoming) {
            Error::DeltaDataMismatch
        } else {
            Error::AmountOverflow
        }
    }

    /// The content once `incoming` has been merged into `self`, collection by collection.
    pub open spec fn merged(self, incoming: DeltaDataView) -> DeltaDataView {
        DeltaDataView {
            pool_data: merged_data(self.pool_data, incoming.pool_data),
            pool_balances: merged_amounts(self.pool_balances, incoming.pool_balances),
            pool_delegation_shares: merged_amounts(
                self.pool_delegation_shares,
                incoming.pool_delegation_shares,
            ),
            delegation_balances: merged_amounts(
                self.delegation_balances,
                incoming.delegation_balances,
            ),
            delegation_data: merged_data(self.delegation_data, incoming.delegation_data),
        }
    }

    /// What takes the merge of `self` back.
    pub open spec fn undo(self) -> DeltaUndoView {
        DeltaUndoView {
            pool_data: inverted_data(self.pool_data),
            pool_balances: self.pool_balances,
            pool_delegation_shares: self.pool_delegation_shares,
            delegation_balances: self.delegation_balances,
            delegation_data: inverted_data(self.delegation_data),
        }
    }

    /// True if both collections of inverse transitions of `undo` continue the records of
    /// `self`.
    pub open spec fn records_undo_ok(self, undo: DeltaUndoView) -> bool {
        &&& data_merge_ok(self.pool_data, undo.pool_data)
        &&& data_merge_ok(self.delegation_data, undo.delegation_data)
    }

    /// True if the three collections of amounts of `undo` can be subtracted from those of
    /// `self`.
    pub open spec fn amounts_undo_ok(self, undo: DeltaUndoView) -> bool {
        &&& amounts_undo_ok(self.pool_balances, undo.pool_balances)
        &&& amounts_undo_ok(self.pool_delegation_shares, undo.pool_delegation_shares)
        &&& amounts_undo_ok(self.delegation_balances, undo.delegation_balances)
    }

    /// True if `undo` can be applied to `self`.
    pub open spec fn undo_ok(self, undo: DeltaUndoView) -> bool {
        self.records_undo_ok(undo) && self.amounts_undo_ok(undo)
    }

    /// The error that applying `undo` to `self` ends in, where it cannot be applied.
    pub open spec fn undo_error(self, undo: DeltaUndoView) -> Error {
        if !self.records_undo_ok(undo) {
            Error::DeltaDataMismatch
        } else {
            Error::AmountOverflow
        }
    }

    /// The content once `undo` has been applied to `self`, collection by collection.
    pub open spec fn undone(self, undo: DeltaUndoView) -> DeltaDataView {
        DeltaDataView {
            pool_data: merged_data(self.pool_data, undo.pool_data),
            pool_balances: unmerged_amounts(self.pool_balances, undo.pool_balances),
            pool_delegation_shares: unmerged_amounts(
                self.pool_delegation_shares,
                undo.pool_delegation_shares,
            ),
            delegation_balances: unmerged_amounts(
                self.delegation_balances,
                undo.delegation_balances,
            ),
            delegation_data: merged_data(self.delegation_data, undo.delegation_data),
        }
    }

    /// Merging a delta and then applying the undo of that merge always succeeds, restores
    /// the three collections of amounts exactly, and restores every record transition that was
    /// there before the merge. A key that only the merge brought into a collection of records
    /// is left with a transition that changes nothing.
    pub proof fn lemma_merge_then_undo(self, incoming: DeltaDataView)
        requires
            self.wf(),
            self.merge_ok(incoming),
        ensures
            self.merged(incoming).undo_ok(incoming.undo()),
            ({
                let after = self.merged(incoming).undone(incoming.undo());
                &&& after.pool_balances == self.pool_balances
                &&& after.pool_delegation_shares == self.pool_delegation_shares
                &&& after.delegation_balances == self.delegation_balances
                &&& after.pool_data.dom() == self.pool_data.dom().union(incoming.pool_data.dom())
                &&& after.delegation_data.dom() == self.delegation_data.dom().union(
                    incoming.delegation_data.dom(),
                )
                &&& forall|k: PoolId| #[trigger]
                    self.pool_data.contains_key(k) ==> after.pool_data[k] == self.pool_data[k]
                &&& forall|k: DelegationId| #[trigger]
                    self.delegation_data.contains_key(k) ==> after.delegation_data[k]
                        == self.delegation_data[k]
                &&& forall|k: PoolId|
                    !self.pool_data.contains_key(k) && #[trigger] incoming.pool_data.contains_key(
                        k,
                    ) ==> after.pool_data[k].is_noop()
                &&& forall|k: DelegationId|
                    !self.delegation_data.contains_key(k)
                        && #[trigger] incoming.delegation_data.contains_key(k)
                        ==> after.delegation_data[k].is_noop()
            }),
    {
        lemma_data_merge_then_undo(self.pool_data, incoming.pool_data);
        lemma_data_merge_then_undo(self.delegation_data, incoming.delegation_data);
        lemma_amounts_merge_then_undo(self.pool_balances, incoming.pool_balances);
        lemma_amounts_merge_then_undo(
            self.pool_delegation_shares,
            incoming.pool_delegation_shares,
        );
        lemma_amounts_merge_then_undo(self.delegation_balances, incoming.delegation_balances);
    }

    /// Merging a delta whose records are all of keys that already have a transition, and then
    /// applying the undo of that merge, leaves every one of the five collections as it was.
    pub proof fn lemma_merge_then_undo_is_identity(self, incoming: DeltaDataView)
        requires
            self.wf(),
            self.merge_ok(incoming),
            incoming.pool_data.dom().subset_of(self.pool_data.dom()),
            incoming.delegation_data.dom().subset_of(self.delegation_data.dom()),
        ensures
            self.merged(incoming).undo_ok(incoming.undo()),
            self.merged(incoming).undone(incoming.undo()) == self,
    {
        lemma_data_merge_then_undo(self.pool_data, incoming.pool_data);
        lemma_data_merge_then_undo(self.delegation_data, incoming.delegation_data);
        lemma_amounts_merge_then_undo(self.pool_balances, incoming.pool_balances);
        lemma_amounts_merge_then_undo(
            self.pool_delegation_shares,
            incoming.pool_delegation_shares,
        );
        lemma_amounts_merge_then_undo(self.delegation_balances, incoming.delegation_balances);
    }

    /// What a merge does to one collection depends on that collection of the delta alone: a
    /// collection for which the delta holds nothing stays as it is, whatever the delta holds
    /// for the other four.
    pub proof fn lemma_collections_are_independent(self, incoming: DeltaDataView)
        ensures
            incoming.pool_data == Map::<PoolId, DataDelta<PoolData>>::empty() ==> self.merged(
                incoming,
            ).pool_data == self.pool_data,
            incoming.pool_balances == Map::<PoolId, SignedAmount>::empty() ==> self.merged(
                incoming,
            ).pool_balances == self.pool_balances,
            incoming.pool_delegation_shares == Map::<(PoolId, DelegationId), SignedAmount>::empty()
                ==> self.merged(incoming).pool_delegation_shares == self.pool_delegation_shares,
            incoming.delegation_balances == Map::<DelegationId, SignedAmount>::empty()
                ==> self.merged(incoming).delegation_balances == self.delegation_balances,
            incoming.delegation_data == Map::<DelegationId, DataDelta<DelegationData>>::empty()
                ==> self.merged(incoming).delegation_data == self.delegation_data,
    {
        lemma_data_merge_empty(self.pool_data);
        lemma_data_merge_empty(self.delegation_data);
        lemma_amounts_merge_empty(self.pool_balances);
        lemma_amounts_merge_empty(self.pool_delegation_shares);
        lemma_amounts_merge_empty(self.delegation_balances);
    }

    /// Two deltas that agree on one collection do the same to that collection, whatever
    /// else they hold.
    pub proof fn lemma_collections_merge_alone(self, first: DeltaDataView, second: DeltaDataView)
        ensures
            first.pool_data == second.pool_data ==> self.merged(first).pool_data == self.merged(
                second,
            ).pool_data,
            first.pool_balances == second.pool_balances ==> self.merged(first).pool_balances
                == self.merged(second).pool_balances,
            first.pool_delegation_shares == second.pool_delegation_shares ==> self.merged(
                first,
            ).pool_delegation_shares == self.merged(second).pool_delegation_shares,
            first.delegation_balances == second.delegation_balances ==> self.merged(
                first,
            ).delegation_balances == self.merged(second).delegation_balances,
            first.delegation_data == second.delegation_data ==> self.merged(first).delegation_data
                == self.merged(second).delegation_data,
    {
    }

    /// The delta that holds no change is the identity of merging: merging it succeeds and
    /// changes nothing, and merging a delta into it succeeds and gives that delta.
    pub proof fn lemma_merge_empty(self)
        ensures
            self.merge_ok(DeltaDataView::empty()),
            self.merged(DeltaDataView::empty()) == self,
            DeltaDataView::empty().merge_ok(self),
            self.wf() ==> DeltaDataView::empty().merged(self) == self,
    {
        lemma_data_merge_empty(self.pool_data);
        lemma_data_merge_empty(self.delegation_data);
        lemma_amounts_merge_empty(self.pool_balances);
        lemma_amounts_merge_empty(self.pool_delegation_shares);
        lemma_amounts_merge_empty(self.delegation_balances);
    }
}

/// The changes of one layer: five collections, for the pool records, the pool balances, the
/// share of each delegation in each pool, the delegation balances and the delegation records.
#[derive(Clone, Debug, PartialEq, Eq)]
pub struct PoSAccountingDeltaData {
    pub pool_data: DeltaDataCollection<PoolId, PoolData>,
    pub pool_balances: DeltaAmountCollection<PoolId>,
    pub pool_delegation_shares: DeltaAmountCollection<(PoolId, DelegationId)>,
    pub delegation_balances: DeltaAmountCollection<DelegationId>,
    pub delegation_data: DeltaDataCollection<DelegationId, DelegationData>,
}

/// What takes back one merge of a [`PoSAccountingDeltaData`]: the undo of each of the five
/// collections.
#[derive(Clone, Debug, PartialEq, Eq)]
pub struct DeltaMergeUndo {
    pool_data_undo: DeltaDataUndoCollection<PoolId, PoolData>,
    pool_balances_undo: DeltaAmountCollection<PoolId>,
    pool_delegation_shares_undo: DeltaAmountCollection<(PoolId, DelegationId)>,
    delegation_balances_undo: DeltaAmountCollection<DelegationId>,
    delegation_data_undo: DeltaDataUndoCollection<DelegationId, DelegationData>,
}

impl DeltaMergeUndo {
    /// The content of the undo, collection by collection.
    pub closed spec fn view(&self) -> DeltaUndoView {
        DeltaUndoView {
            pool_data: self.pool_data_undo@,
            pool_balances: self.pool_balances_undo@,
            pool_delegation_shares: self.pool_delegation_shares_undo@,
            delegation_balances: self.delegation_balances_undo@,
            delegation_data: self.delegation_data_undo@,
        }
    }

    /// The amount that the merge added to the balance of `pool_id`, if it added any.
    pub fn pool_balance_added(&self, pool_id: PoolId) -> (amount: Option<SignedAmount>)
        ensures
            amount == self@.pool_balances.get(pool_id),
    {
        self.pool_balances_undo.get(pool_id)
    }

    /// The amount that the merge added to the share of `delegation_id` in `pool_id`, if it
    /// added any.
    pub fn pool_delegation_share_added(&self, pool_id: PoolId, delegation_id: DelegationId) -> (amount:
        Option<SignedAmount>)
        ensures
            amount == self@.pool_delegation_shares.get((pool_id, delegation_id)),
    {
        self.pool_delegation_shares_undo.get((pool_id, delegation_id))
    }

    /// The amount that the merge added to the balance of `delegation_id`, if it added any.
    pub fn delegation_balance_added(&self, delegation_id: DelegationId) -> (amount: Option<
        SignedAmount,
    >)
        ensures
            amount == self@.delegation_balances.get(delegation_id),
    {
        self.delegation_balances_undo.get(delegation_id)
    }

    /// The inverse of the transition that the merge merged in for the record of `pool_id`,
    /// if it merged any.
    pub fn pool_data_inverse(&self, pool_id: PoolId) -> (delta: Option<DataDelta<PoolData>>)
        ensures
            delta == self@.pool_data.get(pool_id),
    {
        self.pool_data_undo.get(pool_id)
    }

    /// The inverse of the transition that the merge merged in for the record of
    /// `delegation_id`, if it merged any.
    pub fn delegation_data_inverse(&self, delegation_id: DelegationId) -> (delta: Option<
        DataDelta<DelegationData>,
    >)
        ensures
            delta == self@.delegation_data.get(delegation_id),
    {
        self.delegation_data_undo.get(delegation_id)
    }
}

impl PoSAccountingDeltaData {
    /// The content of the aggregate, collection by collection.
    pub open spec fn view(&self) -> DeltaDataView {
        DeltaDataView {
            pool_data: self.pool_data@,
            pool_balances: self.pool_balances@,
            pool_delegation_shares: self.pool_delegation_shares@,
            delegation_balances: self.delegation_balances@,
            delegation_data: self.delegation_data@,
        }
    }

    /// The aggregate that holds no change.
    pub fn new() -> (data: Self)
        ensures
            data@ == DeltaDataView::empty(),
    {
        Self {
            pool_data: DeltaDataCollection::new(),
            pool_balances: DeltaAmountCollection::new(),
            pool_delegation_shares: DeltaAmountCollection::new(),
            delegation_balances: DeltaAmountCollection::new(),
            delegation_data: DeltaDataCollection::new(),
        }
    }

    /// Merges `other` into the aggregate, collection by collection: the pool records, the
    /// delegation records, then the pool balances, the shares and the delegation balances.
    ///
    /// Succeeds exactly if every collection can be merged, and then returns what
    /// [`Self::undo_delta_merge`] needs to take the merge back. On failure the aggregate is
    /// left partly merged.
    pub fn merge_with_delta(&mut self, other: PoSAccountingDeltaData) -> (r: Result<
        DeltaMergeUndo,
        Error,
    >)
        ensures
            r is Ok <==> old(self)@.merge_ok(other@),
            r matches Ok(undo) ==> final(self)@ == old(self)@.merged(other@) && undo@
                == other@.undo(),
            r matches Err(e) ==> e == old(self)@.merge_error(other@),
    {
        let pool_data_undo = self.pool_data.merge_delta_data(other.pool_data)?;
        let delegation_data_undo = self.delegation_data.merge_delta_data(other.delegation_data)?;
        let pool_balances_undo = self.pool_balances.merge_delta_amounts(other.pool_balances)?;
        let pool_delegation_shares_undo = self.pool_delegation_shares.merge_delta_amounts(
            other.pool_delegation_shares,
        )?;
        let delegation_balances_undo = self.delegation_balances.merge_delta_amounts(
            other.delegation_balances,
        )?;
        Ok(
            DeltaMergeUndo {
                pool_data_undo,
                pool_balances_undo,
                pool_delegation_shares_undo,
                delegation_balances_undo,
                delegation_data_undo,
            },
        )
    }

    /// Takes back the merge that returned `undo`, collection by collection in the order of
    /// the merge.
    ///
    /// Succeeds exactly if every collection can be undone, which holds when the aggregate has
    /// not changed since that merge. On failure the aggregate is left partly undone.
    pub fn undo_delta_merge(&mut self, undo: DeltaMergeUndo) -> (r: Result<(), Error>)
        ensures
            r is Ok <==> old(self)@.undo_ok(undo@),
            r is Ok ==> final(self)@ == old(self)@.undone(undo@),
            r matches Err(e) ==> e == old(self)@.undo_error(undo@),
    {
        self.pool_data.undo_merge_delta_data(undo.pool_data_undo)?;
        self.delegation_data.undo_merge_delta_data(undo.delegation_data_undo)?;
        self.pool_balances.undo_merge_delta_amounts(undo.pool_balances_undo)?;
        self.pool_delegation_shares.undo_merge_delta_amounts(undo.pool_delegation_shares_undo)?;
        self.delegation_balances.undo_merge_delta_amounts(undo.delegation_balances_undo)?;
        Ok(())
    }
}

impl Default for PoSAccountingDeltaData {
    fn default() -> (data: Self)
        ensures
            data@ == DeltaDataView::empty(),
    {
        Self::new()
    }
}

} // verus!
