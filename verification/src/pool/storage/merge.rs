//! What a merge does to the store, as mathematics: when it can be applied, what the store
//! holds after it, what it records for its undo, and what setting that back restores.
use crate::accounting::data_delta::DataDelta;
use crate::amount::{Amount, SignedAmount};
use crate::error::Error;
use crate::id::{DelegationId, PoolId};
use crate::key::least_failing;
use crate::pool::delegation::DelegationData;
use crate::pool::delta::data::DeltaDataView;
use crate::pool::pool_data::PoolData;
use crate::pool::view::{atoms_or_zero, combine_amount_delta, combined_amount, record_through};
use crate::storage::StorageModel;
use vstd::prelude::*;

verus! {

/// True if every transition of `incoming` starts at what the store holds for its key.
pub open spec fn store_records_ok<K, T>(stored: Map<K, T>, incoming: Map<K, DataDelta<T>>) -> bool {
    forall|k: K| #[trigger] incoming.contains_key(k) ==> stored.get(k) == incoming[k].from
}

/// The records once `incoming` has been applied to the store: a key with a transition holds
/// the end of the transition, or nothing if that is none; any other key is as it was.
pub open spec fn store_records_merged<K, T>(stored: Map<K, T>, incoming: Map<K, DataDelta<T>>) -> Map<
    K,
    T,
> {
    Map::new(
        |k: K|
            if incoming.contains_key(k) {
                incoming[k].to is Some
            } else {
                stored.contains_key(k)
            },
        |k: K|
            if incoming.contains_key(k) {
                incoming[k].to->0
            } else {
                stored[k]
            },
    )
}

/// What the store held for each key that `incoming` touches.
pub open spec fn prior_values<K, V, D>(stored: Map<K, V>, incoming: Map<K, D>) -> Map<K, Option<V>> {
    Map::new(|k: K| incoming.contains_key(k), |k: K| stored.get(k))
}

/// The amount that the store holds for a key once `change` has been added to `stored`: the
/// sum, or nothing if the sum is zero. The sum has to be an amount, as in
/// [`combined_amount`].
pub open spec fn stored_amount(stored: Option<Amount>, change: SignedAmount) -> Result<
    Option<Amount>,
    Error,
> {
    match combined_amount(stored, Some(change)) {
        Ok(Some(sum)) => if sum@ == 0 {
            Ok(None)
        } else {
            Ok(Some(sum))
        },
        other => other,
    }
}

/// True if the change of `incoming` at `k`, added to what the store holds for `k`, is no
/// amount.
pub open spec fn store_amount_fails<K>(
    stored: Map<K, Amount>,
    incoming: Map<K, SignedAmount>,
    k: K,
) -> bool {
    stored_amount(stored.get(k), incoming[k]) is Err
}

/// True if `k` is the least key of `incoming` whose change cannot be added to what the
/// store holds.
pub open spec fn least_amount_failure<K: Ord>(
    stored: Map<K, Amount>,
    incoming: Map<K, SignedAmount>,
    k: K,
) -> bool {
    least_failing(incoming.dom(), |k: K| store_amount_fails(stored, incoming, k), k)
}

/// True if `error` is what the least key of `incoming` fails with, among the keys whose
/// change cannot be added to what the store holds.
pub open spec fn first_amount_failure<K: Ord>(
    stored: Map<K, Amount>,
    incoming: Map<K, SignedAmount>,
    error: Error,
) -> bool {
    exists|k: K| #[trigger]
        least_amount_failure(stored, incoming, k) && stored_amount(stored.get(k), incoming[k])
            == Err::<Option<Amount>, Error>(error)
}

/// True if each change of `incoming` added to what the store holds for its key is an amount.
pub open spec fn store_amounts_ok<K>(stored: Map<K, Amount>, incoming: Map<K, SignedAmount>) -> bool {
    forall|k: K| #[trigger]
        incoming.contains_key(k) ==> stored_amount(stored.get(k), incoming[k]) is Ok
}

/// The amounts once `incoming` has been applied to the store: a key with a change holds the
/// sum, or nothing if the sum is zero; any other key is as it was.
pub open spec fn store_amounts_merged<K>(stored: Map<K, Amount>, incoming: Map<K, SignedAmount>) -> Map<
    K,
    Amount,
> {
    Map::new(
        |k: K|
            if incoming.contains_key(k) {
                stored_amount(stored.get(k), incoming[k])->Ok_0 is Some
            } else {
                stored.contains_key(k)
            },
        |k: K|
            if incoming.contains_key(k) {
                stored_amount(stored.get(k), incoming[k])->Ok_0->0
            } else {
                stored[k]
            },
    )
}

/// The entries once each key of `priors` has been set back to what `priors` records for it:
/// a value is put back, and a key that had none has none again.
pub open spec fn restored_values<K, V>(stored: Map<K, V>, priors: Map<K, Option<V>>) -> Map<K, V> {
    Map::new(
        |k: K|
            if priors.contains_key(k) {
                priors[k] is Some
            } else {
                stored.contains_key(k)
            },
        |k: K|
            if priors.contains_key(k) {
                priors[k]->0
            } else {
                stored[k]
            },
    )
}

/// Putting back what the store held for the keys of a merge restores the records exactly.
pub proof fn lemma_records_restored<K, T>(stored: Map<K, T>, incoming: Map<K, DataDelta<T>>)
    ensures
        restored_values(store_records_merged(stored, incoming), prior_values(stored, incoming))
            == stored,
{
    assert(restored_values(store_records_merged(stored, incoming), prior_values(stored, incoming))
        =~= stored);
}

/// Putting back what the store held for the keys of a merge restores the amounts exactly.
pub proof fn lemma_amounts_restored<K>(stored: Map<K, Amount>, incoming: Map<K, SignedAmount>)
    ensures
        restored_values(store_amounts_merged(stored, incoming), prior_values(stored, incoming))
            == stored,
{
    assert(restored_values(store_amounts_merged(stored, incoming), prior_values(stored, incoming))
        =~= stored);
}

/// Once the changes have been applied to the amounts of the store, the store holds for a key
/// the amount that a reader saw through the changes on top of the store before; where the
/// reader saw an amount of zero, the store holds no entry.
pub proof fn lemma_merged_amount_is_what_was_read<K>(
    stored: Map<K, Amount>,
    incoming: Map<K, SignedAmount>,
    k: K,
)
    requires
        store_amounts_ok(stored, incoming),
    ensures
        combined_amount(stored.get(k), incoming.get(k)) is Ok,
        atoms_or_zero(store_amounts_merged(stored, incoming).get(k)) == atoms_or_zero(
            combined_amount(stored.get(k), incoming.get(k))->Ok_0,
        ),
{
    if incoming.contains_key(k) {
        assert(stored_amount(stored.get(k), incoming[k]) is Ok);
    }
}

/// The content of a [`StoreMergeUndo`]: for each key that the merge touched, what the store
/// held for it before.
pub struct StoreUndoView {
    pub pool_data: Map<PoolId, Option<PoolData>>,
    pub pool_balances: Map<PoolId, Option<Amount>>,
    pub pool_delegation_shares: Map<(PoolId, DelegationId), Option<Amount>>,
    pub delegation_balances: Map<DelegationId, Option<Amount>>,
    pub delegation_data: Map<DelegationId, Option<DelegationData>>,
}

impl StorageModel {
    /// True if both collections of records of `delta` start at what the store holds.
    pub open spec fn records_merge_ok(self, delta: DeltaDataView) -> bool {
        &&& store_records_ok(self.pool_data, delta.pool_data)
        &&& store_records_ok(self.delegation_data, delta.delegation_data)
    }

    /// True if the three collections of amounts of `delta` add up to amounts with what the
    /// store holds.
    pub open spec fn amounts_merge_ok(self, delta: DeltaDataView) -> bool {
        &&& store_amounts_ok(self.pool_balances, delta.pool_balances)
        &&& store_amounts_ok(self.pool_delegation_shares, delta.pool_delegation_shares)
        &&& store_amounts_ok(self.delegation_balances, delta.delegation_balances)
    }

    /// True if `error` is what the amounts of `delta` fail with: the error of the least key
    /// that cannot be applied, in the first of the pool balances, the shares and the
    /// delegation balances that cannot be applied.
    pub open spec fn amounts_fail_with(self, delta: DeltaDataView, error: Error) -> bool {
        if !store_amounts_ok(self.pool_balances, delta.pool_balances) {
            first_amount_failure(self.pool_balances, delta.pool_balances, error)
        } else if !store_amounts_ok(self.pool_delegation_shares, delta.pool_delegation_shares) {
            first_amount_failure(
                self.pool_delegation_shares,
                delta.pool_delegation_shares,
                error,
            )
        } else {
            !store_amounts_ok(self.delegation_balances, delta.delegation_balances)
                && first_amount_failure(
                self.delegation_balances,
                delta.delegation_balances,
                error,
            )
        }
    }

    /// True if `delta` can be applied to the store.
    pub open spec fn merge_ok(self, delta: DeltaDataView) -> bool {
        self.records_merge_ok(delta) && self.amounts_merge_ok(delta)
    }

    /// What the store holds once `delta` has been applied to it.
    pub open spec fn merged(self, delta: DeltaDataView) -> StorageModel {
        StorageModel {
            pool_data: store_records_merged(self.pool_data, delta.pool_data),
            pool_balances: store_amounts_merged(self.pool_balances, delta.pool_balances),
            pool_delegation_shares: store_amounts_merged(
                self.pool_delegation_shares,
                delta.pool_delegation_shares,
            ),
            delegation_balances: store_amounts_merged(
                self.delegation_balances,
                delta.delegation_balances,
            ),
            delegation_data: store_records_merged(self.delegation_data, delta.delegation_data),
        }
    }

    /// What the store holds for each key that `delta` touches.
    pub open spec fn priors(self, delta: DeltaDataView) -> StoreUndoView {
        StoreUndoView {
            pool_data: prior_values(self.pool_data, delta.pool_data),
            pool_balances: prior_values(self.pool_balances, delta.pool_balances),
            pool_delegation_shares: prior_values(
                self.pool_delegation_shares,
                delta.pool_delegation_shares,
            ),
            delegation_balances: prior_values(self.delegation_balances, delta.delegation_balances),
            delegation_data: prior_values(self.delegation_data, delta.delegation_data),
        }
    }

    /// What the store holds once every key of `undo` has been set back.
    pub open spec fn restored(self, undo: StoreUndoView) -> StorageModel {
        StorageModel {
            pool_data: restored_values(self.pool_data, undo.pool_data),
            pool_balances: restored_values(self.pool_balances, undo.pool_balances),
            pool_delegation_shares: restored_values(
                self.pool_delegation_shares,
                undo.pool_delegation_shares,
            ),
            delegation_balances: restored_values(
                self.delegation_balances,
                undo.delegation_balances,
            ),
            delegation_data: restored_values(self.delegation_data, undo.delegation_data),
        }
    }

    /// Once a delta has been applied to the store, the store holds for every key the record
    /// that a reader saw through the delta on top of the store before.
    pub proof fn lemma_merged_records_are_what_was_read(self, delta: DeltaDataView)
        ensures
            forall|k: PoolId|
                Ok::<Option<PoolData>, Error>(#[trigger] self.merged(delta).pool_data.get(k))
                    == record_through(
                    Ok::<Option<PoolData>, Error>(self.pool_data.get(k)),
                    delta.pool_data.get(k),
                ),
            forall|k: DelegationId|
                Ok::<Option<DelegationData>, Error>(
                    #[trigger] self.merged(delta).delegation_data.get(k),
                ) == record_through(
                    Ok::<Option<DelegationData>, Error>(self.delegation_data.get(k)),
                    delta.delegation_data.get(k),
                ),
    {
    }

    /// Once a delta has been applied to the store, the store holds for every key the amount
    /// that a reader saw through the delta on top of the store before; where the reader saw
    /// an amount of zero, the store holds no entry.
    pub proof fn lemma_merged_amounts_are_what_was_read(self, delta: DeltaDataView)
        requires
            self.amounts_merge_ok(delta),
        ensures
            forall|k: PoolId|
                combined_amount(self.pool_balances.get(k), delta.pool_balances.get(k)) is Ok
                    && atoms_or_zero(#[trigger] self.merged(delta).pool_balances.get(k))
                    == atoms_or_zero(
                    combined_amount(self.pool_balances.get(k), delta.pool_balances.get(k))->Ok_0,
                ),
            forall|k: (PoolId, DelegationId)|
                combined_amount(
                    self.pool_delegation_shares.get(k),
                    delta.pool_delegation_shares.get(k),
                ) is Ok && atoms_or_zero(
                    #[trigger] self.merged(delta).pool_delegation_shares.get(k),
                ) == atoms_or_zero(
                    combined_amount(
                        self.pool_delegation_shares.get(k),
                        delta.pool_delegation_shares.get(k),
                    )->Ok_0,
                ),
            forall|k: DelegationId|
                combined_amount(self.delegation_balances.get(k), delta.delegation_balances.get(k))
                    is Ok && atoms_or_zero(
                    #[trigger] self.merged(delta).delegation_balances.get(k),
                ) == atoms_or_zero(
                    combined_amount(
                        self.delegation_balances.get(k),
                        delta.delegation_balances.get(k),
                    )->Ok_0,
                ),
    {
        assert forall|k: PoolId|
            combined_amount(self.pool_balances.get(k), delta.pool_balances.get(k)) is Ok
                && atoms_or_zero(#[trigger] self.merged(delta).pool_balances.get(k))
                == atoms_or_zero(
                combined_amount(self.pool_balances.get(k), delta.pool_balances.get(k))->Ok_0,
            ) by {
            lemma_merged_amount_is_what_was_read(self.pool_balances, delta.pool_balances, k);
        }
        assert forall|k: (PoolId, DelegationId)|
            combined_amount(
                self.pool_delegation_shares.get(k),
                delta.pool_delegation_shares.get(k),
            ) is Ok && atoms_or_zero(#[trigger] self.merged(delta).pool_delegation_shares.get(k))
                == atoms_or_zero(
                combined_amount(
                    self.pool_delegation_shares.get(k),
                    delta.pool_delegation_shares.get(k),
                )->Ok_0,
            ) by {
            lemma_merged_amount_is_what_was_read(
                self.pool_delegation_shares,
                delta.pool_delegation_shares,
                k,
            );
        }
        assert forall|k: DelegationId|
            combined_amount(self.delegation_balances.get(k), delta.delegation_balances.get(k))
                is Ok && atoms_or_zero(#[trigger] self.merged(delta).delegation_balances.get(k))
                == atoms_or_zero(
                combined_amount(
                    self.delegation_balances.get(k),
                    delta.delegation_balances.get(k),
                )->Ok_0,
            ) by {
            lemma_merged_amount_is_what_was_read(
                self.delegation_balances,
                delta.delegation_balances,
                k,
            );
        }
    }

    /// The delta that holds no change can always be applied, and changes nothing.
    pub proof fn lemma_merge_empty_delta(self)
        ensures
            self.merge_ok(DeltaDataView::empty()),
            self.merged(DeltaDataView::empty()) == self,
    {
        self.lemma_collections_are_independent(DeltaDataView::empty());
    }

    /// Applying a delta to the store and then setting back what the merge recorded leaves
    /// the store holding exactly what it held before, whatever the delta was.
    pub proof fn lemma_merge_then_undo(self, delta: DeltaDataView)
        ensures
            self.merged(delta).restored(self.priors(delta)) == self,
    {
        lemma_records_restored(self.pool_data, delta.pool_data);
        lemma_records_restored(self.delegation_data, delta.delegation_data);
        lemma_amounts_restored(self.pool_balances, delta.pool_balances);
        lemma_amounts_restored(self.pool_delegation_shares, delta.pool_delegation_shares);
        lemma_amounts_restored(self.delegation_balances, delta.delegation_balances);
    }

    /// What applying a delta does to one collection of the store depends on that collection
    /// of the delta alone: where the delta holds nothing for a collection, the store keeps
    /// it as it is.
    pub proof fn lemma_collections_are_independent(self, delta: DeltaDataView)
        ensures
            delta.pool_data == Map::<PoolId, DataDelta<PoolData>>::empty() ==> self.merged(
                delta,
            ).pool_data == self.pool_data,
            delta.pool_balances == Map::<PoolId, SignedAmount>::empty() ==> self.merged(
                delta,
            ).pool_balances == self.pool_balances,
            delta.pool_delegation_shares == Map::<(PoolId, DelegationId), SignedAmount>::empty()
                ==> self.merged(delta).pool_delegation_shares == self.pool_delegation_shares,
            delta.delegation_balances == Map::<DelegationId, SignedAmount>::empty() ==> self.merged(
                delta,
            ).delegation_balances == self.delegation_balances,
            delta.delegation_data == Map::<DelegationId, DataDelta<DelegationData>>::empty()
                ==> self.merged(delta).delegation_data == self.delegation_data,
    {
        assert(store_records_merged(self.pool_data, Map::<PoolId, DataDelta<PoolData>>::empty())
            =~= self.pool_data);
        assert(store_records_merged(
            self.delegation_data,
            Map::<DelegationId, DataDelta<DelegationData>>::empty(),
        ) =~= self.delegation_data);
        assert(store_amounts_merged(self.pool_balances, Map::<PoolId, SignedAmount>::empty())
            =~= self.pool_balances);
        assert(store_amounts_merged(
            self.pool_delegation_shares,
            Map::<(PoolId, DelegationId), SignedAmount>::empty(),
        ) =~= self.pool_delegation_shares);
        assert(store_amounts_merged(
            self.delegation_balances,
            Map::<DelegationId, SignedAmount>::empty(),
        ) =~= self.delegation_balances);
    }
}

/// See [`stored_amount`].
pub fn merge_stored_amount(stored: Option<Amount>, change: SignedAmount) -> (r: Result<
    Option<Amount>,
    Error,
>)
    ensures
        r == stored_amount(stored, change),
{
    match combine_amount_delta(stored, Some(change)) {
        Ok(Some(sum)) => if sum.is_zero() {
            Ok(None)
        } else {
            Ok(Some(sum))
        },
        other => other,
    }
}

} // verus!
