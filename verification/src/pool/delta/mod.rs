//! A layer of changes on top of another layer.
use crate::accounting::data_delta::DataDelta;
use crate::accounting::delta_amount_collection::{amount_at, merged_amounts};
use crate::accounting::delta_data_collection::merged_data;
use crate::amount::{fits_unsigned, Amount, SignedAmount};
use crate::error::Error;
use crate::id::{DelegationId, PoolId};
use crate::key::{first_keys, lemma_first_keys_ends, lemma_first_keys_step, put_at, value_at};
use crate::pool::delegation::DelegationData;
use crate::pool::delta::data::{DeltaDataView, DeltaMergeUndo, PoSAccountingDeltaData};
use crate::pool::pool_data::PoolData;
use crate::pool::view::{
    amount_through, atoms_or_zero, combine_amount_delta, combined_amount, record_through,
    PoSAccountingView,
};
use crate::storage::shares_read;
use std::collections::BTreeMap;
use vstd::prelude::*;

pub mod data;

verus! {

/// The shares of one pool while the changes of this layer are being added to what the layer
/// below shows: a delegation whose change is among `done` has the sum, any other what is
/// below.
pub open spec fn shares_so_far(
    below: Map<DelegationId, Amount>,
    local: Map<(PoolId, DelegationId), SignedAmount>,
    pool_id: PoolId,
    done: Set<(PoolId, DelegationId)>,
) -> Map<DelegationId, Amount> {
    Map::new(
        |d: DelegationId|
            if done.contains((pool_id, d)) && local.contains_key((pool_id, d)) {
                true
            } else {
                below.contains_key(d)
            },
        |d: DelegationId|
            if done.contains((pool_id, d)) && local.contains_key((pool_id, d)) {
                combined_amount(below.get(d), Some(local[(pool_id, d)]))->Ok_0->0
            } else {
                below[d]
            },
    )
}

/// True if every change among `done` adds up to an amount with what is below.
pub open spec fn shares_add_up(
    below: Map<DelegationId, Amount>,
    local: Map<(PoolId, DelegationId), SignedAmount>,
    pool_id: PoolId,
    done: Set<(PoolId, DelegationId)>,
) -> bool {
    forall|d: DelegationId|
        done.contains((pool_id, d)) && #[trigger] local.contains_key((pool_id, d))
            ==> combined_amount(below.get(d), Some(local[(pool_id, d)])) is Ok
}

/// Merging the transitions of a child layer into its parent layer changes no record that a
/// reader sees: through the merged transitions it reads what it read through the two layers.
pub proof fn lemma_merge_keeps_records<K, T>(
    below: Result<Option<T>, Error>,
    current: Map<K, DataDelta<T>>,
    incoming: Map<K, DataDelta<T>>,
    k: K,
)
    ensures
        record_through(below, merged_data(current, incoming).get(k)) == record_through(
            record_through(below, current.get(k)),
            incoming.get(k),
        ),
{
}

/// Merging the amounts of a child layer into its parent layer changes no amount that a
/// reader sees: where it read an amount through the two layers, it reads as many atoms
/// through the merged amounts. An amount of zero may read as no amount after the merge.
pub proof fn lemma_merge_keeps_amounts<K>(
    below: Result<Option<Amount>, Error>,
    current: Map<K, SignedAmount>,
    incoming: Map<K, SignedAmount>,
    k: K,
)
    requires
        below matches Ok(base) ==> fits_unsigned(atoms_or_zero(base)),
        amount_through(amount_through(below, current.get(k)), incoming.get(k)) is Ok,
    ensures
        amount_through(below, merged_amounts(current, incoming).get(k)) is Ok,
        atoms_or_zero(amount_through(below, merged_amounts(current, incoming).get(k))->Ok_0)
            == atoms_or_zero(
            amount_through(amount_through(below, current.get(k)), incoming.get(k))->Ok_0,
        ),
{
    let base = atoms_or_zero(below->Ok_0);
    if current.contains_key(k) {
        current[k].lemma_in_range();
        Amount::lemma_spec_new_view(base + current[k]@);
    }
    if incoming.contains_key(k) {
        incoming[k].lemma_in_range();
        let sum = amount_at(current, k) + incoming[k]@;
        Amount::lemma_spec_new_view(base + sum);
        SignedAmount::lemma_spec_new_view(sum);
    }
}

/// A layer of changes on top of a parent layer. Reads see the changes of this layer applied
/// to what the parent shows; the parent itself is never changed.
pub struct PoSAccountingDelta<'a, P: PoSAccountingView> {
    parent: &'a P,
    data: PoSAccountingDeltaData,
}

impl<'a, P: PoSAccountingView> PoSAccountingDelta<'a, P> {
    /// The layer underneath.
    pub closed spec fn parent(&self) -> &P {
        self.parent
    }

    /// The changes that this layer holds.
    pub closed spec fn view(&self) -> DeltaDataView {
        self.data@
    }

    /// A layer without changes on top of `parent`.
    pub fn new(parent: &'a P) -> (layer: Self)
        ensures
            layer.parent() == parent,
            layer@ == DeltaDataView::empty(),
    {
        Self { parent, data: PoSAccountingDeltaData::new() }
    }

    /// The layer that holds the changes `data` on top of `parent`.
    pub fn from_data(parent: &'a P, data: PoSAccountingDeltaData) -> (layer: Self)
        ensures
            layer.parent() == parent,
            layer@ == data@,
    {
        Self { parent, data }
    }

    /// The changes that this layer holds.
    pub fn data(&self) -> (data: &PoSAccountingDeltaData)
        ensures
            data@ == self@,
    {
        &self.data
    }

    /// Detaches the changes from the layer and hands them out; the layer is gone.
    pub fn consume(self) -> (data: PoSAccountingDeltaData)
        ensures
            data@ == self@,
    {
        self.data
    }

    /// Merges `other` into the changes of this layer, collection by collection.
    ///
    /// Succeeds exactly if every collection can be merged, and then returns what
    /// [`Self::undo_delta_merge`] needs to take the merge back. On failure the layer is left
    /// partly merged and is of no further use.
    pub fn merge_with_delta(&mut self, other: PoSAccountingDeltaData) -> (r: Result<
        DeltaMergeUndo,
        Error,
    >)
        ensures
            final(self).parent() == old(self).parent(),
            r is Ok <==> old(self)@.merge_ok(other@),
            r matches Ok(undo) ==> final(self)@ == old(self)@.merged(other@) && undo@
                == other@.undo(),
            r matches Err(e) ==> e == old(self)@.merge_error(other@),
    {
        self.data.merge_with_delta(other)
    }

    /// Takes back the merge that returned `undo`.
    ///
    /// Succeeds exactly if every collection can be undone, which holds when the layer has not
    /// changed since that merge. On failure the layer is left partly undone.
    pub fn undo_delta_merge(&mut self, undo: DeltaMergeUndo) -> (r: Result<(), Error>)
        ensures
            final(self).parent() == old(self).parent(),
            r is Ok <==> old(self)@.undo_ok(undo@),
            r is Ok ==> final(self)@ == old(self)@.undone(undo@),
            r matches Err(e) ==> e == old(self)@.undo_error(undo@),
    {
        self.data.undo_delta_merge(undo)
    }

    /// A record that this layer has no transition for is read from the parent unchanged.
    pub proof fn lemma_untouched_record_is_the_parents(&self, delegation_id: DelegationId)
        requires
            !self@.delegation_data.contains_key(delegation_id),
        ensures
            self.delegation_data(delegation_id) == self.parent().delegation_data(delegation_id),
    {
    }

    /// A record that this layer deleted reads as absent, whatever the parent holds.
    pub proof fn lemma_deleted_record_is_absent(&self, delegation_id: DelegationId)
        requires
            self@.delegation_data.contains_key(delegation_id),
            self@.delegation_data[delegation_id].to is None,
        ensures
            self.delegation_data(delegation_id) == Ok::<Option<DelegationData>, Error>(None),
    {
    }

    /// An amount that this layer has no change for is read from the parent unchanged.
    pub proof fn lemma_untouched_amount_is_the_parents(&self, pool_id: PoolId)
        requires
            !self@.pool_balances.contains_key(pool_id),
        ensures
            self.pool_balance(pool_id) == self.parent().pool_balance(pool_id),
    {
    }
}

impl<'a, P: PoSAccountingView> PoSAccountingView for PoSAccountingDelta<'a, P> {
    open spec fn reliable(&self) -> bool {
        self.parent().reliable()
    }

    open spec fn pool_data(&self, pool_id: PoolId) -> Result<Option<PoolData>, Error> {
        record_through(self.parent().pool_data(pool_id), self@.pool_data.get(pool_id))
    }

    open spec fn pool_balance(&self, pool_id: PoolId) -> Result<Option<Amount>, Error> {
        amount_through(self.parent().pool_balance(pool_id), self@.pool_balances.get(pool_id))
    }

    open spec fn pool_delegation_share(
        &self,
        pool_id: PoolId,
        delegation_id: DelegationId,
    ) -> Result<Option<Amount>, Error> {
        amount_through(
            self.parent().pool_delegation_share(pool_id, delegation_id),
            self@.pool_delegation_shares.get((pool_id, delegation_id)),
        )
    }

    open spec fn delegation_balance(&self, delegation_id: DelegationId) -> Result<
        Option<Amount>,
        Error,
    > {
        amount_through(
            self.parent().delegation_balance(delegation_id),
            self@.delegation_balances.get(delegation_id),
        )
    }

    open spec fn delegation_data(&self, delegation_id: DelegationId) -> Result<
        Option<DelegationData>,
        Error,
    > {
        record_through(
            self.parent().delegation_data(delegation_id),
            self@.delegation_data.get(delegation_id),
        )
    }

    fn get_pool_data(&self, pool_id: PoolId) -> (r: Result<Option<PoolData>, Error>) {
        match self.data.pool_data.get(pool_id) {
            Some(delta) => Ok(delta.to),
            None => self.parent.get_pool_data(pool_id),
        }
    }

    fn get_pool_balance(&self, pool_id: PoolId) -> (r: Result<Option<Amount>, Error>) {
        let below = self.parent.get_pool_balance(pool_id)?;
        combine_amount_delta(below, self.data.pool_balances.get(pool_id))
    }

    fn get_pool_delegation_share(&self, pool_id: PoolId, delegation_id: DelegationId) -> (r:
        Result<Option<Amount>, Error>) {
        let below = self.parent.get_pool_delegation_share(pool_id, delegation_id)?;
        combine_amount_delta(below, self.data.pool_delegation_shares.get((pool_id, delegation_id)))
    }

    fn get_pool_delegation_shares(&self, pool_id: PoolId) -> (r: Result<
        Option<BTreeMap<DelegationId, Amount>>,
        Error,
    >) {
        let below = match self.parent.get_pool_delegation_shares(pool_id) {
            Ok(below) => below,
            Err(e) => {
                proof {
                    if !(!self.parent().reliable() && e is Storage) {
                        let d = choose|d: DelegationId| #[trigger]
                            self.parent().pool_delegation_share(pool_id, d) == Err::<
                                Option<Amount>,
                                Error,
                            >(e);
                        assert(self.pool_delegation_share(pool_id, d) == Err::<
                            Option<Amount>,
                            Error,
                        >(e));
                    }
                }
                return Err(e);
            },
        };
        let ghost below_map = shares_read(below);
        let ghost local = self@.pool_delegation_shares;
        let mut shares: BTreeMap<DelegationId, Amount> = match below {
            Some(map) => map,
            None => BTreeMap::new(),
        };
        let keys = self.data.pool_delegation_shares.keys();
        let mut i: usize = 0;
        proof {
            lemma_first_keys_ends(keys@);
            assert(shares@ =~= shares_so_far(below_map, local, pool_id, first_keys(keys@, 0)));
        }
        while i < keys.len()
            invariant
                0 <= i <= keys.len(),
                local == self@.pool_delegation_shares,
                keys@.no_duplicates(),
                keys@.to_set() == local.dom(),
                forall|d: DelegationId| #[trigger]
                    self.parent().pool_delegation_share(pool_id, d) == Ok::<
                        Option<Amount>,
                        Error,
                    >(below_map.get(d)),
                shares_add_up(below_map, local, pool_id, first_keys(keys@, i as int)),
                shares@ == shares_so_far(below_map, local, pool_id, first_keys(keys@, i as int)),
            decreases keys.len() - i,
        {
            let (pool, delegation) = keys[i];
            let ghost done = first_keys(keys@, i as int);
            proof {
                lemma_first_keys_step(keys@, i as int);
                assert(keys@.to_set().contains((pool, delegation)));
            }
            if pool.0 == pool_id.0 && pool.1 == pool_id.1 {
                let change = self.data.pool_delegation_shares.get((pool, delegation));
                let base = value_at(&shares, delegation);
                assert(base == below_map.get(delegation));
                match combine_amount_delta(base, change) {
                    Ok(Some(amount)) => {
                        put_at(&mut shares, delegation, amount);
                    },
                    Ok(None) => {},
                    Err(e) => {
                        proof {
                            assert(self.parent().pool_delegation_share(pool_id, delegation) == Ok::<
                                Option<Amount>,
                                Error,
                            >(below_map.get(delegation)));
                            assert(self.pool_delegation_share(pool_id, delegation) == Err::<
                                Option<Amount>,
                                Error,
                            >(e));
                        }
                        return Err(e);
                    },
                }
            }
            proof {
                let next = done.insert((pool, delegation));
                assert(shares@ =~= shares_so_far(below_map, local, pool_id, next));
            }
            i = i + 1;
        }
        proof {
            lemma_first_keys_ends(keys@);
            assert forall|d: DelegationId| #[trigger]
                self.pool_delegation_share(pool_id, d) == Ok::<Option<Amount>, Error>(
                    shares@.get(d),
                ) by {
                assert(self.parent().pool_delegation_share(pool_id, d) == Ok::<
                    Option<Amount>,
                    Error,
                >(below_map.get(d)));
                if local.contains_key((pool_id, d)) {
                    assert(keys@.to_set().contains((pool_id, d)));
                }
            }
        }
        if shares.is_empty() {
            proof {
                assert(shares@ =~= Map::<DelegationId, Amount>::empty());
            }
            Ok(None)
        } else {
            proof {
                if shares@.len() == 0 {
                    shares@.dom().lemma_len0_is_empty();
                }
            }
            Ok(Some(shares))
        }
    }

    fn get_delegation_balance(&self, delegation_id: DelegationId) -> (r: Result<
        Option<Amount>,
        Error,
    >) {
        let below = self.parent.get_delegation_balance(delegation_id)?;
        combine_amount_delta(below, self.data.delegation_balances.get(delegation_id))
    }

    fn get_delegation_data(&self, delegation_id: DelegationId) -> (r: Result<
        Option<DelegationData>,
        Error,
    >) {
        match self.data.delegation_data.get(delegation_id) {
            Some(delta) => Ok(delta.to),
            None => self.parent.get_delegation_data(delegation_id),
        }
    }
}

} // verus!
