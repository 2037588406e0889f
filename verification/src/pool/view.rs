use crate::accounting::data_delta::DataDelta;
use crate::amount::{highest_signed, Amount, SignedAmount};
use crate::error::Error;
use crate::id::{DelegationId, PoolId};
use crate::pool::delegation::DelegationData;
use crate::pool::pool_data::PoolData;
use crate::storage::shares_read;
use std::collections::BTreeMap;
use vstd::prelude::*;

verus! {

/// The number of atoms of an amount that may be absent; an absent amount stands at zero.
pub open spec fn atoms_or_zero(amount: Option<Amount>) -> int {
    match amount {
        Some(a) => a@,
        None => 0,
    }
}

/// The amount that a reader sees where the layer below shows `base` and this layer holds the
/// net change `delta`.
///
/// Without a change the reader sees what is below. With one it sees the sum, which has to be
/// an amount: above the highest amount it is [`Error::AmountOverflow`], below zero
/// [`Error::NegativeAmount`].
pub open spec fn combined_amount(base: Option<Amount>, delta: Option<SignedAmount>) -> Result<
    Option<Amount>,
    Error,
> {
    match delta {
        None => Ok(base),
        Some(change) => {
            let sum = atoms_or_zero(base) + change@;
            if sum > highest_signed() {
                Err(Error::AmountOverflow)
            } else if sum < 0 {
                Err(Error::NegativeAmount)
            } else {
                Ok(Some(Amount::spec_new(sum)))
            }
        },
    }
}

/// The record that a reader sees where this layer holds the transition `local` and the layers
/// below would show `below`: the end of the transition if there is one, be it a record or
/// none, and else what is below.
pub open spec fn record_through<T>(below: Result<Option<T>, Error>, local: Option<DataDelta<T>>) -> Result<
    Option<T>,
    Error,
> {
    match local {
        Some(delta) => Ok(delta.to),
        None => below,
    }
}

/// The amount that a reader sees where this layer holds the net change `local` and the layers
/// below would show `below`.
pub open spec fn amount_through(below: Result<Option<Amount>, Error>, local: Option<SignedAmount>) -> Result<
    Option<Amount>,
    Error,
> {
    match below {
        Err(e) => Err(e),
        Ok(base) => combined_amount(base, local),
    }
}

/// What a read may return where the layers hold `expected`: that, or the error of a store
/// that failed, where the store is not one that never fails.
pub open spec fn read_returns<V>(
    actual: Result<V, Error>,
    expected: Result<V, Error>,
    reliable: bool,
) -> bool {
    actual == expected || (!reliable && (actual matches Err(e) && e is Storage))
}

/// See [`combined_amount`].
pub fn combine_amount_delta(base: Option<Amount>, delta: Option<SignedAmount>) -> (r: Result<
    Option<Amount>,
    Error,
>)
    ensures
        r == combined_amount(base, delta),
{
    match delta {
        None => Ok(base),
        Some(change) => {
            let base_amount = match base {
                Some(amount) => amount,
                None => Amount::zero(),
            };
            proof {
                use_type_invariant(&base_amount);
                change.lemma_in_range();
            }
            let sum = base_amount.into_signed().checked_add(change)?;
            let amount = sum.into_unsigned()?;
            proof {
                Amount::lemma_spec_new_view(sum@);
                Amount::lemma_view_is_injective(amount, Amount::spec_new(sum@));
            }
            Ok(Some(amount))
        },
    }
}

/// A layer that pools and delegations can be read through: the store at the bottom, or changes
/// on top of another layer.
///
/// For each read there is the value that the layers hold, which is an error where the
/// amounts do not add up to an amount. The read returns that value, unless a store fails.
pub trait PoSAccountingView {
    /// True if the store at the bottom of the layers never fails.
    spec fn reliable(&self) -> bool;

    /// The record of a pool that the layers hold.
    spec fn pool_data(&self, pool_id: PoolId) -> Result<Option<PoolData>, Error>;

    /// The balance of a pool that the layers hold.
    spec fn pool_balance(&self, pool_id: PoolId) -> Result<Option<Amount>, Error>;

    /// The share of a delegation in a pool that the layers hold.
    spec fn pool_delegation_share(&self, pool_id: PoolId, delegation_id: DelegationId) -> Result<
        Option<Amount>,
        Error,
    >;

    /// The balance of a delegation that the layers hold.
    spec fn delegation_balance(&self, delegation_id: DelegationId) -> Result<Option<Amount>, Error>;

    /// The record of a delegation that the layers hold.
    spec fn delegation_data(&self, delegation_id: DelegationId) -> Result<
        Option<DelegationData>,
        Error,
    >;

    /// The record of a pool.
    fn get_pool_data(&self, pool_id: PoolId) -> (r: Result<Option<PoolData>, Error>)
        ensures
            read_returns(r, self.pool_data(pool_id), self.reliable()),
    ;

    /// The balance of a pool.
    fn get_pool_balance(&self, pool_id: PoolId) -> (r: Result<Option<Amount>, Error>)
        ensures
            read_returns(r, self.pool_balance(pool_id), self.reliable()),
    ;

    /// The share of a delegation in a pool.
    fn get_pool_delegation_share(&self, pool_id: PoolId, delegation_id: DelegationId) -> (r:
        Result<Option<Amount>, Error>)
        ensures
            read_returns(r, self.pool_delegation_share(pool_id, delegation_id), self.reliable()),
    ;

    /// The shares in a pool, by delegation; no map where the pool has no share.
    ///
    /// Succeeds where the layers hold an amount or nothing for every delegation, unless the
    /// store fails. Where they hold an error for some delegation, the read fails with the
    /// error of one such delegation.
    fn get_pool_delegation_shares(&self, pool_id: PoolId) -> (r: Result<
        Option<BTreeMap<DelegationId, Amount>>,
        Error,
    >)
        ensures
            match r {
                Ok(shares) => {
                    &&& forall|d: DelegationId| #[trigger]
                        self.pool_delegation_share(pool_id, d) == Ok::<Option<Amount>, Error>(
                            shares_read(shares).get(d),
                        )
                    &&& shares matches Some(map) ==> map@.len() > 0
                },
                Err(e) => (!self.reliable() && e is Storage) || exists|d: DelegationId| #[trigger]
                    self.pool_delegation_share(pool_id, d) == Err::<Option<Amount>, Error>(e),
            },
    ;

    /// The balance of a delegation.
    fn get_delegation_balance(&self, delegation_id: DelegationId) -> (r: Result<
        Option<Amount>,
        Error,
    >)
        ensures
            read_returns(r, self.delegation_balance(delegation_id), self.reliable()),
    ;

    /// The record of a delegation.
    fn get_delegation_data(&self, delegation_id: DelegationId) -> (r: Result<
        Option<DelegationData>,
        Error,
    >)
        ensures
            read_returns(r, self.delegation_data(delegation_id), self.reliable()),
    ;
}

} // verus!
