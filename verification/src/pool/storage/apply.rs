//! Applying the changes of one collection to the store, key by key, and setting them back.
use crate::accounting::data_delta::{same_option, DataDelta, Record};
use crate::accounting::delta_amount_collection::DeltaAmountCollection;
use crate::accounting::delta_data_collection::DeltaDataCollection;
use crate::amount::{Amount, SignedAmount};
use crate::error::{Error, StorageError};
use crate::key::{
    ascending, first_keys, keys_of, lemma_first_is_least_failing,
    lemma_first_keys_ends, lemma_first_keys_step, put_at, value_at, OrderedKey,
};
use crate::pool::storage::merge::{
    first_amount_failure, least_amount_failure, merge_stored_amount, prior_values, restored_values,
    store_amount_fails, store_amounts_merged, store_amounts_ok, store_records_merged,
    store_records_ok, stored_amount,
};
use crate::pool::storage::slot::StoreSlot;
use crate::storage::{PoSAccountingStorageRead, PoSAccountingStorageWrite};
use std::collections::BTreeMap;
use vstd::prelude::*;

verus! {

/// Applying the transition of one more key is one write.
pub proof fn lemma_store_records_step<K, T>(
    stored: Map<K, T>,
    incoming: Map<K, DataDelta<T>>,
    done: Set<K>,
    k: K,
)
    requires
        incoming.contains_key(k),
        !done.contains(k),
    ensures
        store_records_merged(stored, incoming.restrict(done)).get(k) == stored.get(k),
        store_records_merged(stored, incoming.restrict(done.insert(k))) == (match incoming[k].to {
            Some(v) => store_records_merged(stored, incoming.restrict(done)).insert(k, v),
            None => store_records_merged(stored, incoming.restrict(done)).remove(k),
        }),
        prior_values(stored, incoming.restrict(done.insert(k))) == prior_values(
            stored,
            incoming.restrict(done),
        ).insert(k, stored.get(k)),
{
    let so_far = store_records_merged(stored, incoming.restrict(done));
    let next = store_records_merged(stored, incoming.restrict(done.insert(k)));
    match incoming[k].to {
        Some(v) => {
            assert(next =~= so_far.insert(k, v));
        },
        None => {
            assert(next =~= so_far.remove(k));
        },
    }
    assert(prior_values(stored, incoming.restrict(done.insert(k))) =~= prior_values(
        stored,
        incoming.restrict(done),
    ).insert(k, stored.get(k)));
}

/// Applying the change of one more key is one write.
pub proof fn lemma_store_amounts_step<K>(
    stored: Map<K, Amount>,
    incoming: Map<K, SignedAmount>,
    done: Set<K>,
    k: K,
)
    requires
        incoming.contains_key(k),
        !done.contains(k),
    ensures
        store_amounts_merged(stored, incoming.restrict(done)).get(k) == stored.get(k),
        store_amounts_merged(stored, incoming.restrict(done.insert(k))) == (match stored_amount(
            stored.get(k),
            incoming[k],
        )->Ok_0 {
            Some(v) => store_amounts_merged(stored, incoming.restrict(done)).insert(k, v),
            None => store_amounts_merged(stored, incoming.restrict(done)).remove(k),
        }),
        prior_values(stored, incoming.restrict(done.insert(k))) == prior_values(
            stored,
            incoming.restrict(done),
        ).insert(k, stored.get(k)),
{
    let so_far = store_amounts_merged(stored, incoming.restrict(done));
    let next = store_amounts_merged(stored, incoming.restrict(done.insert(k)));
    match stored_amount(stored.get(k), incoming[k])->Ok_0 {
        Some(v) => {
            assert(next =~= so_far.insert(k, v));
        },
        None => {
            assert(next =~= so_far.remove(k));
        },
    }
    assert(prior_values(stored, incoming.restrict(done.insert(k))) =~= prior_values(
        stored,
        incoming.restrict(done),
    ).insert(k, stored.get(k)));
}

/// Setting back one more key is one write.
pub proof fn lemma_restored_step<K, V>(
    stored: Map<K, V>,
    priors: Map<K, Option<V>>,
    done: Set<K>,
    k: K,
)
    requires
        priors.contains_key(k),
        !done.contains(k),
    ensures
        restored_values(stored, priors.restrict(done.insert(k))) == (match priors[k] {
            Some(v) => restored_values(stored, priors.restrict(done)).insert(k, v),
            None => restored_values(stored, priors.restrict(done)).remove(k),
        }),
{
    let so_far = restored_values(stored, priors.restrict(done));
    let next = restored_values(stored, priors.restrict(done.insert(k)));
    match priors[k] {
        Some(v) => {
            assert(next =~= so_far.insert(k, v));
        },
        None => {
            assert(next =~= so_far.remove(k));
        },
    }
}

/// Before any key is applied the store holds what it held; once all are, the whole of the
/// incoming map is applied.
pub proof fn lemma_store_ends<K, T, V>(
    records: Map<K, T>,
    transitions: Map<K, DataDelta<T>>,
    amounts: Map<K, Amount>,
    changes: Map<K, SignedAmount>,
    values: Map<K, V>,
    priors: Map<K, Option<V>>,
)
    ensures
        store_records_merged(records, transitions.restrict(Set::<K>::empty())) == records,
        prior_values(records, transitions.restrict(Set::<K>::empty())) == Map::<
            K,
            Option<T>,
        >::empty(),
        transitions.restrict(transitions.dom()) == transitions,
        store_amounts_merged(amounts, changes.restrict(Set::<K>::empty())) == amounts,
        prior_values(amounts, changes.restrict(Set::<K>::empty())) == Map::<
            K,
            Option<Amount>,
        >::empty(),
        changes.restrict(changes.dom()) == changes,
        restored_values(values, priors.restrict(Set::<K>::empty())) == values,
        priors.restrict(priors.dom()) == priors,
{
    assert(store_records_merged(records, transitions.restrict(Set::<K>::empty())) =~= records);
    assert(prior_values(records, transitions.restrict(Set::<K>::empty())) =~= Map::<
        K,
        Option<T>,
    >::empty());
    assert(transitions.restrict(transitions.dom()) =~= transitions);
    assert(store_amounts_merged(amounts, changes.restrict(Set::<K>::empty())) =~= amounts);
    assert(prior_values(amounts, changes.restrict(Set::<K>::empty())) =~= Map::<
        K,
        Option<Amount>,
    >::empty());
    assert(changes.restrict(changes.dom()) =~= changes);
    assert(restored_values(values, priors.restrict(Set::<K>::empty())) =~= values);
    assert(priors.restrict(priors.dom()) =~= priors);
}

/// The error of the accounting layers that stands for a failure of the store.
pub fn storage_failure(e: StorageError) -> (error: Error)
    ensures
        error == Error::Storage(e),
{
    Error::Storage(e)
}

/// Applies the transitions of `incoming` to one collection of records of the store, key by
/// key in ascending order, and returns what the store held for each key.
///
/// A transition that does not start at what the store holds ends the merge with
/// [`Error::DeltaDataMismatch`]; a failure of the store ends it with the error of the store.
pub fn merge_records_into_store<S, K, T, Sl>(store: &mut S, incoming: &DeltaDataCollection<K, T>) -> (r:
    Result<BTreeMap<K, Option<T>>, Error>)
    where
        S: PoSAccountingStorageWrite,
        K: OrderedKey + Copy,
        T: Record,
        Sl: StoreSlot<S, K, T>,

    ensures
        r matches Ok(priors) ==> {
            &&& store_records_ok(Sl::part(old(store).model()), incoming@)
            &&& final(store).model() == Sl::with_part(
                old(store).model(),
                store_records_merged(Sl::part(old(store).model()), incoming@),
            )
            &&& priors@ == prior_values(Sl::part(old(store).model()), incoming@)
        },
        r matches Err(e) ==> (!old(store).reliable() && e is Storage) || (e
            == Error::DeltaDataMismatch && !store_records_ok(
            Sl::part(old(store).model()),
            incoming@,
        )),
        final(store).reliable() == old(store).reliable(),
{
    let keys = incoming.keys();
    let mut priors: BTreeMap<K, Option<T>> = BTreeMap::new();
    let ghost before = store.model();
    let ghost stored = Sl::part(before);
    let mut i: usize = 0;
    proof {
        lemma_first_keys_ends(keys@);
        lemma_store_ends::<K, T, T>(
            stored,
            incoming@,
            Map::empty(),
            Map::empty(),
            Map::empty(),
            Map::empty(),
        );
        Sl::lemma_slot(before, stored, stored);
    }
    while i < keys.len()
        invariant
            0 <= i <= keys.len(),
            before == old(store).model(),
            store.reliable() == old(store).reliable(),
            stored == Sl::part(before),
            keys@.no_duplicates(),
            keys@.to_set() == incoming@.dom(),
            store_records_ok(stored, incoming@.restrict(first_keys(keys@, i as int))),
            store.model() == Sl::with_part(
                before,
                store_records_merged(stored, incoming@.restrict(first_keys(keys@, i as int))),
            ),
            priors@ == prior_values(stored, incoming@.restrict(first_keys(keys@, i as int))),
        decreases keys.len() - i,
    {
        let key = keys[i];
        let ghost done = first_keys(keys@, i as int);
        let ghost so_far = store_records_merged(stored, incoming@.restrict(done));
        proof {
            lemma_first_keys_step(keys@, i as int);
            assert(keys@.to_set().contains(key));
            lemma_store_records_step(stored, incoming@, done, key);
            Sl::lemma_slot(before, so_far, so_far);
        }
        let delta = incoming.get(key).unwrap();
        let held = match Sl::read(store, key) {
            Ok(held) => held,
            Err(e) => {
                return Err(storage_failure(e));
            },
        };
        if !same_option(&held, &delta.from) {
            proof {
                assert(incoming@.contains_key(key));
            }
            return Err(Error::DeltaDataMismatch);
        }
        match Sl::write(store, key, delta.to) {
            Ok(()) => {},
            Err(e) => {
                return Err(storage_failure(e));
            },
        }
        put_at(&mut priors, key, held);
        proof {
            let next = incoming@.restrict(done.insert(key));
            Sl::lemma_slot(before, so_far, store_records_merged(stored, next));
            assert forall|k: K| #[trigger] next.contains_key(k) implies stored.get(k)
                == next[k].from by {
                if k != key {
                    assert(incoming@.restrict(done).contains_key(k));
                }
            }
        }
        i = i + 1;
    }
    Ok(priors)
}

/// Applies the changes of `incoming` to one collection of amounts of the store, key by key
/// in ascending order, and returns what the store held for each key.
///
/// A sum that is no amount ends the merge with its error, as in [`stored_amount`]; a
/// failure of the store ends it with the error of the store.
pub fn merge_amounts_into_store<S, K, Sl>(store: &mut S, incoming: &DeltaAmountCollection<K>) -> (r:
    Result<BTreeMap<K, Option<Amount>>, Error>)
    where
        S: PoSAccountingStorageWrite,
        K: OrderedKey + Copy,
        Sl: StoreSlot<S, K, Amount>,

    ensures
        r matches Ok(priors) ==> {
            &&& store_amounts_ok(Sl::part(old(store).model()), incoming@)
            &&& final(store).model() == Sl::with_part(
                old(store).model(),
                store_amounts_merged(Sl::part(old(store).model()), incoming@),
            )
            &&& priors@ == prior_values(Sl::part(old(store).model()), incoming@)
        },
        r matches Err(e) ==> (!old(store).reliable() && e is Storage) || (e.is_arithmetic()
            && !store_amounts_ok(Sl::part(old(store).model()), incoming@)
            && first_amount_failure(Sl::part(old(store).model()), incoming@, e)),
        final(store).reliable() == old(store).reliable(),
{
    let keys = incoming.keys();
    let ghost failing = |k: K| store_amount_fails(Sl::part(store.model()), incoming@, k);
    let mut priors: BTreeMap<K, Option<Amount>> = BTreeMap::new();
    let ghost before = store.model();
    let ghost stored = Sl::part(before);
    let mut i: usize = 0;
    proof {
        lemma_first_keys_ends(keys@);
        lemma_store_ends::<K, Amount, Amount>(
            Map::empty(),
            Map::empty(),
            stored,
            incoming@,
            Map::empty(),
            Map::empty(),
        );
        Sl::lemma_slot(before, stored, stored);
    }
    while i < keys.len()
        invariant
            0 <= i <= keys.len(),
            before == old(store).model(),
            store.reliable() == old(store).reliable(),
            stored == Sl::part(before),
            keys@.no_duplicates(),
            keys@.to_set() == incoming@.dom(),
            ascending(keys@),
            failing == (|k: K| store_amount_fails(stored, incoming@, k)),
            store_amounts_ok(stored, incoming@.restrict(first_keys(keys@, i as int))),
            store.model() == Sl::with_part(
                before,
                store_amounts_merged(stored, incoming@.restrict(first_keys(keys@, i as int))),
            ),
            priors@ == prior_values(stored, incoming@.restrict(first_keys(keys@, i as int))),
        decreases keys.len() - i,
    {
        let key = keys[i];
        let ghost done = first_keys(keys@, i as int);
        let ghost so_far = store_amounts_merged(stored, incoming@.restrict(done));
        proof {
            lemma_first_keys_step(keys@, i as int);
            assert(keys@.to_set().contains(key));
            lemma_store_amounts_step(stored, incoming@, done, key);
            Sl::lemma_slot(before, so_far, so_far);
        }
        let change = incoming.get(key).unwrap();
        let held = match Sl::read(store, key) {
            Ok(held) => held,
            Err(e) => {
                return Err(storage_failure(e));
            },
        };
        let sum = match merge_stored_amount(held, change) {
            Ok(sum) => sum,
            Err(e) => {
                proof {
                    assert(incoming@.contains_key(key));
                    assert forall|j: int| 0 <= j < i implies !failing(#[trigger] keys@[j]) by {
                        assert(first_keys(keys@, i as int).contains(keys@[j]));
                        assert(keys@.to_set().contains(keys@[j]));
                        assert(incoming@.restrict(done).contains_key(keys@[j]));
                    }
                    lemma_first_is_least_failing(keys@, failing, i as int);
                    assert(least_amount_failure(stored, incoming@, key));
                }
                return Err(e);
            },
        };
        match Sl::write(store, key, sum) {
            Ok(()) => {},
            Err(e) => {
                return Err(storage_failure(e));
            },
        }
        put_at(&mut priors, key, held);
        proof {
            let next = incoming@.restrict(done.insert(key));
            Sl::lemma_slot(before, so_far, store_amounts_merged(stored, next));
            assert forall|k: K| #[trigger] next.contains_key(k) implies stored_amount(
                stored.get(k),
                next[k],
            ) is Ok by {
                if k != key {
                    assert(incoming@.restrict(done).contains_key(k));
                }
            }
        }
        i = i + 1;
    }
    Ok(priors)
}

/// Sets each key of `priors` in one collection of the store back to what `priors` records
/// for it, key by key in ascending order. Fails only where the store fails.
pub fn restore_in_store<S, K, V, Sl>(store: &mut S, priors: &BTreeMap<K, Option<V>>) -> (r: Result<
    (),
    Error,
>)
    where
        S: PoSAccountingStorageWrite,
        K: OrderedKey + Copy,
        V: Copy,
        Sl: StoreSlot<S, K, V>,

    ensures
        r is Ok ==> final(store).model() == Sl::with_part(
            old(store).model(),
            restored_values(Sl::part(old(store).model()), priors@),
        ),
        r matches Err(e) ==> !old(store).reliable() && e is Storage,
        final(store).reliable() == old(store).reliable(),
{
    let keys = keys_of(priors);
    let ghost before = store.model();
    let ghost stored = Sl::part(before);
    let mut i: usize = 0;
    proof {
        lemma_first_keys_ends(keys@);
        lemma_store_ends::<K, V, V>(
            Map::empty(),
            Map::empty(),
            Map::empty(),
            Map::empty(),
            stored,
            priors@,
        );
        Sl::lemma_slot(before, stored, stored);
    }
    while i < keys.len()
        invariant
            0 <= i <= keys.len(),
            before == old(store).model(),
            store.reliable() == old(store).reliable(),
            stored == Sl::part(before),
            keys@.no_duplicates(),
            keys@.to_set() == priors@.dom(),
            store.model() == Sl::with_part(
                before,
                restored_values(stored, priors@.restrict(first_keys(keys@, i as int))),
            ),
        decreases keys.len() - i,
    {
        let key = keys[i];
        let ghost done = first_keys(keys@, i as int);
        let ghost so_far = restored_values(stored, priors@.restrict(done));
        proof {
            lemma_first_keys_step(keys@, i as int);
            assert(keys@.to_set().contains(key));
            lemma_restored_step(stored, priors@, done, key);
            Sl::lemma_slot(before, so_far, so_far);
        }
        let prior = value_at(priors, key).unwrap();
        match Sl::write(store, key, prior) {
            Ok(()) => {},
            Err(e) => {
                return Err(storage_failure(e));
            },
        }
        proof {
            let next = priors@.restrict(done.insert(key));
            Sl::lemma_slot(before, so_far, restored_values(stored, next));
        }
        i = i + 1;
    }
    Ok(())
}

} // verus!
