use crate::accounting::data_delta::{DataDelta, Record};
use crate::error::Error;
use crate::key::{ascending, first_keys, keys_of, lemma_first_keys_ends, lemma_first_keys_step, put_at, value_at, OrderedKey};
use std::collections::BTreeMap;
use vstd::prelude::*;

verus! {

/// True if every transition of `incoming` starts where the transition that `current` holds
/// for the same key ended.
pub open spec fn data_merge_ok<K, T>(
    current: Map<K, DataDelta<T>>,
    incoming: Map<K, DataDelta<T>>,
) -> bool {
    forall|k: K| #[trigger]
        incoming.contains_key(k) && current.contains_key(k) ==> current[k].to == incoming[k].from
}

/// The transition that a key has once `incoming` has been merged into `current`.
pub open spec fn merged_entry<K, T>(
    current: Map<K, DataDelta<T>>,
    incoming: Map<K, DataDelta<T>>,
    k: K,
) -> DataDelta<T> {
    if incoming.contains_key(k) {
        if current.contains_key(k) {
            DataDelta { from: current[k].from, to: incoming[k].to }
        } else {
            incoming[k]
        }
    } else {
        current[k]
    }
}

/// The transitions once `incoming` has been merged into `current`: a key of both has the
/// net transition, any other key the one transition there is.
pub open spec fn merged_data<K, T>(
    current: Map<K, DataDelta<T>>,
    incoming: Map<K, DataDelta<T>>,
) -> Map<K, DataDelta<T>> {
    Map::new(
        |k: K| current.contains_key(k) || incoming.contains_key(k),
        |k: K| merged_entry(current, incoming, k),
    )
}

/// The inverse of each transition.
pub open spec fn inverted_data<K, T>(deltas: Map<K, DataDelta<T>>) -> Map<K, DataDelta<T>> {
    Map::new(|k: K| deltas.contains_key(k), |k: K| deltas[k].inverse())
}

/// The map that a list of entries stands for: a later entry replaces an earlier one of the
/// same key.
pub open spec fn entries_to_map<K, V>(entries: Seq<(K, V)>) -> Map<K, V>
    decreases entries.len(),
{
    if entries.len() == 0 {
        Map::empty()
    } else {
        entries_to_map(entries.drop_last()).insert(entries.last().0, entries.last().1)
    }
}

/// Merging one more key is one insertion.
pub proof fn lemma_merged_data_step<K, T>(
    current: Map<K, DataDelta<T>>,
    incoming: Map<K, DataDelta<T>>,
    done: Set<K>,
    k: K,
)
    requires
        incoming.contains_key(k),
        !done.contains(k),
    ensures
        merged_data(current, incoming.restrict(done.insert(k))) == merged_data(
            current,
            incoming.restrict(done),
        ).insert(k, merged_entry(current, incoming, k)),
        merged_data(current, incoming.restrict(done)).get(k) == current.get(k),
        inverted_data(incoming.restrict(done.insert(k))) == inverted_data(
            incoming.restrict(done),
        ).insert(k, incoming[k].inverse()),
{
    assert(merged_data(current, incoming.restrict(done.insert(k))) =~= merged_data(
        current,
        incoming.restrict(done),
    ).insert(k, merged_entry(current, incoming, k)));
    assert(inverted_data(incoming.restrict(done.insert(k))) =~= inverted_data(
        incoming.restrict(done),
    ).insert(k, incoming[k].inverse()));
}

/// Before any key is merged nothing has changed; once all are, the whole of `incoming` is in.
pub proof fn lemma_merged_data_ends<K, T>(
    current: Map<K, DataDelta<T>>,
    incoming: Map<K, DataDelta<T>>,
)
    ensures
        merged_data(current, incoming.restrict(Set::<K>::empty())) == current,
        inverted_data(incoming.restrict(Set::<K>::empty())) == Map::<K, DataDelta<T>>::empty(),
        incoming.restrict(incoming.dom()) == incoming,
{
    assert(merged_data(current, incoming.restrict(Set::<K>::empty())) =~= current);
    assert(inverted_data(incoming.restrict(Set::<K>::empty())) =~= Map::<
        K,
        DataDelta<T>,
    >::empty());
    assert(incoming.restrict(incoming.dom()) =~= incoming);
}

/// The transitions recorded for a set of keys, at most one for each key.
#[derive(Clone, Debug, PartialEq, Eq)]
pub struct DeltaDataCollection<K, T> {
    data: BTreeMap<K, DataDelta<T>>,
}

/// What takes back one merge into a [`DeltaDataCollection`]: for each key that the merge
/// touched, the inverse of the transition that it merged in.
#[derive(Clone, Debug, PartialEq, Eq)]
pub struct DeltaDataUndoCollection<K, T> {
    data: BTreeMap<K, DataDelta<T>>,
}

impl<K, T> DeltaDataUndoCollection<K, T> {
    /// The inverse transition recorded for each key.
    pub closed spec fn view(&self) -> Map<K, DataDelta<T>> {
        self.data@
    }
}

impl<K: OrderedKey + Copy, T: Record> DeltaDataUndoCollection<K, T> {
    /// The inverse transition recorded for `key`, if the merge touched it.
    pub fn get(&self, key: K) -> (delta: Option<DataDelta<T>>)
        ensures
            delta == self@.get(key),
    {
        value_at(&self.data, key)
    }
}

impl<K, T> DeltaDataCollection<K, T> {
    /// The transition recorded for each key.
    pub closed spec fn view(&self) -> Map<K, DataDelta<T>> {
        self.data@
    }
}

impl<K: OrderedKey + Copy, T: Record> DeltaDataCollection<K, T> {
    /// The collection that records nothing.
    pub fn new() -> (collection: Self)
        ensures
            collection@ == Map::<K, DataDelta<T>>::empty(),
    {
        DeltaDataCollection { data: BTreeMap::new() }
    }

    /// The collection that holds `entries`; of two entries for one key the later one stays.
    pub fn from_entries(entries: Vec<(K, DataDelta<T>)>) -> (collection: Self)
        ensures
            collection@ == entries_to_map(entries@),
    {
        let mut data: BTreeMap<K, DataDelta<T>> = BTreeMap::new();
        let mut i: usize = 0;
        while i < entries.len()
            invariant
                0 <= i <= entries.len(),
                data@ == entries_to_map(entries@.take(i as int)),
            decreases entries.len() - i,
        {
            let (key, delta) = entries[i];
            proof {
                let next = entries@.take(i + 1);
                assert(next.drop_last() =~= entries@.take(i as int));
                assert(next.last() == entries@[i as int]);
            }
            put_at(&mut data, key, delta);
            i = i + 1;
        }
        proof {
            assert(entries@.take(entries.len() as int) =~= entries@);
        }
        DeltaDataCollection { data }
    }

    /// The transition recorded for `key`, if any.
    pub fn get(&self, key: K) -> (delta: Option<DataDelta<T>>)
        ensures
            delta == self@.get(key),
    {
        value_at(&self.data, key)
    }

    /// The keys that have a transition, each once, in ascending order.
    pub fn keys(&self) -> (keys: Vec<K>)
        ensures
            keys@.no_duplicates(),
            keys@.to_set() == self@.dom(),
            ascending(keys@),
    {
        keys_of(&self.data)
    }

    /// Merges the transition `delta` of `key` into the collection and returns its inverse.
    ///
    /// A key with no transition yet takes `delta` as it is; otherwise the two are composed.
    /// Fails with [`Error::DeltaDataMismatch`], changing nothing, if `delta` does not start
    /// where the recorded transition ended.
    pub fn merge_delta_data_element(&mut self, key: K, delta: DataDelta<T>) -> (r: Result<
        DataDelta<T>,
        Error,
    >)
        ensures
            old(self)@.contains_key(key) && old(self)@[key].to != delta.from ==> r == Err::<
                DataDelta<T>,
                Error,
            >(Error::DeltaDataMismatch) && final(self)@ == old(self)@,
            !(old(self)@.contains_key(key) && old(self)@[key].to != delta.from) ==> r == Ok::<
                DataDelta<T>,
                Error,
            >(delta.inverse()) && final(self)@ == old(self)@.insert(
                key,
                merged_entry(old(self)@, map![key => delta], key),
            ),
    {
        let merged = match value_at(&self.data, key) {
            Some(current) => {
                match current.combine(delta) {
                    Ok(net) => net,
                    Err(e) => {
                        return Err(e);
                    },
                }
            },
            None => delta,
        };
        put_at(&mut self.data, key, merged);
        Ok(delta.invert())
    }

    /// Merges every transition of `delta` into the collection.
    ///
    /// Succeeds exactly if each transition of `delta` starts where the transition recorded
    /// for its key ended, and then returns what [`Self::undo_merge_delta_data`] needs to take
    /// the merge back. On failure the collection is left partly merged.
    pub fn merge_delta_data(&mut self, delta: DeltaDataCollection<K, T>) -> (r: Result<
        DeltaDataUndoCollection<K, T>,
        Error,
    >)
        ensures
            r is Ok <==> data_merge_ok(old(self)@, delta@),
            r matches Ok(undo) ==> final(self)@ == merged_data(old(self)@, delta@) && undo@
                == inverted_data(delta@),
            r matches Err(e) ==> e == Error::DeltaDataMismatch,
    {
        let undo = self.merge_all(&delta.data)?;
        Ok(DeltaDataUndoCollection { data: undo })
    }

    /// Takes back the merge that returned `undo`, by merging the inverse transitions in.
    ///
    /// A key that the merge composed onto has its earlier transition again; a key that the
    /// merge introduced keeps an entry, which changes nothing. Succeeds exactly if each
    /// inverse starts where the recorded transition of its key ends, which holds when the
    /// collection has not changed since that merge.
    pub fn undo_merge_delta_data(&mut self, undo: DeltaDataUndoCollection<K, T>) -> (r: Result<
        (),
        Error,
    >)
        ensures
            r is Ok <==> data_merge_ok(old(self)@, undo@),
            r is Ok ==> final(self)@ == merged_data(old(self)@, undo@),
            r matches Err(e) ==> e == Error::DeltaDataMismatch,
    {
        let _ = self.merge_all(&undo.data)?;
        Ok(())
    }

    /// Takes back the merge of one transition, given the inverse that the merge returned.
    pub fn undo_merge_delta_data_element(&mut self, key: K, undo: DataDelta<T>) -> (r: Result<
        (),
        Error,
    >)
        ensures
            old(self)@.contains_key(key) && old(self)@[key].to != undo.from ==> r == Err::<
                (),
                Error,
            >(Error::DeltaDataMismatch) && final(self)@ == old(self)@,
            !(old(self)@.contains_key(key) && old(self)@[key].to != undo.from) ==> r is Ok
                && final(self)@ == old(self)@.insert(
                key,
                merged_entry(old(self)@, map![key => undo], key),
            ),
    {
        match self.merge_delta_data_element(key, undo) {
            Ok(_) => Ok(()),
            Err(e) => Err(e),
        }
    }

    fn merge_all(&mut self, incoming: &BTreeMap<K, DataDelta<T>>) -> (r: Result<
        BTreeMap<K, DataDelta<T>>,
        Error,
    >)
        ensures
            r is Ok <==> data_merge_ok(old(self)@, incoming@),
            r matches Ok(inverses) ==> final(self)@ == merged_data(old(self)@, incoming@)
                && inverses@ == inverted_data(incoming@),
            r matches Err(e) ==> e == Error::DeltaDataMismatch,
    {
        let keys = keys_of(incoming);
        let mut inverses: BTreeMap<K, DataDelta<T>> = BTreeMap::new();
        let ghost before = self@;
        let mut i: usize = 0;
        proof {
            lemma_first_keys_ends(keys@);
            lemma_merged_data_ends(before, incoming@);
        }
        while i < keys.len()
            invariant
                0 <= i <= keys.len(),
                before == old(self)@,
                keys@.no_duplicates(),
                keys@.to_set() == incoming@.dom(),
                data_merge_ok(before, incoming@.restrict(first_keys(keys@, i as int))),
                self@ == merged_data(before, incoming@.restrict(first_keys(keys@, i as int))),
                inverses@ == inverted_data(incoming@.restrict(first_keys(keys@, i as int))),
            decreases keys.len() - i,
        {
            let key = keys[i];
            let ghost done = first_keys(keys@, i as int);
            proof {
                lemma_first_keys_step(keys@, i as int);
                assert(keys@.to_set().contains(key));
                lemma_merged_data_step(before, incoming@, done, key);
            }
            let delta = value_at(incoming, key).unwrap();
            let ghost mid = self@;
            assert(mid.get(key) == before.get(key));
            match self.merge_delta_data_element(key, delta) {
                Ok(inverse) => {
                    put_at(&mut inverses, key, inverse);
                },
                Err(e) => {
                    proof {
                        assert(mid.contains_key(key) && mid[key].to != delta.from);
                        assert(incoming@.contains_key(key) && before.contains_key(key));
                        assert(before[key].to != incoming@[key].from);
                    }
                    return Err(e);
                },
            }
            proof {
                let next = incoming@.restrict(done.insert(key));
                assert forall|k: K| #[trigger]
                    next.contains_key(k) && before.contains_key(k) implies before[k].to
                    == next[k].from by {
                    if k != key {
                        assert(incoming@.restrict(done).contains_key(k));
                    }
                }
            }
            i = i + 1;
        }
        proof {
            lemma_first_keys_ends(keys@);
            lemma_merged_data_ends(before, incoming@);
        }
        Ok(inverses)
    }
}

/// Merging and then taking the merge back restores every transition that was there before;
/// a key that only the merge brought in is left with a transition that changes nothing.
pub proof fn lemma_data_merge_then_undo<K, T>(
    current: Map<K, DataDelta<T>>,
    incoming: Map<K, DataDelta<T>>,
)
    requires
        data_merge_ok(current, incoming),
    ensures
        data_merge_ok(merged_data(current, incoming), inverted_data(incoming)),
        ({
            let after = merged_data(merged_data(current, incoming), inverted_data(incoming));
            &&& after.dom() == current.dom().union(incoming.dom())
            &&& forall|k: K| #[trigger] current.contains_key(k) ==> after[k] == current[k]
            &&& forall|k: K|
                !current.contains_key(k) && #[trigger] incoming.contains_key(k) ==> after[k] == (
                DataDelta { from: incoming[k].from, to: incoming[k].from })
            &&& incoming.dom().subset_of(current.dom()) ==> after == current
        }),
{
    let merged = merged_data(current, incoming);
    let undo = inverted_data(incoming);
    let after = merged_data(merged, undo);
    assert(after.dom() =~= current.dom().union(incoming.dom()));
    assert forall|k: K| #[trigger] current.contains_key(k) implies after[k] == current[k] by {
        if incoming.contains_key(k) {
            assert(current[k].to == incoming[k].from);
        }
    }
    if incoming.dom().subset_of(current.dom()) {
        assert(after =~= current);
    }
}

/// Merging nothing changes nothing.
pub proof fn lemma_data_merge_empty<K, T>(current: Map<K, DataDelta<T>>)
    ensures
        data_merge_ok(current, Map::<K, DataDelta<T>>::empty()),
        merged_data(current, Map::<K, DataDelta<T>>::empty()) == current,
        data_merge_ok(Map::<K, DataDelta<T>>::empty(), current),
        merged_data(Map::<K, DataDelta<T>>::empty(), current) == current,
{
    assert(merged_data(current, Map::<K, DataDelta<T>>::empty()) =~= current);
    assert(merged_data(Map::<K, DataDelta<T>>::empty(), current) =~= current);
}

} // verus!
