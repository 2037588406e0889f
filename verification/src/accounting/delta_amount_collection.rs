use crate::amount::{fits_signed, SignedAmount};
use crate::error::Error;
use crate::key::{ascending, first_keys, keys_of, lemma_first_keys_ends, lemma_first_keys_step, put_at, remove_at, value_at, OrderedKey};
use std::collections::BTreeMap;
use vstd::prelude::*;

verus! {

/// The amount that `amounts` holds for `k`; a key without an entry stands at zero.
pub open spec fn amount_at<K>(amounts: Map<K, SignedAmount>, k: K) -> int {
    if amounts.contains_key(k) {
        amounts[k]@
    } else {
        0
    }
}

/// The change that `incoming` asks for at `k`: its amount, with the sign flipped when a
/// merge is being taken back.
pub open spec fn change_at<K>(incoming: Map<K, SignedAmount>, k: K, negate: bool) -> int {
    if negate {
        -amount_at(incoming, k)
    } else {
        amount_at(incoming, k)
    }
}

/// True if no entry is zero.
pub open spec fn no_zero_amounts<K>(amounts: Map<K, SignedAmount>) -> bool {
    forall|k: K| #[trigger] amounts.contains_key(k) ==> amounts[k]@ != 0
}

/// True if each change of `incoming` can be added to what `current` holds for its key
/// without leaving the signed range.
pub open spec fn amounts_combine_ok<K>(
    current: Map<K, SignedAmount>,
    incoming: Map<K, SignedAmount>,
    negate: bool,
) -> bool {
    forall|k: K| #[trigger]
        incoming.contains_key(k) ==> fits_signed(
            amount_at(current, k) + change_at(incoming, k, negate),
        )
}

/// The amounts once each change of `incoming` has been added: a key of `incoming` holds the
/// sum, unless the sum is zero, which leaves the key without an entry; any other key is as
/// it was.
pub open spec fn combined_amounts<K>(
    current: Map<K, SignedAmount>,
    incoming: Map<K, SignedAmount>,
    negate: bool,
) -> Map<K, SignedAmount> {
    Map::new(
        |k: K|
            if incoming.contains_key(k) {
                amount_at(current, k) + change_at(incoming, k, negate) != 0
            } else {
                current.contains_key(k)
            },
        |k: K|
            if incoming.contains_key(k) {
                SignedAmount::spec_new(amount_at(current, k) + change_at(incoming, k, negate))
            } else {
                current[k]
            },
    )
}

/// True if `incoming` can be merged into `current`.
pub open spec fn amounts_merge_ok<K>(
    current: Map<K, SignedAmount>,
    incoming: Map<K, SignedAmount>,
) -> bool {
    amounts_combine_ok(current, incoming, false)
}

/// The amounts once `incoming` has been merged into `current`.
pub open spec fn merged_amounts<K>(
    current: Map<K, SignedAmount>,
    incoming: Map<K, SignedAmount>,
) -> Map<K, SignedAmount> {
    combined_amounts(current, incoming, false)
}

/// True if the merge of `undo` can be taken back from `current`.
pub open spec fn amounts_undo_ok<K>(
    current: Map<K, SignedAmount>,
    undo: Map<K, SignedAmount>,
) -> bool {
    amounts_combine_ok(current, undo, true)
}

/// The amounts once the merge of `undo` has been taken back from `current`.
pub open spec fn unmerged_amounts<K>(
    current: Map<K, SignedAmount>,
    undo: Map<K, SignedAmount>,
) -> Map<K, SignedAmount> {
    combined_amounts(current, undo, true)
}

/// The amounts that a list of entries adds up to, entry by entry from the first, or
/// [`Error::AmountOverflow`] if a sum on the way leaves the signed range.
pub open spec fn summed_entries<K>(entries: Seq<(K, SignedAmount)>) -> Result<
    Map<K, SignedAmount>,
    Error,
>
    decreases entries.len(),
{
    if entries.len() == 0 {
        Ok(Map::empty())
    } else {
        match summed_entries(entries.drop_last()) {
            Err(e) => Err(e),
            Ok(amounts) => {
                let (k, amount) = entries.last();
                if fits_signed(amount_at(amounts, k) + amount@) {
                    Ok(combined_amounts(amounts, map![k => amount], false))
                } else {
                    Err(Error::AmountOverflow)
                }
            },
        }
    }
}

/// Combining never leaves a zero entry behind where there was none.
pub proof fn lemma_combined_no_zero<K>(
    current: Map<K, SignedAmount>,
    incoming: Map<K, SignedAmount>,
    negate: bool,
)
    requires
        no_zero_amounts(current),
        amounts_combine_ok(current, incoming, negate),
    ensures
        no_zero_amounts(combined_amounts(current, incoming, negate)),
{
    let combined = combined_amounts(current, incoming, negate);
    assert forall|k: K| #[trigger] combined.contains_key(k) implies combined[k]@ != 0 by {
        if incoming.contains_key(k) {
            SignedAmount::lemma_spec_new_view(
                amount_at(current, k) + change_at(incoming, k, negate),
            );
        } else {
            assert(current.contains_key(k));
        }
    }
}

/// Applying the change of one more key is one combination with a single entry.
pub proof fn lemma_combined_step<K>(
    current: Map<K, SignedAmount>,
    incoming: Map<K, SignedAmount>,
    negate: bool,
    done: Set<K>,
    k: K,
)
    requires
        incoming.contains_key(k),
        !done.contains(k),
    ensures
        amount_at(combined_amounts(current, incoming.restrict(done), negate), k) == amount_at(
            current,
            k,
        ),
        combined_amounts(current, incoming.restrict(done.insert(k)), negate) == combined_amounts(
            combined_amounts(current, incoming.restrict(done), negate),
            map![k => incoming[k]],
            negate,
        ),
{
    let so_far = combined_amounts(current, incoming.restrict(done), negate);
    let single = map![k => incoming[k]];
    assert(so_far.contains_key(k) == current.contains_key(k));
    assert(combined_amounts(current, incoming.restrict(done.insert(k)), negate) =~= combined_amounts(
        so_far,
        single,
        negate,
    ));
}

/// Before any key is applied nothing has changed; once all are, the whole of `incoming` is.
pub proof fn lemma_combined_ends<K>(
    current: Map<K, SignedAmount>,
    incoming: Map<K, SignedAmount>,
    negate: bool,
)
    ensures
        combined_amounts(current, incoming.restrict(Set::<K>::empty()), negate) == current,
        incoming.restrict(incoming.dom()) == incoming,
{
    assert(combined_amounts(current, incoming.restrict(Set::<K>::empty()), negate) =~= current);
    assert(incoming.restrict(incoming.dom()) =~= incoming);
}

/// Taking back a merge restores the amounts exactly, also for a key whose sum the merge
/// brought to zero and so left without an entry.
pub proof fn lemma_amounts_merge_then_undo<K>(
    current: Map<K, SignedAmount>,
    incoming: Map<K, SignedAmount>,
)
    requires
        no_zero_amounts(current),
        amounts_merge_ok(current, incoming),
    ensures
        amounts_undo_ok(merged_amounts(current, incoming), incoming),
        unmerged_amounts(merged_amounts(current, incoming), incoming) == current,
{
    let merged = merged_amounts(current, incoming);
    let after = unmerged_amounts(merged, incoming);
    assert forall|k: K| #[trigger] incoming.contains_key(k) implies amount_at(merged, k)
        == amount_at(current, k) + incoming[k]@ by {
        SignedAmount::lemma_spec_new_view(amount_at(current, k) + incoming[k]@);
    }
    assert forall|k: K| #[trigger] incoming.contains_key(k) implies fits_signed(
        amount_at(merged, k) + change_at(incoming, k, true),
    ) by {
        if current.contains_key(k) {
            current[k].lemma_in_range();
        }
    }
    assert forall|k: K| after.contains_key(k) == current.contains_key(k) by {
        if incoming.contains_key(k) {
            assert(amount_at(merged, k) == amount_at(current, k) + incoming[k]@);
        }
    }
    assert forall|k: K| #[trigger] after.contains_key(k) implies after[k] == current[k] by {
        if incoming.contains_key(k) {
            assert(amount_at(merged, k) == amount_at(current, k) + incoming[k]@);
            current[k].lemma_in_range();
        }
    }
    assert(after =~= current);
}

/// Two changes of one key that cancel leave the key as it was: where it had no entry it has
/// none again, and what was merged last is still there to be taken back.
pub proof fn lemma_cancelling_amounts_prune<K>(
    current: Map<K, SignedAmount>,
    k: K,
    amount: SignedAmount,
    opposite: SignedAmount,
)
    requires
        no_zero_amounts(current),
        opposite@ == -amount@,
        amounts_merge_ok(current, map![k => amount]),
    ensures
        amounts_merge_ok(merged_amounts(current, map![k => amount]), map![k => opposite]),
        merged_amounts(merged_amounts(current, map![k => amount]), map![k => opposite])
            == current,
        !current.contains_key(k) ==> !merged_amounts(
            merged_amounts(current, map![k => amount]),
            map![k => opposite],
        ).contains_key(k),
        unmerged_amounts(current, map![k => opposite]) == merged_amounts(
            current,
            map![k => amount],
        ),
{
    let first = map![k => amount];
    let second = map![k => opposite];
    let once = merged_amounts(current, first);
    let twice = merged_amounts(once, second);
    assert(first.contains_key(k));
    assert(second.contains_key(k));
    SignedAmount::lemma_spec_new_view(amount_at(current, k) + amount@);
    if current.contains_key(k) {
        current[k].lemma_in_range();
    }
    assert(amount_at(once, k) == amount_at(current, k) + amount@);
    assert forall|j: K| #[trigger] second.contains_key(j) implies fits_signed(
        amount_at(once, j) + change_at(second, j, false),
    ) by {
        assert(j == k);
    }
    assert forall|j: K| #[trigger] twice.contains_key(j) implies twice[j] == current[j] by {
        if j == k {
            current[k].lemma_in_range();
        }
    }
    assert(twice =~= current);
    assert(unmerged_amounts(current, second) =~= once);
}

/// Merging nothing changes nothing, and merging into nothing gives what was merged.
pub proof fn lemma_amounts_merge_empty<K>(current: Map<K, SignedAmount>)
    ensures
        amounts_merge_ok(current, Map::<K, SignedAmount>::empty()),
        merged_amounts(current, Map::<K, SignedAmount>::empty()) == current,
        amounts_merge_ok(Map::<K, SignedAmount>::empty(), current),
        no_zero_amounts(current) ==> merged_amounts(Map::<K, SignedAmount>::empty(), current)
            == current,
{
    assert(merged_amounts(current, Map::<K, SignedAmount>::empty()) =~= current);
    assert forall|k: K| #[trigger] current.contains_key(k) implies fits_signed(
        amount_at(Map::<K, SignedAmount>::empty(), k) + change_at(current, k, false),
    ) by {
        current[k].lemma_in_range();
    }
    if no_zero_amounts(current) {
        let merged = merged_amounts(Map::<K, SignedAmount>::empty(), current);
        assert forall|k: K| #[trigger] merged.contains_key(k) implies merged[k]
            == current[k] by {
            current[k].lemma_in_range();
        }
        assert(merged =~= current);
    }
}

/// The net change of the amount of each key: a signed amount for every key that changed,
/// and no entry for a key whose changes add up to zero.
#[derive(Debug, PartialEq, Eq)]
pub struct DeltaAmountCollection<K> {
    data: BTreeMap<K, SignedAmount>,
}

impl<K: Clone> Clone for DeltaAmountCollection<K> {
    fn clone(&self) -> (copy: Self)
        ensures
            copy@ == self@,
    {
        proof {
            use_type_invariant(self);
        }
        let data = self.data.clone();
        DeltaAmountCollection { data }
    }
}

impl<K> DeltaAmountCollection<K> {
    /// The net change recorded for each key.
    pub closed spec fn view(&self) -> Map<K, SignedAmount> {
        self.data@
    }

    /// What holds of every collection: it has no entry of zero.
    #[verifier::type_invariant]
    pub open spec fn wf(&self) -> bool {
        no_zero_amounts(self@)
    }
}

impl<K: OrderedKey + Copy> DeltaAmountCollection<K> {
    /// The collection that records no change.
    pub fn new() -> (collection: Self)
        ensures
            collection@ == Map::<K, SignedAmount>::empty(),
    {
        let data: BTreeMap<K, SignedAmount> = BTreeMap::new();
        DeltaAmountCollection { data }
    }

    /// The collection that `entries` add up to: the amounts of one key are summed, and a key
    /// whose sum is zero gets no entry. Fails with [`Error::AmountOverflow`] if a sum on the
    /// way leaves the signed range.
    pub fn from_entries(entries: Vec<(K, SignedAmount)>) -> (r: Result<Self, Error>)
        ensures
            r is Ok <==> summed_entries(entries@) is Ok,
            r matches Ok(collection) ==> Ok::<Map<K, SignedAmount>, Error>(collection@)
                == summed_entries(entries@),
            r matches Err(e) ==> e == Error::AmountOverflow,
    {
        let mut collection = Self::new();
        let mut i: usize = 0;
        while i < entries.len()
            invariant
                0 <= i <= entries.len(),
                summed_entries(entries@.take(i as int)) == Ok::<Map<K, SignedAmount>, Error>(
                    collection@,
                ),
            decreases entries.len() - i,
        {
            let (key, amount) = entries[i];
            proof {
                let next = entries@.take(i + 1);
                assert(next.drop_last() =~= entries@.take(i as int));
                assert(next.last() == entries@[i as int]);
            }
            match collection.merge_delta_amount_element(key, amount) {
                Ok(()) => {},
                Err(e) => {
                    proof {
                        lemma_summed_entries_fails_on(entries@, i + 1);
                    }
                    return Err(e);
                },
            }
            i = i + 1;
        }
        proof {
            assert(entries@.take(entries.len() as int) =~= entries@);
        }
        Ok(collection)
    }

    /// The net change recorded for `key`, if any.
    pub fn get(&self, key: K) -> (amount: Option<SignedAmount>)
        ensures
            amount == self@.get(key),
    {
        value_at(&self.data, key)
    }

    /// The keys that have a net change, each once, in ascending order.
    pub fn keys(&self) -> (keys: Vec<K>)
        ensures
            keys@.no_duplicates(),
            keys@.to_set() == self@.dom(),
            ascending(keys@),
    {
        keys_of(&self.data)
    }

    /// Adds `amount` to the net change of `key`; a sum of zero leaves the key without an
    /// entry. Fails with [`Error::AmountOverflow`], changing nothing, if the sum leaves the
    /// signed range.
    pub fn merge_delta_amount_element(&mut self, key: K, amount: SignedAmount) -> (r: Result<
        (),
        Error,
    >)
        ensures
            fits_signed(amount_at(old(self)@, key) + amount@) ==> r is Ok && final(self)@
                == merged_amounts(old(self)@, map![key => amount]),
            !fits_signed(amount_at(old(self)@, key) + amount@) ==> r == Err::<(), Error>(
                Error::AmountOverflow,
            ) && final(self)@ == old(self)@,
    {
        self.apply_element(key, amount, false)
    }

    /// Takes `amount` back from the net change of `key`; a difference of zero leaves the
    /// key without an entry. Fails with [`Error::AmountOverflow`], changing nothing, if the
    /// difference leaves the signed range.
    pub fn undo_merge_delta_amount_element(&mut self, key: K, amount: SignedAmount) -> (r:
        Result<(), Error>)
        ensures
            fits_signed(amount_at(old(self)@, key) - amount@) ==> r is Ok && final(self)@
                == unmerged_amounts(old(self)@, map![key => amount]),
            !fits_signed(amount_at(old(self)@, key) - amount@) ==> r == Err::<(), Error>(
                Error::AmountOverflow,
            ) && final(self)@ == old(self)@,
    {
        self.apply_element(key, amount, true)
    }

    /// Merges every change of `delta` into the collection.
    ///
    /// Succeeds exactly if every sum stays within the signed range, and then returns what
    /// [`Self::undo_merge_delta_amounts`] needs to take the merge back: the amounts that were
    /// added, whatever the sums came to. On failure the collection is left partly merged.
    pub fn merge_delta_amounts(&mut self, delta: DeltaAmountCollection<K>) -> (r: Result<
        DeltaAmountCollection<K>,
        Error,
    >)
        ensures
            r is Ok <==> amounts_merge_ok(old(self)@, delta@),
            r matches Ok(undo) ==> final(self)@ == merged_amounts(old(self)@, delta@) && undo@
                == delta@,
            r matches Err(e) ==> e == Error::AmountOverflow,
    {
        match self.apply_all(&delta.data, false) {
            Ok(()) => Ok(delta),
            Err(e) => Err(e),
        }
    }

    /// Takes back the merge that returned `undo`, by subtracting each amount that it added.
    ///
    /// Succeeds exactly if every difference stays within the signed range, which holds when
    /// the collection has not changed since that merge.
    pub fn undo_merge_delta_amounts(&mut self, undo: DeltaAmountCollection<K>) -> (r: Result<
        (),
        Error,
    >)
        ensures
            r is Ok <==> amounts_undo_ok(old(self)@, undo@),
            r is Ok ==> final(self)@ == unmerged_amounts(old(self)@, undo@),
            r matches Err(e) ==> e == Error::AmountOverflow,
    {
        self.apply_all(&undo.data, true)
    }

    fn apply_element(&mut self, key: K, amount: SignedAmount, negate: bool) -> (r: Result<
        (),
        Error,
    >)
        ensures
            fits_signed(amount_at(old(self)@, key) + change_at(map![key => amount], key, negate))
                ==> r is Ok && final(self)@ == combined_amounts(
                old(self)@,
                map![key => amount],
                negate,
            ),
            !fits_signed(amount_at(old(self)@, key) + change_at(map![key => amount], key, negate))
                ==> r == Err::<(), Error>(Error::AmountOverflow) && final(self)@ == old(self)@,
    {
        proof {
            use_type_invariant(&*self);
        }
        let current = match value_at(&self.data, key) {
            Some(current) => current,
            None => SignedAmount::zero(),
        };
        let combined = if negate {
            current.checked_sub(amount)
        } else {
            current.checked_add(amount)
        };
        match combined {
            Ok(sum) => {
                let ghost before = self@;
                let mut data: BTreeMap<K, SignedAmount> = BTreeMap::new();
                std::mem::swap(&mut data, &mut self.data);
                if sum.is_zero() {
                    remove_at(&mut data, key);
                } else {
                    put_at(&mut data, key, sum);
                }
                proof {
                    sum.lemma_in_range();
                    assert(data@ =~= combined_amounts(before, map![key => amount], negate));
                    lemma_combined_no_zero(before, map![key => amount], negate);
                }
                self.data = data;
                Ok(())
            },
            Err(e) => Err(e),
        }
    }

    fn apply_all(&mut self, incoming: &BTreeMap<K, SignedAmount>, negate: bool) -> (r: Result<
        (),
        Error,
    >)
        ensures
            r is Ok <==> amounts_combine_ok(old(self)@, incoming@, negate),
            r is Ok ==> final(self)@ == combined_amounts(old(self)@, incoming@, negate),
            r matches Err(e) ==> e == Error::AmountOverflow,
    {
        let keys = keys_of(incoming);
        let ghost before = self@;
        let mut i: usize = 0;
        proof {
            lemma_first_keys_ends(keys@);
            lemma_combined_ends(before, incoming@, negate);
        }
        while i < keys.len()
            invariant
                0 <= i <= keys.len(),
                before == old(self)@,
                keys@.no_duplicates(),
                keys@.to_set() == incoming@.dom(),
                amounts_combine_ok(before, incoming@.restrict(first_keys(keys@, i as int)), negate),
                self@ == combined_amounts(
                    before,
                    incoming@.restrict(first_keys(keys@, i as int)),
                    negate,
                ),
            decreases keys.len() - i,
        {
            let key = keys[i];
            let ghost done = first_keys(keys@, i as int);
            proof {
                lemma_first_keys_step(keys@, i as int);
                assert(keys@.to_set().contains(key));
                lemma_combined_step(before, incoming@, negate, done, key);
            }
            let amount = value_at(incoming, key).unwrap();
            match self.apply_element(key, amount, negate) {
                Ok(()) => {},
                Err(e) => {
                    proof {
                        assert(incoming@.contains_key(key));
                        assert(!fits_signed(
                            amount_at(before, key) + change_at(incoming@, key, negate),
                        ));
                    }
                    return Err(e);
                },
            }
            proof {
                let next = incoming@.restrict(done.insert(key));
                assert forall|k: K| #[trigger] next.contains_key(k) implies fits_signed(
                    amount_at(before, k) + change_at(next, k, negate),
                ) by {
                    if k != key {
                        assert(incoming@.restrict(done).contains_key(k));
                    }
                }
            }
            i = i + 1;
        }
        proof {
            lemma_first_keys_ends(keys@);
            lemma_combined_ends(before, incoming@, negate);
        }
        Ok(())
    }
}

/// Once the entries up to some point fail to add up, so do all of them.
pub proof fn lemma_summed_entries_fails_on<K>(entries: Seq<(K, SignedAmount)>, n: int)
    requires
        0 <= n <= entries.len(),
        summed_entries(entries.take(n)) is Err,
    ensures
        summed_entries(entries) is Err,
        summed_entries(entries) == summed_entries(entries.take(n)),
    decreases entries.len() - n,
{
    if n == entries.len() {
        assert(entries.take(n) =~= entries);
    } else {
        let next = entries.take(n + 1);
        assert(next.drop_last() =~= entries.take(n));
        lemma_summed_entries_fails_on(entries, n + 1);
    }
}

} // verus!
