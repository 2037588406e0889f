use std::collections::BTreeMap;
use vstd::laws_cmp::obeys_cmp;
use vstd::prelude::*;
use vstd::std_specs::btree::increasing_seq;
use vstd::std_specs::cmp::{OrdSpec, PartialOrdSpec};
use vstd::std_specs::iter::IteratorSpec;

verus! {

/// A key type whose order is the strict total order that ordered maps rely on.
pub trait OrderedKey: Ord + Sized {
    /// The comparison of two keys follows the laws of a total order.
    proof fn key_is_ordered()
        ensures
            obeys_cmp::<Self>(),
    ;
}

impl OrderedKey for (u128, u128) {
    proof fn key_is_ordered() {
    }
}

impl OrderedKey for ((u128, u128), (u128, u128)) {
    proof fn key_is_ordered() {
    }
}

/// True if each key is below every later one.
pub open spec fn ascending<K: Ord>(keys: Seq<K>) -> bool {
    forall|i: int, j: int|
        0 <= i < j < keys.len() ==> #[trigger] keys[i].cmp_spec(&keys[j]) is Less
}

proof fn lemma_unref_ascending<K: Ord>(refs: Seq<&K>)
    requires
        obeys_cmp::<K>(),
        increasing_seq(refs),
    ensures
        ascending(refs.unref()),
{
    broadcast use vstd::laws_cmp::lemma_ref_obeys_cmp_spec;
    assert(obeys_cmp::<&K>());
    vstd::std_specs::btree::axiom_increasing_seq_meaning::<&K>(refs);
    assert forall|i: int, j: int| 0 <= i < j < refs.unref().len() implies #[trigger]
        refs.unref()[i].cmp_spec(&refs.unref()[j]) is Less by {
        assert(OrdSpec::cmp_spec(&refs[i], &refs[j]) is Less);
    }
}

/// True if `k` is the least of the keys for which `failing` holds: it is one of them, and
/// none of them is below it.
pub open spec fn least_failing<K: Ord>(keys: Set<K>, failing: spec_fn(K) -> bool, k: K) -> bool {
    &&& keys.contains(k)
    &&& failing(k)
    &&& forall|other: K|
        keys.contains(other) && #[trigger] failing(other) ==> !(other.cmp_spec(&k) is Less)
}

/// In an ascending list, the first key for which `failing` holds is the least such key.
pub proof fn lemma_first_is_least_failing<K: OrderedKey>(
    keys: Seq<K>,
    failing: spec_fn(K) -> bool,
    n: int,
)
    requires
        ascending(keys),
        0 <= n < keys.len(),
        failing(keys[n]),
        forall|j: int| 0 <= j < n ==> !failing(#[trigger] keys[j]),
    ensures
        least_failing(keys.to_set(), failing, keys[n]),
{
    K::key_is_ordered();
    reveal(vstd::laws_cmp::obeys_partial_cmp_spec_properties);
    reveal(vstd::laws_cmp::obeys_cmp_ord);
    assert(keys.to_set().contains(keys[n]));
    assert forall|other: K| keys.to_set().contains(other) && #[trigger] failing(other) implies !(
    other.cmp_spec(&keys[n]) is Less) by {
        let j = choose|j: int| 0 <= j < keys.len() && keys[j] == other;
        if j > n {
            assert(keys[n].cmp_spec(&keys[j]) is Less);
        }
        assert(other.partial_cmp_spec(&keys[n]) == Some(other.cmp_spec(&keys[n])));
        assert(keys[n].partial_cmp_spec(&other) == Some(keys[n].cmp_spec(&other)));
    }
}

/// The first `n` keys of `keys`, as a set.
pub open spec fn first_keys<K>(keys: Seq<K>, n: int) -> Set<K> {
    Set::new(|k: K| exists|j: int| 0 <= j < n && j < keys.len() && keys[j] == k)
}

/// Taking one more key adds that key to the set of those taken.
pub proof fn lemma_first_keys_step<K>(keys: Seq<K>, n: int)
    requires
        0 <= n < keys.len(),
    ensures
        first_keys(keys, n + 1) == first_keys(keys, n).insert(keys[n]),
        keys.no_duplicates() ==> !first_keys(keys, n).contains(keys[n]),
{
    assert forall|k: K| first_keys(keys, n + 1).contains(k) <==> first_keys(keys, n).insert(
        keys[n],
    ).contains(k) by {
        if first_keys(keys, n + 1).contains(k) {
            let j = choose|j: int| 0 <= j < n + 1 && j < keys.len() && keys[j] == k;
            if j < n {
                assert(0 <= j < n && j < keys.len() && keys[j] == k);
            }
        }
        if first_keys(keys, n).contains(k) {
            let j = choose|j: int| 0 <= j < n && j < keys.len() && keys[j] == k;
            assert(0 <= j < n + 1 && j < keys.len() && keys[j] == k);
        }
        if k == keys[n] {
            assert(0 <= n < n + 1 && n < keys.len() && keys[n] == k);
        }
    }
    assert(first_keys(keys, n + 1) =~= first_keys(keys, n).insert(keys[n]));
}

/// No key has been taken at the start, and all of them at the end.
pub proof fn lemma_first_keys_ends<K>(keys: Seq<K>)
    ensures
        first_keys(keys, 0) == Set::<K>::empty(),
        first_keys(keys, keys.len() as int) == keys.to_set(),
{
    assert(first_keys(keys, 0) =~= Set::<K>::empty());
    assert forall|k: K| first_keys(keys, keys.len() as int).contains(k) <==> keys.to_set().contains(
        k,
    ) by {
        if keys.to_set().contains(k) {
            let j = choose|j: int| 0 <= j < keys.len() && keys[j] == k;
            assert(0 <= j < keys.len() && j < keys.len() && keys[j] == k);
        }
    }
    assert(first_keys(keys, keys.len() as int) =~= keys.to_set());
}

proof fn lemma_take_all<T>(s: Seq<T>)
    ensures
        s.take(s.len() as int) == s,
{
    assert(s.take(s.len() as int) =~= s);
}

/// The keys of `map`, each once, in ascending order.
pub fn keys_of<K: OrderedKey + Copy, V>(map: &BTreeMap<K, V>) -> (keys: Vec<K>)
    ensures
        keys@.no_duplicates(),
        keys@.to_set() == map@.dom(),
        ascending(keys@),
{
    proof {
        K::key_is_ordered();
    }
    let mut keys: Vec<K> = Vec::new();
    let ghost all = map.keys().remaining();
    for key in it: map.keys()
        invariant
            it.seq() == all,
            keys@ == it.seq().take(it.index()).unref(),
    {
        keys.push(*key);
    }
    proof {
        lemma_take_all(all);
        lemma_unref_ascending(all);
    }
    keys
}

/// The value that `map` holds for `key`, if any.
pub fn value_at<K: OrderedKey + Copy, V: Copy>(map: &BTreeMap<K, V>, key: K) -> (value: Option<V>)
    ensures
        value == map@.get(key),
{
    proof {
        K::key_is_ordered();
    }
    match map.get(&key) {
        Some(v) => Some(*v),
        None => None,
    }
}

/// Sets the value that `map` holds for `key`.
pub fn put_at<K: OrderedKey + Copy, V>(map: &mut BTreeMap<K, V>, key: K, value: V)
    ensures
        final(map)@ == old(map)@.insert(key, value),
{
    proof {
        K::key_is_ordered();
    }
    map.insert(key, value);
}

/// Removes whatever `map` holds for `key`.
pub fn remove_at<K: OrderedKey + Copy, V>(map: &mut BTreeMap<K, V>, key: K)
    ensures
        final(map)@ == old(map)@.remove(key),
{
    proof {
        K::key_is_ordered();
    }
    map.remove(&key);
}

} // verus!
