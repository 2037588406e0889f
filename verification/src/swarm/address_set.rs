use crate::net::types::Address;
use vstd::prelude::*;

verus! {

/// The texts of a list of addresses.
pub open spec fn texts(addresses: Seq<Address>) -> Seq<Seq<char>> {
    addresses.map_values(|a: Address| a@)
}

/// The set of the texts of a list of addresses.
pub open spec fn text_set(addresses: Seq<Address>) -> Set<Seq<char>> {
    texts(addresses).to_set()
}

/// A set of addresses; an address is in it at most once.
pub struct AddressSet {
    items: Vec<Address>,
}

impl AddressSet {
    #[verifier::type_invariant]
    spec fn distinct(self) -> bool {
        texts(self.items@).no_duplicates()
    }

    /// The texts of the addresses in the set.
    pub closed spec fn view(&self) -> Set<Seq<char>> {
        text_set(self.items@)
    }

    /// The empty set.
    pub fn new() -> (set: AddressSet)
        ensures
            set@ == Set::<Seq<char>>::empty(),
    {
        let items: Vec<Address> = Vec::new();
        proof {
            assert(text_set(items@) =~= Set::<Seq<char>>::empty());
        }
        AddressSet { items }
    }

    /// The set of the addresses of a list.
    pub fn from_list(addresses: &Vec<Address>) -> (set: AddressSet)
        ensures
            set@ == text_set(addresses@),
    {
        let mut set = AddressSet::new();
        set.extend(addresses);
        set
    }

    /// The number of addresses in the set.
    pub fn len(&self) -> (n: usize)
        ensures
            n == self@.len(),
            self@.finite(),
    {
        proof {
            use_type_invariant(self);
            texts(self.items@).unique_seq_to_set();
        }
        self.items.len()
    }

    /// True if the set has no address.
    pub fn is_empty(&self) -> (b: bool)
        ensures
            b == (self@ == Set::<Seq<char>>::empty()),
    {
        proof {
            if self.items@.len() == 0 {
                assert(self@ =~= Set::<Seq<char>>::empty());
            } else {
                assert(texts(self.items@)[0] == self.items@[0]@);
                assert(self@.contains(self.items@[0]@));
            }
        }
        self.items.len() == 0
    }

    /// True if `address` is in the set.
    pub fn contains(&self, address: &Address) -> (b: bool)
        ensures
            b == self@.contains(address@),
    {
        let mut i: usize = 0;
        while i < self.items.len()
            invariant
                0 <= i <= self.items.len(),
                forall|j: int| 0 <= j < i ==> self.items@[j]@ != address@,
            decreases self.items.len() - i,
        {
            if self.items[i] == *address {
                proof {
                    assert(texts(self.items@)[i as int] == address@);
                }
                return true;
            }
            i = i + 1;
        }
        proof {
            if self@.contains(address@) {
                let j = choose|j: int|
                    0 <= j < texts(self.items@).len() && texts(self.items@)[j] == address@;
                assert(self.items@[j]@ == address@);
            }
        }
        false
    }

    /// Puts `address` into the set.
    pub fn insert(&mut self, address: Address)
        ensures
            final(self)@ == old(self)@.insert(address@),
    {
        proof {
            use_type_invariant(&*self);
        }
        if !self.contains(&address) {
            let ghost before = self.items@;
            let mut items: Vec<Address> = Vec::new();
            std::mem::swap(&mut items, &mut self.items);
            items.push(address);
            proof {
                assert(texts(items@) =~= texts(before).push(address@));
                assert forall|i: int, j: int|
                    0 <= i < texts(items@).len() && 0 <= j < texts(items@).len() && i
                        != j implies texts(items@)[i] != texts(items@)[j] by {
                    if i < before.len() {
                        assert(texts(before)[i] == before[i]@);
                        assert(text_set(before).contains(texts(before)[i]));
                    }
                    if j < before.len() {
                        assert(texts(before)[j] == before[j]@);
                        assert(text_set(before).contains(texts(before)[j]));
                    }
                }
                lemma_text_set_push(before, address);
            }
            self.items = items;
        } else {
            proof {
                assert(self@.insert(address@) =~= self@);
            }
        }
    }

    /// Puts every address of `addresses` into the set.
    pub fn extend(&mut self, addresses: &Vec<Address>)
        ensures
            final(self)@ == old(self)@.union(text_set(addresses@)),
    {
        let mut i: usize = 0;
        proof {
            assert(text_set(addresses@.take(0)) =~= Set::<Seq<char>>::empty());
            assert(self@.union(Set::<Seq<char>>::empty()) =~= self@);
        }
        while i < addresses.len()
            invariant
                0 <= i <= addresses.len(),
                self@ == old(self)@.union(text_set(addresses@.take(i as int))),
            decreases addresses.len() - i,
        {
            let address = addresses[i].clone();
            proof {
                assert(addresses@.take(i + 1) =~= addresses@.take(i as int).push(addresses@[i as int]));
                lemma_text_set_push(addresses@.take(i as int), addresses@[i as int]);
                assert(old(self)@.union(text_set(addresses@.take(i as int))).insert(address@)
                    =~= old(self)@.union(text_set(addresses@.take(i + 1))));
            }
            self.insert(address);
            i = i + 1;
        }
        proof {
            assert(addresses@.take(addresses.len() as int) =~= addresses@);
        }
    }

    /// An address of the set, if it has any.
    pub fn first(&self) -> (address: Option<Address>)
        ensures
            address is None <==> self@ == Set::<Seq<char>>::empty(),
            address matches Some(a) ==> self@.contains(a@),
    {
        if self.items.len() == 0 {
            proof {
                assert(self@ =~= Set::<Seq<char>>::empty());
            }
            None
        } else {
            let address = self.items[0].clone();
            proof {
                assert(texts(self.items@)[0] == self.items@[0]@);
                assert(self@.contains(address@));
            }
            Some(address)
        }
    }

    /// The addresses of the set, each once.
    pub fn to_vec(&self) -> (addresses: Vec<Address>)
        ensures
            text_set(addresses@) == self@,
            texts(addresses@).no_duplicates(),
    {
        proof {
            use_type_invariant(self);
        }
        let mut addresses: Vec<Address> = Vec::new();
        let mut i: usize = 0;
        while i < self.items.len()
            invariant
                0 <= i <= self.items.len(),
                texts(addresses@) == texts(self.items@).take(i as int),
            decreases self.items.len() - i,
        {
            let address = self.items[i].clone();
            let ghost copied = addresses@;
            addresses.push(address);
            proof {
                assert(texts(addresses@) =~= texts(copied).push(address@));
                assert(texts(self.items@)[i as int] == address@);
                assert(texts(addresses@) =~= texts(self.items@).take(i + 1));
            }
            i = i + 1;
        }
        proof {
            assert(texts(self.items@).take(self.items.len() as int) =~= texts(self.items@));
        }
        addresses
    }
}

/// The set of a list with one more address is the set of the list with that address put in.
pub proof fn lemma_text_set_push(addresses: Seq<Address>, address: Address)
    ensures
        text_set(addresses.push(address)) == text_set(addresses).insert(address@),
{
    let longer = texts(addresses.push(address));
    assert(longer =~= texts(addresses).push(address@));
    assert forall|t: Seq<char>| longer.to_set().contains(t) <==> text_set(addresses).insert(
        address@,
    ).contains(t) by {
        if longer.to_set().contains(t) {
            let j = choose|j: int| 0 <= j < longer.len() && longer[j] == t;
            if j < addresses.len() {
                assert(texts(addresses)[j] == t);
            }
        }
        if text_set(addresses).contains(t) {
            let j = choose|j: int| 0 <= j < texts(addresses).len() && texts(addresses)[j] == t;
            assert(longer[j] == t);
        }
        if t == address@ {
            assert(longer[addresses.len() as int] == t);
        }
    }
    assert(text_set(addresses.push(address)) =~= text_set(addresses).insert(address@));
}

} // verus!
