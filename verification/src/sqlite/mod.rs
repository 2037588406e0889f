//! The parts of the Sqlite storage backend that compute: which rows an iteration over a key
//! prefix yields, and how large the statement cache has to be.
use std::path::PathBuf;
use vstd::prelude::*;

verus! {

/// A key or a value of the database.
pub type Data = Vec<u8>;

/// `std::path::PathBuf`, which this library only carries from the caller to the code that
/// opens the database.
#[verifier::external_type_specification]
#[verifier::external_body]
pub struct ExPathBuf(PathBuf);

/// `<PathBuf as Clone>::clone`: the clone is the same path.
pub assume_specification[ <PathBuf as Clone>::clone ](path: &PathBuf) -> (copy: PathBuf)
    ensures
        copy == *path,
;

/// The Sqlite database backend: the place of its file.
#[derive(Eq, PartialEq, Clone, Debug)]
pub struct Sqlite {
    path: PathBuf,
}

impl Sqlite {
    /// The place of the database file.
    pub closed spec fn location(&self) -> PathBuf {
        self.path
    }

    /// New Sqlite database backend
    pub fn new(path: PathBuf) -> (backend: Self)
        ensures
            backend.location() == path,
    {
        Self { path }
    }

    /// The place of the database file.
    pub fn path(&self) -> (path: &PathBuf)
        ensures
            *path == self.location(),
    {
        &self.path
    }

    /// Gives the place of the database file back.
    pub fn into_path(self) -> (path: PathBuf)
        ensures
            path == self.location(),
    {
        self.path
    }
}

/// True if `key` starts with `prefix`.
pub fn starts_with(key: &[u8], prefix: &[u8]) -> (b: bool)
    ensures
        b == prefix@.is_prefix_of(key@),
{
    if prefix.len() > key.len() {
        return false;
    }
    let mut i: usize = 0;
    while i < prefix.len()
        invariant
            0 <= i <= prefix.len() <= key.len(),
            forall|j: int| 0 <= j < i ==> key@[j] == prefix@[j],
        decreases prefix.len() - i,
    {
        if key[i] != prefix[i] {
            proof {
                if prefix@.is_prefix_of(key@) {
                    assert(key@.subrange(0, prefix@.len() as int)[i as int] == prefix@[i as int]);
                }
            }
            return false;
        }
        i = i + 1;
    }
    proof {
        assert(key@.subrange(0, prefix@.len() as int) =~= prefix@);
    }
    true
}

/// A row as the bytes of its key and of its value.
pub open spec fn row_bytes(row: (Data, Data)) -> (Seq<u8>, Seq<u8>) {
    (row.0@, row.1@)
}

/// The rows as the bytes of their keys and values.
pub open spec fn rows_bytes(rows: Seq<(Data, Data)>) -> Seq<(Seq<u8>, Seq<u8>)> {
    rows.map_values(|row: (Data, Data)| row_bytes(row))
}

/// The rows whose key starts with `prefix`, in the order of `rows`.
pub open spec fn prefixed_rows(rows: Seq<(Seq<u8>, Seq<u8>)>, prefix: Seq<u8>) -> Seq<
    (Seq<u8>, Seq<u8>),
> {
    rows.filter(|row: (Seq<u8>, Seq<u8>)| prefix.is_prefix_of(row.0))
}

/// A copy of the bytes.
pub fn copy_of(bytes: &Data) -> (copy: Data)
    ensures
        copy@ == bytes@,
{
    let copy = bytes.clone();
    proof {
        assert(copy@ =~= bytes@);
    }
    copy
}

/// Keeps the rows whose key starts with `prefix`, in their order.
pub fn rows_with_prefix(rows: &Vec<(Data, Data)>, prefix: &[u8]) -> (kept: Vec<(Data, Data)>)
    ensures
        rows_bytes(kept@) == prefixed_rows(rows_bytes(rows@), prefix@),
{
    let mut kept: Vec<(Data, Data)> = Vec::new();
    let mut i: usize = 0;
    proof {
        assert(rows_bytes(rows@).take(0) =~= Seq::<(Seq<u8>, Seq<u8>)>::empty());
        assert(rows_bytes(kept@) =~= Seq::<(Seq<u8>, Seq<u8>)>::empty());
    }
    while i < rows.len()
        invariant
            0 <= i <= rows.len(),
            rows_bytes(kept@) == prefixed_rows(rows_bytes(rows@).take(i as int), prefix@),
        decreases rows.len() - i,
    {
        let ghost keep = |row: (Seq<u8>, Seq<u8>)| prefix@.is_prefix_of(row.0);
        let ghost seen = rows_bytes(rows@).take(i as int);
        let ghost collected = kept@;
        proof {
            assert(rows_bytes(rows@).take(i + 1) =~= seen.push(row_bytes(rows@[i as int])));
            assert(seen.push(row_bytes(rows@[i as int])).drop_last() =~= seen);
            reveal_with_fuel(Seq::filter, 1);
        }
        if starts_with(rows[i].0.as_slice(), prefix) {
            let key = copy_of(&rows[i].0);
            let value = copy_of(&rows[i].1);
            kept.push((key, value));
            proof {
                assert(rows_bytes(kept@) =~= rows_bytes(collected).push(
                    row_bytes(rows@[i as int]),
                ));
            }
        }
        i = i + 1;
    }
    proof {
        assert(rows_bytes(rows@).take(rows.len() as int) =~= rows_bytes(rows@));
    }
    kept
}

/// The number of prepared statements that the connection has to cache: four for each of the
/// `table_count` tables, and at least sixteen.
pub fn statement_cache_capacity(table_count: usize) -> (capacity: usize)
    requires
        table_count * 4 <= usize::MAX,
    ensures
        capacity == if table_count * 4 >= 16 {
            table_count * 4
        } else {
            16
        },
{
    let wanted = table_count * 4;
    if wanted >= 16 {
        wanted
    } else {
        16
    }
}

/// Sqlite iterator over entries with given key prefix
pub struct PrefixIter {
    /// The entries to go through
    entries: Vec<(Data, Data)>,
    /// How many entries have been gone through
    position: usize,
    /// Prefix to iterate over
    prefix: Data,
}

impl PrefixIter {
    #[verifier::type_invariant]
    spec fn in_bounds(self) -> bool {
        self.position <= self.entries@.len()
    }

    /// The entries to go through.
    pub closed spec fn entries(&self) -> Seq<(Data, Data)> {
        self.entries@
    }

    /// How many entries have been gone through.
    pub closed spec fn position(&self) -> int {
        self.position as int
    }

    /// The prefix to iterate over.
    pub closed spec fn prefix(&self) -> Seq<u8> {
        self.prefix@
    }

    /// An iterator that goes through `entries` from the first.
    pub fn new(entries: Vec<(Data, Data)>, prefix: Data) -> (iter: Self)
        ensures
            iter.entries() == entries@,
            iter.position() == 0,
            iter.prefix() == prefix@,
    {
        PrefixIter { entries, position: 0, prefix }
    }

    /// Goes on to the next entry and returns it if its key starts with the prefix. Returns
    /// nothing for an entry whose key does not, and at the end.
    pub fn next(&mut self) -> (r: Option<(Data, Data)>)
        ensures
            final(self).entries() == old(self).entries(),
            final(self).prefix() == old(self).prefix(),
            old(self).position() < old(self).entries().len() ==> {
                &&& final(self).position() == old(self).position() + 1
                &&& r is Some <==> old(self).prefix().is_prefix_of(
                    old(self).entries()[old(self).position()].0@,
                )
                &&& r matches Some(row) ==> row.0@ == old(self).entries()[old(self).position()].0@
                    && row.1@ == old(self).entries()[old(self).position()].1@
            },
            old(self).position() >= old(self).entries().len() ==> r is None
                && final(self).position() == old(self).position(),
    {
        proof {
            use_type_invariant(&*self);
        }
        if self.position >= self.entries.len() {
            return None;
        }
        let index = self.position;
        self.position = index + 1;
        if starts_with(self.entries[index].0.as_slice(), self.prefix.as_slice()) {
            let key = copy_of(&self.entries[index].0);
            let value = copy_of(&self.entries[index].1);
            Some((key, value))
        } else {
            None
        }
    }
}

} // verus!
