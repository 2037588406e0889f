use crate::error::Error;
use vstd::prelude::*;

verus! {

/// A value that a transition can carry: it is copied freely and can be compared.
pub trait Record: Copy {
    /// True if the two records are the same value.
    fn same(&self, other: &Self) -> (b: bool)
        ensures
            b == (*self == *other),
    ;
}

/// True if both are absent, or both are present and the same record.
pub fn same_option<T: Record>(a: &Option<T>, b: &Option<T>) -> (r: bool)
    ensures
        r == (*a == *b),
{
    match (a, b) {
        (None, None) => true,
        (Some(x), Some(y)) => x.same(y),
        _ => false,
    }
}

/// How the record of one key changed: what it was before and what it is after.
///
/// `None` on a side means that the key had no record at that end. A transition from `None`
/// to `None` changes nothing, and is still a transition.
#[derive(Clone, Copy, Debug, PartialEq, Eq)]
pub struct DataDelta<T> {
    pub from: Option<T>,
    pub to: Option<T>,
}

impl<T> DataDelta<T> {
    /// The transition that takes back what `self` did.
    pub open spec fn inverse(self) -> DataDelta<T> {
        DataDelta { from: self.to, to: self.from }
    }

    /// The net effect of `self` followed by `next`, if `next` starts where `self` ended.
    pub open spec fn compose(self, next: DataDelta<T>) -> Result<DataDelta<T>, Error> {
        if self.to == next.from {
            Ok(DataDelta { from: self.from, to: next.to })
        } else {
            Err(Error::DeltaDataMismatch)
        }
    }

    /// True if the transition ends where it started.
    pub open spec fn is_noop(self) -> bool {
        self.from == self.to
    }

    /// Composing a transition with the inverse of what was composed onto it gives the
    /// transition back.
    pub proof fn lemma_compose_inverse(self, next: DataDelta<T>)
        requires
            self.compose(next) is Ok,
        ensures
            self.compose(next)->Ok_0.compose(next.inverse()) == Ok::<DataDelta<T>, Error>(self),
    {
    }

    /// A transition followed by its own inverse nets to no change at its starting value.
    pub proof fn lemma_compose_own_inverse(self)
        ensures
            self.compose(self.inverse()) == Ok::<DataDelta<T>, Error>(
                DataDelta { from: self.from, to: self.from },
            ),
            self.compose(self.inverse())->Ok_0.is_noop(),
    {
    }

    /// Inverting twice changes nothing.
    pub proof fn lemma_inverse_twice(self)
        ensures
            self.inverse().inverse() == self,
    {
    }

    /// Composition does not depend on how a chain of three transitions is grouped.
    pub proof fn lemma_compose_associative(self, second: DataDelta<T>, third: DataDelta<T>)
        requires
            self.compose(second) is Ok,
            second.compose(third) is Ok,
        ensures
            self.compose(second)->Ok_0.compose(third) == self.compose(
                second.compose(third)->Ok_0,
            ),
            self.compose(second)->Ok_0.compose(third) is Ok,
    {
    }
}

impl<T: Record> DataDelta<T> {
    /// The transition from `from` to `to`.
    pub fn new(from: Option<T>, to: Option<T>) -> (delta: DataDelta<T>)
        ensures
            delta == (DataDelta { from, to }),
    {
        DataDelta { from, to }
    }

    /// The transition that takes back what `self` did.
    pub fn invert(self) -> (delta: DataDelta<T>)
        ensures
            delta == self.inverse(),
    {
        DataDelta { from: self.to, to: self.from }
    }

    /// The two ends of the transition.
    pub fn consume(self) -> (ends: (Option<T>, Option<T>))
        ensures
            ends == (self.from, self.to),
    {
        (self.from, self.to)
    }

    /// The net effect of `self` followed by `next`, or [`Error::DeltaDataMismatch`] if `next`
    /// does not start where `self` ended.
    pub fn combine(self, next: DataDelta<T>) -> (r: Result<DataDelta<T>, Error>)
        ensures
            r == self.compose(next),
    {
        if same_option(&self.to, &next.from) {
            Ok(DataDelta { from: self.from, to: next.to })
        } else {
            Err(Error::DeltaDataMismatch)
        }
    }

    /// True if the two transitions have the same ends.
    pub fn same(&self, other: &DataDelta<T>) -> (b: bool)
        ensures
            b == (*self == *other),
    {
        same_option(&self.from, &other.from) && same_option(&self.to, &other.to)
    }
}

} // verus!
