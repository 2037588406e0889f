use vstd::prelude::*;

verus! {

/// A failure reported by the storage backend underneath the accounting layers.
#[derive(Clone, Copy, Debug, PartialEq, Eq, Structural)]
pub enum StorageError {
    /// The operation may succeed if it is tried again.
    Recoverable,
    /// The backend is in a state it cannot continue from.
    Fatal,
}

/// Everything that can go wrong while reading through or changing an accounting layer.
#[derive(Clone, Copy, Debug, PartialEq, Eq, Structural)]
pub enum Error {
    /// A sum went past the largest representable amount, or past either end of the signed range.
    AmountOverflow,
    /// A difference of two unsigned amounts went below zero.
    AmountUnderflow,
    /// A negative signed amount was asked to become an unsigned amount.
    NegativeAmount,
    /// A transition does not start at the value its predecessor ended at.
    DeltaDataMismatch,
    /// The storage backend failed; its error is handed on unchanged.
    Storage(StorageError),
}

impl Error {
    /// True for the failures that come from amount arithmetic.
    pub open spec fn is_arithmetic(self) -> bool {
        self is AmountOverflow || self is AmountUnderflow || self is NegativeAmount
    }

    /// A short description of the failure.
    pub fn message(&self) -> (text: &'static str)
        ensures
            text@ == self.description(),
    {
        match self {
            Error::AmountOverflow => "amount overflow",
            Error::AmountUnderflow => "amount underflow",
            Error::NegativeAmount => "negative amount cannot be converted to unsigned",
            Error::DeltaDataMismatch => "delta data does not continue the recorded transition",
            Error::Storage(StorageError::Recoverable) => "recoverable storage error",
            Error::Storage(StorageError::Fatal) => "fatal storage error",
        }
    }

    /// The text that describes the failure: one fixed text for each kind of failure, and for
    /// a failure of the store one for each kind of storage error.
    pub open spec fn description(self) -> Seq<char> {
        match self {
            Error::AmountOverflow => "amount overflow"@,
            Error::AmountUnderflow => "amount underflow"@,
            Error::NegativeAmount => "negative amount cannot be converted to unsigned"@,
            Error::DeltaDataMismatch => "delta data does not continue the recorded transition"@,
            Error::Storage(StorageError::Recoverable) => "recoverable storage error"@,
            Error::Storage(StorageError::Fatal) => "fatal storage error"@,
        }
    }
}

} // verus!
