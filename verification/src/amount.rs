use crate::error::Error;
use vstd::prelude::*;

verus! {

/// Largest number of atoms an [`Amount`] can hold.
///
/// It is the top of the signed range, so every amount has a signed counterpart.
pub const MAX_ATOMS: u128 = 0x7fff_ffff_ffff_ffff_ffff_ffff_ffff_ffff;

/// Lowest value of a [`SignedAmount`] as a mathematical integer.
pub open spec fn lowest_signed() -> int {
    -0x8000_0000_0000_0000_0000_0000_0000_0000
}

/// Highest value of a [`SignedAmount`] as a mathematical integer.
pub open spec fn highest_signed() -> int {
    0x7fff_ffff_ffff_ffff_ffff_ffff_ffff_ffff
}

/// True if `v` can be held by a [`SignedAmount`].
pub open spec fn fits_signed(v: int) -> bool {
    lowest_signed() <= v <= highest_signed()
}

/// True if `v` can be held by an [`Amount`].
pub open spec fn fits_unsigned(v: int) -> bool {
    0 <= v <= highest_signed()
}

/// A non-negative quantity of atoms between zero and [`MAX_ATOMS`].
#[derive(Clone, Copy, Debug, PartialEq, Eq, Structural)]
pub struct Amount {
    atoms: u128,
}

/// A signed quantity of atoms: the change of an [`Amount`].
#[derive(Clone, Copy, Debug, PartialEq, Eq, Structural)]
pub struct SignedAmount {
    atoms: i128,
}

impl Amount {
    /// The number of atoms as a mathematical integer.
    pub closed spec fn view(self) -> int {
        self.atoms as int
    }

    /// What holds of every amount that executable code can hold.
    #[verifier::type_invariant]
    pub open spec fn in_range(self) -> bool {
        fits_unsigned(self@)
    }

    /// The amount of `atoms` atoms, for use in contracts.
    pub closed spec fn spec_new(atoms: int) -> Amount {
        Amount { atoms: atoms as u128 }
    }

    /// The amount of no atoms.
    pub fn zero() -> (r: Amount)
        ensures
            r@ == 0,
            r == Amount::spec_new(0),
    {
        Amount { atoms: 0 }
    }

    /// The amount of `atoms` atoms, if there is one.
    pub fn from_atoms(atoms: u128) -> (r: Option<Amount>)
        ensures
            r is Some <==> atoms <= MAX_ATOMS,
            r matches Some(a) ==> a@ == atoms && a == Amount::spec_new(atoms as int),
    {
        if atoms <= MAX_ATOMS {
            Some(Amount { atoms })
        } else {
            None
        }
    }

    /// The number of atoms.
    pub fn into_atoms(self) -> (atoms: u128)
        ensures
            atoms == self@,
            atoms <= MAX_ATOMS,
    {
        proof {
            use_type_invariant(&self);
        }
        self.atoms
    }

    /// The same quantity as a signed amount; every amount has one.
    pub fn into_signed(self) -> (r: SignedAmount)
        ensures
            r@ == self@,
    {
        proof {
            use_type_invariant(&self);
        }
        SignedAmount { atoms: self.atoms as i128 }
    }

    /// The sum of two amounts, or [`Error::AmountOverflow`] if it is above [`MAX_ATOMS`].
    pub fn checked_add(self, rhs: Amount) -> (r: Result<Amount, Error>)
        ensures
            fits_unsigned(self@ + rhs@) ==> (r matches Ok(s) && s@ == self@ + rhs@),
            !fits_unsigned(self@ + rhs@) ==> r == Err::<Amount, Error>(Error::AmountOverflow),
    {
        proof {
            use_type_invariant(&self);
            use_type_invariant(&rhs);
        }
        let sum: u128 = self.atoms + rhs.atoms;
        if sum <= MAX_ATOMS {
            Ok(Amount { atoms: sum })
        } else {
            Err(Error::AmountOverflow)
        }
    }

    /// The difference of two amounts, or [`Error::AmountUnderflow`] if it is below zero.
    pub fn checked_sub(self, rhs: Amount) -> (r: Result<Amount, Error>)
        ensures
            self@ >= rhs@ ==> (r matches Ok(d) && d@ == self@ - rhs@),
            self@ < rhs@ ==> r == Err::<Amount, Error>(Error::AmountUnderflow),
    {
        proof {
            use_type_invariant(&self);
            use_type_invariant(&rhs);
        }
        if self.atoms >= rhs.atoms {
            Ok(Amount { atoms: self.atoms - rhs.atoms })
        } else {
            Err(Error::AmountUnderflow)
        }
    }

    /// True if the amount is zero.
    pub fn is_zero(self) -> (b: bool)
        ensures
            b == (self@ == 0),
    {
        self.atoms == 0
    }

    /// Two amounts of the same number of atoms are the same amount.
    pub proof fn lemma_view_is_injective(a: Amount, b: Amount)
        requires
            a@ == b@,
        ensures
            a == b,
    {
    }

    /// The view of [`Amount::spec_new`] is the number it was made from.
    pub proof fn lemma_spec_new_view(atoms: int)
        requires
            fits_unsigned(atoms),
        ensures
            Amount::spec_new(atoms)@ == atoms,
    {
    }
}

impl SignedAmount {
    /// The number of atoms as a mathematical integer.
    pub closed spec fn view(self) -> int {
        self.atoms as int
    }

    /// The signed amount of `atoms` atoms, for use in contracts.
    pub closed spec fn spec_new(atoms: int) -> SignedAmount {
        SignedAmount { atoms: atoms as i128 }
    }

    /// The signed amount of no atoms.
    pub fn zero() -> (r: SignedAmount)
        ensures
            r@ == 0,
    {
        SignedAmount { atoms: 0 }
    }

    /// The signed amount of `atoms` atoms.
    pub fn from_atoms(atoms: i128) -> (r: SignedAmount)
        ensures
            r@ == atoms,
            r == SignedAmount::spec_new(atoms as int),
    {
        SignedAmount { atoms }
    }

    /// The number of atoms.
    pub fn into_atoms(self) -> (atoms: i128)
        ensures
            atoms == self@,
    {
        self.atoms
    }

    /// The same quantity as an unsigned amount, or [`Error::NegativeAmount`] if it is negative.
    pub fn into_unsigned(self) -> (r: Result<Amount, Error>)
        ensures
            self@ >= 0 ==> (r matches Ok(a) && a@ == self@),
            self@ < 0 ==> r == Err::<Amount, Error>(Error::NegativeAmount),
    {
        if self.atoms >= 0 {
            Ok(Amount { atoms: self.atoms as u128 })
        } else {
            Err(Error::NegativeAmount)
        }
    }

    /// The sum of two signed amounts, or [`Error::AmountOverflow`] if it leaves the signed range.
    pub fn checked_add(self, rhs: SignedAmount) -> (r: Result<SignedAmount, Error>)
        ensures
            fits_signed(self@ + rhs@) ==> (r matches Ok(s) && s@ == self@ + rhs@),
            !fits_signed(self@ + rhs@) ==> r == Err::<SignedAmount, Error>(Error::AmountOverflow),
    {
        let fits = if rhs.atoms >= 0 {
            self.atoms <= i128::MAX - rhs.atoms
        } else {
            self.atoms >= i128::MIN - rhs.atoms
        };
        if fits {
            Ok(SignedAmount { atoms: self.atoms + rhs.atoms })
        } else {
            Err(Error::AmountOverflow)
        }
    }

    /// The difference of two signed amounts, or [`Error::AmountOverflow`] if it leaves the
    /// signed range.
    pub fn checked_sub(self, rhs: SignedAmount) -> (r: Result<SignedAmount, Error>)
        ensures
            fits_signed(self@ - rhs@) ==> (r matches Ok(d) && d@ == self@ - rhs@),
            !fits_signed(self@ - rhs@) ==> r == Err::<SignedAmount, Error>(Error::AmountOverflow),
    {
        let fits = if rhs.atoms >= 0 {
            self.atoms >= i128::MIN + rhs.atoms
        } else {
            self.atoms <= i128::MAX + rhs.atoms
        };
        if fits {
            Ok(SignedAmount { atoms: self.atoms - rhs.atoms })
        } else {
            Err(Error::AmountOverflow)
        }
    }

    /// The amount with its sign flipped, or [`Error::AmountOverflow`] for the lowest signed
    /// amount, which has no positive counterpart.
    pub fn checked_neg(self) -> (r: Result<SignedAmount, Error>)
        ensures
            fits_signed(-self@) ==> (r matches Ok(n) && n@ == -self@),
            !fits_signed(-self@) ==> r == Err::<SignedAmount, Error>(Error::AmountOverflow),
    {
        if self.atoms == i128::MIN {
            Err(Error::AmountOverflow)
        } else {
            Ok(SignedAmount { atoms: -self.atoms })
        }
    }

    /// True if the amount is zero.
    pub fn is_zero(self) -> (b: bool)
        ensures
            b == (self@ == 0),
    {
        self.atoms == 0
    }

    /// Every signed amount is within the signed range.
    pub proof fn lemma_in_range(self)
        ensures
            fits_signed(self@),
            self == SignedAmount::spec_new(self@),
    {
    }

    /// The view of [`SignedAmount::spec_new`] is the number it was made from.
    pub proof fn lemma_spec_new_view(atoms: int)
        requires
            fits_signed(atoms),
        ensures
            SignedAmount::spec_new(atoms)@ == atoms,
    {
    }
}

impl From<Amount> for SignedAmount {
    fn from(amount: Amount) -> (r: SignedAmount) {
        amount.into_signed()
    }
}

impl vstd::std_specs::convert::FromSpecImpl<Amount> for SignedAmount {
    open spec fn obeys_from_spec() -> bool {
        true
    }

    open spec fn from_spec(amount: Amount) -> SignedAmount {
        SignedAmount::spec_new(amount@)
    }
}

} // verus!
