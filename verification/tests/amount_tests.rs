use pos_accounting::amount::{Amount, SignedAmount, MAX_ATOMS};
use pos_accounting::error::{Error, StorageError};

fn amount(atoms: u128) -> Amount {
    Amount::from_atoms(atoms).unwrap()
}

#[test]
fn amount_from_atoms_is_bounded() {
    assert_eq!(MAX_ATOMS, i128::MAX as u128);
    assert_eq!(Amount::from_atoms(0).unwrap().into_atoms(), 0);
    assert_eq!(Amount::from_atoms(MAX_ATOMS).unwrap().into_atoms(), MAX_ATOMS);
    assert_eq!(Amount::from_atoms(MAX_ATOMS + 1), None);
    assert_eq!(Amount::from_atoms(u128::MAX), None);
    assert_eq!(Amount::zero(), amount(0));
    assert!(Amount::zero().is_zero());
    assert!(!amount(1).is_zero());
}

#[test]
fn amount_addition_is_checked() {
    assert_eq!(amount(100).checked_add(amount(200)), Ok(amount(300)));
    assert_eq!(amount(MAX_ATOMS - 1).checked_add(amount(1)), Ok(amount(MAX_ATOMS)));
    assert_eq!(amount(MAX_ATOMS).checked_add(amount(1)), Err(Error::AmountOverflow));
    assert_eq!(amount(MAX_ATOMS).checked_add(amount(MAX_ATOMS)), Err(Error::AmountOverflow));
    assert_eq!(amount(MAX_ATOMS).checked_add(amount(0)), Ok(amount(MAX_ATOMS)));
}

#[test]
fn amount_subtraction_is_checked() {
    assert_eq!(amount(300).checked_sub(amount(100)), Ok(amount(200)));
    assert_eq!(amount(100).checked_sub(amount(100)), Ok(amount(0)));
    assert_eq!(amount(100).checked_sub(amount(101)), Err(Error::AmountUnderflow));
    assert_eq!(amount(0).checked_sub(amount(MAX_ATOMS)), Err(Error::AmountUnderflow));
}

#[test]
fn signed_amount_arithmetic_is_checked() {
    let s = SignedAmount::from_atoms;
    assert_eq!(s(300).checked_add(s(-300)), Ok(s(0)));
    assert_eq!(s(-5).checked_add(s(-7)), Ok(s(-12)));
    assert_eq!(s(i128::MAX).checked_add(s(1)), Err(Error::AmountOverflow));
    assert_eq!(s(i128::MIN).checked_add(s(-1)), Err(Error::AmountOverflow));
    assert_eq!(s(i128::MIN).checked_add(s(i128::MAX)), Ok(s(-1)));
    assert_eq!(s(5).checked_sub(s(7)), Ok(s(-2)));
    assert_eq!(s(i128::MIN).checked_sub(s(1)), Err(Error::AmountOverflow));
    assert_eq!(s(i128::MAX).checked_sub(s(-1)), Err(Error::AmountOverflow));
    assert_eq!(s(0).checked_sub(s(i128::MIN)), Err(Error::AmountOverflow));
    assert_eq!(s(-1).checked_sub(s(i128::MIN)), Ok(s(i128::MAX)));
    assert_eq!(s(17).checked_neg(), Ok(s(-17)));
    assert_eq!(s(i128::MAX).checked_neg(), Ok(s(i128::MIN + 1)));
    assert_eq!(s(i128::MIN).checked_neg(), Err(Error::AmountOverflow));
    assert_eq!(SignedAmount::zero(), s(0));
    assert!(s(0).is_zero());
    assert!(!s(-1).is_zero());
    assert_eq!(s(-42).into_atoms(), -42);
}

#[test]
fn sign_conversions() {
    assert_eq!(SignedAmount::from(amount(100)), SignedAmount::from_atoms(100));
    assert_eq!(
        SignedAmount::from(amount(MAX_ATOMS)),
        SignedAmount::from_atoms(i128::MAX)
    );
    assert_eq!(amount(7).into_signed(), SignedAmount::from_atoms(7));
    assert_eq!(SignedAmount::from_atoms(100).into_unsigned(), Ok(amount(100)));
    assert_eq!(SignedAmount::from_atoms(0).into_unsigned(), Ok(amount(0)));
    assert_eq!(
        SignedAmount::from_atoms(i128::MAX).into_unsigned(),
        Ok(amount(MAX_ATOMS))
    );
    assert_eq!(
        SignedAmount::from_atoms(-1).into_unsigned(),
        Err(Error::NegativeAmount)
    );
    assert_eq!(
        SignedAmount::from_atoms(i128::MIN).into_unsigned(),
        Err(Error::NegativeAmount)
    );
}

#[test]
fn errors_describe_themselves() {
    assert_eq!(Error::AmountOverflow.message(), "amount overflow");
    assert_eq!(Error::AmountUnderflow.message(), "amount underflow");
    assert_eq!(
        Error::NegativeAmount.message(),
        "negative amount cannot be converted to unsigned"
    );
    assert_eq!(
        Error::DeltaDataMismatch.message(),
        "delta data does not continue the recorded transition"
    );
    assert_eq!(
        Error::Storage(StorageError::Recoverable).message(),
        "recoverable storage error"
    );
    assert_eq!(Error::Storage(StorageError::Fatal).message(), "fatal storage error");
}
