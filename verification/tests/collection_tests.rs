use pos_accounting::accounting::data_delta::{same_option, DataDelta};
use pos_accounting::accounting::delta_amount_collection::DeltaAmountCollection;
use pos_accounting::accounting::delta_data_collection::DeltaDataCollection;
use pos_accounting::amount::{Amount, SignedAmount};
use pos_accounting::error::Error;
use pos_accounting::id::{h256_from_low_u64, PoolId, PublicKey};
use pos_accounting::pool::delta::data::PoSAccountingDeltaData;
use pos_accounting::pool::pool_data::PoolData;

fn pool(v: u64) -> PoolId {
    h256_from_low_u64(v)
}

fn record(pledge: u128) -> PoolData {
    PoolData::new(PublicKey::new(1, 2), Amount::from_atoms(pledge).unwrap())
}

fn signed(atoms: i128) -> SignedAmount {
    SignedAmount::from_atoms(atoms)
}

#[test]
fn transitions_compose_to_their_net_effect() {
    let x = record(10);
    let y = record(20);
    assert_eq!(
        DataDelta::new(None, Some(x)).combine(DataDelta::new(Some(x), Some(y))),
        Ok(DataDelta::new(None, Some(y)))
    );
    assert_eq!(
        DataDelta::new(Some(x), Some(y)).combine(DataDelta::new(Some(y), None)),
        Ok(DataDelta::new(Some(x), None))
    );
    assert_eq!(
        DataDelta::new(None, Some(x)).combine(DataDelta::new(Some(x), None)),
        Ok(DataDelta::new(None, None))
    );
}

#[test]
fn a_transition_that_does_not_continue_is_rejected() {
    let x = record(10);
    let y = record(20);
    assert_eq!(
        DataDelta::new(None, Some(x)).combine(DataDelta::new(Some(y), None)),
        Err(Error::DeltaDataMismatch)
    );
    assert_eq!(
        DataDelta::new(Some(x), None).combine(DataDelta::new(Some(x), Some(y))),
        Err(Error::DeltaDataMismatch)
    );
    assert_eq!(
        DataDelta::new(None, None).combine(DataDelta::<PoolData>::new(None, None)),
        Ok(DataDelta::new(None, None))
    );
}

#[test]
fn inverting_swaps_the_ends() {
    let x = record(10);
    let delta = DataDelta::new(None, Some(x));
    assert_eq!(delta.invert(), DataDelta::new(Some(x), None));
    assert_eq!(delta.invert().invert(), delta);
    assert_eq!(delta.consume(), (None, Some(x)));
    assert!(delta.same(&DataDelta::new(None, Some(record(10)))));
    assert!(!delta.same(&DataDelta::new(None, Some(record(11)))));
    assert!(!delta.same(&delta.invert()));
    assert!(same_option(&Some(x), &Some(record(10))));
    assert!(!same_option(&Some(x), &None));
    assert!(same_option::<PoolData>(&None, &None));
    // composing with the inverse of what was composed gives the first transition back
    let next = DataDelta::new(Some(x), Some(record(30)));
    let net = delta.combine(next).unwrap();
    assert_eq!(net.combine(next.invert()), Ok(delta));
}

#[test]
fn data_collection_from_entries_keeps_the_later_entry() {
    let collection = DeltaDataCollection::from_entries(vec![
        (pool(2), DataDelta::new(None, Some(record(1)))),
        (pool(1), DataDelta::new(None, Some(record(2)))),
        (pool(2), DataDelta::new(None, Some(record(3)))),
    ]);
    assert_eq!(collection.keys(), vec![pool(1), pool(2)]);
    assert_eq!(collection.get(pool(2)), Some(DataDelta::new(None, Some(record(3)))));
    assert_eq!(collection.get(pool(1)), Some(DataDelta::new(None, Some(record(2)))));
    assert_eq!(collection.get(pool(3)), None);
    assert_eq!(DeltaDataCollection::<PoolId, PoolData>::new().keys(), vec![]);
}

#[test]
fn data_collection_merge_and_undo() {
    let x = record(10);
    let y = record(20);
    let mut collection =
        DeltaDataCollection::from_entries(vec![(pool(1), DataDelta::new(None, Some(x)))]);
    let incoming = DeltaDataCollection::from_entries(vec![
        (pool(1), DataDelta::new(Some(x), Some(y))),
        (pool(2), DataDelta::new(Some(x), None)),
    ]);
    let undo = collection.merge_delta_data(incoming).unwrap();
    assert_eq!(collection.get(pool(1)), Some(DataDelta::new(None, Some(y))));
    assert_eq!(collection.get(pool(2)), Some(DataDelta::new(Some(x), None)));
    assert_eq!(undo.get(pool(1)), Some(DataDelta::new(Some(y), Some(x))));
    assert_eq!(undo.get(pool(2)), Some(DataDelta::new(None, Some(x))));
    assert_eq!(undo.get(pool(3)), None);

    assert_eq!(collection.undo_merge_delta_data(undo), Ok(()));
    assert_eq!(collection.get(pool(1)), Some(DataDelta::new(None, Some(x))));
    // the key that the merge brought in keeps a transition that changes nothing
    assert_eq!(collection.get(pool(2)), Some(DataDelta::new(Some(x), Some(x))));
    assert_eq!(collection.keys(), vec![pool(1), pool(2)]);
}

#[test]
fn data_collection_merge_rejects_a_mismatch() {
    let x = record(10);
    let y = record(20);
    let mut collection =
        DeltaDataCollection::from_entries(vec![(pool(1), DataDelta::new(None, Some(x)))]);
    let incoming =
        DeltaDataCollection::from_entries(vec![(pool(1), DataDelta::new(Some(y), None))]);
    assert_eq!(
        collection.merge_delta_data(incoming).map(|_| ()),
        Err(Error::DeltaDataMismatch)
    );
    assert_eq!(
        collection.merge_delta_data_element(pool(1), DataDelta::new(None, Some(y))),
        Err(Error::DeltaDataMismatch)
    );
    assert_eq!(collection.get(pool(1)), Some(DataDelta::new(None, Some(x))));
    assert_eq!(
        collection.merge_delta_data_element(pool(1), DataDelta::new(Some(x), Some(y))),
        Ok(DataDelta::new(Some(y), Some(x)))
    );
    assert_eq!(
        collection.undo_merge_delta_data_element(pool(1), DataDelta::new(Some(x), None)),
        Err(Error::DeltaDataMismatch)
    );
    assert_eq!(
        collection.undo_merge_delta_data_element(pool(1), DataDelta::new(Some(y), Some(x))),
        Ok(())
    );
    assert_eq!(collection.get(pool(1)), Some(DataDelta::new(None, Some(x))));
}

#[test]
fn amounts_that_cancel_leave_no_entry_and_can_be_undone() {
    let mut collection = DeltaAmountCollection::new();
    let first = DeltaAmountCollection::from_entries(vec![(pool(3), signed(300))]).unwrap();
    let second = DeltaAmountCollection::from_entries(vec![(pool(3), signed(-300))]).unwrap();

    let first_undo = collection.merge_delta_amounts(first).unwrap();
    assert_eq!(collection.get(pool(3)), Some(signed(300)));
    assert_eq!(first_undo.get(pool(3)), Some(signed(300)));

    let second_undo = collection.merge_delta_amounts(second).unwrap();
    assert_eq!(collection.get(pool(3)), None);
    assert_eq!(collection.keys(), vec![]);
    assert_eq!(collection, DeltaAmountCollection::new());
    // the undo still holds what was added
    assert_eq!(second_undo.get(pool(3)), Some(signed(-300)));

    assert_eq!(collection.undo_merge_delta_amounts(second_undo), Ok(()));
    assert_eq!(collection.get(pool(3)), Some(signed(300)));
    assert_eq!(collection.undo_merge_delta_amounts(first_undo), Ok(()));
    assert_eq!(collection, DeltaAmountCollection::new());
}

#[test]
fn amount_collection_from_entries_sums_and_prunes() {
    let collection = DeltaAmountCollection::from_entries(vec![
        (pool(4), signed(400)),
        (pool(3), signed(300)),
        (pool(4), signed(50)),
        (pool(3), signed(-300)),
        (pool(5), signed(0)),
    ])
    .unwrap();
    assert_eq!(collection.keys(), vec![pool(4)]);
    assert_eq!(collection.get(pool(4)), Some(signed(450)));
    assert_eq!(collection.get(pool(3)), None);
    assert_eq!(collection.get(pool(5)), None);
    assert_eq!(
        DeltaAmountCollection::from_entries(vec![
            (pool(1), signed(i128::MAX)),
            (pool(1), signed(1)),
        ]),
        Err(Error::AmountOverflow)
    );
}

#[test]
fn amount_collection_merge_is_checked() {
    let mut collection =
        DeltaAmountCollection::from_entries(vec![(pool(1), signed(i128::MAX))]).unwrap();
    let incoming = DeltaAmountCollection::from_entries(vec![(pool(1), signed(1))]).unwrap();
    assert_eq!(
        collection.merge_delta_amounts(incoming).map(|_| ()),
        Err(Error::AmountOverflow)
    );
    assert_eq!(
        collection.merge_delta_amount_element(pool(1), signed(1)),
        Err(Error::AmountOverflow)
    );
    assert_eq!(collection.get(pool(1)), Some(signed(i128::MAX)));
    assert_eq!(collection.merge_delta_amount_element(pool(1), signed(-1)), Ok(()));
    assert_eq!(collection.get(pool(1)), Some(signed(i128::MAX - 1)));
    assert_eq!(
        collection.undo_merge_delta_amount_element(pool(1), signed(-2)),
        Err(Error::AmountOverflow)
    );
    assert_eq!(collection.undo_merge_delta_amount_element(pool(1), signed(-1)), Ok(()));
    assert_eq!(collection.get(pool(1)), Some(signed(i128::MAX)));
    assert_eq!(
        collection.undo_merge_delta_amount_element(pool(1), signed(i128::MAX)),
        Ok(())
    );
    assert_eq!(collection.get(pool(1)), None);
    // taking back the lowest amount from nothing has no result
    let lowest = DeltaAmountCollection::from_entries(vec![(pool(2), signed(i128::MIN))]).unwrap();
    assert_eq!(collection.undo_merge_delta_amounts(lowest), Err(Error::AmountOverflow));
}

#[test]
fn merging_one_collection_leaves_the_others() {
    let x = record(10);
    let mut data = PoSAccountingDeltaData::new();
    data.pool_data =
        DeltaDataCollection::from_entries(vec![(pool(1), DataDelta::new(None, Some(x)))]);
    data.pool_balances =
        DeltaAmountCollection::from_entries(vec![(pool(1), signed(7))]).unwrap();
    data.delegation_balances =
        DeltaAmountCollection::from_entries(vec![(pool(1), signed(9))]).unwrap();
    let before = data.clone();

    let mut only_balances = PoSAccountingDeltaData::new();
    only_balances.pool_balances =
        DeltaAmountCollection::from_entries(vec![(pool(1), signed(3)), (pool(2), signed(4))])
            .unwrap();
    let undo = data.merge_with_delta(only_balances).unwrap();

    assert_eq!(data.pool_data, before.pool_data);
    assert_eq!(data.pool_delegation_shares, before.pool_delegation_shares);
    assert_eq!(data.delegation_balances, before.delegation_balances);
    assert_eq!(data.delegation_data, before.delegation_data);
    assert_eq!(data.pool_balances.get(pool(1)), Some(signed(10)));
    assert_eq!(data.pool_balances.get(pool(2)), Some(signed(4)));
    assert_eq!(undo.pool_balance_added(pool(1)), Some(signed(3)));
    assert_eq!(undo.pool_balance_added(pool(2)), Some(signed(4)));
    assert_eq!(undo.pool_data_inverse(pool(1)), None);
    assert_eq!(undo.delegation_balance_added(pool(1)), None);
    assert_eq!(undo.delegation_data_inverse(pool(1)), None);
    assert_eq!(undo.pool_delegation_share_added(pool(1), pool(1)), None);

    assert_eq!(data.undo_delta_merge(undo), Ok(()));
    assert_eq!(data, before);
}

#[test]
fn aggregate_merge_reports_records_before_amounts() {
    let x = record(10);
    let y = record(20);
    let mut data = PoSAccountingDeltaData::default();
    assert_eq!(data, PoSAccountingDeltaData::new());
    data.pool_data =
        DeltaDataCollection::from_entries(vec![(pool(1), DataDelta::new(None, Some(x)))]);
    data.pool_balances =
        DeltaAmountCollection::from_entries(vec![(pool(1), signed(i128::MAX))]).unwrap();

    let mut both_fail = PoSAccountingDeltaData::new();
    both_fail.pool_data =
        DeltaDataCollection::from_entries(vec![(pool(1), DataDelta::new(Some(y), None))]);
    both_fail.pool_balances =
        DeltaAmountCollection::from_entries(vec![(pool(1), signed(1))]).unwrap();
    assert_eq!(
        data.clone().merge_with_delta(both_fail).map(|_| ()),
        Err(Error::DeltaDataMismatch)
    );

    let mut amount_fails = PoSAccountingDeltaData::new();
    amount_fails.pool_balances =
        DeltaAmountCollection::from_entries(vec![(pool(1), signed(1))]).unwrap();
    assert_eq!(
        data.clone().merge_with_delta(amount_fails).map(|_| ()),
        Err(Error::AmountOverflow)
    );
}
