use pos_accounting::accounting::data_delta::DataDelta;
use pos_accounting::accounting::delta_amount_collection::DeltaAmountCollection;
use pos_accounting::accounting::delta_data_collection::DeltaDataCollection;
use pos_accounting::amount::{Amount, SignedAmount};
use pos_accounting::id::{h256_from_low_u64, DelegationId, PoolId, PublicKey};
use pos_accounting::pool::delegation::DelegationData;
use pos_accounting::pool::delta::data::PoSAccountingDeltaData;
use pos_accounting::pool::delta::PoSAccountingDelta;
use pos_accounting::pool::pool_data::PoolData;
use pos_accounting::pool::storage::PoSAccountingDB;
use pos_accounting::pool::view::PoSAccountingView;
use pos_accounting::storage::in_memory::InMemoryPoSAccounting;
use std::collections::BTreeMap;

fn new_pool_id(v: u64) -> PoolId {
    h256_from_low_u64(v)
}

fn new_delegation_id(v: u64) -> DelegationId {
    h256_from_low_u64(v)
}

fn amount(atoms: u128) -> Amount {
    Amount::from_atoms(atoms).unwrap()
}

fn signed(atoms: i128) -> SignedAmount {
    SignedAmount::from_atoms(atoms)
}

fn amounts<K: pos_accounting::key::OrderedKey + Copy>(
    entries: Vec<(K, SignedAmount)>,
) -> DeltaAmountCollection<K> {
    DeltaAmountCollection::from_entries(entries).unwrap()
}

fn first_key() -> PublicKey {
    PublicKey::new(0x1111_2222_3333_4444, 0x5555_6666_7777_8888)
}

fn second_key() -> PublicKey {
    PublicKey::new(0x9999_aaaa_bbbb_cccc, 0xdddd_eeee_ffff_0001)
}

fn first_delta(pub_key1: PublicKey) -> PoSAccountingDeltaData {
    PoSAccountingDeltaData {
        pool_data: DeltaDataCollection::from_entries(vec![(
            new_pool_id(1),
            DataDelta::new(None, Some(PoolData::new(pub_key1, amount(100)))),
        )]),
        pool_balances: amounts(vec![
            (new_pool_id(3), signed(300)),
            (new_pool_id(4), signed(400)),
        ]),
        pool_delegation_shares: amounts(vec![(
            (new_pool_id(5), new_delegation_id(6)),
            signed(100),
        )]),
        delegation_balances: amounts(vec![
            (new_delegation_id(5), signed(500)),
            (new_delegation_id(6), signed(600)),
        ]),
        delegation_data: DeltaDataCollection::from_entries(vec![(
            new_delegation_id(1),
            DataDelta::new(None, Some(DelegationData::new(new_pool_id(1), pub_key1))),
        )]),
    }
}

fn second_delta(pub_key1: PublicKey, pub_key2: PublicKey) -> PoSAccountingDeltaData {
    PoSAccountingDeltaData {
        pool_data: DeltaDataCollection::from_entries(vec![
            (
                new_pool_id(1),
                DataDelta::new(
                    Some(PoolData::new(pub_key1, amount(100))),
                    Some(PoolData::new(pub_key1, amount(300))),
                ),
            ),
            (
                new_pool_id(10),
                DataDelta::new(None, Some(PoolData::new(pub_key2, amount(100)))),
            ),
        ]),
        pool_balances: amounts(vec![
            (new_pool_id(3), signed(-300)),
            (new_pool_id(4), signed(50)),
        ]),
        pool_delegation_shares: amounts(vec![(
            (new_pool_id(5), new_delegation_id(6)),
            signed(50),
        )]),
        delegation_balances: amounts(vec![
            (new_delegation_id(8), signed(200)),
            (new_delegation_id(9), signed(300)),
        ]),
        delegation_data: DeltaDataCollection::from_entries(vec![(
            new_delegation_id(1),
            DataDelta::new(Some(DelegationData::new(new_pool_id(1), pub_key1)), None),
        )]),
    }
}

#[test]
fn merge_deltas_check_undo_check() {
    let mut storage = InMemoryPoSAccounting::new();
    let db = PoSAccountingDB::new(&mut storage);

    let pub_key1 = first_key();
    let data1 = first_delta(pub_key1);
    let mut delta1 = PoSAccountingDelta::from_data(&db, data1);

    let pub_key2 = second_key();
    let data2 = second_delta(pub_key1, pub_key2);
    let delta2 = PoSAccountingDelta::from_data(&delta1, data2);

    let expected_data_after_merge = PoSAccountingDeltaData {
        pool_data: DeltaDataCollection::from_entries(vec![
            (
                new_pool_id(1),
                DataDelta::new(None, Some(PoolData::new(pub_key1, amount(300)))),
            ),
            (
                new_pool_id(10),
                DataDelta::new(None, Some(PoolData::new(pub_key2, amount(100)))),
            ),
        ]),
        pool_balances: amounts(vec![(new_pool_id(4), signed(450))]),
        pool_delegation_shares: amounts(vec![(
            (new_pool_id(5), new_delegation_id(6)),
            signed(150),
        )]),
        delegation_balances: amounts(vec![
            (new_delegation_id(5), signed(500)),
            (new_delegation_id(6), signed(600)),
            (new_delegation_id(8), signed(200)),
            (new_delegation_id(9), signed(300)),
        ]),
        delegation_data: DeltaDataCollection::from_entries(vec![(
            new_delegation_id(1),
            DataDelta::new(None, None),
        )]),
    };

    let consumed = delta2.consume();
    let undo_data = delta1.merge_with_delta(consumed).unwrap();
    assert_eq!(delta1.data(), &expected_data_after_merge);

    let expected_data_after_undo = PoSAccountingDeltaData {
        pool_data: DeltaDataCollection::from_entries(vec![
            (
                new_pool_id(1),
                DataDelta::new(None, Some(PoolData::new(pub_key1, amount(100)))),
            ),
            (new_pool_id(10), DataDelta::new(None, None)),
        ]),
        pool_balances: amounts(vec![
            (new_pool_id(3), signed(300)),
            (new_pool_id(4), signed(400)),
        ]),
        pool_delegation_shares: amounts(vec![(
            (new_pool_id(5), new_delegation_id(6)),
            signed(100),
        )]),
        delegation_balances: amounts(vec![
            (new_delegation_id(5), signed(500)),
            (new_delegation_id(6), signed(600)),
        ]),
        delegation_data: DeltaDataCollection::from_entries(vec![(
            new_delegation_id(1),
            DataDelta::new(None, Some(DelegationData::new(new_pool_id(1), pub_key1))),
        )]),
    };

    delta1.undo_delta_merge(undo_data).unwrap();
    assert_eq!(delta1.data(), &expected_data_after_undo);
}

#[test]
fn merge_store_with_delta_check_undo_check() {
    let pub_key1 = first_key();
    let pub_key2 = second_key();

    let mut storage = InMemoryPoSAccounting::from_values(
        BTreeMap::from([(new_pool_id(1), PoolData::new(pub_key1, amount(100)))]),
        BTreeMap::from([(new_pool_id(3), amount(300)), (new_pool_id(4), amount(400))]),
        BTreeMap::from([((new_pool_id(5), new_delegation_id(6)), amount(100))]),
        BTreeMap::from([
            (new_delegation_id(5), amount(500)),
            (new_delegation_id(6), amount(600)),
        ]),
        BTreeMap::from([(
            new_delegation_id(1),
            DelegationData::new(new_pool_id(1), pub_key1),
        )]),
    );
    let original_storage = storage.clone();

    let undo_data = {
        let mut db = PoSAccountingDB::new(&mut storage);
        let delta_data = second_delta(pub_key1, pub_key2);
        let consumed = {
            let delta = PoSAccountingDelta::from_data(&db, delta_data);
            delta.consume()
        };
        db.merge_with_delta(consumed).unwrap()
    };

    let expected_storage = InMemoryPoSAccounting::from_values(
        BTreeMap::from([
            (new_pool_id(1), PoolData::new(pub_key1, amount(300))),
            (new_pool_id(10), PoolData::new(pub_key2, amount(100))),
        ]),
        BTreeMap::from([(new_pool_id(4), amount(450))]),
        BTreeMap::from([((new_pool_id(5), new_delegation_id(6)), amount(150))]),
        BTreeMap::from([
            (new_delegation_id(5), amount(500)),
            (new_delegation_id(6), amount(600)),
            (new_delegation_id(8), amount(200)),
            (new_delegation_id(9), amount(300)),
        ]),
        BTreeMap::new(),
    );

    assert_eq!(storage, expected_storage);

    {
        let mut db = PoSAccountingDB::new(&mut storage);
        db.undo_merge_with_delta(undo_data).unwrap();
    }
    assert_eq!(storage, original_storage);
}

#[test]
fn store_merge_records_what_it_replaced() {
    let pub_key1 = first_key();
    let mut storage = InMemoryPoSAccounting::from_values(
        BTreeMap::new(),
        BTreeMap::from([(new_pool_id(3), amount(300))]),
        BTreeMap::new(),
        BTreeMap::new(),
        BTreeMap::new(),
    );
    let mut delta = PoSAccountingDeltaData::new();
    delta.pool_balances =
        amounts(vec![(new_pool_id(3), signed(-300)), (new_pool_id(7), signed(5))]);
    delta.pool_data = DeltaDataCollection::from_entries(vec![(
        new_pool_id(1),
        DataDelta::new(None, Some(PoolData::new(pub_key1, amount(9)))),
    )]);
    let mut db = PoSAccountingDB::new(&mut storage);
    let undo = db.merge_with_delta(delta).unwrap();
    assert_eq!(undo.prior_pool_balance(new_pool_id(3)), Some(Some(amount(300))));
    assert_eq!(undo.prior_pool_balance(new_pool_id(7)), Some(None));
    assert_eq!(undo.prior_pool_balance(new_pool_id(8)), None);
    assert_eq!(undo.prior_pool_data(new_pool_id(1)), Some(None));
    assert_eq!(undo.prior_delegation_balance(new_delegation_id(1)), None);
    assert_eq!(undo.prior_delegation_data(new_delegation_id(1)), None);
    assert_eq!(undo.prior_pool_delegation_share(new_pool_id(1), new_delegation_id(1)), None);
    assert_eq!(db.get_pool_balance(new_pool_id(3)), Ok(None));
    assert_eq!(db.get_pool_balance(new_pool_id(7)), Ok(Some(amount(5))));
    assert_eq!(
        db.get_pool_data(new_pool_id(1)),
        Ok(Some(PoolData::new(pub_key1, amount(9))))
    );
}

#[test]
fn store_merge_rejects_a_transition_that_does_not_continue() {
    let pub_key1 = first_key();
    let mut storage = InMemoryPoSAccounting::from_values(
        BTreeMap::from([(new_pool_id(1), PoolData::new(pub_key1, amount(100)))]),
        BTreeMap::new(),
        BTreeMap::new(),
        BTreeMap::new(),
        BTreeMap::new(),
    );
    let before = storage.clone();
    let mut delta = PoSAccountingDeltaData::new();
    delta.pool_data = DeltaDataCollection::from_entries(vec![(
        new_pool_id(1),
        DataDelta::new(
            Some(PoolData::new(pub_key1, amount(101))),
            Some(PoolData::new(pub_key1, amount(300))),
        ),
    )]);
    {
        let mut db = PoSAccountingDB::new(&mut storage);
        assert_eq!(
            db.merge_with_delta(delta),
            Err(pos_accounting::error::Error::DeltaDataMismatch)
        );
    }
    assert_eq!(storage, before);
}

#[test]
fn store_merge_rejects_sums_that_are_no_amounts() {
    let mut storage = InMemoryPoSAccounting::from_values(
        BTreeMap::new(),
        BTreeMap::from([(new_pool_id(3), amount(300))]),
        BTreeMap::new(),
        BTreeMap::from([(new_delegation_id(2), amount(pos_accounting::amount::MAX_ATOMS))]),
        BTreeMap::new(),
    );
    let mut negative = PoSAccountingDeltaData::new();
    negative.pool_balances = amounts(vec![(new_pool_id(3), signed(-301))]);
    let mut overflow = PoSAccountingDeltaData::new();
    overflow.delegation_balances = amounts(vec![(new_delegation_id(2), signed(1))]);
    let mut db = PoSAccountingDB::new(&mut storage);
    assert_eq!(
        db.merge_with_delta(negative),
        Err(pos_accounting::error::Error::NegativeAmount)
    );
    assert_eq!(
        db.merge_with_delta(overflow),
        Err(pos_accounting::error::Error::AmountOverflow)
    );
}

#[test]
fn store_merge_fails_at_the_least_key_that_cannot_be_applied() {
    let max = pos_accounting::amount::MAX_ATOMS;
    let mut storage = InMemoryPoSAccounting::from_values(
        BTreeMap::new(),
        BTreeMap::from([(new_pool_id(2), amount(max)), (new_pool_id(5), amount(1))]),
        BTreeMap::new(),
        BTreeMap::from([(new_delegation_id(1), amount(max))]),
        BTreeMap::new(),
    );
    // pool 2 overflows and pool 5 goes below zero: the lower key decides
    let mut delta = PoSAccountingDeltaData::new();
    delta.pool_balances = amounts(vec![
        (new_pool_id(5), signed(-2)),
        (new_pool_id(2), signed(1)),
        (new_pool_id(1), signed(10)),
    ]);
    delta.delegation_balances = amounts(vec![(new_delegation_id(1), signed(1))]);
    {
        let mut db = PoSAccountingDB::new(&mut storage);
        assert_eq!(
            db.merge_with_delta(delta),
            Err(pos_accounting::error::Error::AmountOverflow)
        );
        // what was written before the failure stays
        assert_eq!(db.get_pool_balance(new_pool_id(1)), Ok(Some(amount(10))));
        assert_eq!(db.get_pool_balance(new_pool_id(5)), Ok(Some(amount(1))));
    }

    // the pool balances come before the delegation balances
    let mut storage = InMemoryPoSAccounting::from_values(
        BTreeMap::new(),
        BTreeMap::from([(new_pool_id(5), amount(1))]),
        BTreeMap::new(),
        BTreeMap::from([(new_delegation_id(1), amount(max))]),
        BTreeMap::new(),
    );
    let mut delta = PoSAccountingDeltaData::new();
    delta.pool_balances = amounts(vec![(new_pool_id(5), signed(-2))]);
    delta.delegation_balances = amounts(vec![(new_delegation_id(1), signed(1))]);
    let mut db = PoSAccountingDB::new(&mut storage);
    assert_eq!(
        db.merge_with_delta(delta),
        Err(pos_accounting::error::Error::NegativeAmount)
    );
}
