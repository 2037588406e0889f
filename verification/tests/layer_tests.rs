use pos_accounting::accounting::data_delta::DataDelta;
use pos_accounting::accounting::delta_amount_collection::DeltaAmountCollection;
use pos_accounting::accounting::delta_data_collection::DeltaDataCollection;
use pos_accounting::amount::{Amount, SignedAmount, MAX_ATOMS};
use pos_accounting::error::{Error, StorageError};
use pos_accounting::id::{h256_from_low_u64, PublicKey, H256};
use pos_accounting::pool::delegation::DelegationData;
use pos_accounting::pool::delta::data::PoSAccountingDeltaData;
use pos_accounting::pool::delta::PoSAccountingDelta;
use pos_accounting::pool::pool_data::PoolData;
use pos_accounting::pool::storage::apply::storage_failure;
use pos_accounting::pool::storage::merge::merge_stored_amount;
use pos_accounting::pool::storage::PoSAccountingDB;
use pos_accounting::pool::view::{combine_amount_delta, PoSAccountingView};
use pos_accounting::storage::in_memory::InMemoryPoSAccounting;
use pos_accounting::storage::{PoSAccountingStorageRead, PoSAccountingStorageWrite};
use std::collections::BTreeMap;

fn id(v: u64) -> H256 {
    h256_from_low_u64(v)
}

fn amount(atoms: u128) -> Amount {
    Amount::from_atoms(atoms).unwrap()
}

fn signed(atoms: i128) -> SignedAmount {
    SignedAmount::from_atoms(atoms)
}

fn key() -> PublicKey {
    PublicKey::new(3, 4)
}

fn base_store() -> InMemoryPoSAccounting {
    InMemoryPoSAccounting::from_values(
        BTreeMap::from([(id(1), PoolData::new(key(), amount(100)))]),
        BTreeMap::from([(id(1), amount(1000)), (id(2), amount(50))]),
        BTreeMap::from([
            ((id(1), id(10)), amount(10)),
            ((id(1), id(11)), amount(20)),
            ((id(2), id(10)), amount(5)),
        ]),
        BTreeMap::from([(id(10), amount(15)), (id(11), amount(20))]),
        BTreeMap::from([
            (id(10), DelegationData::new(id(1), key())),
            (id(11), DelegationData::new(id(1), key())),
        ]),
    )
}

#[test]
fn ids_are_made_from_the_low_bits() {
    assert_eq!(h256_from_low_u64(0), (0, 0));
    assert_eq!(h256_from_low_u64(u64::MAX), (0, u64::MAX as u128));
    assert!(h256_from_low_u64(3) < h256_from_low_u64(4));
    let k = PublicKey::new(5, 6);
    assert_eq!((k.high, k.low), (5, 6));
    let d = DelegationData::new(id(1), k);
    assert_eq!(d.source_pool(), id(1));
    assert_eq!(d.spend_public_key(), k);
    let p = PoolData::new(k, amount(8));
    assert_eq!(p.decommission_key(), k);
    assert_eq!(p.pledge_amount(), amount(8));
}

#[test]
fn amounts_seen_through_a_change() {
    assert_eq!(combine_amount_delta(None, None), Ok(None));
    assert_eq!(combine_amount_delta(Some(amount(5)), None), Ok(Some(amount(5))));
    assert_eq!(combine_amount_delta(None, Some(signed(7))), Ok(Some(amount(7))));
    assert_eq!(combine_amount_delta(None, Some(signed(0))), Ok(Some(amount(0))));
    assert_eq!(
        combine_amount_delta(Some(amount(100)), Some(signed(50))),
        Ok(Some(amount(150)))
    );
    assert_eq!(
        combine_amount_delta(Some(amount(300)), Some(signed(-300))),
        Ok(Some(amount(0)))
    );
    assert_eq!(
        combine_amount_delta(Some(amount(300)), Some(signed(-301))),
        Err(Error::NegativeAmount)
    );
    assert_eq!(combine_amount_delta(None, Some(signed(-1))), Err(Error::NegativeAmount));
    assert_eq!(
        combine_amount_delta(Some(amount(MAX_ATOMS)), Some(signed(1))),
        Err(Error::AmountOverflow)
    );
    assert_eq!(
        combine_amount_delta(Some(amount(1)), Some(signed(i128::MAX))),
        Err(Error::AmountOverflow)
    );
    assert_eq!(
        combine_amount_delta(Some(amount(0)), Some(signed(i128::MAX))),
        Ok(Some(amount(MAX_ATOMS)))
    );
}

#[test]
fn amounts_written_to_the_store() {
    assert_eq!(merge_stored_amount(Some(amount(400)), signed(50)), Ok(Some(amount(450))));
    assert_eq!(merge_stored_amount(Some(amount(300)), signed(-300)), Ok(None));
    assert_eq!(merge_stored_amount(None, signed(0)), Ok(None));
    assert_eq!(merge_stored_amount(None, signed(200)), Ok(Some(amount(200))));
    assert_eq!(merge_stored_amount(None, signed(-1)), Err(Error::NegativeAmount));
    assert_eq!(
        merge_stored_amount(Some(amount(MAX_ATOMS)), signed(1)),
        Err(Error::AmountOverflow)
    );
    assert_eq!(storage_failure(StorageError::Fatal), Error::Storage(StorageError::Fatal));
}

#[test]
fn the_bottom_layer_reads_the_store() {
    let mut store = base_store();
    let db = PoSAccountingDB::new(&mut store);
    assert_eq!(db.get_pool_data(id(1)), Ok(Some(PoolData::new(key(), amount(100)))));
    assert_eq!(db.get_pool_data(id(2)), Ok(None));
    assert_eq!(db.get_pool_balance(id(1)), Ok(Some(amount(1000))));
    assert_eq!(db.get_pool_balance(id(3)), Ok(None));
    assert_eq!(db.get_delegation_balance(id(10)), Ok(Some(amount(15))));
    assert_eq!(db.get_delegation_balance(id(12)), Ok(None));
    assert_eq!(
        db.get_delegation_data(id(10)),
        Ok(Some(DelegationData::new(id(1), key())))
    );
    assert_eq!(db.get_delegation_data(id(12)), Ok(None));
    assert_eq!(db.get_pool_delegation_share(id(1), id(11)), Ok(Some(amount(20))));
    assert_eq!(db.get_pool_delegation_share(id(2), id(11)), Ok(None));
    assert_eq!(db.get_pool_delegation_share(id(3), id(11)), Ok(None));
    assert_eq!(
        db.get_pool_delegation_shares(id(1)),
        Ok(Some(BTreeMap::from([(id(10), amount(10)), (id(11), amount(20))])))
    );
    assert_eq!(
        db.get_pool_delegation_shares(id(2)),
        Ok(Some(BTreeMap::from([(id(10), amount(5))])))
    );
    assert_eq!(db.get_pool_delegation_shares(id(3)), Ok(None));
}

#[test]
fn reads_fall_through_to_the_parent() {
    let mut store = base_store();
    let db = PoSAccountingDB::new(&mut store);
    let parent = PoSAccountingDelta::new(&db);
    let child = PoSAccountingDelta::new(&parent);
    // present only below: the value comes up unchanged through both layers
    assert_eq!(
        child.get_delegation_data(id(10)),
        Ok(Some(DelegationData::new(id(1), key())))
    );
    assert_eq!(child.get_pool_data(id(1)), Ok(Some(PoolData::new(key(), amount(100)))));
    assert_eq!(child.get_pool_balance(id(1)), Ok(Some(amount(1000))));
    assert_eq!(child.get_delegation_balance(id(11)), Ok(Some(amount(20))));
    assert_eq!(child.get_pool_delegation_share(id(1), id(10)), Ok(Some(amount(10))));
    assert_eq!(
        child.get_pool_delegation_shares(id(1)),
        Ok(Some(BTreeMap::from([(id(10), amount(10)), (id(11), amount(20))])))
    );
    assert_eq!(child.get_pool_delegation_shares(id(3)), Ok(None));
    assert_eq!(child.get_delegation_data(id(12)), Ok(None));
    assert_eq!(child.data(), &PoSAccountingDeltaData::new());
}

#[test]
fn a_record_deleted_in_the_child_reads_as_absent() {
    let mut store = base_store();
    let db = PoSAccountingDB::new(&mut store);

    let mut parent_data = PoSAccountingDeltaData::new();
    parent_data.delegation_data = DeltaDataCollection::from_entries(vec![(
        id(12),
        DataDelta::new(None, Some(DelegationData::new(id(2), key()))),
    )]);
    let parent = PoSAccountingDelta::from_data(&db, parent_data);

    let mut child_data = PoSAccountingDeltaData::new();
    child_data.delegation_data = DeltaDataCollection::from_entries(vec![
        (id(10), DataDelta::new(Some(DelegationData::new(id(1), key())), None)),
        (id(12), DataDelta::new(Some(DelegationData::new(id(2), key())), None)),
    ]);
    child_data.pool_data = DeltaDataCollection::from_entries(vec![(
        id(1),
        DataDelta::new(
            Some(PoolData::new(key(), amount(100))),
            Some(PoolData::new(key(), amount(300))),
        ),
    )]);
    let child = PoSAccountingDelta::from_data(&parent, child_data);

    assert_eq!(
        parent.get_delegation_data(id(10)),
        Ok(Some(DelegationData::new(id(1), key())))
    );
    assert_eq!(
        parent.get_delegation_data(id(12)),
        Ok(Some(DelegationData::new(id(2), key())))
    );
    assert_eq!(child.get_delegation_data(id(10)), Ok(None));
    assert_eq!(child.get_delegation_data(id(12)), Ok(None));
    assert_eq!(
        child.get_delegation_data(id(11)),
        Ok(Some(DelegationData::new(id(1), key())))
    );
    assert_eq!(child.get_pool_data(id(1)), Ok(Some(PoolData::new(key(), amount(300)))));
    assert_eq!(parent.get_pool_data(id(1)), Ok(Some(PoolData::new(key(), amount(100)))));
}

#[test]
fn amounts_add_up_through_the_layers() {
    let mut store = base_store();
    let db = PoSAccountingDB::new(&mut store);

    let mut parent_data = PoSAccountingDeltaData::new();
    parent_data.pool_balances = DeltaAmountCollection::from_entries(vec![
        (id(1), signed(-400)),
        (id(3), signed(30)),
    ])
    .unwrap();
    parent_data.pool_delegation_shares = DeltaAmountCollection::from_entries(vec![
        ((id(1), id(10)), signed(5)),
        ((id(1), id(12)), signed(7)),
        ((id(2), id(10)), signed(-5)),
        ((id(4), id(10)), signed(-1)),
    ])
    .unwrap();
    parent_data.delegation_balances =
        DeltaAmountCollection::from_entries(vec![(id(10), signed(-16))]).unwrap();
    let parent = PoSAccountingDelta::from_data(&db, parent_data);

    let mut child_data = PoSAccountingDeltaData::new();
    child_data.pool_balances =
        DeltaAmountCollection::from_entries(vec![(id(1), signed(25))]).unwrap();
    child_data.pool_delegation_shares =
        DeltaAmountCollection::from_entries(vec![((id(1), id(12)), signed(-7))]).unwrap();
    child_data.delegation_balances =
        DeltaAmountCollection::from_entries(vec![(id(10), signed(1))]).unwrap();
    let child = PoSAccountingDelta::from_data(&parent, child_data);

    assert_eq!(parent.get_pool_balance(id(1)), Ok(Some(amount(600))));
    assert_eq!(child.get_pool_balance(id(1)), Ok(Some(amount(625))));
    assert_eq!(child.get_pool_balance(id(2)), Ok(Some(amount(50))));
    assert_eq!(child.get_pool_balance(id(3)), Ok(Some(amount(30))));
    assert_eq!(child.get_pool_balance(id(4)), Ok(None));

    assert_eq!(parent.get_pool_delegation_share(id(1), id(10)), Ok(Some(amount(15))));
    assert_eq!(parent.get_pool_delegation_share(id(1), id(12)), Ok(Some(amount(7))));
    assert_eq!(child.get_pool_delegation_share(id(1), id(12)), Ok(Some(amount(0))));
    assert_eq!(parent.get_pool_delegation_share(id(2), id(10)), Ok(Some(amount(0))));
    assert_eq!(
        parent.get_pool_delegation_share(id(4), id(10)),
        Err(Error::NegativeAmount)
    );

    assert_eq!(
        parent.get_pool_delegation_shares(id(1)),
        Ok(Some(BTreeMap::from([
            (id(10), amount(15)),
            (id(11), amount(20)),
            (id(12), amount(7)),
        ])))
    );
    assert_eq!(
        child.get_pool_delegation_shares(id(1)),
        Ok(Some(BTreeMap::from([
            (id(10), amount(15)),
            (id(11), amount(20)),
            (id(12), amount(0)),
        ])))
    );
    assert_eq!(
        parent.get_pool_delegation_shares(id(2)),
        Ok(Some(BTreeMap::from([(id(10), amount(0))])))
    );
    assert_eq!(parent.get_pool_delegation_shares(id(4)), Err(Error::NegativeAmount));
    assert_eq!(child.get_pool_delegation_shares(id(4)), Err(Error::NegativeAmount));
    assert_eq!(child.get_pool_delegation_shares(id(5)), Ok(None));

    // the sum below zero in the parent is an error there and in every layer above
    assert_eq!(parent.get_delegation_balance(id(10)), Err(Error::NegativeAmount));
    assert_eq!(child.get_delegation_balance(id(10)), Err(Error::NegativeAmount));
    assert_eq!(child.get_delegation_balance(id(11)), Ok(Some(amount(20))));
}

#[test]
fn consume_hands_out_the_changes() {
    let mut store = InMemoryPoSAccounting::new();
    let db = PoSAccountingDB::new(&mut store);
    let mut data = PoSAccountingDeltaData::new();
    data.pool_balances =
        DeltaAmountCollection::from_entries(vec![(id(1), signed(5))]).unwrap();
    let layer = PoSAccountingDelta::from_data(&db, data.clone());
    assert_eq!(layer.data(), &data);
    assert_eq!(layer.consume(), data);
}

/// A store that holds nothing and fails every call.
struct FailingStore {
    error: StorageError,
}

impl PoSAccountingStorageRead for FailingStore {
    fn get_pool_data(&self, _pool_id: H256) -> Result<Option<PoolData>, StorageError> {
        Err(self.error)
    }

    fn get_pool_address_balance(&self, _pool_id: H256) -> Result<Option<Amount>, StorageError> {
        Err(self.error)
    }

    fn get_pool_delegation_shares(
        &self,
        _pool_id: H256,
    ) -> Result<Option<BTreeMap<H256, Amount>>, StorageError> {
        Err(self.error)
    }

    fn get_delegation_address_data(
        &self,
        _delegation_address: H256,
    ) -> Result<Option<DelegationData>, StorageError> {
        Err(self.error)
    }

    fn get_delegation_address_balance(
        &self,
        _delegation_address: H256,
    ) -> Result<Option<Amount>, StorageError> {
        Err(self.error)
    }
}

impl PoSAccountingStorageWrite for FailingStore {
    fn set_pool_data(&mut self, _pool_id: H256, _pool_data: &PoolData) -> Result<(), StorageError> {
        Err(self.error)
    }

    fn del_pool_data(&mut self, _pool_id: H256) -> Result<(), StorageError> {
        Err(self.error)
    }

    fn set_pool_address_balance(&mut self, _pool_id: H256, _amount: Amount) -> Result<(), StorageError> {
        Err(self.error)
    }

    fn del_pool(&mut self, _pool_id: H256) -> Result<(), StorageError> {
        Err(self.error)
    }

    fn set_delegation_address_balance(
        &mut self,
        _delegation_target: H256,
        _amount: Amount,
    ) -> Result<(), StorageError> {
        Err(self.error)
    }

    fn del_delegation_address_balance(&mut self, _delegation_target: H256) -> Result<(), StorageError> {
        Err(self.error)
    }

    fn set_pool_delegation_shares(
        &mut self,
        _pool_id: H256,
        _delegation_address: H256,
        _amount: Amount,
    ) -> Result<(), StorageError> {
        Err(self.error)
    }

    fn del_pool_delegation_shares(
        &mut self,
        _pool_id: H256,
        _delegation_address: H256,
    ) -> Result<(), StorageError> {
        Err(self.error)
    }

    fn set_delegation_address_data(
        &mut self,
        _delegation_address: H256,
        _source_pool: H256,
        _public_key: &PublicKey,
    ) -> Result<(), StorageError> {
        Err(self.error)
    }

    fn del_delegation_address_data(&mut self, _delegation_address: H256) -> Result<(), StorageError> {
        Err(self.error)
    }
}

#[test]
fn a_failure_of_the_store_comes_up_unchanged() {
    let mut store = FailingStore { error: StorageError::Recoverable };
    let mut db = PoSAccountingDB::new(&mut store);
    let failure = Error::Storage(StorageError::Recoverable);
    assert_eq!(db.get_pool_balance(id(1)), Err(failure));
    assert_eq!(db.get_pool_data(id(1)), Err(failure));
    assert_eq!(db.get_pool_delegation_share(id(1), id(2)), Err(failure));
    assert_eq!(db.get_pool_delegation_shares(id(1)), Err(failure));
    assert_eq!(db.get_delegation_balance(id(1)), Err(failure));
    assert_eq!(db.get_delegation_data(id(1)), Err(failure));

    let mut delta = PoSAccountingDeltaData::new();
    delta.pool_balances =
        DeltaAmountCollection::from_entries(vec![(id(1), signed(5))]).unwrap();
    assert_eq!(db.merge_with_delta(delta.clone()).map(|_| ()), Err(failure));
    assert_eq!(db.merge_with_delta(PoSAccountingDeltaData::new()).map(|_| ()), Ok(()));

    {
        let layer = PoSAccountingDelta::from_data(&db, delta);
        assert_eq!(layer.get_pool_balance(id(1)), Err(failure));
        assert_eq!(layer.get_pool_delegation_shares(id(1)), Err(failure));
        assert_eq!(layer.get_delegation_data(id(1)), Err(failure));
    }

    let mut fatal = FailingStore { error: StorageError::Fatal };
    let fatal_db = PoSAccountingDB::new(&mut fatal);
    assert_eq!(
        fatal_db.get_pool_balance(id(1)),
        Err(Error::Storage(StorageError::Fatal))
    );
}

#[test]
fn the_in_memory_store_writes_one_entry() {
    let mut store = InMemoryPoSAccounting::new();
    assert_eq!(store.set_pool_address_balance(id(1), amount(5)), Ok(()));
    assert_eq!(store.set_pool_data(id(1), &PoolData::new(key(), amount(6))), Ok(()));
    assert_eq!(store.set_delegation_address_balance(id(2), amount(7)), Ok(()));
    assert_eq!(store.set_pool_delegation_shares(id(1), id(2), amount(8)), Ok(()));
    assert_eq!(store.set_delegation_address_data(id(2), id(1), &key()), Ok(()));
    assert_eq!(
        store,
        InMemoryPoSAccounting::from_values(
            BTreeMap::from([(id(1), PoolData::new(key(), amount(6)))]),
            BTreeMap::from([(id(1), amount(5))]),
            BTreeMap::from([((id(1), id(2)), amount(8))]),
            BTreeMap::from([(id(2), amount(7))]),
            BTreeMap::from([(id(2), DelegationData::new(id(1), key()))]),
        )
    );
    assert_eq!(store.get_pool_address_balance(id(1)), Ok(Some(amount(5))));
    assert_eq!(store.get_pool_data(id(1)), Ok(Some(PoolData::new(key(), amount(6)))));
    assert_eq!(store.get_delegation_address_balance(id(2)), Ok(Some(amount(7))));
    assert_eq!(
        store.get_delegation_address_data(id(2)),
        Ok(Some(DelegationData::new(id(1), key())))
    );
    assert_eq!(
        store.get_pool_delegation_shares(id(1)),
        Ok(Some(BTreeMap::from([(id(2), amount(8))])))
    );
    assert_eq!(store.get_pool_delegation_shares(id(2)), Ok(None));
    assert_eq!(store.del_pool(id(1)), Ok(()));
    assert_eq!(store.del_pool_data(id(1)), Ok(()));
    assert_eq!(store.del_delegation_address_balance(id(2)), Ok(()));
    assert_eq!(store.del_pool_delegation_shares(id(1), id(2)), Ok(()));
    assert_eq!(store.del_delegation_address_data(id(2)), Ok(()));
    assert_eq!(store, InMemoryPoSAccounting::new());
}
