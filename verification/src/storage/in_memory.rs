use crate::amount::Amount;
use crate::error::StorageError;
use crate::id::{PublicKey, H256};
use crate::key::{first_keys, keys_of, lemma_first_keys_ends, lemma_first_keys_step, put_at, remove_at, value_at};
use crate::pool::delegation::DelegationData;
use crate::pool::pool_data::PoolData;
use crate::storage::{
    shares_of_pool, PoSAccountingStorageRead, PoSAccountingStorageWrite, StorageModel,
};
use std::collections::BTreeMap;
use vstd::prelude::*;

verus! {

/// A store that lives in memory and never fails.
#[derive(Clone, Debug, PartialEq, Eq)]
pub struct InMemoryPoSAccounting {
    pool_data: BTreeMap<H256, PoolData>,
    pool_balances: BTreeMap<H256, Amount>,
    pool_delegation_shares: BTreeMap<(H256, H256), Amount>,
    delegation_balances: BTreeMap<H256, Amount>,
    delegation_data: BTreeMap<H256, DelegationData>,
}

impl InMemoryPoSAccounting {
    /// What the store holds.
    pub closed spec fn content(&self) -> StorageModel {
        StorageModel {
            pool_data: self.pool_data@,
            pool_balances: self.pool_balances@,
            pool_delegation_shares: self.pool_delegation_shares@,
            delegation_balances: self.delegation_balances@,
            delegation_data: self.delegation_data@,
        }
    }

    /// The store that holds nothing.
    pub fn new() -> (store: Self)
        ensures
            store.content() == StorageModel::empty(),
    {
        Self {
            pool_data: BTreeMap::new(),
            pool_balances: BTreeMap::new(),
            pool_delegation_shares: BTreeMap::new(),
            delegation_balances: BTreeMap::new(),
            delegation_data: BTreeMap::new(),
        }
    }

    /// The store that holds the given maps.
    pub fn from_values(
        pool_data: BTreeMap<H256, PoolData>,
        pool_balances: BTreeMap<H256, Amount>,
        pool_delegation_shares: BTreeMap<(H256, H256), Amount>,
        delegation_balances: BTreeMap<H256, Amount>,
        delegation_data: BTreeMap<H256, DelegationData>,
    ) -> (store: Self)
        ensures
            store.content() == (StorageModel {
                pool_data: pool_data@,
                pool_balances: pool_balances@,
                pool_delegation_shares: pool_delegation_shares@,
                delegation_balances: delegation_balances@,
                delegation_data: delegation_data@,
            }),
    {
        Self { pool_data, pool_balances, pool_delegation_shares, delegation_balances, delegation_data }
    }
}

impl PoSAccountingStorageRead for InMemoryPoSAccounting {
    open spec fn model(&self) -> StorageModel {
        self.content()
    }

    open spec fn reliable(&self) -> bool {
        true
    }

    fn get_pool_data(&self, pool_id: H256) -> (r: Result<Option<PoolData>, StorageError>) {
        Ok(value_at(&self.pool_data, pool_id))
    }

    fn get_pool_address_balance(&self, pool_id: H256) -> (r: Result<Option<Amount>, StorageError>) {
        Ok(value_at(&self.pool_balances, pool_id))
    }

    fn get_pool_delegation_shares(&self, pool_id: H256) -> (r: Result<
        Option<BTreeMap<H256, Amount>>,
        StorageError,
    >)
        ensures
            r matches Ok(shares) ==> (shares is None <==> shares_of_pool(
                self.model().pool_delegation_shares,
                pool_id,
            ) == Map::<H256, Amount>::empty()),
    {
        let keys = keys_of(&self.pool_delegation_shares);
        let mut shares: BTreeMap<H256, Amount> = BTreeMap::new();
        let ghost all = self.pool_delegation_shares@;
        let mut i: usize = 0;
        proof {
            lemma_first_keys_ends(keys@);
            assert(shares_of_pool(all.restrict(first_keys(keys@, 0)), pool_id) =~= Map::<
                H256,
                Amount,
            >::empty());
        }
        while i < keys.len()
            invariant
                0 <= i <= keys.len(),
                all == self.pool_delegation_shares@,
                keys@.no_duplicates(),
                keys@.to_set() == all.dom(),
                shares@ == shares_of_pool(all.restrict(first_keys(keys@, i as int)), pool_id),
            decreases keys.len() - i,
        {
            let (pool, delegation) = keys[i];
            let ghost done = first_keys(keys@, i as int);
            proof {
                lemma_first_keys_step(keys@, i as int);
                assert(keys@.to_set().contains((pool, delegation)));
            }
            if pool.0 == pool_id.0 && pool.1 == pool_id.1 {
                let amount = value_at(&self.pool_delegation_shares, (pool, delegation)).unwrap();
                put_at(&mut shares, delegation, amount);
            }
            proof {
                let next = all.restrict(done.insert((pool, delegation)));
                if pool == pool_id {
                    assert(shares@ =~= shares_of_pool(next, pool_id));
                } else {
                    assert(shares_of_pool(all.restrict(done), pool_id) =~= shares_of_pool(
                        next,
                        pool_id,
                    ));
                }
            }
            i = i + 1;
        }
        proof {
            lemma_first_keys_ends(keys@);
            assert(all.restrict(all.dom()) =~= all);
        }
        if shares.is_empty() {
            proof {
                assert(shares@ =~= Map::<H256, Amount>::empty());
            }
            Ok(None)
        } else {
            Ok(Some(shares))
        }
    }

    fn get_delegation_address_data(&self, delegation_address: H256) -> (r: Result<
        Option<DelegationData>,
        StorageError,
    >) {
        Ok(value_at(&self.delegation_data, delegation_address))
    }

    fn get_delegation_address_balance(&self, delegation_address: H256) -> (r: Result<
        Option<Amount>,
        StorageError,
    >) {
        Ok(value_at(&self.delegation_balances, delegation_address))
    }
}

impl PoSAccountingStorageWrite for InMemoryPoSAccounting {
    fn set_pool_data(&mut self, pool_id: H256, pool_data: &PoolData) -> (r: Result<
        (),
        StorageError,
    >) {
        put_at(&mut self.pool_data, pool_id, *pool_data);
        Ok(())
    }

    fn del_pool_data(&mut self, pool_id: H256) -> (r: Result<(), StorageError>) {
        remove_at(&mut self.pool_data, pool_id);
        Ok(())
    }

    fn set_pool_address_balance(&mut self, pool_id: H256, amount: Amount) -> (r: Result<
        (),
        StorageError,
    >) {
        put_at(&mut self.pool_balances, pool_id, amount);
        Ok(())
    }

    fn del_pool(&mut self, pool_id: H256) -> (r: Result<(), StorageError>) {
        remove_at(&mut self.pool_balances, pool_id);
        Ok(())
    }

    fn set_delegation_address_balance(&mut self, delegation_target: H256, amount: Amount) -> (r:
        Result<(), StorageError>) {
        put_at(&mut self.delegation_balances, delegation_target, amount);
        Ok(())
    }

    fn del_delegation_address_balance(&mut self, delegation_target: H256) -> (r: Result<
        (),
        StorageError,
    >) {
        remove_at(&mut self.delegation_balances, delegation_target);
        Ok(())
    }

    fn set_pool_delegation_shares(
        &mut self,
        pool_id: H256,
        delegation_address: H256,
        amount: Amount,
    ) -> (r: Result<(), StorageError>) {
        put_at(&mut self.pool_delegation_shares, (pool_id, delegation_address), amount);
        Ok(())
    }

    fn del_pool_delegation_shares(&mut self, pool_id: H256, delegation_address: H256) -> (r:
        Result<(), StorageError>) {
        remove_at(&mut self.pool_delegation_shares, (pool_id, delegation_address));
        Ok(())
    }

    fn set_delegation_address_data(
        &mut self,
        delegation_address: H256,
        source_pool: H256,
        public_key: &PublicKey,
    ) -> (r: Result<(), StorageError>) {
        put_at(
            &mut self.delegation_data,
            delegation_address,
            DelegationData { source_pool, spend_public_key: *public_key },
        );
        Ok(())
    }

    fn del_delegation_address_data(&mut self, delegation_address: H256) -> (r: Result<
        (),
        StorageError,
    >) {
        remove_at(&mut self.delegation_data, delegation_address);
        Ok(())
    }
}

} // verus!
