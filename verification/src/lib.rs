//! Layered delta accounting for proof-of-stake pools and delegations, together with the
//! peer database and the storage backend helpers of the node.
use vstd::prelude::*;

pub mod accounting;
pub mod amount;
pub mod error;
pub mod id;
pub mod key;
pub mod net;
pub mod pool;
pub mod runner;
pub mod sqlite;
pub mod storage;
pub mod swarm;
pub mod text;

verus! {

} // verus!
