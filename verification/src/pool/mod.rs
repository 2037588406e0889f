//! Stake pools and delegations: their records, the aggregate of their changes, and the layers
//! that the changes are read through.
pub mod delegation;
pub mod delta;
pub mod pool_data;
pub mod storage;
pub mod view;
