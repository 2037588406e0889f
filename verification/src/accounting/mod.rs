//! The reversible algebra of per-key changes: transitions of records and sums of signed amounts.
pub mod data_delta;
pub mod delta_amount_collection;
pub mod delta_data_collection;
