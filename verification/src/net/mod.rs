//! What the networking service tells the rest of the node.
pub mod types;
