//! What the node knows of its peers.
pub mod address_set;
pub mod peerdb;
