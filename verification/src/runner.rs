//! What the node decides before it starts its subsystems.
use vstd::prelude::*;

verus! {

/// The kind of chain that a node can be asked to run.
#[derive(Debug, Ord, PartialOrd, PartialEq, Eq, Clone, Copy, Structural)]
pub enum ChainType {
    Mainnet,
    Testnet,
    Regtest,
    Signet,
}

/// Why a node cannot be initialized.
#[derive(Debug, Ord, PartialOrd, PartialEq, Eq, Clone, Copy, Structural)]
pub enum NodeError {
    /// The node cannot run a chain of this type yet.
    UnsupportedChain(ChainType),
}

/// Decides whether the node can run a chain of type `chain_type`: it can run the main
/// network and nothing else.
pub fn check_chain_type(chain_type: ChainType) -> (r: Result<(), NodeError>)
    ensures
        r == (if chain_type is Mainnet {
            Ok::<(), NodeError>(())
        } else {
            Err::<(), NodeError>(NodeError::UnsupportedChain(chain_type))
        }),
{
    match chain_type {
        ChainType::Mainnet => Ok(()),
        chain_type => Err(NodeError::UnsupportedChain(chain_type)),
    }
}

} // verus!
