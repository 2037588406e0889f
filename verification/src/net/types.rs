use std::collections::BTreeSet;
use vstd::prelude::*;

verus! {

/// Identifies a peer.
pub type PeerId = u64;

/// The address of a peer, in its text form.
pub type Address = String;

/// Identifies a request of the syncing protocol.
pub type RequestId = u64;

/// The version of the software that a peer runs.
#[derive(Clone, Copy, Debug, PartialEq, Eq, Structural)]
pub struct SemVer {
    pub major: u8,
    pub minor: u8,
    pub patch: u16,
}

/// A failure of the networking service, with its description.
#[derive(Clone, Debug, PartialEq, Eq)]
pub struct P2pError {
    pub description: String,
}

/// A request of the syncing protocol, in its wire encoding.
#[derive(Clone, Debug, PartialEq, Eq)]
pub struct Request {
    pub encoded: Vec<u8>,
}

/// A response of the syncing protocol, in its wire encoding.
#[derive(Clone, Debug, PartialEq, Eq)]
pub struct Response {
    pub encoded: Vec<u8>,
}

/// An announcement to all peers, in its wire encoding.
#[derive(Clone, Debug, PartialEq, Eq)]
pub struct Announcement {
    pub encoded: Vec<u8>,
}

/// Discovered peer address information
#[derive(Debug, PartialEq, Eq)]
pub struct AddrInfo {
    /// Unique ID of the peer
    pub peer_id: PeerId,
    /// List of discovered IPv4 addresses
    pub ip4: Vec<Address>,
    /// List of discovered IPv6 addresses
    pub ip6: Vec<Address>,
}

/// Peer information learned during handshaking
///
/// When an inbound or outbound connection succeeds, the networking service handshakes with
/// the remote peer, exchanges node information with it and verifies that the bare minimum
/// requirements are met. If those checks pass, the information is passed on to the peer
/// manager, which decides whether it wants to keep the connection open.
#[derive(Debug)]
pub struct PeerInfo {
    /// Unique ID of the peer
    pub peer_id: PeerId,
    /// Peer network
    pub magic_bytes: [u8; 4],
    /// Peer software version
    pub version: SemVer,
    /// User agent of the peer
    pub agent: Option<String>,
    /// The announcements list that a peer interested is.
    pub subscriptions: BTreeSet<PubSubTopic>,
}

/// Connectivity-related events received from the network
#[derive(Debug)]
pub enum ConnectivityEvent {
    /// Outbound connection accepted
    OutboundAccepted {
        /// Peer address
        address: Address,
        /// Peer information
        peer_info: PeerInfo,
    },
    /// Inbound connection received
    InboundAccepted {
        /// Peer address
        address: Address,
        /// Peer information
        peer_info: PeerInfo,
    },
    /// Outbound connection failed
    ConnectionError {
        /// Address that was dialed
        address: Address,
        /// Error that occurred
        error: P2pError,
    },
    /// Remote closed connection
    ConnectionClosed {
        /// Unique ID of the peer
        peer_id: PeerId,
    },
    /// One or more peers discovered
    Discovered {
        /// Address information
        peers: Vec<AddrInfo>,
    },
    /// One one more peers have expired
    Expired {
        /// Address information
        peers: Vec<AddrInfo>,
    },
    /// Protocol violation
    Misbehaved {
        /// Unique ID of the peer
        peer_id: PeerId,
        /// Error code of the violation
        error: P2pError,
    },
}

/// Syncing-related events
#[derive(Debug)]
pub enum SyncingEvent {
    /// An incoming request.
    Request {
        /// Unique ID of the sender
        peer_id: PeerId,
        /// Unique ID of the request
        request_id: RequestId,
        /// Received request
        request: Request,
    },
    /// An incoming response.
    Response {
        /// Unique ID of the sender
        peer_id: PeerId,
        /// Unique ID of the request this message is a response to
        request_id: RequestId,
        /// Received response
        response: Response,
    },
    /// An announcement that is broadcast to all peers.
    Announcement { peer_id: PeerId, announcement: Announcement },
}

/// Publish-subscribe topics
#[derive(Debug, Clone, Copy, PartialEq, Eq, PartialOrd, Ord, Hash, Structural)]
pub enum PubSubTopic {
    /// Transactions
    Transactions,
    /// Blocks
    Blocks,
}

} // verus!
