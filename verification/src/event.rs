//! The events that an application receives.
use vstd::prelude::*;
use libp2p::{Multiaddr, PeerId};

verus! {

/// Whether the node can be reached from the wider network.
#[derive(Clone, Copy, Debug, PartialEq, Eq, Structural)]
pub enum NatStatus {
    /// The node is reachable at a public address.
    Public,
    /// The node sits behind a gateway that rewrites its addresses.
    Private,
    /// Nothing is known yet.
    Unknown,
}

/// What the node tells the application. `Req` is the type of the requests
/// that remote peers send.
#[derive(Debug, PartialEq)]
#[allow(inconsistent_fields)]
pub enum NodeEvent<Req> {
    /// The node listens on a new address.
    Listening { addr: Multiaddr },
    /// Peers were found on the local network segment.
    PeersDiscovered { peers: Vec<(PeerId, Multiaddr)> },
    /// The first connection to a peer stands.
    PeerConnected { peer_id: PeerId },
    /// The last connection to a peer is gone.
    PeerDisconnected { peer_id: PeerId },
    /// A peer has said what it is.
    IdentifyReceived { peer_id: PeerId, agent_version: String, protocol_version: String },
    /// A peer answered a ping after `rtt_ms` milliseconds.
    PingSuccess { peer_id: PeerId, rtt_ms: u64 },
    /// What is known of the node's reachability has changed.
    NatStatusChanged { status: NatStatus, public_addr: Option<Multiaddr> },
    /// A relayed connection to a peer was replaced by a direct one.
    HolePunchSucceeded { peer_id: PeerId },
    /// The attempt to replace a relayed connection by a direct one failed.
    HolePunchFailed { peer_id: PeerId, error: String },
    /// A peer sent a request. The answer goes out under `pending_id`.
    InboundRequest { peer_id: PeerId, pending_id: u64, request: Req },
    /// A relay agreed to forward circuits to this node, for the first time or
    /// again.
    RelayReservationAccepted { relay_peer_id: PeerId, renewal: bool },
}

} // verus!
