//! The network stack as this crate sees it.
//!
//! The stack is driven from outside. Its events come in as [`SwarmEvent`]s,
//! which hold of each event what the rules of this crate read. What the rules
//! want done is handed out as [`SwarmCall`]s, and what the stack answered to
//! a call comes back as a [`SwarmReply`]. What the rules need to know of the
//! stack's present state is read beforehand into a [`SwarmView`].
use vstd::prelude::*;
use libp2p::{Multiaddr, PeerId};
use libp2p::kad::{QueryId, Record, RecordKey};
use libp2p::request_response::OutboundRequestId;
use crate::error::StoreError;
use crate::time::TimeSpan;
use crate::util::QueryStatsInfo;

verus! {

/// The identifier that the hash table gives a query when it is issued.
#[verifier::external_type_specification]
#[verifier::external_body]
pub struct ExQueryId(libp2p::kad::QueryId);

/// The identifier that the request-response protocol gives a request that is
/// sent out.
#[verifier::external_type_specification]
#[verifier::external_body]
pub struct ExOutboundRequestId(libp2p::request_response::OutboundRequestId);

/// A record of the hash table: a key, a value, and who published it.
#[verifier::external_type_specification]
#[verifier::external_body]
pub struct ExRecord(libp2p::kad::Record);

/// The key of a record of the hash table.
#[verifier::external_type_specification]
#[verifier::external_body]
pub struct ExRecordKey(libp2p::kad::RecordKey);

/// `RecordKey::clone`: the copy is the same key.
pub assume_specification[ <RecordKey as Clone>::clone ](key: &RecordKey) -> (copy: RecordKey)
    ensures
        copy == *key,
;

/// `Record::clone`: the copy is the same record.
pub assume_specification[ <Record as Clone>::clone ](record: &Record) -> (copy: Record)
    ensures
        copy == *record,
;

/// `QueryId::eq`. The contract claims that the derived comparison of two
/// query identifiers holds exactly when they are the same value.
#[verifier::external_body]
pub(crate) fn query_eq(a: &QueryId, b: &QueryId) -> (same: bool)
    ensures
        same == (*a == *b),
{
    a == b
}

/// `OutboundRequestId::eq`. The contract claims that the derived comparison
/// of two request identifiers holds exactly when they are the same value.
#[verifier::external_body]
pub(crate) fn request_eq(a: &OutboundRequestId, b: &OutboundRequestId) -> (same: bool)
    ensures
        same == (*a == *b),
{
    a == b
}

/// Whether `id` is the query that a command has issued.
pub fn is_query(issued: &Option<QueryId>, id: &QueryId) -> (same: bool)
    ensures
        same == (*issued == Some(*id)),
{
    match issued {
        Some(own) => query_eq(own, id),
        None => false,
    }
}

/// How many of the peers that are to hold a record have to take it for the
/// record to count as stored.
#[derive(Clone, Copy, Debug, PartialEq, Eq, Structural)]
pub enum Quorum {
    /// One peer.
    One,
    /// More than half of them.
    Majority,
    /// All of them.
    All,
}

/// One step of a bootstrap that went well.
#[derive(Debug, PartialEq)]
pub struct BootstrapOk {
    /// The peer whose neighbourhood was refreshed.
    pub peer: PeerId,
    /// How many refreshes are still to come.
    pub num_remaining: u32,
}

/// One step of a record lookup that went well.
#[derive(Debug, PartialEq)]
pub enum GetRecordOk {
    /// A peer returned a record.
    FoundRecord(Record),
    /// The lookup ended and brought no further record.
    FinishedWithNoAdditionalRecord,
}

/// One step of a provider lookup that went well.
#[derive(Debug, PartialEq)]
pub enum GetProvidersOk {
    /// Peers that provide the key were found.
    FoundProviders { providers: Vec<PeerId> },
    /// The lookup ended and brought no further provider.
    FinishedWithNoAdditionalRecord { closest_peers: Vec<PeerId> },
}

/// What a step of a query brought, by the kind of query. A failure comes with
/// its description.
#[derive(Debug, PartialEq)]
pub enum QueryResult {
    Bootstrap(Result<BootstrapOk, String>),
    GetRecord(Result<GetRecordOk, String>),
    PutRecord(Result<(), String>),
    StartProviding(Result<(), String>),
    GetProviders(Result<GetProvidersOk, String>),
    GetClosestPeers(Result<Vec<PeerId>, String>),
    /// A step of a query that no command of this crate issues.
    Other,
}

/// An event of the network stack.
///
/// `Req` and `Resp` are the types of the requests and responses that peers
/// exchange, `Ch` is the type of the channel through which the response to an
/// inbound request goes out.
#[derive(Debug)]
#[allow(inconsistent_fields)]
pub enum SwarmEvent<Req, Resp, Ch> {
    /// The node listens on a new address.
    NewListenAddr { address: Multiaddr },
    /// A connection to a peer stands; `num_established` counts the
    /// connections to that peer, this one included.
    ConnectionEstablished { peer_id: PeerId, num_established: u32 },
    /// A connection to a peer is gone; `num_established` counts the
    /// connections to that peer that remain.
    ConnectionClosed { peer_id: PeerId, num_established: u32 },
    /// An attempt to connect failed, to the given peer where it is known.
    OutgoingConnectionError { peer_id: Option<PeerId>, error: String },
    /// A relay accepted or renewed a reservation.
    RelayReservationAccepted { relay_peer_id: PeerId, renewal: bool },
    /// A peer sent a request.
    InboundRequest { peer: PeerId, request: Req, channel: Ch },
    /// A peer answered a request.
    Response { peer: PeerId, request_id: OutboundRequestId, response: Resp },
    /// A request could not be delivered or was not answered.
    OutboundFailure { peer: PeerId, request_id: OutboundRequestId, error: String },
    /// An attempt at a direct connection through a relay has ended.
    HolePunch { remote_peer_id: PeerId, result: Result<(), String> },
    /// Peers were found on the local network segment.
    MdnsDiscovered { peers: Vec<(PeerId, Multiaddr)> },
    /// A ping has ended, with the time the answer took where one came.
    Ping { peer: PeerId, result: Result<TimeSpan, String> },
    /// A peer has said what it is and where it listens.
    IdentifyReceived {
        peer_id: PeerId,
        protocol_version: String,
        agent_version: String,
        listen_addrs: Vec<Multiaddr>,
    },
    /// A probe of the node's reachability at `tested_addr` has ended.
    AutonatProbe { tested_addr: Multiaddr, server: PeerId, result: Result<(), String> },
    /// The routing table of the hash table has learned addresses of a peer.
    KadRoutingUpdated { peer: PeerId, addresses: Vec<Multiaddr> },
    /// A query on the hash table has made a step. `stats` counts what this
    /// step added, and `last` says whether it is the query's last step.
    KadQueryProgressed { id: QueryId, result: QueryResult, stats: QueryStatsInfo, last: bool },
    /// Any other event; none of the rules reads it.
    Other,
}

/// A request to the network stack.
#[derive(Debug, PartialEq)]
#[allow(inconsistent_fields)]
pub enum SwarmCall<Req, Resp, Ch> {
    /// Connect to a peer at the addresses known for it.
    Dial { peer_id: PeerId },
    /// Close all connections to a peer.
    Disconnect { peer_id: PeerId },
    /// Listen on an address.
    ListenOn { addr: Multiaddr },
    /// Note an address of a peer in the address book.
    AddPeerAddress { peer_id: PeerId, addr: Multiaddr },
    /// Note an address of a peer in the routing table of the hash table.
    KadAddAddress { peer_id: PeerId, addr: Multiaddr },
    /// Join the hash table.
    KadBootstrap,
    /// Look a record up.
    KadGetRecord { key: RecordKey },
    /// Store a record, and be content when as many peers have taken it as
    /// `quorum` asks for.
    KadPutRecord { record: Record, quorum: Quorum },
    /// Announce that this node provides a key.
    KadStartProviding { key: RecordKey },
    /// Stop announcing a key.
    KadStopProviding { key: RecordKey },
    /// Drop a record from the local store.
    KadRemoveRecord { key: RecordKey },
    /// Look the providers of a key up.
    KadGetProviders { key: RecordKey },
    /// Look the peers closest to a key up.
    KadGetClosestPeers { key: RecordKey },
    /// Send a request to a peer.
    SendRequest { peer_id: PeerId, request: Req },
    /// Send the response to an inbound request through its channel.
    SendResponse { channel: Ch, response: Resp },
}

/// What the network stack answered to a [`SwarmCall`].
#[derive(Debug, PartialEq)]
#[allow(inconsistent_fields)]
pub enum SwarmReply {
    /// The call was carried out and there is nothing to report.
    Done,
    /// The call was refused, for the reason given.
    Failed { error: String },
    /// The local record store refused the call.
    StoreFailed { error: StoreError },
    /// The hash table has issued a query.
    Query { id: QueryId },
    /// The request is on its way.
    Request { id: OutboundRequestId },
}

/// What the rules need to know of the network stack's present state.
#[derive(Debug)]
pub struct SwarmView {
    /// The peers to which a connection stands.
    pub connected: Vec<PeerId>,
    /// The addresses on which the node listens.
    pub listeners: Vec<Multiaddr>,
    /// The addresses at which the node is known to be reachable from outside.
    pub external_addrs: Vec<Multiaddr>,
}

} // verus!
