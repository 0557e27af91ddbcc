//! The configuration of a node.
use vstd::prelude::*;
use libp2p::{Multiaddr, PeerId};
use crate::addr::{addr_of_text, parse_addr};
use crate::pending_map::{PendingEntry, PendingMap};
use crate::time::TimeSpan;

verus! {

/// The number of commands that may wait in the queue to the loop.
pub const COMMAND_CHANNEL_SIZE: usize = 32;

/// The number of events that may wait for the application.
pub const EVENT_CHANNEL_SIZE: usize = 64;

/// How a node is set up. A configuration is made once and not changed while
/// the node runs.
#[derive(Debug)]
pub struct NodeConfig {
    /// The protocol version that the node reports of itself. Peers that
    /// report another one are kept out of the routing table.
    pub protocol_version: String,
    /// The name and version of the program, as the node reports it.
    pub agent_version: String,
    /// The addresses on which the node listens from the start.
    pub listen_addrs: Vec<Multiaddr>,
    /// The peers through which the node joins the hash table, each with an
    /// address at which it is reached.
    pub bootstrap_peers: Vec<(PeerId, Multiaddr)>,
    /// Whether peers on the local network segment are looked for.
    pub enable_mdns: bool,
    /// Whether the node asks relays to forward connections to it.
    pub enable_relay_client: bool,
    /// Whether relayed connections are replaced by direct ones.
    pub enable_dcutr: bool,
    /// Whether the node has its reachability probed.
    pub enable_autonat: bool,
    /// The time after which a connection that nothing uses is closed.
    pub idle_connection_timeout: TimeSpan,
    /// The time between two pings of a peer.
    pub ping_interval: TimeSpan,
    /// The time after which a ping counts as lost.
    pub ping_timeout: TimeSpan,
    /// The time after which a query on the hash table is given up.
    pub kad_query_timeout: TimeSpan,
    /// Whether the node answers queries on the hash table whatever is known
    /// of its reachability.
    pub kad_server_mode: bool,
    /// The name of the protocol over which requests and responses go.
    pub req_resp_protocol: String,
    /// The time after which a request counts as unanswered. The channel for
    /// the response to an inbound request is kept for as long.
    pub req_resp_timeout: TimeSpan,
}

/// Those of the given addresses that are there, in the same order.
pub open spec fn present(addrs: Seq<Option<Multiaddr>>) -> Seq<Multiaddr>
    decreases addrs.len(),
{
    if addrs.len() == 0 {
        Seq::empty()
    } else {
        match addrs.last() {
            Some(addr) => present(addrs.drop_last()).push(addr),
            None => present(addrs.drop_last()),
        }
    }
}

/// The addresses on which a node listens unless it is told otherwise: any
/// port on every interface, once for each version of the internet protocol.
pub open spec fn default_listen_addrs() -> Seq<Multiaddr> {
    present(seq![addr_of_text("/ip4/0.0.0.0/tcp/0"@), addr_of_text("/ip6/::/tcp/0"@)])
}

impl NodeConfig {
    /// Whether every setting but the two version texts and the addresses to
    /// listen on has the value that a node has unless it is told otherwise.
    pub open spec fn has_default_settings(self) -> bool {
        &&& self.bootstrap_peers@.len() == 0
        &&& self.enable_mdns
        &&& self.enable_relay_client
        &&& self.enable_dcutr
        &&& self.enable_autonat
        &&& self.idle_connection_timeout.nanos == 60 * 1_000_000_000
        &&& self.ping_interval.nanos == 15 * 1_000_000_000
        &&& self.ping_timeout.nanos == 10 * 1_000_000_000
        &&& self.kad_query_timeout.nanos == 60 * 1_000_000_000
        &&& !self.kad_server_mode
        &&& self.req_resp_protocol@ == "/swarm-p2p/req/1.0.0"@
        &&& self.req_resp_timeout.nanos == 60 * 1_000_000_000
    }

    /// The default configuration, with the given protocol version and agent
    /// version in place of the default ones.
    pub fn new(protocol_version: &str, agent_version: &str) -> (config: Self)
        ensures
            config.protocol_version@ == protocol_version@,
            config.agent_version@ == agent_version@,
            config.listen_addrs@ == default_listen_addrs(),
            config.has_default_settings(),
    {
        let mut config = NodeConfig::default();
        config.protocol_version = String::from_str(protocol_version);
        config.agent_version = String::from_str(agent_version);
        config
    }

    /// An empty store for the channels of inbound requests. A channel waits
    /// there for as long as a request may wait for its response.
    pub fn pending_channels<Ch>(&self) -> (store: PendingMap<Ch>)
        ensures
            store@ == Map::<u64, PendingEntry<Ch>>::empty(),
            store.spec_ttl() == self.req_resp_timeout,
    {
        PendingMap::new(self.req_resp_timeout)
    }

    /// The configuration with `addrs` as the addresses to listen on.
    pub fn with_listen_addrs(self, addrs: Vec<Multiaddr>) -> (config: Self)
        ensures
            config == (NodeConfig { listen_addrs: addrs, ..self }),
    {
        let mut config = self;
        config.listen_addrs = addrs;
        config
    }

    /// The configuration with `peers` as the bootstrap peers.
    pub fn with_bootstrap_peers(self, peers: Vec<(PeerId, Multiaddr)>) -> (config: Self)
        ensures
            config == (NodeConfig { bootstrap_peers: peers, ..self }),
    {
        let mut config = self;
        config.bootstrap_peers = peers;
        config
    }

    /// The configuration with the search on the local segment on or off.
    pub fn with_mdns(self, enable: bool) -> (config: Self)
        ensures
            config == (NodeConfig { enable_mdns: enable, ..self }),
    {
        let mut config = self;
        config.enable_mdns = enable;
        config
    }

    /// The configuration with the use of relays on or off.
    pub fn with_relay_client(self, enable: bool) -> (config: Self)
        ensures
            config == (NodeConfig { enable_relay_client: enable, ..self }),
    {
        let mut config = self;
        config.enable_relay_client = enable;
        config
    }

    /// The configuration with the move to direct connections on or off.
    pub fn with_dcutr(self, enable: bool) -> (config: Self)
        ensures
            config == (NodeConfig { enable_dcutr: enable, ..self }),
    {
        let mut config = self;
        config.enable_dcutr = enable;
        config
    }

    /// The configuration with the probing of reachability on or off.
    pub fn with_autonat(self, enable: bool) -> (config: Self)
        ensures
            config == (NodeConfig { enable_autonat: enable, ..self }),
    {
        let mut config = self;
        config.enable_autonat = enable;
        config
    }

    /// The configuration with the answering of queries forced on or left to
    /// what is known of the node's reachability.
    pub fn with_kad_server_mode(self, enable: bool) -> (config: Self)
        ensures
            config == (NodeConfig { kad_server_mode: enable, ..self }),
    {
        let mut config = self;
        config.kad_server_mode = enable;
        config
    }

    /// The configuration with `protocol` as the name of the protocol for
    /// requests and responses.
    pub fn with_req_resp_protocol(self, protocol: &str) -> (config: Self)
        ensures
            config.req_resp_protocol@ == protocol@,
            self == (NodeConfig { req_resp_protocol: self.req_resp_protocol, ..config }),
    {
        let mut config = self;
        config.req_resp_protocol = String::from_str(protocol);
        config
    }
}

impl Default for NodeConfig {
    /// The configuration of a node that is told nothing.
    fn default() -> (config: Self)
        ensures
            config.protocol_version@ == "/swarm-p2p/1.0.0"@,
            config.agent_version@ == "swarm-p2p/0.1.0"@,
            config.listen_addrs@ == default_listen_addrs(),
            config.has_default_settings(),
    {
        let mut listen_addrs: Vec<Multiaddr> = Vec::new();
        let ghost texts = seq![addr_of_text("/ip4/0.0.0.0/tcp/0"@), addr_of_text("/ip6/::/tcp/0"@)];
        proof {
            assert(texts.drop_last() =~= seq![addr_of_text("/ip4/0.0.0.0/tcp/0"@)]);
            assert(texts.drop_last().drop_last() =~= Seq::<Option<Multiaddr>>::empty());
            assert(present(texts.drop_last().drop_last()) =~= Seq::<Multiaddr>::empty());
        }
        match parse_addr("/ip4/0.0.0.0/tcp/0") {
            Some(addr) => {
                listen_addrs.push(addr);
            },
            None => {},
        }
        assert(listen_addrs@ =~= present(texts.drop_last()));
        match parse_addr("/ip6/::/tcp/0") {
            Some(addr) => {
                listen_addrs.push(addr);
            },
            None => {},
        }
        assert(listen_addrs@ =~= present(texts));
        NodeConfig {
            protocol_version: String::from_str("/swarm-p2p/1.0.0"),
            agent_version: String::from_str("swarm-p2p/0.1.0"),
            listen_addrs,
            bootstrap_peers: Vec::new(),
            enable_mdns: true,
            enable_relay_client: true,
            enable_dcutr: true,
            enable_autonat: true,
            idle_connection_timeout: TimeSpan::from_secs(60),
            ping_interval: TimeSpan::from_secs(15),
            ping_timeout: TimeSpan::from_secs(10),
            kad_query_timeout: TimeSpan::from_secs(60),
            kad_server_mode: false,
            req_resp_protocol: String::from_str("/swarm-p2p/req/1.0.0"),
            req_resp_timeout: TimeSpan::from_secs(60),
        }
    }
}

impl Clone for NodeConfig {
    /// A configuration with the same settings.
    fn clone(&self) -> (config: Self)
        ensures
            config.protocol_version@ == self.protocol_version@,
            config.agent_version@ == self.agent_version@,
            config.listen_addrs@ == self.listen_addrs@,
            config.bootstrap_peers@ == self.bootstrap_peers@,
            config.enable_mdns == self.enable_mdns,
            config.enable_relay_client == self.enable_relay_client,
            config.enable_dcutr == self.enable_dcutr,
            config.enable_autonat == self.enable_autonat,
            config.idle_connection_timeout == self.idle_connection_timeout,
            config.ping_interval == self.ping_interval,
            config.ping_timeout == self.ping_timeout,
            config.kad_query_timeout == self.kad_query_timeout,
            config.kad_server_mode == self.kad_server_mode,
            config.req_resp_protocol@ == self.req_resp_protocol@,
            config.req_resp_timeout == self.req_resp_timeout,
    {
        let mut listen_addrs: Vec<Multiaddr> = Vec::new();
        let mut i: usize = 0;
        while i < self.listen_addrs.len()
            invariant
                i <= self.listen_addrs.len(),
                listen_addrs@ == self.listen_addrs@.take(i as int),
            decreases self.listen_addrs.len() - i,
        {
            listen_addrs.push(self.listen_addrs[i].clone());
            i += 1;
            assert(listen_addrs@ =~= self.listen_addrs@.take(i as int));
        }
        assert(self.listen_addrs@.take(self.listen_addrs.len() as int) == self.listen_addrs@);
        let mut bootstrap_peers: Vec<(PeerId, Multiaddr)> = Vec::new();
        let mut j: usize = 0;
        while j < self.bootstrap_peers.len()
            invariant
                j <= self.bootstrap_peers.len(),
                bootstrap_peers@ == self.bootstrap_peers@.take(j as int),
            decreases self.bootstrap_peers.len() - j,
        {
            bootstrap_peers.push((self.bootstrap_peers[j].0, self.bootstrap_peers[j].1.clone()));
            j += 1;
            assert(bootstrap_peers@ =~= self.bootstrap_peers@.take(j as int));
        }
        assert(self.bootstrap_peers@.take(self.bootstrap_peers.len() as int)
            == self.bootstrap_peers@);
        NodeConfig {
            protocol_version: self.protocol_version.clone(),
            agent_version: self.agent_version.clone(),
            listen_addrs,
            bootstrap_peers,
            enable_mdns: self.enable_mdns,
            enable_relay_client: self.enable_relay_client,
            enable_dcutr: self.enable_dcutr,
            enable_autonat: self.enable_autonat,
            idle_connection_timeout: self.idle_connection_timeout,
            ping_interval: self.ping_interval,
            ping_timeout: self.ping_timeout,
            kad_query_timeout: self.kad_query_timeout,
            kad_server_mode: self.kad_server_mode,
            req_resp_protocol: self.req_resp_protocol.clone(),
            req_resp_timeout: self.req_resp_timeout,
        }
    }
}

} // verus!
