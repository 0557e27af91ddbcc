use swarm_p2p_core::libp2p::Multiaddr;
use swarm_p2p_core::config::{COMMAND_CHANNEL_SIZE, EVENT_CHANNEL_SIZE};
use swarm_p2p_core::{NodeConfig, PendingMap, TimeSpan};

#[test]
fn default_values() {
    let config = NodeConfig::default();
    assert_eq!(config.protocol_version, "/swarm-p2p/1.0.0");
    assert!(config.agent_version.starts_with("swarm-p2p/"));
    assert_eq!(config.listen_addrs.len(), 2);
    assert!(config.bootstrap_peers.is_empty());
    assert!(config.enable_mdns);
    assert!(config.enable_relay_client);
    assert!(config.enable_dcutr);
    assert!(config.enable_autonat);
    assert_eq!(config.idle_connection_timeout, TimeSpan::from_secs(60));
    assert_eq!(config.ping_interval, TimeSpan::from_secs(15));
    assert_eq!(config.ping_timeout, TimeSpan::from_secs(10));
    assert_eq!(config.kad_query_timeout, TimeSpan::from_secs(60));
    assert_eq!(config.req_resp_protocol, "/swarm-p2p/req/1.0.0");
}

#[test]
fn new_overrides_protocol_and_agent() {
    let config = NodeConfig::new("/myapp/2.0.0", "MyApp/2.0.0");
    assert_eq!(config.protocol_version, "/myapp/2.0.0");
    assert_eq!(config.agent_version, "MyApp/2.0.0");
    assert!(config.enable_mdns);
}

#[test]
fn builder_chain() {
    let addr: Multiaddr = "/ip4/127.0.0.1/tcp/4001".parse().unwrap();
    let config = NodeConfig::new("/test/1.0.0", "Test/1.0.0")
        .with_listen_addrs(vec![addr.clone()])
        .with_mdns(false)
        .with_relay_client(false)
        .with_dcutr(false)
        .with_autonat(false)
        .with_req_resp_protocol("/test/req/1.0.0");

    assert_eq!(config.listen_addrs, vec![addr]);
    assert!(!config.enable_mdns);
    assert!(!config.enable_relay_client);
    assert!(!config.enable_dcutr);
    assert!(!config.enable_autonat);
    assert_eq!(config.req_resp_protocol, "/test/req/1.0.0");
}

#[test]
fn clone_is_independent() {
    let config = NodeConfig::default();
    let mut config2 = config.clone();
    config2.enable_mdns = false;
    assert!(config.enable_mdns);
    assert!(!config2.enable_mdns);
}

#[test]
fn default_listens_on_any_port_of_both_protocol_versions() {
    let config = NodeConfig::default();
    let v4: Multiaddr = "/ip4/0.0.0.0/tcp/0".parse().unwrap();
    let v6: Multiaddr = "/ip6/::/tcp/0".parse().unwrap();
    assert_eq!(config.listen_addrs, vec![v4, v6]);
    assert_eq!(config.agent_version, "swarm-p2p/0.1.0");
    assert!(!config.kad_server_mode);
    assert_eq!(config.req_resp_timeout, TimeSpan::from_secs(60));
}

#[test]
fn builders_leave_the_rest_alone() {
    let peer = swarm_p2p_core::libp2p::PeerId::random();
    let addr: Multiaddr = "/ip4/10.0.0.1/tcp/4001".parse().unwrap();
    let config = NodeConfig::new("/test/1.0.0", "Test/1.0.0")
        .with_bootstrap_peers(vec![(peer, addr.clone())])
        .with_kad_server_mode(true);
    assert_eq!(config.bootstrap_peers, vec![(peer, addr)]);
    assert!(config.kad_server_mode);
    assert!(config.enable_mdns);
    assert_eq!(config.listen_addrs.len(), 2);
    assert_eq!(config.protocol_version, "/test/1.0.0");
    assert_eq!(config.ping_interval, TimeSpan { nanos: 15_000_000_000 });
    let copy = config.clone();
    assert_eq!(copy.bootstrap_peers, config.bootstrap_peers);
    assert_eq!(copy.listen_addrs, config.listen_addrs);
    assert_eq!(copy.agent_version, "Test/1.0.0");
}

#[test]
fn time_spans_convert_exactly() {
    assert_eq!(TimeSpan::from_secs(60).nanos, 60_000_000_000);
    assert_eq!(TimeSpan::from_millis(1500).nanos, 1_500_000_000);
    assert_eq!(TimeSpan { nanos: 1_999_999 }.as_millis(), 1);
    assert_eq!(TimeSpan { nanos: 999_999 }.as_millis(), 0);
    assert_eq!(TimeSpan::from_secs(u64::MAX).nanos, 18_446_744_073_709_551_615_000_000_000);
    let wide = TimeSpan { nanos: (u64::MAX as u128 + 6) * 1_000_000 };
    assert_eq!(wide.as_millis(), 5);
    let early = TimeSpan::from_secs(3);
    let late = TimeSpan::from_secs(5);
    assert_eq!(late.since(early), TimeSpan::from_secs(2));
    assert_eq!(early.since(late), TimeSpan { nanos: 0 });
}

#[test]
fn channels_wait_as_long_as_requests_do() {
    let mut config = NodeConfig::default();
    config.req_resp_timeout = TimeSpan::from_secs(7);
    let mut store: PendingMap<&str> = config.pending_channels();
    assert!(store.is_empty());
    assert_eq!(store.ttl(), TimeSpan::from_secs(7));
    store.insert(1, "channel", TimeSpan::from_secs(1));
    store.sweep(TimeSpan::from_secs(8));
    assert_eq!(store.len(), 1);
    store.sweep(TimeSpan { nanos: 8_000_000_001 });
    assert!(store.is_empty());
}

#[test]
fn queues_hold_a_fixed_number_of_items() {
    assert_eq!(COMMAND_CHANNEL_SIZE, 32);
    assert_eq!(EVENT_CHANNEL_SIZE, 64);
}
