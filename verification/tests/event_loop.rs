use swarm_p2p_core::client::{send_response, CommandFuture};
use swarm_p2p_core::command::task::{typed, typed_response};
use swarm_p2p_core::command::{Poll, ResultHandle};
use swarm_p2p_core::command::{
    BootstrapCommand, DialCommand, DisconnectCommand, GetListenAddrsCommand, GetProvidersCommand,
    GetRecordCommand, IsConnectedCommand, PutRecordCommand, SendRequestCommand, StartProvideCommand,
};
use swarm_p2p_core::libp2p::kad::store::MemoryStore;
use swarm_p2p_core::libp2p::kad::{self, QueryId, Record, RecordKey};
use swarm_p2p_core::libp2p::request_response::{self, OutboundRequestId, ProtocolSupport};
use swarm_p2p_core::libp2p::{Multiaddr, PeerId, StreamProtocol};
use swarm_p2p_core::runtime::event_loop::{Admission, Arrival, Handled, Turn};
use swarm_p2p_core::swarm::{GetProvidersOk, GetRecordOk, QueryResult};
use swarm_p2p_core::{
    Command, CommandOutput, CommandTask, Error, EventLoop, NatStatus, NodeEvent, PendingMap,
    QueryStatsInfo, SwarmCall, SwarmEvent, SwarmReply, SwarmView, TimeSpan,
};

type Event = SwarmEvent<String, String, &'static str>;
type Call = SwarmCall<String, String, &'static str>;
type Loop = EventLoop<String, String, &'static str, u32>;
type Task = CommandTask<String, String, &'static str, u32>;

fn query_ids(n: usize) -> Vec<QueryId> {
    let local = PeerId::random();
    let mut table = kad::Behaviour::new(local, MemoryStore::new(local));
    (0..n).map(|_| table.get_closest_peers(PeerId::random())).collect()
}

fn request_ids(n: usize) -> Vec<OutboundRequestId> {
    let mut protocol = request_response::cbor::Behaviour::<String, String>::new(
        [(StreamProtocol::new("/test/req/1.0.0"), ProtocolSupport::Full)],
        request_response::Config::default(),
    );
    (0..n).map(|_| protocol.send_request(&PeerId::random(), String::from("x"))).collect()
}

fn addr(text: &str) -> Multiaddr {
    text.parse().unwrap()
}

fn nobody() -> SwarmView {
    SwarmView { connected: vec![], listeners: vec![], external_addrs: vec![] }
}

fn new_loop() -> (Loop, PendingMap<&'static str>) {
    (EventLoop::new(String::from("/test/1.0.0")), PendingMap::new(TimeSpan::from_secs(60)))
}

fn stats(requests: u32) -> QueryStatsInfo {
    QueryStatsInfo { duration: None, num_requests: requests, num_successes: requests, num_failures: 0 }
}

fn feed(state: &mut Loop, pending: &mut PendingMap<&'static str>, event: Event) -> Handled<String, String, &'static str, u32> {
    state.handle_swarm_event(event, &nobody(), pending, TimeSpan::from_secs(1))
}

/// Gives a command its first turn and, where it names a call, lets it join
/// the running ones with the answer.
fn enter(state: &mut Loop, handle: u32, command: Command<String, String, &'static str>, reply: SwarmReply) {
    let task: Task = CommandTask::new(command, handle);
    match state.handle_command(task, &nobody()) {
        Admission::Call { task, .. } => {
            assert!(state.handle_reply(task, reply).is_none());
        }
        Admission::Finished { .. } => panic!("the command was to wait"),
    }
}

fn handles(state: &Loop) -> Vec<u32> {
    state.active_commands.iter().map(|task| task.handle).collect()
}

#[test]
fn listening_is_told() {
    let (mut state, mut pending) = new_loop();
    let out = feed(&mut state, &mut pending, SwarmEvent::NewListenAddr { address: addr("/ip4/127.0.0.1/tcp/4001") });
    assert_eq!(out.event, Some(NodeEvent::Listening { addr: addr("/ip4/127.0.0.1/tcp/4001") }));
    assert!(out.calls.is_empty());
    assert!(out.completions.is_empty());
}

#[test]
fn peer_is_told_once_per_stretch_of_connectivity() {
    let (mut state, mut pending) = new_loop();
    let peer = PeerId::random();
    let other = PeerId::random();
    let run: Vec<(Event, Option<NodeEvent<String>>)> = vec![
        (SwarmEvent::ConnectionEstablished { peer_id: peer, num_established: 1 }, Some(NodeEvent::PeerConnected { peer_id: peer })),
        (SwarmEvent::ConnectionEstablished { peer_id: peer, num_established: 2 }, None),
        (SwarmEvent::ConnectionEstablished { peer_id: other, num_established: 1 }, Some(NodeEvent::PeerConnected { peer_id: other })),
        (SwarmEvent::ConnectionEstablished { peer_id: peer, num_established: 3 }, None),
        (SwarmEvent::ConnectionClosed { peer_id: peer, num_established: 2 }, None),
        (SwarmEvent::ConnectionClosed { peer_id: peer, num_established: 1 }, None),
        (SwarmEvent::ConnectionClosed { peer_id: peer, num_established: 0 }, Some(NodeEvent::PeerDisconnected { peer_id: peer })),
        (SwarmEvent::ConnectionEstablished { peer_id: peer, num_established: 1 }, Some(NodeEvent::PeerConnected { peer_id: peer })),
        (SwarmEvent::ConnectionClosed { peer_id: other, num_established: 0 }, Some(NodeEvent::PeerDisconnected { peer_id: other })),
        (SwarmEvent::ConnectionClosed { peer_id: peer, num_established: 0 }, Some(NodeEvent::PeerDisconnected { peer_id: peer })),
    ];
    let mut told: Vec<bool> = Vec::new();
    for (event, expected) in run {
        let out = feed(&mut state, &mut pending, event);
        assert_eq!(out.event, expected);
        match out.event {
            Some(NodeEvent::PeerConnected { peer_id }) if peer_id == peer => told.push(true),
            Some(NodeEvent::PeerDisconnected { peer_id }) if peer_id == peer => told.push(false),
            _ => {}
        }
    }
    assert_eq!(told, vec![true, false, true, false]);
}

#[test]
fn bootstrap_peer_is_asked_for_a_reservation_once_connected() {
    let (mut state, mut pending) = new_loop();
    let relay = PeerId::random();
    let other = PeerId::random();
    let peers = vec![
        (relay, addr("/ip4/203.0.113.7/tcp/4001")),
        (other, addr("/ip4/203.0.113.8/tcp/4001")),
        (relay, addr(&format!("/ip4/203.0.113.7/udp/4001/quic-v1/p2p/{relay}"))),
    ];
    let calls: Vec<Call> = state.connect_bootstrap_peers(&peers);
    assert_eq!(
        calls,
        vec![
            SwarmCall::KadAddAddress { peer_id: relay, addr: peers[0].1.clone() },
            SwarmCall::AddPeerAddress { peer_id: relay, addr: peers[0].1.clone() },
            SwarmCall::Dial { peer_id: relay },
            SwarmCall::KadAddAddress { peer_id: other, addr: peers[1].1.clone() },
            SwarmCall::AddPeerAddress { peer_id: other, addr: peers[1].1.clone() },
            SwarmCall::Dial { peer_id: other },
            SwarmCall::KadAddAddress { peer_id: relay, addr: peers[2].1.clone() },
            SwarmCall::AddPeerAddress { peer_id: relay, addr: peers[2].1.clone() },
            SwarmCall::Dial { peer_id: relay },
        ]
    );
    assert_eq!(state.bootstrap_peers, peers);

    // a second connection brings nothing
    let out = feed(&mut state, &mut pending, SwarmEvent::ConnectionEstablished { peer_id: relay, num_established: 2 });
    assert_eq!(out.event, None);
    assert!(out.calls.is_empty());
    assert_eq!(state.bootstrap_peers.len(), 3);

    let out = feed(&mut state, &mut pending, SwarmEvent::ConnectionEstablished { peer_id: relay, num_established: 1 });
    assert_eq!(out.event, Some(NodeEvent::PeerConnected { peer_id: relay }));
    assert_eq!(
        out.calls,
        vec![
            SwarmCall::ListenOn { addr: addr(&format!("/ip4/203.0.113.7/tcp/4001/p2p/{relay}/p2p-circuit")) },
            SwarmCall::ListenOn { addr: addr(&format!("/ip4/203.0.113.7/udp/4001/quic-v1/p2p/{relay}/p2p-circuit")) },
        ]
    );
    assert_eq!(state.bootstrap_peers, vec![(other, addr("/ip4/203.0.113.8/tcp/4001"))]);

    // and only once
    let out = feed(&mut state, &mut pending, SwarmEvent::ConnectionEstablished { peer_id: relay, num_established: 1 });
    assert_eq!(out.event, Some(NodeEvent::PeerConnected { peer_id: relay }));
    assert!(out.calls.is_empty());
}

#[test]
fn start_listen_listens_on_every_address() {
    let (state, _) = new_loop();
    let addrs = vec![addr("/ip4/0.0.0.0/tcp/0"), addr("/ip6/::/tcp/0")];
    let calls: Vec<Call> = state.start_listen(&addrs);
    assert_eq!(
        calls,
        vec![SwarmCall::ListenOn { addr: addrs[0].clone() }, SwarmCall::ListenOn { addr: addrs[1].clone() }]
    );
}

#[test]
fn discovered_peers_are_noted_and_dialled() {
    let (mut state, mut pending) = new_loop();
    let a = PeerId::random();
    let b = PeerId::random();
    let c = PeerId::random();
    let found = vec![
        (a, addr("/ip4/192.168.1.2/tcp/1")),
        (b, addr("/ip4/192.168.1.3/tcp/1")),
        (a, addr("/ip4/192.168.1.2/tcp/2")),
        (c, addr("/ip4/192.168.1.4/tcp/1")),
    ];
    let view = SwarmView { connected: vec![b], listeners: vec![], external_addrs: vec![] };
    let out = state.handle_swarm_event(
        SwarmEvent::MdnsDiscovered { peers: found.clone() },
        &view,
        &mut pending,
        TimeSpan::from_secs(1),
    );
    assert_eq!(out.event, Some(NodeEvent::PeersDiscovered { peers: found.clone() }));
    assert_eq!(
        out.calls,
        vec![
            SwarmCall::AddPeerAddress { peer_id: a, addr: found[0].1.clone() },
            SwarmCall::AddPeerAddress { peer_id: b, addr: found[1].1.clone() },
            SwarmCall::AddPeerAddress { peer_id: a, addr: found[2].1.clone() },
            SwarmCall::AddPeerAddress { peer_id: c, addr: found[3].1.clone() },
            SwarmCall::Dial { peer_id: a },
            SwarmCall::Dial { peer_id: c },
        ]
    );
}

#[test]
fn identified_peer_joins_the_routing_table_when_it_speaks_the_protocol() {
    let (mut state, mut pending) = new_loop();
    let peer = PeerId::random();
    let addrs = vec![addr("/ip4/10.0.0.1/tcp/1"), addr("/ip4/10.0.0.1/udp/1/quic-v1")];
    let out = feed(
        &mut state,
        &mut pending,
        SwarmEvent::IdentifyReceived {
            peer_id: peer,
            protocol_version: String::from("/test/1.0.0"),
            agent_version: String::from("test/1.0.0"),
            listen_addrs: addrs.clone(),
        },
    );
    assert_eq!(
        out.event,
        Some(NodeEvent::IdentifyReceived {
            peer_id: peer,
            agent_version: String::from("test/1.0.0"),
            protocol_version: String::from("/test/1.0.0"),
        })
    );
    assert_eq!(
        out.calls,
        vec![
            SwarmCall::KadAddAddress { peer_id: peer, addr: addrs[0].clone() },
            SwarmCall::AddPeerAddress { peer_id: peer, addr: addrs[0].clone() },
            SwarmCall::KadAddAddress { peer_id: peer, addr: addrs[1].clone() },
            SwarmCall::AddPeerAddress { peer_id: peer, addr: addrs[1].clone() },
        ]
    );

    let out = feed(
        &mut state,
        &mut pending,
        SwarmEvent::IdentifyReceived {
            peer_id: peer,
            protocol_version: String::from("/other/1.0.0"),
            agent_version: String::from("other/1.0.0"),
            listen_addrs: addrs,
        },
    );
    assert_eq!(
        out.event,
        Some(NodeEvent::IdentifyReceived {
            peer_id: peer,
            agent_version: String::from("other/1.0.0"),
            protocol_version: String::from("/other/1.0.0"),
        })
    );
    assert!(out.calls.is_empty());
}

#[test]
fn ping_is_told_in_milliseconds_and_a_lost_ping_is_not() {
    let (mut state, mut pending) = new_loop();
    let peer = PeerId::random();
    let out = feed(&mut state, &mut pending, SwarmEvent::Ping { peer, result: Ok(TimeSpan { nanos: 12_999_999 }) });
    assert_eq!(out.event, Some(NodeEvent::PingSuccess { peer_id: peer, rtt_ms: 12 }));
    let out = feed(&mut state, &mut pending, SwarmEvent::Ping { peer, result: Err(String::from("Timeout")) });
    assert_eq!(out.event, None);
}

#[test]
fn reachability_is_told_only_when_confirmed() {
    let (mut state, mut pending) = new_loop();
    let server = PeerId::random();
    let tested = addr("/ip4/203.0.113.9/tcp/4001");
    let out = feed(&mut state, &mut pending, SwarmEvent::AutonatProbe { tested_addr: tested.clone(), server, result: Ok(()) });
    assert_eq!(out.event, Some(NodeEvent::NatStatusChanged { status: NatStatus::Public, public_addr: Some(tested.clone()) }));
    let out = feed(&mut state, &mut pending, SwarmEvent::AutonatProbe { tested_addr: tested, server, result: Err(String::from("unreachable")) });
    assert_eq!(out.event, None);
}

#[test]
fn routing_updates_are_noted_and_not_told() {
    let (mut state, mut pending) = new_loop();
    let peer = PeerId::random();
    let addrs = vec![addr("/ip4/10.0.0.1/tcp/1"), addr("/ip4/10.0.0.2/tcp/1")];
    let out = feed(&mut state, &mut pending, SwarmEvent::KadRoutingUpdated { peer, addresses: addrs.clone() });
    assert_eq!(out.event, None);
    assert_eq!(
        out.calls,
        vec![
            SwarmCall::AddPeerAddress { peer_id: peer, addr: addrs[0].clone() },
            SwarmCall::AddPeerAddress { peer_id: peer, addr: addrs[1].clone() },
        ]
    );
}

#[test]
fn relay_and_hole_punch_are_told() {
    let (mut state, mut pending) = new_loop();
    let peer = PeerId::random();
    let out = feed(&mut state, &mut pending, SwarmEvent::RelayReservationAccepted { relay_peer_id: peer, renewal: true });
    assert_eq!(out.event, Some(NodeEvent::RelayReservationAccepted { relay_peer_id: peer, renewal: true }));
    let out = feed(&mut state, &mut pending, SwarmEvent::HolePunch { remote_peer_id: peer, result: Ok(()) });
    assert_eq!(out.event, Some(NodeEvent::HolePunchSucceeded { peer_id: peer }));
    let out = feed(&mut state, &mut pending, SwarmEvent::HolePunch { remote_peer_id: peer, result: Err(String::from("no route")) });
    assert_eq!(out.event, Some(NodeEvent::HolePunchFailed { peer_id: peer, error: String::from("no route") }));
}

#[test]
fn other_events_are_not_told() {
    let (mut state, mut pending) = new_loop();
    let ids = request_ids(1);
    let queries = query_ids(1);
    let peer = PeerId::random();
    let events: Vec<Event> = vec![
        SwarmEvent::Other,
        SwarmEvent::OutgoingConnectionError { peer_id: Some(peer), error: String::from("refused") },
        SwarmEvent::Response { peer, request_id: ids[0], response: String::from("late") },
        SwarmEvent::OutboundFailure { peer, request_id: ids[0], error: String::from("Timeout") },
        SwarmEvent::KadQueryProgressed { id: queries[0], result: QueryResult::Other, stats: stats(1), last: true },
    ];
    for event in events {
        let out = feed(&mut state, &mut pending, event);
        assert_eq!(out.event, None);
        assert!(out.calls.is_empty());
        assert!(out.completions.is_empty());
    }
    assert!(pending.is_empty());
    assert_eq!(state.pending_id_counter, 0);
}

#[test]
fn inbound_requests_get_rising_identifiers() {
    let (mut state, mut pending) = new_loop();
    let peer = PeerId::random();
    let out = state.handle_swarm_event(
        SwarmEvent::InboundRequest { peer, request: String::from("hello"), channel: "first" },
        &nobody(),
        &mut pending,
        TimeSpan::from_secs(5),
    );
    assert_eq!(out.event, Some(NodeEvent::InboundRequest { peer_id: peer, pending_id: 0, request: String::from("hello") }));
    let out = state.handle_swarm_event(
        SwarmEvent::InboundRequest { peer, request: String::from("again"), channel: "second" },
        &nobody(),
        &mut pending,
        TimeSpan::from_secs(6),
    );
    assert_eq!(out.event, Some(NodeEvent::InboundRequest { peer_id: peer, pending_id: 1, request: String::from("again") }));
    assert_eq!(state.next_pending_id(), 2);
    assert_eq!(pending.len(), 2);
    assert_eq!(pending.take(1), Some("second"));
    assert_eq!(pending.take(0), Some("first"));
}

#[test]
fn identifiers_start_again_when_they_run_out() {
    let (mut state, mut pending) = new_loop();
    state.pending_id_counter = u64::MAX;
    let peer = PeerId::random();
    let out = feed(&mut state, &mut pending, SwarmEvent::InboundRequest { peer, request: String::from("a"), channel: "x" });
    assert_eq!(out.event, Some(NodeEvent::InboundRequest { peer_id: peer, pending_id: u64::MAX, request: String::from("a") }));
    assert_eq!(state.pending_id_counter, 0);
}

#[test]
fn pending_channel_expires() {
    let (mut state, mut pending) = new_loop();
    let peer = PeerId::random();
    let out = state.handle_swarm_event(
        SwarmEvent::InboundRequest { peer, request: String::from("hello"), channel: "channel" },
        &nobody(),
        &mut pending,
        TimeSpan::from_secs(100),
    );
    let pending_id = match out.event {
        Some(NodeEvent::InboundRequest { pending_id, .. }) => pending_id,
        other => panic!("no inbound request but {other:?}"),
    };
    pending.sweep(TimeSpan::from_secs(150));
    assert_eq!(pending.len(), 1);
    // the time to live and a little more have passed
    let late = TimeSpan { nanos: 160_000_000_001 };
    let error = send_response(&mut pending, pending_id, String::from("world"), late).err().unwrap();
    assert_eq!(
        error,
        Error::Behaviour(String::from("No pending channel for pending_id=0 (expired or already responded)"))
    );
    assert_eq!(pending.len(), 0);
}

#[test]
fn request_and_response_between_two_nodes() {
    let ids = request_ids(1);
    let a_id = PeerId::random();
    let b_id = PeerId::random();
    let mut a: Loop = EventLoop::new(String::from("/test/1.0.0"));
    let mut a_pending: PendingMap<&'static str> = PendingMap::new(TimeSpan::from_secs(60));
    let mut b: Loop = EventLoop::new(String::from("/test/1.0.0"));
    let mut b_pending: PendingMap<&'static str> = PendingMap::new(TimeSpan::from_secs(60));
    let now = TimeSpan::from_secs(1);

    // A sends the request
    let task: Task = CommandTask::new(Command::SendRequest(SendRequestCommand::new(b_id, String::from("hello"))), 1);
    let task = match a.handle_command(task, &nobody()) {
        Admission::Call { call, task } => {
            assert_eq!(call, SwarmCall::SendRequest { peer_id: b_id, request: String::from("hello") });
            task
        }
        Admission::Finished { .. } => panic!("the request was to be sent"),
    };
    assert!(a.handle_reply(task, SwarmReply::Request { id: ids[0] }).is_none());
    assert_eq!(handles(&a), vec![1]);

    // B is connected to A before it hears of the request
    let out = b.handle_swarm_event(SwarmEvent::ConnectionEstablished { peer_id: a_id, num_established: 1 }, &nobody(), &mut b_pending, now);
    assert_eq!(out.event, Some(NodeEvent::PeerConnected { peer_id: a_id }));
    let out = b.handle_swarm_event(
        SwarmEvent::InboundRequest { peer: a_id, request: String::from("hello"), channel: "to A" },
        &nobody(),
        &mut b_pending,
        now,
    );
    let pending_id = match out.event {
        Some(NodeEvent::InboundRequest { peer_id, pending_id, request }) => {
            assert_eq!(peer_id, a_id);
            assert_eq!(request, "hello");
            pending_id
        }
        other => panic!("no inbound request but {other:?}"),
    };

    // B answers
    let command = send_response(&mut b_pending, pending_id, String::from("world"), now).unwrap();
    let task: Task = CommandTask::new(Command::SendResponse(command), 2);
    let task = match b.handle_command(task, &nobody()) {
        Admission::Call { call, task } => {
            assert_eq!(call, SwarmCall::SendResponse { channel: "to A", response: String::from("world") });
            task
        }
        Admission::Finished { .. } => panic!("the response was to be sent"),
    };
    let done = b.handle_reply(task, SwarmReply::Done).unwrap();
    assert_eq!(done.handle, 2);
    assert_eq!(done.result, Ok(CommandOutput::Done));
    assert!(b.active_commands.is_empty());
    assert!(b_pending.is_empty());

    // A gets the response
    let out = a.handle_swarm_event(
        SwarmEvent::Response { peer: b_id, request_id: ids[0], response: String::from("world") },
        &nobody(),
        &mut a_pending,
        now,
    );
    assert_eq!(out.event, None);
    assert_eq!(out.completions.len(), 1);
    assert_eq!(out.completions[0].handle, 1);
    assert_eq!(out.completions[0].result, Ok(CommandOutput::Response(String::from("world"))));
    assert!(a.active_commands.is_empty());
}

#[test]
fn record_and_providers_travel_through_the_hash_table() {
    let ids = query_ids(4);
    let a_id = PeerId::random();
    let key = RecordKey::new(&b"/test/greeting");
    let record = Record::new(key.clone(), b"hello-kad".to_vec());
    let (mut a, mut a_pending) = new_loop();
    let (mut b, mut b_pending) = new_loop();

    enter(&mut a, 1, Command::Bootstrap(BootstrapCommand::new()), SwarmReply::Query { id: ids[0] });
    enter(&mut a, 2, Command::PutRecord(PutRecordCommand::new(record.clone())), SwarmReply::Query { id: ids[1] });
    let out = feed(
        &mut a,
        &mut a_pending,
        SwarmEvent::KadQueryProgressed { id: ids[1], result: QueryResult::PutRecord(Ok(())), stats: stats(3), last: true },
    );
    assert_eq!(out.completions.len(), 1);
    assert_eq!(out.completions[0].handle, 2);
    assert_eq!(out.completions[0].result, Ok(CommandOutput::Stats(stats(3))));
    assert_eq!(handles(&a), vec![1]);

    enter(&mut b, 7, Command::GetRecord(GetRecordCommand::new(key.clone())), SwarmReply::Query { id: ids[2] });
    let out = feed(
        &mut b,
        &mut b_pending,
        SwarmEvent::KadQueryProgressed {
            id: ids[2],
            result: QueryResult::GetRecord(Ok(GetRecordOk::FoundRecord(record.clone()))),
            stats: stats(2),
            last: false,
        },
    );
    assert!(out.completions.is_empty());
    let out = feed(
        &mut b,
        &mut b_pending,
        SwarmEvent::KadQueryProgressed {
            id: ids[2],
            result: QueryResult::GetRecord(Ok(GetRecordOk::FinishedWithNoAdditionalRecord)),
            stats: stats(1),
            last: true,
        },
    );
    match &out.completions[0].result {
        Ok(CommandOutput::Found(found)) => {
            assert_eq!(found.record.value, b"hello-kad".to_vec());
            assert_eq!(found.stats, stats(3));
        }
        other => panic!("no record but {other:?}"),
    }

    let file = RecordKey::new(&b"/test/file/abc123");
    enter(&mut a, 3, Command::StartProvide(StartProvideCommand::new(file.clone())), SwarmReply::Query { id: ids[3] });
    let out = feed(
        &mut a,
        &mut a_pending,
        SwarmEvent::KadQueryProgressed { id: ids[3], result: QueryResult::StartProviding(Ok(())), stats: stats(4), last: true },
    );
    assert_eq!(out.completions[0].result, Ok(CommandOutput::Stats(stats(4))));

    enter(&mut b, 8, Command::GetProviders(GetProvidersCommand::new(file)), SwarmReply::Query { id: ids[3] });
    let out = feed(
        &mut b,
        &mut b_pending,
        SwarmEvent::KadQueryProgressed {
            id: ids[3],
            result: QueryResult::GetProviders(Ok(GetProvidersOk::FoundProviders { providers: vec![a_id] })),
            stats: stats(1),
            last: true,
        },
    );
    match &out.completions[0].result {
        Ok(CommandOutput::Providers(found)) => assert!(found.providers.contains(&a_id)),
        other => panic!("no providers but {other:?}"),
    }
}

#[test]
fn dial_of_a_connected_peer_is_done_without_a_call() {
    let (state, _) = new_loop();
    let peer = PeerId::random();
    let view = SwarmView { connected: vec![peer], listeners: vec![], external_addrs: vec![] };
    let task: Task = CommandTask::new(Command::Dial(DialCommand::new(peer)), 5);
    match state.handle_command(task, &view) {
        Admission::Finished { calls, done } => {
            assert!(calls.is_empty());
            assert_eq!(done.handle, 5);
            assert_eq!(done.result, Ok(CommandOutput::Done));
        }
        Admission::Call { .. } => panic!("nothing was to be called"),
    }
    assert!(state.active_commands.is_empty());
}

#[test]
fn commands_that_answer_at_once_never_join_the_running_ones() {
    let (mut state, _) = new_loop();
    let peer = PeerId::random();
    let view = SwarmView {
        connected: vec![peer],
        listeners: vec![addr("/ip4/10.0.0.1/tcp/1")],
        external_addrs: vec![],
    };
    let task: Task = CommandTask::new(Command::IsConnected(IsConnectedCommand::new(peer)), 1);
    match state.handle_command(task, &view) {
        Admission::Finished { done, .. } => assert_eq!(done.result, Ok(CommandOutput::Connected(true))),
        Admission::Call { .. } => panic!("nothing was to be called"),
    }
    let task: Task = CommandTask::new(Command::GetListenAddrs(GetListenAddrsCommand::new()), 2);
    match state.handle_command(task, &view) {
        Admission::Finished { done, .. } => {
            assert_eq!(done.result, Ok(CommandOutput::Addrs(vec![addr("/ip4/10.0.0.1/tcp/1")])))
        }
        Admission::Call { .. } => panic!("nothing was to be called"),
    }
    // an answer that ends the command keeps it out as well
    let task: Task = CommandTask::new(Command::Dial(DialCommand::new(PeerId::random())), 3);
    let task = match state.handle_command(task, &view) {
        Admission::Call { task, .. } => task,
        Admission::Finished { .. } => panic!("the peer was to be dialled"),
    };
    let done = state.handle_reply(task, SwarmReply::Failed { error: String::from("no addresses") }).unwrap();
    assert_eq!(done.handle, 3);
    assert_eq!(done.result, Err(Error::Dial(String::from("no addresses"))));
    assert!(state.active_commands.is_empty());
    // and so does an answer to a command that names no call
    let task: Task = CommandTask::new(Command::IsConnected(IsConnectedCommand::new(peer)), 4);
    let done = state.handle_reply(task, SwarmReply::Done).unwrap();
    assert_eq!(
        done.result,
        Err(Error::Behaviour(String::from("the network stack gave no answer to go on with")))
    );
}

#[test]
fn commands_run_in_the_order_of_their_admission() {
    let (mut state, mut pending) = new_loop();
    let peer = PeerId::random();
    for handle in 1..=4u32 {
        enter(&mut state, handle, Command::Dial(DialCommand::new(PeerId::random())), SwarmReply::Done);
    }
    assert_eq!(handles(&state), vec![1, 2, 3, 4]);
    // an event that finishes none of them leaves the list as it is
    let out = feed(&mut state, &mut pending, SwarmEvent::ConnectionEstablished { peer_id: peer, num_established: 1 });
    assert!(out.completions.is_empty());
    assert_eq!(out.event, Some(NodeEvent::PeerConnected { peer_id: peer }));
    assert_eq!(handles(&state), vec![1, 2, 3, 4]);
}

#[test]
fn a_command_that_leaves_is_replaced_by_the_last() {
    let (mut state, mut pending) = new_loop();
    let peer = PeerId::random();
    enter(&mut state, 1, Command::Dial(DialCommand::new(PeerId::random())), SwarmReply::Done);
    enter(&mut state, 2, Command::Dial(DialCommand::new(peer)), SwarmReply::Done);
    enter(&mut state, 3, Command::Dial(DialCommand::new(PeerId::random())), SwarmReply::Done);
    enter(&mut state, 4, Command::Dial(DialCommand::new(peer)), SwarmReply::Done);
    enter(&mut state, 5, Command::Disconnect(DisconnectCommand::new(peer)), SwarmReply::Done);

    let out = feed(&mut state, &mut pending, SwarmEvent::ConnectionEstablished { peer_id: peer, num_established: 1 });
    // both dials of the peer end, the event is told, and the list closes up
    assert_eq!(out.event, Some(NodeEvent::PeerConnected { peer_id: peer }));
    let finished: Vec<u32> = out.completions.iter().map(|done| done.handle).collect();
    assert_eq!(finished, vec![2, 4]);
    for done in &out.completions {
        assert_eq!(done.result, Ok(CommandOutput::Done));
    }
    assert_eq!(handles(&state), vec![1, 5, 3]);

    let out = feed(&mut state, &mut pending, SwarmEvent::ConnectionClosed { peer_id: peer, num_established: 0 });
    assert_eq!(out.event, Some(NodeEvent::PeerDisconnected { peer_id: peer }));
    let finished: Vec<u32> = out.completions.iter().map(|done| done.handle).collect();
    assert_eq!(finished, vec![5]);
    assert_eq!(handles(&state), vec![1, 3]);
}

#[test]
fn the_first_command_that_keeps_an_event_wins() {
    let ids = query_ids(1);
    let (mut state, mut pending) = new_loop();
    let key = RecordKey::new(&b"/test/file/abc123");
    enter(&mut state, 1, Command::GetProviders(GetProvidersCommand::new(key.clone())), SwarmReply::Query { id: ids[0] });
    enter(&mut state, 2, Command::GetProviders(GetProvidersCommand::new(key)), SwarmReply::Query { id: ids[0] });
    let peer = PeerId::random();
    let out = feed(
        &mut state,
        &mut pending,
        SwarmEvent::KadQueryProgressed {
            id: ids[0],
            result: QueryResult::GetProviders(Ok(GetProvidersOk::FoundProviders { providers: vec![peer] })),
            stats: stats(1),
            last: true,
        },
    );
    assert_eq!(out.completions.len(), 1);
    assert_eq!(out.completions[0].handle, 1);
    assert_eq!(out.event, None);
    assert_eq!(handles(&state), vec![2]);
    match &state.active_commands[0].handler {
        Command::GetProviders(second) => {
            assert!(second.providers.is_empty());
            assert_eq!(second.stats, None);
        }
        _ => panic!("the second lookup was to stay"),
    }
}

#[test]
fn an_event_that_a_command_keeps_is_not_told() {
    let ids = request_ids(1);
    let (mut state, mut pending) = new_loop();
    let peer = PeerId::random();
    enter(&mut state, 1, Command::SendRequest(SendRequestCommand::new(peer, String::from("hello"))), SwarmReply::Request { id: ids[0] });
    let out = feed(
        &mut state,
        &mut pending,
        SwarmEvent::OutboundFailure { peer, request_id: ids[0], error: String::from("Timeout") },
    );
    assert_eq!(out.event, None);
    assert!(out.calls.is_empty());
    assert_eq!(out.completions[0].result, Err(Error::Behaviour(format!("Request to {peer} failed: Timeout"))));
    assert!(state.active_commands.is_empty());
}

#[test]
fn the_loop_stops_when_the_queue_is_closed() {
    let ids = query_ids(1);
    let (mut state, mut pending) = new_loop();
    enter(&mut state, 1, Command::Dial(DialCommand::new(PeerId::random())), SwarmReply::Done);
    enter(&mut state, 2, Command::Bootstrap(BootstrapCommand::new()), SwarmReply::Query { id: ids[0] });
    enter(&mut state, 3, Command::Disconnect(DisconnectCommand::new(PeerId::random())), SwarmReply::Done);
    pending.insert(5, "channel", TimeSpan::from_secs(1));
    let turn = state.run(Arrival::QueueClosed, &nobody(), &mut pending, TimeSpan::from_secs(1));
    match turn {
        Turn::Stop { completions } => {
            // every command that was still running ends with the failure
            let ended: Vec<u32> = completions.iter().map(|done| done.handle).collect();
            assert_eq!(ended, vec![1, 2, 3]);
            for done in &completions {
                assert_eq!(done.result, Err(Error::Behaviour(String::from("command channel closed"))));
            }
        }
        _ => panic!("the loop was to stop"),
    }
    assert!(state.active_commands.is_empty());
    assert_eq!(pending.len(), 1);
}

#[test]
fn a_loop_without_running_commands_stops_with_nothing_to_deliver() {
    let (mut state, mut pending) = new_loop();
    match state.run(Arrival::QueueClosed, &nobody(), &mut pending, TimeSpan::from_secs(1)) {
        Turn::Stop { completions } => assert!(completions.is_empty()),
        _ => panic!("the loop was to stop"),
    }
    assert!(state.shutdown().is_empty());
}

#[test]
fn a_waiting_future_gets_the_failure_when_the_loop_stops() {
    let (mut state, _) = new_loop();
    enter(&mut state, 1, Command::Dial(DialCommand::new(PeerId::random())), SwarmReply::Done);
    let mut slot: ResultHandle<(), &str> = ResultHandle::new();
    assert_eq!(CommandFuture::<Task>::poll(true, &mut slot, "waker"), Poll::Pending);
    for done in state.shutdown() {
        assert_eq!(slot.finish(typed(done.result)), Some("waker"));
    }
    assert_eq!(
        CommandFuture::<Task>::poll(true, &mut slot, "waker"),
        Poll::Ready(Err(Error::Behaviour(String::from("command channel closed"))))
    );
}

#[test]
fn results_are_read_by_their_kind() {
    let stats_out: CommandOutput<String> = CommandOutput::Stats(stats(3));
    assert_eq!(typed::<QueryStatsInfo, String>(Ok(stats_out)), Ok(stats(3)));
    assert_eq!(typed::<(), String>(Ok(CommandOutput::Done)), Ok(()));
    assert_eq!(typed::<bool, String>(Ok(CommandOutput::Connected(true))), Ok(true));
    assert_eq!(
        typed::<bool, String>(Ok(CommandOutput::Done)),
        Err(Error::Behaviour(String::from("result of another kind")))
    );
    assert_eq!(
        typed::<(), String>(Err(Error::Dial(String::from("refused")))),
        Err(Error::Dial(String::from("refused")))
    );
    assert_eq!(typed_response(Ok(CommandOutput::Response(String::from("world")))), Ok(String::from("world")));
    assert_eq!(
        typed_response::<String>(Ok(CommandOutput::Done)),
        Err(Error::Behaviour(String::from("result of another kind")))
    );
}

#[test]
fn a_turn_deals_with_what_has_arrived() {
    let (mut state, mut pending) = new_loop();
    let peer = PeerId::random();
    let task: Task = CommandTask::new(Command::Dial(DialCommand::new(peer)), 9);
    let turn = state.run(Arrival::Command { task }, &nobody(), &mut pending, TimeSpan::from_secs(1));
    match turn {
        Turn::Admitted { admission: Admission::Call { call, task } } => {
            assert_eq!(call, SwarmCall::Dial { peer_id: peer });
            assert_eq!(task.handle, 9);
        }
        _ => panic!("the command was to have its first turn"),
    }
    let event: Event = SwarmEvent::NewListenAddr { address: addr("/ip4/127.0.0.1/tcp/1") };
    let turn = state.run(Arrival::Event { event }, &nobody(), &mut pending, TimeSpan::from_secs(1));
    match turn {
        Turn::Handled { handled } => {
            assert_eq!(handled.event, Some(NodeEvent::Listening { addr: addr("/ip4/127.0.0.1/tcp/1") }))
        }
        _ => panic!("the event was to be dealt with"),
    }
}

#[test]
fn a_refused_listen_is_a_failure_to_listen() {
    assert_eq!(Loop::listen_reply(SwarmReply::Done), Ok(()));
    assert_eq!(
        Loop::listen_reply(SwarmReply::Failed { error: String::from("Address already in use") }),
        Err(Error::Listen(String::from("Address already in use")))
    );
}

#[test]
fn providers_come_as_a_set() {
    let ids = query_ids(1);
    let (mut state, mut pending) = new_loop();
    let a = PeerId::random();
    let b = PeerId::random();
    let key = RecordKey::new(&b"/test/file/abc123");
    enter(&mut state, 1, Command::GetProviders(GetProvidersCommand::new(key)), SwarmReply::Query { id: ids[0] });
    let out = feed(
        &mut state,
        &mut pending,
        SwarmEvent::KadQueryProgressed {
            id: ids[0],
            result: QueryResult::GetProviders(Ok(GetProvidersOk::FoundProviders { providers: vec![a, b] })),
            stats: stats(1),
            last: false,
        },
    );
    assert!(out.completions.is_empty());
    let out = feed(
        &mut state,
        &mut pending,
        SwarmEvent::KadQueryProgressed {
            id: ids[0],
            result: QueryResult::GetProviders(Ok(GetProvidersOk::FoundProviders { providers: vec![b, a] })),
            stats: stats(1),
            last: true,
        },
    );
    match &out.completions[0].result {
        Ok(CommandOutput::Providers(found)) => assert_eq!(found.providers, vec![a, b]),
        other => panic!("no providers but {other:?}"),
    }
}
