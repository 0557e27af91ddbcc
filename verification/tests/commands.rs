use swarm_p2p_core::command::{
    AddPeerAddrsCommand, BootstrapCommand, BootstrapResult, DialCommand, DisconnectCommand,
    GetClosestPeersCommand, GetListenAddrsCommand, GetProvidersCommand, GetRecordCommand,
    IsConnectedCommand, Observed, PutRecordCommand, RemoveRecordCommand, SendRequestCommand,
    SendResponseCommand, Start, StartProvideCommand, StopProvideCommand,
};
use swarm_p2p_core::libp2p::kad::store::MemoryStore;
use swarm_p2p_core::libp2p::kad::{self, QueryId, Record, RecordKey};
use swarm_p2p_core::libp2p::request_response::{self, OutboundRequestId, ProtocolSupport};
use swarm_p2p_core::libp2p::{Multiaddr, PeerId, StreamProtocol};
use swarm_p2p_core::swarm::{BootstrapOk, GetProvidersOk, GetRecordOk, QueryResult};
use swarm_p2p_core::{
    Error, QueryStatsInfo, Quorum, StoreError, SwarmCall, SwarmEvent, SwarmReply, SwarmView,
    TimeSpan,
};

type Event = SwarmEvent<String, String, u32>;
type Call = SwarmCall<String, String, u32>;

fn query_ids(n: usize) -> Vec<QueryId> {
    let local = PeerId::random();
    let mut table = kad::Behaviour::new(local, MemoryStore::new(local));
    (0..n).map(|_| table.get_closest_peers(PeerId::random())).collect()
}

fn request_ids(n: usize) -> Vec<OutboundRequestId> {
    let mut protocol = request_response::cbor::Behaviour::<String, String>::new(
        [(StreamProtocol::new("/test/req/1.0.0"), ProtocolSupport::Full)],
        request_response::Config::default(),
    );
    (0..n).map(|_| protocol.send_request(&PeerId::random(), String::from("x"))).collect()
}

fn stats(millis: Option<u64>, requests: u32, successes: u32, failures: u32) -> QueryStatsInfo {
    QueryStatsInfo {
        duration: millis.map(TimeSpan::from_millis),
        num_requests: requests,
        num_successes: successes,
        num_failures: failures,
    }
}

fn step(id: QueryId, result: QueryResult, stats: QueryStatsInfo, last: bool) -> Event {
    SwarmEvent::KadQueryProgressed { id, result, stats, last }
}

fn view(connected: Vec<PeerId>) -> SwarmView {
    SwarmView { connected, listeners: vec![], external_addrs: vec![] }
}

fn is_same(event: &Option<Event>, expected: &Event) -> bool {
    match event {
        Some(event) => format!("{event:?}") == format!("{expected:?}"),
        None => false,
    }
}

fn kept_for_itself<T>(out: &Observed<T, String, String, u32>) -> bool {
    out.remaining.is_none()
}

#[test]
fn dial_is_done_at_once_when_connected() {
    let peer = PeerId::random();
    let mut command = DialCommand::new(peer);
    let start: Start<(), String, String, u32> = command.run(&view(vec![PeerId::random(), peer]));
    assert_eq!(start, Start::Finished { calls: vec![], result: Ok(()) });
}

#[test]
fn dial_connects_when_not_connected() {
    let peer = PeerId::random();
    let mut command = DialCommand::new(peer);
    let start: Start<(), String, String, u32> = command.run(&view(vec![PeerId::random()]));
    assert_eq!(start, Start::Call { call: SwarmCall::Dial { peer_id: peer } });
    assert_eq!(command.on_reply(SwarmReply::Done), None);
    assert_eq!(
        command.on_reply(SwarmReply::Failed { error: String::from("no addresses") }),
        Some(Err(Error::Dial(String::from("no addresses"))))
    );
}

#[test]
fn dial_ends_with_the_connection_and_passes_the_event_on() {
    let peer = PeerId::random();
    let other = PeerId::random();
    let mut command = DialCommand::new(peer);

    let event: Event = SwarmEvent::ConnectionEstablished { peer_id: other, num_established: 1 };
    let out = command.on_event(event);
    assert!(out.keep_active);
    assert_eq!(out.result, None);
    assert!(is_same(
        &out.remaining,
        &SwarmEvent::ConnectionEstablished { peer_id: other, num_established: 1 }
    ));

    let event: Event = SwarmEvent::ConnectionEstablished { peer_id: peer, num_established: 2 };
    let out = command.on_event(event);
    assert!(!out.keep_active);
    assert_eq!(out.result, Some(Ok(())));
    assert!(is_same(
        &out.remaining,
        &SwarmEvent::ConnectionEstablished { peer_id: peer, num_established: 2 }
    ));
}

#[test]
fn dial_ends_with_the_failure_of_the_attempt() {
    let peer = PeerId::random();
    let mut command = DialCommand::new(peer);

    let event: Event =
        SwarmEvent::OutgoingConnectionError { peer_id: None, error: String::from("refused") };
    let out = command.on_event(event);
    assert!(out.keep_active);
    assert_eq!(out.result, None);

    let event: Event = SwarmEvent::OutgoingConnectionError {
        peer_id: Some(PeerId::random()),
        error: String::from("refused"),
    };
    assert!(command.on_event(event).keep_active);

    let event: Event =
        SwarmEvent::OutgoingConnectionError { peer_id: Some(peer), error: String::from("refused") };
    let out = command.on_event(event);
    assert!(!out.keep_active);
    assert_eq!(out.result, Some(Err(Error::Dial(String::from("refused")))));
    assert!(!kept_for_itself(&out));
}

#[test]
fn disconnect_waits_for_the_last_connection() {
    let peer = PeerId::random();
    let mut command = DisconnectCommand::new(peer);
    let start: Start<(), String, String, u32> = command.run();
    assert_eq!(start, Start::Call { call: SwarmCall::Disconnect { peer_id: peer } });
    assert_eq!(command.on_reply(SwarmReply::Done), None);

    let event: Event = SwarmEvent::ConnectionClosed { peer_id: peer, num_established: 1 };
    let out = command.on_event(event);
    assert!(out.keep_active);
    assert_eq!(out.result, None);

    let event: Event = SwarmEvent::ConnectionClosed { peer_id: PeerId::random(), num_established: 0 };
    assert!(command.on_event(event).keep_active);

    let event: Event = SwarmEvent::ConnectionClosed { peer_id: peer, num_established: 0 };
    let out = command.on_event(event);
    assert!(!out.keep_active);
    assert_eq!(out.result, Some(Ok(())));
    assert!(is_same(&out.remaining, &SwarmEvent::ConnectionClosed { peer_id: peer, num_established: 0 }));
}

#[test]
fn disconnect_fails_when_not_connected() {
    let peer = PeerId::random();
    let mut command = DisconnectCommand::new(peer);
    let result = command.on_reply(SwarmReply::Failed { error: String::new() });
    assert_eq!(result, Some(Err(Error::Dial(format!("peer {peer} is not connected")))));
}

#[test]
fn is_connected_answers_from_the_view() {
    let peer = PeerId::random();
    let mut command = IsConnectedCommand::new(peer);
    let start: Start<bool, String, String, u32> = command.run(&view(vec![peer]));
    assert_eq!(start, Start::Finished { calls: vec![], result: Ok(true) });
    let start: Start<bool, String, String, u32> = command.run(&view(vec![PeerId::random()]));
    assert_eq!(start, Start::Finished { calls: vec![], result: Ok(false) });
}

#[test]
fn listen_addrs_are_sorted_and_unique() {
    let a: Multiaddr = "/ip4/10.0.0.1/tcp/1".parse().unwrap();
    let b: Multiaddr = "/ip4/10.0.0.1/tcp/2".parse().unwrap();
    let c: Multiaddr = "/ip4/192.0.2.1/tcp/1".parse().unwrap();
    let view = SwarmView {
        connected: vec![],
        listeners: vec![b.clone(), a.clone()],
        external_addrs: vec![c.clone(), a.clone()],
    };
    let mut command = GetListenAddrsCommand::new();
    let start: Start<Vec<Multiaddr>, String, String, u32> = command.run(&view);
    assert_eq!(start, Start::Finished { calls: vec![], result: Ok(vec![a, b, c]) });
}

#[test]
fn add_peer_addrs_notes_every_address() {
    let peer = PeerId::random();
    let a: Multiaddr = "/ip4/10.0.0.1/tcp/1".parse().unwrap();
    let b: Multiaddr = "/ip4/10.0.0.1/tcp/2".parse().unwrap();
    let mut command = AddPeerAddrsCommand::new(peer, vec![b.clone(), a.clone()]);
    let start: Start<(), String, String, u32> = command.run();
    let calls: Vec<Call> = vec![
        SwarmCall::AddPeerAddress { peer_id: peer, addr: b },
        SwarmCall::AddPeerAddress { peer_id: peer, addr: a },
    ];
    assert_eq!(start, Start::Finished { calls, result: Ok(()) });
}

#[test]
fn stop_provide_and_remove_record_are_done_at_once() {
    let key = RecordKey::new(&b"/test/file/abc123");
    let mut command = StopProvideCommand::new(key.clone());
    let start: Start<(), String, String, u32> = command.run();
    assert_eq!(
        start,
        Start::Finished { calls: vec![SwarmCall::KadStopProviding { key: key.clone() }], result: Ok(()) }
    );
    let mut command = RemoveRecordCommand::new(key.clone());
    let start: Start<(), String, String, u32> = command.run();
    assert_eq!(start, Start::Finished { calls: vec![SwarmCall::KadRemoveRecord { key }], result: Ok(()) });
}

#[test]
fn bootstrap_fails_without_known_peers() {
    let mut command = BootstrapCommand::new();
    let start: Start<BootstrapResult, String, String, u32> = command.run();
    assert_eq!(start, Start::Call { call: SwarmCall::KadBootstrap });
    let result = command.on_reply(SwarmReply::Failed { error: String::from("NoKnownPeers()") });
    assert_eq!(result, Some(Err(Error::Kad(String::from("Bootstrap failed: no known peers")))));
}

#[test]
fn bootstrap_sums_the_statistics_of_its_steps() {
    let ids = query_ids(2);
    let peer = PeerId::random();
    let mut command = BootstrapCommand::default();
    assert_eq!(command.on_reply(SwarmReply::Query { id: ids[0] }), None);

    // a step of another query is none of its business
    let foreign = step(
        ids[1],
        QueryResult::Bootstrap(Ok(BootstrapOk { peer, num_remaining: 9 })),
        stats(Some(1), 100, 100, 100),
        true,
    );
    let out = command.on_event(foreign);
    assert!(out.keep_active);
    assert!(!kept_for_itself(&out));
    assert_eq!(out.result, None);

    // a step of its own query of another kind is none either
    let other_kind = step(ids[0], QueryResult::PutRecord(Ok(())), stats(Some(1), 100, 100, 100), true);
    let out = command.on_event(other_kind);
    assert!(out.keep_active);
    assert!(!kept_for_itself(&out));

    let first = step(
        ids[0],
        QueryResult::Bootstrap(Ok(BootstrapOk { peer, num_remaining: 2 })),
        stats(Some(40), 3, 2, 1),
        false,
    );
    let out = command.on_event(first);
    assert!(out.keep_active);
    assert!(kept_for_itself(&out));
    assert_eq!(out.result, None);

    let second = step(
        ids[0],
        QueryResult::Bootstrap(Ok(BootstrapOk { peer, num_remaining: 1 })),
        stats(Some(70), 4, 4, 0),
        false,
    );
    assert!(command.on_event(second).keep_active);

    let last = step(
        ids[0],
        QueryResult::Bootstrap(Ok(BootstrapOk { peer, num_remaining: 0 })),
        stats(Some(55), 2, 1, 1),
        true,
    );
    let out = command.on_event(last);
    assert!(!out.keep_active);
    assert!(kept_for_itself(&out));
    assert_eq!(
        out.result,
        Some(Ok(BootstrapResult { num_remaining: 0, stats: stats(Some(70), 9, 7, 2) }))
    );
}

#[test]
fn bootstrap_ends_with_the_first_failed_step() {
    let ids = query_ids(1);
    let mut command = BootstrapCommand::new();
    command.on_reply(SwarmReply::Query { id: ids[0] });
    let failed = step(
        ids[0],
        QueryResult::Bootstrap(Err(String::from("Timeout"))),
        stats(None, 1, 0, 1),
        false,
    );
    let out = command.on_event(failed);
    assert!(!out.keep_active);
    assert!(kept_for_itself(&out));
    assert_eq!(out.result, Some(Err(Error::Kad(String::from("Bootstrap: Timeout")))));
}

#[test]
fn get_record_delivers_the_first_record() {
    let ids = query_ids(1);
    let key = RecordKey::new(&b"/test/greeting");
    let record = Record::new(key.clone(), b"hello-kad".to_vec());
    let later = Record::new(key.clone(), b"later".to_vec());
    let mut command = GetRecordCommand::new(key.clone());
    let start: Start<_, String, String, u32> = command.run();
    assert_eq!(start, Start::Call { call: SwarmCall::KadGetRecord { key } });
    assert_eq!(command.on_reply(SwarmReply::Query { id: ids[0] }), None);

    let found = step(
        ids[0],
        QueryResult::GetRecord(Ok(GetRecordOk::FoundRecord(record.clone()))),
        stats(Some(10), 2, 1, 0),
        false,
    );
    let out = command.on_event(found);
    assert!(out.keep_active && kept_for_itself(&out) && out.result.is_none());

    let again = step(
        ids[0],
        QueryResult::GetRecord(Ok(GetRecordOk::FoundRecord(later))),
        stats(Some(20), 1, 1, 0),
        false,
    );
    assert!(command.on_event(again).keep_active);

    // a failure does no harm once a record is held, not even at the end
    let failed = step(ids[0], QueryResult::GetRecord(Err(String::from("Timeout"))), stats(None, 1, 0, 1), true);
    let out = command.on_event(failed);
    assert!(!out.keep_active && kept_for_itself(&out));
    let result = out.result.unwrap().unwrap();
    assert_eq!(result.record.value, b"hello-kad".to_vec());
    assert_eq!(result.record, record);
    assert_eq!(result.stats, stats(Some(20), 4, 2, 1));
}

#[test]
fn get_record_without_a_record_fails() {
    let ids = query_ids(1);
    let key = RecordKey::new(&b"/test/greeting");

    let mut command = GetRecordCommand::new(key.clone());
    command.on_reply(SwarmReply::Query { id: ids[0] });
    let failed = step(ids[0], QueryResult::GetRecord(Err(String::from("NotFound"))), stats(None, 1, 0, 1), false);
    let out = command.on_event(failed);
    assert!(out.keep_active && kept_for_itself(&out) && out.result.is_none());
    let end = step(
        ids[0],
        QueryResult::GetRecord(Ok(GetRecordOk::FinishedWithNoAdditionalRecord)),
        stats(None, 0, 0, 0),
        true,
    );
    let out = command.on_event(end);
    assert!(!out.keep_active);
    assert_eq!(out.result, Some(Err(Error::Kad(String::from("Record not found")))));

    let mut command = GetRecordCommand::new(key);
    command.on_reply(SwarmReply::Query { id: ids[0] });
    let failed = step(ids[0], QueryResult::GetRecord(Err(String::from("Timeout"))), stats(None, 1, 0, 1), true);
    let out = command.on_event(failed);
    assert!(!out.keep_active);
    assert_eq!(out.result, Some(Err(Error::Kad(String::from("GetRecord: Timeout")))));
}

#[test]
fn put_record_waits_for_the_last_step() {
    let ids = query_ids(1);
    let record = Record::new(RecordKey::new(&b"/test/greeting"), b"hello-kad".to_vec());
    let mut command = PutRecordCommand::new(record.clone());
    let start: Start<_, String, String, u32> = command.run();
    assert_eq!(start, Start::Call { call: SwarmCall::KadPutRecord { record, quorum: Quorum::One } });
    assert_eq!(command.on_reply(SwarmReply::Query { id: ids[0] }), None);

    let failed = step(ids[0], QueryResult::PutRecord(Err(String::from("QuorumFailed"))), stats(Some(5), 2, 0, 2), false);
    let out = command.on_event(failed);
    assert!(out.keep_active && kept_for_itself(&out) && out.result.is_none());

    let done = step(ids[0], QueryResult::PutRecord(Ok(())), stats(Some(9), 3, 3, 0), true);
    let out = command.on_event(done);
    assert!(!out.keep_active && kept_for_itself(&out));
    assert_eq!(out.result, Some(Ok(stats(Some(9), 5, 3, 2))));
}

#[test]
fn put_record_fails_with_the_last_step_or_the_store() {
    let ids = query_ids(1);
    let record = Record::new(RecordKey::new(&b"/test/greeting"), b"hello-kad".to_vec());
    let mut command = PutRecordCommand::new(record.clone());
    assert_eq!(
        command.on_reply(SwarmReply::StoreFailed { error: StoreError::ValueTooLarge }),
        Some(Err(Error::KadStore(StoreError::ValueTooLarge)))
    );
    let mut command = PutRecordCommand::new(record);
    command.on_reply(SwarmReply::Query { id: ids[0] });
    let failed = step(ids[0], QueryResult::PutRecord(Err(String::from("QuorumFailed"))), stats(None, 1, 0, 1), true);
    let out = command.on_event(failed);
    assert_eq!(out.result, Some(Err(Error::KadPutRecord(String::from("QuorumFailed")))));
}

#[test]
fn start_provide_delivers_the_statistics() {
    let ids = query_ids(1);
    let key = RecordKey::new(&b"/test/file/abc123");
    let mut command = StartProvideCommand::new(key.clone());
    let start: Start<_, String, String, u32> = command.run();
    assert_eq!(start, Start::Call { call: SwarmCall::KadStartProviding { key: key.clone() } });
    assert_eq!(
        command.on_reply(SwarmReply::StoreFailed { error: StoreError::MaxProvidedKeys }),
        Some(Err(Error::Kad(String::from(
            "StartProviding store: the store cannot contain any more provider records"
        ))))
    );
    assert_eq!(command.on_reply(SwarmReply::Query { id: ids[0] }), None);
    let more = step(ids[0], QueryResult::StartProviding(Ok(())), stats(Some(5), 2, 2, 0), false);
    assert!(command.on_event(more).keep_active);
    let done = step(ids[0], QueryResult::StartProviding(Ok(())), stats(Some(7), 1, 1, 0), true);
    let out = command.on_event(done);
    assert!(!out.keep_active && kept_for_itself(&out));
    assert_eq!(out.result, Some(Ok(stats(Some(7), 3, 3, 0))));

    let mut command = StartProvideCommand::new(key);
    command.on_reply(SwarmReply::Query { id: ids[0] });
    let failed = step(ids[0], QueryResult::StartProviding(Err(String::from("Timeout"))), stats(None, 1, 0, 1), true);
    let out = command.on_event(failed);
    assert_eq!(out.result, Some(Err(Error::Kad(String::from("Provide: Timeout")))));
}

#[test]
fn get_providers_gathers_the_providers() {
    let ids = query_ids(2);
    let key = RecordKey::new(&b"/test/file/abc123");
    let a = PeerId::random();
    let b = PeerId::random();
    let c = PeerId::random();
    let mut command = GetProvidersCommand::new(key.clone());
    let start: Start<_, String, String, u32> = command.run();
    assert_eq!(start, Start::Call { call: SwarmCall::KadGetProviders { key } });
    assert_eq!(command.on_reply(SwarmReply::Query { id: ids[1] }), None);

    let foreign = step(
        ids[0],
        QueryResult::GetProviders(Ok(GetProvidersOk::FoundProviders { providers: vec![c] })),
        stats(None, 9, 9, 9),
        true,
    );
    let out = command.on_event(foreign);
    assert!(out.keep_active && !kept_for_itself(&out));

    let first = step(
        ids[1],
        QueryResult::GetProviders(Ok(GetProvidersOk::FoundProviders { providers: vec![a] })),
        stats(Some(3), 1, 1, 0),
        false,
    );
    assert!(command.on_event(first).keep_active);
    let second = step(
        ids[1],
        QueryResult::GetProviders(Ok(GetProvidersOk::FoundProviders { providers: vec![b, a] })),
        stats(Some(6), 2, 1, 1),
        false,
    );
    assert!(command.on_event(second).keep_active);
    let end = step(
        ids[1],
        QueryResult::GetProviders(Ok(GetProvidersOk::FinishedWithNoAdditionalRecord {
            closest_peers: vec![c],
        })),
        stats(Some(4), 1, 0, 1),
        true,
    );
    let out = command.on_event(end);
    assert!(!out.keep_active && kept_for_itself(&out));
    let result = out.result.unwrap().unwrap();
    // `a` was reported by two steps and is a provider once
    assert_eq!(result.providers, vec![a, b]);
    assert!(result.providers.contains(&a));
    assert_eq!(result.stats, stats(Some(6), 4, 2, 2));
}

#[test]
fn get_providers_ends_with_a_failed_step() {
    let ids = query_ids(1);
    let mut command = GetProvidersCommand::new(RecordKey::new(&b"k"));
    command.on_reply(SwarmReply::Query { id: ids[0] });
    let failed = step(ids[0], QueryResult::GetProviders(Err(String::from("Timeout"))), stats(None, 1, 0, 1), false);
    let out = command.on_event(failed);
    assert!(!out.keep_active && kept_for_itself(&out));
    assert_eq!(out.result, Some(Err(Error::KadGetProviders(String::from("Timeout")))));
}

#[test]
fn get_closest_peers_gathers_the_peers() {
    let ids = query_ids(1);
    let key = RecordKey::new(&b"/test/closest");
    let a = PeerId::random();
    let b = PeerId::random();
    let mut command = GetClosestPeersCommand::new(key.clone());
    let start: Start<_, String, String, u32> = command.run();
    assert_eq!(start, Start::Call { call: SwarmCall::KadGetClosestPeers { key } });
    command.on_reply(SwarmReply::Query { id: ids[0] });
    let first = step(ids[0], QueryResult::GetClosestPeers(Ok(vec![a])), stats(Some(3), 1, 1, 0), false);
    assert!(command.on_event(first).keep_active);
    let end = step(ids[0], QueryResult::GetClosestPeers(Ok(vec![b])), stats(Some(2), 1, 1, 0), true);
    let out = command.on_event(end);
    let result = out.result.unwrap().unwrap();
    assert_eq!(result.peers, vec![a, b]);
    assert_eq!(result.stats, stats(Some(3), 2, 2, 0));

    let mut command = GetClosestPeersCommand::new(RecordKey::new(&b"k"));
    command.on_reply(SwarmReply::Query { id: ids[0] });
    let failed = step(ids[0], QueryResult::GetClosestPeers(Err(String::from("Timeout"))), stats(None, 1, 0, 1), true);
    let out = command.on_event(failed);
    assert_eq!(out.result, Some(Err(Error::KadGetClosestPeers(String::from("Timeout")))));
}

#[test]
fn a_query_that_was_not_issued_fails() {
    let text = "the network stack gave no answer to go on with";
    let mut command = GetRecordCommand::new(RecordKey::new(&b"k"));
    assert_eq!(command.on_reply(SwarmReply::Done), Some(Err(Error::Behaviour(String::from(text)))));
    let mut command = GetProvidersCommand::new(RecordKey::new(&b"k"));
    assert_eq!(command.on_reply(SwarmReply::Done).unwrap().err(), Some(Error::Behaviour(String::from(text))));
    let mut command = SendRequestCommand::new(PeerId::random(), String::from("hello"));
    let result: Option<Result<String, Error>> = command.on_reply(SwarmReply::Done);
    assert_eq!(result, Some(Err(Error::Behaviour(String::from(text)))));
}

#[test]
fn send_request_delivers_the_response() {
    let ids = request_ids(2);
    let peer = PeerId::random();
    let mut command = SendRequestCommand::new(peer, String::from("hello"));
    let start: Start<String, String, String, u32> = command.run();
    assert_eq!(
        start,
        Start::Call { call: SwarmCall::SendRequest { peer_id: peer, request: String::from("hello") } }
    );
    let result: Option<Result<String, Error>> = command.on_reply(SwarmReply::Request { id: ids[0] });
    assert_eq!(result, None);

    // another request to the same peer, and the same request of another peer
    let event: Event = SwarmEvent::Response { peer, request_id: ids[1], response: String::from("no") };
    let out = command.on_event(event);
    assert!(out.keep_active && !kept_for_itself(&out) && out.result.is_none());
    let event: Event =
        SwarmEvent::Response { peer: PeerId::random(), request_id: ids[0], response: String::from("no") };
    let out = command.on_event(event);
    assert!(out.keep_active && !kept_for_itself(&out) && out.result.is_none());

    let event: Event = SwarmEvent::Response { peer, request_id: ids[0], response: String::from("world") };
    let out = command.on_event(event);
    assert!(!out.keep_active && kept_for_itself(&out));
    assert_eq!(out.result, Some(Ok(String::from("world"))));
}

#[test]
fn send_request_fails_with_the_failure_of_the_request() {
    let ids = request_ids(1);
    let peer = PeerId::random();
    let mut command = SendRequestCommand::new(peer, String::from("hello"));
    let _: Start<String, String, String, u32> = command.run();
    let _: Option<Result<String, Error>> = command.on_reply(SwarmReply::Request { id: ids[0] });
    let event: Event =
        SwarmEvent::OutboundFailure { peer, request_id: ids[0], error: String::from("Timeout") };
    let out = command.on_event(event);
    assert!(!out.keep_active && kept_for_itself(&out));
    assert_eq!(out.result, Some(Err(Error::Behaviour(format!("Request to {peer} failed: Timeout")))));
}

#[test]
fn send_request_runs_once() {
    let mut command = SendRequestCommand::new(PeerId::random(), String::from("hello"));
    let _: Start<String, String, String, u32> = command.run();
    let again: Start<String, String, String, u32> = command.run();
    assert_eq!(
        again,
        Start::Finished {
            calls: vec![],
            result: Err(Error::Behaviour(String::from("SendRequest: run called twice")))
        }
    );
}

#[test]
fn send_response_goes_through_its_channel() {
    let mut command = SendResponseCommand::new(7u32, String::from("world"));
    let start: Start<(), String, String, u32> = command.run();
    assert_eq!(
        start,
        Start::Call { call: SwarmCall::SendResponse { channel: 7, response: String::from("world") } }
    );
    assert_eq!(command.on_reply(SwarmReply::Done), Some(Ok(())));
    assert_eq!(
        command.on_reply(SwarmReply::Failed { error: String::new() }),
        Some(Err(Error::Behaviour(String::from("Failed to send response: channel closed"))))
    );
    let again: Start<(), String, String, u32> = command.run();
    assert_eq!(
        again,
        Start::Finished {
            calls: vec![],
            result: Err(Error::Behaviour(String::from("SendResponse: run called twice")))
        }
    );
}

#[test]
fn a_provider_that_every_step_reports_is_delivered_once() {
    let ids = query_ids(1);
    let a = PeerId::random();
    let b = PeerId::random();
    let mut command = GetProvidersCommand::new(RecordKey::new(&b"/test/file/abc123"));
    command.on_reply(SwarmReply::Query { id: ids[0] });
    for (providers, last) in [(vec![a, a], false), (vec![b, a], false), (vec![a, b], true)] {
        let event = step(
            ids[0],
            QueryResult::GetProviders(Ok(GetProvidersOk::FoundProviders { providers })),
            stats(None, 1, 1, 0),
            last,
        );
        let out = command.on_event(event);
        if last {
            let result = out.result.unwrap().unwrap();
            assert_eq!(result.providers, vec![a, b]);
            assert_eq!(result.stats, stats(None, 3, 3, 0));
        } else {
            assert!(out.keep_active && out.result.is_none());
        }
    }
    assert!(command.providers.is_empty());
}
