use swarm_p2p_core::client::req_resp::decimal;
use swarm_p2p_core::client::send_response;
use swarm_p2p_core::pending_map::SWEEP_INTERVAL_SECS;
use swarm_p2p_core::{ErrorKind, PendingMap, TimeSpan};

#[test]
fn insert_and_take() {
    let mut map = PendingMap::new(TimeSpan::from_secs(60));
    let now = TimeSpan::from_secs(0);
    map.insert(1u64, "hello", now);
    map.insert(2, "world", now);

    assert_eq!(map.len(), 2);
    assert_eq!(map.take(1), Some("hello"));
    assert_eq!(map.len(), 1);
    assert_eq!(map.take(1), None);
}

#[test]
fn take_nonexistent_returns_none() {
    let mut map = PendingMap::<String>::new(TimeSpan::from_secs(60));
    assert_eq!(map.take(999), None);
    assert!(map.is_empty());
}

#[test]
fn ttl_expiry_cleans_up() {
    let mut map = PendingMap::new(TimeSpan::from_millis(1));
    map.insert(1u64, "ephemeral", TimeSpan::from_secs(0));
    assert_eq!(map.len(), 1);

    map.sweep(TimeSpan::from_millis(50));

    assert!(map.is_empty(), "expired entry should be cleaned up");
}

#[test]
fn non_expired_entries_survive_cleanup() {
    let mut map = PendingMap::new(TimeSpan::from_secs(60));
    map.insert(1u64, "durable", TimeSpan::from_secs(0));

    map.sweep(TimeSpan::from_secs(0));

    assert_eq!(map.len(), 1);
    assert_eq!(map.take(1), Some("durable"));
}

#[test]
fn sweep_drops_exactly_the_old() {
    let ttl = TimeSpan::from_secs(30);
    let mut map = PendingMap::new(ttl);
    assert_eq!(map.ttl(), ttl);
    map.insert(1, "first", TimeSpan::from_secs(0));
    map.insert(2, "second", TimeSpan::from_secs(10));
    map.insert(3, "third", TimeSpan::from_secs(20));

    // the moment at which the first entry has waited for thirty seconds
    map.sweep(TimeSpan::from_secs(30));
    assert_eq!(map.len(), 3);

    // one nanosecond later
    map.sweep(TimeSpan { nanos: 30_000_000_001 });
    assert_eq!(map.len(), 2);
    assert!(!map.contains(1));
    assert!(map.contains(2));
    assert!(map.contains(3));

    map.sweep(TimeSpan::from_secs(45));
    assert_eq!(map.len(), 1);
    assert_eq!(map.take(3), Some("third"));
    assert!(map.is_empty());
}

#[test]
fn sweep_before_the_entry_was_made_keeps_it() {
    let mut map = PendingMap::new(TimeSpan::from_secs(1));
    map.insert(7, 70u32, TimeSpan::from_secs(100));
    map.sweep(TimeSpan::from_secs(5));
    assert_eq!(map.take(7), Some(70));
}

#[test]
fn no_time_to_live_drops_what_has_waited_at_all() {
    let mut map = PendingMap::new(TimeSpan { nanos: 0 });
    map.insert(7, 70u32, TimeSpan::from_secs(100));
    map.sweep(TimeSpan::from_secs(100));
    assert_eq!(map.len(), 1);
    map.sweep(TimeSpan { nanos: 100_000_000_001 });
    assert!(map.is_empty());
}

#[test]
fn insert_replaces_what_was_there() {
    let mut map = PendingMap::new(TimeSpan::from_secs(10));
    map.insert(4, "old", TimeSpan::from_secs(0));
    map.insert(4, "new", TimeSpan::from_secs(8));
    assert_eq!(map.len(), 1);
    map.sweep(TimeSpan::from_secs(12));
    assert_eq!(map.take(4), Some("new"));
}

#[test]
fn sweeps_come_every_ten_seconds() {
    assert_eq!(SWEEP_INTERVAL_SECS, 10);
}

#[test]
fn response_within_the_time_to_live_finds_its_channel() {
    let mut map = PendingMap::new(TimeSpan::from_secs(60));
    map.insert(0, "channel", TimeSpan::from_secs(100));
    map.sweep(TimeSpan::from_secs(110));
    map.sweep(TimeSpan::from_secs(160));
    let command = send_response(&mut map, 0, String::from("world"), TimeSpan::from_secs(160)).unwrap();
    assert_eq!(command.channel, Some("channel"));
    assert_eq!(command.response, Some(String::from("world")));
    assert!(!map.contains(0));
    assert_eq!(map.len(), 0);
}

#[test]
fn response_after_the_time_to_live_fails() {
    let mut map = PendingMap::new(TimeSpan::from_secs(60));
    map.insert(0, "channel", TimeSpan::from_secs(100));
    map.sweep(TimeSpan::from_secs(161));
    let error =
        send_response(&mut map, 0, String::from("world"), TimeSpan::from_secs(161)).err().unwrap();
    assert_eq!(error.kind(), ErrorKind::Behaviour);
    assert_eq!(
        error.message(),
        "Behaviour error: No pending channel for pending_id=0 (expired or already responded)"
    );
    assert_eq!(map.len(), 0);
}

#[test]
fn second_response_fails() {
    let mut map = PendingMap::new(TimeSpan::from_secs(60));
    map.insert(18_446_744_073_709_551_615, 1u8, TimeSpan::from_secs(0));
    map.insert(1204, 2u8, TimeSpan::from_secs(0));
    let now = TimeSpan::from_secs(1);
    assert!(send_response(&mut map, 1204, (), now).is_ok());
    let error = send_response(&mut map, 1204, (), now).err().unwrap();
    assert_eq!(
        error.message(),
        "Behaviour error: No pending channel for pending_id=1204 (expired or already responded)"
    );
    assert!(send_response(&mut map, 18_446_744_073_709_551_615, (), now).is_ok());
    let error = send_response(&mut map, 18_446_744_073_709_551_615, (), now).err().unwrap();
    assert_eq!(
        error.message(),
        "Behaviour error: No pending channel for pending_id=18446744073709551615 (expired or already responded)"
    );
}

#[test]
fn decimal_writes_numbers() {
    assert_eq!(decimal(0), "0");
    assert_eq!(decimal(9), "9");
    assert_eq!(decimal(10), "10");
    assert_eq!(decimal(1234567890), "1234567890");
    assert_eq!(decimal(u64::MAX), "18446744073709551615");
}

#[test]
fn response_after_the_time_to_live_fails_without_a_sweep() {
    let mut map = PendingMap::new(TimeSpan::from_secs(60));
    map.insert(0, "late", TimeSpan::from_secs(100));
    map.insert(1, "other", TimeSpan::from_secs(150));
    // no sweep has come, and the entry is still in the store
    assert!(map.contains(0));
    let now = TimeSpan { nanos: 160_000_000_001 };
    let error = send_response(&mut map, 0, String::from("world"), now).err().unwrap();
    assert_eq!(
        error.message(),
        "Behaviour error: No pending channel for pending_id=0 (expired or already responded)"
    );
    // the entry is gone, and the other entry is as it was
    assert!(!map.contains(0));
    assert_eq!(map.len(), 1);
    let command = send_response(&mut map, 1, String::from("world"), now).unwrap();
    assert_eq!(command.channel, Some("other"));
}

#[test]
fn response_at_the_end_of_the_time_to_live_still_goes_out() {
    let mut map = PendingMap::new(TimeSpan::from_secs(60));
    map.insert(0, "channel", TimeSpan::from_secs(100));
    assert!(send_response(&mut map, 0, (), TimeSpan::from_secs(160)).is_ok());
    // an identifier that was never given
    let error = send_response(&mut map, 77, (), TimeSpan::from_secs(160)).err().unwrap();
    assert_eq!(
        error.message(),
        "Behaviour error: No pending channel for pending_id=77 (expired or already responded)"
    );
}

#[test]
fn take_alive_hands_on_only_what_is_young() {
    let mut map = PendingMap::new(TimeSpan::from_secs(10));
    map.insert(1, "young", TimeSpan::from_secs(5));
    map.insert(2, "old", TimeSpan::from_secs(0));
    assert_eq!(map.take_alive(1, TimeSpan::from_secs(11)), Some("young"));
    assert_eq!(map.take_alive(2, TimeSpan::from_secs(11)), None);
    assert_eq!(map.take_alive(3, TimeSpan::from_secs(11)), None);
    assert!(map.is_empty());
}
