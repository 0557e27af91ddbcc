use swarm_p2p_core::libp2p::kad::QueryStats;
use swarm_p2p_core::util::merge_stats;
use swarm_p2p_core::{QueryStatsInfo, TimeSpan};

fn stats(millis: Option<u64>, requests: u32, successes: u32, failures: u32) -> QueryStatsInfo {
    QueryStatsInfo {
        duration: millis.map(TimeSpan::from_millis),
        num_requests: requests,
        num_successes: successes,
        num_failures: failures,
    }
}

#[test]
fn merge_adds_counters_and_takes_the_longer_duration() {
    let total = stats(Some(120), 5, 3, 2).merge(stats(Some(80), 7, 6, 1));
    assert_eq!(total, stats(Some(120), 12, 9, 3));
    let total = stats(Some(80), 7, 6, 1).merge(stats(Some(120), 5, 3, 2));
    assert_eq!(total, stats(Some(120), 12, 9, 3));
}

#[test]
fn merge_with_a_part_that_has_not_started() {
    assert_eq!(stats(None, 1, 0, 0).merge(stats(Some(5), 2, 1, 1)), stats(Some(5), 3, 1, 1));
    assert_eq!(stats(Some(5), 2, 1, 1).merge(stats(None, 1, 0, 0)), stats(Some(5), 3, 1, 1));
    assert_eq!(stats(None, 1, 0, 0).merge(stats(None, 0, 0, 0)), stats(None, 1, 0, 0));
}

#[test]
fn merge_holds_counters_at_their_limit() {
    let total = stats(None, u32::MAX - 1, 10, u32::MAX).merge(stats(None, 5, 20, 1));
    assert_eq!(total, stats(None, u32::MAX, 30, u32::MAX));
}

#[test]
fn default_counts_nothing() {
    assert_eq!(QueryStatsInfo::default(), stats(None, 0, 0, 0));
    assert_eq!(QueryStatsInfo::default().merge(stats(Some(3), 4, 5, 6)), stats(Some(3), 4, 5, 6));
}

#[test]
fn running_total_is_the_sum_of_all_parts() {
    let parts = [stats(Some(10), 3, 2, 1), stats(None, 4, 4, 0), stats(Some(30), 1, 0, 1), stats(Some(20), 2, 2, 0)];
    let mut total: Option<QueryStatsInfo> = None;
    for part in parts {
        merge_stats(&mut total, part);
    }
    assert_eq!(total, Some(stats(Some(30), 10, 8, 2)));
}

#[test]
fn first_part_is_the_running_total() {
    let mut total: Option<QueryStatsInfo> = None;
    merge_stats(&mut total, stats(Some(10), 3, 2, 1));
    assert_eq!(total, Some(stats(Some(10), 3, 2, 1)));
}

#[test]
fn reads_the_counters_of_the_network_stack() {
    let empty = QueryStats::empty();
    let info = QueryStatsInfo::from_query_stats(&empty);
    assert_eq!(info, stats(None, 0, 0, 0));
    let merged = QueryStatsInfo::from_query_stats(&empty.merge(QueryStats::empty()));
    assert_eq!(merged.num_requests, 0);
    assert_eq!(merged.duration, None);
}
