//! Statistics of a query on the distributed hash table.
use vstd::prelude::*;
use libp2p::kad::QueryStats;
use crate::time::TimeSpan;

verus! {

/// The network stack's record of how a query went.
#[verifier::external_type_specification]
#[verifier::external_body]
pub struct ExQueryStats(libp2p::kad::QueryStats);

/// The number of requests that a query's record counts.
pub uninterp spec fn stats_requests(stats: QueryStats) -> u32;

/// The number of answered requests that a query's record counts.
pub uninterp spec fn stats_successes(stats: QueryStats) -> u32;

/// The number of failed requests that a query's record counts.
pub uninterp spec fn stats_failures(stats: QueryStats) -> u32;

/// `QueryStats::num_requests`, which reads the counter of requests.
#[verifier::external_body]
fn num_requests(stats: &QueryStats) -> (n: u32)
    ensures
        n == stats_requests(*stats),
{
    stats.num_requests()
}

/// `QueryStats::num_successes`, which reads the counter of answers.
#[verifier::external_body]
fn num_successes(stats: &QueryStats) -> (n: u32)
    ensures
        n == stats_successes(*stats),
{
    stats.num_successes()
}

/// `QueryStats::num_failures`, which reads the counter of failures.
#[verifier::external_body]
fn num_failures(stats: &QueryStats) -> (n: u32)
    ensures
        n == stats_failures(*stats),
{
    stats.num_failures()
}

/// `QueryStats::duration`. Of a query that has not ended it reads the clock,
/// so nothing is claimed of the span.
#[verifier::external_body]
fn duration(stats: &QueryStats) -> (span: Option<TimeSpan>) {
    stats.duration().map(|d| TimeSpan { nanos: d.as_nanos() })
}

/// How a query went: how long it took and how its requests fared.
#[derive(Clone, Copy, Debug, PartialEq, Eq)]
pub struct QueryStatsInfo {
    /// How long the query took, once it has started.
    pub duration: Option<TimeSpan>,
    /// The number of requests sent.
    pub num_requests: u32,
    /// The number of requests that were answered.
    pub num_successes: u32,
    /// The number of requests that failed.
    pub num_failures: u32,
}

/// The sum of two counters, held at the largest value a counter can take.
pub open spec fn capped_sum(a: int, b: int) -> int {
    if a + b > u32::MAX {
        u32::MAX as int
    } else {
        a + b
    }
}

/// The longer of two spans, where one that is absent counts as shorter than
/// any that is present.
pub open spec fn longer(a: Option<TimeSpan>, b: Option<TimeSpan>) -> Option<TimeSpan> {
    match (a, b) {
        (Some(x), Some(y)) => if x.nanos >= y.nanos {
            Some(x)
        } else {
            Some(y)
        },
        (Some(x), None) => Some(x),
        (None, y) => y,
    }
}

/// The statistics of a query with nothing counted.
pub open spec fn no_stats() -> QueryStatsInfo {
    QueryStatsInfo { duration: None, num_requests: 0, num_successes: 0, num_failures: 0 }
}

/// The statistics of two parts of a query taken together: the counters are
/// added, and the duration is the longer of the two.
pub open spec fn merged(a: QueryStatsInfo, b: QueryStatsInfo) -> QueryStatsInfo {
    QueryStatsInfo {
        duration: longer(a.duration, b.duration),
        num_requests: capped_sum(a.num_requests as int, b.num_requests as int) as u32,
        num_successes: capped_sum(a.num_successes as int, b.num_successes as int) as u32,
        num_failures: capped_sum(a.num_failures as int, b.num_failures as int) as u32,
    }
}

/// The statistics of all the parts of a query taken together, from the first
/// part on.
pub open spec fn merged_all(parts: Seq<QueryStatsInfo>) -> QueryStatsInfo
    decreases parts.len(),
{
    if parts.len() == 0 {
        no_stats()
    } else {
        merged(merged_all(parts.drop_last()), parts.last())
    }
}

/// The running total that a command keeps: nothing before the first part,
/// afterwards all parts taken together.
pub open spec fn running_total(parts: Seq<QueryStatsInfo>) -> Option<QueryStatsInfo> {
    if parts.len() == 0 {
        None
    } else {
        Some(merged_all(parts))
    }
}

/// Counting a part into the running total of some parts gives the running
/// total of those parts and the new one.
pub proof fn lemma_running_total_grows(parts: Seq<QueryStatsInfo>, part: QueryStatsInfo)
    ensures
        Some(counted_in(running_total(parts), part)) == running_total(parts.push(part)),
{
    assert(parts.push(part).drop_last() == parts);
    if parts.len() == 0 {
        assert(merged_all(parts) == no_stats());
    }
}

/// The sum of the requests that the parts count.
pub open spec fn sum_requests(parts: Seq<QueryStatsInfo>) -> int
    decreases parts.len(),
{
    if parts.len() == 0 {
        0
    } else {
        sum_requests(parts.drop_last()) + parts.last().num_requests
    }
}

/// The sum of the answered requests that the parts count.
pub open spec fn sum_successes(parts: Seq<QueryStatsInfo>) -> int
    decreases parts.len(),
{
    if parts.len() == 0 {
        0
    } else {
        sum_successes(parts.drop_last()) + parts.last().num_successes
    }
}

/// The sum of the failed requests that the parts count.
pub open spec fn sum_failures(parts: Seq<QueryStatsInfo>) -> int
    decreases parts.len(),
{
    if parts.len() == 0 {
        0
    } else {
        sum_failures(parts.drop_last()) + parts.last().num_failures
    }
}

/// Whether the duration of `part`, if it has one, is at most `span`.
pub open spec fn no_longer_than(part: QueryStatsInfo, span: TimeSpan) -> bool {
    part.duration matches Some(e) ==> e.nanos <= span.nanos
}

/// Whether `span` is the longest duration among the parts: absent where none
/// of them has one, else present in one of them and no shorter than any.
pub open spec fn is_longest(span: Option<TimeSpan>, parts: Seq<QueryStatsInfo>) -> bool {
    match span {
        None => forall|i: int| 0 <= i < parts.len() ==> parts[i].duration is None,
        Some(d) => {
            &&& exists|i: int| 0 <= i < parts.len() && parts[i].duration == Some(d)
            &&& forall|i: int| 0 <= i < parts.len() ==> no_longer_than(#[trigger] parts[i], d)
        },
    }
}

/// Taking statistics together is adding them up: each counter of the total is
/// the sum of that counter over all parts, as long as the sum fits a counter,
/// and the duration of the total is the longest among the parts.
pub proof fn lemma_merged_all_is_sum(parts: Seq<QueryStatsInfo>)
    ensures
        merged_all(parts).num_requests == capped_sum(sum_requests(parts), 0),
        merged_all(parts).num_successes == capped_sum(sum_successes(parts), 0),
        merged_all(parts).num_failures == capped_sum(sum_failures(parts), 0),
        sum_requests(parts) >= 0,
        sum_successes(parts) >= 0,
        sum_failures(parts) >= 0,
        is_longest(merged_all(parts).duration, parts),
    decreases parts.len(),
{
    if parts.len() > 0 {
        let front = parts.drop_last();
        lemma_merged_all_is_sum(front);
        let total = merged_all(parts).duration;
        let before = merged_all(front).duration;
        assert forall|i: int| 0 <= i < front.len() implies front[i] == parts[i] by {}
        match total {
            None => {
                assert forall|i: int| 0 <= i < parts.len() implies parts[i].duration is None by {
                    if i < front.len() {
                        assert(front[i] == parts[i]);
                    }
                }
            },
            Some(d) => {
                if before == Some(d) {
                    let i = choose|i: int| 0 <= i < front.len() && front[i].duration == Some(d);
                    assert(parts[i].duration == Some(d));
                } else {
                    assert(parts[parts.len() - 1].duration == Some(d));
                }
                assert forall|i: int| 0 <= i < parts.len() implies no_longer_than(
                    #[trigger] parts[i],
                    d,
                ) by {
                    if i < front.len() {
                        assert(front[i] == parts[i]);
                    }
                }
            },
        }
    }
}

/// The order in which the parts of a query are taken together does not
/// matter, nor does the way they are grouped.
pub proof fn lemma_merged_laws(a: QueryStatsInfo, b: QueryStatsInfo, c: QueryStatsInfo)
    ensures
        merged(a, b) == merged(b, a),
        merged(merged(a, b), c).num_requests == merged(a, merged(b, c)).num_requests,
        merged(merged(a, b), c).num_successes == merged(a, merged(b, c)).num_successes,
        merged(merged(a, b), c).num_failures == merged(a, merged(b, c)).num_failures,
        merged(merged(a, b), c).duration == merged(a, merged(b, c)).duration,
        merged(no_stats(), a) == a,
        merged(a, no_stats()) == a,
{
}

impl QueryStatsInfo {
    /// Reads the statistics out of the network stack's record.
    pub fn from_query_stats(value: &QueryStats) -> (info: QueryStatsInfo)
        ensures
            info.num_requests == stats_requests(*value),
            info.num_successes == stats_successes(*value),
            info.num_failures == stats_failures(*value),
    {
        QueryStatsInfo {
            duration: duration(value),
            num_requests: num_requests(value),
            num_successes: num_successes(value),
            num_failures: num_failures(value),
        }
    }

    /// Takes the statistics of two parts of a query together.
    pub fn merge(self, other: QueryStatsInfo) -> (total: QueryStatsInfo)
        ensures
            total == merged(self, other),
    {
        let duration = match (self.duration, other.duration) {
            (Some(x), Some(y)) => if x.nanos >= y.nanos {
                Some(x)
            } else {
                Some(y)
            },
            (Some(x), None) => Some(x),
            (None, y) => y,
        };
        QueryStatsInfo {
            duration,
            num_requests: self.num_requests.saturating_add(other.num_requests),
            num_successes: self.num_successes.saturating_add(other.num_successes),
            num_failures: self.num_failures.saturating_add(other.num_failures),
        }
    }
}

impl Default for QueryStatsInfo {
    fn default() -> (info: QueryStatsInfo)
        ensures
            info == no_stats(),
    {
        QueryStatsInfo { duration: None, num_requests: 0, num_successes: 0, num_failures: 0 }
    }
}

/// The running total of a query once one more part is counted in.
pub open spec fn counted_in(total: Option<QueryStatsInfo>, part: QueryStatsInfo) -> QueryStatsInfo {
    match total {
        Some(total) => merged(total, part),
        None => part,
    }
}

/// Counts one more part into the running total of a query.
pub fn merge_stats(existing: &mut Option<QueryStatsInfo>, incoming: QueryStatsInfo)
    ensures
        *final(existing) == Some(counted_in(*old(existing), incoming)),
{
    let total = match *existing {
        Some(total) => total.merge(incoming),
        None => incoming,
    };
    *existing = Some(total);
}

} // verus!
