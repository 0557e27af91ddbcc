//! The statistics that a query on the hash table delivers.
//!
//! Every step of a query reports what that step alone has cost. The command
//! keeps the running total, and what it delivers in the end is the total of
//! all steps. This file states that rule over whole runs of a command.
use vstd::prelude::*;
use crate::command::handler::Observed;
use crate::command::task::{Command, CommandOutput};
use crate::swarm::SwarmEvent;
use crate::util::{
    capped_sum, counted_in, is_longest, lemma_merged_all_is_sum, lemma_running_total_grows, merged_all,
    running_total, sum_failures, sum_requests, sum_successes, QueryStatsInfo,
};

verus! {

/// Whether `states` are the states that a command goes through while it sees
/// `events` one after the other: the first state is the command before the
/// first event, and each event leads from one state to the next.
pub open spec fn went_through<Req, Resp, Ch>(
    states: Seq<Command<Req, Resp, Ch>>,
    events: Seq<SwarmEvent<Req, Resp, Ch>>,
) -> bool {
    &&& states.len() == events.len() + 1
    &&& forall|i: int| 0 <= i < events.len() ==> (#[trigger] states[i]).after(events[i], states[i + 1])
}

/// What the steps of the command's query among `events` report, in order.
pub open spec fn reported<Req, Resp, Ch>(
    command: Command<Req, Resp, Ch>,
    events: Seq<SwarmEvent<Req, Resp, Ch>>,
) -> Seq<QueryStatsInfo>
    decreases events.len(),
{
    if events.len() == 0 {
        Seq::empty()
    } else if command.is_step(events.last()) {
        reported(command, events.drop_last()).push(events.last()->stats)
    } else {
        reported(command, events.drop_last())
    }
}

/// An event changes neither the kind of a command nor the query it has
/// running, and it changes the running total exactly if it is a step of that
/// query, by counting the step in.
pub proof fn lemma_step_is_counted_in<Req, Resp, Ch>(
    command: Command<Req, Resp, Ch>,
    event: SwarmEvent<Req, Resp, Ch>,
    then: Command<Req, Resp, Ch>,
)
    requires
        command.after(event, then),
    ensures
        forall|other: SwarmEvent<Req, Resp, Ch>| #[trigger] then.is_step(other) == command.is_step(other),
        then.stats() == if command.is_step(event) {
            Some(counted_in(command.stats(), event->stats))
        } else {
            command.stats()
        },
{
}

/// What a command delivers when the step `event` of its query ends it well
/// carries the running total with that step counted in.
pub proof fn lemma_delivers_running_total<Req, Resp, Ch>(
    command: Command<Req, Resp, Ch>,
    event: SwarmEvent<Req, Resp, Ch>,
    out: Observed<CommandOutput<Resp>, Req, Resp, Ch>,
)
    requires
        command.observed(event, out),
        out.result matches Some(Ok(_)),
        command.is_step(event),
    ensures
        out.result->0->Ok_0.stats() == Some(counted_in(command.stats(), event->stats)),
{
}

/// The statistics that a query delivers are the sum over all its steps.
///
/// A command that has counted nothing yet sees `events` one after the other,
/// and the last of them is a step of its query that ends it well. Then what
/// is delivered is all that the steps of the query among `events` have
/// reported, taken together: each counter is the sum of what the steps
/// report, as long as the sum fits a counter, and the duration is the longest
/// that a step reports.
pub proof fn lemma_delivered_stats_are_the_sum<Req, Resp, Ch>(
    states: Seq<Command<Req, Resp, Ch>>,
    events: Seq<SwarmEvent<Req, Resp, Ch>>,
    out: Observed<CommandOutput<Resp>, Req, Resp, Ch>,
)
    requires
        events.len() > 0,
        went_through(states, events),
        states[0].stats() is None,
        states[events.len() - 1].observed(events.last(), out),
        states[0].is_step(events.last()),
        out.result matches Some(Ok(_)),
    ensures
        ({
            let parts = reported(states[0], events);
            let delivered = out.result->0->Ok_0.stats();
            &&& delivered matches Some(total)
            &&& total == merged_all(parts)
            &&& total.num_requests == capped_sum(sum_requests(parts), 0)
            &&& total.num_successes == capped_sum(sum_successes(parts), 0)
            &&& total.num_failures == capped_sum(sum_failures(parts), 0)
            &&& is_longest(total.duration, parts)
        }),
{
    let front = events.drop_last();
    lemma_running_totals(states, events, events.len() - 1);
    assert(events.take(events.len() - 1) == front);
    let before = states[events.len() - 1];
    lemma_delivers_running_total(before, events.last(), out);
    lemma_running_total_grows(reported(states[0], front), events.last()->stats);
    lemma_merged_all_is_sum(reported(states[0], events));
}

/// After the first `n` of the events, the command's running total is all
/// that the steps of its query among them have reported, taken together.
proof fn lemma_running_totals<Req, Resp, Ch>(
    states: Seq<Command<Req, Resp, Ch>>,
    events: Seq<SwarmEvent<Req, Resp, Ch>>,
    n: int,
)
    requires
        went_through(states, events),
        states[0].stats() is None,
        0 <= n <= events.len(),
    ensures
        states[n].stats() == running_total(reported(states[0], events.take(n))),
        forall|other: SwarmEvent<Req, Resp, Ch>| #[trigger]
            states[n].is_step(other) == states[0].is_step(other),
    decreases n,
{
    if n > 0 {
        lemma_running_totals(states, events, n - 1);
        let before = states[n - 1];
        let event = events[n - 1];
        assert(before.after(event, states[n - 1 + 1]));
        lemma_step_is_counted_in(before, event, states[n]);
        assert(events.take(n).drop_last() == events.take(n - 1));
        assert(events.take(n).last() == event);
        if states[0].is_step(event) {
            assert(before.is_step(event));
            lemma_running_total_grows(reported(states[0], events.take(n - 1)), event->stats);
        }
    } else {
        assert(events.take(0) =~= Seq::<SwarmEvent<Req, Resp, Ch>>::empty());
    }
}

} // verus!
