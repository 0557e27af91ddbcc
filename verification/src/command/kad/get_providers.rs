//! Looking up the peers that provide a key.
use vstd::prelude::*;
use libp2p::PeerId;
use libp2p::kad::{QueryId, RecordKey};
use crate::command::handler::{fails_with, no_answer, unanswered, Observed, Start};
use crate::error::{Error, ErrorKind};
use crate::peer::{join_peers, joined, lemma_joined};
use crate::swarm::{is_query, GetProvidersOk, QueryResult, SwarmCall, SwarmEvent, SwarmReply};
use crate::util::{counted_in, merge_stats, QueryStatsInfo};

verus! {

/// What a lookup of providers brings.
#[derive(Debug, PartialEq)]
pub struct GetProvidersResult {
    /// The providers that were found, each once, in the order in which they
    /// were first reported.
    pub providers: Vec<PeerId>,
    /// How the query went, all its steps taken together.
    pub stats: QueryStatsInfo,
}

/// The command that looks up the providers of a key.
pub struct GetProvidersCommand {
    /// The key whose providers are looked up.
    pub key: RecordKey,
    /// The query, once the hash table has issued it.
    pub query_id: Option<QueryId>,
    /// The providers found so far, each once.
    pub providers: Vec<PeerId>,
    /// The statistics of the steps so far, taken together.
    pub stats: Option<QueryStatsInfo>,
}

impl GetProvidersCommand {
    /// Whether `event` is a step of this command's query.
    pub open spec fn is_step<Req, Resp, Ch>(self, event: SwarmEvent<Req, Resp, Ch>) -> bool {
        &&& event matches SwarmEvent::KadQueryProgressed { id, result, .. }
        &&& result is GetProviders
        &&& self.query_id == Some(id)
    }

    /// Whether the command goes on after `event`: it does unless the event
    /// is a failed step of its query or the last one.
    pub open spec fn keeps<Req, Resp, Ch>(self, event: SwarmEvent<Req, Resp, Ch>) -> bool {
        self.is_step(event) ==> event->KadQueryProgressed_result->GetProviders_0 is Ok
            && !event->last
    }

    /// The providers that the step `event` reports. The peers that are
    /// merely close to the key, which the end of a lookup names, are none.
    pub open spec fn reported_by<Req, Resp, Ch>(event: SwarmEvent<Req, Resp, Ch>) -> Seq<PeerId> {
        match event->KadQueryProgressed_result {
            QueryResult::GetProviders(Ok(GetProvidersOk::FoundProviders { providers })) => providers@,
            _ => Seq::empty(),
        }
    }

    /// The providers found once the step `event` is counted in: those held
    /// before, and behind them those that the step reports and that were not
    /// held yet, each once.
    pub open spec fn providers_with<Req, Resp, Ch>(self, event: SwarmEvent<Req, Resp, Ch>) -> Seq<
        PeerId,
    > {
        joined(self.providers@, Self::reported_by(event))
    }

    /// Whether the command holds no provider twice.
    pub open spec fn is_set(self) -> bool {
        self.providers@.no_duplicates()
    }

    /// Whether `then` is the command as it is after it has seen `event`: a
    /// step of its query is counted in, and any other event changes nothing.
    pub open spec fn after<Req, Resp, Ch>(self, event: SwarmEvent<Req, Resp, Ch>, then: Self) -> bool {
        if self.is_step(event) {
            &&& then.key == self.key
            &&& then.query_id == self.query_id
            &&& then.stats == Some(counted_in(self.stats, event->stats))
            &&& then.providers@ == if self.keeps(event) {
                self.providers_with(event)
            } else if event->KadQueryProgressed_result->GetProviders_0 is Ok {
                Seq::empty()
            } else {
                self.providers@
            }
        } else {
            then == self
        }
    }

    /// Whether `out` is what the command makes of `event`.
    ///
    /// An event that is no step of its query is left to others. A step is
    /// kept: a failed step ends the command with that failure, the last step
    /// ends it with the set of providers found, any other step is counted in
    /// and the command goes on.
    pub open spec fn observed<Req, Resp, Ch>(
        self,
        event: SwarmEvent<Req, Resp, Ch>,
        out: Observed<GetProvidersResult, Req, Resp, Ch>,
    ) -> bool {
        &&& out.keep_active == self.keeps(event)
        &&& out.remaining == if self.is_step(event) {
            None
        } else {
            Some(event)
        }
        &&& if self.keeps(event) {
            out.result is None
        } else {
            match event->KadQueryProgressed_result->GetProviders_0 {
                Err(cause) => fails_with(out.result, ErrorKind::KadGetProviders, cause@),
                Ok(_) => {
                    &&& out.result matches Some(Ok(found))
                    &&& found.providers@ == self.providers_with(event)
                    &&& self.is_set() ==> found.providers@.no_duplicates()
                    &&& found.stats == counted_in(self.stats, event->stats)
                },
            }
        }
    }

    /// A command that looks up the providers of `key`.
    pub fn new(key: RecordKey) -> (command: Self)
        ensures
            command.key == key,
            command.query_id is None,
            command.providers@ == Seq::<PeerId>::empty(),
            command.stats is None,
            command.is_set(),
    {
        GetProvidersCommand { key, query_id: None, providers: Vec::new(), stats: None }
    }

    /// Whether `start` is the command's first turn and `then` the command
    /// after it: the command names one call, and is itself unchanged.
    pub open spec fn started<Req, Resp, Ch>(
        self,
        start: Start<GetProvidersResult, Req, Resp, Ch>,
        then: Self,
    ) -> bool {
        &&& start == (Start::<GetProvidersResult, Req, Resp, Ch>::Call {
            call: SwarmCall::KadGetProviders { key: self.key },
        })
        &&& then == self
    }

    /// The command's first turn: it asks the hash table to start the lookup.
    pub fn run<Req, Resp, Ch>(&mut self) -> (start: Start<GetProvidersResult, Req, Resp, Ch>)
        ensures
            old(self).started(start, *final(self)),
    {
        Start::Call { call: SwarmCall::KadGetProviders { key: self.key.clone() } }
    }

    /// Whether `result` is what the command makes of the answer `reply` to
    /// the call of its first turn, and `then` the command after it.
    pub open spec fn replied(
        self,
        reply: SwarmReply,
        result: Option<Result<GetProvidersResult, Error>>,
        then: Self,
    ) -> bool {
        match reply {
            SwarmReply::Query { id } => {
                &&& result is None
                &&& then == (GetProvidersCommand { query_id: Some(id), ..self })
            },
            _ => {
                &&& fails_with(result, ErrorKind::Behaviour, no_answer())
                &&& then == self
            },
        }
    }

    /// Takes the hash table's answer to the call of the first turn. The
    /// identifier of the query is kept, and its steps are known by it from
    /// then on. Any other answer ends the command with a failure.
    pub fn on_reply(&mut self, reply: SwarmReply) -> (result: Option<Result<GetProvidersResult, Error>>)
        ensures
            old(self).replied(reply, result, *final(self)),
    {
        match reply {
            SwarmReply::Query { id } => {
                self.query_id = Some(id);
                None
            },
            _ => unanswered(),
        }
    }

    /// Tests whether `event` is a step of this command's query.
    fn is_own_step<Req, Resp, Ch>(&self, event: &SwarmEvent<Req, Resp, Ch>) -> (own: bool)
        ensures
            own == self.is_step(*event),
    {
        match event {
            SwarmEvent::KadQueryProgressed { id, result: QueryResult::GetProviders(_), .. } => is_query(
                &self.query_id,
                id,
            ),
            _ => false,
        }
    }

    /// Shows the command an event of the network stack.
    pub fn on_event<Req, Resp, Ch>(&mut self, event: SwarmEvent<Req, Resp, Ch>) -> (out: Observed<
        GetProvidersResult,
        Req,
        Resp,
        Ch,
    >)
        ensures
            old(self).observed(event, out),
            old(self).after(event, *final(self)),
            old(self).is_set() ==> final(self).is_set(),
            out.result matches Some(Ok(found)) ==> forall|peer: PeerId| #[trigger]
                found.providers@.contains(peer) <==> (old(self).providers@.contains(peer)
                    || Self::reported_by(event).contains(peer)),
    {
        proof {
            lemma_joined(self.providers@, Self::reported_by(event));
        }
        if !self.is_own_step(&event) {
            return Observed { keep_active: true, remaining: Some(event), result: None };
        }
        match event {
            SwarmEvent::KadQueryProgressed { id, result: QueryResult::GetProviders(res), stats, last } => {
                merge_stats(&mut self.stats, stats);
                match res {
                    Ok(GetProvidersOk::FoundProviders { providers }) => {
                        join_peers(&mut self.providers, &providers);
                    },
                    Ok(GetProvidersOk::FinishedWithNoAdditionalRecord { closest_peers }) => {},
                    Err(cause) => {
                        return Observed {
                            keep_active: false,
                            remaining: None,
                            result: Some(Err(Error::KadGetProviders(cause))),
                        };
                    },
                }
                if !last {
                    return Observed { keep_active: true, remaining: None, result: None };
                }
                let stats = match self.stats {
                    Some(total) => total,
                    None => QueryStatsInfo::default(),
                };
                let mut providers: Vec<PeerId> = Vec::new();
                std::mem::swap(&mut providers, &mut self.providers);
                Observed {
                    keep_active: false,
                    remaining: None,
                    result: Some(Ok(GetProvidersResult { providers, stats })),
                }
            },
            other => Observed { keep_active: true, remaining: Some(other), result: None },
        }
    }
}

/// Whether `states` are the states that a lookup goes through while it sees
/// `events` one after the other and stays among the running commands until
/// the last of them.
pub open spec fn looked_up<Req, Resp, Ch>(
    states: Seq<GetProvidersCommand>,
    events: Seq<SwarmEvent<Req, Resp, Ch>>,
) -> bool {
    &&& states.len() == events.len() + 1
    &&& forall|i: int| 0 <= i < events.len() ==> (#[trigger] states[i]).after(events[i], states[i + 1])
    &&& forall|i: int| 0 <= i < events.len() - 1 ==> (#[trigger] states[i]).keeps(events[i])
}

/// All providers that the steps of the command's query among `events`
/// report, in the order of the steps.
pub open spec fn all_reported<Req, Resp, Ch>(
    command: GetProvidersCommand,
    events: Seq<SwarmEvent<Req, Resp, Ch>>,
) -> Seq<PeerId>
    decreases events.len(),
{
    if events.len() == 0 {
        Seq::empty()
    } else if command.is_step(events.last()) {
        all_reported(command, events.drop_last()) + GetProvidersCommand::reported_by(events.last())
    } else {
        all_reported(command, events.drop_last())
    }
}

/// A lookup delivers the set of the providers that its steps have reported.
///
/// A command that holds no provider yet sees `events` one after the other,
/// and the last of them ends it well. Then what it delivers holds every peer
/// that a step of its query has reported as a provider, no other peer, and no
/// peer twice, however many steps have reported it.
pub proof fn lemma_providers_are_a_set<Req, Resp, Ch>(
    states: Seq<GetProvidersCommand>,
    events: Seq<SwarmEvent<Req, Resp, Ch>>,
    out: Observed<GetProvidersResult, Req, Resp, Ch>,
)
    requires
        events.len() > 0,
        looked_up(states, events),
        states[0].providers@.len() == 0,
        states[events.len() - 1].observed(events.last(), out),
        out.result matches Some(Ok(_)),
    ensures
        out.result->0->Ok_0.providers@.no_duplicates(),
        forall|peer: PeerId| #[trigger]
            out.result->0->Ok_0.providers@.contains(peer) <==> all_reported(states[0], events).contains(
                peer,
            ),
{
    let n = events.len() - 1;
    let before = states[n];
    let found = out.result->0->Ok_0.providers@;
    let step = GetProvidersCommand::reported_by(events.last());
    lemma_held_so_far(states, events, n);
    assert(events.take(n) == events.drop_last());
    lemma_joined(before.providers@, step);
    assert(before.is_step(events.last()));
    assert(states[0].is_step(events.last()));
    let earlier = all_reported(states[0], events.drop_last());
    assert forall|peer: PeerId| #[trigger] found.contains(peer) <==> all_reported(
        states[0],
        events,
    ).contains(peer) by {
        lemma_contains_in_either(earlier, step, peer);
    }
}

/// After the first `n` of the events, the command holds the set of the
/// providers that the steps among them have reported.
proof fn lemma_held_so_far<Req, Resp, Ch>(
    states: Seq<GetProvidersCommand>,
    events: Seq<SwarmEvent<Req, Resp, Ch>>,
    n: int,
)
    requires
        looked_up(states, events),
        states[0].providers@.len() == 0,
        0 <= n < events.len(),
    ensures
        states[n].query_id == states[0].query_id,
        states[n].is_set(),
        forall|peer: PeerId| #[trigger]
            states[n].providers@.contains(peer) <==> all_reported(states[0], events.take(n)).contains(
                peer,
            ),
    decreases n,
{
    if n > 0 {
        lemma_held_so_far(states, events, n - 1);
        let before = states[n - 1];
        let event = events[n - 1];
        let step = GetProvidersCommand::reported_by(event);
        assert(before.after(event, states[n - 1 + 1]));
        assert(before.keeps(event));
        assert(events.take(n).drop_last() == events.take(n - 1));
        assert(events.take(n).last() == event);
        lemma_joined(before.providers@, step);
        let earlier = all_reported(states[0], events.take(n - 1));
        if states[0].is_step(event) {
            assert(before.is_step(event));
            assert forall|peer: PeerId| #[trigger] states[n].providers@.contains(peer)
                <==> all_reported(states[0], events.take(n)).contains(peer) by {
                lemma_contains_in_either(earlier, step, peer);
            }
        } else {
            assert(!before.is_step(event));
        }
    } else {
        assert(events.take(0) =~= Seq::<SwarmEvent<Req, Resp, Ch>>::empty());
    }
}

/// A peer is in two lists put together exactly if it is in one of them.
proof fn lemma_contains_in_either(a: Seq<PeerId>, b: Seq<PeerId>, peer: PeerId)
    ensures
        (a + b).contains(peer) <==> (a.contains(peer) || b.contains(peer)),
{
    if a.contains(peer) {
        let i = choose|i: int| 0 <= i < a.len() && a[i] == peer;
        assert((a + b)[i] == peer);
    }
    if b.contains(peer) {
        let i = choose|i: int| 0 <= i < b.len() && b[i] == peer;
        assert((a + b)[a.len() + i] == peer);
    }
    if (a + b).contains(peer) {
        let i = choose|i: int| 0 <= i < (a + b).len() && (a + b)[i] == peer;
        if i < a.len() {
            assert(a[i] == peer);
        } else {
            assert(b[i - a.len()] == peer);
        }
    }
}

} // verus!
