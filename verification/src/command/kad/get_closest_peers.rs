//! Looking up the peers that are closest to a key.
use vstd::prelude::*;
use libp2p::PeerId;
use libp2p::kad::{QueryId, RecordKey};
use crate::command::handler::{fails_with, no_answer, unanswered, Observed, Start};
use crate::error::{Error, ErrorKind};
use crate::swarm::{is_query, QueryResult, SwarmCall, SwarmEvent, SwarmReply};
use crate::util::{counted_in, merge_stats, QueryStatsInfo};

verus! {

/// What a lookup of the closest peers brings.
#[derive(Debug, PartialEq)]
pub struct GetClosestPeersResult {
    /// The peers that were found, in the order in which they came in.
    pub peers: Vec<PeerId>,
    /// How the query went, all its steps taken together.
    pub stats: QueryStatsInfo,
}

/// The command that looks up the peers closest to a key.
pub struct GetClosestPeersCommand {
    /// The key to which the peers are close.
    pub key: RecordKey,
    /// The query, once the hash table has issued it.
    pub query_id: Option<QueryId>,
    /// The peers found so far.
    pub peers: Vec<PeerId>,
    /// The statistics of the steps so far, taken together.
    pub stats: Option<QueryStatsInfo>,
}

impl GetClosestPeersCommand {
    /// Whether `event` is a step of this command's query.
    pub open spec fn is_step<Req, Resp, Ch>(self, event: SwarmEvent<Req, Resp, Ch>) -> bool {
        &&& event matches SwarmEvent::KadQueryProgressed { id, result, .. }
        &&& result is GetClosestPeers
        &&& self.query_id == Some(id)
    }

    /// Whether the command goes on after `event`: it does unless the event
    /// is a failed step of its query or the last one.
    pub open spec fn keeps<Req, Resp, Ch>(self, event: SwarmEvent<Req, Resp, Ch>) -> bool {
        self.is_step(event) ==> event->KadQueryProgressed_result->GetClosestPeers_0 is Ok
            && !event->last
    }

    /// The peers found once the step `event` is counted in.
    pub open spec fn peers_with<Req, Resp, Ch>(self, event: SwarmEvent<Req, Resp, Ch>) -> Seq<
        PeerId,
    > {
        match event->KadQueryProgressed_result {
            QueryResult::GetClosestPeers(Ok(peers)) => self.peers@ + peers@,
            _ => self.peers@,
        }
    }

    /// Whether `then` is the command as it is after it has seen `event`: a
    /// step of its query is counted in, and any other event changes nothing.
    pub open spec fn after<Req, Resp, Ch>(self, event: SwarmEvent<Req, Resp, Ch>, then: Self) -> bool {
        if self.is_step(event) {
            &&& then.key == self.key
            &&& then.query_id == self.query_id
            &&& then.stats == Some(counted_in(self.stats, event->stats))
            &&& then.peers@ == if self.keeps(event) {
                self.peers_with(event)
            } else if event->KadQueryProgressed_result->GetClosestPeers_0 is Ok {
                Seq::empty()
            } else {
                self.peers@
            }
        } else {
            then == self
        }
    }

    /// Whether `out` is what the command makes of `event`.
    ///
    /// An event that is no step of its query is left to others. A step is
    /// kept: a failed step ends the command with that failure, the last step
    /// ends it with the peers found, any other step is counted in and
    /// the command goes on.
    pub open spec fn observed<Req, Resp, Ch>(
        self,
        event: SwarmEvent<Req, Resp, Ch>,
        out: Observed<GetClosestPeersResult, Req, Resp, Ch>,
    ) -> bool {
        &&& out.keep_active == self.keeps(event)
        &&& out.remaining == if self.is_step(event) {
            None
        } else {
            Some(event)
        }
        &&& if self.keeps(event) {
            out.result is None
        } else {
            match event->KadQueryProgressed_result->GetClosestPeers_0 {
                Err(cause) => fails_with(out.result, ErrorKind::KadGetClosestPeers, cause@),
                Ok(_) => {
                    &&& out.result matches Some(Ok(found))
                    &&& found.peers@ == self.peers_with(event)
                    &&& found.stats == counted_in(self.stats, event->stats)
                },
            }
        }
    }

    /// A command that looks up the peers closest to `key`.
    pub fn new(key: RecordKey) -> (command: Self)
        ensures
            command.key == key,
            command.query_id is None,
            command.peers@ == Seq::<PeerId>::empty(),
            command.stats is None,
    {
        GetClosestPeersCommand { key, query_id: None, peers: Vec::new(), stats: None }
    }

    /// Whether `start` is the command's first turn and `then` the command
    /// after it: the command names one call, and is itself unchanged.
    pub open spec fn started<Req, Resp, Ch>(
        self,
        start: Start<GetClosestPeersResult, Req, Resp, Ch>,
        then: Self,
    ) -> bool {
        &&& start == (Start::<GetClosestPeersResult, Req, Resp, Ch>::Call {
            call: SwarmCall::KadGetClosestPeers { key: self.key },
        })
        &&& then == self
    }

    /// The command's first turn: it asks the hash table to start the lookup.
    pub fn run<Req, Resp, Ch>(&mut self) -> (start: Start<GetClosestPeersResult, Req, Resp, Ch>)
        ensures
            old(self).started(start, *final(self)),
    {
        Start::Call { call: SwarmCall::KadGetClosestPeers { key: self.key.clone() } }
    }

    /// Whether `result` is what the command makes of the answer `reply` to
    /// the call of its first turn, and `then` the command after it.
    pub open spec fn replied(
        self,
        reply: SwarmReply,
        result: Option<Result<GetClosestPeersResult, Error>>,
        then: Self,
    ) -> bool {
        match reply {
            SwarmReply::Query { id } => {
                &&& result is None
                &&& then == (GetClosestPeersCommand { query_id: Some(id), ..self })
            },
            _ => {
                &&& fails_with(result, ErrorKind::Behaviour, no_answer())
                &&& then == self
            },
        }
    }

    /// Takes the hash table's answer to the call of the first turn. The
    /// identifier of the query is kept, and its steps are known by it from
    /// then on. Any other answer ends the command with a failure.
    pub fn on_reply(&mut self, reply: SwarmReply) -> (result: Option<Result<GetClosestPeersResult, Error>>)
        ensures
            old(self).replied(reply, result, *final(self)),
    {
        match reply {
            SwarmReply::Query { id } => {
                self.query_id = Some(id);
                None
            },
            _ => unanswered(),
        }
    }

    /// Tests whether `event` is a step of this command's query.
    fn is_own_step<Req, Resp, Ch>(&self, event: &SwarmEvent<Req, Resp, Ch>) -> (own: bool)
        ensures
            own == self.is_step(*event),
    {
        match event {
            SwarmEvent::KadQueryProgressed { id, result: QueryResult::GetClosestPeers(_), .. } => is_query(
                &self.query_id,
                id,
            ),
            _ => false,
        }
    }

    /// Shows the command an event of the network stack.
    pub fn on_event<Req, Resp, Ch>(&mut self, event: SwarmEvent<Req, Resp, Ch>) -> (out: Observed<
        GetClosestPeersResult,
        Req,
        Resp,
        Ch,
    >)
        ensures
            old(self).observed(event, out),
            old(self).after(event, *final(self)),
    {
        if !self.is_own_step(&event) {
            return Observed { keep_active: true, remaining: Some(event), result: None };
        }
        match event {
            SwarmEvent::KadQueryProgressed { id, result: QueryResult::GetClosestPeers(res), stats, last } => {
                merge_stats(&mut self.stats, stats);
                match res {
                    Ok(mut peers) => {
                        self.peers.append(&mut peers);
                    },
                    Err(cause) => {
                        return Observed {
                            keep_active: false,
                            remaining: None,
                            result: Some(Err(Error::KadGetClosestPeers(cause))),
                        };
                    },
                }
                if !last {
                    return Observed { keep_active: true, remaining: None, result: None };
                }
                let stats = match self.stats {
                    Some(total) => total,
                    None => QueryStatsInfo::default(),
                };
                let mut peers: Vec<PeerId> = Vec::new();
                std::mem::swap(&mut peers, &mut self.peers);
                Observed {
                    keep_active: false,
                    remaining: None,
                    result: Some(Ok(GetClosestPeersResult { peers, stats })),
                }
            },
            other => Observed { keep_active: true, remaining: Some(other), result: None },
        }
    }
}

} // verus!
