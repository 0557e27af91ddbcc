//! Joining the distributed hash table.
use vstd::prelude::*;
use libp2p::kad::QueryId;
use crate::command::handler::{fails_with, Observed, Start};
use crate::error::{with_cause, Error, ErrorKind};
use crate::swarm::{is_query, QueryResult, SwarmCall, SwarmEvent, SwarmReply};
use crate::util::{counted_in, merge_stats, QueryStatsInfo};

verus! {

/// What joining the hash table brings.
#[derive(Clone, Copy, Debug, PartialEq, Eq)]
pub struct BootstrapResult {
    /// How many refreshes of the routing table were still to come at the
    /// last step.
    pub num_remaining: u32,
    /// How the query went, all its steps taken together.
    pub stats: QueryStatsInfo,
}

/// The command that joins the hash table and fills the routing table.
pub struct BootstrapCommand {
    /// The query, once the hash table has issued it.
    pub query_id: Option<QueryId>,
    /// The statistics of the steps so far, taken together.
    pub stats: Option<QueryStatsInfo>,
}

impl BootstrapCommand {
    /// Whether `event` is a step of this command's query.
    pub open spec fn is_step<Req, Resp, Ch>(self, event: SwarmEvent<Req, Resp, Ch>) -> bool {
        &&& event matches SwarmEvent::KadQueryProgressed { id, result, .. }
        &&& result is Bootstrap
        &&& self.query_id == Some(id)
    }

    /// Whether the command goes on after `event`: it does unless the event
    /// is a failed step of its query or the last one.
    pub open spec fn keeps<Req, Resp, Ch>(self, event: SwarmEvent<Req, Resp, Ch>) -> bool {
        self.is_step(event) ==> event->KadQueryProgressed_result->Bootstrap_0 is Ok && !event->last
    }

    /// Whether `then` is the command as it is after it has seen `event`: the
    /// statistics of a step of its query are counted in, and any other event
    /// changes nothing.
    pub open spec fn after<Req, Resp, Ch>(self, event: SwarmEvent<Req, Resp, Ch>, then: Self) -> bool {
        if self.is_step(event) {
            then == (BootstrapCommand {
                stats: Some(counted_in(self.stats, event->stats)),
                ..self
            })
        } else {
            then == self
        }
    }

    /// Whether `out` is what the command makes of `event`.
    ///
    /// An event that is no step of its query is left to others. A step is
    /// kept: a failed step ends the command with that failure, the last step
    /// ends it with the count of that step, any other step is counted in and
    /// the command goes on.
    pub open spec fn observed<Req, Resp, Ch>(
        self,
        event: SwarmEvent<Req, Resp, Ch>,
        out: Observed<BootstrapResult, Req, Resp, Ch>,
    ) -> bool {
        &&& out.keep_active == self.keeps(event)
        &&& out.remaining == if self.is_step(event) {
            None
        } else {
            Some(event)
        }
        &&& if self.keeps(event) {
            out.result is None
        } else {
            match event->KadQueryProgressed_result->Bootstrap_0 {
                Err(cause) => fails_with(out.result, ErrorKind::Kad, "Bootstrap: "@ + cause@),
                Ok(step) => out.result == Some(
                    Ok::<BootstrapResult, Error>(
                        BootstrapResult {
                            num_remaining: step.num_remaining,
                            stats: counted_in(self.stats, event->stats),
                        },
                    ),
                ),
            }
        }
    }

    /// A command that joins the hash table.
    pub fn new() -> (command: Self)
        ensures
            command.query_id is None,
            command.stats is None,
    {
        BootstrapCommand { query_id: None, stats: None }
    }

    /// Whether `start` is the command's first turn and `then` the command
    /// after it: the command names one call, and is itself unchanged.
    pub open spec fn started<Req, Resp, Ch>(
        self,
        start: Start<BootstrapResult, Req, Resp, Ch>,
        then: Self,
    ) -> bool {
        &&& start == (Start::<BootstrapResult, Req, Resp, Ch>::Call { call: SwarmCall::KadBootstrap })
        &&& then == self
    }

    /// The command's first turn: it asks the hash table to start joining.
    pub fn run<Req, Resp, Ch>(&mut self) -> (start: Start<BootstrapResult, Req, Resp, Ch>)
        ensures
            old(self).started(start, *final(self)),
    {
        Start::Call { call: SwarmCall::KadBootstrap }
    }

    /// Whether `result` is what the command makes of the answer `reply` to
    /// the call of its first turn, and `then` the command after it.
    pub open spec fn replied(
        self,
        reply: SwarmReply,
        result: Option<Result<BootstrapResult, Error>>,
        then: Self,
    ) -> bool {
        match reply {
            SwarmReply::Query { id } => {
                &&& result is None
                &&& then == (BootstrapCommand { query_id: Some(id), ..self })
            },
            _ => {
                &&& fails_with(result, ErrorKind::Kad, "Bootstrap failed: no known peers"@)
                &&& then == self
            },
        }
    }

    /// Takes the hash table's answer to the call of the first turn. The
    /// identifier of the query is kept, and its steps are known by it from
    /// then on. Any other answer means that the node knows no peer to start
    /// from, and ends the command with that failure.
    pub fn on_reply(&mut self, reply: SwarmReply) -> (result: Option<Result<BootstrapResult, Error>>)
        ensures
            old(self).replied(reply, result, *final(self)),
    {
        match reply {
            SwarmReply::Query { id } => {
                self.query_id = Some(id);
                None
            },
            _ => Some(Err(Error::Kad(String::from_str("Bootstrap failed: no known peers")))),
        }
    }

    /// Tests whether `event` is a step of this command's query.
    fn is_own_step<Req, Resp, Ch>(&self, event: &SwarmEvent<Req, Resp, Ch>) -> (own: bool)
        ensures
            own == self.is_step(*event),
    {
        match event {
            SwarmEvent::KadQueryProgressed { id, result: QueryResult::Bootstrap(_), .. } => is_query(
                &self.query_id,
                id,
            ),
            _ => false,
        }
    }

    /// Shows the command an event of the network stack.
    pub fn on_event<Req, Resp, Ch>(&mut self, event: SwarmEvent<Req, Resp, Ch>) -> (out: Observed<
        BootstrapResult,
        Req,
        Resp,
        Ch,
    >)
        ensures
            old(self).observed(event, out),
            old(self).after(event, *final(self)),
    {
        if !self.is_own_step(&event) {
            return Observed { keep_active: true, remaining: Some(event), result: None };
        }
        match event {
            SwarmEvent::KadQueryProgressed { id, result: QueryResult::Bootstrap(res), stats, last } => {
                merge_stats(&mut self.stats, stats);
                let num_remaining = match res {
                    Ok(step) => step.num_remaining,
                    Err(cause) => {
                        return Observed {
                            keep_active: false,
                            remaining: None,
                            result: Some(Err(Error::Kad(with_cause("Bootstrap: ", cause.as_str())))),
                        };
                    },
                };
                if !last {
                    return Observed { keep_active: true, remaining: None, result: None };
                }
                let stats = match self.stats {
                    Some(total) => total,
                    None => QueryStatsInfo::default(),
                };
                Observed {
                    keep_active: false,
                    remaining: None,
                    result: Some(Ok(BootstrapResult { num_remaining, stats })),
                }
            },
            other => Observed { keep_active: true, remaining: Some(other), result: None },
        }
    }
}

impl Default for BootstrapCommand {
    fn default() -> (command: Self)
        ensures
            command.query_id is None,
            command.stats is None,
    {
        BootstrapCommand::new()
    }
}

} // verus!
