//! Storing a record.
use vstd::prelude::*;
use libp2p::kad::{QueryId, Record};
use crate::command::handler::{fails_with, no_answer, unanswered, Observed, Start};
use crate::error::{Error, ErrorKind};
use crate::swarm::{is_query, QueryResult, Quorum, SwarmCall, SwarmEvent, SwarmReply};
use crate::util::{counted_in, merge_stats, QueryStatsInfo};

verus! {

/// The command that stores a record in the hash table. It is content when
/// one peer has taken the record.
pub struct PutRecordCommand {
    /// The record to store.
    pub record: Record,
    /// The query, once the hash table has issued it.
    pub query_id: Option<QueryId>,
    /// The statistics of the steps so far, taken together.
    pub stats: Option<QueryStatsInfo>,
}

impl PutRecordCommand {
    /// Whether `event` is a step of this command's query.
    pub open spec fn is_step<Req, Resp, Ch>(self, event: SwarmEvent<Req, Resp, Ch>) -> bool {
        &&& event matches SwarmEvent::KadQueryProgressed { id, result, .. }
        &&& result is PutRecord
        &&& self.query_id == Some(id)
    }

    /// Whether the command goes on after `event`: it does unless the event
    /// is the last step of its query.
    pub open spec fn keeps<Req, Resp, Ch>(self, event: SwarmEvent<Req, Resp, Ch>) -> bool {
        self.is_step(event) ==> !event->last
    }

    /// Whether `then` is the command as it is after it has seen `event`: the
    /// statistics of a step of its query are counted in, and any other event
    /// changes nothing.
    pub open spec fn after<Req, Resp, Ch>(self, event: SwarmEvent<Req, Resp, Ch>, then: Self) -> bool {
        if self.is_step(event) {
            then == (PutRecordCommand { stats: Some(counted_in(self.stats, event->stats)), ..self })
        } else {
            then == self
        }
    }

    /// Whether `out` is what the command makes of `event`.
    ///
    /// An event that is no step of its query is left to others. A step is
    /// kept and counted in, whether it went well or not. The last step ends
    /// the command, with the statistics where it went well and with its
    /// failure where it did not.
    pub open spec fn observed<Req, Resp, Ch>(
        self,
        event: SwarmEvent<Req, Resp, Ch>,
        out: Observed<QueryStatsInfo, Req, Resp, Ch>,
    ) -> bool {
        &&& out.keep_active == self.keeps(event)
        &&& out.remaining == if self.is_step(event) {
            None
        } else {
            Some(event)
        }
        &&& if self.keeps(event) {
            out.result is None
        } else {
            match event->KadQueryProgressed_result->PutRecord_0 {
                Err(cause) => fails_with(out.result, ErrorKind::KadPutRecord, cause@),
                Ok(_) => out.result == Some(
                    Ok::<QueryStatsInfo, Error>(counted_in(self.stats, event->stats)),
                ),
            }
        }
    }

    /// A command that stores `record`.
    pub fn new(record: Record) -> (command: Self)
        ensures
            command == (PutRecordCommand { record, query_id: None, stats: None }),
    {
        PutRecordCommand { record, query_id: None, stats: None }
    }

    /// Whether `start` is the command's first turn and `then` the command
    /// after it: the command names the call that stores the record with one
    /// peer, and is itself unchanged.
    pub open spec fn started<Req, Resp, Ch>(
        self,
        start: Start<QueryStatsInfo, Req, Resp, Ch>,
        then: Self,
    ) -> bool {
        &&& start == (Start::<QueryStatsInfo, Req, Resp, Ch>::Call {
            call: SwarmCall::KadPutRecord { record: self.record, quorum: Quorum::One },
        })
        &&& then == self
    }

    /// The command's first turn: it asks the hash table to store the record.
    pub fn run<Req, Resp, Ch>(&mut self) -> (start: Start<QueryStatsInfo, Req, Resp, Ch>)
        ensures
            old(self).started(start, *final(self)),
    {
        Start::Call { call: SwarmCall::KadPutRecord { record: self.record.clone(), quorum: Quorum::One } }
    }

    /// Whether `result` is what the command makes of the answer `reply` to
    /// the call of its first turn, and `then` the command after it.
    pub open spec fn replied(
        self,
        reply: SwarmReply,
        result: Option<Result<QueryStatsInfo, Error>>,
        then: Self,
    ) -> bool {
        match reply {
            SwarmReply::Query { id } => {
                &&& result is None
                &&& then == (PutRecordCommand { query_id: Some(id), ..self })
            },
            SwarmReply::StoreFailed { error } => {
                &&& result == Some(Err::<QueryStatsInfo, Error>(Error::KadStore(error)))
                &&& then == self
            },
            _ => {
                &&& fails_with(result, ErrorKind::Behaviour, no_answer())
                &&& then == self
            },
        }
    }

    /// Takes the hash table's answer to the call of the first turn. The
    /// identifier of the query is kept, and its steps are known by it from
    /// then on. A refusal of the local store ends the command with that
    /// refusal, any other answer with a failure.
    pub fn on_reply(&mut self, reply: SwarmReply) -> (result: Option<Result<QueryStatsInfo, Error>>)
        ensures
            old(self).replied(reply, result, *final(self)),
    {
        match reply {
            SwarmReply::Query { id } => {
                self.query_id = Some(id);
                None
            },
            SwarmReply::StoreFailed { error } => Some(Err(Error::KadStore(error))),
            _ => unanswered(),
        }
    }

    /// Tests whether `event` is a step of this command's query.
    fn is_own_step<Req, Resp, Ch>(&self, event: &SwarmEvent<Req, Resp, Ch>) -> (own: bool)
        ensures
            own == self.is_step(*event),
    {
        match event {
            SwarmEvent::KadQueryProgressed { id, result: QueryResult::PutRecord(_), .. } => is_query(
                &self.query_id,
                id,
            ),
            _ => false,
        }
    }

    /// Shows the command an event of the network stack.
    pub fn on_event<Req, Resp, Ch>(&mut self, event: SwarmEvent<Req, Resp, Ch>) -> (out: Observed<
        QueryStatsInfo,
        Req,
        Resp,
        Ch,
    >)
        ensures
            old(self).observed(event, out),
            old(self).after(event, *final(self)),
    {
        if !self.is_own_step(&event) {
            return Observed { keep_active: true, remaining: Some(event), result: None };
        }
        match event {
            SwarmEvent::KadQueryProgressed { id, result: QueryResult::PutRecord(res), stats, last } => {
                merge_stats(&mut self.stats, stats);
                if !last {
                    return Observed { keep_active: true, remaining: None, result: None };
                }
                let stats = match self.stats {
                    Some(total) => total,
                    None => QueryStatsInfo::default(),
                };
                let result = match res {
                    Ok(_) => Ok(stats),
                    Err(cause) => Err(Error::KadPutRecord(cause)),
                };
                Observed { keep_active: false, remaining: None, result: Some(result) }
            },
            other => Observed { keep_active: true, remaining: Some(other), result: None },
        }
    }
}

} // verus!
