//! Looking up a record.
use vstd::prelude::*;
use libp2p::kad::{QueryId, Record, RecordKey};
use crate::command::handler::{fails_with, no_answer, unanswered, Observed, Start};
use crate::error::{with_cause, Error, ErrorKind};
use crate::swarm::{is_query, GetRecordOk, QueryResult, SwarmCall, SwarmEvent, SwarmReply};
use crate::util::{counted_in, merge_stats, QueryStatsInfo};

verus! {

/// What a lookup of a record brings.
#[derive(Debug, PartialEq)]
pub struct GetRecordResult {
    /// The record that was found.
    pub record: Record,
    /// How the query went, all its steps taken together.
    pub stats: QueryStatsInfo,
}

/// The command that looks up the record under a key.
pub struct GetRecordCommand {
    /// The key of the record.
    pub key: RecordKey,
    /// The query, once the hash table has issued it.
    pub query_id: Option<QueryId>,
    /// The first record that a step has brought.
    pub record: Option<Record>,
    /// The statistics of the steps so far, taken together.
    pub stats: Option<QueryStatsInfo>,
}

impl GetRecordCommand {
    /// Whether `event` is a step of this command's query.
    pub open spec fn is_step<Req, Resp, Ch>(self, event: SwarmEvent<Req, Resp, Ch>) -> bool {
        &&& event matches SwarmEvent::KadQueryProgressed { id, result, .. }
        &&& result is GetRecord
        &&& self.query_id == Some(id)
    }

    /// Whether the command goes on after `event`: it does unless the event
    /// is the last step of its query.
    pub open spec fn keeps<Req, Resp, Ch>(self, event: SwarmEvent<Req, Resp, Ch>) -> bool {
        self.is_step(event) ==> !event->last
    }

    /// The record that the command holds once the step `event` is counted
    /// in: the one it held before, or else the one that the step has brought.
    pub open spec fn record_with<Req, Resp, Ch>(self, event: SwarmEvent<Req, Resp, Ch>) -> Option<
        Record,
    > {
        match self.record {
            Some(record) => Some(record),
            None => match event->KadQueryProgressed_result {
                QueryResult::GetRecord(Ok(GetRecordOk::FoundRecord(record))) => Some(record),
                _ => None,
            },
        }
    }

    /// Whether `then` is the command as it is after it has seen `event`: a
    /// step of its query is counted in, the last step takes the record out,
    /// and any other event changes nothing.
    pub open spec fn after<Req, Resp, Ch>(self, event: SwarmEvent<Req, Resp, Ch>, then: Self) -> bool {
        if self.is_step(event) {
            then == (GetRecordCommand {
                stats: Some(counted_in(self.stats, event->stats)),
                record: if event->last {
                    None
                } else {
                    self.record_with(event)
                },
                ..self
            })
        } else {
            then == self
        }
    }

    /// Whether `out` is what the command makes of `event`.
    ///
    /// An event that is no step of its query is left to others. A step is
    /// kept. The first record that a step brings is held, and a failed step
    /// is passed over as long as the query goes on. The last step ends the
    /// command: with the record that is held, if one is; else with the
    /// failure of that step, if it failed; else with the failure that no
    /// record was found.
    pub open spec fn observed<Req, Resp, Ch>(
        self,
        event: SwarmEvent<Req, Resp, Ch>,
        out: Observed<GetRecordResult, Req, Resp, Ch>,
    ) -> bool {
        &&& out.keep_active == self.keeps(event)
        &&& out.remaining == if self.is_step(event) {
            None
        } else {
            Some(event)
        }
        &&& if self.keeps(event) {
            out.result is None
        } else {
            match self.record_with(event) {
                Some(record) => out.result == Some(
                    Ok::<GetRecordResult, Error>(
                        GetRecordResult { record, stats: counted_in(self.stats, event->stats) },
                    ),
                ),
                None => match event->KadQueryProgressed_result->GetRecord_0 {
                    Err(cause) => fails_with(out.result, ErrorKind::Kad, "GetRecord: "@ + cause@),
                    Ok(_) => fails_with(out.result, ErrorKind::Kad, "Record not found"@),
                },
            }
        }
    }

    /// A command that looks up the record under `key`.
    pub fn new(key: RecordKey) -> (command: Self)
        ensures
            command == (GetRecordCommand { key, query_id: None, record: None, stats: None }),
    {
        GetRecordCommand { key, query_id: None, record: None, stats: None }
    }

    /// Whether `start` is the command's first turn and `then` the command
    /// after it: the command names one call, and is itself unchanged.
    pub open spec fn started<Req, Resp, Ch>(
        self,
        start: Start<GetRecordResult, Req, Resp, Ch>,
        then: Self,
    ) -> bool {
        &&& start == (Start::<GetRecordResult, Req, Resp, Ch>::Call {
            call: SwarmCall::KadGetRecord { key: self.key },
        })
        &&& then == self
    }

    /// The command's first turn: it asks the hash table to start the lookup.
    pub fn run<Req, Resp, Ch>(&mut self) -> (start: Start<GetRecordResult, Req, Resp, Ch>)
        ensures
            old(self).started(start, *final(self)),
    {
        Start::Call { call: SwarmCall::KadGetRecord { key: self.key.clone() } }
    }

    /// Whether `result` is what the command makes of the answer `reply` to
    /// the call of its first turn, and `then` the command after it.
    pub open spec fn replied(
        self,
        reply: SwarmReply,
        result: Option<Result<GetRecordResult, Error>>,
        then: Self,
    ) -> bool {
        match reply {
            SwarmReply::Query { id } => {
                &&& result is None
                &&& then == (GetRecordCommand { query_id: Some(id), ..self })
            },
            _ => {
                &&& fails_with(result, ErrorKind::Behaviour, no_answer())
                &&& then == self
            },
        }
    }

    /// Takes the hash table's answer to the call of the first turn. The
    /// identifier of the query is kept, and its steps are known by it from
    /// then on. Any other answer ends the command with a failure.
    pub fn on_reply(&mut self, reply: SwarmReply) -> (result: Option<Result<GetRecordResult, Error>>)
        ensures
            old(self).replied(reply, result, *final(self)),
    {
        match reply {
            SwarmReply::Query { id } => {
                self.query_id = Some(id);
                None
            },
            _ => unanswered(),
        }
    }

    /// Tests whether `event` is a step of this command's query.
    fn is_own_step<Req, Resp, Ch>(&self, event: &SwarmEvent<Req, Resp, Ch>) -> (own: bool)
        ensures
            own == self.is_step(*event),
    {
        match event {
            SwarmEvent::KadQueryProgressed { id, result: QueryResult::GetRecord(_), .. } => is_query(
                &self.query_id,
                id,
            ),
            _ => false,
        }
    }

    /// Shows the command an event of the network stack.
    pub fn on_event<Req, Resp, Ch>(&mut self, event: SwarmEvent<Req, Resp, Ch>) -> (out: Observed<
        GetRecordResult,
        Req,
        Resp,
        Ch,
    >)
        ensures
            old(self).observed(event, out),
            old(self).after(event, *final(self)),
    {
        if !self.is_own_step(&event) {
            return Observed { keep_active: true, remaining: Some(event), result: None };
        }
        match event {
            SwarmEvent::KadQueryProgressed { id, result: QueryResult::GetRecord(res), stats, last } => {
                merge_stats(&mut self.stats, stats);
                let mut failure: Option<String> = None;
                match res {
                    Ok(GetRecordOk::FoundRecord(record)) => {
                        if self.record.is_none() {
                            self.record = Some(record);
                        }
                    },
                    Ok(GetRecordOk::FinishedWithNoAdditionalRecord) => {},
                    Err(cause) => {
                        failure = Some(cause);
                    },
                }
                if !last {
                    return Observed { keep_active: true, remaining: None, result: None };
                }
                let stats = match self.stats {
                    Some(total) => total,
                    None => QueryStatsInfo::default(),
                };
                let result = match self.record.take() {
                    Some(record) => Ok(GetRecordResult { record, stats }),
                    None => match failure {
                        Some(cause) => Err(Error::Kad(with_cause("GetRecord: ", cause.as_str()))),
                        None => Err(Error::Kad(String::from_str("Record not found"))),
                    },
                };
                Observed { keep_active: false, remaining: None, result: Some(result) }
            },
            other => Observed { keep_active: true, remaining: Some(other), result: None },
        }
    }
}

} // verus!
