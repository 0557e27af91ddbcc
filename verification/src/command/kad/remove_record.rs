//! Dropping a record from the local store.
use vstd::prelude::*;
use libp2p::kad::RecordKey;
use crate::command::handler::Start;
use crate::error::Error;
use crate::swarm::SwarmCall;

verus! {

/// The command that drops the record under a key from the node's own store.
/// What other peers hold is not touched.
pub struct RemoveRecordCommand {
    /// The key of the record.
    pub key: RecordKey,
}

impl RemoveRecordCommand {
    /// A command that drops the record under `key`.
    pub fn new(key: RecordKey) -> (command: Self)
        ensures
            command.key == key,
    {
        RemoveRecordCommand { key }
    }

    /// Whether `start` is the command's only turn and `then` the command
    /// after it: one call goes out, the command has ended well, and is itself
    /// unchanged.
    pub open spec fn started<Req, Resp, Ch>(self, start: Start<(), Req, Resp, Ch>, then: Self) -> bool {
        &&& start matches Start::Finished { calls, result }
        &&& calls@ == seq![SwarmCall::<Req, Resp, Ch>::KadRemoveRecord { key: self.key }]
        &&& result == Ok::<(), Error>(())
        &&& then == self
    }

    /// The command's only turn: it has the hash table drop the record and is
    /// finished.
    pub fn run<Req, Resp, Ch>(&mut self) -> (start: Start<(), Req, Resp, Ch>)
        ensures
            old(self).started(start, *final(self)),
    {
        let mut calls: Vec<SwarmCall<Req, Resp, Ch>> = Vec::new();
        calls.push(SwarmCall::KadRemoveRecord { key: self.key.clone() });
        Start::Finished { calls, result: Ok(()) }
    }
}

} // verus!
