//! Withdrawing the announcement of a key.
use vstd::prelude::*;
use libp2p::kad::RecordKey;
use crate::command::handler::Start;
use crate::error::Error;
use crate::swarm::SwarmCall;

verus! {

/// The command that stops announcing this node as a provider of a key.
pub struct StopProvideCommand {
    /// The key that is no longer announced.
    pub key: RecordKey,
}

impl StopProvideCommand {
    /// A command that stops announcing `key`.
    pub fn new(key: RecordKey) -> (command: Self)
        ensures
            command.key == key,
    {
        StopProvideCommand { key }
    }

    /// Whether `start` is the command's only turn and `then` the command
    /// after it: one call goes out, the command has ended well, and is itself
    /// unchanged.
    pub open spec fn started<Req, Resp, Ch>(self, start: Start<(), Req, Resp, Ch>, then: Self) -> bool {
        &&& start matches Start::Finished { calls, result }
        &&& calls@ == seq![SwarmCall::<Req, Resp, Ch>::KadStopProviding { key: self.key }]
        &&& result == Ok::<(), Error>(())
        &&& then == self
    }

    /// The command's only turn: it has the hash table drop the announcement
    /// and is finished.
    pub fn run<Req, Resp, Ch>(&mut self) -> (start: Start<(), Req, Resp, Ch>)
        ensures
            old(self).started(start, *final(self)),
    {
        let mut calls: Vec<SwarmCall<Req, Resp, Ch>> = Vec::new();
        calls.push(SwarmCall::KadStopProviding { key: self.key.clone() });
        Start::Finished { calls, result: Ok(()) }
    }
}

} // verus!
