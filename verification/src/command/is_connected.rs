//! Asking whether a peer is connected.
use vstd::prelude::*;
use libp2p::PeerId;
use crate::command::handler::Start;
use crate::error::Error;
use crate::peer::contains_peer;
use crate::swarm::SwarmView;

verus! {

/// The command that tells whether a connection to a peer stands.
pub struct IsConnectedCommand {
    /// The peer that is asked about.
    pub peer_id: PeerId,
}

impl IsConnectedCommand {
    /// A command that asks about `peer_id`.
    pub fn new(peer_id: PeerId) -> (command: Self)
        ensures
            command.peer_id == peer_id,
    {
        IsConnectedCommand { peer_id }
    }

    /// Whether `start` is the command's only turn and `then` the command
    /// after it: nothing is called, and the command has ended with the answer
    /// whether the peer is among the connected ones.
    pub open spec fn started<Req, Resp, Ch>(
        self,
        view: SwarmView,
        start: Start<bool, Req, Resp, Ch>,
        then: Self,
    ) -> bool {
        &&& then == self
        &&& start matches Start::Finished { calls, result }
        &&& calls@.len() == 0
        &&& result == Ok::<bool, Error>(view.connected@.contains(self.peer_id))
    }

    /// The command's only turn: it answers from what is known of the network
    /// stack and is finished.
    pub fn run<Req, Resp, Ch>(&mut self, view: &SwarmView) -> (start: Start<bool, Req, Resp, Ch>)
        ensures
            old(self).started(*view, start, *final(self)),
    {
        Start::Finished { calls: Vec::new(), result: Ok(contains_peer(&view.connected, &self.peer_id)) }
    }
}

} // verus!
