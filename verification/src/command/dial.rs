//! Connecting to a peer.
use vstd::prelude::*;
use libp2p::PeerId;
use crate::command::handler::{fails_with, Observed, Start};
use crate::error::{Error, ErrorKind};
use crate::peer::{contains_peer, peer_eq};
use crate::swarm::{SwarmCall, SwarmEvent, SwarmReply, SwarmView};

verus! {

/// The command that connects to a peer.
pub struct DialCommand {
    /// The peer to connect to.
    pub peer_id: PeerId,
}

impl DialCommand {
    /// Whether `event` says that a connection to the peer stands.
    pub open spec fn is_success<Req, Resp, Ch>(self, event: SwarmEvent<Req, Resp, Ch>) -> bool {
        event matches SwarmEvent::ConnectionEstablished { peer_id, .. } && peer_id == self.peer_id
    }

    /// Whether `event` says that an attempt to connect to the peer failed.
    pub open spec fn is_failure<Req, Resp, Ch>(self, event: SwarmEvent<Req, Resp, Ch>) -> bool {
        event matches SwarmEvent::OutgoingConnectionError { peer_id, .. } && peer_id == Some(
            self.peer_id,
        )
    }

    /// Whether the command goes on after `event`: it does until the event
    /// tells how the attempt has ended.
    pub open spec fn keeps<Req, Resp, Ch>(self, event: SwarmEvent<Req, Resp, Ch>) -> bool {
        !self.is_success(event) && !self.is_failure(event)
    }

    /// Whether `out` is what the command makes of `event`.
    ///
    /// The command keeps no event for itself: that a connection stands is
    /// for the application to hear as well. A connection to the peer ends the
    /// command well, a failed attempt to connect to it ends the command with
    /// that failure.
    pub open spec fn observed<Req, Resp, Ch>(
        self,
        event: SwarmEvent<Req, Resp, Ch>,
        out: Observed<(), Req, Resp, Ch>,
    ) -> bool {
        &&& out.keep_active == self.keeps(event)
        &&& out.remaining == Some(event)
        &&& if self.is_success(event) {
            out.result == Some(Ok::<(), Error>(()))
        } else if self.is_failure(event) {
            fails_with(out.result, ErrorKind::Dial, event->OutgoingConnectionError_error@)
        } else {
            out.result is None
        }
    }

    /// A command that connects to `peer_id`.
    pub fn new(peer_id: PeerId) -> (command: Self)
        ensures
            command.peer_id == peer_id,
    {
        DialCommand { peer_id }
    }

    /// Whether `start` is the command's first turn and `then` the command
    /// after it. Where a connection to the peer stands, the command has ended
    /// well and nothing is called; else it names the call that connects.
    pub open spec fn started<Req, Resp, Ch>(
        self,
        view: SwarmView,
        start: Start<(), Req, Resp, Ch>,
        then: Self,
    ) -> bool {
        &&& then == self
        &&& if view.connected@.contains(self.peer_id) {
            &&& start matches Start::Finished { calls, result }
            &&& calls@.len() == 0
            &&& result == Ok::<(), Error>(())
        } else {
            start == (Start::<(), Req, Resp, Ch>::Call { call: SwarmCall::Dial { peer_id: self.peer_id } })
        }
    }

    /// Whether `result` is what the command makes of the answer `reply` to
    /// the call of its first turn, and `then` the command after it.
    pub open spec fn replied(self, reply: SwarmReply, result: Option<Result<(), Error>>, then: Self) -> bool {
        &&& then == self
        &&& match reply {
            SwarmReply::Failed { error } => fails_with(result, ErrorKind::Dial, error@),
            _ => result is None,
        }
    }

    /// The command's first turn. Where a connection to the peer stands
    /// already, the command is finished; else it asks for one.
    pub fn run<Req, Resp, Ch>(&mut self, view: &SwarmView) -> (start: Start<(), Req, Resp, Ch>)
        ensures
            old(self).started(*view, start, *final(self)),
    {
        if contains_peer(&view.connected, &self.peer_id) {
            Start::Finished { calls: Vec::new(), result: Ok(()) }
        } else {
            Start::Call { call: SwarmCall::Dial { peer_id: self.peer_id } }
        }
    }

    /// Takes the network stack's answer to the call of the first turn. A
    /// refusal ends the command with that failure; after any other answer
    /// the command waits for the connection.
    pub fn on_reply(&mut self, reply: SwarmReply) -> (result: Option<Result<(), Error>>)
        ensures
            old(self).replied(reply, result, *final(self)),
    {
        match reply {
            SwarmReply::Failed { error } => Some(Err(Error::Dial(error))),
            _ => None,
        }
    }

    /// Shows the command an event of the network stack.
    pub fn on_event<Req, Resp, Ch>(&mut self, event: SwarmEvent<Req, Resp, Ch>) -> (out: Observed<
        (),
        Req,
        Resp,
        Ch,
    >)
        ensures
            old(self).observed(event, out),
            *final(self) == *old(self),
    {
        let result = match &event {
            SwarmEvent::ConnectionEstablished { peer_id, .. } => {
                if peer_eq(peer_id, &self.peer_id) {
                    Some(Ok(()))
                } else {
                    None
                }
            },
            SwarmEvent::OutgoingConnectionError { peer_id: Some(peer_id), error } => {
                if peer_eq(peer_id, &self.peer_id) {
                    Some(Err(Error::Dial(error.clone())))
                } else {
                    None
                }
            },
            _ => None,
        };
        Observed { keep_active: result.is_none(), remaining: Some(event), result }
    }
}

} // verus!
