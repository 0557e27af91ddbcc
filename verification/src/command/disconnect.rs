//! Closing the connections to a peer.
use vstd::prelude::*;
use libp2p::PeerId;
use crate::command::handler::{fails_with, Observed, Start};
use crate::error::{Error, ErrorKind};
use crate::peer::{peer_eq, peer_text, peer_to_string};
use crate::swarm::{SwarmCall, SwarmEvent, SwarmReply};

verus! {

/// The command that closes all connections to a peer.
pub struct DisconnectCommand {
    /// The peer to part from.
    pub peer_id: PeerId,
}

impl DisconnectCommand {
    /// Whether `event` says that the last connection to the peer is gone.
    pub open spec fn is_done<Req, Resp, Ch>(self, event: SwarmEvent<Req, Resp, Ch>) -> bool {
        &&& event matches SwarmEvent::ConnectionClosed { peer_id, num_established }
        &&& peer_id == self.peer_id
        &&& num_established == 0
    }

    /// Whether the command goes on after `event`: it does until the last
    /// connection to the peer is gone.
    pub open spec fn keeps<Req, Resp, Ch>(self, event: SwarmEvent<Req, Resp, Ch>) -> bool {
        !self.is_done(event)
    }

    /// Whether `out` is what the command makes of `event`.
    ///
    /// The command keeps no event for itself: that a peer is gone is for the
    /// application to hear as well. The command ends well when the last
    /// connection to the peer is closed.
    pub open spec fn observed<Req, Resp, Ch>(
        self,
        event: SwarmEvent<Req, Resp, Ch>,
        out: Observed<(), Req, Resp, Ch>,
    ) -> bool {
        &&& out.keep_active == self.keeps(event)
        &&& out.remaining == Some(event)
        &&& out.result == if self.is_done(event) {
            Some(Ok::<(), Error>(()))
        } else {
            None
        }
    }

    /// What the failure says when no connection to `peer` stood.
    pub open spec fn not_connected(peer: PeerId) -> Seq<char> {
        "peer "@ + peer_text(peer) + " is not connected"@
    }

    /// A command that parts from `peer_id`.
    pub fn new(peer_id: PeerId) -> (command: Self)
        ensures
            command.peer_id == peer_id,
    {
        DisconnectCommand { peer_id }
    }

    /// Whether `start` is the command's first turn and `then` the command
    /// after it: the command names one call, and is itself unchanged.
    pub open spec fn started<Req, Resp, Ch>(self, start: Start<(), Req, Resp, Ch>, then: Self) -> bool {
        &&& start == (Start::<(), Req, Resp, Ch>::Call {
            call: SwarmCall::Disconnect { peer_id: self.peer_id },
        })
        &&& then == self
    }

    /// Whether `result` is what the command makes of the answer `reply` to
    /// the call of its first turn, and `then` the command after it.
    pub open spec fn replied(self, reply: SwarmReply, result: Option<Result<(), Error>>, then: Self) -> bool {
        &&& then == self
        &&& match reply {
            SwarmReply::Failed { error } => fails_with(
                result,
                ErrorKind::Dial,
                Self::not_connected(self.peer_id),
            ),
            _ => result is None,
        }
    }

    /// The command's first turn: it asks that the connections be closed.
    pub fn run<Req, Resp, Ch>(&mut self) -> (start: Start<(), Req, Resp, Ch>)
        ensures
            old(self).started(start, *final(self)),
    {
        Start::Call { call: SwarmCall::Disconnect { peer_id: self.peer_id } }
    }

    /// Takes the network stack's answer to the call of the first turn. A
    /// refusal means that no connection to the peer stood, and ends the
    /// command with that failure; after any other answer the command waits
    /// for the connections to close.
    pub fn on_reply(&mut self, reply: SwarmReply) -> (result: Option<Result<(), Error>>)
        ensures
            old(self).replied(reply, result, *final(self)),
    {
        match reply {
            SwarmReply::Failed { error } => {
                let name = peer_to_string(&self.peer_id);
                let text = String::from_str("peer ").concat(name.as_str()).concat(" is not connected");
                Some(Err(Error::Dial(text)))
            },
            _ => None,
        }
    }

    /// Shows the command an event of the network stack.
    pub fn on_event<Req, Resp, Ch>(&mut self, event: SwarmEvent<Req, Resp, Ch>) -> (out: Observed<
        (),
        Req,
        Resp,
        Ch,
    >)
        ensures
            old(self).observed(event, out),
            *final(self) == *old(self),
    {
        let done = match &event {
            SwarmEvent::ConnectionClosed { peer_id, num_established } => *num_established == 0
                && peer_eq(peer_id, &self.peer_id),
            _ => false,
        };
        if done {
            Observed { keep_active: false, remaining: Some(event), result: Some(Ok(())) }
        } else {
            Observed { keep_active: true, remaining: Some(event), result: None }
        }
    }
}

} // verus!
