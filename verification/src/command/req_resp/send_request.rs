//! Sending a request and waiting for the response.
use vstd::prelude::*;
use libp2p::PeerId;
use libp2p::request_response::OutboundRequestId;
use crate::command::handler::{fails_with, no_answer, unanswered, Observed, Start};
use crate::error::{Error, ErrorKind};
use crate::peer::{peer_eq, peer_text, peer_to_string};
use crate::swarm::{request_eq, SwarmCall, SwarmEvent, SwarmReply};

verus! {

/// The command that sends a request to a peer and waits for the response.
pub struct SendRequestCommand<Req> {
    /// The peer that is asked.
    pub peer_id: PeerId,
    /// The request, until it is sent.
    pub request: Option<Req>,
    /// The identifier of the request, once it is sent.
    pub request_id: Option<OutboundRequestId>,
}

impl<Req> SendRequestCommand<Req> {
    /// Whether `event` is the response to this command's request.
    pub open spec fn is_response<Resp, Ch>(self, event: SwarmEvent<Req, Resp, Ch>) -> bool {
        &&& event matches SwarmEvent::Response { peer, request_id, .. }
        &&& self.request_id == Some(request_id)
        &&& peer == self.peer_id
    }

    /// Whether `event` says that this command's request has failed.
    pub open spec fn is_failure<Resp, Ch>(self, event: SwarmEvent<Req, Resp, Ch>) -> bool {
        &&& event matches SwarmEvent::OutboundFailure { peer, request_id, .. }
        &&& self.request_id == Some(request_id)
        &&& peer == self.peer_id
    }

    /// Whether the command goes on after `event`: it does until the event
    /// tells how the request has ended.
    pub open spec fn keeps<Resp, Ch>(self, event: SwarmEvent<Req, Resp, Ch>) -> bool {
        !self.is_response(event) && !self.is_failure(event)
    }

    /// What the failure says when the request to `peer` failed for the
    /// reason `error`.
    pub open spec fn request_failed(peer: PeerId, error: Seq<char>) -> Seq<char> {
        "Request to "@ + peer_text(peer) + " failed: "@ + error
    }

    /// Whether `out` is what the command makes of `event`.
    ///
    /// The response to its request and the failure of its request are kept,
    /// and end the command, with the response or with the failure. Every
    /// other event is left to others.
    pub open spec fn observed<Resp, Ch>(
        self,
        event: SwarmEvent<Req, Resp, Ch>,
        out: Observed<Resp, Req, Resp, Ch>,
    ) -> bool {
        &&& out.keep_active == self.keeps(event)
        &&& out.remaining == if self.keeps(event) {
            Some(event)
        } else {
            None
        }
        &&& if self.is_response(event) {
            out.result == Some(Ok::<Resp, Error>(event->response))
        } else if self.is_failure(event) {
            fails_with(
                out.result,
                ErrorKind::Behaviour,
                Self::request_failed(self.peer_id, event->OutboundFailure_error@),
            )
        } else {
            out.result is None
        }
    }

    /// A command that sends `request` to `peer_id`.
    pub fn new(peer_id: PeerId, request: Req) -> (command: Self)
        ensures
            command == (SendRequestCommand { peer_id, request: Some(request), request_id: None }),
    {
        SendRequestCommand { peer_id, request: Some(request), request_id: None }
    }

    /// Whether `start` is the command's first turn and `then` the command
    /// after it. The request leaves the command with the call that sends it;
    /// a command that holds no request has ended with a failure.
    pub open spec fn started<Resp, Ch>(self, start: Start<Resp, Req, Resp, Ch>, then: Self) -> bool {
        &&& then == (SendRequestCommand { request: None, ..self })
        &&& match self.request {
            Some(request) => start == (Start::<Resp, Req, Resp, Ch>::Call {
                call: SwarmCall::SendRequest { peer_id: self.peer_id, request },
            }),
            None => {
                &&& start matches Start::Finished { calls, result }
                &&& calls@.len() == 0
                &&& fails_with(Some(result), ErrorKind::Behaviour, "SendRequest: run called twice"@)
            },
        }
    }

    /// Whether `result` is what the command makes of the answer `reply` to
    /// the call of its first turn, and `then` the command after it.
    pub open spec fn replied<Resp>(
        self,
        reply: SwarmReply,
        result: Option<Result<Resp, Error>>,
        then: Self,
    ) -> bool {
        match reply {
            SwarmReply::Request { id } => {
                &&& result is None
                &&& then == (SendRequestCommand { request_id: Some(id), ..self })
            },
            _ => {
                &&& fails_with(result, ErrorKind::Behaviour, no_answer())
                &&& then == self
            },
        }
    }

    /// The command's first turn: it hands the request over to be sent. A
    /// command whose request is gone already is finished with a failure.
    pub fn run<Resp, Ch>(&mut self) -> (start: Start<Resp, Req, Resp, Ch>)
        ensures
            old(self).started(start, *final(self)),
    {
        match self.request.take() {
            Some(request) => Start::Call {
                call: SwarmCall::SendRequest { peer_id: self.peer_id, request },
            },
            None => Start::Finished {
                calls: Vec::new(),
                result: Err(Error::Behaviour(String::from_str("SendRequest: run called twice"))),
            },
        }
    }

    /// Takes the network stack's answer to the call of the first turn. The
    /// identifier of the request is kept, and its response is known by it.
    /// Any other answer ends the command with a failure.
    pub fn on_reply<Resp>(&mut self, reply: SwarmReply) -> (result: Option<Result<Resp, Error>>)
        ensures
            old(self).replied(reply, result, *final(self)),
    {
        match reply {
            SwarmReply::Request { id } => {
                self.request_id = Some(id);
                None
            },
            _ => unanswered(),
        }
    }

    /// Tests whether `id` is the request that this command has sent to
    /// `peer`.
    fn is_own(&self, peer: &PeerId, id: &OutboundRequestId) -> (own: bool)
        ensures
            own == (self.request_id == Some(*id) && *peer == self.peer_id),
    {
        match &self.request_id {
            Some(sent) => request_eq(sent, id) && peer_eq(peer, &self.peer_id),
            None => false,
        }
    }

    /// Shows the command an event of the network stack.
    pub fn on_event<Resp, Ch>(&mut self, event: SwarmEvent<Req, Resp, Ch>) -> (out: Observed<
        Resp,
        Req,
        Resp,
        Ch,
    >)
        ensures
            old(self).observed(event, out),
            *final(self) == *old(self),
    {
        let own = match &event {
            SwarmEvent::Response { peer, request_id, .. } => self.is_own(peer, request_id),
            SwarmEvent::OutboundFailure { peer, request_id, .. } => self.is_own(peer, request_id),
            _ => false,
        };
        if !own {
            return Observed { keep_active: true, remaining: Some(event), result: None };
        }
        match event {
            SwarmEvent::Response { peer, request_id, response } => Observed {
                keep_active: false,
                remaining: None,
                result: Some(Ok(response)),
            },
            SwarmEvent::OutboundFailure { peer, request_id, error } => {
                let name = peer_to_string(&peer);
                let text = String::from_str("Request to ").concat(name.as_str()).concat(
                    " failed: ",
                ).concat(error.as_str());
                Observed {
                    keep_active: false,
                    remaining: None,
                    result: Some(Err(Error::Behaviour(text))),
                }
            },
            other => Observed { keep_active: true, remaining: Some(other), result: None },
        }
    }
}

} // verus!
