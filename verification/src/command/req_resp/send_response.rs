//! Answering an inbound request.
use vstd::prelude::*;
use crate::command::handler::{fails_with, Start};
use crate::error::{Error, ErrorKind};
use crate::swarm::{SwarmCall, SwarmReply};

verus! {

/// The command that sends the response to an inbound request through the
/// channel that came with the request.
pub struct SendResponseCommand<Resp, Ch> {
    /// The channel, until it is used.
    pub channel: Option<Ch>,
    /// The response, until it is sent.
    pub response: Option<Resp>,
}

impl<Resp, Ch> SendResponseCommand<Resp, Ch> {
    /// A command that sends `response` through `channel`.
    pub fn new(channel: Ch, response: Resp) -> (command: Self)
        ensures
            command == (SendResponseCommand { channel: Some(channel), response: Some(response) }),
    {
        SendResponseCommand { channel: Some(channel), response: Some(response) }
    }

    /// Whether `start` is the command's first turn and `then` the command
    /// after it. The channel and the response leave the command with the
    /// call that sends them; a command that lacks one of them has ended with
    /// a failure.
    pub open spec fn started<Req>(self, start: Start<(), Req, Resp, Ch>, then: Self) -> bool {
        &&& then == (SendResponseCommand::<Resp, Ch> { channel: None, response: None })
        &&& match (self.channel, self.response) {
            (Some(channel), Some(response)) => start == (Start::<(), Req, Resp, Ch>::Call {
                call: SwarmCall::SendResponse { channel, response },
            }),
            _ => {
                &&& start matches Start::Finished { calls, result }
                &&& calls@.len() == 0
                &&& fails_with(Some(result), ErrorKind::Behaviour, "SendResponse: run called twice"@)
            },
        }
    }

    /// Whether `result` is what the command makes of the answer `reply` to
    /// the call of its first turn, and `then` the command after it: the
    /// command has ended, well where the response went out and with a
    /// failure where it did not.
    pub open spec fn replied(self, reply: SwarmReply, result: Option<Result<(), Error>>, then: Self) -> bool {
        &&& then == self
        &&& match reply {
            SwarmReply::Done => result == Some(Ok::<(), Error>(())),
            _ => fails_with(result, ErrorKind::Behaviour, "Failed to send response: channel closed"@),
        }
    }

    /// The command's first turn: it hands the channel and the response over
    /// to be sent. A command whose channel or response is gone already is
    /// finished with a failure.
    pub fn run<Req>(&mut self) -> (start: Start<(), Req, Resp, Ch>)
        ensures
            old(self).started(start, *final(self)),
    {
        match (self.channel.take(), self.response.take()) {
            (Some(channel), Some(response)) => Start::Call {
                call: SwarmCall::SendResponse { channel, response },
            },
            _ => Start::Finished {
                calls: Vec::new(),
                result: Err(Error::Behaviour(String::from_str("SendResponse: run called twice"))),
            },
        }
    }

    /// Takes the network stack's answer to the call of the first turn, which
    /// ends the command: well where the response went out, and with a failure
    /// where the channel was closed.
    pub fn on_reply(&mut self, reply: SwarmReply) -> (result: Option<Result<(), Error>>)
        ensures
            old(self).replied(reply, result, *final(self)),
    {
        match reply {
            SwarmReply::Done => Some(Ok(())),
            _ => Some(
                Err(Error::Behaviour(String::from_str("Failed to send response: channel closed"))),
            ),
        }
    }
}

} // verus!
