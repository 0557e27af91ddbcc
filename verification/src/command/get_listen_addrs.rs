//! Asking for the addresses at which the node can be reached.
use vstd::prelude::*;
use libp2p::Multiaddr;
use crate::addr::{same_addrs, sorted_addrs, strictly_rising};
use crate::command::handler::Start;
use crate::swarm::SwarmView;

verus! {

/// The command that lists the node's addresses: those it listens on and
/// those at which it is known to be reachable from outside.
pub struct GetListenAddrsCommand;

impl GetListenAddrsCommand {
    /// The command.
    pub fn new() -> (command: Self) {
        GetListenAddrsCommand
    }

    /// Whether `start` is the command's only turn: nothing is called, and the
    /// command has ended with the addresses on which the node listens and
    /// those at which it is reachable from outside, in the order of their
    /// bytes, each once.
    pub open spec fn started<Req, Resp, Ch>(
        self,
        view: SwarmView,
        start: Start<Vec<Multiaddr>, Req, Resp, Ch>,
    ) -> bool {
        &&& start matches Start::Finished { calls, result }
        &&& calls@.len() == 0
        &&& result matches Ok(addrs)
        &&& strictly_rising(addrs@)
        &&& same_addrs(addrs@, view.listeners@ + view.external_addrs@)
    }

    /// The command's only turn: it answers from what is known of the network
    /// stack and is finished. The addresses come in the order of their
    /// bytes, each once.
    pub fn run<Req, Resp, Ch>(&mut self, view: &SwarmView) -> (start: Start<
        Vec<Multiaddr>,
        Req,
        Resp,
        Ch,
    >)
        ensures
            old(self).started(*view, start),
    {
        let addrs = sorted_addrs(&view.listeners, &view.external_addrs);
        Start::Finished { calls: Vec::new(), result: Ok(addrs) }
    }
}

} // verus!
