//! Noting addresses of a peer.
use vstd::prelude::*;
use libp2p::{Multiaddr, PeerId};
use crate::command::handler::Start;
use crate::error::Error;
use crate::swarm::SwarmCall;

verus! {

/// The command that notes addresses of a peer in the address book.
pub struct AddPeerAddrsCommand {
    /// The peer that is reached at the addresses.
    pub peer_id: PeerId,
    /// The addresses.
    pub addrs: Vec<Multiaddr>,
}

impl AddPeerAddrsCommand {
    /// The calls that note each of `addrs` for `peer`.
    pub open spec fn calls<Req, Resp, Ch>(peer: PeerId, addrs: Seq<Multiaddr>) -> Seq<
        SwarmCall<Req, Resp, Ch>,
    > {
        Seq::new(addrs.len(), |i: int| SwarmCall::AddPeerAddress { peer_id: peer, addr: addrs[i] })
    }

    /// A command that notes `addrs` for `peer_id`.
    pub fn new(peer_id: PeerId, addrs: Vec<Multiaddr>) -> (command: Self)
        ensures
            command.peer_id == peer_id,
            command.addrs == addrs,
    {
        AddPeerAddrsCommand { peer_id, addrs }
    }

    /// Whether `start` is the command's only turn and `then` the command
    /// after it: one call goes out for each address, in the order given, the
    /// command has ended well, and is itself unchanged.
    pub open spec fn started<Req, Resp, Ch>(self, start: Start<(), Req, Resp, Ch>, then: Self) -> bool {
        &&& then == self
        &&& start matches Start::Finished { calls, result }
        &&& calls@ == Self::calls::<Req, Resp, Ch>(self.peer_id, self.addrs@)
        &&& result == Ok::<(), Error>(())
    }

    /// The command's only turn: it has every address noted, in the order
    /// given, and is finished.
    pub fn run<Req, Resp, Ch>(&mut self) -> (start: Start<(), Req, Resp, Ch>)
        ensures
            old(self).started(start, *final(self)),
    {
        let mut calls: Vec<SwarmCall<Req, Resp, Ch>> = Vec::new();
        let mut i: usize = 0;
        while i < self.addrs.len()
            invariant
                i <= self.addrs.len(),
                *self == *old(self),
                calls@ == Self::calls::<Req, Resp, Ch>(self.peer_id, self.addrs@.take(i as int)),
            decreases self.addrs.len() - i,
        {
            calls.push(
                SwarmCall::AddPeerAddress { peer_id: self.peer_id, addr: self.addrs[i].clone() },
            );
            i += 1;
            assert(calls@ =~= Self::calls::<Req, Resp, Ch>(self.peer_id, self.addrs@.take(i as int)));
        }
        assert(self.addrs@.take(self.addrs.len() as int) == self.addrs@);
        Start::Finished { calls, result: Ok(()) }
    }
}

} // verus!
