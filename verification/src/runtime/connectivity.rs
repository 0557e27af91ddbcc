//! What the application hears of a peer's coming and going.
//!
//! The network stack reports every connection that is made or lost, and with
//! each report how many connections to the peer stand. The application hears
//! of a peer once when the first connection stands and once when the last is
//! gone. This file states that rule over whole runs of reports.
use vstd::prelude::*;
use libp2p::PeerId;
use crate::event::NodeEvent;
use crate::runtime::event_loop::EventLoop;
use crate::swarm::SwarmEvent;

verus! {

/// The number of connections to `peer` that stand after `events`, as the
/// last report on that peer says; none before the first report.
pub open spec fn standing<Req, Resp, Ch>(events: Seq<SwarmEvent<Req, Resp, Ch>>, peer: PeerId) -> int
    decreases events.len(),
{
    if events.len() == 0 {
        0
    } else {
        let before = standing(events.drop_last(), peer);
        match events.last() {
            SwarmEvent::ConnectionEstablished { peer_id, num_established } => if peer_id == peer {
                num_established as int
            } else {
                before
            },
            SwarmEvent::ConnectionClosed { peer_id, num_established } => if peer_id == peer {
                num_established as int
            } else {
                before
            },
            _ => before,
        }
    }
}

/// Whether the reports on `peer` in `events` fit together: every connection
/// that is made raises the number of standing connections by one, and every
/// connection that is lost lowers it by one.
pub open spec fn counted_right<Req, Resp, Ch>(events: Seq<SwarmEvent<Req, Resp, Ch>>, peer: PeerId) -> bool
    decreases events.len(),
{
    if events.len() == 0 {
        true
    } else {
        let before = standing(events.drop_last(), peer);
        &&& counted_right(events.drop_last(), peer)
        &&& match events.last() {
            SwarmEvent::ConnectionEstablished { peer_id, num_established } => peer_id == peer
                ==> num_established == before + 1,
            SwarmEvent::ConnectionClosed { peer_id, num_established } => peer_id == peer ==> before
                >= 1 && num_established == before - 1,
            _ => true,
        }
    }
}

/// What the application hears of `peer` in the course of `events`, in order:
/// `true` for each time it is told that the peer is connected, `false` for
/// each time it is told that the peer is gone.
pub open spec fn heard<Req, Resp, Ch, H>(events: Seq<SwarmEvent<Req, Resp, Ch>>, peer: PeerId) -> Seq<
    bool,
>
    decreases events.len(),
{
    if events.len() == 0 {
        Seq::empty()
    } else {
        let before = heard::<Req, Resp, Ch, H>(events.drop_last(), peer);
        match EventLoop::<Req, Resp, Ch, H>::emitted(events.last(), 0) {
            Some(NodeEvent::PeerConnected { peer_id }) => if peer_id == peer {
                before.push(true)
            } else {
                before
            },
            Some(NodeEvent::PeerDisconnected { peer_id }) => if peer_id == peer {
                before.push(false)
            } else {
                before
            },
            _ => before,
        }
    }
}

/// Whether comings and goings take turns, a coming first.
pub open spec fn takes_turns(told: Seq<bool>) -> bool {
    forall|i: int| 0 <= i < told.len() ==> #[trigger] told[i] == (i % 2 == 0)
}

/// As long as the network stack counts right, the application hears of a
/// peer's coming and going in turns: once that the peer is connected when the
/// first connection stands, then once that it is gone when the last
/// connection is lost, and so on. At every moment the peer counts as
/// connected for the application exactly if a connection to it stands.
pub proof fn lemma_connected_and_gone_take_turns<Req, Resp, Ch, H>(
    events: Seq<SwarmEvent<Req, Resp, Ch>>,
    peer: PeerId,
)
    requires
        counted_right(events, peer),
    ensures
        takes_turns(heard::<Req, Resp, Ch, H>(events, peer)),
        standing(events, peer) >= 0,
        (heard::<Req, Resp, Ch, H>(events, peer).len() % 2 == 1) <==> standing(events, peer) > 0,
    decreases events.len(),
{
    if events.len() > 0 {
        lemma_connected_and_gone_take_turns::<Req, Resp, Ch, H>(events.drop_last(), peer);
    }
}

} // verus!
