//! Peer identifiers.
//!
//! A [`PeerId`] is the network stack's own type. It is carried through as an
//! opaque value; all that is ever asked of it is whether two of them are the
//! same and how one is written out.
use vstd::prelude::*;
use libp2p::PeerId;

verus! {

/// The network stack's peer identifier, a hash of a node's public key.
#[verifier::external_type_specification]
#[verifier::external_body]
pub struct ExPeerId(libp2p::PeerId);

/// The text that `PeerId`'s `Display` writes: the identifier in base 58.
pub uninterp spec fn peer_text(peer: PeerId) -> Seq<char>;

/// `PeerId::eq`. The contract claims that the derived comparison of two peer
/// identifiers holds exactly when they are the same value.
#[verifier::external_body]
pub(crate) fn peer_eq(a: &PeerId, b: &PeerId) -> (same: bool)
    ensures
        same == (*a == *b),
{
    a == b
}

/// `PeerId::to_string`. The contract names the text and claims that it is
/// determined by the identifier.
#[verifier::external_body]
pub(crate) fn peer_to_string(peer: &PeerId) -> (text: String)
    ensures
        text@ == peer_text(*peer),
{
    peer.to_string()
}

/// Whether `peer` occurs in `peers`.
pub fn contains_peer(peers: &Vec<PeerId>, peer: &PeerId) -> (found: bool)
    ensures
        found == peers@.contains(*peer),
{
    let mut i: usize = 0;
    while i < peers.len()
        invariant
            i <= peers.len(),
            forall|k: int| 0 <= k < i ==> peers@[k] != *peer,
        decreases peers.len() - i,
    {
        if peer_eq(&peers[i], peer) {
            return true;
        }
        i += 1;
    }
    false
}

/// The peers of `held` with those of `new` behind them that are not there
/// yet, each once, in the order in which `new` names them.
pub open spec fn joined(held: Seq<PeerId>, new: Seq<PeerId>) -> Seq<PeerId>
    decreases new.len(),
{
    if new.len() == 0 {
        held
    } else {
        let front = joined(held, new.drop_last());
        if front.contains(new.last()) {
            front
        } else {
            front.push(new.last())
        }
    }
}

/// Joining peers to a list keeps the list as it is at the front, brings in
/// every peer that is new and no other peer, and brings in no peer twice.
pub proof fn lemma_joined(held: Seq<PeerId>, new: Seq<PeerId>)
    ensures
        joined(held, new).len() >= held.len(),
        joined(held, new).take(held.len() as int) == held,
        forall|peer: PeerId| #[trigger]
            joined(held, new).contains(peer) <==> (held.contains(peer) || new.contains(peer)),
        held.no_duplicates() ==> joined(held, new).no_duplicates(),
    decreases new.len(),
{
    if new.len() == 0 {
        assert(held.take(held.len() as int) == held);
    } else {
        let rest = new.drop_last();
        let front = joined(held, rest);
        let all = joined(held, new);
        lemma_joined(held, rest);
        assert(all.take(held.len() as int) =~= front.take(held.len() as int));
        assert forall|peer: PeerId| #[trigger] all.contains(peer) <==> (held.contains(peer)
            || new.contains(peer)) by {
            if all.contains(peer) {
                let j = choose|j: int| 0 <= j < all.len() && all[j] == peer;
                if j < front.len() {
                    assert(front[j] == peer);
                    assert(front.contains(peer));
                    if rest.contains(peer) {
                        let i = choose|i: int| 0 <= i < rest.len() && rest[i] == peer;
                        assert(new[i] == peer);
                    }
                } else {
                    assert(new[new.len() - 1] == peer);
                }
            }
            if held.contains(peer) {
                assert(front.contains(peer));
                let j = choose|j: int| 0 <= j < front.len() && front[j] == peer;
                assert(all[j] == peer);
            }
            if new.contains(peer) {
                let i = choose|i: int| 0 <= i < new.len() && new[i] == peer;
                if i < rest.len() {
                    assert(rest[i] == peer);
                    assert(rest.contains(peer));
                    assert(front.contains(peer));
                    let j = choose|j: int| 0 <= j < front.len() && front[j] == peer;
                    assert(all[j] == peer);
                } else if front.contains(peer) {
                    let j = choose|j: int| 0 <= j < front.len() && front[j] == peer;
                    assert(all[j] == peer);
                } else {
                    assert(all[front.len() as int] == peer);
                }
            }
        }
    }
}

/// Puts those peers of `new` behind `held` that are not there yet, each
/// once.
pub fn join_peers(held: &mut Vec<PeerId>, new: &Vec<PeerId>)
    ensures
        final(held)@ == joined(old(held)@, new@),
{
    let mut i: usize = 0;
    while i < new.len()
        invariant
            i <= new.len(),
            held@ == joined(old(held)@, new@.take(i as int)),
        decreases new.len() - i,
    {
        proof {
            assert(new@.take(i + 1).drop_last() == new@.take(i as int));
        }
        if !contains_peer(held, &new[i]) {
            held.push(new[i]);
        }
        i += 1;
    }
    proof {
        assert(new@.take(new.len() as int) == new@);
    }
}

} // verus!
