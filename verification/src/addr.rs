//! Network addresses.
//!
//! A [`Multiaddr`] is the network stack's own type. Two things are computed
//! from addresses here: the sorted list of a node's addresses without
//! repetition, and the address on which a node listens through a relay.
use vstd::prelude::*;
use libp2p::{Multiaddr, PeerId};
use libp2p::multiaddr::Protocol;

verus! {

/// The network stack's address type: a chain of protocol segments, kept as
/// the bytes of its binary form.
#[verifier::external_type_specification]
#[verifier::external_body]
pub struct ExMultiaddr(libp2p::Multiaddr);

/// The bytes that an address holds: what `Multiaddr::to_vec` returns.
pub uninterp spec fn addr_bytes(addr: Multiaddr) -> Seq<u8>;

/// For each segment of an address, in order, whether it names a peer.
pub uninterp spec fn addr_p2p_flags(addr: Multiaddr) -> Seq<bool>;

/// An address with a segment appended that names `peer`.
pub uninterp spec fn addr_with_p2p(addr: Multiaddr, peer: PeerId) -> Multiaddr;

/// An address with the segment appended that marks a relayed circuit.
pub uninterp spec fn addr_with_circuit(addr: Multiaddr) -> Multiaddr;

/// The address that a text stands for, if it is the text of an address.
pub uninterp spec fn addr_of_text(text: Seq<char>) -> Option<Multiaddr>;

/// `Multiaddr::from_str`, which reads an address from its text and fails on
/// a text that is none.
#[verifier::external_body]
pub(crate) fn parse_addr(text: &str) -> (addr: Option<Multiaddr>)
    ensures
        addr == addr_of_text(text@),
{
    text.parse::<Multiaddr>().ok()
}

/// `Multiaddr::clone`: the copy is the same address.
pub assume_specification[ <Multiaddr as Clone>::clone ](addr: &Multiaddr) -> (copy: Multiaddr)
    ensures
        copy == *addr,
;

/// `Multiaddr::eq`, the derived comparison of the two addresses' bytes. The
/// contract claims that addresses are the same value exactly when their bytes
/// are the same.
#[verifier::external_body]
pub(crate) fn addr_eq(a: &Multiaddr, b: &Multiaddr) -> (same: bool)
    ensures
        same == (*a == *b),
        same == (addr_bytes(*a) == addr_bytes(*b)),
{
    a == b
}

/// `Multiaddr::lt`, the derived order: that of the two addresses' bytes,
/// compared as byte strings from the front.
#[verifier::external_body]
pub(crate) fn addr_lt(a: &Multiaddr, b: &Multiaddr) -> (before: bool)
    ensures
        before == bytes_before(addr_bytes(*a), addr_bytes(*b)),
{
    a < b
}

/// `Multiaddr::iter`, each segment turned into the answer to one question:
/// is it a `Protocol::P2p`?
#[verifier::external_body]
pub(crate) fn p2p_flags(addr: &Multiaddr) -> (flags: Vec<bool>)
    ensures
        flags@ == addr_p2p_flags(*addr),
{
    addr.iter().map(|p| matches!(p, Protocol::P2p(_))).collect()
}

/// `Multiaddr::with` on a copy of `addr`, with `Protocol::P2p(peer)`. The
/// segments of the address stay as they are, and one that names a peer
/// stands behind them.
#[verifier::external_body]
pub(crate) fn with_p2p(addr: &Multiaddr, peer: &PeerId) -> (out: Multiaddr)
    ensures
        out == addr_with_p2p(*addr, *peer),
        addr_p2p_flags(out) == addr_p2p_flags(*addr).push(true),
{
    addr.clone().with(Protocol::P2p(*peer))
}

/// `Multiaddr::with`, with `Protocol::P2pCircuit`. The segments of the
/// address stay as they are, and one that names no peer stands behind them.
#[verifier::external_body]
pub(crate) fn with_circuit(addr: Multiaddr) -> (out: Multiaddr)
    ensures
        out == addr_with_circuit(addr),
        addr_p2p_flags(out) == addr_p2p_flags(addr).push(false),
{
    addr.with(Protocol::P2pCircuit)
}

/// The order of byte strings: the first byte that differs decides, and a
/// string comes before each of its proper extensions.
pub open spec fn bytes_before(a: Seq<u8>, b: Seq<u8>) -> bool
    decreases a.len(),
{
    if b.len() == 0 {
        false
    } else if a.len() == 0 {
        true
    } else if a[0] != b[0] {
        a[0] < b[0]
    } else {
        bytes_before(a.drop_first(), b.drop_first())
    }
}

/// No byte string comes before itself.
pub proof fn lemma_before_irreflexive(a: Seq<u8>)
    ensures
        !bytes_before(a, a),
    decreases a.len(),
{
    if a.len() > 0 {
        lemma_before_irreflexive(a.drop_first());
    }
}

/// The order of byte strings is transitive.
pub proof fn lemma_before_transitive(a: Seq<u8>, b: Seq<u8>, c: Seq<u8>)
    requires
        bytes_before(a, b),
        bytes_before(b, c),
    ensures
        bytes_before(a, c),
    decreases a.len(),
{
    if a.len() > 0 && b.len() > 0 && c.len() > 0 {
        if a[0] == b[0] && b[0] == c[0] {
            lemma_before_transitive(a.drop_first(), b.drop_first(), c.drop_first());
        }
    }
}

/// Of two different byte strings one comes before the other.
pub proof fn lemma_before_total(a: Seq<u8>, b: Seq<u8>)
    ensures
        a == b || bytes_before(a, b) || bytes_before(b, a),
    decreases a.len(),
{
    if a.len() == 0 || b.len() == 0 {
        if a.len() == 0 && b.len() == 0 {
            assert(a =~= b);
        }
    } else if a[0] == b[0] {
        lemma_before_total(a.drop_first(), b.drop_first());
        if a.drop_first() == b.drop_first() {
            assert(a =~= seq![a[0]] + a.drop_first());
            assert(b =~= seq![b[0]] + b.drop_first());
        }
    }
}

/// Whether the addresses stand in strictly rising order of their bytes, which
/// leaves no room for a repetition.
pub open spec fn strictly_rising(addrs: Seq<Multiaddr>) -> bool {
    forall|i: int, j: int|
        0 <= i < j < addrs.len() ==> bytes_before(
            #[trigger] addr_bytes(addrs[i]),
            #[trigger] addr_bytes(addrs[j]),
        )
}

/// Whether two lists hold the same addresses, whatever their order and
/// however often each occurs.
pub open spec fn same_addrs(a: Seq<Multiaddr>, b: Seq<Multiaddr>) -> bool {
    forall|x: Multiaddr| a.contains(x) <==> b.contains(x)
}

/// Whether an address has a segment that names a peer.
pub open spec fn names_a_peer(addr: Multiaddr) -> bool {
    addr_p2p_flags(addr).contains(true)
}

/// The address on which a node listens through the relay `peer` that is
/// reached at `addr`: `addr`, followed by the relay's identifier unless a
/// segment of `addr` names a peer already, followed by the circuit marker.
pub open spec fn circuit_addr(addr: Multiaddr, peer: PeerId) -> Multiaddr {
    if names_a_peer(addr) {
        addr_with_circuit(addr)
    } else {
        addr_with_circuit(addr_with_p2p(addr, peer))
    }
}

/// Whether one of the flags is set.
fn any_set(flags: &Vec<bool>) -> (found: bool)
    ensures
        found == flags@.contains(true),
{
    let mut i: usize = 0;
    while i < flags.len()
        invariant
            i <= flags.len(),
            forall|k: int| 0 <= k < i ==> !flags@[k],
        decreases flags.len() - i,
    {
        if flags[i] {
            return true;
        }
        i += 1;
    }
    false
}

/// For each segment of the address that [`circuit_addr`] gives, whether it
/// names a peer: the segments of `addr` as they are, then one that names the
/// relay unless one of `addr` names a peer, then the circuit marker.
pub open spec fn circuit_flags(addr: Multiaddr) -> Seq<bool> {
    if names_a_peer(addr) {
        addr_p2p_flags(addr).push(false)
    } else {
        addr_p2p_flags(addr).push(true).push(false)
    }
}

/// Builds the address on which to ask the relay `peer`, reached at `addr`, for
/// a reservation. The address names a peer before its last segment, which is
/// the circuit marker.
pub fn relay_circuit_addr(addr: &Multiaddr, peer: &PeerId) -> (out: Multiaddr)
    ensures
        out == circuit_addr(*addr, *peer),
        addr_p2p_flags(out) == circuit_flags(*addr),
        addr_p2p_flags(out).drop_last().contains(true),
        !addr_p2p_flags(out).last(),
{
    let flags = p2p_flags(addr);
    let base = if any_set(&flags) {
        addr.clone()
    } else {
        with_p2p(addr, peer)
    };
    proof {
        let held = addr_p2p_flags(*addr);
        if names_a_peer(*addr) {
            assert(held.push(false).drop_last() =~= held);
        } else {
            assert(held.push(true).push(false).drop_last() =~= held.push(true));
            assert(held.push(true)[held.len() as int]);
        }
    }
    with_circuit(base)
}

/// Puts `addr` into a strictly rising list at its place, unless the list
/// holds it already.
fn insert_rising(addrs: &mut Vec<Multiaddr>, addr: Multiaddr)
    requires
        strictly_rising(old(addrs)@),
    ensures
        strictly_rising(final(addrs)@),
        forall|x: Multiaddr| final(addrs)@.contains(x) <==> (old(addrs)@.contains(x) || x == addr),
{
    let mut i: usize = 0;
    while i < addrs.len() && addr_lt(&addrs[i], &addr)
        invariant
            i <= addrs.len(),
            *addrs == *old(addrs),
            forall|k: int| 0 <= k < i ==> bytes_before(#[trigger] addr_bytes(addrs@[k]), addr_bytes(addr)),
        decreases addrs.len() - i,
    {
        i += 1;
    }
    if i < addrs.len() && addr_eq(&addrs[i], &addr) {
        assert(addrs@.contains(addr));
        return ;
    }
    proof {
        let before = addrs@;
        let after = before.insert(i as int, addr);
        assert forall|a: int, b: int| 0 <= a < b < after.len() implies bytes_before(
            #[trigger] addr_bytes(after[a]),
            #[trigger] addr_bytes(after[b]),
        ) by {
            if b == i {
                assert(after[a] == before[a]);
            } else if a == i {
                assert(after[b] == before[b - 1]);
                lemma_before_total(addr_bytes(addr), addr_bytes(before[i as int]));
                if b - 1 > i {
                    lemma_before_transitive(
                        addr_bytes(addr),
                        addr_bytes(before[i as int]),
                        addr_bytes(before[b - 1]),
                    );
                }
            } else {
                let a0 = if a < i { a } else { a - 1 };
                let b0 = if b < i { b } else { b - 1 };
                assert(after[a] == before[a0]);
                assert(after[b] == before[b0]);
            }
        }
        assert forall|x: Multiaddr| after.contains(x) <==> (before.contains(x) || x == addr) by {
            if before.contains(x) {
                let k = choose|k: int| 0 <= k < before.len() && before[k] == x;
                let k1 = if k < i { k } else { k + 1 };
                assert(after[k1] == x);
            }
            if x == addr {
                assert(after[i as int] == x);
            }
            if after.contains(x) {
                let k = choose|k: int| 0 <= k < after.len() && after[k] == x;
                if k != i {
                    let k0 = if k < i { k } else { k - 1 };
                    assert(before[k0] == x);
                }
            }
        }
    }
    addrs.insert(i, addr);
}

/// The addresses of `listeners` and of `external`, in the order of their
/// bytes, each once.
pub fn sorted_addrs(listeners: &Vec<Multiaddr>, external: &Vec<Multiaddr>) -> (out: Vec<Multiaddr>)
    ensures
        strictly_rising(out@),
        same_addrs(out@, listeners@ + external@),
{
    let mut out: Vec<Multiaddr> = Vec::new();
    let mut i: usize = 0;
    while i < listeners.len()
        invariant
            i <= listeners.len(),
            strictly_rising(out@),
            same_addrs(out@, listeners@.take(i as int)),
        decreases listeners.len() - i,
    {
        proof {
            let next = listeners@.take(i + 1);
            assert(next == listeners@.take(i as int).push(listeners@[i as int]));
            assert forall|x: Multiaddr| next.contains(x) <==> (listeners@.take(i as int).contains(x)
                || x == listeners@[i as int]) by {
                lemma_push_contains(listeners@.take(i as int), listeners@[i as int], x);
            }
        }
        insert_rising(&mut out, listeners[i].clone());
        i += 1;
    }
    assert(listeners@.take(listeners.len() as int) == listeners@);
    let mut j: usize = 0;
    while j < external.len()
        invariant
            j <= external.len(),
            strictly_rising(out@),
            same_addrs(out@, listeners@ + external@.take(j as int)),
        decreases external.len() - j,
    {
        proof {
            let seen = listeners@ + external@.take(j as int);
            let next = listeners@ + external@.take(j + 1);
            assert(next == seen.push(external@[j as int]));
            assert forall|x: Multiaddr| next.contains(x) <==> (seen.contains(x) || x
                == external@[j as int]) by {
                lemma_push_contains(seen, external@[j as int], x);
            }
        }
        insert_rising(&mut out, external[j].clone());
        j += 1;
    }
    assert(external@.take(external.len() as int) == external@);
    out
}

/// What a list holds after one more item was put at its end.
proof fn lemma_push_contains(s: Seq<Multiaddr>, last: Multiaddr, x: Multiaddr)
    ensures
        s.push(last).contains(x) <==> (s.contains(x) || x == last),
{
    if s.contains(x) {
        let k = choose|k: int| 0 <= k < s.len() && s[k] == x;
        assert(s.push(last)[k] == x);
    }
    if x == last {
        assert(s.push(last)[s.len() as int] == x);
    }
}

/// Two strictly rising lists that hold the same addresses are the same list:
/// the sorted list of a set of addresses is determined.
pub proof fn lemma_rising_is_determined(a: Seq<Multiaddr>, b: Seq<Multiaddr>)
    requires
        strictly_rising(a),
        strictly_rising(b),
        same_addrs(a, b),
    ensures
        a == b,
    decreases a.len(),
{
    if a.len() == 0 {
        if b.len() > 0 {
            assert(b.contains(b[0]));
        }
        assert(a =~= b);
    } else if b.len() == 0 {
        assert(a.contains(a[0]));
    } else {
        // the two first items are each the least of the same set
        assert(a.contains(a[0]));
        assert(b.contains(b[0]));
        let i = choose|i: int| 0 <= i < b.len() && b[i] == a[0];
        let j = choose|j: int| 0 <= j < a.len() && a[j] == b[0];
        if i > 0 && j > 0 {
            lemma_before_transitive(addr_bytes(b[0]), addr_bytes(b[i]), addr_bytes(a[j]));
            lemma_before_irreflexive(addr_bytes(b[0]));
        } else if i > 0 {
            lemma_before_irreflexive(addr_bytes(b[0]));
        } else if j > 0 {
            lemma_before_irreflexive(addr_bytes(a[0]));
        }
        assert(a[0] == b[0]);
        let ta = a.drop_first();
        let tb = b.drop_first();
        assert forall|x: Multiaddr| ta.contains(x) <==> tb.contains(x) by {
            if ta.contains(x) {
                let k = choose|k: int| 0 <= k < ta.len() && ta[k] == x;
                assert(a[k + 1] == x);
                assert(a.contains(x));
                let m = choose|m: int| 0 <= m < b.len() && b[m] == x;
                if m == 0 {
                    lemma_before_irreflexive(addr_bytes(a[0]));
                }
                assert(tb[m - 1] == x);
            }
            if tb.contains(x) {
                let k = choose|k: int| 0 <= k < tb.len() && tb[k] == x;
                assert(b[k + 1] == x);
                assert(b.contains(x));
                let m = choose|m: int| 0 <= m < a.len() && a[m] == x;
                if m == 0 {
                    lemma_before_irreflexive(addr_bytes(b[0]));
                }
                assert(ta[m - 1] == x);
            }
        }
        assert forall|p: int, q: int| 0 <= p < q < ta.len() implies bytes_before(
            #[trigger] addr_bytes(ta[p]),
            #[trigger] addr_bytes(ta[q]),
        ) by {
            assert(ta[p] == a[p + 1] && ta[q] == a[q + 1]);
        }
        assert forall|p: int, q: int| 0 <= p < q < tb.len() implies bytes_before(
            #[trigger] addr_bytes(tb[p]),
            #[trigger] addr_bytes(tb[q]),
        ) by {
            assert(tb[p] == b[p + 1] && tb[q] == b[q + 1]);
        }
        lemma_rising_is_determined(ta, tb);
        assert(a =~= seq![a[0]] + ta);
        assert(b =~= seq![b[0]] + tb);
    }
}

} // verus!
