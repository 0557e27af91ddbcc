//! The steps of the loop that owns the network stack.
//!
//! The loop itself, which waits for the next command or the next event of the
//! stack, is the caller's. Each step here takes what has arrived and returns
//! what is to be done: the calls to make on the stack and the event to hand
//! to the application.
use vstd::prelude::*;
use libp2p::{Multiaddr, PeerId};
use crate::addr::{circuit_addr, relay_circuit_addr};
use crate::command::handler::{channel_closed, closed, Observed, Start};
use crate::command::task::{Command, CommandOutput, CommandTask, Completion};
use crate::error::{Error, ErrorKind};
use crate::event::{NatStatus, NodeEvent};
use crate::peer::{contains_peer, peer_eq};
use crate::runtime::order::deals_with;
use crate::pending_map::{PendingEntry, PendingMap};
use crate::swarm::{SwarmCall, SwarmEvent, SwarmReply, SwarmView};
use crate::time::TimeSpan;

verus! {

/// What the loop does with an event of the network stack that no command has
/// kept for itself.
pub struct Projection<Req, Resp, Ch> {
    /// The event that goes to the application, if any does.
    pub event: Option<NodeEvent<Req>>,
    /// The calls to make on the network stack, in this order.
    pub calls: Vec<SwarmCall<Req, Resp, Ch>>,
}

/// The addresses that were noted for `peer`, in the order in which they were
/// noted.
pub open spec fn addrs_of(noted: Seq<(PeerId, Multiaddr)>, peer: PeerId) -> Seq<Multiaddr>
    decreases noted.len(),
{
    if noted.len() == 0 {
        Seq::empty()
    } else if noted.last().0 == peer {
        addrs_of(noted.drop_last(), peer).push(noted.last().1)
    } else {
        addrs_of(noted.drop_last(), peer)
    }
}

/// What is noted for the peers other than `peer`, in the same order.
pub open spec fn without_peer(noted: Seq<(PeerId, Multiaddr)>, peer: PeerId) -> Seq<
    (PeerId, Multiaddr),
>
    decreases noted.len(),
{
    if noted.len() == 0 {
        Seq::empty()
    } else if noted.last().0 == peer {
        without_peer(noted.drop_last(), peer)
    } else {
        without_peer(noted.drop_last(), peer).push(noted.last())
    }
}

/// The peers to connect to when `found` was discovered: those that are not
/// connected, each once, in the order in which they are first named.
pub open spec fn dial_targets(found: Seq<(PeerId, Multiaddr)>, connected: Seq<PeerId>) -> Seq<
    PeerId,
>
    decreases found.len(),
{
    if found.len() == 0 {
        Seq::empty()
    } else {
        let front = dial_targets(found.drop_last(), connected);
        let peer = found.last().0;
        if connected.contains(peer) || front.contains(peer) {
            front
        } else {
            front.push(peer)
        }
    }
}

/// Whether `peer` is among the peers that were found.
pub open spec fn names_peer(found: Seq<(PeerId, Multiaddr)>, peer: PeerId) -> bool {
    exists|i: int| 0 <= i < found.len() && (#[trigger] found[i]).0 == peer
}

/// Every peer that was found and is not connected is dialled, once, and no
/// other peer is.
pub proof fn lemma_dial_targets(found: Seq<(PeerId, Multiaddr)>, connected: Seq<PeerId>)
    ensures
        dial_targets(found, connected).no_duplicates(),
        forall|peer: PeerId| #[trigger]
            dial_targets(found, connected).contains(peer) <==> (!connected.contains(peer)
                && names_peer(found, peer)),
    decreases found.len(),
{
    if found.len() > 0 {
        let front = found.drop_last();
        let last = found.last().0;
        let before = dial_targets(front, connected);
        let all = dial_targets(found, connected);
        lemma_dial_targets(front, connected);
        assert forall|peer: PeerId| #[trigger] all.contains(peer) <==> (!connected.contains(peer)
            && names_peer(found, peer)) by {
            if all.contains(peer) {
                let j = choose|j: int| 0 <= j < all.len() && all[j] == peer;
                if j < before.len() {
                    assert(before[j] == peer);
                    assert(before.contains(peer));
                    let i = choose|i: int| 0 <= i < front.len() && (#[trigger] front[i]).0 == peer;
                    assert(found[i].0 == peer);
                } else {
                    assert(peer == last);
                    assert(found[found.len() - 1].0 == peer);
                }
            }
            if !connected.contains(peer) && names_peer(found, peer) {
                let i = choose|i: int| 0 <= i < found.len() && (#[trigger] found[i]).0 == peer;
                if i < front.len() {
                    assert(front[i].0 == peer);
                    assert(before.contains(peer));
                    let j = choose|j: int| 0 <= j < before.len() && before[j] == peer;
                    assert(all[j] == peer);
                } else if before.contains(peer) {
                    let j = choose|j: int| 0 <= j < before.len() && before[j] == peer;
                    assert(all[j] == peer);
                } else {
                    assert(all[before.len() as int] == peer);
                }
            }
        }
    }
}

/// The calls that note each of `addrs` for `peer` in the address book.
pub open spec fn note_calls<Req, Resp, Ch>(peer: PeerId, addrs: Seq<Multiaddr>) -> Seq<
    SwarmCall<Req, Resp, Ch>,
> {
    Seq::new(addrs.len(), |i: int| SwarmCall::AddPeerAddress { peer_id: peer, addr: addrs[i] })
}

/// The calls that note each of `addrs` for `peer`, first in the routing table
/// of the hash table and then in the address book.
pub open spec fn adopt_calls<Req, Resp, Ch>(peer: PeerId, addrs: Seq<Multiaddr>) -> Seq<
    SwarmCall<Req, Resp, Ch>,
> {
    Seq::new(
        2 * addrs.len(),
        |i: int|
            if i % 2 == 0 {
                SwarmCall::KadAddAddress { peer_id: peer, addr: addrs[i / 2] }
            } else {
                SwarmCall::AddPeerAddress { peer_id: peer, addr: addrs[i / 2] }
            },
    )
}

/// The calls that ask the relay `peer` for a reservation, one for each
/// address at which it is reached.
pub open spec fn reserve_calls<Req, Resp, Ch>(peer: PeerId, addrs: Seq<Multiaddr>) -> Seq<
    SwarmCall<Req, Resp, Ch>,
> {
    Seq::new(addrs.len(), |i: int| SwarmCall::ListenOn { addr: circuit_addr(addrs[i], peer) })
}

/// The calls that follow a discovery on the local segment: every address is
/// noted, then every peer that is not connected is dialled once.
pub open spec fn discovery_calls<Req, Resp, Ch>(
    found: Seq<(PeerId, Multiaddr)>,
    connected: Seq<PeerId>,
) -> Seq<SwarmCall<Req, Resp, Ch>> {
    let targets = dial_targets(found, connected);
    Seq::new(found.len(), |i: int| SwarmCall::AddPeerAddress { peer_id: found[i].0, addr: found[i].1 })
        + Seq::new(targets.len(), |i: int| SwarmCall::Dial { peer_id: targets[i] })
}

/// The calls that bring the node in touch with its bootstrap peers: for each
/// of them its address is noted in the routing table and in the address book,
/// and it is dialled.
pub open spec fn bootstrap_calls<Req, Resp, Ch>(peers: Seq<(PeerId, Multiaddr)>) -> Seq<
    SwarmCall<Req, Resp, Ch>,
> {
    Seq::new(
        3 * peers.len(),
        |i: int|
            if i % 3 == 0 {
                SwarmCall::KadAddAddress { peer_id: peers[i / 3].0, addr: peers[i / 3].1 }
            } else if i % 3 == 1 {
                SwarmCall::AddPeerAddress { peer_id: peers[i / 3].0, addr: peers[i / 3].1 }
            } else {
                SwarmCall::Dial { peer_id: peers[i / 3].0 }
            },
    )
}

/// The calls that make the node listen on each of `addrs`.
pub open spec fn listen_calls<Req, Resp, Ch>(addrs: Seq<Multiaddr>) -> Seq<
    SwarmCall<Req, Resp, Ch>,
> {
    Seq::new(addrs.len(), |i: int| SwarmCall::ListenOn { addr: addrs[i] })
}

/// What the loop does with an event of the network stack.
pub struct Handled<Req, Resp, Ch, H> {
    /// The commands that the event has finished, with their results, in the
    /// order in which they finished.
    pub completions: Vec<Completion<Resp, H>>,
    /// The event that goes to the application, if any does.
    pub event: Option<NodeEvent<Req>>,
    /// The calls to make on the network stack, in this order.
    pub calls: Vec<SwarmCall<Req, Resp, Ch>>,
}

/// What the loop does with a command that has arrived.
pub enum Admission<Req, Resp, Ch, H> {
    /// The command is finished with its first turn. The calls are to be made
    /// on the network stack in this order, and the result is to be delivered.
    Finished { calls: Vec<SwarmCall<Req, Resp, Ch>>, done: Completion<Resp, H> },
    /// The command asks for one call on the network stack. The stack's answer
    /// and the command go to [`EventLoop::handle_reply`].
    Call { call: SwarmCall<Req, Resp, Ch>, task: CommandTask<Req, Resp, Ch, H> },
}

/// What has arrived at the loop.
pub enum Arrival<Req, Resp, Ch, H> {
    /// A command, with the handle through which its result is delivered.
    Command { task: CommandTask<Req, Resp, Ch, H> },
    /// The news that no command will come any more: every client is gone.
    QueueClosed,
    /// An event of the network stack.
    Event { event: SwarmEvent<Req, Resp, Ch> },
}

/// What the loop does in one turn.
pub enum Turn<Req, Resp, Ch, H> {
    /// The loop ends. The commands that were still running end with the
    /// failure that the loop is closed; their results are to be delivered.
    Stop { completions: Vec<Completion<Resp, H>> },
    /// A command had its first turn.
    Admitted { admission: Admission<Req, Resp, Ch, H> },
    /// An event of the network stack was dealt with.
    Handled { handled: Handled<Req, Resp, Ch, H> },
}

/// Whether `completions` end the commands `tasks` because the loop ends: for
/// each command there is one completion, in the order of the commands, with
/// the command's handle and the failure that the loop is closed.
pub open spec fn abandoned<Req, Resp, Ch, H>(
    tasks: Seq<CommandTask<Req, Resp, Ch, H>>,
    completions: Seq<Completion<Resp, H>>,
) -> bool {
    &&& completions.len() == tasks.len()
    &&& forall|i: int|
        0 <= i < tasks.len() ==> {
            &&& (#[trigger] completions[i]).handle == tasks[i].handle
            &&& completions[i].result matches Err(failure)
            &&& failure.is(ErrorKind::Behaviour, channel_closed())
        }
}

/// For each running command, whether it stays when it sees `event`.
pub open spec fn keep_flags<Req, Resp, Ch, H>(
    tasks: Seq<CommandTask<Req, Resp, Ch, H>>,
    event: SwarmEvent<Req, Resp, Ch>,
) -> Seq<bool> {
    Seq::new(tasks.len(), |k: int| tasks[k].handler.keeps(event))
}

/// For each running command, whether it passes `event` on when it sees it.
pub open spec fn pass_flags<Req, Resp, Ch, H>(
    tasks: Seq<CommandTask<Req, Resp, Ch, H>>,
    event: SwarmEvent<Req, Resp, Ch>,
) -> Seq<bool> {
    Seq::new(tasks.len(), |k: int| !tasks[k].handler.consumes(event))
}

/// For each running command, whether `event` brings its result.
pub open spec fn finish_flags<Req, Resp, Ch, H>(
    tasks: Seq<CommandTask<Req, Resp, Ch, H>>,
    event: SwarmEvent<Req, Resp, Ch>,
) -> Seq<bool> {
    Seq::new(tasks.len(), |k: int| tasks[k].handler.finishes(event))
}

/// Whether `done` delivers what `task` has made of `event`: it carries the
/// task's handle and the result with which the command has left.
pub open spec fn delivered<Req, Resp, Ch, H>(
    task: CommandTask<Req, Resp, Ch, H>,
    event: SwarmEvent<Req, Resp, Ch>,
    done: Completion<Resp, H>,
) -> bool {
    &&& done.handle == task.handle
    &&& task.handler.observed(
        event,
        Observed {
            keep_active: false,
            remaining: if task.handler.consumes(event) {
                None
            } else {
                Some(event)
            },
            result: Some(done.result),
        },
    )
}

/// Whether `now_tasks` and `completions` are what the way `w` of `event`
/// leaves of the running commands `tasks`.
///
/// The commands that are left stand in the order that `w` names. Those that
/// have seen the event are as their kind has them after it, the others are
/// untouched. For each command that the event has finished there is one
/// completion, in the order in which they saw the event.
pub open spec fn walked<Req, Resp, Ch, H>(
    tasks: Seq<CommandTask<Req, Resp, Ch, H>>,
    event: SwarmEvent<Req, Resp, Ch>,
    now_tasks: Seq<CommandTask<Req, Resp, Ch, H>>,
    completions: Seq<Completion<Resp, H>>,
    w: Walk,
) -> bool {
    let finished = finished_of(w.seen, finish_flags(tasks, event));
    &&& now_tasks.len() == w.order.len()
    &&& 0 <= w.stop <= w.order.len()
    &&& forall|p: int|
        0 <= p < now_tasks.len() ==> {
            let k = #[trigger] w.order[p];
            &&& 0 <= k < tasks.len()
            &&& now_tasks[p].handle == tasks[k].handle
            &&& if p < w.stop {
                tasks[k].handler.after(event, now_tasks[p].handler)
            } else {
                now_tasks[p] == tasks[k]
            }
        }
    &&& completions.len() == finished.len()
    &&& forall|j: int|
        0 <= j < finished.len() ==> 0 <= #[trigger] finished[j] < tasks.len() && delivered(
            tasks[finished[j]],
            event,
            completions[j],
        )
}

/// Whether every one of the commands is of a kind that waits for events.
pub open spec fn all_wait<Req, Resp, Ch, H>(tasks: Seq<CommandTask<Req, Resp, Ch, H>>) -> bool {
    forall|k: int| 0 <= k < tasks.len() ==> (#[trigger] tasks[k]).handler.waits()
}

/// A command that waits for events leaves the running ones only with a
/// result: where all running commands wait, an event finishes exactly those
/// that do not stay.
pub proof fn lemma_leaving_commands_deliver<Req, Resp, Ch, H>(
    tasks: Seq<CommandTask<Req, Resp, Ch, H>>,
    event: SwarmEvent<Req, Resp, Ch>,
)
    requires
        all_wait(tasks),
    ensures
        forall|k: int|
            0 <= k < tasks.len() ==> #[trigger] finish_flags(tasks, event)[k] == !keep_flags(
                tasks,
                event,
            )[k],
{
    assert forall|k: int| 0 <= k < tasks.len() implies #[trigger] finish_flags(tasks, event)[k]
        == !keep_flags(tasks, event)[k] by {
        assert(tasks[k].handler.waits());
    }
}

/// How an event makes its way along the running commands.
pub struct Walk {
    /// The running commands that are left, each named by the place it had
    /// before the event came.
    pub order: Seq<int>,
    /// The commands that have seen the event, in the order in which they saw
    /// it, named in the same way.
    pub seen: Seq<int>,
    /// The number of commands at the front of `order` that have seen the
    /// event; those behind them have not.
    pub stop: int,
    /// Whether a command has kept the event for itself.
    pub consumed: bool,
}

/// The way of an event along the commands in `order` from the place `at` on.
///
/// The command at `at` sees the event. Where it stays, the way goes on with
/// the next place; where it leaves, the last command of the list takes its
/// place and is the next to see the event. The way ends where the list ends
/// or a command keeps the event. `keeps` and `passes` say of each command,
/// by the place it had before the event came, whether it stays and whether it
/// passes the event on.
pub open spec fn walk(keeps: Seq<bool>, passes: Seq<bool>, order: Seq<int>, at: int) -> Walk
    decreases order.len() - at,
{
    if at < 0 || at >= order.len() {
        Walk { order, seen: Seq::empty(), stop: at, consumed: false }
    } else {
        let k = order[at];
        let next_order = if keeps[k] {
            order
        } else {
            order.update(at, order.last()).drop_last()
        };
        let next_at = if keeps[k] {
            at + 1
        } else {
            at
        };
        if passes[k] {
            let rest = walk(keeps, passes, next_order, next_at);
            Walk { order: rest.order, seen: seq![k] + rest.seen, stop: rest.stop, consumed: rest.consumed }
        } else {
            Walk { order: next_order, seen: seq![k], stop: next_at, consumed: true }
        }
    }
}

/// The places from the first to the one before `n`, in their order.
pub open spec fn in_order(n: nat) -> Seq<int> {
    Seq::new(n, |k: int| k)
}

/// Of the commands in `seen`, in the same order, those that `finished` marks.
pub open spec fn finished_of(seen: Seq<int>, finished: Seq<bool>) -> Seq<int>
    decreases seen.len(),
{
    if seen.len() == 0 {
        Seq::empty()
    } else if finished[seen.last()] {
        finished_of(seen.drop_last(), finished).push(seen.last())
    } else {
        finished_of(seen.drop_last(), finished)
    }
}

/// Where every command stays and passes the event on, the commands see the
/// event in the order in which they were admitted, all of them do, and the
/// list is as it was.
pub proof fn lemma_walk_in_admission_order(keeps: Seq<bool>, passes: Seq<bool>, n: nat, at: int)
    requires
        keeps.len() == n,
        passes.len() == n,
        0 <= at <= n,
        forall|k: int| 0 <= k < n ==> keeps[k] && passes[k],
    ensures
        walk(keeps, passes, in_order(n), at).order == in_order(n),
        walk(keeps, passes, in_order(n), at).seen == in_order(n).skip(at),
        walk(keeps, passes, in_order(n), at).stop == n,
        !walk(keeps, passes, in_order(n), at).consumed,
    decreases n - at,
{
    if at < n {
        lemma_walk_in_admission_order(keeps, passes, n, at + 1);
        assert(in_order(n).skip(at) =~= seq![at] + in_order(n).skip(at + 1));
    } else {
        assert(in_order(n).skip(at) =~= Seq::<int>::empty());
    }
}

/// Whether every one of `places` names a command of a list of `n`.
pub open spec fn within(places: Seq<int>, n: int) -> bool {
    forall|i: int| 0 <= i < places.len() ==> 0 <= #[trigger] places[i] < n
}

/// The number of the commands in `seen` that do not stay.
pub open spec fn left(seen: Seq<int>, keeps: Seq<bool>) -> nat
    decreases seen.len(),
{
    if seen.len() == 0 {
        0
    } else if keeps[seen[0]] {
        left(seen.drop_first(), keeps)
    } else {
        1 + left(seen.drop_first(), keeps)
    }
}

/// Whether the way `w` from the place `at` on accounts for every command in
/// `order`.
///
/// No command sees the event twice, and those that see it are among those
/// from `at` on. The commands that are left are, each once, those of `order`
/// that have stayed or were not reached; those before `at` stand where they
/// stood, behind them stand those that have seen the event and stayed, and
/// behind these those that were not reached. The list is shorter by the
/// number of commands that have left. Every command that has seen the event
/// has passed it on, but for the last one where the event was kept, and
/// where it was not kept, every command from `at` on has seen it.
pub open spec fn accounted(
    keeps: Seq<bool>,
    passes: Seq<bool>,
    order: Seq<int>,
    at: int,
    n: int,
    w: Walk,
) -> bool {
    &&& w.seen.no_duplicates()
    &&& w.order.no_duplicates()
    &&& within(w.seen, n)
    &&& within(w.order, n)
    &&& at <= w.stop <= w.order.len()
    &&& forall|p: int| 0 <= p < at ==> #[trigger] w.order[p] == order[p]
    &&& forall|x: int| #[trigger] w.seen.contains(x) ==> order.skip(at).contains(x)
    &&& forall|x: int| #[trigger]
        w.order.contains(x) <==> (order.contains(x) && (!w.seen.contains(x) || keeps[x]))
    &&& forall|p: int| at <= p < w.stop ==> w.seen.contains(#[trigger] w.order[p])
    &&& forall|p: int| w.stop <= p < w.order.len() ==> !w.seen.contains(#[trigger] w.order[p])
    &&& w.order.len() + left(w.seen, keeps) == order.len()
    &&& w.consumed <==> (w.seen.len() > 0 && !passes[w.seen.last()])
    &&& forall|j: int| 0 <= j < w.seen.len() - 1 ==> passes[#[trigger] w.seen[j]]
    &&& !w.consumed ==> w.stop == w.order.len()
}

/// What is left of a list without repetition when the item at `at` leaves and
/// the last item takes its place: the other items, each once, with those
/// before `at` where they stood.
proof fn lemma_swap_removed(order: Seq<int>, at: int)
    requires
        order.no_duplicates(),
        0 <= at < order.len(),
    ensures
        ({
            let rest = order.update(at, order.last()).drop_last();
            &&& rest.len() == order.len() - 1
            &&& rest.no_duplicates()
            &&& forall|x: int| #[trigger] rest.contains(x) <==> (order.contains(x) && x != order[at])
            &&& forall|p: int| 0 <= p < at ==> #[trigger] rest[p] == order[p]
            &&& forall|x: int| #[trigger] rest.skip(at).contains(x) ==> order.skip(at).contains(x)
        }),
{
    let rest = order.update(at, order.last()).drop_last();
    let last = order.len() - 1;
    assert forall|i: int| 0 <= i < rest.len() implies #[trigger] rest[i] == order[if i == at {
        last
    } else {
        i
    }] by {}
    assert forall|i: int, j: int| 0 <= i < rest.len() && 0 <= j < rest.len() && i != j implies rest[i]
        != rest[j] by {
        let fi = if i == at {
            last
        } else {
            i
        };
        let fj = if j == at {
            last
        } else {
            j
        };
        assert(rest[i] == order[fi] && rest[j] == order[fj]);
        assert(fi != fj);
    }
    assert forall|x: int| #[trigger] rest.contains(x) <==> (order.contains(x) && x != order[at]) by {
        if rest.contains(x) {
            let i = choose|i: int| 0 <= i < rest.len() && rest[i] == x;
            let fi = if i == at {
                last
            } else {
                i
            };
            assert(order[fi] == x);
            assert(fi != at);
        }
        if order.contains(x) && x != order[at] {
            let j = choose|j: int| 0 <= j < order.len() && order[j] == x;
            if j == last {
                assert(rest[at] == x);
            } else {
                assert(rest[j] == x);
            }
        }
    }
    assert forall|x: int| #[trigger] rest.skip(at).contains(x) implies order.skip(at).contains(x) by {
        let tail = rest.skip(at);
        let i = choose|i: int| 0 <= i < tail.len() && tail[i] == x;
        let fi = if at + i == at {
            last
        } else {
            at + i
        };
        assert(rest[at + i] == order[fi]);
        assert(order.skip(at)[fi - at] == x);
    }
}

/// The way of an event accounts for every command, from whatever place it
/// starts.
proof fn lemma_walk_accounts_from(keeps: Seq<bool>, passes: Seq<bool>, order: Seq<int>, at: int, n: int)
    requires
        keeps.len() == n,
        passes.len() == n,
        order.no_duplicates(),
        within(order, n),
        0 <= at <= order.len(),
    ensures
        accounted(keeps, passes, order, at, n, walk(keeps, passes, order, at)),
    decreases order.len() - at,
{
    let w = walk(keeps, passes, order, at);
    if at >= order.len() {
        assert(w.seen =~= Seq::<int>::empty());
        assert(accounted(keeps, passes, order, at, n, w));
    } else {
        let k = order[at];
        assert(order.skip(at)[0] == k);
        assert(order.contains(k));
        if keeps[k] {
            assert forall|p: int| at < p < order.len() implies #[trigger] order[p] != k by {}
            if passes[k] {
                lemma_walk_accounts_from(keeps, passes, order, at + 1, n);
                let rest = walk(keeps, passes, order, at + 1);
                lemma_seen_first(k, rest.seen, keeps);
                assert forall|x: int| #[trigger] rest.seen.contains(x) implies order.skip(at).contains(x)
                    && x != k by {
                    let tail = order.skip(at + 1);
                    assert(tail.contains(x));
                    let i = choose|i: int| 0 <= i < tail.len() && tail[i] == x;
                    assert(order.skip(at)[i + 1] == x);
                    assert(order[at + 1 + i] == x);
                }
                assert(rest.order[at] == k);
                assert forall|p: int| at <= p < w.stop implies w.seen.contains(#[trigger] w.order[p]) by {
                    if p > at {
                        assert(rest.seen.contains(rest.order[p]));
                    }
                }
                assert forall|p: int| w.stop <= p < w.order.len() implies !w.seen.contains(
                    #[trigger] w.order[p],
                ) by {
                    assert(!rest.seen.contains(rest.order[p]));
                    assert(rest.order[p] != rest.order[at]);
                }
                assert(accounted(keeps, passes, order, at, n, w));
            } else {
                assert(w.seen =~= seq![k]);
                assert(w.seen[0] == k);
                assert(w.seen.drop_first() =~= Seq::<int>::empty());
                assert(left(w.seen.drop_first(), keeps) == 0);
                assert forall|x: int| #[trigger] w.seen.contains(x) <==> x == k by {}
                assert forall|p: int| w.stop <= p < w.order.len() implies !w.seen.contains(
                    #[trigger] w.order[p],
                ) by {
                    assert(order[p] != k);
                }
                assert(accounted(keeps, passes, order, at, n, w));
            }
        } else {
            let next = order.update(at, order.last()).drop_last();
            lemma_swap_removed(order, at);
            assert(within(next, n)) by {
                assert forall|i: int| 0 <= i < next.len() implies 0 <= #[trigger] next[i] < n by {
                    assert(next.contains(next[i]));
                    assert(order.contains(next[i]));
                    let j = choose|j: int| 0 <= j < order.len() && order[j] == next[i];
                    assert(0 <= order[j] < n);
                }
            }
            if passes[k] {
                lemma_walk_accounts_from(keeps, passes, next, at, n);
                let rest = walk(keeps, passes, next, at);
                lemma_seen_first(k, rest.seen, keeps);
                assert forall|x: int| #[trigger] rest.seen.contains(x) implies order.skip(at).contains(x)
                    && x != k by {
                    let tail = next.skip(at);
                    assert(tail.contains(x));
                    let i = choose|i: int| 0 <= i < tail.len() && tail[i] == x;
                    assert(next[at + i] == x);
                    assert(next.contains(x));
                }
                assert forall|p: int| w.stop <= p < w.order.len() implies !w.seen.contains(
                    #[trigger] w.order[p],
                ) by {
                    assert(!rest.seen.contains(rest.order[p]));
                    assert(rest.order.contains(rest.order[p]));
                    assert(next.contains(rest.order[p]));
                }
                assert forall|p: int| at <= p < w.stop implies w.seen.contains(#[trigger] w.order[p]) by {
                    assert(rest.seen.contains(rest.order[p]));
                }
                assert(accounted(keeps, passes, order, at, n, w));
            } else {
                assert(w.seen =~= seq![k]);
                assert(w.seen[0] == k);
                assert(w.seen.drop_first() =~= Seq::<int>::empty());
                assert(left(w.seen.drop_first(), keeps) == 0);
                assert forall|x: int| #[trigger] w.seen.contains(x) <==> x == k by {}
                assert forall|p: int| w.stop <= p < w.order.len() implies !w.seen.contains(
                    #[trigger] w.order[p],
                ) by {
                    assert(next.contains(next[p]));
                }
                assert(accounted(keeps, passes, order, at, n, w));
            }
        }
    }
}

/// What is known of a list of commands that have seen the event when one
/// more command has seen it before them.
proof fn lemma_seen_first(k: int, seen: Seq<int>, keeps: Seq<bool>)
    ensures
        ({
            let all = seq![k] + seen;
            &&& all.len() == seen.len() + 1
            &&& all[0] == k
            &&& forall|j: int| 0 <= j < seen.len() ==> #[trigger] all[j + 1] == seen[j]
            &&& forall|x: int| #[trigger] all.contains(x) <==> (x == k || seen.contains(x))
            &&& (seen.no_duplicates() && !seen.contains(k)) ==> all.no_duplicates()
            &&& left(all, keeps) == left(seen, keeps) + if keeps[k] {
                0nat
            } else {
                1nat
            }
            &&& seen.len() > 0 ==> all.last() == seen.last()
        }),
{
    let all = seq![k] + seen;
    assert(all.drop_first() =~= seen);
    assert forall|x: int| #[trigger] all.contains(x) <==> (x == k || seen.contains(x)) by {
        if seen.contains(x) {
            let j = choose|j: int| 0 <= j < seen.len() && seen[j] == x;
            assert(all[j + 1] == x);
        }
        if x == k {
            assert(all[0] == x);
        }
        if all.contains(x) {
            let j = choose|j: int| 0 <= j < all.len() && all[j] == x;
            if j > 0 {
                assert(seen[j - 1] == x);
            }
        }
    }
    if seen.no_duplicates() && !seen.contains(k) {
        assert forall|i: int, j: int| 0 <= i < all.len() && 0 <= j < all.len() && i != j implies all[i]
            != all[j] by {
            if i > 0 {
                assert(seen.contains(seen[i - 1]));
            }
            if j > 0 {
                assert(seen.contains(seen[j - 1]));
            }
        }
    }
}

/// The way of an event accounts for every running command.
///
/// No command sees the event twice. The commands that are left are, each
/// once, those that have stayed or were not reached, and the list is shorter
/// by the number of commands that have left. Every command that has seen the
/// event has passed it on, but for the last one where the event was kept. An
/// event that no command keeps for itself is not kept: every command sees
/// it, and it goes on to the application.
pub proof fn lemma_walk_accounts_for_every_command(keeps: Seq<bool>, passes: Seq<bool>, n: nat)
    requires
        keeps.len() == n,
        passes.len() == n,
    ensures
        ({
            let w = walk(keeps, passes, in_order(n), 0);
            &&& w.seen.no_duplicates()
            &&& within(w.seen, n as int)
            &&& w.order.no_duplicates()
            &&& within(w.order, n as int)
            &&& forall|k: int|
                0 <= k < n ==> (#[trigger] w.order.contains(k) <==> (!w.seen.contains(k) || keeps[k]))
            &&& w.order.len() + left(w.seen, keeps) == n
            &&& 0 <= w.stop <= w.order.len()
            &&& forall|p: int| 0 <= p < w.stop ==> w.seen.contains(#[trigger] w.order[p])
            &&& forall|p: int| w.stop <= p < w.order.len() ==> !w.seen.contains(#[trigger] w.order[p])
            &&& forall|j: int| 0 <= j < w.seen.len() - 1 ==> passes[#[trigger] w.seen[j]]
            &&& w.consumed <==> (w.seen.len() > 0 && !passes[w.seen.last()])
            &&& (forall|k: int| 0 <= k < n ==> passes[k]) ==> !w.consumed
            &&& !w.consumed ==> forall|k: int| 0 <= k < n ==> #[trigger] w.seen.contains(k)
        }),
{
    let order = in_order(n);
    let w = walk(keeps, passes, order, 0);
    assert(order.no_duplicates());
    assert(within(order, n as int));
    lemma_walk_accounts_from(keeps, passes, order, 0, n as int);
    assert forall|k: int| 0 <= k < n implies #[trigger] order.contains(k) by {
        assert(order[k] == k);
    }
    if w.seen.len() > 0 {
        assert(0 <= w.seen[w.seen.len() - 1] < n);
    }
    if !w.consumed {
        assert forall|k: int| 0 <= k < n implies #[trigger] w.seen.contains(k) by {
            if !w.seen.contains(k) {
                assert(w.order.contains(k));
                let p = choose|p: int| 0 <= p < w.order.len() && w.order[p] == k;
                assert(w.seen.contains(w.order[p]));
            }
        }
    }
}

/// The state of the loop. `H` is the type of the handles through which the
/// results of commands are delivered.
pub struct EventLoop<Req, Resp, Ch, H> {
    /// The running commands, in the order in which they were admitted.
    pub active_commands: Vec<CommandTask<Req, Resp, Ch, H>>,
    /// The node's own protocol version. A peer that reports another one is
    /// kept out of the routing table.
    pub protocol_version: String,
    /// The identifier that the next inbound request gets.
    pub pending_id_counter: u64,
    /// The addresses of the bootstrap peers to which no connection has stood
    /// yet. Each is asked for a relay reservation once it is connected.
    pub bootstrap_peers: Vec<(PeerId, Multiaddr)>,
}

impl<Req, Resp, Ch, H> EventLoop<Req, Resp, Ch, H> {
    /// The event that the application gets for `event`, when the next
    /// inbound request gets the identifier `next_id`.
    pub open spec fn emitted(event: SwarmEvent<Req, Resp, Ch>, next_id: u64) -> Option<
        NodeEvent<Req>,
    > {
        match event {
            SwarmEvent::NewListenAddr { address } => Some(NodeEvent::Listening { addr: address }),
            SwarmEvent::ConnectionEstablished { peer_id, num_established } => if num_established
                == 1 {
                Some(NodeEvent::PeerConnected { peer_id })
            } else {
                None
            },
            SwarmEvent::ConnectionClosed { peer_id, num_established } => if num_established == 0 {
                Some(NodeEvent::PeerDisconnected { peer_id })
            } else {
                None
            },
            SwarmEvent::RelayReservationAccepted { relay_peer_id, renewal } => Some(
                NodeEvent::RelayReservationAccepted { relay_peer_id, renewal },
            ),
            SwarmEvent::InboundRequest { peer, request, channel } => Some(
                NodeEvent::InboundRequest { peer_id: peer, pending_id: next_id, request },
            ),
            SwarmEvent::HolePunch { remote_peer_id, result } => match result {
                Ok(_) => Some(NodeEvent::HolePunchSucceeded { peer_id: remote_peer_id }),
                Err(error) => Some(NodeEvent::HolePunchFailed { peer_id: remote_peer_id, error }),
            },
            SwarmEvent::MdnsDiscovered { peers } => Some(NodeEvent::PeersDiscovered { peers }),
            SwarmEvent::Ping { peer, result } => match result {
                Ok(rtt) => Some(
                    NodeEvent::PingSuccess {
                        peer_id: peer,
                        rtt_ms: ((rtt.nanos / 1_000_000) % 0x1_0000_0000_0000_0000) as u64,
                    },
                ),
                Err(_) => None,
            },
            SwarmEvent::IdentifyReceived {
                peer_id,
                protocol_version,
                agent_version,
                listen_addrs,
            } => Some(NodeEvent::IdentifyReceived { peer_id, agent_version, protocol_version }),
            SwarmEvent::AutonatProbe { tested_addr, server, result } => match result {
                Ok(_) => Some(
                    NodeEvent::NatStatusChanged {
                        status: NatStatus::Public,
                        public_addr: Some(tested_addr),
                    },
                ),
                Err(_) => None,
            },
            _ => None,
        }
    }

    /// The calls on the network stack that `event` brings about.
    pub open spec fn effects(
        self,
        event: SwarmEvent<Req, Resp, Ch>,
        view: SwarmView,
    ) -> Seq<SwarmCall<Req, Resp, Ch>> {
        match event {
            SwarmEvent::ConnectionEstablished { peer_id, num_established } => if num_established
                == 1 {
                reserve_calls(peer_id, addrs_of(self.bootstrap_peers@, peer_id))
            } else {
                Seq::empty()
            },
            SwarmEvent::MdnsDiscovered { peers } => discovery_calls(peers@, view.connected@),
            SwarmEvent::IdentifyReceived {
                peer_id,
                protocol_version,
                agent_version,
                listen_addrs,
            } => if protocol_version@ == self.protocol_version@ {
                adopt_calls(peer_id, listen_addrs@)
            } else {
                Seq::empty()
            },
            SwarmEvent::KadRoutingUpdated { peer, addresses } => note_calls(peer, addresses@),
            _ => Seq::empty(),
        }
    }

    /// The bootstrap peers that are still waited for after `event`.
    pub open spec fn waiting_after(self, event: SwarmEvent<Req, Resp, Ch>) -> Seq<
        (PeerId, Multiaddr),
    > {
        match event {
            SwarmEvent::ConnectionEstablished { peer_id, num_established } => if num_established
                == 1 {
                without_peer(self.bootstrap_peers@, peer_id)
            } else {
                self.bootstrap_peers@
            },
            _ => self.bootstrap_peers@,
        }
    }

    /// Whether `out` is what becomes of `event` when no command has kept it
    /// for itself, and `then` and `stored` are the loop and the store of
    /// channels after it.
    ///
    /// The application gets the event that [`Self::emitted`] names, and the
    /// calls that [`Self::effects`] names go to the network stack. A bootstrap
    /// peer that is connected is no longer waited for. An inbound request
    /// uses up an identifier, and its channel is stored under that
    /// identifier with the time `now`.
    pub open spec fn projects(
        self,
        event: SwarmEvent<Req, Resp, Ch>,
        view: SwarmView,
        pending: PendingMap<Ch>,
        now: TimeSpan,
        out: Projection<Req, Resp, Ch>,
        then: Self,
        stored: PendingMap<Ch>,
    ) -> bool {
        &&& out.event == Self::emitted(event, self.pending_id_counter)
        &&& out.calls@ == self.effects(event, view)
        &&& then.active_commands == self.active_commands
        &&& then.protocol_version == self.protocol_version
        &&& then.bootstrap_peers@ == self.waiting_after(event)
        &&& then.pending_id_counter == if event is InboundRequest {
            if self.pending_id_counter == u64::MAX {
                0
            } else {
                (self.pending_id_counter + 1) as u64
            }
        } else {
            self.pending_id_counter
        }
        &&& stored.spec_ttl() == pending.spec_ttl()
        &&& stored@ == if event is InboundRequest {
            pending@.insert(
                self.pending_id_counter,
                PendingEntry { value: event->channel, created_at: now },
            )
        } else {
            pending@
        }
    }

    /// The way of `event` along the running commands of this loop.
    pub open spec fn way(self, event: SwarmEvent<Req, Resp, Ch>) -> Walk {
        let tasks = self.active_commands@;
        walk(keep_flags(tasks, event), pass_flags(tasks, event), in_order(tasks.len()), 0)
    }

    /// Whether `out` is what the loop does with `event`, and `then` and
    /// `stored` are the loop and the store of channels after it.
    ///
    /// The event goes along the running commands as [`walk`] says. Where a
    /// command keeps it, nothing else happens. Where none does, the event is
    /// turned into what the application gets, as [`Self::projects`] says.
    pub open spec fn handles(
        self,
        event: SwarmEvent<Req, Resp, Ch>,
        view: SwarmView,
        pending: PendingMap<Ch>,
        now: TimeSpan,
        out: Handled<Req, Resp, Ch, H>,
        then: Self,
        stored: PendingMap<Ch>,
    ) -> bool {
        let w = self.way(event);
        let between = EventLoop { active_commands: then.active_commands, ..self };
        &&& walked(self.active_commands@, event, then.active_commands@, out.completions@, w)
        &&& if w.consumed {
            &&& out.event is None
            &&& out.calls@.len() == 0
            &&& then == between
            &&& stored == pending
        } else {
            between.projects(
                event,
                view,
                pending,
                now,
                Projection { event: out.event, calls: out.calls },
                then,
                stored,
            )
        }
    }

    /// Whether `admission` is the first turn of the command of `task`: it is
    /// what the command's kind makes of its first turn, with the handle
    /// carried along.
    pub open spec fn admits(
        task: CommandTask<Req, Resp, Ch, H>,
        view: SwarmView,
        admission: Admission<Req, Resp, Ch, H>,
    ) -> bool {
        match admission {
            Admission::Finished { calls, done } => {
                &&& done.handle == task.handle
                &&& exists|then: Command<Req, Resp, Ch>| #[trigger]
                    task.handler.started(view, Start::Finished { calls, result: done.result }, then)
            },
            Admission::Call { call, task: waiting } => {
                &&& waiting.handle == task.handle
                &&& task.handler.started(view, Start::Call { call }, waiting.handler)
            },
        }
    }

    /// A loop for a node with the given protocol version, before anything
    /// has happened.
    pub fn new(protocol_version: String) -> (state: Self)
        ensures
            state.active_commands@.len() == 0,
            state.protocol_version == protocol_version,
            state.pending_id_counter == 0,
            state.bootstrap_peers@ == Seq::<(PeerId, Multiaddr)>::empty(),
    {
        EventLoop {
            active_commands: Vec::new(),
            protocol_version,
            pending_id_counter: 0,
            bootstrap_peers: Vec::new(),
        }
    }

    /// The calls that make the node listen on `addrs`, in their order.
    pub fn start_listen(&self, addrs: &Vec<Multiaddr>) -> (calls: Vec<
        SwarmCall<Req, Resp, Ch>,
    >)
        ensures
            calls@ == listen_calls::<Req, Resp, Ch>(addrs@),
    {
        let mut calls: Vec<SwarmCall<Req, Resp, Ch>> = Vec::new();
        let mut i: usize = 0;
        while i < addrs.len()
            invariant
                i <= addrs.len(),
                calls@ == listen_calls::<Req, Resp, Ch>(addrs@.take(i as int)),
            decreases addrs.len() - i,
        {
            calls.push(SwarmCall::ListenOn { addr: addrs[i].clone() });
            i += 1;
            assert(calls@ =~= listen_calls::<Req, Resp, Ch>(addrs@.take(i as int)));
        }
        assert(addrs@.take(addrs.len() as int) == addrs@);
        calls
    }

    /// What the network stack's answer to a call of [`Self::start_listen`]
    /// means: a refusal is a failure to listen, with the reason given, and
    /// the node is not to start.
    pub fn listen_reply(reply: SwarmReply) -> (out: Result<(), Error>)
        ensures
            match reply {
                SwarmReply::Failed { error } => out matches Err(failure) && failure.is(
                    ErrorKind::Listen,
                    error@,
                ),
                _ => out is Ok,
            },
    {
        match reply {
            SwarmReply::Failed { error } => Err(Error::Listen(error)),
            _ => Ok(()),
        }
    }

    /// Notes the bootstrap peers, so that each is asked for a relay
    /// reservation once a connection to it stands, and returns the calls that
    /// bring the node in touch with them.
    pub fn connect_bootstrap_peers(&mut self, peers: &Vec<(PeerId, Multiaddr)>) -> (calls:
        Vec<SwarmCall<Req, Resp, Ch>>)
        ensures
            calls@ == bootstrap_calls::<Req, Resp, Ch>(peers@),
            final(self).bootstrap_peers@ == old(self).bootstrap_peers@ + peers@,
            final(self).protocol_version == old(self).protocol_version,
            final(self).pending_id_counter == old(self).pending_id_counter,
            final(self).active_commands == old(self).active_commands,
    {
        let mut calls: Vec<SwarmCall<Req, Resp, Ch>> = Vec::new();
        let mut i: usize = 0;
        while i < peers.len()
            invariant
                i <= peers.len(),
                calls@ == bootstrap_calls::<Req, Resp, Ch>(peers@.take(i as int)),
                self.bootstrap_peers@ == old(self).bootstrap_peers@ + peers@.take(i as int),
                self.protocol_version == old(self).protocol_version,
                self.pending_id_counter == old(self).pending_id_counter,
                self.active_commands == old(self).active_commands,
            decreases peers.len() - i,
        {
            let peer_id = peers[i].0;
            calls.push(SwarmCall::KadAddAddress { peer_id, addr: peers[i].1.clone() });
            calls.push(SwarmCall::AddPeerAddress { peer_id, addr: peers[i].1.clone() });
            calls.push(SwarmCall::Dial { peer_id });
            self.bootstrap_peers.push((peer_id, peers[i].1.clone()));
            i += 1;
            assert(calls@ =~= bootstrap_calls::<Req, Resp, Ch>(peers@.take(i as int)));
            assert(self.bootstrap_peers@ =~= old(self).bootstrap_peers@ + peers@.take(i as int));
        }
        assert(peers@.take(peers.len() as int) == peers@);
        calls
    }

    /// One turn of the loop: deals with what has arrived, be it a command
    /// or an event of the network stack, and ends the loop when no command
    /// can come any more.
    pub fn run(
        &mut self,
        arrival: Arrival<Req, Resp, Ch, H>,
        view: &SwarmView,
        pending: &mut PendingMap<Ch>,
        now: TimeSpan,
    ) -> (turn: Turn<Req, Resp, Ch, H>)
        ensures
            deals_with(arrival, turn),
            match arrival {
                Arrival::QueueClosed => {
                    &&& turn matches Turn::Stop { completions }
                    &&& abandoned(old(self).active_commands@, completions@)
                    &&& final(self).active_commands@.len() == 0
                    &&& final(self).protocol_version == old(self).protocol_version
                    &&& final(self).pending_id_counter == old(self).pending_id_counter
                    &&& final(self).bootstrap_peers == old(self).bootstrap_peers
                    &&& *final(pending) == *old(pending)
                },
                Arrival::Command { task } => {
                    &&& turn matches Turn::Admitted { admission }
                    &&& Self::admits(task, *view, admission)
                    &&& *final(self) == *old(self)
                    &&& *final(pending) == *old(pending)
                },
                Arrival::Event { event } => {
                    &&& turn matches Turn::Handled { handled }
                    &&& old(self).handles(
                        event,
                        *view,
                        *old(pending),
                        now,
                        handled,
                        *final(self),
                        *final(pending),
                    )
                },
            },
    {
        match arrival {
            Arrival::QueueClosed => Turn::Stop { completions: self.shutdown() },
            Arrival::Command { task } => Turn::Admitted { admission: self.handle_command(task, view) },
            Arrival::Event { event } => Turn::Handled {
                handled: self.handle_swarm_event(event, view, pending, now),
            },
        }
    }

    /// Ends every running command because the loop ends. No command is left
    /// running, and each gets the failure that the loop is closed, to be
    /// delivered through its handle.
    pub fn shutdown(&mut self) -> (completions: Vec<Completion<Resp, H>>)
        ensures
            abandoned(old(self).active_commands@, completions@),
            final(self).active_commands@.len() == 0,
            final(self).protocol_version == old(self).protocol_version,
            final(self).pending_id_counter == old(self).pending_id_counter,
            final(self).bootstrap_peers == old(self).bootstrap_peers,
    {
        let ghost tasks = self.active_commands@;
        let ghost n = tasks.len() as int;
        let mut waiting: Vec<CommandTask<Req, Resp, Ch, H>> = Vec::new();
        while self.active_commands.len() > 0
            invariant
                self.protocol_version == old(self).protocol_version,
                self.pending_id_counter == old(self).pending_id_counter,
                self.bootstrap_peers == old(self).bootstrap_peers,
                n == tasks.len(),
                self.active_commands@.len() + waiting@.len() == n,
                self.active_commands@ == tasks.take(self.active_commands@.len() as int),
                forall|j: int| 0 <= j < waiting@.len() ==> #[trigger] waiting@[j] == tasks[n - 1 - j],
            decreases self.active_commands@.len(),
        {
            let ghost m = self.active_commands@.len() as int;
            match self.active_commands.pop() {
                Some(task) => {
                    assert(task == tasks[m - 1]);
                    waiting.push(task);
                    assert(self.active_commands@ =~= tasks.take(m - 1));
                },
                None => {},
            }
        }
        let mut completions: Vec<Completion<Resp, H>> = Vec::new();
        while waiting.len() > 0
            invariant
                n == tasks.len(),
                completions@.len() + waiting@.len() == n,
                forall|j: int| 0 <= j < waiting@.len() ==> #[trigger] waiting@[j] == tasks[n - 1 - j],
                forall|i: int|
                    0 <= i < completions@.len() ==> {
                        &&& (#[trigger] completions@[i]).handle == tasks[i].handle
                        &&& completions@[i].result matches Err(failure)
                        &&& failure.is(ErrorKind::Behaviour, channel_closed())
                    },
            decreases waiting@.len(),
        {
            let ghost m = waiting@.len() as int;
            match waiting.pop() {
                Some(task) => {
                    assert(task == tasks[n - m]);
                    completions.push(Completion { handle: task.handle, result: Err(closed()) });
                },
                None => {},
            }
        }
        completions
    }

    /// Gives a command that has arrived its first turn.
    ///
    /// A command that is finished by it is handed back with its result and
    /// never joins the running ones. Any other command names one call; it
    /// is admitted with the answer to that call, by [`Self::handle_reply`].
    pub fn handle_command(&self, task: CommandTask<Req, Resp, Ch, H>, view: &SwarmView) -> (admission:
        Admission<Req, Resp, Ch, H>)
        ensures
            Self::admits(task, *view, admission),
    {
        let mut task = task;
        let ghost before = task;
        match task.handler.run(view) {
            Start::Finished { calls, result } => Admission::Finished {
                calls,
                done: Completion { handle: task.handle, result },
            },
            Start::Call { call } => Admission::Call { call, task },
        }
    }

    /// Takes the network stack's answer to the call that a command has named
    /// in its first turn.
    ///
    /// Where the answer finishes the command, its result is handed back and
    /// the running commands are as they were. Else the command joins the
    /// running ones, behind all that are there.
    pub fn handle_reply(&mut self, task: CommandTask<Req, Resp, Ch, H>, reply: SwarmReply) -> (done:
        Option<Completion<Resp, H>>)
        ensures
            final(self).protocol_version == old(self).protocol_version,
            final(self).pending_id_counter == old(self).pending_id_counter,
            final(self).bootstrap_peers == old(self).bootstrap_peers,
            match done {
                Some(done) => {
                    &&& final(self).active_commands == old(self).active_commands
                    &&& done.handle == task.handle
                    &&& exists|then: Command<Req, Resp, Ch>| #[trigger]
                        task.handler.replied(reply, Some(done.result), then)
                },
                None => {
                    &&& final(self).active_commands@.len() == old(self).active_commands@.len() + 1
                    &&& final(self).active_commands@.drop_last() == old(self).active_commands@
                    &&& final(self).active_commands@.last().handle == task.handle
                    &&& task.handler.replied(reply, None, final(self).active_commands@.last().handler)
                    &&& final(self).active_commands@.last().handler.waits()
                    &&& all_wait(old(self).active_commands@) ==> all_wait(final(self).active_commands@)
                },
            },
    {
        let mut task = task;
        match task.handler.on_reply(reply) {
            Some(result) => Some(Completion { handle: task.handle, result }),
            None => {
                self.active_commands.push(task);
                assert(self.active_commands@.drop_last() =~= old(self).active_commands@);
                assert(all_wait(old(self).active_commands@) ==> all_wait(self.active_commands@)) by {
                    if all_wait(old(self).active_commands@) {
                        assert forall|k: int| 0 <= k < self.active_commands@.len() implies (
                        #[trigger] self.active_commands@[k]).handler.waits() by {
                            if k < old(self).active_commands@.len() {
                                assert(self.active_commands@[k] == old(self).active_commands@[k]);
                            }
                        }
                    }
                }
                None
            },
        }
    }

    /// Shows an event of the network stack to the running commands, one
    /// after the other, and turns what they leave of it into the event that
    /// the application gets.
    pub fn handle_swarm_event(
        &mut self,
        event: SwarmEvent<Req, Resp, Ch>,
        view: &SwarmView,
        pending: &mut PendingMap<Ch>,
        now: TimeSpan,
    ) -> (out: Handled<Req, Resp, Ch, H>)
        ensures
            old(self).handles(event, *view, *old(pending), now, out, *final(self), *final(pending)),
            all_wait(old(self).active_commands@) ==> all_wait(final(self).active_commands@),
    {
        let ghost tasks = self.active_commands@;
        let ghost keeps = keep_flags(tasks, event);
        let ghost passes = pass_flags(tasks, event);
        let ghost finishes = finish_flags(tasks, event);
        let ghost whole = walk(keeps, passes, in_order(tasks.len()), 0);
        let ghost mut order = in_order(tasks.len());
        let ghost mut seen = Seq::<int>::empty();
        let mut completions: Vec<Completion<Resp, H>> = Vec::new();
        let mut remaining = Some(event);
        let mut i: usize = 0;
        while i < self.active_commands.len() && remaining.is_some()
            invariant
                i <= self.active_commands@.len(),
                self.active_commands@.len() == order.len(),
                self.protocol_version == old(self).protocol_version,
                self.pending_id_counter == old(self).pending_id_counter,
                self.bootstrap_peers == old(self).bootstrap_peers,
                *pending == *old(pending),
                tasks == old(self).active_commands@,
                keeps == keep_flags(tasks, event),
                passes == pass_flags(tasks, event),
                finishes == finish_flags(tasks, event),
                whole == walk(keeps, passes, in_order(tasks.len()), 0),
                forall|p: int|
                    0 <= p < order.len() ==> {
                        let k = #[trigger] order[p];
                        &&& 0 <= k < tasks.len()
                        &&& self.active_commands@[p].handle == tasks[k].handle
                        &&& if p < i {
                            tasks[k].handler.after(event, self.active_commands@[p].handler)
                        } else {
                            self.active_commands@[p] == tasks[k]
                        }
                    },
                match remaining {
                    Some(current) => {
                        let rest = walk(keeps, passes, order, i as int);
                        &&& current == event
                        &&& whole.order == rest.order
                        &&& whole.seen == seen + rest.seen
                        &&& whole.stop == rest.stop
                        &&& whole.consumed == rest.consumed
                    },
                    None => whole == (Walk { order, seen, stop: i as int, consumed: true }),
                },
                completions@.len() == finished_of(seen, finishes).len(),
                forall|j: int|
                    0 <= j < completions@.len() ==> 0 <= #[trigger] finished_of(seen, finishes)[j]
                        < tasks.len() && delivered(
                        tasks[finished_of(seen, finishes)[j]],
                        event,
                        completions@[j],
                    ),
            decreases self.active_commands@.len() - i,
        {
            let ghost k = order[i as int];
            let ghost before = self.active_commands@;
            let ghost rest = walk(keeps, passes, order, i as int);
            let current = remaining.take().unwrap();
            let observed = self.active_commands[i].handler.on_event(current);
            let ghost was = observed;
            let ghost seen_then = seen.push(k);
            proof {
                assert(before[i as int] == tasks[k]);
                assert(seen_then.drop_last() == seen);
                assert(seen + (seq![k] + Seq::<int>::empty()) =~= seen_then);
                assert(finishes[k] == was.result is Some);
                assert(finished_of(seen_then, finishes) == if finishes[k] {
                    finished_of(seen, finishes).push(k)
                } else {
                    finished_of(seen, finishes)
                });
            }
            remaining = observed.remaining;
            if observed.keep_active {
                proof {
                    let next = walk(keeps, passes, order, i + 1);
                    if passes[k] {
                        assert(seen + (seq![k] + next.seen) =~= seen_then + next.seen);
                    }
                    seen = seen_then;
                }
                i += 1;
            } else {
                let task = self.active_commands.swap_remove(i);
                let ghost next_order = order.update(i as int, order.last()).drop_last();
                proof {
                    let next = walk(keeps, passes, next_order, i as int);
                    if passes[k] {
                        assert(seen + (seq![k] + next.seen) =~= seen_then + next.seen);
                    }
                }
                match observed.result {
                    Some(result) => {
                        let done = Completion { handle: task.handle, result };
                        proof {
                            assert(was == (Observed {
                                keep_active: false,
                                remaining: if tasks[k].handler.consumes(event) {
                                    None
                                } else {
                                    Some(event)
                                },
                                result: Some(done.result),
                            }));
                            assert(delivered(tasks[k], event, done));
                        }
                        completions.push(done);
                    },
                    None => {},
                }
                proof {
                    order = next_order;
                    seen = seen_then;
                }
            }
        }
        proof {
            if all_wait(tasks) {
                assert forall|p: int| 0 <= p < self.active_commands@.len() implies (
                #[trigger] self.active_commands@[p]).handler.waits() by {
                    let k = order[p];
                    assert(tasks[k].handler.waits());
                }
            }
        }
        let projection = match remaining {
            Some(current) => self.convert_to_node_event(current, view, pending, now),
            None => Projection { event: None, calls: Vec::new() },
        };
        Handled { completions, event: projection.event, calls: projection.calls }
    }

    /// Hands out the identifier for the next inbound request. Identifiers
    /// count up from zero, and start again there when the numbers run out.
    pub fn next_pending_id(&mut self) -> (id: u64)
        ensures
            id == old(self).pending_id_counter,
            final(self).pending_id_counter == if id == u64::MAX {
                0
            } else {
                id + 1
            },
            final(self).protocol_version == old(self).protocol_version,
            final(self).bootstrap_peers == old(self).bootstrap_peers,
            final(self).active_commands == old(self).active_commands,
    {
        let id = self.pending_id_counter;
        self.pending_id_counter = if id == u64::MAX {
            0
        } else {
            id + 1
        };
        id
    }

    /// Takes the addresses that are noted for the bootstrap peer `peer` out
    /// of the list of those waited for.
    fn take_bootstrap_addrs(&mut self, peer: &PeerId) -> (addrs: Vec<Multiaddr>)
        ensures
            addrs@ == addrs_of(old(self).bootstrap_peers@, *peer),
            final(self).bootstrap_peers@ == without_peer(old(self).bootstrap_peers@, *peer),
            final(self).protocol_version == old(self).protocol_version,
            final(self).pending_id_counter == old(self).pending_id_counter,
            final(self).active_commands == old(self).active_commands,
    {
        let mut addrs: Vec<Multiaddr> = Vec::new();
        let mut rest: Vec<(PeerId, Multiaddr)> = Vec::new();
        let mut i: usize = 0;
        while i < self.bootstrap_peers.len()
            invariant
                i <= self.bootstrap_peers.len(),
                *self == *old(self),
                addrs@ == addrs_of(self.bootstrap_peers@.take(i as int), *peer),
                rest@ == without_peer(self.bootstrap_peers@.take(i as int), *peer),
            decreases self.bootstrap_peers.len() - i,
        {
            proof {
                assert(self.bootstrap_peers@.take(i + 1).drop_last() == self.bootstrap_peers@.take(
                    i as int,
                ));
            }
            if peer_eq(&self.bootstrap_peers[i].0, peer) {
                addrs.push(self.bootstrap_peers[i].1.clone());
            } else {
                rest.push((self.bootstrap_peers[i].0, self.bootstrap_peers[i].1.clone()));
            }
            i += 1;
        }
        assert(self.bootstrap_peers@.take(self.bootstrap_peers.len() as int)
            == self.bootstrap_peers@);
        self.bootstrap_peers = rest;
        addrs
    }

    /// Turns an event of the network stack that no command has kept for
    /// itself into the event that the application gets, and says which calls
    /// on the stack it brings about.
    ///
    /// The channel of an inbound request is put into `pending` at the time
    /// `now`, under the identifier that the application is told.
    pub fn convert_to_node_event(
        &mut self,
        event: SwarmEvent<Req, Resp, Ch>,
        view: &SwarmView,
        pending: &mut PendingMap<Ch>,
        now: TimeSpan,
    ) -> (out: Projection<Req, Resp, Ch>)
        ensures
            old(self).projects(event, *view, *old(pending), now, out, *final(self), *final(pending)),
    {
        match event {
            SwarmEvent::NewListenAddr { address } => Projection {
                event: Some(NodeEvent::Listening { addr: address }),
                calls: Vec::new(),
            },
            SwarmEvent::ConnectionEstablished { peer_id, num_established } => {
                if num_established == 1 {
                    let addrs = self.take_bootstrap_addrs(&peer_id);
                    let mut calls: Vec<SwarmCall<Req, Resp, Ch>> = Vec::new();
                    let mut i: usize = 0;
                    while i < addrs.len()
                        invariant
                            i <= addrs.len(),
                            calls@ == reserve_calls::<Req, Resp, Ch>(peer_id, addrs@.take(i as int)),
                        decreases addrs.len() - i,
                    {
                        calls.push(SwarmCall::ListenOn { addr: relay_circuit_addr(&addrs[i], &peer_id) });
                        i += 1;
                        assert(calls@ =~= reserve_calls::<Req, Resp, Ch>(
                            peer_id,
                            addrs@.take(i as int),
                        ));
                    }
                    assert(addrs@.take(addrs.len() as int) == addrs@);
                    Projection { event: Some(NodeEvent::PeerConnected { peer_id }), calls }
                } else {
                    Projection { event: None, calls: Vec::new() }
                }
            },
            SwarmEvent::ConnectionClosed { peer_id, num_established } => {
                if num_established == 0 {
                    Projection {
                        event: Some(NodeEvent::PeerDisconnected { peer_id }),
                        calls: Vec::new(),
                    }
                } else {
                    Projection { event: None, calls: Vec::new() }
                }
            },
            SwarmEvent::RelayReservationAccepted { relay_peer_id, renewal } => Projection {
                event: Some(NodeEvent::RelayReservationAccepted { relay_peer_id, renewal }),
                calls: Vec::new(),
            },
            SwarmEvent::InboundRequest { peer, request, channel } => {
                let pending_id = self.next_pending_id();
                pending.insert(pending_id, channel, now);
                Projection {
                    event: Some(NodeEvent::InboundRequest { peer_id: peer, pending_id, request }),
                    calls: Vec::new(),
                }
            },
            SwarmEvent::HolePunch { remote_peer_id, result } => match result {
                Ok(_) => Projection {
                    event: Some(NodeEvent::HolePunchSucceeded { peer_id: remote_peer_id }),
                    calls: Vec::new(),
                },
                Err(error) => Projection {
                    event: Some(NodeEvent::HolePunchFailed { peer_id: remote_peer_id, error }),
                    calls: Vec::new(),
                },
            },
            SwarmEvent::MdnsDiscovered { peers } => {
                let mut calls: Vec<SwarmCall<Req, Resp, Ch>> = Vec::new();
                let mut i: usize = 0;
                while i < peers.len()
                    invariant
                        i <= peers.len(),
                        calls@ == Seq::new(
                            i as nat,
                            |k: int|
                                SwarmCall::<Req, Resp, Ch>::AddPeerAddress {
                                    peer_id: peers@[k].0,
                                    addr: peers@[k].1,
                                },
                        ),
                    decreases peers.len() - i,
                {
                    calls.push(
                        SwarmCall::AddPeerAddress { peer_id: peers[i].0, addr: peers[i].1.clone() },
                    );
                    i += 1;
                    assert(calls@ =~= Seq::new(
                        i as nat,
                        |k: int|
                            SwarmCall::<Req, Resp, Ch>::AddPeerAddress {
                                peer_id: peers@[k].0,
                                addr: peers@[k].1,
                            },
                    ));
                }
                let ghost noted = calls@;
                let mut dialled: Vec<PeerId> = Vec::new();
                let mut j: usize = 0;
                while j < peers.len()
                    invariant
                        j <= peers.len(),
                        dialled@ == dial_targets(peers@.take(j as int), view.connected@),
                        calls@ == noted + Seq::new(
                            dialled@.len(),
                            |k: int| SwarmCall::<Req, Resp, Ch>::Dial { peer_id: dialled@[k] },
                        ),
                    decreases peers.len() - j,
                {
                    proof {
                        assert(peers@.take(j + 1).drop_last() == peers@.take(j as int));
                    }
                    let peer_id = peers[j].0;
                    if !contains_peer(&view.connected, &peer_id) && !contains_peer(&dialled, &peer_id) {
                        dialled.push(peer_id);
                        calls.push(SwarmCall::Dial { peer_id });
                        assert(calls@ =~= noted + Seq::new(
                            dialled@.len(),
                            |k: int| SwarmCall::<Req, Resp, Ch>::Dial { peer_id: dialled@[k] },
                        ));
                    }
                    j += 1;
                }
                assert(peers@.take(peers.len() as int) == peers@);
                assert(calls@ =~= discovery_calls::<Req, Resp, Ch>(peers@, view.connected@));
                Projection { event: Some(NodeEvent::PeersDiscovered { peers }), calls }
            },
            SwarmEvent::Ping { peer, result } => match result {
                Ok(rtt) => Projection {
                    event: Some(NodeEvent::PingSuccess { peer_id: peer, rtt_ms: rtt.as_millis() }),
                    calls: Vec::new(),
                },
                Err(_) => Projection { event: None, calls: Vec::new() },
            },
            SwarmEvent::IdentifyReceived { peer_id, protocol_version, agent_version, listen_addrs } => {
                let mut calls: Vec<SwarmCall<Req, Resp, Ch>> = Vec::new();
                if protocol_version == self.protocol_version {
                    let mut i: usize = 0;
                    while i < listen_addrs.len()
                        invariant
                            i <= listen_addrs.len(),
                            calls@ == adopt_calls::<Req, Resp, Ch>(
                                peer_id,
                                listen_addrs@.take(i as int),
                            ),
                        decreases listen_addrs.len() - i,
                    {
                        calls.push(
                            SwarmCall::KadAddAddress { peer_id, addr: listen_addrs[i].clone() },
                        );
                        calls.push(
                            SwarmCall::AddPeerAddress { peer_id, addr: listen_addrs[i].clone() },
                        );
                        i += 1;
                        assert(calls@ =~= adopt_calls::<Req, Resp, Ch>(
                            peer_id,
                            listen_addrs@.take(i as int),
                        ));
                    }
                    assert(listen_addrs@.take(listen_addrs.len() as int) == listen_addrs@);
                }
                Projection {
                    event: Some(
                        NodeEvent::IdentifyReceived { peer_id, agent_version, protocol_version },
                    ),
                    calls,
                }
            },
            SwarmEvent::AutonatProbe { tested_addr, server, result } => match result {
                Ok(_) => Projection {
                    event: Some(
                        NodeEvent::NatStatusChanged {
                            status: NatStatus::Public,
                            public_addr: Some(tested_addr),
                        },
                    ),
                    calls: Vec::new(),
                },
                Err(_) => Projection { event: None, calls: Vec::new() },
            },
            SwarmEvent::KadRoutingUpdated { peer, addresses } => {
                let mut calls: Vec<SwarmCall<Req, Resp, Ch>> = Vec::new();
                let mut i: usize = 0;
                while i < addresses.len()
                    invariant
                        i <= addresses.len(),
                        calls@ == note_calls::<Req, Resp, Ch>(peer, addresses@.take(i as int)),
                    decreases addresses.len() - i,
                {
                    calls.push(SwarmCall::AddPeerAddress { peer_id: peer, addr: addresses[i].clone() });
                    i += 1;
                    assert(calls@ =~= note_calls::<Req, Resp, Ch>(peer, addresses@.take(i as int)));
                }
                assert(addresses@.take(addresses.len() as int) == addresses@);
                Projection { event: None, calls }
            },
            _ => Projection { event: None, calls: Vec::new() },
        }
    }
}

} // verus!
