//! The order in which commands get their first turn, and the end of the loop.
//!
//! The loop deals with one arrival in each turn. This file states what that
//! means over whole runs of the loop: commands get their first turn in the
//! order in which they arrive, and the loop ends exactly when it learns that
//! no command can come any more.
use vstd::prelude::*;
use crate::runtime::event_loop::{Admission, Arrival, Turn};

verus! {

/// The handle of the command that had its first turn.
pub open spec fn handle_of<Req, Resp, Ch, H>(admission: Admission<Req, Resp, Ch, H>) -> H {
    match admission {
        Admission::Finished { calls, done } => done.handle,
        Admission::Call { call, task } => task.handle,
    }
}

/// Whether `turn` deals with `arrival`: a command has its first turn, an
/// event is dealt with, and the news that the queue is closed ends the loop.
pub open spec fn deals_with<Req, Resp, Ch, H>(
    arrival: Arrival<Req, Resp, Ch, H>,
    turn: Turn<Req, Resp, Ch, H>,
) -> bool {
    match arrival {
        Arrival::Command { task } => turn matches Turn::Admitted { admission } && handle_of(admission)
            == task.handle,
        Arrival::QueueClosed => turn is Stop,
        Arrival::Event { event } => turn is Handled,
    }
}

/// The handles of the commands among `arrivals`, in the order in which they
/// arrived.
pub open spec fn submitted<Req, Resp, Ch, H>(arrivals: Seq<Arrival<Req, Resp, Ch, H>>) -> Seq<H>
    decreases arrivals.len(),
{
    if arrivals.len() == 0 {
        Seq::empty()
    } else {
        match arrivals.last() {
            Arrival::Command { task } => submitted(arrivals.drop_last()).push(task.handle),
            _ => submitted(arrivals.drop_last()),
        }
    }
}

/// The handles of the commands that had their first turn among `turns`, in
/// the order of the turns.
pub open spec fn started<Req, Resp, Ch, H>(turns: Seq<Turn<Req, Resp, Ch, H>>) -> Seq<H>
    decreases turns.len(),
{
    if turns.len() == 0 {
        Seq::empty()
    } else {
        match turns.last() {
            Turn::Admitted { admission } => started(turns.drop_last()).push(handle_of(admission)),
            _ => started(turns.drop_last()),
        }
    }
}

/// Commands get their first turn in the order in which they arrive, each
/// once, and the loop ends on the news that the queue is closed and on
/// nothing else.
pub proof fn lemma_first_turns_in_order_of_arrival<Req, Resp, Ch, H>(
    arrivals: Seq<Arrival<Req, Resp, Ch, H>>,
    turns: Seq<Turn<Req, Resp, Ch, H>>,
)
    requires
        turns.len() == arrivals.len(),
        forall|i: int| 0 <= i < arrivals.len() ==> deals_with(#[trigger] arrivals[i], turns[i]),
    ensures
        started(turns) == submitted(arrivals),
        forall|i: int|
            0 <= i < arrivals.len() ==> (#[trigger] turns[i] is Stop <==> arrivals[i] is QueueClosed),
    decreases arrivals.len(),
{
    if arrivals.len() > 0 {
        let front = arrivals.drop_last();
        let before = turns.drop_last();
        assert forall|i: int| 0 <= i < front.len() implies deals_with(#[trigger] front[i], before[i]) by {
            assert(front[i] == arrivals[i]);
            assert(before[i] == turns[i]);
        }
        lemma_first_turns_in_order_of_arrival(front, before);
        assert(deals_with(arrivals[arrivals.len() - 1], turns[arrivals.len() - 1]));
        assert forall|i: int| 0 <= i < arrivals.len() implies (#[trigger] turns[i] is Stop
            <==> arrivals[i] is QueueClosed) by {
            assert(deals_with(arrivals[i], turns[i]));
        }
    }
}

} // verus!
