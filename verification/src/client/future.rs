//! Waiting for a command.
//!
//! A command is handed to the loop the first time its result is asked for,
//! and every time the result is asked for the slot of the result is looked
//! into. Handing over is the caller's part, who owns the queue.
use vstd::prelude::*;
use crate::command::handler::{closed, fails_with, Poll, ResultHandle};
use crate::error::{Error, ErrorKind};

verus! {

/// A command on its way to the loop: it is held until it is first asked
/// for, and gone from then on.
pub struct CommandFuture<C> {
    pub handler: Option<C>,
}

impl<C> CommandFuture<C> {
    /// What the failure says when the queue takes no command any more.
    pub open spec fn channel_closed() -> Seq<char> {
        crate::command::handler::channel_closed()
    }

    /// Whether `out` is what a poll brings and `then` the slot after it, when
    /// the queue has taken the command (`accepted`) or has not.
    ///
    /// Where the queue has not taken the command, the poll ends with that
    /// failure and the slot is left alone. Else the slot is polled: a result
    /// that is there is handed out; where none is, the poll is pending and
    /// the waker is in the slot, so that whoever polls is woken when the
    /// result comes, also if it comes before the poll returns.
    pub open spec fn polled<T, W>(
        accepted: bool,
        handle: ResultHandle<T, W>,
        waker: W,
        out: Poll<Result<T, Error>>,
        then: ResultHandle<T, W>,
    ) -> bool {
        if !accepted {
            &&& out matches Poll::Ready(result)
            &&& fails_with(Some(result), ErrorKind::Behaviour, Self::channel_closed())
            &&& then == handle
        } else {
            &&& out == handle.answer()
            &&& then == handle.polled(waker)
        }
    }

    /// Wraps a command that is to be handed to the loop.
    pub fn new(handler: C) -> (future: Self)
        ensures
            future.handler == Some(handler),
    {
        CommandFuture { handler: Some(handler) }
    }

    /// The first part of a poll: hands out the command, if it is still
    /// held, to be put into the queue.
    pub fn submission(&mut self) -> (command: Option<C>)
        ensures
            command == old(self).handler,
            final(self).handler is None,
    {
        self.handler.take()
    }

    /// The second part of a poll. `accepted` says whether the queue has
    /// taken the command; it holds as well where no command was left to
    /// hand over.
    pub fn poll<T, W>(accepted: bool, handle: &mut ResultHandle<T, W>, waker: W) -> (out: Poll<
        Result<T, Error>,
    >)
        ensures
            Self::polled(accepted, *old(handle), waker, out, *final(handle)),
    {
        if !accepted {
            return Poll::Ready(Err(closed()));
        }
        handle.poll(waker)
    }
}

} // verus!
