//! What all commands share: the shape of their two phases, and the slot
//! through which a result reaches the task that waits for it.
use vstd::prelude::*;
use crate::error::{Error, ErrorKind};
use crate::swarm::{SwarmCall, SwarmEvent};

verus! {

/// What a command's first turn leads to.
#[derive(Debug, PartialEq)]
pub enum Start<T, Req, Resp, Ch> {
    /// The command is finished. The calls are to be made on the network
    /// stack in this order; what the stack answers to them changes nothing.
    Finished { calls: Vec<SwarmCall<Req, Resp, Ch>>, result: Result<T, Error> },
    /// The command asks for one call on the network stack and goes on with
    /// the stack's answer.
    Call { call: SwarmCall<Req, Resp, Ch> },
}

/// What a command makes of an event of the network stack.
#[derive(Debug)]
pub struct Observed<T, Req, Resp, Ch> {
    /// Whether the command stays among the running ones.
    pub keep_active: bool,
    /// The event, where the command leaves it to those that come after it;
    /// nothing, where the command has kept the event for itself.
    pub remaining: Option<SwarmEvent<Req, Resp, Ch>>,
    /// The command's result, where the event has finished it.
    pub result: Option<Result<T, Error>>,
}

/// Whether `result` is a failure of the given kind and with the given cause.
pub open spec fn fails_with<T>(result: Option<Result<T, Error>>, kind: ErrorKind, cause: Seq<char>) -> bool {
    result matches Some(Err(error)) && error.is(kind, cause)
}

/// What the network stack's answer means where it is none that a command can
/// go on with.
pub open spec fn no_answer() -> Seq<char> {
    "the network stack gave no answer to go on with"@
}

/// The failure of a command that got an answer from the network stack with
/// which it cannot go on.
pub fn unanswered<T>() -> (result: Option<Result<T, Error>>)
    ensures
        fails_with(result, ErrorKind::Behaviour, no_answer()),
{
    Some(Err(Error::Behaviour(String::from_str("the network stack gave no answer to go on with"))))
}

/// What the failure says when the queue to the loop takes no command any
/// more, or the loop has ended before a command had its result.
pub open spec fn channel_closed() -> Seq<char> {
    "command channel closed"@
}

/// The failure of a command that the loop cannot or can no longer serve.
pub fn closed() -> (failure: Error)
    ensures
        failure.is(ErrorKind::Behaviour, channel_closed()),
{
    Error::Behaviour(String::from_str("command channel closed"))
}

/// The answer to the question whether a result is there.
#[derive(Debug, PartialEq, Eq)]
pub enum Poll<T> {
    /// The result.
    Ready(T),
    /// Not yet; whoever asked will be woken.
    Pending,
}

/// The slot through which a command's result reaches the task that waits for
/// it. It holds at most one result and at most one waker, the handle by which
/// the waiting task is woken.
pub struct ResultHandle<T, W> {
    pub result: Option<Result<T, Error>>,
    pub waker: Option<W>,
}

impl<T, W> ResultHandle<T, W> {
    /// What a poll of the slot brings: the result, where one is there.
    pub open spec fn answer(self) -> Poll<Result<T, Error>> {
        match self.result {
            Some(result) => Poll::Ready(result),
            None => Poll::Pending,
        }
    }

    /// The slot after a poll that brought `waker`: a result that was there
    /// is gone, and where none was there, `waker` has taken the place of the
    /// waker that was waiting.
    pub open spec fn polled(self, waker: W) -> Self {
        match self.result {
            Some(_) => ResultHandle { result: None, waker: self.waker },
            None => ResultHandle { result: None, waker: Some(waker) },
        }
    }

    /// The slot after `result` was put into it: the result is there, and no
    /// waker is waiting any more.
    pub open spec fn finished(self, result: Result<T, Error>) -> Self {
        ResultHandle { result: Some(result), waker: None }
    }

    /// An empty slot.
    pub fn new() -> (handle: Self)
        ensures
            handle.result is None,
            handle.waker is None,
    {
        ResultHandle { result: None, waker: None }
    }

    /// Asks for the result. Where one is there, it is handed out and the slot
    /// is empty again; where none is, `waker` is kept in place of the waker
    /// that was there.
    pub fn poll(&mut self, waker: W) -> (out: Poll<Result<T, Error>>)
        ensures
            out == old(self).answer(),
            *final(self) == old(self).polled(waker),
    {
        match self.result.take() {
            Some(result) => Poll::Ready(result),
            None => {
                self.waker = Some(waker);
                Poll::Pending
            },
        }
    }

    /// Puts the result into the slot and hands out the waker that was
    /// waiting there, which is to be woken.
    pub fn finish(&mut self, result: Result<T, Error>) -> (wake: Option<W>)
        ensures
            wake == old(self).waker,
            *final(self) == old(self).finished(result),
    {
        self.result = Some(result);
        self.waker.take()
    }
}

/// A result reaches whoever waits for it, once.
///
/// Whoever polls an empty slot leaves the waker there, and the waker is
/// handed out to be woken when the result is put in. The poll after that
/// brings the result, whatever waker it comes with, and the poll after that
/// finds the slot empty again.
pub proof fn lemma_result_is_observed_once<T, W>(
    handle: ResultHandle<T, W>,
    result: Result<T, Error>,
    first: W,
    second: W,
    third: W,
)
    ensures
        handle.result is None ==> handle.answer() == Poll::<Result<T, Error>>::Pending
            && handle.polled(first).waker == Some(first),
        handle.finished(result).answer() == Poll::Ready(result),
        handle.finished(result).polled(second).answer() == Poll::<Result<T, Error>>::Pending,
        handle.finished(result).polled(second).polled(third).waker == Some(third),
{
}

} // verus!
