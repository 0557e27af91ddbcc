//! Answering an inbound request, on the side of the application.
//!
//! The channel for a response waits in the store of channels under the
//! identifier that the application was told with the request. Answering
//! takes it out. An identifier under which nothing waits, because the
//! channel was used, or under which a channel has waited for longer than
//! the time to live, is answered with a failure before the loop hears of
//! it.
use vstd::prelude::*;
use crate::command::req_resp::SendResponseCommand;
use crate::error::{Error, ErrorKind};
use crate::pending_map::{alive_part, PendingEntry, PendingMap};
use crate::time::TimeSpan;

verus! {

/// The text of a digit.
pub open spec fn digit_text(digit: nat) -> Seq<char> {
    if digit == 0 {
        "0"@
    } else if digit == 1 {
        "1"@
    } else if digit == 2 {
        "2"@
    } else if digit == 3 {
        "3"@
    } else if digit == 4 {
        "4"@
    } else if digit == 5 {
        "5"@
    } else if digit == 6 {
        "6"@
    } else if digit == 7 {
        "7"@
    } else if digit == 8 {
        "8"@
    } else {
        "9"@
    }
}

/// The text of a number in the decimal system.
pub open spec fn decimal_text(number: nat) -> Seq<char>
    decreases number,
{
    if number < 10 {
        digit_text(number)
    } else {
        decimal_text(number / 10) + digit_text(number % 10)
    }
}

/// What the failure says when nothing waits under `pending_id`.
pub open spec fn no_pending_channel(pending_id: u64) -> Seq<char> {
    "No pending channel for pending_id="@ + decimal_text(pending_id as nat)
        + " (expired or already responded)"@
}

fn digit(value: u64) -> (text: &'static str)
    requires
        value < 10,
    ensures
        text@ == digit_text(value as nat),
{
    if value == 0 {
        "0"
    } else if value == 1 {
        "1"
    } else if value == 2 {
        "2"
    } else if value == 3 {
        "3"
    } else if value == 4 {
        "4"
    } else if value == 5 {
        "5"
    } else if value == 6 {
        "6"
    } else if value == 7 {
        "7"
    } else if value == 8 {
        "8"
    } else {
        "9"
    }
}

/// Writes a number in the decimal system.
pub fn decimal(number: u64) -> (text: String)
    ensures
        text@ == decimal_text(number as nat),
    decreases number,
{
    if number < 10 {
        String::from_str(digit(number))
    } else {
        decimal(number / 10).concat(digit(number % 10))
    }
}

/// Whether a response can still go out under `pending_id` at the time
/// `now`: a channel waits there, and it has waited for no longer than the
/// time to live.
pub open spec fn answerable<V>(
    entries: Map<u64, PendingEntry<V>>,
    pending_id: u64,
    now: TimeSpan,
    ttl: TimeSpan,
) -> bool {
    entries.contains_key(pending_id) && entries[pending_id].alive_at(now, ttl)
}

/// Takes the channel that waits under `pending_id` out of the store and
/// makes the command that sends `response` through it. Where nothing waits
/// under `pending_id`, or what waits there has waited for longer than the
/// time to live at the time `now`, the answer is a failure that says so.
/// Either way nothing is left under `pending_id`, and the other entries are
/// as they were.
pub fn send_response<Resp, Ch>(
    pending: &mut PendingMap<Ch>,
    pending_id: u64,
    response: Resp,
    now: TimeSpan,
) -> (out: Result<SendResponseCommand<Resp, Ch>, Error>)
    ensures
        final(pending)@ == old(pending)@.remove(pending_id),
        final(pending).spec_ttl() == old(pending).spec_ttl(),
        out is Ok == answerable(old(pending)@, pending_id, now, old(pending).spec_ttl()),
        match out {
            Ok(command) => command == (SendResponseCommand {
                channel: Some(old(pending)@[pending_id].value),
                response: Some(response),
            }),
            Err(error) => error.is(ErrorKind::Behaviour, no_pending_channel(pending_id)),
        },
{
    match pending.take_alive(pending_id, now) {
        Some(channel) => Ok(SendResponseCommand::new(channel, response)),
        None => {
            let number = decimal(pending_id);
            let text = String::from_str("No pending channel for pending_id=").concat(
                number.as_str(),
            ).concat(" (expired or already responded)");
            Err(Error::Behaviour(text))
        },
    }
}

/// What is left of `entries` after the store was swept at each of `times`, in
/// that order.
pub open spec fn swept<V>(entries: Map<u64, PendingEntry<V>>, times: Seq<TimeSpan>, ttl: TimeSpan) -> Map<
    u64,
    PendingEntry<V>,
>
    decreases times.len(),
{
    if times.len() == 0 {
        entries
    } else {
        alive_part(swept(entries, times.drop_last(), ttl), times.last(), ttl)
    }
}

/// A channel waits for its response as long as its time is not up: however
/// often the store is swept until the entry has waited for the time to live,
/// the entry is there, and it is as it was put in.
pub proof fn lemma_channel_waits<V>(
    entries: Map<u64, PendingEntry<V>>,
    pending_id: u64,
    times: Seq<TimeSpan>,
    ttl: TimeSpan,
)
    requires
        entries.contains_key(pending_id),
        forall|i: int|
            0 <= i < times.len() ==> (#[trigger] times[i]).nanos <= entries[pending_id].created_at.nanos
                + ttl.nanos,
    ensures
        swept(entries, times, ttl).contains_key(pending_id),
        swept(entries, times, ttl)[pending_id] == entries[pending_id],
    decreases times.len(),
{
    if times.len() > 0 {
        let front = times.drop_last();
        assert forall|i: int| 0 <= i < front.len() implies (#[trigger] front[i]).nanos
            <= entries[pending_id].created_at.nanos + ttl.nanos by {
            assert(front[i] == times[i]);
        }
        lemma_channel_waits(entries, pending_id, front, ttl);
        assert(times[times.len() - 1] == times.last());
    }
}

/// A channel is gone once its time is up: when one of the sweeps comes after
/// the entry has waited for the time to live, the entry is not there
/// afterwards. Sweeping adds nothing, so what was not
/// there before is not there after.
pub proof fn lemma_channel_expires<V>(
    entries: Map<u64, PendingEntry<V>>,
    pending_id: u64,
    times: Seq<TimeSpan>,
    ttl: TimeSpan,
)
    requires
        !entries.contains_key(pending_id) || exists|i: int|
            0 <= i < times.len() && (#[trigger] times[i]).nanos > entries[pending_id].created_at.nanos
                + ttl.nanos,
    ensures
        !swept(entries, times, ttl).contains_key(pending_id),
        forall|id: u64|
            (#[trigger] swept(entries, times, ttl).contains_key(id)) ==> entries.contains_key(id)
                && swept(entries, times, ttl)[id] == entries[id],
    decreases times.len(),
{
    lemma_swept_is_part(entries, times, ttl);
    if times.len() > 0 && entries.contains_key(pending_id) {
        let front = times.drop_last();
        let i = choose|i: int|
            0 <= i < times.len() && (#[trigger] times[i]).nanos > entries[pending_id].created_at.nanos
                + ttl.nanos;
        if i < front.len() {
            assert(front[i] == times[i]);
            lemma_channel_expires(entries, pending_id, front, ttl);
        } else {
            lemma_swept_is_part(entries, front, ttl);
        }
    }
}

/// A response goes out within the time to live and not after it, whenever
/// the store was swept in between.
///
/// A channel was put under `pending_id`, and the store was swept at `times`.
/// As long as the channel has waited for no longer than the time to live at
/// the time `now`, and so had not at any of the sweeps, a response can go
/// out. Once it has waited for longer, none can, whether a sweep has met the
/// entry or not.
pub proof fn lemma_response_window<V>(
    entries: Map<u64, PendingEntry<V>>,
    pending_id: u64,
    times: Seq<TimeSpan>,
    ttl: TimeSpan,
    now: TimeSpan,
)
    requires
        entries.contains_key(pending_id),
        forall|i: int| 0 <= i < times.len() ==> (#[trigger] times[i]).nanos <= now.nanos,
    ensures
        now.nanos <= entries[pending_id].created_at.nanos + ttl.nanos ==> answerable(
            swept(entries, times, ttl),
            pending_id,
            now,
            ttl,
        ) && swept(entries, times, ttl)[pending_id] == entries[pending_id],
        now.nanos > entries[pending_id].created_at.nanos + ttl.nanos ==> !answerable(
            swept(entries, times, ttl),
            pending_id,
            now,
            ttl,
        ),
{
    lemma_swept_is_part(entries, times, ttl);
    if now.nanos <= entries[pending_id].created_at.nanos + ttl.nanos {
        lemma_channel_waits(entries, pending_id, times, ttl);
    }
}

/// Sweeping adds nothing and changes no entry.
proof fn lemma_swept_is_part<V>(entries: Map<u64, PendingEntry<V>>, times: Seq<TimeSpan>, ttl: TimeSpan)
    ensures
        forall|id: u64|
            (#[trigger] swept(entries, times, ttl).contains_key(id)) ==> entries.contains_key(id)
                && swept(entries, times, ttl)[id] == entries[id],
    decreases times.len(),
{
    if times.len() > 0 {
        let before = swept(entries, times.drop_last(), ttl);
        lemma_swept_is_part(entries, times.drop_last(), ttl);
        assert forall|id: u64| (#[trigger] swept(entries, times, ttl).contains_key(id))
            implies entries.contains_key(id) && swept(entries, times, ttl)[id] == entries[id] by {
            assert(before.contains_key(id));
        }
    }
}

} // verus!
