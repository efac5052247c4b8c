//! The rate-limited picture-loss-indication signaler.
//!
//! Loss recovery asks the sender for a fresh key frame.  Error bursts must
//! not become feedback storms: however many triggers arrive inside the
//! configured interval, at most one message goes out.  The caller supplies
//! the current time; writing the message to the peer stays outside.

use vstd::prelude::*;

verus! {

/// A picture-loss-indication feedback message, addressed by the track's
/// synchronization source.
#[derive(Debug, Clone, Copy, PartialEq, Eq, Structural)]
pub struct PliMessage {
    /// Source of the feedback; this receiver sends zero.
    pub sender_ssrc: u32,
    /// The media stream a key frame is requested for.
    pub media_ssrc: u32,
}

/// Whether a trigger at `now` results in a send: always on the very first
/// trigger, afterwards only when more than the interval has elapsed since
/// the last send.  A clock that jumped backwards never sends.
pub open spec fn pli_due(last_sent: Option<u64>, interval: u64, now: u64) -> bool {
    match last_sent {
        None => true,
        Some(l) => now >= l && now - l > interval,
    }
}

/// Rate-limited picture-loss-indication sender state.
#[derive(Debug, Clone, Copy, PartialEq, Eq, Structural)]
pub struct RateLimitedPli {
    /// The media stream the messages are addressed to.
    pub media_ssrc: u32,
    /// Minimum time between two messages, in microseconds.
    pub interval_micros: u64,
    /// When the last message went out, in microseconds; `None` before the
    /// first one.
    pub last_sent: Option<u64>,
}

impl RateLimitedPli {
    /// A fresh limiter for the given stream; the first trigger always
    /// sends.
    pub fn new(media_ssrc: u32, interval_micros: u64) -> (r: RateLimitedPli)
        ensures
            r.media_ssrc == media_ssrc,
            r.interval_micros == interval_micros,
            r.last_sent is None,
    {
        RateLimitedPli { media_ssrc, interval_micros, last_sent: None }
    }

    /// Handle one trigger at time `now_micros`: yields the message to
    /// write to the peer exactly when one is due, and remembers the send
    /// time.  A suppressed trigger changes nothing.
    pub fn send(&mut self, now_micros: u64) -> (r: Option<PliMessage>)
        ensures
            r is Some <==> pli_due(old(self).last_sent, old(self).interval_micros, now_micros),
            r matches Some(m) ==> m == (PliMessage {
                sender_ssrc: 0,
                media_ssrc: old(self).media_ssrc,
            }),
            final(self).media_ssrc == old(self).media_ssrc,
            final(self).interval_micros == old(self).interval_micros,
            final(self).last_sent == (if pli_due(
                old(self).last_sent,
                old(self).interval_micros,
                now_micros,
            ) {
                Some(now_micros)
            } else {
                old(self).last_sent
            }),
    {
        let due = match self.last_sent {
            None => true,
            Some(l) => now_micros >= l && now_micros - l > self.interval_micros,
        };
        if due {
            self.last_sent = Some(now_micros);
            Some(PliMessage { sender_ssrc: 0, media_ssrc: self.media_ssrc })
        } else {
            None
        }
    }
}

/// The limiter state after a run of triggers, and how many messages the
/// run sent.
pub open spec fn pli_run(last: Option<u64>, interval: u64, times: Seq<u64>) -> (Option<u64>, int)
    decreases times.len(),
{
    if times.len() == 0 {
        (last, 0)
    } else {
        let due = pli_due(last, interval, times[0]);
        let l1 = if due {
            Some(times[0])
        } else {
            last
        };
        let r = pli_run(l1, interval, times.skip(1));
        (r.0, r.1 + (if due {
            1int
        } else {
            0int
        }))
    }
}

/// Once a message went out at time `t0`, no further trigger inside the
/// interval window after `t0` sends anything.
proof fn lemma_no_send_within_interval(t0: u64, interval: u64, times: Seq<u64>)
    requires
        forall|i: int| 0 <= i < times.len() ==> t0 <= #[trigger] times[i],
        forall|i: int| 0 <= i < times.len() ==> #[trigger] times[i] - t0 <= interval,
    ensures
        pli_run(Some(t0), interval, times).1 == 0,
        pli_run(Some(t0), interval, times).0 == Some(t0),
    decreases times.len(),
{
    if times.len() > 0 {
        assert(times[0] == times[0]);
        assert(!pli_due(Some(t0), interval, times[0]));
        assert forall|i: int| 0 <= i < times.skip(1).len() implies t0 <= #[trigger] times.skip(1)[i]
            && times.skip(1)[i] - t0 <= interval by {
            assert(times.skip(1)[i] == times[i + 1]);
        }
        lemma_no_send_within_interval(t0, interval, times.skip(1));
    }
}

/// Given any number of triggers within one interval window, at most one
/// message is actually sent.
pub proof fn lemma_rate_limited(last: Option<u64>, interval: u64, times: Seq<u64>)
    requires
        forall|i: int, j: int| 0 <= i < j < times.len() ==> #[trigger] times[i] <= #[trigger] times[j],
        forall|i: int, j: int| 0 <= i < times.len() && 0 <= j < times.len() ==> #[trigger] times[j]
            - #[trigger] times[i] <= interval,
    ensures
        pli_run(last, interval, times).1 <= 1,
    decreases times.len(),
{
    if times.len() > 0 {
        if pli_due(last, interval, times[0]) {
            assert forall|i: int| 0 <= i < times.skip(1).len() implies times[0]
                <= #[trigger] times.skip(1)[i] && times.skip(1)[i] - times[0] <= interval by {
                assert(times.skip(1)[i] == times[i + 1]);
                assert(times[0] <= times[i + 1]);
            }
            lemma_no_send_within_interval(times[0], interval, times.skip(1));
        } else {
            assert forall|i: int, j: int| 0 <= i < j < times.skip(1).len() implies
                #[trigger] times.skip(1)[i] <= #[trigger] times.skip(1)[j] by {
                assert(times.skip(1)[i] == times[i + 1]);
                assert(times.skip(1)[j] == times[j + 1]);
            }
            assert forall|i: int, j: int|
                0 <= i < times.skip(1).len() && 0 <= j < times.skip(1).len() implies
                #[trigger] times.skip(1)[j] - #[trigger] times.skip(1)[i] <= interval by {
                assert(times.skip(1)[i] == times[i + 1]);
                assert(times.skip(1)[j] == times[j + 1]);
            }
            lemma_rate_limited(last, interval, times.skip(1));
        }
    }
}

/// Given triggers each spaced more than the interval after the one
/// before, and the first one due, every trigger sends.
pub proof fn lemma_spaced_triggers_all_send(last: Option<u64>, interval: u64, times: Seq<u64>)
    requires
        forall|i: int| 0 <= i < times.len() - 1 ==> #[trigger] times[i] <= times[i + 1] && times[i
            + 1] - times[i] > interval,
        times.len() > 0 ==> pli_due(last, interval, times[0]),
    ensures
        pli_run(last, interval, times).1 == times.len(),
    decreases times.len(),
{
    if times.len() > 0 {
        assert(pli_due(last, interval, times[0]));
        assert forall|i: int| 0 <= i < times.skip(1).len() - 1 implies #[trigger] times.skip(1)[i]
            <= times.skip(1)[i + 1] && times.skip(1)[i + 1] - times.skip(1)[i] > interval by {
            assert(times.skip(1)[i] == times[i + 1]);
            assert(times.skip(1)[i + 1] == times[i + 2]);
        }
        if times.len() > 1 {
            assert(times.skip(1)[0] == times[1]);
            assert(pli_due(Some(times[0]), interval, times[1]));
        }
        lemma_spaced_triggers_all_send(Some(times[0]), interval, times.skip(1));
    }
}

} // verus!
