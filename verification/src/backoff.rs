//! Restart backoff.
//!
//! Restarts that keep failing quickly are spaced further and further apart, up
//! to the poll interval. A session that stays up long enough resets the count.

use crate::double::{capped_curve, curve};
use crate::time::{seconds, Duration};
use vstd::prelude::*;

verus! {

/// This many quick retries before any delay.
pub const FAST_TRIES: u32 = 5;

/// How many quick restarts in a row have been seen.
#[derive(Debug, Clone, Copy, PartialEq, Eq, Structural)]
pub struct Backoff {
    tries: u32,
}

/// Whether a session that ran for `uptime` stayed up long enough to clear the
/// count: a tenth of the poll interval, and at least ten seconds.
pub open spec fn settled(uptime: Duration, poll: Duration) -> bool {
    uptime.secs >= poll.secs / 10 && uptime.secs >= 10
}

/// The count after one more restart.
pub open spec fn tries_after(tries: nat, uptime: Duration, poll: Duration) -> nat {
    if settled(uptime, poll) {
        0
    } else {
        tries + 1
    }
}

/// How many seconds to wait once `tries` quick restarts have been counted.
pub open spec fn wait(poll: nat, tries: nat) -> nat {
    if tries <= FAST_TRIES {
        0
    } else if curve(poll, (tries - FAST_TRIES) as nat) < poll {
        curve(poll, (tries - FAST_TRIES) as nat)
    } else {
        poll
    }
}

impl View for Backoff {
    type V = nat;

    closed spec fn view(&self) -> nat {
        self.tries as nat
    }
}

impl Default for Backoff {
    fn default() -> (b: Self)
        ensures
            b@ == 0,
    {
        Backoff { tries: 0 }
    }
}

/// Whether a session that ran for `uptime` stayed up long enough to clear the
/// count.
pub fn has_settled(uptime: Duration, poll: Duration) -> (b: bool)
    ensures
        b == settled(uptime, poll),
{
    let tenth: u64 = poll.as_secs() / 10;
    let up: u64 = uptime.as_secs();
    up >= tenth && up >= 10
}

impl Backoff {
    /// Record a restart whose predecessor ran for `uptime`, and say how long to
    /// wait before starting the next one.
    ///
    /// For the very first start there is no predecessor; pass
    /// [`Duration::longest`].
    pub fn next_delay(&mut self, uptime: Duration, poll: Duration) -> (delay: Duration)
        requires
            settled(uptime, poll) || old(self)@ < u32::MAX,
        ensures
            final(self)@ == tries_after(old(self)@, uptime, poll),
            delay == seconds(wait(poll.secs as nat, final(self)@) as u64),
            wait(poll.secs as nat, final(self)@) <= poll.secs,
    {
        if has_settled(uptime, poll) {
            self.tries = 0;
        } else {
            self.tries = self.tries + 1;
        }
        if self.tries <= FAST_TRIES {
            return Duration::zero();
        }
        Duration::from_secs(capped_curve(poll.as_secs(), self.tries - FAST_TRIES))
    }

    /// How many quick restarts in a row have been seen.
    pub fn tries(&self) -> (n: u32)
        ensures
            n == self@,
    {
        self.tries
    }
}

/// The first quick restarts do not wait at all.
pub proof fn law_fast_tries_are_free(poll: nat, tries: nat)
    requires
        tries <= FAST_TRIES,
    ensures
        wait(poll, tries) == 0,
{
}

/// The more quick restarts in a row, the longer the wait; it never shrinks and
/// never exceeds the poll interval.
pub proof fn law_waits_spread_apart(poll: nat, fewer: nat, more: nat)
    requires
        fewer <= more,
    ensures
        wait(poll, fewer) <= wait(poll, more) <= poll,
{
    if fewer > FAST_TRIES {
        crate::double::lemma_curve_ordered(
            poll,
            (fewer - FAST_TRIES) as nat,
            (more - FAST_TRIES) as nat,
        );
    }
}

/// From the 23rd quick restart in a row on, the wait is the poll interval.
pub proof fn law_waits_reach_the_poll_interval(poll: nat, tries: nat)
    requires
        tries >= 23,
    ensures
        wait(poll, tries) == poll,
{
    crate::double::lemma_curve_reaches(poll, (tries - FAST_TRIES) as nat);
}

/// For a poll interval of 600 seconds the wait after `t` restarts beyond the
/// free ones is `2 * t * t` seconds, capped at 600. The sixteenth restart in a
/// row is the one exception: there rounding drops a second of the 242.
pub proof fn law_default_curve(t: nat)
    requires
        t > 0,
    ensures
        wait(600, FAST_TRIES as nat + t) == if t == 11 {
            241
        } else if 2 * t * t < 600 {
            2 * t * t
        } else {
            600
        },
{
    crate::double::lemma_default_curve(t);
    if t >= 18 {
        assert(2 * t * t >= 600) by (nonlinear_arith)
            requires
                t >= 18,
        ;
    } else {
        assert(2 * t * t < 600) by (nonlinear_arith)
            requires
                t <= 17,
        ;
    }
}

/// One session that stays up long enough clears the whole history: the restart
/// after it does not wait.
pub proof fn law_a_settled_session_resets(tries: nat, uptime: Duration, poll: Duration)
    requires
        settled(uptime, poll),
    ensures
        tries_after(tries, uptime, poll) == 0,
        wait(poll.secs as nat, tries_after(tries, uptime, poll)) == 0,
{
}

/// A first start has no predecessor. Counted as a session of the longest span
/// there is, it never waits.
pub proof fn law_the_first_start_never_waits(tries: nat, uptime: Duration, poll: Duration)
    requires
        forall|other: Duration| #[trigger] other.wf() ==> other.total() <= uptime.total(),
        uptime.wf(),
    ensures
        wait(poll.secs as nat, tries_after(tries, uptime, poll)) == 0,
{
    let top = Duration { secs: u64::MAX, nanos: 999_999_999 };
    assert(top.wf());
}

/// Which sessions clear the count, by the numbers: those of a tenth of the poll
/// interval or more, in whole seconds, and of ten seconds at the least. After any
/// other the count is one more than before.
pub proof fn law_which_sessions_clear_the_count(tries: nat, uptime: Duration, poll: Duration)
    ensures
        ({
            let tenth = poll.secs / 10;
            let enough = if tenth > 10 {
                tenth
            } else {
                10u64
            };
            let after = tries_after(tries, uptime, poll);
            &&& settled(uptime, poll) <==> uptime.secs >= enough
            &&& after == 0 <==> uptime.secs >= enough
            &&& uptime.secs < enough ==> after == tries + 1
        }),
        // A longer session never counts for less, and neither does a shorter interval.
        forall|longer: Duration, shorter: Duration|
            #![trigger tries_after(tries, longer, shorter)]
            longer.secs >= uptime.secs && shorter.secs <= poll.secs ==> tries_after(
                tries,
                longer,
                shorter,
            ) <= tries_after(tries, uptime, poll),
{
}

/// The wait beyond the free restarts follows the square of their number: after `t`
/// of them it is `poll * t * t / 300` seconds, with the fraction dropped, and never
/// more than the poll interval. Where that division leaves no remainder, rounding may
/// take one second off. This is stated of intervals up to thirty thousand years.
pub proof fn law_the_wait_grows_with_the_square(poll: nat, t: nat)
    requires
        0 < poll <= 0x100_0000_0000,
        t > 0,
    ensures
        ({
            let w = wait(poll, 5 + t);
            let exact = poll * (t * t);
            &&& w <= poll
            &&& w < poll ==> 300 * w <= exact <= 300 * (w + 1)
            &&& w == poll ==> exact >= 300 * poll
        }),
{
    if t >= 18 {
        law_waits_reach_the_poll_interval(poll, 5 + t);
        assert(poll * (t * t) >= 300 * poll) by (nonlinear_arith)
            requires
                t >= 18,
        ;
    } else {
        assert(t * t <= 289) by (nonlinear_arith)
            requires
                t <= 17,
        ;
        assert(6 * (poll * (t * t)) < 0x20_0000_0000_0000) by (nonlinear_arith)
            requires
                poll <= 0x100_0000_0000,
                t * t <= 289,
        ;
        crate::double::lemma_curve_close(poll, t);
        let c = curve(poll, t);
        if c >= poll {
            assert(300 * c >= 300 * poll);
        }
    }
}

/// For an interval of any length the wait beyond the free restarts stays as close to
/// `poll * t * t / 300` seconds as a few roundings to 53 bits allow.
pub proof fn law_the_wait_follows_the_square_closely(poll: nat, t: nat)
    requires
        poll > 0,
        t > 0,
    ensures
        ({
            let w = wait(poll, 5 + t);
            let exact = poll * (t * t);
            &&& w < poll ==> 0x20_0000_0000_0000 * (300 * w) <= 0x20_0000_0000_0006 * exact
            &&& w < poll ==> 0x1f_ffff_ffff_fffa * exact <= 0x20_0000_0000_0000 * (300 * (w + 1))
            &&& w == poll ==> 0x20_0000_0000_0000 * (300 * poll) <= 0x20_0000_0000_0006 * exact
        }),
{
    crate::double::lemma_curve_near(poll, t);
}

} // verus!
