//! Starting ssh, watching it, and deciding what to do once it is gone.
//!
//! Here are the decisions on their own. [`supervisor`] puts them together.

pub mod laws;
pub mod supervisor;
pub mod table;

use crate::log::{err, info, lines_in, log_err, log_info, Line, LineView};
use crate::text::{push_signed, signed_decimal};
use crate::time::Duration;
use vstd::prelude::*;

verus! {

// ------------------------------------------------------------------ the policy

/// What should happen once the ssh child is gone.
#[derive(Debug, Clone, Copy, PartialEq, Eq, Structural)]
pub enum Verdict {
    Restart,
    ExitOk,
    ExitErr,
}

/// Why the supervisor reached its verdict. It tells "never made it out of the
/// starting gate" apart from "the command line was wrong".
#[derive(Debug, Clone, Copy, PartialEq, Eq, Structural)]
pub enum Reason {
    Signalled,
    PrematureExit,
    ConnectionLost,
    CleanExit,
    Failed,
}

/// How the child died.
#[derive(Debug, Clone, Copy, PartialEq, Eq, Structural)]
pub enum Death {
    Signal(i32),
    Exit(i32),
}

impl Death {
    /// The way a child died, by the signal that killed it, if one did, and
    /// otherwise by its exit code.
    pub fn from_status(signal: Option<i32>, code: Option<i32>) -> (d: Self)
        ensures
            d == match signal {
                Some(sig) => Death::Signal(sig),
                None => Death::Exit(
                    match code {
                        Some(c) => c,
                        None => 0,
                    },
                ),
            },
    {
        match signal {
            Some(sig) => Death::Signal(sig),
            None => Death::Exit(
                match code {
                    Some(c) => c,
                    None => 0,
                },
            ),
        }
    }
}

/// Whether the starting gate caught a session: the first one, gone before it had
/// been up for longer than `gate`.
pub open spec fn caught_by_gate(start_count: nat, uptime: Duration, gate: Duration) -> bool {
    start_count == 1 && gate.total() > 0 && uptime.total() <= gate.total()
}

/// What follows from the death of a child.
pub open spec fn judged(death: Death, start_count: nat, uptime: Duration, gate: Duration) -> (
    Verdict,
    Reason,
) {
    match death {
        Death::Signal(_) => (Verdict::Restart, Reason::Signalled),
        Death::Exit(code) => if caught_by_gate(start_count, uptime, gate) {
            (Verdict::ExitErr, Reason::PrematureExit)
        } else if code == 0 {
            (Verdict::ExitOk, Reason::CleanExit)
        } else if code == 255 || ((code == 1 || code == 2) && (start_count > 1 || gate.total()
            == 0)) {
            (Verdict::Restart, Reason::ConnectionLost)
        } else {
            (Verdict::ExitErr, Reason::Failed)
        },
    }
}

/// The exit-status policy.
///
/// `uptime` is how long this child ran, and `start_count` counts from 1.
pub fn classify(death: Death, start_count: u64, uptime: Duration, gate: Duration) -> (r: (
    Verdict,
    Reason,
))
    requires
        uptime.wf(),
        gate.wf(),
    ensures
        r == judged(death, start_count as nat, uptime, gate),
{
    let code: i32 = match death {
        // A killed child was more likely hung than deliberately stopped, so
        // restarting beats assuming that we were meant to exit too.
        Death::Signal(_) => {
            return (Verdict::Restart, Reason::Signalled);
        },
        Death::Exit(c) => c,
    };

    // A first session that dies at once never authenticated or never connected,
    // and retrying would only spin.
    if start_count == 1 && !gate.is_zero() && uptime.at_most(&gate) {
        return (Verdict::ExitErr, Reason::PrematureExit);
    }
    if code == 255 {
        // ssh reports both a dropped connection and a failed authentication as
        // 255 and gives no way to tell them apart; hence the rule above.
        (Verdict::Restart, Reason::ConnectionLost)
    } else if code == 0 {
        (Verdict::ExitOk, Reason::CleanExit)
    } else if (code == 1 || code == 2) && (start_count > 1 || gate.is_zero()) {
        // On a later run these mean that the network went away, not that the
        // command line is wrong.
        (Verdict::Restart, Reason::ConnectionLost)
    } else {
        (Verdict::ExitErr, Reason::Failed)
    }
}

/// The signals rash reacts to.
#[derive(Debug, Clone, Copy, PartialEq, Eq, Structural)]
pub enum Sig {
    Term,
    Int,
    Quit,
    Hup,
    Usr1,
    Usr2,
}

impl Sig {
    /// The name of the signal.
    pub open spec fn shown(self) -> Seq<char> {
        match self {
            Sig::Term => "SIGTERM"@,
            Sig::Int => "SIGINT"@,
            Sig::Quit => "SIGQUIT"@,
            Sig::Hup => "SIGHUP"@,
            Sig::Usr1 => "SIGUSR1"@,
            Sig::Usr2 => "SIGUSR2"@,
        }
    }

    /// Whether the signal asks rash to stop.
    pub open spec fn stops(self) -> bool {
        self is Term || self is Int || self is Quit
    }

    /// The name of the signal.
    pub fn text(&self) -> (s: &'static str)
        ensures
            s@ == self.shown(),
    {
        match self {
            Sig::Term => "SIGTERM",
            Sig::Int => "SIGINT",
            Sig::Quit => "SIGQUIT",
            Sig::Hup => "SIGHUP",
            Sig::Usr1 => "SIGUSR1",
            Sig::Usr2 => "SIGUSR2",
        }
    }
}

/// Signals that mean "stop", and the verdict each produces.
pub fn exiting(sig: Sig) -> (v: Option<Verdict>)
    ensures
        v == if sig.stops() {
            Some(Verdict::ExitErr)
        } else {
            None
        },
{
    match sig {
        Sig::Term | Sig::Int | Sig::Quit => Some(Verdict::ExitErr),
        Sig::Hup | Sig::Usr1 | Sig::Usr2 => None,
    }
}

/// The line about a child's death.
pub open spec fn obituary(death: Death, reason: Reason) -> LineView {
    match death {
        Death::Signal(s) => info(
            "ssh exited on signal "@ + signed_decimal(s as int) + ", restarting ssh"@,
        ),
        Death::Exit(c) => match reason {
            Reason::PrematureExit => err(
                "ssh exited prematurely with status "@ + signed_decimal(c as int)
                    + "; rash exiting"@,
            ),
            Reason::ConnectionLost => info(
                "ssh exited with error status "@ + signed_decimal(c as int) + "; restarting ssh"@,
            ),
            Reason::CleanExit | Reason::Failed => info(
                "ssh exited with status "@ + signed_decimal(c as int) + "; rash exiting"@,
            ),
            Reason::Signalled => info("ssh exited with status "@ + signed_decimal(c as int)),
        },
    }
}

fn around(before: &str, n: i32, after: &str) -> (s: String)
    ensures
        s@ == before@ + signed_decimal(n as int) + after@,
{
    let mut s = before.to_owned();
    push_signed(&mut s, n as i64);
    s.append(after);
    s
}

/// Log a child's death.
pub fn report(lines: &mut Vec<Line>, death: Death, reason: Reason)
    ensures
        lines_in(final(lines)@) == lines_in(old(lines)@).push(obituary(death, reason)),
{
    match death {
        Death::Signal(s) => {
            log_info(lines, around("ssh exited on signal ", s, ", restarting ssh"));
        },
        Death::Exit(c) => match reason {
            Reason::PrematureExit => {
                log_err(lines, around("ssh exited prematurely with status ", c, "; rash exiting"));
            },
            Reason::ConnectionLost => {
                log_info(lines, around("ssh exited with error status ", c, "; restarting ssh"));
            },
            Reason::CleanExit | Reason::Failed => {
                log_info(lines, around("ssh exited with status ", c, "; rash exiting"));
            },
            Reason::Signalled => {
                let mut s = "ssh exited with status ".to_owned();
                push_signed(&mut s, c as i64);
                log_info(lines, s);
            },
        },
    }
}

/// The status rash exits with.
pub fn exit_code(verdict: Verdict) -> (code: u8)
    ensures
        code == if verdict is ExitOk {
            0u8
        } else {
            1u8
        },
{
    match verdict {
        Verdict::ExitOk => 0,
        Verdict::ExitErr | Verdict::Restart => 1,
    }
}

} // verus!
