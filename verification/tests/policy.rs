//! The two pure decision tables: what to do when ssh dies, and how long to wait
//! before starting it again.

use rash::backoff::Backoff;
use rash::supervise::{classify, exit_code, exiting, report, Death, Reason, Sig, Verdict};
use rash::time::Duration;

const GATE: Duration = Duration { secs: 30, nanos: 0 };
const NO_GATE: Duration = Duration { secs: 0, nanos: 0 };
const QUICK: Duration = Duration { secs: 2, nanos: 0 };
const SETTLED: Duration = Duration { secs: 600, nanos: 0 };

#[test]
fn a_killed_child_is_always_restarted() {
    // A signalled ssh was probably hung, not deliberately stopped, so restarting
    // is the better guess.
    for sig in [libc::SIGTERM, libc::SIGKILL, libc::SIGINT, libc::SIGHUP] {
        assert_eq!(
            classify(Death::Signal(sig), 1, QUICK, GATE),
            (Verdict::Restart, Reason::Signalled),
            "signal {sig}"
        );
    }
}

#[test]
fn the_starting_gate_catches_a_first_session_that_dies_at_once() {
    // Any exit status in that time, on the first run, means that authentication
    // or the connection itself failed.
    for code in [0, 1, 2, 42, 255] {
        assert_eq!(
            classify(Death::Exit(code), 1, QUICK, GATE),
            (Verdict::ExitErr, Reason::PrematureExit),
            "code {code}"
        );
    }

    // Past that time the ordinary rules apply again.
    assert_eq!(
        classify(Death::Exit(255), 1, SETTLED, GATE),
        (Verdict::Restart, Reason::ConnectionLost)
    );

    // The starting gate only ever applies to the first run.
    assert_eq!(
        classify(Death::Exit(255), 2, QUICK, GATE),
        (Verdict::Restart, Reason::ConnectionLost)
    );

    // AUTOSSH_GATETIME=0 disables it entirely.
    assert_eq!(
        classify(Death::Exit(255), 1, QUICK, NO_GATE),
        (Verdict::Restart, Reason::ConnectionLost)
    );
}

#[test]
fn exit_status_table() {
    // 255 is a dropped connection as far as we can tell: restart.
    assert_eq!(
        classify(Death::Exit(255), 3, SETTLED, GATE),
        (Verdict::Restart, Reason::ConnectionLost)
    );
    // A clean exit means the user typed `exit`: stop, successfully.
    assert_eq!(
        classify(Death::Exit(0), 3, SETTLED, GATE),
        (Verdict::ExitOk, Reason::CleanExit)
    );
    // 1 and 2 on a later run mean the network went away.
    for code in [1, 2] {
        assert_eq!(
            classify(Death::Exit(code), 2, SETTLED, GATE),
            (Verdict::Restart, Reason::ConnectionLost),
            "code {code} on a restart"
        );
    }
    // ...but on the very first run, with a gate set, they mean the command line
    // is wrong, so stop and let the user fix it.
    assert_eq!(
        classify(Death::Exit(1), 1, SETTLED, GATE),
        (Verdict::ExitErr, Reason::Failed)
    );
    // Anything else is a remote command's status: report it and stop.
    for code in [3, 42, 127] {
        assert_eq!(
            classify(Death::Exit(code), 5, SETTLED, GATE),
            (Verdict::ExitErr, Reason::Failed),
            "code {code}"
        );
    }
}

#[test]
fn gate_boundary_is_inclusive() {
    // A session lasting exactly as long still counts as premature.
    assert_eq!(
        classify(Death::Exit(1), 1, GATE, GATE),
        (Verdict::ExitErr, Reason::PrematureExit)
    );
    assert_eq!(
        classify(Death::Exit(1), 1, Duration::from_secs(31), GATE),
        (Verdict::ExitErr, Reason::Failed)
    );
}

/// The published curve for the default 600s poll: 2t² seconds, capped at 600.
#[test]
fn backoff_curve_matches_the_documented_table() {
    let poll = Duration::from_secs(600);
    let mut b = Backoff::default();

    // The first five quick restarts are free.
    for n in 1..=5 {
        assert_eq!(
            b.next_delay(Duration::zero(), poll),
            Duration::zero(),
            "try {n} should not sleep"
        );
        assert_eq!(b.tries(), n);
    }

    for (tries, expected) in [(6, 2), (7, 8), (8, 18), (9, 32), (10, 50)] {
        let d = b.next_delay(Duration::zero(), poll);
        assert_eq!(b.tries(), tries);
        assert_eq!(d, Duration::from_secs(expected), "tries = {tries}");
    }

    // Further out. next_delay() increments first, so wind up to one below the
    // count being asserted.
    let wind_to = |b: &mut Backoff, n: u32| {
        while b.tries() < n - 1 {
            b.next_delay(Duration::zero(), poll);
        }
        b.next_delay(Duration::zero(), poll)
    };

    assert_eq!(wind_to(&mut b, 15), Duration::from_secs(200));
    assert_eq!(wind_to(&mut b, 20), Duration::from_secs(450));

    // 2t² first exceeds the 600s poll at tries = 23 (t = 18, 648s), so that is
    // where the cap starts biting.
    assert_eq!(wind_to(&mut b, 23), poll, "capped at the poll interval");
    assert_eq!(wind_to(&mut b, 40), poll, "and stays capped");
}

#[test]
fn staying_up_long_enough_resets_the_backoff() {
    let poll = Duration::from_secs(600);
    let mut b = Backoff::default();

    for _ in 0..10 {
        b.next_delay(Duration::zero(), poll);
    }
    assert!(b.tries() > 5);

    // min_time is poll/10, so 60s here. One session that lasts that long clears
    // the whole history.
    assert_eq!(b.next_delay(Duration::from_secs(60), poll), Duration::zero());
    assert_eq!(b.tries(), 0);

    // A session just short of it does not.
    let mut b = Backoff::default();
    b.next_delay(Duration::from_secs(59), poll);
    assert_eq!(b.tries(), 1);
}

#[test]
fn min_time_has_a_floor_of_ten_seconds() {
    // With a very short poll, poll/10 would round to 0 and every restart would
    // count as settled. It is floored at 10s.
    let poll = Duration::from_secs(5);
    let mut b = Backoff::default();

    b.next_delay(Duration::from_secs(9), poll);
    assert_eq!(b.tries(), 1, "9s is below the 10s floor");

    b.next_delay(Duration::from_secs(10), poll);
    assert_eq!(b.tries(), 0, "10s meets the floor");
}

#[test]
fn the_first_start_never_sleeps() {
    // There is no predecessor, so the caller passes Duration::longest().
    let mut b = Backoff::default();
    assert_eq!(
        b.next_delay(Duration::longest(), Duration::from_secs(600)),
        Duration::zero()
    );
    assert_eq!(b.tries(), 0);
}

/// The wait that double-precision arithmetic gives, for comparison.
fn reference(poll: u64, tries: u32) -> u64 {
    if tries <= 5 {
        return 0;
    }
    let t = f64::from(tries - 5);
    let secs = ((poll as f64 / 100.0) * (t * (t / 3.0))) as u64;
    secs.min(poll)
}

#[test]
fn the_backoff_agrees_with_double_precision_arithmetic() {
    let mut polls: Vec<u64> = (1..400).collect();
    polls.extend([600, 601, 999, 3600, 86_400, 1 << 32, u64::MAX / 3, u64::MAX]);
    for poll in polls {
        let mut b = Backoff::default();
        for tries in 1..60 {
            let d = b.next_delay(Duration::zero(), Duration::from_secs(poll));
            assert_eq!(b.tries(), tries);
            assert_eq!(
                d,
                Duration::from_secs(reference(poll, tries)),
                "poll {poll}, tries {tries}"
            );
        }
    }
}

#[test]
fn a_killed_first_session_is_restarted_inside_the_gate_too() {
    assert_eq!(
        classify(Death::Signal(9), 1, NO_GATE, GATE),
        (Verdict::Restart, Reason::Signalled)
    );
    // Fractions of a second count.
    let just_over = Duration { secs: 30, nanos: 1 };
    assert_eq!(
        classify(Death::Exit(255), 1, just_over, GATE),
        (Verdict::Restart, Reason::ConnectionLost)
    );
    // Without a starting gate, 1 and 2 are lost connections on the first run as well.
    assert_eq!(
        classify(Death::Exit(2), 1, QUICK, NO_GATE),
        (Verdict::Restart, Reason::ConnectionLost)
    );
}

#[test]
fn a_status_says_how_the_child_died() {
    assert_eq!(Death::from_status(Some(15), None), Death::Signal(15));
    assert_eq!(Death::from_status(None, Some(255)), Death::Exit(255));
    assert_eq!(Death::from_status(None, None), Death::Exit(0));
}

#[test]
fn which_signals_stop_rash() {
    for sig in [Sig::Term, Sig::Int, Sig::Quit] {
        assert_eq!(exiting(sig), Some(Verdict::ExitErr));
    }
    for sig in [Sig::Hup, Sig::Usr1, Sig::Usr2] {
        assert_eq!(exiting(sig), None);
    }
    assert_eq!(Sig::Usr1.text(), "SIGUSR1");
    assert_eq!(exit_code(Verdict::ExitOk), 0);
    assert_eq!(exit_code(Verdict::ExitErr), 1);
    assert_eq!(exit_code(Verdict::Restart), 1);
}

#[test]
fn obituaries() {
    let line = |death, reason| {
        let mut lines = Vec::new();
        report(&mut lines, death, reason);
        assert_eq!(lines.len(), 1);
        (lines[0].level.text(), lines[0].text.clone())
    };
    assert_eq!(
        line(Death::Signal(9), Reason::Signalled),
        ("info", "ssh exited on signal 9, restarting ssh".to_owned())
    );
    assert_eq!(
        line(Death::Exit(1), Reason::PrematureExit),
        (
            "err",
            "ssh exited prematurely with status 1; rash exiting".to_owned()
        )
    );
    assert_eq!(
        line(Death::Exit(255), Reason::ConnectionLost),
        (
            "info",
            "ssh exited with error status 255; restarting ssh".to_owned()
        )
    );
    assert_eq!(
        line(Death::Exit(0), Reason::CleanExit),
        ("info", "ssh exited with status 0; rash exiting".to_owned())
    );
    assert_eq!(
        line(Death::Exit(-3), Reason::Failed),
        ("info", "ssh exited with status -3; rash exiting".to_owned())
    );
}

#[test]
fn rounding_drops_a_second_once() {
    let poll = Duration::from_secs(600);
    let mut b = Backoff::default();
    for _ in 0..15 {
        b.next_delay(Duration::zero(), poll);
    }
    assert_eq!(b.next_delay(Duration::zero(), poll), Duration::from_secs(241));
}
