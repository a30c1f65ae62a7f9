//! What each event of a run leads to, written out.

use crate::backoff::wait;
use crate::config::{ConfigView, Level};
use crate::log::LineView;
use crate::supervise::supervisor::{
    accepts, fresh, next, Action, EventView, Outcome, Phase, SupervisorView,
};
use crate::supervise::{judged, obituary, Death, Reason, Sig, Verdict};
use crate::text::{decimal, readable, signed_decimal};
use crate::time::Duration;
use vstd::prelude::*;

verus! {

/// Whether nothing but what a run waits for has changed.
pub open spec fn same_counts(s: SupervisorView, o: Outcome) -> bool {
    o.state.starts == s.starts && o.state.tries == s.tries
}

/// The only line of an outcome.
pub open spec fn says(o: Outcome, level: Level, text: Seq<char>) -> bool {
    o.lines.len() == 1 && o.lines[0].level == level && o.lines[0].text == text
}

/// A run begins by installing the signal handlers, then opens the monitor's socket,
/// and then looks at the clock. Either of the first two can end it in failure.
pub proof fn law_how_a_run_begins(cfg: ConfigView, s: SupervisorView, why: Seq<char>)
    ensures
        s.phase is Installing ==> {
            let o = next(cfg, s, EventView::Installed);
            let f = next(cfg, s, EventView::InstallFailed(why));
            &&& o.action == Action::Bind && o.state.phase == Phase::Binding && o.lines.len() == 0
            &&& same_counts(s, o)
            &&& f.action == Action::Exit(Verdict::ExitErr)
            &&& f.state.phase == Phase::Done(Verdict::ExitErr) && same_counts(s, f)
            &&& says(f, Level::Error, "cannot install signal handlers: "@ + why)
        },
        s.phase is Binding ==> {
            let o = next(cfg, s, EventView::Bound);
            let f = next(cfg, s, EventView::BindFailed(why));
            &&& o.action == Action::Check && o.state.phase == Phase::Deciding && o.lines.len() == 0
            &&& same_counts(s, o)
            &&& f.action == Action::Exit(Verdict::ExitErr)
            &&& f.state.phase == Phase::Done(Verdict::ExitErr) && same_counts(s, f)
            &&& says(f, Level::Error, "cannot open monitor socket: "@ + why)
        },
{
}

/// Before a start the limit on starts is looked at first, and the lifetime next. Past
/// both, the quick restarts are counted: a session that stayed up for a tenth of the
/// poll interval, and for ten seconds at least, clears the count, and any other adds
/// one. A first start has no session before it, and clears the count.
pub proof fn law_how_a_start_is_decided(
    cfg: ConfigView,
    s: SupervisorView,
    since: Option<Duration>,
    past: bool,
)
    requires
        s.phase is Deciding,
    ensures
        ({
            let o = next(cfg, s, EventView::Clock { since_start: since, past_deadline: past });
            let reached = cfg.max_start >= 0 && s.starts >= cfg.max_start;
            let stayed = match since {
                None => true,
                Some(d) => 10 * (d.secs + 1) > cfg.poll.secs && d.secs >= 10,
            };
            &&& reached ==> o.action == Action::Exit(Verdict::ExitOk) && o.state.phase
                == Phase::Done(Verdict::ExitOk) && same_counts(s, o) && says(
                o,
                Level::Info,
                "max start count reached; exiting"@,
            )
            &&& !reached && past ==> o.action == Action::Exit(Verdict::ExitOk) && o.state.phase
                == Phase::Done(Verdict::ExitOk) && same_counts(s, o) && says(
                o,
                Level::Info,
                "exceeded maximum time to live, shutting down"@,
            )
            &&& !reached && !past ==> {
                &&& o.state.tries == if stayed {
                    0
                } else {
                    s.tries + 1
                }
                &&& o.lines.len() == 2
                &&& o.lines[0] == (LineView {
                    level: Level::Debug,
                    text: "checking for grace period, tries = "@ + decimal(o.state.tries),
                })
                &&& o.state.tries <= 5 ==> o.action == Action::Start
                &&& o.action == Action::Start || o.action is Rest
                &&& o.action == Action::Start ==> o.state.phase == Phase::Starting
                    && o.state.starts == s.starts + 1 && o.lines[1].level == Level::Info
                    && o.lines[1].text == started_text(cfg.max_start, s.starts + 1)
                &&& o.action matches Action::Rest(d) ==> o.state.phase == Phase::Resting
                    && o.state.starts == s.starts && d.nanos == 0 && 0 < d.secs <= cfg.poll.secs
                    && o.lines[1] == (LineView {
                    level: Level::Debug,
                    text: "sleeping for grace time "@ + decimal(d.secs as nat) + " secs"@,
                })
            }
        }),
{
    if let Some(d) = since {
        assert(d.secs >= cfg.poll.secs / 10 <==> 10 * (d.secs + 1) > cfg.poll.secs);
    }
}

/// What is said about a start: which one it is, and of how many, if they are limited.
pub open spec fn started_text(max_start: int, count: nat) -> Seq<char> {
    if max_start < 0 {
        "starting ssh (count "@ + decimal(count) + ")"@
    } else {
        "starting ssh (count "@ + decimal(count) + " of "@ + decimal(max_start as nat) + ")"@
    }
}

/// A rest ends in a start, whether it is over or a signal cuts it short; but SIGTERM,
/// SIGINT and SIGQUIT end the run.
pub proof fn law_how_a_rest_ends(cfg: ConfigView, s: SupervisorView, sig: Sig)
    requires
        s.phase is Resting,
    ensures
        ({
            let o = next(cfg, s, EventView::Rested);
            &&& o.action == Action::Start && o.state.phase == Phase::Starting
            &&& o.state.starts == s.starts + 1 && o.state.tries == s.tries
            &&& says(o, Level::Info, started_text(cfg.max_start, s.starts + 1))
        }),
        ({
            let o = next(cfg, s, EventView::Signal(sig));
            if sig == Sig::Term || sig == Sig::Int || sig == Sig::Quit {
                &&& o.action == Action::Exit(Verdict::ExitErr)
                &&& o.state.phase == Phase::Done(Verdict::ExitErr) && same_counts(s, o)
                &&& says(o, Level::Info, "received signal to exit ("@ + signal_name(sig) + ")"@)
            } else {
                &&& o.action == Action::Start && o.state.phase == Phase::Starting
                &&& o.state.starts == s.starts + 1 && o.state.tries == s.tries
                &&& o.lines.len() == 2
                &&& o.lines[0] == (LineView {
                    level: Level::Debug,
                    text: signal_name(sig) + " during backoff; retrying now"@,
                })
                &&& o.lines[1] == (LineView {
                    level: Level::Info,
                    text: started_text(cfg.max_start, s.starts + 1),
                })
            }
        }),
{
}

/// The name of a signal.
pub open spec fn signal_name(sig: Sig) -> Seq<char> {
    match sig {
        Sig::Term => "SIGTERM"@,
        Sig::Int => "SIGINT"@,
        Sig::Quit => "SIGQUIT"@,
        Sig::Hup => "SIGHUP"@,
        Sig::Usr1 => "SIGUSR1"@,
        Sig::Usr2 => "SIGUSR2"@,
    }
}

/// Once ssh is started it is watched, with the poll timer set to fire first after the
/// first poll time and then at every poll time. An ssh that cannot be started ends the
/// run in failure.
pub proof fn law_what_follows_a_start(
    cfg: ConfigView,
    s: SupervisorView,
    child: Option<u32>,
    why: Seq<char>,
)
    requires
        s.phase is Starting,
    ensures
        ({
            let o = next(cfg, s, EventView::Started { child });
            let id = match child {
                Some(pid) => pid as nat,
                None => 0,
            };
            &&& o.action == (Action::Begin { first: cfg.first_poll, every: cfg.poll })
            &&& o.state.phase == (Phase::Watching { child }) && same_counts(s, o)
            &&& says(o, Level::Info, "ssh child pid is "@ + decimal(id))
        }),
        ({
            let o = next(cfg, s, EventView::StartFailed(why));
            &&& o.action == Action::Exit(Verdict::ExitErr)
            &&& o.state.phase == Phase::Done(Verdict::ExitErr) && same_counts(s, o)
            &&& says(o, Level::Error, readable(cfg.ssh_path) + ": "@ + why)
        }),
{
}

/// Whenever the poll timer fires the tunnel is probed, in loop mode and in echo mode
/// alike. Only where there is no monitor is there no probe, and then the pid file is
/// touched, if there is one and that was asked for.
pub proof fn law_every_poll_probes_the_tunnel(
    cfg: ConfigView,
    s: SupervisorView,
    child: Option<u32>,
)
    requires
        s.phase == (Phase::Watching { child }),
    ensures
        ({
            let o = next(cfg, s, EventView::Tick);
            let id = match child {
                Some(pid) => pid as nat,
                None => 0,
            };
            let touch = cfg.touch_pid_file && cfg.pid_file is Some;
            &&& says(o, Level::Debug, "check on child "@ + decimal(id)) && same_counts(s, o)
            &&& !(cfg.monitor is Disabled) ==> o.action == Action::Probe && o.state.phase == (
            Phase::Probing { child })
            &&& cfg.monitor is Loop ==> o.action == Action::Probe
            &&& cfg.monitor is Echo ==> o.action == Action::Probe
            &&& cfg.monitor is Disabled && touch ==> o.action == Action::Touch && o.state.phase == (
            Phase::Touching { child })
            &&& cfg.monitor is Disabled && !touch ==> o.action == Action::Watch && o.state.phase
                == (Phase::Watching { child })
        }),
{
}

/// A probe that comes back lets ssh run on, after the pid file has been touched where
/// that was asked for. One that does not has ssh terminated and started again.
pub proof fn law_what_follows_a_probe(cfg: ConfigView, s: SupervisorView, child: Option<u32>)
    requires
        s.phase == (Phase::Probing { child }),
    ensures
        ({
            let o = next(cfg, s, EventView::Probed(true));
            let touch = cfg.touch_pid_file && cfg.pid_file is Some;
            &&& o.lines.len() == 0 && same_counts(s, o)
            &&& touch ==> o.action == Action::Touch && o.state.phase == (Phase::Touching { child })
            &&& !touch ==> o.action == Action::Watch && o.state.phase == (Phase::Watching { child })
        }),
        dismissed(
            cfg,
            s,
            next(cfg, s, EventView::Probed(false)),
            child,
            Verdict::Restart,
            "port down, restarting ssh"@,
        ),
{
}

/// Whether the child is sent SIGTERM and given the kill timeout, with a verdict to
/// follow; or whether, where there is none, the verdict follows at once.
pub open spec fn dismissed(
    cfg: ConfigView,
    s: SupervisorView,
    o: Outcome,
    child: Option<u32>,
    then: Verdict,
    text: Seq<char>,
) -> bool {
    &&& same_counts(s, o)
    &&& o.lines.len() > 0 && o.lines[0] == (LineView { level: Level::Info, text })
    &&& match child {
        Some(pid) => {
            &&& o.action == (Action::Terminate { pid, patience: cfg.kill_timeout })
            &&& o.state.phase == (Phase::Stopping { pid, forced: false, then })
            &&& o.lines.len() == 2
            &&& o.lines[1] == (LineView {
                level: Level::Debug,
                text: "sending SIGTERM to "@ + decimal(pid as nat),
            })
        },
        None => o.lines.len() == 1 && followed(o, then),
    }
}

/// Whether a verdict is carried out: a restart looks at the clock, and any other ends
/// the run.
pub open spec fn followed(o: Outcome, verdict: Verdict) -> bool {
    match verdict {
        Verdict::Restart => o.action == Action::Check && o.state.phase == Phase::Deciding,
        Verdict::ExitOk => o.action == Action::Exit(Verdict::ExitOk) && o.state.phase
            == Phase::Done(Verdict::ExitOk),
        Verdict::ExitErr => o.action == Action::Exit(Verdict::ExitErr) && o.state.phase
            == Phase::Done(Verdict::ExitErr),
    }
}

/// Touching the pid file leads back to watching, and so does failing to, with a
/// complaint.
pub proof fn law_what_follows_a_touch(
    cfg: ConfigView,
    s: SupervisorView,
    child: Option<u32>,
    why: Seq<char>,
)
    requires
        s.phase == (Phase::Touching { child }),
    ensures
        ({
            let o = next(cfg, s, EventView::Touched);
            let f = next(cfg, s, EventView::TouchFailed(why));
            &&& o.action == Action::Watch && o.state.phase == (Phase::Watching { child })
            &&& o.lines.len() == 0 && same_counts(s, o)
            &&& f.action == Action::Watch && f.state.phase == (Phase::Watching { child })
            &&& says(f, Level::Error, "could not touch pid file: "@ + why) && same_counts(s, f)
        }),
{
}

/// What a signal does while ssh runs: SIGTERM, SIGINT and SIGQUIT terminate ssh and end
/// the run in failure, SIGUSR1 terminates ssh and starts it again, and SIGHUP and
/// SIGUSR2 change nothing.
pub proof fn law_what_each_signal_does(
    cfg: ConfigView,
    s: SupervisorView,
    child: Option<u32>,
    sig: Sig,
)
    requires
        s.phase == (Phase::Watching { child }),
    ensures
        ({
            let o = next(cfg, s, EventView::Signal(sig));
            &&& sig == Sig::Term || sig == Sig::Int || sig == Sig::Quit ==> dismissed(
                cfg,
                s,
                o,
                child,
                Verdict::ExitErr,
                "received signal to exit ("@ + signal_name(sig) + ")"@,
            )
            &&& sig == Sig::Usr1 ==> dismissed(
                cfg,
                s,
                o,
                child,
                Verdict::Restart,
                "signalled to kill and restart ssh"@,
            )
            &&& sig == Sig::Hup || sig == Sig::Usr2 ==> o.action == Action::Watch && o.state == s
                && says(o, Level::Debug, "woken by "@ + signal_name(sig))
        }),
{
}

/// The end of the lifetime terminates ssh and ends the run well. A failure to wait for
/// ssh ends it in failure.
pub proof fn law_what_else_ends_a_session(
    cfg: ConfigView,
    s: SupervisorView,
    child: Option<u32>,
    why: Seq<char>,
)
    requires
        s.phase == (Phase::Watching { child }),
    ensures
        dismissed(
            cfg,
            s,
            next(cfg, s, EventView::Deadline),
            child,
            Verdict::ExitOk,
            "exceeded maximum time to live, shutting down"@,
        ),
        ({
            let o = next(cfg, s, EventView::WaitFailed(why));
            &&& followed(o, Verdict::ExitErr) && same_counts(s, o)
            &&& says(o, Level::Error, "waiting on ssh: "@ + why)
        }),
{
}

/// Whether a span is no longer than another.
pub open spec fn within(d: Duration, other: Duration) -> bool {
    d.secs < other.secs || (d.secs == other.secs && d.nanos <= other.nanos)
}

/// What is made of the death of a child, by the numbers. A child that a signal killed
/// is restarted. One that exits on the first start, within a starting gate that is not
/// zero, ends the run in failure, whatever its status. Past that, 255 restarts it, 0
/// ends the run well, 1 and 2 restart it unless this is a first start with a starting
/// gate, and anything else ends the run in failure.
pub proof fn law_what_each_death_means(death: Death, count: nat, uptime: Duration, gate: Duration)
    requires
        uptime.wf(),
        gate.wf(),
    ensures
        ({
            let (verdict, reason) = judged(death, count, uptime, gate);
            let gated = gate.secs > 0 || gate.nanos > 0;
            match death {
                Death::Signal(_) => verdict == Verdict::Restart && reason == Reason::Signalled,
                Death::Exit(code) => if count == 1 && gated && within(uptime, gate) {
                    verdict == Verdict::ExitErr && reason == Reason::PrematureExit
                } else if code == 255 {
                    verdict == Verdict::Restart && reason == Reason::ConnectionLost
                } else if code == 0 {
                    verdict == Verdict::ExitOk && reason == Reason::CleanExit
                } else if (code == 1 || code == 2) && (count > 1 || !gated) {
                    verdict == Verdict::Restart && reason == Reason::ConnectionLost
                } else {
                    verdict == Verdict::ExitErr && reason == Reason::Failed
                },
            }
        }),
{
}

/// What is said about the death of a child.
pub proof fn law_what_is_said_of_each_death(
    cfg: ConfigView,
    s: SupervisorView,
    death: Death,
    uptime: Duration,
)
    requires
        s.phase is Watching,
    ensures
        death matches Death::Exit(code) ==> obituary(death, Reason::Signalled) == (LineView {
            level: Level::Info,
            text: "ssh exited with status "@ + signed_decimal(code as int),
        }),
        ({
            let o = next(cfg, s, EventView::Exited { death, uptime });
            let (verdict, reason) = judged(death, s.starts, uptime, cfg.gate_time);
            &&& followed(o, verdict) && same_counts(s, o)
            &&& match death {
                Death::Signal(n) => says(
                    o,
                    Level::Info,
                    "ssh exited on signal "@ + signed_decimal(n as int) + ", restarting ssh"@,
                ),
                Death::Exit(code) => {
                    let c = signed_decimal(code as int);
                    match reason {
                        Reason::PrematureExit => says(
                            o,
                            Level::Error,
                            "ssh exited prematurely with status "@ + c + "; rash exiting"@,
                        ),
                        Reason::ConnectionLost => says(
                            o,
                            Level::Info,
                            "ssh exited with error status "@ + c + "; restarting ssh"@,
                        ),
                        _ => says(
                            o,
                            Level::Info,
                            "ssh exited with status "@ + c + "; rash exiting"@,
                        ),
                    }
                },
            }
        }),
{
}

/// A child that was sent SIGTERM and is gone lets the verdict follow. One that is still
/// there after the kill timeout is sent SIGKILL, once, and then too the verdict follows.
pub proof fn law_how_a_child_is_stopped(
    cfg: ConfigView,
    s: SupervisorView,
    pid: u32,
    forced: bool,
    then: Verdict,
    why: Seq<char>,
)
    requires
        s.phase == (Phase::Stopping { pid, forced, then }),
    ensures
        ({
            let o = next(cfg, s, EventView::Reaped);
            followed(o, then) && o.lines.len() == 0 && same_counts(s, o)
        }),
        ({
            let o = next(cfg, s, EventView::ReapFailed(why));
            &&& followed(o, then) && same_counts(s, o)
            &&& says(o, Level::Error, "waitpid() not successful: "@ + why)
        }),
        !forced ==> {
            let o = next(cfg, s, EventView::Overdue);
            &&& o.action == (Action::Kill { pid }) && same_counts(s, o)
            &&& o.state.phase == (Phase::Stopping { pid, forced: true, then })
            &&& says(
                o,
                Level::Error,
                "ssh "@ + decimal(pid as nat) + " ignored SIGTERM after "@ + decimal(
                    cfg.kill_timeout.secs as nat,
                ) + "s; sending SIGKILL"@,
            )
        },
        forced ==> !accepts(s.phase, EventView::Overdue),
{
}

/// What a run waits for at each point, and nothing else: in particular it listens to
/// signals while it rests and while ssh runs, and to nothing once it is over.
pub proof fn law_what_a_run_waits_for(phase: Phase, e: EventView)
    ensures
        accepts(phase, e) <==> match e {
            EventView::Installed => phase is Installing,
            EventView::InstallFailed(_) => phase is Installing,
            EventView::Bound => phase is Binding,
            EventView::BindFailed(_) => phase is Binding,
            EventView::Clock { .. } => phase is Deciding,
            EventView::Rested => phase is Resting,
            EventView::Signal(_) => phase is Resting || phase is Watching,
            EventView::Started { .. } => phase is Starting,
            EventView::StartFailed(_) => phase is Starting,
            EventView::Exited { .. } => phase is Watching,
            EventView::WaitFailed(_) => phase is Watching,
            EventView::Tick => phase is Watching,
            EventView::Deadline => phase is Watching,
            EventView::Probed(_) => phase is Probing,
            EventView::Touched => phase is Touching,
            EventView::TouchFailed(_) => phase is Touching,
            EventView::Reaped => phase is Stopping,
            EventView::ReapFailed(_) => phase is Stopping,
            EventView::Overdue => phase matches Phase::Stopping { forced, .. } && !forced,
        },
{
}

/// A run begins with nothing done: the signal handlers are to be installed, nothing has
/// been started, and no quick restart has been seen.
pub proof fn law_a_new_run_has_done_nothing()
    ensures
        fresh().phase == Phase::Installing && fresh().starts == 0 && fresh().tries == 0,
{
}

/// How long a rest is: what the backoff asks for after so many quick restarts. Where it
/// asks for nothing, ssh is started at once.
pub proof fn law_how_long_a_rest_is(
    cfg: ConfigView,
    s: SupervisorView,
    since: Option<Duration>,
)
    requires
        s.phase is Deciding,
        cfg.max_start < 0 || s.starts < cfg.max_start,
    ensures
        ({
            let o = next(cfg, s, EventView::Clock { since_start: since, past_deadline: false });
            let pause = wait(cfg.poll.secs as nat, o.state.tries);
            o.action == if pause == 0 {
                Action::Start
            } else {
                Action::Rest(Duration { secs: pause as u64, nanos: 0 })
            }
        }),
{
}

/// The names of the signals, and which of them stop a run.
pub proof fn law_the_signals(sig: Sig)
    ensures
        sig.shown() == signal_name(sig),
        sig.stops() <==> sig == Sig::Term || sig == Sig::Int || sig == Sig::Quit,
{
}

} // verus!
