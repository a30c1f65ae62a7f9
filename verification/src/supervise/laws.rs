//! What holds of the exit-status policy and of every run.

use crate::backoff::{settled, wait};
use crate::config::ConfigView;
use crate::supervise::supervisor::{
    accepts, fresh, next, ran, used_up, Action, EventView, Phase, SupervisorView,
};
use crate::supervise::{caught_by_gate, judged, Death, Reason, Sig, Verdict};
use crate::time::Duration;
use vstd::prelude::*;

verus! {

// ------------------------------------------------------------------ the policy

/// A child that a signal killed is always restarted.
pub proof fn law_a_killed_child_is_always_restarted(
    sig: i32,
    start_count: nat,
    uptime: Duration,
    gate: Duration,
)
    ensures
        judged(Death::Signal(sig), start_count, uptime, gate) == (
            Verdict::Restart,
            Reason::Signalled,
        ),
{
}

/// The starting gate stops a first session that dies within its time, whatever
/// the status, and nothing else: not a later session, not one that lasted
/// longer, and not where the time is 0.
pub proof fn law_the_starting_gate(code: i32, start_count: nat, uptime: Duration, gate: Duration)
    ensures
        caught_by_gate(start_count, uptime, gate) ==> judged(
            Death::Exit(code),
            start_count,
            uptime,
            gate,
        ) == (Verdict::ExitErr, Reason::PrematureExit),
        judged(Death::Exit(code), start_count, uptime, gate).1 == Reason::PrematureExit
            ==> start_count == 1 && gate.total() > 0 && uptime.total() <= gate.total(),
{
}

/// Past the starting gate the status alone tells a lost connection (255) and a
/// clean exit (0); on a restart, or without a starting gate, 1 and 2 are lost
/// connections too, and every other status ends the run.
pub proof fn law_the_exit_status_table(
    code: i32,
    start_count: nat,
    uptime: Duration,
    gate: Duration,
)
    requires
        !caught_by_gate(start_count, uptime, gate),
    ensures
        ({
            let r = judged(Death::Exit(code), start_count, uptime, gate);
            &&& code == 255 ==> r == (Verdict::Restart, Reason::ConnectionLost)
            &&& code == 0 ==> r == (Verdict::ExitOk, Reason::CleanExit)
            &&& (code == 1 || code == 2) && (start_count > 1 || gate.total() == 0) ==> r == (
                Verdict::Restart,
                Reason::ConnectionLost,
            )
            &&& (code == 1 || code == 2) && start_count <= 1 && gate.total() > 0 ==> r == (
                Verdict::ExitErr,
                Reason::Failed,
            )
            &&& code != 255 && code != 0 && code != 1 && code != 2 ==> r == (
                Verdict::ExitErr,
                Reason::Failed,
            )
        }),
{
}

// ----------------------------------------------------------------- every run

/// Where a run stands after a series of events.
pub open spec fn state_after(cfg: ConfigView, events: Seq<EventView>) -> SupervisorView
    decreases events.len(),
{
    if events.len() == 0 {
        fresh()
    } else {
        next(cfg, state_after(cfg, events.drop_last()), events.last()).state
    }
}

/// The action that a series of events leads to.
pub open spec fn action_after(cfg: ConfigView, events: Seq<EventView>) -> Action {
    if events.len() == 0 {
        Action::Install
    } else {
        next(cfg, state_after(cfg, events.drop_last()), events.last()).action
    }
}

/// Whether a series of events is one that can happen: each of them is one that
/// the run was waiting for.
pub open spec fn possible(cfg: ConfigView, events: Seq<EventView>) -> bool
    decreases events.len(),
{
    events.len() == 0 || {
        &&& possible(cfg, events.drop_last())
        &&& accepts(state_after(cfg, events.drop_last()).phase, events.last())
    }
}

/// How often ssh was asked to be started.
pub open spec fn starts_in(cfg: ConfigView, events: Seq<EventView>) -> nat
    decreases events.len(),
{
    if events.len() == 0 {
        0
    } else {
        starts_in(cfg, events.drop_last()) + if action_after(cfg, events) is Start {
            1nat
        } else {
            0
        }
    }
}

/// ssh is never started more often than the limit allows, and the run ends well
/// once it is used up.
pub proof fn law_max_start_is_honoured(cfg: ConfigView, events: Seq<EventView>)
    requires
        possible(cfg, events),
        cfg.max_start >= 0,
    ensures
        starts_in(cfg, events) == state_after(cfg, events).starts,
        starts_in(cfg, events) <= cfg.max_start,
        state_after(cfg, events).phase is Deciding && starts_in(cfg, events) == cfg.max_start
            ==> forall|since: Option<Duration>, past: bool|
            #[trigger] next(
                cfg,
                state_after(cfg, events),
                EventView::Clock { since_start: since, past_deadline: past },
            ).action == Action::Exit(Verdict::ExitOk),
    decreases events.len(),
{
    lemma_counted(cfg, events);
    if events.len() > 0 {
        law_max_start_is_honoured(cfg, events.drop_last());
        lemma_rest_is_allowed(cfg, events.drop_last());
    }
}

/// The count in the state is the count of the starts.
proof fn lemma_counted(cfg: ConfigView, events: Seq<EventView>)
    requires
        possible(cfg, events),
    ensures
        starts_in(cfg, events) == state_after(cfg, events).starts,
    decreases events.len(),
{
    if events.len() > 0 {
        lemma_counted(cfg, events.drop_last());
    }
}

/// A run rests only before a start that is still allowed.
proof fn lemma_rest_is_allowed(cfg: ConfigView, events: Seq<EventView>)
    requires
        possible(cfg, events),
    ensures
        state_after(cfg, events).phase is Resting ==> !used_up(cfg, state_after(cfg, events)),
    decreases events.len(),
{
    if events.len() > 0 {
        lemma_rest_is_allowed(cfg, events.drop_last());
    }
}

/// Whether an event leaves the run to the restarts: nothing fails outside ssh, the
/// lifetime goes on, nobody asks rash to stop, and if ssh exits it is in a way that
/// has it restarted.
pub open spec fn undisturbed_by(cfg: ConfigView, s: SupervisorView, e: EventView) -> bool {
    match e {
        EventView::InstallFailed(_) => false,
        EventView::BindFailed(_) => false,
        EventView::StartFailed(_) => false,
        EventView::WaitFailed(_) => false,
        EventView::Deadline => false,
        EventView::Clock { past_deadline, .. } => !past_deadline,
        EventView::Signal(sig) => !sig.stops(),
        EventView::Exited { death, uptime } => judged(death, s.starts, uptime, cfg.gate_time).0
            == Verdict::Restart,
        _ => true,
    }
}

/// Whether every event of a series leaves the run to the restarts.
pub open spec fn undisturbed(cfg: ConfigView, events: Seq<EventView>) -> bool
    decreases events.len(),
{
    events.len() == 0 || {
        &&& undisturbed(cfg, events.drop_last())
        &&& undisturbed_by(cfg, state_after(cfg, events.drop_last()), events.last())
    }
}

proof fn lemma_undisturbed(cfg: ConfigView, events: Seq<EventView>)
    requires
        possible(cfg, events),
        undisturbed(cfg, events),
    ensures
        match state_after(cfg, events).phase {
            Phase::Stopping { then, .. } => then is Restart,
            Phase::Done(verdict) => verdict is ExitOk && cfg.max_start >= 0 && state_after(
                cfg,
                events,
            ).starts >= cfg.max_start,
            _ => true,
        },
    decreases events.len(),
{
    if events.len() > 0 {
        lemma_undisturbed(cfg, events.drop_last());
        assert(accepts(state_after(cfg, events.drop_last()).phase, events.last()));
    }
}

/// A run that is left to the restarts ends only once ssh has been started exactly as
/// often as the limit allows, and then it ends well. Without a limit it goes on.
pub proof fn law_an_undisturbed_run_makes_every_start(cfg: ConfigView, events: Seq<EventView>)
    requires
        possible(cfg, events),
        undisturbed(cfg, events),
        action_after(cfg, events) is Exit,
    ensures
        cfg.max_start >= 0,
        starts_in(cfg, events) == cfg.max_start,
        action_after(cfg, events) == Action::Exit(Verdict::ExitOk),
{
    lemma_undisturbed(cfg, events);
    lemma_exit_is_done(cfg, events);
    law_max_start_is_honoured(cfg, events);
}

/// Whether a series of events is one quick restart after the other: ssh is started and
/// exits, and nothing else happens.
pub open spec fn only_restarts(events: Seq<EventView>) -> bool {
    forall|i: int|
        0 <= i < events.len() ==> match #[trigger] events[i] {
            EventView::Installed => true,
            EventView::Bound => true,
            EventView::Clock { .. } => true,
            EventView::Rested => true,
            EventView::Started { .. } => true,
            EventView::Exited { .. } => true,
            _ => false,
        }
}

/// How many events there can have been at most when `starts` starts were made.
spec fn events_by(phase: Phase, starts: nat) -> nat {
    match phase {
        Phase::Installing => 0,
        Phase::Binding => 1,
        Phase::Deciding => 2 + 4 * starts,
        Phase::Resting => 3 + 4 * starts,
        Phase::Starting => 4 * starts,
        Phase::Watching { .. } => 1 + 4 * starts,
        _ => 3 + 4 * starts,
    }
}

proof fn lemma_only_restarts(cfg: ConfigView, events: Seq<EventView>)
    requires
        possible(cfg, events),
        undisturbed(cfg, events),
        only_restarts(events),
    ensures
        ({
            let s = state_after(cfg, events);
            &&& events.len() <= events_by(s.phase, s.starts)
            &&& s.phase is Starting || s.phase is Watching ==> s.starts > 0
            &&& !(s.phase is Probing || s.phase is Touching || s.phase is Stopping)
        }),
    decreases events.len(),
{
    if events.len() > 0 {
        let before = events.drop_last();
        assert forall|i: int| 0 <= i < before.len() implies match #[trigger] before[i] {
            EventView::Installed => true,
            EventView::Bound => true,
            EventView::Clock { .. } => true,
            EventView::Rested => true,
            EventView::Started { .. } => true,
            EventView::Exited { .. } => true,
            _ => false,
        } by {
            assert(before[i] == events[i]);
        }
        lemma_only_restarts(cfg, before);
        assert(events[events.len() - 1] == events.last());
        assert(accepts(state_after(cfg, before).phase, events.last()));
    }
}

/// A run of nothing but restarts comes to its end: where there is a limit, it has ended,
/// well and with exactly that many starts, after four events for each start and three
/// more at the latest.
pub proof fn law_a_run_of_restarts_ends(cfg: ConfigView, events: Seq<EventView>)
    requires
        possible(cfg, events),
        undisturbed(cfg, events),
        only_restarts(events),
        cfg.max_start >= 0,
    ensures
        events.len() <= 4 * cfg.max_start + 3,
        events.len() == 4 * cfg.max_start + 3 ==> action_after(cfg, events) == Action::Exit(
            Verdict::ExitOk,
        ) && starts_in(cfg, events) == cfg.max_start,
{
    lemma_only_restarts(cfg, events);
    law_max_start_is_honoured(cfg, events);
    lemma_exit_is_done(cfg, events);
    lemma_rest_is_allowed(cfg, events);
    if action_after(cfg, events) is Exit {
        law_an_undisturbed_run_makes_every_start(cfg, events);
    }
}

/// An exit is final: nothing can happen after it.
pub proof fn law_nothing_follows_an_exit(cfg: ConfigView, events: Seq<EventView>, k: int)
    requires
        possible(cfg, events),
        0 <= k <= events.len(),
        action_after(cfg, events.take(k)) is Exit,
    ensures
        k == events.len(),
    decreases events.len(),
{
    if k == events.len() {
    } else {
        let before = events.drop_last();
        if k == before.len() {
            assert(events.take(k) =~= before);
            lemma_exit_is_done(cfg, before);
        } else {
            assert(events.take(k) =~= before.take(k));
            law_nothing_follows_an_exit(cfg, before, k);
        }
    }
}

/// The run is over exactly when it was told to exit, and never in order to
/// restart.
proof fn lemma_exit_is_done(cfg: ConfigView, events: Seq<EventView>)
    requires
        possible(cfg, events),
    ensures
        action_after(cfg, events) is Exit <==> state_after(cfg, events).phase is Done,
        state_after(cfg, events).phase matches Phase::Done(v) ==> action_after(cfg, events)
            == Action::Exit(v),
        !(state_after(cfg, events).phase matches Phase::Done(v) && v is Restart),
{
    if events.len() > 0 {
        let s = state_after(cfg, events.drop_last());
        assert(accepts(s.phase, events.last()));
    }
}

/// Whether the child that was started last may still be there.
pub open spec fn has_child(phase: Phase) -> bool {
    phase is Watching || phase is Probing || phase is Touching || phase is Stopping
}

/// How often ssh was in fact started.
pub open spec fn births(events: Seq<EventView>) -> nat
    decreases events.len(),
{
    if events.len() == 0 {
        0
    } else {
        births(events.drop_last()) + if events.last() is Started {
            1nat
        } else {
            0
        }
    }
}

/// How often a child was waited for to the end.
pub open spec fn ends(events: Seq<EventView>) -> nat
    decreases events.len(),
{
    if events.len() == 0 {
        0
    } else {
        ends(events.drop_last()) + match events.last() {
            EventView::Exited { .. } => 1nat,
            EventView::WaitFailed(_) => 1,
            EventView::Reaped => 1,
            EventView::ReapFailed(_) => 1,
            _ => 0,
        }
    }
}

/// Whether every child that was started had an id.
pub open spec fn all_known(events: Seq<EventView>) -> bool {
    forall|i: int|
        0 <= i < events.len() ==> !(#[trigger] events[i] matches EventView::Started { child }
            && child is None)
}

proof fn lemma_children(cfg: ConfigView, events: Seq<EventView>)
    requires
        possible(cfg, events),
        all_known(events),
    ensures
        births(events) == ends(events) + if has_child(state_after(cfg, events).phase) {
            1nat
        } else {
            0
        },
        match state_after(cfg, events).phase {
            Phase::Watching { child } => child is Some,
            Phase::Probing { child } => child is Some,
            Phase::Touching { child } => child is Some,
            _ => true,
        },
    decreases events.len(),
{
    if events.len() > 0 {
        let before = events.drop_last();
        assert forall|i: int| 0 <= i < before.len() implies !(
        #[trigger] before[i] matches EventView::Started { child } && child is None) by {
            assert(before[i] == events[i]);
        }
        lemma_children(cfg, before);
        assert(events[events.len() - 1] == events.last());
        assert(accepts(state_after(cfg, before).phase, events.last()));
    }
}

/// No child is left behind: whenever ssh is about to be started again, and when
/// the run ends, every child that was ever started has been waited for. There
/// is never more than one of them.
pub proof fn law_no_child_is_left_behind(cfg: ConfigView, events: Seq<EventView>)
    requires
        possible(cfg, events),
        all_known(events),
    ensures
        ends(events) <= births(events) <= ends(events) + 1,
        action_after(cfg, events) is Start || action_after(cfg, events) is Exit ==> births(events)
            == ends(events),
{
    lemma_children(cfg, events);
    if events.len() > 0 {
        let s = state_after(cfg, events.drop_last());
        assert(accepts(s.phase, events.last()));
    }
}

/// A child that is told to go is gone before anything else, and the verdict that
/// it was told to go for stands, whatever happens meanwhile.
pub proof fn law_a_dismissal_runs_its_course(
    cfg: ConfigView,
    s: SupervisorView,
    e: EventView,
    pid: u32,
    forced: bool,
    then: Verdict,
)
    requires
        s.phase == (Phase::Stopping { pid, forced, then }),
        accepts(s.phase, e),
    ensures
        ({
            let o = next(cfg, s, e);
            ||| !forced && e is Overdue && o.action == (Action::Kill { pid }) && o.state.phase == (
            Phase::Stopping { pid, forced: true, then })
            ||| then is Restart && o.state.phase is Deciding && o.action is Check
            ||| !(then is Restart) && o.state.phase == Phase::Done(then) && o.action
                == Action::Exit(then)
        }),
{
}

/// Once a child is told to go for good, the run can only end, and with the
/// verdict that was reached then.
pub proof fn law_a_stopping_run_only_ends(cfg: ConfigView, events: Seq<EventView>, k: int)
    requires
        possible(cfg, events),
        0 <= k <= events.len(),
        state_after(cfg, events.take(k)).phase is Stopping,
        !(state_after(cfg, events.take(k)).phase->then is Restart),
    ensures
        ({
            let then = state_after(cfg, events.take(k)).phase->then;
            match state_after(cfg, events).phase {
                Phase::Stopping { then: later, .. } => later == then,
                Phase::Done(verdict) => verdict == then,
                _ => false,
            }
        }),
    decreases events.len(),
{
    if k == events.len() {
        assert(events.take(k) =~= events);
    } else {
        let before = events.drop_last();
        assert(events.take(k) =~= before.take(k));
        law_a_stopping_run_only_ends(cfg, before, k);
        assert(accepts(state_after(cfg, before).phase, events.last()));
    }
}

/// A signal to stop, while ssh runs, has ssh terminated and the run end in
/// failure; where there is no child to terminate, as during the backoff, it ends
/// the run at once.
pub proof fn law_signals_to_stop(cfg: ConfigView, s: SupervisorView, sig: Sig)
    requires
        sig.stops(),
    ensures
        s.phase matches Phase::Watching { child: Some(pid) } ==> {
            let o = next(cfg, s, EventView::Signal(sig));
            &&& o.action == (Action::Terminate { pid, patience: cfg.kill_timeout })
            &&& o.state.phase == (Phase::Stopping { pid, forced: false, then: Verdict::ExitErr })
        },
        s.phase is Resting || s.phase == (Phase::Watching { child: None }) ==> next(
            cfg,
            s,
            EventView::Signal(sig),
        ).action == Action::Exit(Verdict::ExitErr),
{
}

/// When ssh dies, the exit-status policy decides alone: the run goes on to the next
/// start where the verdict is to restart, and otherwise ends with the verdict.
pub proof fn law_the_policy_decides_when_ssh_dies(
    cfg: ConfigView,
    s: SupervisorView,
    death: Death,
    uptime: Duration,
)
    requires
        s.phase is Watching,
    ensures
        ({
            let o = next(cfg, s, EventView::Exited { death, uptime });
            let verdict = judged(death, s.starts, uptime, cfg.gate_time).0;
            if verdict is Restart {
                o.action is Check && o.state.phase is Deciding
            } else {
                o.action == Action::Exit(verdict)
            }
        }),
{
}

/// A rest ends in a start: when it is over, or when a signal that does not ask rash
/// to stop cuts it short.
pub proof fn law_a_rest_ends_in_a_start(cfg: ConfigView, s: SupervisorView, e: EventView)
    requires
        s.phase is Resting,
        e is Rested || (e matches EventView::Signal(sig) && !sig.stops()),
    ensures
        next(cfg, s, e).action is Start,
        next(cfg, s, e).state.starts == s.starts + 1,
{
}

/// SIGUSR1 and a probe that did not come back both have ssh terminated and then
/// started again.
pub proof fn law_a_wedged_tunnel_is_restarted(cfg: ConfigView, s: SupervisorView, pid: u32)
    ensures
        s.phase == (Phase::Watching { child: Some(pid) }) ==> {
            let o = next(cfg, s, EventView::Signal(Sig::Usr1));
            &&& o.action == (Action::Terminate { pid, patience: cfg.kill_timeout })
            &&& o.state.phase == (Phase::Stopping { pid, forced: false, then: Verdict::Restart })
        },
        s.phase == (Phase::Probing { child: Some(pid) }) ==> {
            let o = next(cfg, s, EventView::Probed(false));
            &&& o.action == (Action::Terminate { pid, patience: cfg.kill_timeout })
            &&& o.state.phase == (Phase::Stopping { pid, forced: false, then: Verdict::Restart })
        },
{
}

/// A healthy tunnel is left alone: neither a check that comes back nor a signal
/// that asks for nothing touches the child.
pub proof fn law_a_healthy_tunnel_is_left_alone(
    cfg: ConfigView,
    s: SupervisorView,
    e: EventView,
    child: Option<u32>,
)
    requires
        s.phase == (Phase::Watching { child }) && (e is Tick || e == EventView::Signal(Sig::Hup)
            || e == EventView::Signal(Sig::Usr2)) || s.phase == (Phase::Probing { child }) && e
            == EventView::Probed(true) || s.phase == (Phase::Touching { child }) && (e is Touched
            || e is TouchFailed),
    ensures
        ({
            let o = next(cfg, s, e);
            &&& o.state.phase == (Phase::Watching { child }) || o.state.phase == (Phase::Probing {
                child,
            }) || o.state.phase == (Phase::Touching { child })
            &&& o.state.starts == s.starts
        }),
{
}

/// Without a monitor nothing is ever probed.
pub proof fn law_a_disabled_monitor_is_never_probed(cfg: ConfigView, events: Seq<EventView>)
    requires
        possible(cfg, events),
        cfg.monitor is Disabled,
    ensures
        !(action_after(cfg, events) is Probe),
{
    if events.len() > 0 {
        let s = state_after(cfg, events.drop_last());
        assert(accepts(s.phase, events.last()));
    }
}

/// The end of the lifetime ends the run well, with ssh gone: at once where no
/// child is there, and otherwise once it has been terminated.
pub proof fn law_the_lifetime_ends_the_run(
    cfg: ConfigView,
    s: SupervisorView,
    since: Option<Duration>,
    pid: u32,
)
    ensures
        s.phase is Deciding ==> next(
            cfg,
            s,
            EventView::Clock { since_start: since, past_deadline: true },
        ).action == Action::Exit(Verdict::ExitOk),
        s.phase == (Phase::Watching { child: Some(pid) }) ==> {
            let o = next(cfg, s, EventView::Deadline);
            &&& o.action == (Action::Terminate { pid, patience: cfg.kill_timeout })
            &&& o.state.phase == (Phase::Stopping { pid, forced: false, then: Verdict::ExitOk })
        },
{
}

/// A run waits for a child that it sent SIGTERM to only right after it did so.
proof fn lemma_terminated(cfg: ConfigView, events: Seq<EventView>)
    requires
        possible(cfg, events),
    ensures
        state_after(cfg, events).phase matches Phase::Stopping { pid, forced, then } ==> (!forced
            ==> action_after(cfg, events) == (Action::Terminate {
            pid,
            patience: cfg.kill_timeout,
        })),
{
    if events.len() > 0 {
        let s = state_after(cfg, events.drop_last());
        assert(accepts(s.phase, events.last()));
    }
}

/// SIGKILL is sent only to a child that was sent SIGTERM and given the kill
/// timeout to go, in vain.
pub proof fn law_sigkill_is_the_last_resort(cfg: ConfigView, events: Seq<EventView>, pid: u32)
    requires
        possible(cfg, events),
        action_after(cfg, events) == (Action::Kill { pid }),
    ensures
        events.len() > 0,
        events.last() is Overdue,
        action_after(cfg, events.drop_last()) == (Action::Terminate {
            pid,
            patience: cfg.kill_timeout,
        }),
{
    let s = state_after(cfg, events.drop_last());
    assert(accepts(s.phase, events.last()));
    lemma_terminated(cfg, events.drop_last());
}

/// The first start never waits. A later one waits exactly as long as the backoff
/// says, which is at most the poll interval.
pub proof fn law_waits_between_starts(
    cfg: ConfigView,
    s: SupervisorView,
    since: Option<Duration>,
)
    requires
        s.phase is Deciding,
        !used_up(cfg, s),
    ensures
        ({
            let o = next(cfg, s, EventView::Clock { since_start: since, past_deadline: false });
            &&& o.action is Start || o.action is Rest
            &&& o.action matches Action::Rest(d) ==> d.secs == wait(
                cfg.poll.secs as nat,
                o.state.tries,
            ) && 0 < d.secs <= cfg.poll.secs && since is Some && !settled(ran(since), cfg.poll)
        }),
{
}

} // verus!
