//! The supervision loop, one event at a time.
//!
//! A [`Supervisor`] is told what happened (the child exited, the poll timer
//! fired, the lifetime is over, a signal arrived) and says what to do next. It
//! does nothing itself: whoever drives it performs the action and hands back
//! what came of it. Signals are listened to for the whole run, not only while
//! there is a child.

use crate::backoff::{has_settled, settled, tries_after, wait, Backoff};
use crate::config::{Config, ConfigView, Monitor};
use crate::log::{debug, err, info, lines_in, log_debug, log_err, log_info, Line, LineView};
use crate::supervise::{classify, exiting, judged, obituary, report, Death, Sig, Verdict};
use crate::text::{concat3, decimal, to_readable, readable, push_decimal};
use crate::time::{forever, seconds, Duration};
use vstd::prelude::*;

verus! {

/// What the supervisor is waiting for.
#[derive(Debug, Clone, Copy, PartialEq, Eq, Structural)]
pub enum Phase {
    /// The signal handlers to be installed.
    Installing,
    /// The monitor to open its socket, where it has one.
    Binding,
    /// The time, before the next start.
    Deciding,
    /// The backoff to pass.
    Resting,
    /// ssh to be started.
    Starting,
    /// Anything to happen while ssh runs.
    Watching { child: Option<u32> },
    /// The monitor to say whether the tunnel carries traffic.
    Probing { child: Option<u32> },
    /// The pid file to be touched.
    Touching { child: Option<u32> },
    /// The child to be gone, after SIGTERM or, once `forced`, after SIGKILL.
    Stopping { pid: u32, forced: bool, then: Verdict },
    /// Nothing: the run is over.
    Done(Verdict),
}

/// What can happen.
#[derive(Debug, PartialEq, Eq)]
pub enum Event {
    Installed,
    InstallFailed(String),
    Bound,
    BindFailed(String),
    /// How long ago ssh was last started, if it was, and whether the lifetime is
    /// over.
    Clock { since_start: Option<Duration>, past_deadline: bool },
    /// The backoff has passed.
    Rested,
    Signal(Sig),
    /// ssh was started, as the process with this id.
    Started { child: Option<u32> },
    StartFailed(String),
    /// The child is gone, after `uptime`.
    Exited { death: Death, uptime: Duration },
    /// Waiting for the child failed.
    WaitFailed(String),
    /// The poll timer fired.
    Tick,
    /// The lifetime is over.
    Deadline,
    /// Whether the probe came back.
    Probed(bool),
    Touched,
    TouchFailed(String),
    /// The child that was told to go is gone.
    Reaped,
    ReapFailed(String),
    /// The child that was told to go is still there.
    Overdue,
}

/// What an [`Event`] holds.
pub enum EventView {
    Installed,
    InstallFailed(Seq<char>),
    Bound,
    BindFailed(Seq<char>),
    Clock { since_start: Option<Duration>, past_deadline: bool },
    Rested,
    Signal(Sig),
    Started { child: Option<u32> },
    StartFailed(Seq<char>),
    Exited { death: Death, uptime: Duration },
    WaitFailed(Seq<char>),
    Tick,
    Deadline,
    Probed(bool),
    Touched,
    TouchFailed(Seq<char>),
    Reaped,
    ReapFailed(Seq<char>),
    Overdue,
}

impl View for Event {
    type V = EventView;

    open spec fn view(&self) -> EventView {
        match *self {
            Event::Installed => EventView::Installed,
            Event::InstallFailed(e) => EventView::InstallFailed(e@),
            Event::Bound => EventView::Bound,
            Event::BindFailed(e) => EventView::BindFailed(e@),
            Event::Clock { since_start, past_deadline } => EventView::Clock {
                since_start,
                past_deadline,
            },
            Event::Rested => EventView::Rested,
            Event::Signal(sig) => EventView::Signal(sig),
            Event::Started { child } => EventView::Started { child },
            Event::StartFailed(e) => EventView::StartFailed(e@),
            Event::Exited { death, uptime } => EventView::Exited { death, uptime },
            Event::WaitFailed(e) => EventView::WaitFailed(e@),
            Event::Tick => EventView::Tick,
            Event::Deadline => EventView::Deadline,
            Event::Probed(ok) => EventView::Probed(ok),
            Event::Touched => EventView::Touched,
            Event::TouchFailed(e) => EventView::TouchFailed(e@),
            Event::Reaped => EventView::Reaped,
            Event::ReapFailed(e) => EventView::ReapFailed(e@),
            Event::Overdue => EventView::Overdue,
        }
    }
}

/// What to do next.
#[derive(Debug, Clone, Copy, PartialEq, Eq, Structural)]
pub enum Action {
    /// Install the signal handlers.
    Install,
    /// Open the monitor's socket, where it has one.
    Bind,
    /// Look at the clock.
    Check,
    /// Sleep this long, or until a signal arrives.
    Rest(Duration),
    /// Start ssh.
    Start,
    /// Set the poll timer to fire first after `first` and then every `every`,
    /// and wait for whatever happens.
    Begin { first: Duration, every: Duration },
    /// Wait for whatever happens.
    Watch,
    /// Probe the tunnel.
    Probe,
    /// Touch the pid file.
    Touch,
    /// Send SIGTERM, and wait this long for the child to go.
    Terminate { pid: u32, patience: Duration },
    /// Send SIGKILL, and wait for the child to go.
    Kill { pid: u32 },
    /// Stop.
    Exit(Verdict),
}

/// The next action, and what to log before it.
#[derive(Debug, PartialEq, Eq)]
pub struct Step {
    pub action: Action,
    pub lines: Vec<Line>,
}

/// Where a run stands.
#[derive(Debug)]
pub struct Supervisor {
    phase: Phase,
    start_count: u64,
    backoff: Backoff,
}

/// Where a run stands: what it waits for, how often ssh was started, and how many
/// quick restarts in a row there were.
#[verifier::ext_equal]
pub struct SupervisorView {
    pub phase: Phase,
    pub starts: nat,
    pub tries: nat,
}

impl View for Supervisor {
    type V = SupervisorView;

    closed spec fn view(&self) -> SupervisorView {
        SupervisorView {
            phase: self.phase,
            starts: self.start_count as nat,
            tries: self.backoff@,
        }
    }
}

/// What an event comes to: where the run stands after it, what to do next, and
/// what to log.
#[verifier::ext_equal]
pub struct Outcome {
    pub state: SupervisorView,
    pub action: Action,
    pub lines: Seq<LineView>,
}

// ------------------------------------------------------------ what comes next

/// Whether an event is one that can happen in a phase.
pub open spec fn accepts(phase: Phase, e: EventView) -> bool {
    match phase {
        Phase::Installing => e is Installed || e is InstallFailed,
        Phase::Binding => e is Bound || e is BindFailed,
        Phase::Deciding => e is Clock,
        Phase::Resting => e is Rested || e is Signal,
        Phase::Starting => e is Started || e is StartFailed,
        Phase::Watching { .. } => e is Exited || e is WaitFailed || e is Tick || e is Deadline
            || e is Signal,
        Phase::Probing { .. } => e is Probed,
        Phase::Touching { .. } => e is Touched || e is TouchFailed,
        Phase::Stopping { forced, .. } => e is Reaped || e is ReapFailed || (!forced
            && e is Overdue),
        Phase::Done(_) => false,
    }
}

/// The run has come to an end: it stops, or goes back to starting ssh.
pub open spec fn conclude(s: SupervisorView, verdict: Verdict, lines: Seq<LineView>) -> Outcome {
    if verdict is Restart {
        Outcome {
            state: SupervisorView { phase: Phase::Deciding, ..s },
            action: Action::Check,
            lines,
        }
    } else {
        Outcome {
            state: SupervisorView { phase: Phase::Done(verdict), ..s },
            action: Action::Exit(verdict),
            lines,
        }
    }
}

/// The child is told to go, and what follows waits until it has. Where there is
/// none any more, it follows at once.
pub open spec fn dismiss(
    cfg: ConfigView,
    s: SupervisorView,
    child: Option<u32>,
    then: Verdict,
    lines: Seq<LineView>,
) -> Outcome {
    match child {
        None => conclude(s, then, lines),
        Some(pid) => Outcome {
            state: SupervisorView { phase: Phase::Stopping { pid, forced: false, then }, ..s },
            action: Action::Terminate { pid, patience: cfg.kill_timeout },
            lines: lines.push(debug("sending SIGTERM to "@ + decimal(pid as nat))),
        },
    }
}

/// The line about a start.
pub open spec fn starting_line(cfg: ConfigView, count: nat) -> LineView {
    if cfg.max_start < 0 {
        info("starting ssh (count "@ + decimal(count) + ")"@)
    } else {
        info(
            "starting ssh (count "@ + decimal(count) + " of "@ + decimal(cfg.max_start as nat)
                + ")"@,
        )
    }
}

/// ssh is started once more.
pub open spec fn start(cfg: ConfigView, s: SupervisorView, lines: Seq<LineView>) -> Outcome {
    Outcome {
        state: SupervisorView { phase: Phase::Starting, starts: s.starts + 1, ..s },
        action: Action::Start,
        lines: lines.push(starting_line(cfg, s.starts + 1)),
    }
}

/// Whether as many starts have been made as were allowed.
pub open spec fn used_up(cfg: ConfigView, s: SupervisorView) -> bool {
    cfg.max_start >= 0 && s.starts >= cfg.max_start
}

/// How long the session before the next start ran. Before the first there was
/// none, which counts as the longest.
pub open spec fn ran(since_start: Option<Duration>) -> Duration {
    match since_start {
        Some(d) => d,
        None => forever(),
    }
}

/// Whether, and after how long a rest, ssh is started again.
pub open spec fn decide(
    cfg: ConfigView,
    s: SupervisorView,
    since_start: Option<Duration>,
    past_deadline: bool,
) -> Outcome {
    if used_up(cfg, s) {
        conclude(s, Verdict::ExitOk, seq![info("max start count reached; exiting"@)])
    } else if past_deadline {
        conclude(
            s,
            Verdict::ExitOk,
            seq![info("exceeded maximum time to live, shutting down"@)],
        )
    } else {
        let tries = tries_after(s.tries, ran(since_start), cfg.poll);
        let rested = SupervisorView { tries, ..s };
        let delay = wait(cfg.poll.secs as nat, tries);
        let checking = debug("checking for grace period, tries = "@ + decimal(tries));
        if delay == 0 {
            start(cfg, rested, seq![checking])
        } else {
            Outcome {
                state: SupervisorView { phase: Phase::Resting, ..rested },
                action: Action::Rest(seconds(delay as u64)),
                lines: seq![
                    checking,
                    debug("sleeping for grace time "@ + decimal(delay) + " secs"@),
                ],
            }
        }
    }
}

/// The backoff is over, or a signal cut it short.
pub open spec fn wake(cfg: ConfigView, s: SupervisorView, e: EventView) -> Outcome {
    match e {
        EventView::Signal(sig) => if sig.stops() {
            conclude(
                s,
                Verdict::ExitErr,
                seq![info("received signal to exit ("@ + sig.shown() + ")"@)],
            )
        } else {
            start(cfg, s, seq![debug(sig.shown() + " during backoff; retrying now"@)])
        },
        _ => start(cfg, s, Seq::empty()),
    }
}

/// The id of the child in a log line.
pub open spec fn pid_text(child: Option<u32>) -> Seq<char> {
    decimal(
        match child {
            Some(pid) => pid as nat,
            None => 0,
        },
    )
}

/// Starting ssh succeeded or failed.
pub open spec fn launched(cfg: ConfigView, s: SupervisorView, e: EventView) -> Outcome {
    match e {
        EventView::Started { child } => Outcome {
            state: SupervisorView { phase: Phase::Watching { child }, ..s },
            action: Action::Begin { first: cfg.first_poll, every: cfg.poll },
            lines: seq![info("ssh child pid is "@ + pid_text(child))],
        },
        EventView::StartFailed(why) => conclude(
            s,
            Verdict::ExitErr,
            seq![err(readable(cfg.ssh_path) + ": "@ + why)],
        ),
        _ => conclude(s, Verdict::ExitErr, Seq::empty()),
    }
}

/// The connection is good, or nobody asked: the pid file may have to be touched.
pub open spec fn carry_on(
    cfg: ConfigView,
    s: SupervisorView,
    child: Option<u32>,
    lines: Seq<LineView>,
) -> Outcome {
    if cfg.touch_pid_file && cfg.pid_file is Some {
        Outcome {
            state: SupervisorView { phase: Phase::Touching { child }, ..s },
            action: Action::Touch,
            lines,
        }
    } else {
        Outcome {
            state: SupervisorView { phase: Phase::Watching { child }, ..s },
            action: Action::Watch,
            lines,
        }
    }
}

/// Something happened while ssh was running.
pub open spec fn attend(
    cfg: ConfigView,
    s: SupervisorView,
    child: Option<u32>,
    e: EventView,
) -> Outcome {
    match e {
        EventView::WaitFailed(why) => conclude(
            s,
            Verdict::ExitErr,
            seq![err("waiting on ssh: "@ + why)],
        ),
        EventView::Exited { death, uptime } => {
            let (verdict, reason) = judged(death, s.starts, uptime, cfg.gate_time);
            conclude(s, verdict, seq![obituary(death, reason)])
        },
        EventView::Tick => {
            let lines = seq![debug("check on child "@ + pid_text(child))];
            if cfg.monitor is Disabled {
                carry_on(cfg, s, child, lines)
            } else {
                Outcome {
                    state: SupervisorView { phase: Phase::Probing { child }, ..s },
                    action: Action::Probe,
                    lines,
                }
            }
        },
        EventView::Deadline => dismiss(
            cfg,
            s,
            child,
            Verdict::ExitOk,
            seq![info("exceeded maximum time to live, shutting down"@)],
        ),
        EventView::Signal(sig) => if sig.stops() {
            dismiss(
                cfg,
                s,
                child,
                Verdict::ExitErr,
                seq![info("received signal to exit ("@ + sig.shown() + ")"@)],
            )
        } else if sig is Usr1 {
            dismiss(
                cfg,
                s,
                child,
                Verdict::Restart,
                seq![info("signalled to kill and restart ssh"@)],
            )
        } else {
            Outcome { state: s, action: Action::Watch, lines: seq![debug("woken by "@ + sig.shown())] }
        },
        _ => conclude(s, Verdict::ExitErr, Seq::empty()),
    }
}

/// The child that was told to go has gone, or has not.
pub open spec fn await_end(
    cfg: ConfigView,
    s: SupervisorView,
    pid: u32,
    then: Verdict,
    e: EventView,
) -> Outcome {
    match e {
        EventView::Overdue => Outcome {
            state: SupervisorView { phase: Phase::Stopping { pid, forced: true, then }, ..s },
            action: Action::Kill { pid },
            lines: seq![
                err(
                    "ssh "@ + decimal(pid as nat) + " ignored SIGTERM after "@ + decimal(
                        cfg.kill_timeout.secs as nat,
                    ) + "s; sending SIGKILL"@,
                ),
            ],
        },
        EventView::ReapFailed(why) => conclude(
            s,
            then,
            seq![err("waitpid() not successful: "@ + why)],
        ),
        _ => conclude(s, then, Seq::empty()),
    }
}

/// What an event comes to.
pub open spec fn next(cfg: ConfigView, s: SupervisorView, e: EventView) -> Outcome {
    match s.phase {
        Phase::Installing => match e {
            EventView::InstallFailed(why) => conclude(
                s,
                Verdict::ExitErr,
                seq![err("cannot install signal handlers: "@ + why)],
            ),
            _ => Outcome {
                state: SupervisorView { phase: Phase::Binding, ..s },
                action: Action::Bind,
                lines: Seq::empty(),
            },
        },
        // Without its socket the loop could never complete, and every probe would
        // fail.
        Phase::Binding => match e {
            EventView::BindFailed(why) => conclude(
                s,
                Verdict::ExitErr,
                seq![err("cannot open monitor socket: "@ + why)],
            ),
            _ => conclude(s, Verdict::Restart, Seq::empty()),
        },
        Phase::Deciding => decide(cfg, s, e->since_start, e->past_deadline),
        Phase::Resting => wake(cfg, s, e),
        Phase::Starting => launched(cfg, s, e),
        Phase::Watching { child } => attend(cfg, s, child, e),
        Phase::Probing { child } => if e == EventView::Probed(true) {
            carry_on(cfg, s, child, Seq::empty())
        } else {
            dismiss(cfg, s, child, Verdict::Restart, seq![info("port down, restarting ssh"@)])
        },
        Phase::Touching { child } => Outcome {
            state: SupervisorView { phase: Phase::Watching { child }, ..s },
            action: Action::Watch,
            lines: match e {
                EventView::TouchFailed(why) => seq![err("could not touch pid file: "@ + why)],
                _ => Seq::empty(),
            },
        },
        Phase::Stopping { pid, then, .. } => await_end(cfg, s, pid, then, e),
        Phase::Done(verdict) => conclude(s, verdict, Seq::empty()),
    }
}

/// Where every run begins.
pub open spec fn fresh() -> SupervisorView {
    SupervisorView { phase: Phase::Installing, starts: 0, tries: 0 }
}

/// The spans in an event are proper ones.
pub open spec fn timely(e: EventView) -> bool {
    e matches EventView::Exited { uptime, .. } ==> uptime.wf()
}

/// Whether the counters can take one more start, where the event leads to one.
pub open spec fn countable(cfg: ConfigView, s: SupervisorView, e: EventView) -> bool {
    e matches EventView::Clock { since_start, past_deadline } ==> {
        ||| used_up(cfg, s)
        ||| past_deadline
        ||| s.starts < u64::MAX && (settled(ran(since_start), cfg.poll) || s.tries < u32::MAX)
    }
}

impl SupervisorView {
    /// There is room for the start that a rest leads to.
    pub open spec fn wf(self) -> bool {
        self.phase is Resting ==> self.starts < u64::MAX
    }
}

fn after(before: &str, text: &str) -> (s: String)
    ensures
        s@ == before@ + text@,
{
    let mut s = before.to_owned();
    s.append(text);
    s
}

fn number_after(before: &str, n: u64) -> (s: String)
    ensures
        s@ == before@ + decimal(n as nat),
{
    let mut s = before.to_owned();
    push_decimal(&mut s, n);
    s
}

fn pid_number(child: Option<u32>) -> (n: u64)
    ensures
        decimal(n as nat) == pid_text(child),
{
    match child {
        Some(pid) => pid as u64,
        None => 0,
    }
}

/// What to log, and what to do.
pub open spec fn same_step(step: Step, o: Outcome) -> bool {
    step.action == o.action && lines_in(step.lines@) == o.lines
}

impl Supervisor {
    /// A run that has not begun. The first thing to do is to install the signal
    /// handlers.
    pub fn new() -> (r: (Self, Action))
        ensures
            r.0@ == fresh(),
            r.0@.wf(),
            r.1 == Action::Install,
    {
        (
            Supervisor { phase: Phase::Installing, start_count: 0, backoff: Backoff::default() },
            Action::Install,
        )
    }

    /// What the run is waiting for.
    pub fn phase(&self) -> (p: Phase)
        ensures
            p == self@.phase,
    {
        self.phase
    }

    /// How often ssh was started.
    pub fn start_count(&self) -> (n: u64)
        ensures
            n == self@.starts,
    {
        self.start_count
    }

    /// Whether the counters can take one more start.
    pub fn can_count(&self, cfg: &Config, since_start: Option<Duration>, past_deadline: bool) -> (b:
        bool)
        ensures
            b == countable(cfg@, self@, EventView::Clock { since_start, past_deadline }),
    {
        let uptime = match since_start {
            Some(d) => d,
            None => Duration::longest(),
        };
        (cfg.max_start >= 0 && self.start_count >= cfg.max_start as u64) || past_deadline || (
        self.start_count < u64::MAX && (has_settled(uptime, cfg.poll) || self.backoff.tries()
            < u32::MAX))
    }

    fn conclude(&mut self, verdict: Verdict, lines: Vec<Line>) -> (step: Step)
        ensures
            final(self)@ == conclude(old(self)@, verdict, lines_in(lines@)).state,
            same_step(step, conclude(old(self)@, verdict, lines_in(lines@))),
            final(self)@.wf(),
    {
        match verdict {
            Verdict::Restart => {
                self.phase = Phase::Deciding;
                Step { action: Action::Check, lines }
            },
            _ => {
                self.phase = Phase::Done(verdict);
                Step { action: Action::Exit(verdict), lines }
            },
        }
    }

    fn dismiss(
        &mut self,
        cfg: &Config,
        child: Option<u32>,
        then: Verdict,
        lines: Vec<Line>,
    ) -> (step: Step)
        ensures
            final(self)@ == dismiss(cfg@, old(self)@, child, then, lines_in(lines@)).state,
            same_step(step, dismiss(cfg@, old(self)@, child, then, lines_in(lines@))),
            final(self)@.wf(),
    {
        match child {
            None => self.conclude(then, lines),
            Some(pid) => {
                let mut lines = lines;
                log_debug(&mut lines, number_after("sending SIGTERM to ", pid as u64));
                self.phase = Phase::Stopping { pid, forced: false, then };
                Step {
                    action: Action::Terminate { pid, patience: cfg.kill_timeout },
                    lines,
                }
            },
        }
    }

    fn start(&mut self, cfg: &Config, lines: Vec<Line>) -> (step: Step)
        requires
            old(self)@.starts < u64::MAX,
        ensures
            final(self)@ == start(cfg@, old(self)@, lines_in(lines@)).state,
            same_step(step, start(cfg@, old(self)@, lines_in(lines@))),
            final(self)@.wf(),
    {
        let mut lines = lines;
        self.start_count = self.start_count + 1;
        self.phase = Phase::Starting;
        let mut s = number_after("starting ssh (count ", self.start_count);
        if cfg.max_start >= 0 {
            s.append(" of ");
            push_decimal(&mut s, cfg.max_start as u64);
        }
        s.append(")");
        log_info(&mut lines, s);
        Step { action: Action::Start, lines }
    }

    fn decide(&mut self, cfg: &Config, since_start: Option<Duration>, past_deadline: bool) -> (step:
        Step)
        requires
            countable(cfg@, old(self)@, EventView::Clock { since_start, past_deadline }),
        ensures
            final(self)@ == decide(cfg@, old(self)@, since_start, past_deadline).state,
            same_step(step, decide(cfg@, old(self)@, since_start, past_deadline)),
            final(self)@.wf(),
    {
        let mut lines: Vec<Line> = Vec::new();
        assert(lines_in(lines@) =~= Seq::empty());
        if cfg.max_start >= 0 && self.start_count >= cfg.max_start as u64 {
            log_info(&mut lines, "max start count reached; exiting".to_owned());
            assert(lines_in(lines@) =~= seq![info("max start count reached; exiting"@)]);
            return self.conclude(Verdict::ExitOk, lines);
        }
        if past_deadline {
            log_info(&mut lines, "exceeded maximum time to live, shutting down".to_owned());
            assert(lines_in(lines@) =~= seq![
                info("exceeded maximum time to live, shutting down"@),
            ]);
            return self.conclude(Verdict::ExitOk, lines);
        }
        let uptime = match since_start {
            Some(d) => d,
            None => Duration::longest(),
        };
        let delay = self.backoff.next_delay(uptime, cfg.poll);
        let ghost checking = debug("checking for grace period, tries = "@ + decimal(self@.tries));
        log_debug(
            &mut lines,
            number_after("checking for grace period, tries = ", self.backoff.tries() as u64),
        );
        assert(lines_in(lines@) =~= seq![checking]);
        if delay.is_zero() {
            return self.start(cfg, lines);
        }
        let mut s = number_after("sleeping for grace time ", delay.as_secs());
        s.append(" secs");
        log_debug(&mut lines, s);
        self.phase = Phase::Resting;
        let step = Step { action: Action::Rest(delay), lines };
        assert(lines_in(step.lines@) =~= decide(
            cfg@,
            old(self)@,
            since_start,
            past_deadline,
        ).lines);
        step
    }

    fn carry_on(&mut self, cfg: &Config, child: Option<u32>, lines: Vec<Line>) -> (step: Step)
        ensures
            final(self)@ == carry_on(cfg@, old(self)@, child, lines_in(lines@)).state,
            same_step(step, carry_on(cfg@, old(self)@, child, lines_in(lines@))),
            final(self)@.wf(),
    {
        if cfg.touch_pid_file && cfg.pid_file.is_some() {
            self.phase = Phase::Touching { child };
            Step { action: Action::Touch, lines }
        } else {
            self.phase = Phase::Watching { child };
            Step { action: Action::Watch, lines }
        }
    }

    fn wake(&mut self, cfg: &Config, event: Event) -> (step: Step)
        requires
            old(self)@.starts < u64::MAX,
            event is Rested || event is Signal,
        ensures
            final(self)@ == wake(cfg@, old(self)@, event@).state,
            same_step(step, wake(cfg@, old(self)@, event@)),
            final(self)@.wf(),
    {
        let mut lines: Vec<Line> = Vec::new();
        assert(lines_in(lines@) =~= Seq::empty());
        if let Event::Signal(sig) = event {
            if let Some(verdict) = exiting(sig) {
                log_info(&mut lines, concat3("received signal to exit (", sig.text(), ")"));
                assert(lines_in(lines@) =~= wake(cfg@, old(self)@, event@).lines);
                return self.conclude(verdict, lines);
            }
            log_debug(&mut lines, after(sig.text(), " during backoff; retrying now"));
            assert(lines_in(lines@) =~= seq![
                debug(sig.shown() + " during backoff; retrying now"@),
            ]);
        }
        self.start(cfg, lines)
    }

    fn launched(&mut self, cfg: &Config, event: Event) -> (step: Step)
        requires
            event is Started || event is StartFailed,
        ensures
            final(self)@ == launched(cfg@, old(self)@, event@).state,
            same_step(step, launched(cfg@, old(self)@, event@)),
            final(self)@.wf(),
    {
        let mut lines: Vec<Line> = Vec::new();
        assert(lines_in(lines@) =~= Seq::empty());
        match event {
            Event::Started { child } => {
                log_info(&mut lines, number_after("ssh child pid is ", pid_number(child)));
                assert(lines_in(lines@) =~= launched(cfg@, old(self)@, event@).lines);
                self.phase = Phase::Watching { child };
                Step { action: Action::Begin { first: cfg.first_poll, every: cfg.poll }, lines }
            },
            Event::StartFailed(why) => {
                let path = to_readable(&cfg.ssh_path);
                log_err(&mut lines, concat3(path.as_str(), ": ", why.as_str()));
                assert(lines_in(lines@) =~= launched(cfg@, old(self)@, event@).lines);
                self.conclude(Verdict::ExitErr, lines)
            },
            _ => self.conclude(Verdict::ExitErr, lines),
        }
    }

    fn signalled(&mut self, cfg: &Config, child: Option<u32>, sig: Sig) -> (step: Step)
        requires
            old(self)@.phase == (Phase::Watching { child }),
        ensures
            final(self)@ == attend(cfg@, old(self)@, child, EventView::Signal(sig)).state,
            same_step(step, attend(cfg@, old(self)@, child, EventView::Signal(sig))),
            final(self)@.wf(),
    {
        let mut lines: Vec<Line> = Vec::new();
        assert(lines_in(lines@) =~= Seq::empty());
        match sig {
            Sig::Term | Sig::Int | Sig::Quit => {
                log_info(&mut lines, concat3("received signal to exit (", sig.text(), ")"));
                assert(lines_in(lines@) =~= seq![
                    info("received signal to exit ("@ + sig.shown() + ")"@),
                ]);
                self.dismiss(cfg, child, Verdict::ExitErr, lines)
            },
            Sig::Usr1 => {
                log_info(&mut lines, "signalled to kill and restart ssh".to_owned());
                assert(lines_in(lines@) =~= seq![info("signalled to kill and restart ssh"@)]);
                self.dismiss(cfg, child, Verdict::Restart, lines)
            },
            Sig::Hup | Sig::Usr2 => {
                log_debug(&mut lines, after("woken by ", sig.text()));
                assert(lines_in(lines@) =~= seq![debug("woken by "@ + sig.shown())]);
                Step { action: Action::Watch, lines }
            },
        }
    }

    fn attend(&mut self, cfg: &Config, child: Option<u32>, event: Event) -> (step: Step)
        requires
            old(self)@.phase == (Phase::Watching { child }),
            accepts(old(self)@.phase, event@),
            timely(event@),
            cfg.gate_time.wf(),
        ensures
            final(self)@ == attend(cfg@, old(self)@, child, event@).state,
            same_step(step, attend(cfg@, old(self)@, child, event@)),
            final(self)@.wf(),
    {
        let mut lines: Vec<Line> = Vec::new();
        assert(lines_in(lines@) =~= Seq::empty());
        match event {
            Event::WaitFailed(why) => {
                log_err(&mut lines, after("waiting on ssh: ", why.as_str()));
                assert(lines_in(lines@) =~= attend(cfg@, old(self)@, child, event@).lines);
                self.conclude(Verdict::ExitErr, lines)
            },
            Event::Exited { death, uptime } => {
                let (verdict, reason) = classify(death, self.start_count, uptime, cfg.gate_time);
                report(&mut lines, death, reason);
                assert(lines_in(lines@) =~= attend(cfg@, old(self)@, child, event@).lines);
                self.conclude(verdict, lines)
            },
            Event::Tick => {
                log_debug(&mut lines, number_after("check on child ", pid_number(child)));
                assert(lines_in(lines@) =~= attend(cfg@, old(self)@, child, event@).lines);
                if let Monitor::Disabled = cfg.monitor {
                    self.carry_on(cfg, child, lines)
                } else {
                    self.phase = Phase::Probing { child };
                    Step { action: Action::Probe, lines }
                }
            },
            Event::Deadline => {
                log_info(&mut lines, "exceeded maximum time to live, shutting down".to_owned());
                assert(lines_in(lines@) =~= seq![
                    info("exceeded maximum time to live, shutting down"@),
                ]);
                self.dismiss(cfg, child, Verdict::ExitOk, lines)
            },
            Event::Signal(sig) => self.signalled(cfg, child, sig),
            _ => self.conclude(Verdict::ExitErr, lines),
        }
    }

    fn await_end(&mut self, cfg: &Config, pid: u32, then: Verdict, event: Event) -> (step: Step)
        requires
            event is Reaped || event is ReapFailed || event is Overdue,
        ensures
            final(self)@ == await_end(cfg@, old(self)@, pid, then, event@).state,
            same_step(step, await_end(cfg@, old(self)@, pid, then, event@)),
            final(self)@.wf(),
    {
        let mut lines: Vec<Line> = Vec::new();
        assert(lines_in(lines@) =~= Seq::empty());
        match event {
            Event::Overdue => {
                let mut s = number_after("ssh ", pid as u64);
                s.append(" ignored SIGTERM after ");
                push_decimal(&mut s, cfg.kill_timeout.as_secs());
                s.append("s; sending SIGKILL");
                log_err(&mut lines, s);
                assert(lines_in(lines@) =~= await_end(cfg@, old(self)@, pid, then, event@).lines);
                self.phase = Phase::Stopping { pid, forced: true, then };
                Step { action: Action::Kill { pid }, lines }
            },
            Event::ReapFailed(why) => {
                log_err(&mut lines, after("waitpid() not successful: ", why.as_str()));
                assert(lines_in(lines@) =~= await_end(cfg@, old(self)@, pid, then, event@).lines);
                self.conclude(then, lines)
            },
            _ => self.conclude(then, lines),
        }
    }

    /// Take in what happened, and say what to do next.
    pub fn step(&mut self, cfg: &Config, event: Event) -> (step: Step)
        requires
            old(self)@.wf(),
            accepts(old(self)@.phase, event@),
            timely(event@),
            countable(cfg@, old(self)@, event@),
            cfg.gate_time.wf(),
        ensures
            final(self)@ == next(cfg@, old(self)@, event@).state,
            step.action == next(cfg@, old(self)@, event@).action,
            lines_in(step.lines@) == next(cfg@, old(self)@, event@).lines,
            final(self)@.wf(),
    {
        let mut lines: Vec<Line> = Vec::new();
        assert(lines_in(lines@) =~= Seq::empty());
        match self.phase {
            Phase::Installing => match event {
                Event::InstallFailed(why) => {
                    log_err(&mut lines, after("cannot install signal handlers: ", why.as_str()));
                    assert(lines_in(lines@) =~= next(cfg@, old(self)@, event@).lines);
                    self.conclude(Verdict::ExitErr, lines)
                },
                _ => {
                    self.phase = Phase::Binding;
                    Step { action: Action::Bind, lines }
                },
            },
            Phase::Binding => match event {
                Event::BindFailed(why) => {
                    log_err(&mut lines, after("cannot open monitor socket: ", why.as_str()));
                    assert(lines_in(lines@) =~= next(cfg@, old(self)@, event@).lines);
                    self.conclude(Verdict::ExitErr, lines)
                },
                _ => self.conclude(Verdict::Restart, lines),
            },
            Phase::Deciding => match event {
                Event::Clock { since_start, past_deadline } => self.decide(
                    cfg,
                    since_start,
                    past_deadline,
                ),
                _ => self.conclude(Verdict::ExitErr, lines),
            },
            Phase::Resting => self.wake(cfg, event),
            Phase::Starting => self.launched(cfg, event),
            Phase::Watching { child } => self.attend(cfg, child, event),
            Phase::Probing { child } => {
                if let Event::Probed(true) = event {
                    self.carry_on(cfg, child, lines)
                } else {
                    log_info(&mut lines, "port down, restarting ssh".to_owned());
                    assert(lines_in(lines@) =~= seq![info("port down, restarting ssh"@)]);
                    self.dismiss(cfg, child, Verdict::Restart, lines)
                }
            },
            Phase::Touching { child } => {
                if let Event::TouchFailed(why) = event {
                    log_err(&mut lines, after("could not touch pid file: ", why.as_str()));
                    assert(lines_in(lines@) =~= next(cfg@, old(self)@, event@).lines);
                }
                self.phase = Phase::Watching { child };
                Step { action: Action::Watch, lines }
            },
            Phase::Stopping { pid, forced: _, then } => self.await_end(cfg, pid, then, event),
            Phase::Done(verdict) => self.conclude(verdict, lines),
        }
    }
}

} // verus!
