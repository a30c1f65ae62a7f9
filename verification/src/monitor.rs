//! Testing that the tunnel still carries traffic.
//!
//! There are two arrangements, both set up by the `-L` and `-R` forwards that
//! `config` injects.
//!
//! * **Loop**: data written to the local monitor port travels to the remote,
//!   where the matching `-R` forward sends it straight back to a second local
//!   port that rash is listening on.
//! * **Echo**: data written to the local monitor port reaches an echo service on
//!   the remote, which returns it over the same connection.
//!
//! A [`Prober`] is told how each step of a probe went, and says which step comes
//! next.

pub mod laws;
pub mod probe;

use crate::cli::raw;
use crate::config::{Config, ConfigView, Monitor as Spec};
use crate::host::Host;
use crate::log::{debug, info, lines_in, log_debug, log_info, Line, LineView};
use crate::monitor::probe::{message, message_text};
use crate::text::{concat3, copy_bytes, decimal, push_decimal, same_bytes};
use crate::time::Duration;
use vstd::prelude::*;

verus! {

/// How often a probe is tried before the tunnel is taken to be down.
pub const MAX_TRIES: u32 = 3;

/// An address and a port.
#[derive(Debug, Clone, Copy, PartialEq, Eq)]
pub struct Addr {
    pub host: Host,
    pub port: u16,
}

impl Addr {
    /// The address as text. An IPv6 address stands in brackets, to tell its
    /// colons from the one before the port.
    pub open spec fn shown(self) -> Seq<char> {
        self.host.literal() + ":"@ + decimal(self.port as nat)
    }

    /// The address as text.
    pub fn text(&self) -> (s: String)
        ensures
            s@ == self.shown(),
    {
        let mut s = self.host.enclose(self.host.text().as_str());
        s.append(":");
        push_decimal(&mut s, self.port as u64);
        s
    }
}

/// What the monitor uses while rash runs.
#[derive(Debug, Clone, Copy, PartialEq, Eq)]
pub enum Monitor {
    Disabled,
    Loop { read_on: Addr, write_to: Addr },
    Echo { write_to: Addr },
}

/// What a monitor spec and a host come to.
pub open spec fn arranged(spec: Spec, host: Host) -> Monitor {
    match spec {
        Spec::Disabled => Monitor::Disabled,
        Spec::Echo { port, .. } => Monitor::Echo { write_to: Addr { host, port } },
        Spec::Loop { port } => Monitor::Loop {
            read_on: Addr { host, port: (port + 1) as u16 },
            write_to: Addr { host, port },
        },
    }
}

impl Monitor {
    /// Where to write to, and where to listen, if this arrangement needs it.
    pub fn new(cfg: &Config) -> (m: Self)
        requires
            cfg.monitor.wf(),
        ensures
            m == arranged(cfg.monitor, cfg.monitor_host),
    {
        let host = cfg.monitor_host;
        match cfg.monitor {
            Spec::Disabled => Monitor::Disabled,
            Spec::Echo { port, echo: _ } => Monitor::Echo { write_to: Addr { host, port } },
            Spec::Loop { port } => Monitor::Loop {
                read_on: Addr { host, port: port + 1 },
                write_to: Addr { host, port },
            },
        }
    }

    /// Whether there is anything to probe.
    pub fn enabled(&self) -> (b: bool)
        ensures
            b == !(self is Disabled),
    {
        match self {
            Monitor::Disabled => false,
            _ => true,
        }
    }

    /// What to log once the socket is open.
    pub fn opened(&self) -> (lines: Vec<Line>)
        ensures
            lines_in(lines@) == match *self {
                Monitor::Loop { read_on, .. } => seq![
                    debug("monitor listening on "@ + read_on.shown()),
                ],
                _ => Seq::<LineView>::empty(),
            },
    {
        let mut lines: Vec<Line> = Vec::new();
        assert(lines_in(lines@) =~= Seq::empty());
        if let Monitor::Loop { read_on, .. } = self {
            let mut s = "monitor listening on ".to_owned();
            s.append(read_on.text().as_str());
            log_debug(&mut lines, s);
            assert(lines_in(lines@) =~= seq![debug("monitor listening on "@ + read_on.shown())]);
        }
        lines
    }
}

// ------------------------------------------------------------------- a probe

/// What a probe is waiting for.
#[derive(Debug, Clone, Copy, PartialEq, Eq, Structural)]
pub enum Stage {
    /// The parts of a message.
    Drawing,
    /// The write connection.
    Connecting,
    /// The read connection that the remote opens in turn.
    Accepting,
    /// The message to come back.
    Exchanging,
    /// Nothing: the tunnel carries traffic, or it does not.
    Done(bool),
}

/// How a step of a probe went.
#[derive(Debug, PartialEq, Eq)]
pub enum Event {
    /// What makes this message different from any other.
    Drawn { hostname: String, pid: u32, nonce: u64 },
    Connected,
    ConnectFailed(String),
    ConnectTimedOut,
    Accepted,
    AcceptFailed(String),
    AcceptTimedOut,
    /// As many bytes as were sent, if they came back in time.
    Replied(Option<Vec<u8>>),
}

/// What an [`Event`] holds.
pub enum EventView {
    Drawn { hostname: Seq<char>, pid: nat, nonce: nat },
    Connected,
    ConnectFailed(Seq<char>),
    ConnectTimedOut,
    Accepted,
    AcceptFailed(Seq<char>),
    AcceptTimedOut,
    Replied(Option<Seq<u8>>),
}

impl View for Event {
    type V = EventView;

    open spec fn view(&self) -> EventView {
        match *self {
            Event::Drawn { hostname, pid, nonce } => EventView::Drawn {
                hostname: hostname@,
                pid: pid as nat,
                nonce: nonce as nat,
            },
            Event::Connected => EventView::Connected,
            Event::ConnectFailed(e) => EventView::ConnectFailed(e@),
            Event::ConnectTimedOut => EventView::ConnectTimedOut,
            Event::Accepted => EventView::Accepted,
            Event::AcceptFailed(e) => EventView::AcceptFailed(e@),
            Event::AcceptTimedOut => EventView::AcceptTimedOut,
            Event::Replied(back) => EventView::Replied(crate::cli::bytes_in(back)),
        }
    }
}

/// The next step of a probe.
#[derive(Debug, PartialEq, Eq)]
pub enum Action {
    /// Find out the host, the process and a nonce.
    Draw,
    /// Open the write connection.
    Connect { to: Addr, patience: Duration },
    /// Wait for the read connection.
    Accept { patience: Duration },
    /// Send the message, and read as many bytes back.
    Exchange { message: Vec<u8>, patience: Duration },
    /// The tunnel carries traffic, or it does not.
    Finish(bool),
}

/// What an [`Action`] holds.
pub enum ActionView {
    Draw,
    Connect { to: Addr, patience: Duration },
    Accept { patience: Duration },
    Exchange { message: Seq<u8>, patience: Duration },
    Finish(bool),
}

impl View for Action {
    type V = ActionView;

    open spec fn view(&self) -> ActionView {
        match *self {
            Action::Draw => ActionView::Draw,
            Action::Connect { to, patience } => ActionView::Connect { to, patience },
            Action::Accept { patience } => ActionView::Accept { patience },
            Action::Exchange { message, patience } => ActionView::Exchange {
                message: message@,
                patience,
            },
            Action::Finish(ok) => ActionView::Finish(ok),
        }
    }
}

/// The next step, and what to log before it.
#[derive(Debug, PartialEq, Eq)]
pub struct Step {
    pub action: Action,
    pub lines: Vec<Line>,
}

/// Where a probe stands.
#[derive(Debug, PartialEq, Eq)]
pub struct Prober {
    monitor: Monitor,
    stage: Stage,
    attempt: u32,
    message: Vec<u8>,
}

/// Where a probe stands: the arrangement it is for, what it waits for, which
/// attempt it is at, and the message of that attempt.
#[verifier::ext_equal]
pub struct ProberView {
    pub monitor: Monitor,
    pub stage: Stage,
    pub attempt: nat,
    pub message: Seq<u8>,
}

impl View for Prober {
    type V = ProberView;

    closed spec fn view(&self) -> ProberView {
        ProberView {
            monitor: self.monitor,
            stage: self.stage,
            attempt: self.attempt as nat,
            message: self.message@,
        }
    }
}

impl ProberView {
    /// The attempts count from 1 to the last.
    pub open spec fn wf(self) -> bool {
        &&& 1 <= self.attempt <= MAX_TRIES
        &&& self.stage is Accepting ==> self.monitor is Loop
        &&& self.stage is Connecting ==> !(self.monitor is Disabled)
    }
}

/// What an event comes to.
#[verifier::ext_equal]
pub struct Outcome {
    pub state: ProberView,
    pub action: ActionView,
    pub lines: Seq<LineView>,
}

/// Whether an event is one that can happen at a stage.
pub open spec fn accepts(stage: Stage, e: EventView) -> bool {
    match stage {
        Stage::Drawing => e is Drawn,
        Stage::Connecting => e is Connected || e is ConnectFailed || e is ConnectTimedOut,
        Stage::Accepting => e is Accepted || e is AcceptFailed || e is AcceptTimedOut,
        Stage::Exchanging => e is Replied,
        Stage::Done(_) => false,
    }
}

/// Where a probe begins.
pub open spec fn fresh(monitor: Monitor) -> ProberView {
    ProberView { monitor, stage: Stage::Drawing, attempt: 1, message: Seq::empty() }
}

/// An attempt succeeded, and with it the probe.
pub open spec fn succeed(s: ProberView) -> Outcome {
    Outcome {
        state: ProberView { stage: Stage::Done(true), ..s },
        action: ActionView::Finish(true),
        lines: seq![debug("connection ok"@)],
    }
}

/// An attempt failed. There is another one, unless it was the last.
pub open spec fn fail(s: ProberView, lines: Seq<LineView>) -> Outcome {
    let failed = lines.push(
        debug("monitor attempt "@ + decimal(s.attempt) + " of "@ + decimal(MAX_TRIES as nat)
            + " failed"@),
    );
    if s.attempt < MAX_TRIES {
        Outcome {
            state: ProberView { stage: Stage::Drawing, attempt: s.attempt + 1, ..s },
            action: ActionView::Draw,
            lines: failed,
        }
    } else {
        Outcome {
            state: ProberView { stage: Stage::Done(false), ..s },
            action: ActionView::Finish(false),
            lines: failed.push(
                info("tried connection "@ + decimal(MAX_TRIES as nat) + " times and failed"@),
            ),
        }
    }
}

/// Where the message is written to, if there is anything to probe.
pub open spec fn target(m: Monitor) -> Option<Addr> {
    match m {
        Monitor::Loop { write_to, .. } => Some(write_to),
        Monitor::Echo { write_to } => Some(write_to),
        Monitor::Disabled => None,
    }
}

/// The message is sent.
pub open spec fn send(cfg: ConfigView, s: ProberView) -> Outcome {
    Outcome {
        state: ProberView { stage: Stage::Exchanging, ..s },
        action: ActionView::Exchange { message: s.message, patience: cfg.net_timeout },
        lines: Seq::empty(),
    }
}

/// What an event comes to.
pub open spec fn next(cfg: ConfigView, s: ProberView, e: EventView) -> Outcome {
    let to = target(s.monitor)->Some_0;
    match e {
        EventView::Drawn { hostname, pid, nonce } => {
            let made = ProberView {
                message: raw(message_text(hostname, pid, nonce, cfg.message)),
                ..s
            };
            if s.monitor is Disabled {
                succeed(made)
            } else {
                Outcome {
                    state: ProberView { stage: Stage::Connecting, ..made },
                    action: ActionView::Connect { to, patience: cfg.net_timeout },
                    lines: Seq::empty(),
                }
            }
        },
        EventView::ConnectFailed(why) => fail(s, seq![info(to.shown() + ": "@ + why)]),
        EventView::ConnectTimedOut => fail(s, seq![info(to.shown() + ": connect timed out"@)]),
        // The remote dials back once the connection is there, before anything has
        // been written to it.
        EventView::Connected => if s.monitor is Loop {
            Outcome {
                state: ProberView { stage: Stage::Accepting, ..s },
                action: ActionView::Accept { patience: cfg.net_timeout },
                lines: Seq::empty(),
            }
        } else {
            send(cfg, s)
        },
        EventView::Accepted => send(cfg, s),
        EventView::AcceptFailed(why) => fail(
            s,
            seq![debug("error accepting read connection: "@ + why)],
        ),
        EventView::AcceptTimedOut => fail(
            s,
            seq![info("timeout polling to accept read connection"@)],
        ),
        EventView::Replied(back) => if back == Some(s.message) {
            succeed(s)
        } else {
            fail(s, Seq::empty())
        },
    }
}

/// What to log, and what to do.
pub open spec fn same_step(step: Step, o: Outcome) -> bool {
    step.action@ == o.action && lines_in(step.lines@) == o.lines
}

impl Prober {
    /// A probe that has not begun. The first thing to do is to draw a nonce.
    pub fn new(monitor: Monitor) -> (r: (Self, Action))
        ensures
            r.0@ == fresh(monitor),
            r.0@.wf(),
            r.1@ == ActionView::Draw,
    {
        let message: Vec<u8> = Vec::new();
        assert(message@ =~= Seq::empty());
        (Prober { monitor, stage: Stage::Drawing, attempt: 1, message }, Action::Draw)
    }

    /// What the probe is waiting for.
    pub fn stage(&self) -> (s: Stage)
        ensures
            s == self@.stage,
    {
        self.stage
    }

    fn succeed(&mut self) -> (step: Step)
        requires
            old(self)@.wf(),
        ensures
            final(self)@ == succeed(old(self)@).state,
            same_step(step, succeed(old(self)@)),
            final(self)@.wf(),
    {
        let mut lines: Vec<Line> = Vec::new();
        log_debug(&mut lines, "connection ok".to_owned());
        assert(lines_in(lines@) =~= seq![debug("connection ok"@)]);
        self.stage = Stage::Done(true);
        Step { action: Action::Finish(true), lines }
    }

    fn fail(&mut self, lines: Vec<Line>) -> (step: Step)
        requires
            old(self)@.wf(),
        ensures
            final(self)@ == fail(old(self)@, lines_in(lines@)).state,
            same_step(step, fail(old(self)@, lines_in(lines@))),
            final(self)@.wf(),
    {
        let mut lines = lines;
        let mut s = "monitor attempt ".to_owned();
        push_decimal(&mut s, self.attempt as u64);
        s.append(" of ");
        push_decimal(&mut s, MAX_TRIES as u64);
        s.append(" failed");
        log_debug(&mut lines, s);
        if self.attempt < MAX_TRIES {
            self.attempt = self.attempt + 1;
            self.stage = Stage::Drawing;
            Step { action: Action::Draw, lines }
        } else {
            let mut s = "tried connection ".to_owned();
            push_decimal(&mut s, MAX_TRIES as u64);
            s.append(" times and failed");
            log_info(&mut lines, s);
            self.stage = Stage::Done(false);
            Step { action: Action::Finish(false), lines }
        }
    }

    fn send(&mut self, cfg: &Config) -> (step: Step)
        requires
            old(self)@.wf(),
        ensures
            final(self)@ == send(cfg@, old(self)@).state,
            same_step(step, send(cfg@, old(self)@)),
            final(self)@.wf(),
    {
        self.stage = Stage::Exchanging;
        let lines: Vec<Line> = Vec::new();
        assert(lines_in(lines@) =~= Seq::empty());
        Step {
            action: Action::Exchange {
                message: copy_bytes(&self.message),
                patience: cfg.net_timeout,
            },
            lines,
        }
    }

    fn unreachable_line(&self, before: &str, why: &str) -> (lines: Vec<Line>)
        requires
            !(self@.monitor is Disabled),
        ensures
            lines_in(lines@) == seq![info(target(self@.monitor)->Some_0.shown() + before@ + why@)],
    {
        let to = match self.monitor {
            Monitor::Loop { write_to, .. } => write_to,
            Monitor::Echo { write_to } => write_to,
            Monitor::Disabled => Addr { host: Host::localhost(), port: 0 },
        };
        let mut lines: Vec<Line> = Vec::new();
        log_info(&mut lines, concat3(to.text().as_str(), before, why));
        assert(lines_in(lines@) =~= seq![
            info(target(self@.monitor)->Some_0.shown() + before@ + why@),
        ]);
        lines
    }

    fn connect(&mut self, cfg: &Config) -> (step: Step)
        requires
            old(self)@.wf(),
        ensures
            old(self)@.monitor is Disabled ==> final(self)@ == succeed(old(self)@).state
                && same_step(step, succeed(old(self)@)),
            !(old(self)@.monitor is Disabled) ==> {
                &&& final(self)@ == (ProberView { stage: Stage::Connecting, ..old(self)@ })
                &&& step.action@ == (ActionView::Connect {
                    to: target(old(self)@.monitor)->Some_0,
                    patience: cfg.net_timeout,
                })
                &&& lines_in(step.lines@) == Seq::<LineView>::empty()
            },
            final(self)@.wf(),
    {
        let to = match self.monitor {
            Monitor::Disabled => {
                return self.succeed();
            },
            Monitor::Loop { write_to, .. } => write_to,
            Monitor::Echo { write_to } => write_to,
        };
        self.stage = Stage::Connecting;
        let lines: Vec<Line> = Vec::new();
        assert(lines_in(lines@) =~= Seq::empty());
        Step { action: Action::Connect { to, patience: cfg.net_timeout }, lines }
    }

    /// Take in how a step went, and say which one comes next.
    pub fn step(&mut self, cfg: &Config, event: Event) -> (step: Step)
        requires
            old(self)@.wf(),
            accepts(old(self)@.stage, event@),
        ensures
            final(self)@ == next(cfg@, old(self)@, event@).state,
            step.action@ == next(cfg@, old(self)@, event@).action,
            lines_in(step.lines@) == next(cfg@, old(self)@, event@).lines,
            final(self)@.wf(),
    {
        let mut lines: Vec<Line> = Vec::new();
        assert(lines_in(lines@) =~= Seq::empty());
        match event {
            Event::Drawn { hostname, pid, nonce } => {
                self.message = message(hostname.as_str(), pid, nonce, cfg);
                self.connect(cfg)
            },
            Event::ConnectFailed(why) => {
                let lines = self.unreachable_line(": ", why.as_str());
                self.fail(lines)
            },
            Event::ConnectTimedOut => {
                let lines = self.unreachable_line(": connect timed out", "");
                proof {
                    reveal_strlit("");
                    let t = target(self@.monitor)->Some_0.shown() + ": connect timed out"@;
                    assert(t + ""@ =~= t);
                }
                self.fail(lines)
            },
            Event::Connected => {
                if let Monitor::Loop { .. } = self.monitor {
                    self.stage = Stage::Accepting;
                    Step { action: Action::Accept { patience: cfg.net_timeout }, lines }
                } else {
                    self.send(cfg)
                }
            },
            Event::Accepted => self.send(cfg),
            Event::AcceptFailed(why) => {
                let mut s = "error accepting read connection: ".to_owned();
                s.append(why.as_str());
                log_debug(&mut lines, s);
                assert(lines_in(lines@) =~= seq![
                    debug("error accepting read connection: "@ + why@),
                ]);
                self.fail(lines)
            },
            Event::AcceptTimedOut => {
                log_info(&mut lines, "timeout polling to accept read connection".to_owned());
                assert(lines_in(lines@) =~= seq![
                    info("timeout polling to accept read connection"@),
                ]);
                self.fail(lines)
            },
            Event::Replied(back) => {
                let ours: bool = match &back {
                    Some(b) => same_bytes(b, &self.message),
                    None => false,
                };
                if ours {
                    self.succeed()
                } else {
                    self.fail(lines)
                }
            },
        }
    }
}

} // verus!
