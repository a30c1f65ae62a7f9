//! What holds of the monitor and of every probe.

use crate::cli::raw;
use crate::config::{forward, ConfigView, Level, Monitor as Spec};
use crate::host::Host;
use crate::log::LineView;
use crate::monitor::probe::message_text;
use crate::monitor::{
    accepts, arranged, fresh, next, target, ActionView, EventView, Monitor, ProberView, Stage,
    MAX_TRIES,
};
use crate::text::decimal;
use vstd::prelude::*;

verus! {

/// The forwards that ssh is given and the sockets that the monitor uses belong
/// together. In loop mode what is written to the write port goes to the same
/// port on the remote, and from there to the port that is listened on, which is
/// the next one. In echo mode it goes to the echo service.
pub proof fn law_the_forwards_lead_back(spec: Spec, host: Host)
    requires
        spec.wf(),
    ensures
        match arranged(spec, host) {
            Monitor::Disabled => spec.forward_args(host).len() == 0,
            Monitor::Loop { read_on, write_to } => {
                &&& read_on.host == host && write_to.host == host
                &&& read_on.port == write_to.port + 1
                &&& spec.forward_args(host) == seq![
                    raw("-L"@),
                    raw(forward(write_to.port as nat, host, write_to.port as nat)),
                    raw("-R"@),
                    raw(forward(write_to.port as nat, host, read_on.port as nat)),
                ]
            },
            Monitor::Echo { write_to } => {
                &&& write_to.host == host
                &&& spec.forward_args(host) == seq![
                    raw("-L"@),
                    raw(forward(write_to.port as nat, host, spec->echo as nat)),
                ]
            },
        },
{
}

// ----------------------------------------------------------------- every probe

/// Where a probe stands after a series of events.
pub open spec fn state_after(cfg: ConfigView, m: Monitor, events: Seq<EventView>) -> ProberView
    decreases events.len(),
{
    if events.len() == 0 {
        fresh(m)
    } else {
        next(cfg, state_after(cfg, m, events.drop_last()), events.last()).state
    }
}

/// The action that a series of events leads to.
pub open spec fn action_after(cfg: ConfigView, m: Monitor, events: Seq<EventView>) -> ActionView {
    if events.len() == 0 {
        ActionView::Draw
    } else {
        next(cfg, state_after(cfg, m, events.drop_last()), events.last()).action
    }
}

/// Whether a series of events is one that can happen.
pub open spec fn possible(cfg: ConfigView, m: Monitor, events: Seq<EventView>) -> bool
    decreases events.len(),
{
    events.len() == 0 || {
        &&& possible(cfg, m, events.drop_last())
        &&& accepts(state_after(cfg, m, events.drop_last()).stage, events.last())
    }
}

/// How many steps into its attempt a probe can be.
pub open spec fn depth(stage: Stage) -> nat {
    match stage {
        Stage::Drawing => 0,
        Stage::Connecting => 1,
        Stage::Accepting => 2,
        Stage::Exchanging => 3,
        Stage::Done(_) => 4,
    }
}

/// Every state of a probe is a proper one, and each event brings it closer to
/// its end.
proof fn lemma_progress(cfg: ConfigView, m: Monitor, events: Seq<EventView>)
    requires
        possible(cfg, m, events),
    ensures
        ({
            let s = state_after(cfg, m, events);
            &&& s.wf()
            &&& s.monitor == m
            &&& events.len() <= 4 * (s.attempt - 1) + depth(s.stage)
            &&& action_after(cfg, m, events) is Finish == s.stage is Done
            &&& m is Disabled ==> (s.stage is Drawing && s.attempt == 1 || s.stage == Stage::Done(
                true,
            ))
        }),
    decreases events.len(),
{
    if events.len() > 0 {
        lemma_progress(cfg, m, events.drop_last());
        assert(accepts(state_after(cfg, m, events.drop_last()).stage, events.last()));
    }
}

/// A probe always comes to an end: after twelve steps at most.
pub proof fn law_a_probe_gives_up(cfg: ConfigView, m: Monitor, events: Seq<EventView>)
    requires
        possible(cfg, m, events),
    ensures
        events.len() <= 12,
        events.len() == 12 ==> action_after(cfg, m, events) is Finish,
{
    lemma_progress(cfg, m, events);
}

/// How often one probe waits for the network.
pub open spec fn waits_in(cfg: ConfigView, m: Monitor, events: Seq<EventView>) -> nat
    decreases events.len(),
{
    if events.len() == 0 {
        0
    } else {
        waits_in(cfg, m, events.drop_last()) + match action_after(cfg, m, events) {
            ActionView::Connect { .. } => 1nat,
            ActionView::Accept { .. } => 1,
            ActionView::Exchange { .. } => 1,
            _ => 0,
        }
    }
}

proof fn lemma_waits(cfg: ConfigView, m: Monitor, events: Seq<EventView>)
    requires
        possible(cfg, m, events),
    ensures
        ({
            let s = state_after(cfg, m, events);
            waits_in(cfg, m, events) <= 3 * (s.attempt - 1) + if s.stage is Done {
                3
            } else {
                depth(s.stage)
            }
        }),
    decreases events.len(),
{
    if events.len() > 0 {
        lemma_waits(cfg, m, events.drop_last());
        assert(accepts(state_after(cfg, m, events.drop_last()).stage, events.last()));
    }
}

/// A probe waits for the network nine times at most, and never for longer than
/// the network timeout.
pub proof fn law_a_probe_waits_no_longer_than_it_may(
    cfg: ConfigView,
    m: Monitor,
    events: Seq<EventView>,
)
    requires
        possible(cfg, m, events),
    ensures
        waits_in(cfg, m, events) <= 9,
        match action_after(cfg, m, events) {
            ActionView::Connect { to, patience } => patience == cfg.net_timeout && Some(to)
                == target(m),
            ActionView::Accept { patience } => patience == cfg.net_timeout && m is Loop,
            ActionView::Exchange { message, patience } => patience == cfg.net_timeout,
            _ => true,
        },
{
    lemma_waits(cfg, m, events);
    lemma_progress(cfg, m, events);
    if events.len() > 0 {
        lemma_progress(cfg, m, events.drop_last());
        assert(accepts(state_after(cfg, m, events.drop_last()).stage, events.last()));
    }
}

/// The message that was drawn last.
pub open spec fn last_message(cfg: ConfigView, events: Seq<EventView>) -> Option<Seq<u8>>
    decreases events.len(),
{
    if events.len() == 0 {
        None
    } else {
        match events.last() {
            EventView::Drawn { hostname, pid, nonce } => Some(
                raw(message_text(hostname, pid, nonce, cfg.message)),
            ),
            _ => last_message(cfg, events.drop_last()),
        }
    }
}

proof fn lemma_message(cfg: ConfigView, m: Monitor, events: Seq<EventView>)
    requires
        possible(cfg, m, events),
    ensures
        ({
            let s = state_after(cfg, m, events);
            s.stage is Connecting || s.stage is Accepting || s.stage is Exchanging ==> last_message(
                cfg,
                events,
            ) == Some(s.message)
        }),
    decreases events.len(),
{
    if events.len() > 0 {
        lemma_message(cfg, m, events.drop_last());
        assert(accepts(state_after(cfg, m, events.drop_last()).stage, events.last()));
    }
}

/// A probe succeeds only if exactly the bytes of its own last message came back.
/// Another reply, even one of the right length, fails the attempt.
pub proof fn law_only_our_own_bytes_count(cfg: ConfigView, m: Monitor, events: Seq<EventView>)
    requires
        possible(cfg, m, events),
        !(m is Disabled),
    ensures
        action_after(cfg, m, events) == ActionView::Finish(true) <==> (events.len() > 0
            && events.last() is Replied && events.last() == EventView::Replied(
            last_message(cfg, events.drop_last()),
        )),
        action_after(cfg, m, events) matches ActionView::Exchange { message, .. } ==> Some(message)
            == last_message(cfg, events),
{
    if events.len() > 0 {
        let before = events.drop_last();
        lemma_message(cfg, m, before);
        lemma_message(cfg, m, events);
        lemma_progress(cfg, m, before);
        let s = state_after(cfg, m, before);
        assert(accepts(s.stage, events.last()));
    }
}

/// How many attempts failed.
pub open spec fn failures_in(cfg: ConfigView, m: Monitor, events: Seq<EventView>) -> nat
    decreases events.len(),
{
    if events.len() == 0 {
        0
    } else {
        let failed = match action_after(cfg, m, events) {
            ActionView::Draw => true,
            ActionView::Finish(ok) => !ok,
            _ => false,
        };
        failures_in(cfg, m, events.drop_last()) + if failed {
            1nat
        } else {
            0
        }
    }
}

proof fn lemma_failures(cfg: ConfigView, m: Monitor, events: Seq<EventView>)
    requires
        possible(cfg, m, events),
    ensures
        ({
            let s = state_after(cfg, m, events);
            failures_in(cfg, m, events) == if s.stage == Stage::Done(false) {
                s.attempt
            } else {
                (s.attempt - 1) as nat
            }
        }),
        state_after(cfg, m, events).stage == Stage::Done(false) ==> state_after(
            cfg,
            m,
            events,
        ).attempt == MAX_TRIES,
    decreases events.len(),
{
    if events.len() > 0 {
        lemma_failures(cfg, m, events.drop_last());
        lemma_progress(cfg, m, events.drop_last());
        assert(accepts(state_after(cfg, m, events.drop_last()).stage, events.last()));
    }
}

/// The tunnel is taken to be down after all three attempts have failed, and not
/// before.
pub proof fn law_all_three_attempts_are_made(cfg: ConfigView, m: Monitor, events: Seq<EventView>)
    requires
        possible(cfg, m, events),
    ensures
        failures_in(cfg, m, events) <= 3,
        action_after(cfg, m, events) == ActionView::Finish(false) <==> failures_in(cfg, m, events)
            == 3,
{
    lemma_failures(cfg, m, events);
    lemma_progress(cfg, m, events);
    if events.len() > 0 {
        lemma_progress(cfg, m, events.drop_last());
        assert(accepts(state_after(cfg, m, events.drop_last()).stage, events.last()));
    }
}

/// A disabled monitor never touches the network, and finds nothing wrong.
pub proof fn law_a_disabled_monitor_finds_nothing_wrong(
    cfg: ConfigView,
    events: Seq<EventView>,
)
    requires
        possible(cfg, Monitor::Disabled, events),
    ensures
        action_after(cfg, Monitor::Disabled, events) == if events.len() == 0 {
            ActionView::Draw
        } else {
            ActionView::Finish(true)
        },
{
    lemma_progress(cfg, Monitor::Disabled, events);
    if events.len() > 0 {
        lemma_progress(cfg, Monitor::Disabled, events.drop_last());
        assert(accepts(
            state_after(cfg, Monitor::Disabled, events.drop_last()).stage,
            events.last(),
        ));
    }
}

// ------------------------------------------------- each step, by the configured port

/// The port that the monitor was configured with, if it is on.
pub open spec fn configured(spec: Spec) -> Option<u16> {
    match spec {
        Spec::Disabled => None,
        Spec::Loop { port } => Some(port),
        Spec::Echo { port, .. } => Some(port),
    }
}

/// In loop mode and in echo mode alike, every connection of a probe goes to the
/// configured port on the monitor host, and no probe connects anywhere else. It
/// connects as soon as it has a message to send.
pub proof fn law_a_probe_connects_to_the_configured_port(
    cfg: ConfigView,
    events: Seq<EventView>,
)
    requires
        possible(cfg, arranged(cfg.monitor, cfg.monitor_host), events),
    ensures
        ({
            let act = action_after(cfg, arranged(cfg.monitor, cfg.monitor_host), events);
            &&& act matches ActionView::Connect { to, patience } ==> {
                &&& to.host == cfg.monitor_host
                &&& cfg.monitor is Loop ==> to.port == cfg.monitor->Loop_port
                &&& cfg.monitor is Echo ==> to.port == cfg.monitor->Echo_port
                &&& !(cfg.monitor is Disabled)
                &&& patience == cfg.net_timeout
            }
            &&& act is Connect <==> {
                &&& events.len() > 0 && events.last() is Drawn
                &&& !(cfg.monitor is Disabled)
            }
        }),
{
    let m = arranged(cfg.monitor, cfg.monitor_host);
    lemma_progress(cfg, m, events);
    if events.len() > 0 {
        lemma_progress(cfg, m, events.drop_last());
        assert(accepts(state_after(cfg, m, events.drop_last()).stage, events.last()));
    }
}

/// In loop mode the probe listens on the port after the configured one, on the same
/// host, and waits there for the read connection once the write connection stands;
/// the message is sent when both do. In echo mode there is no second connection, and
/// the message is sent at once.
pub proof fn law_loop_mode_listens_on_the_next_port(
    cfg: ConfigView,
    events: Seq<EventView>,
)
    requires
        cfg.monitor.wf(),
        possible(cfg, arranged(cfg.monitor, cfg.monitor_host), events),
        events.len() > 0,
    ensures
        arranged(cfg.monitor, cfg.monitor_host) is Loop <==> cfg.monitor is Loop,
        arranged(cfg.monitor, cfg.monitor_host) is Echo <==> cfg.monitor is Echo,
        arranged(cfg.monitor, cfg.monitor_host) matches Monitor::Loop { read_on, .. } ==> {
            &&& read_on.host == cfg.monitor_host
            &&& read_on.port == cfg.monitor->Loop_port + 1
        },
        ({
            let act = action_after(cfg, arranged(cfg.monitor, cfg.monitor_host), events);
            &&& act is Accept <==> cfg.monitor is Loop && events.last() is Connected
            &&& act is Exchange <==> (cfg.monitor is Loop && events.last() is Accepted) || (
            cfg.monitor is Echo && events.last() is Connected)
            &&& act matches ActionView::Accept { patience } ==> patience == cfg.net_timeout
            &&& act matches ActionView::Exchange { patience, .. } ==> patience == cfg.net_timeout
        }),
{
    let m = arranged(cfg.monitor, cfg.monitor_host);
    lemma_progress(cfg, m, events);
    lemma_progress(cfg, m, events.drop_last());
    assert(accepts(state_after(cfg, m, events.drop_last()).stage, events.last()));
}

/// What is sent is the host name, the word `rash`, the process and the nonce, each
/// followed by a space, then the configured text, and the end of a line. Each attempt
/// draws them anew.
pub proof fn law_what_a_probe_sends(
    cfg: ConfigView,
    s: ProberView,
    hostname: Seq<char>,
    pid: nat,
    nonce: nat,
)
    requires
        !(s.monitor is Disabled),
    ensures
        ({
            let o = next(cfg, s, EventView::Drawn { hostname, pid, nonce });
            let text = hostname + " rash "@ + decimal(pid) + " "@ + decimal(nonce) + " "@
                + cfg.message + "\r\n"@;
            let sent = vstd::utf8::encode_utf8(text);
            &&& o.state.message == sent
            &&& o.state.stage == Stage::Connecting && o.state.attempt == s.attempt
            &&& o.lines.len() == 0
            // The reply is held against the same bytes.
            &&& next(cfg, o.state, EventView::Connected).state.message == sent
            &&& next(cfg, o.state, EventView::Accepted).action == (ActionView::Exchange {
                message: sent,
                patience: cfg.net_timeout,
            })
        }),
{
}

/// What is said when a step fails, with the address that was connected to, and when
/// the attempt that it was part of is counted as failed.
pub proof fn law_what_a_failed_step_says(
    cfg: ConfigView,
    s: ProberView,
    e: EventView,
    why: Seq<char>,
)
    requires
        s.monitor == arranged(cfg.monitor, cfg.monitor_host),
        !(cfg.monitor is Disabled),
        s.wf(),
        e == EventView::ConnectFailed(why) || e == EventView::ConnectTimedOut || e
            == EventView::AcceptFailed(why) || e == EventView::AcceptTimedOut || (e is Replied && e
            != EventView::Replied(Some(s.message))),
    ensures
        ({
            let o = next(cfg, s, e);
            let at = cfg.monitor_host.literal() + ":"@ + decimal(
                configured(cfg.monitor)->Some_0 as nat,
            );
            let first: Seq<LineView> = match e {
                EventView::ConnectFailed(_) => seq![
                    LineView { level: Level::Info, text: at + ": "@ + why },
                ],
                EventView::ConnectTimedOut => seq![
                    LineView { level: Level::Info, text: at + ": connect timed out"@ },
                ],
                EventView::AcceptFailed(_) => seq![
                    LineView {
                        level: Level::Debug,
                        text: "error accepting read connection: "@ + why,
                    },
                ],
                EventView::AcceptTimedOut => seq![
                    LineView {
                        level: Level::Info,
                        text: "timeout polling to accept read connection"@,
                    },
                ],
                _ => Seq::empty(),
            };
            let counted = first.push(
                LineView {
                    level: Level::Debug,
                    text: "monitor attempt "@ + decimal(s.attempt) + " of "@ + decimal(3)
                        + " failed"@,
                },
            );
            &&& s.attempt < 3 ==> o.action == ActionView::Draw && o.state.stage == Stage::Drawing
                && o.state.attempt == s.attempt + 1 && o.lines == counted
            &&& s.attempt == 3 ==> o.action == ActionView::Finish(false) && o.state.stage
                == Stage::Done(false) && o.lines == counted.push(
                LineView {
                    level: Level::Info,
                    text: "tried connection "@ + decimal(3) + " times and failed"@,
                },
            )
        }),
{
}

/// A probe begins with its first attempt, and says so when it succeeds.
pub proof fn law_how_a_probe_succeeds(cfg: ConfigView, m: Monitor, s: ProberView)
    ensures
        fresh(m).monitor == m && fresh(m).attempt == 1 && fresh(m).stage == Stage::Drawing,
        ({
            let o = next(cfg, s, EventView::Replied(Some(s.message)));
            &&& o.action == ActionView::Finish(true) && o.state.stage == Stage::Done(true)
            &&& o.lines.len() == 1 && o.lines[0] == (LineView {
                level: Level::Debug,
                text: "connection ok"@,
            })
        }),
{
}

/// What a probe waits for at each stage, and nothing else.
pub proof fn law_what_a_probe_waits_for(stage: Stage, e: EventView)
    ensures
        accepts(stage, e) <==> match e {
            EventView::Drawn { .. } => stage is Drawing,
            EventView::Connected => stage is Connecting,
            EventView::ConnectFailed(_) => stage is Connecting,
            EventView::ConnectTimedOut => stage is Connecting,
            EventView::Accepted => stage is Accepting,
            EventView::AcceptFailed(_) => stage is Accepting,
            EventView::AcceptTimedOut => stage is Accepting,
            EventView::Replied(_) => stage is Exchanging,
        },
{
}

} // verus!
