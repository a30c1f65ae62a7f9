//! The connection monitor, exercised against scripted stand-ins for the network.

use rash::cli;
use rash::config::{self, Config};
use rash::host::Host;
use rash::log::Line;
use rash::monitor::{probe, Action, Addr, Event, Monitor, Prober, Stage};

fn config_with(spec: &str, env: &[(&str, &str)]) -> Config {
    let argv: Vec<Vec<u8>> = ["-M", spec, "-N", "host"]
        .iter()
        .map(|a| a.as_bytes().to_vec())
        .collect();
    let inv = cli::parse(&argv).expect("parse");
    config::resolve(inv, env).expect("resolve").config
}

/// A poll of 1s gives a 500ms net timeout.
fn config_for(spec: &str, poll: &str) -> Config {
    config_with(spec, &[("AUTOSSH_POLL", poll)])
}

/// How the far side behaves.
enum Network {
    /// What is written comes back.
    Good,
    /// Connections are accepted, but nothing ever comes back.
    BlackHole,
    /// Nothing listens on the write port.
    Refused,
    /// A connection attempt is never answered.
    Silent,
    /// The read connection fails.
    Broken,
    /// As many bytes as were sent come back, but they are others.
    Liar,
}

/// Run a whole probe, and say what came of it, what was logged, and how many
/// steps were waited for.
fn probe_over(network: &Network, cfg: &Config) -> (bool, Vec<Line>, usize) {
    let monitor = Monitor::new(cfg);
    let (mut prober, mut action) = Prober::new(monitor);
    let mut log = Vec::new();
    let mut nonce = 0u64;
    let mut waits = 0;
    loop {
        let event = match action {
            Action::Finish(ok) => {
                assert_eq!(prober.stage(), Stage::Done(ok));
                return (ok, log, waits);
            }
            Action::Draw => {
                nonce += 1;
                Event::Drawn {
                    hostname: "here".to_owned(),
                    pid: 4242,
                    nonce,
                }
            }
            Action::Connect { to, patience } => {
                assert_eq!(to.host, cfg.monitor_host);
                assert_eq!(patience, cfg.net_timeout);
                waits += 1;
                match network {
                    Network::Refused => Event::ConnectFailed("refused".to_owned()),
                    Network::Silent => Event::ConnectTimedOut,
                    _ => Event::Connected,
                }
            }
            Action::Accept { patience } => {
                assert_eq!(patience, cfg.net_timeout);
                waits += 1;
                match network {
                    Network::BlackHole => Event::AcceptTimedOut,
                    Network::Broken => Event::AcceptFailed("broken".to_owned()),
                    _ => Event::Accepted,
                }
            }
            Action::Exchange { message, patience } => {
                assert_eq!(patience, cfg.net_timeout);
                waits += 1;
                match network {
                    Network::Good => Event::Replied(Some(message)),
                    Network::Liar => Event::Replied(Some(vec![b'X'; message.len()])),
                    _ => Event::Replied(None),
                }
            }
        };
        let step = prober.step(cfg, event);
        log.extend(step.lines);
        action = step.action;
    }
}

fn texts(log: &[Line]) -> Vec<&str> {
    log.iter().map(|l| l.text.as_str()).collect()
}

#[test]
fn a_loop_probe_succeeds_when_the_data_comes_back() {
    let cfg = config_for("20000", "60");
    let (ok, log, waits) = probe_over(&Network::Good, &cfg);
    assert!(ok);
    assert_eq!(texts(&log), ["connection ok"]);
    assert_eq!(waits, 3);
}

#[test]
fn a_loop_probe_fails_when_traffic_is_black_holed() {
    // The case the monitor exists for: the connection still accepts, so nothing
    // looks broken, but no byte ever comes back.
    let cfg = config_for("20000", "1");
    let (ok, log, waits) = probe_over(&Network::BlackHole, &cfg);
    assert!(!ok);
    assert_eq!(
        texts(&log),
        [
            "timeout polling to accept read connection",
            "monitor attempt 1 of 3 failed",
            "timeout polling to accept read connection",
            "monitor attempt 2 of 3 failed",
            "timeout polling to accept read connection",
            "monitor attempt 3 of 3 failed",
            "tried connection 3 times and failed",
        ]
    );
    // The probe must give up rather than wait for ever.
    assert!(waits * 500 < 10_000);
}

#[test]
fn a_probe_fails_when_nothing_is_listening() {
    let cfg = config_for("20000", "1");
    let (ok, log, waits) = probe_over(&Network::Refused, &cfg);
    assert!(!ok);
    assert_eq!(log[0].text, "127.0.0.1:20000: refused");
    assert_eq!(log[0].level.text(), "info");
    assert_eq!(waits, 3);
}

#[test]
fn a_connection_that_is_never_answered_times_out() {
    let cfg = config_with("20000:7", &[("RASH_MONITOR_HOST", "::1")]);
    let (ok, log, _) = probe_over(&Network::Silent, &cfg);
    assert!(!ok);
    assert_eq!(log[0].text, "[::1]:20000: connect timed out");
}

#[test]
fn a_read_connection_that_breaks_fails_the_attempt() {
    let cfg = config_for("20000", "60");
    let (ok, log, _) = probe_over(&Network::Broken, &cfg);
    assert!(!ok);
    assert_eq!(log[0].text, "error accepting read connection: broken");
    assert_eq!(log[0].level.text(), "debug");
}

#[test]
fn an_echo_probe_succeeds() {
    let cfg = config_for("20000:7", "60");
    let (ok, _, waits) = probe_over(&Network::Good, &cfg);
    assert!(ok);
    // There is no read connection to wait for.
    assert_eq!(waits, 2);
}

#[test]
fn an_echo_probe_fails_when_the_reply_differs() {
    // Right length, wrong bytes: something is answering on the port, but it is
    // not our own message coming back.
    let cfg = config_for("20000:7", "1");
    assert!(!probe_over(&Network::Liar, &cfg).0);
}

#[test]
fn a_disabled_monitor_is_never_probed() {
    let cfg = config_for("0", "60");
    let monitor = Monitor::new(&cfg);
    assert!(!monitor.enabled());
    assert!(matches!(monitor, Monitor::Disabled));
    assert!(monitor.opened().is_empty());
    let (ok, _, waits) = probe_over(&Network::Refused, &cfg);
    assert!(ok);
    assert_eq!(waits, 0);
}

#[test]
fn a_late_attempt_can_still_succeed() {
    let cfg = config_for("20000:7", "60");
    let (mut prober, _) = Prober::new(Monitor::new(&cfg));
    let drawn = |nonce| Event::Drawn {
        hostname: "here".to_owned(),
        pid: 1,
        nonce,
    };
    prober.step(&cfg, drawn(1));
    let step = prober.step(&cfg, Event::ConnectTimedOut);
    assert_eq!(step.action, Action::Draw);
    prober.step(&cfg, drawn(2));
    let step = prober.step(&cfg, Event::Connected);
    let Action::Exchange { message, .. } = step.action else {
        panic!("expected the message to be sent");
    };
    assert_eq!(message, probe::message("here", 1, 2, &cfg));
    // The message of the first attempt does not count any more.
    let mut other = prober;
    let step = other.step(&cfg, Event::Replied(Some(message)));
    assert_eq!(step.action, Action::Finish(true));
}

#[test]
fn the_reply_to_an_earlier_attempt_does_not_count() {
    let cfg = config_for("20000:7", "60");
    let (mut prober, _) = Prober::new(Monitor::new(&cfg));
    for nonce in [1, 2] {
        prober.step(
            &cfg,
            Event::Drawn {
                hostname: "here".to_owned(),
                pid: 1,
                nonce,
            },
        );
        prober.step(&cfg, Event::Connected);
        let step = prober.step(&cfg, Event::Replied(Some(probe::message("here", 1, 0, &cfg))));
        assert_eq!(step.action, Action::Draw);
    }
}

#[test]
fn the_monitor_listens_above_the_port_it_writes_to() {
    let cfg = config_for("20000", "60");
    let host = Host::V4([127, 0, 0, 1]);
    let monitor = Monitor::new(&cfg);
    assert!(monitor.enabled());
    assert_eq!(
        monitor,
        Monitor::Loop {
            read_on: Addr { host, port: 20001 },
            write_to: Addr { host, port: 20000 },
        }
    );
    assert_eq!(
        texts(&monitor.opened()),
        ["monitor listening on 127.0.0.1:20001"]
    );
    assert_eq!(
        Monitor::new(&config_for("20000:7", "60")),
        Monitor::Echo {
            write_to: Addr { host, port: 20000 }
        }
    );
}

#[test]
fn the_probe_message_is_identifiable_and_unique() {
    let cfg = config_with("20000", &[("AUTOSSH_MESSAGE", "homelab")]);

    let raw = probe::message("here", 4242, 17, &cfg);
    let text = String::from_utf8(raw).expect("the message should be text");
    assert!(text.ends_with("\r\n"), "got {text:?}");

    // hostname, program, pid, nonce, user message.
    let fields: Vec<&str> = text.trim_end().split(' ').collect();
    assert_eq!(fields.len(), 5, "got {fields:?}");
    assert_eq!(fields[0], "here");
    assert_eq!(fields[1], "rash");
    assert_eq!(fields[2], "4242");
    assert_eq!(fields[3], "17");
    assert_eq!(fields[4], "homelab");

    // Two probes must never be mistaken for one another.
    assert_ne!(
        probe::message("here", 4242, 17, &cfg),
        probe::message("here", 4242, 18, &cfg)
    );
}

#[test]
fn the_host_name_ends_at_the_first_nul() {
    assert_eq!(probe::hostname(Some(b"box\0garbage")), "box");
    assert_eq!(probe::hostname(Some(b"box")), "box");
    assert_eq!(probe::hostname(Some(b"b\xffx\0")), "b\u{fffd}x");
    assert_eq!(probe::hostname(None), "");
}

#[test]
fn a_nonce_is_random_or_else_the_time() {
    assert_eq!(probe::nonce(Some(7), 1, 2), 7);
    assert_eq!(probe::nonce(None, 0b1100, 0b1010), 0b0110);
}
