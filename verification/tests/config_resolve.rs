//! Configuration resolution: precedence, validation, and the derived clamps.

use rash::cli;
use rash::config::{self, ConfigError, EnvSource, Level, LogTarget, Monitor, ProcessEnv, Resolved};
use rash::host::Host;
use rash::time::Duration;

fn try_resolve(args: &[&str], env: &[(&str, &str)]) -> Result<Resolved, ConfigError> {
    let argv: Vec<Vec<u8>> = args.iter().map(|a| a.as_bytes().to_vec()).collect();
    let inv = cli::parse(&argv).expect("should parse");
    config::resolve(inv, env)
}

fn resolve(args: &[&str], env: &[(&str, &str)]) -> Resolved {
    try_resolve(args, env).expect("should resolve")
}

fn ssh_args(args: &[&str], env: &[(&str, &str)]) -> Vec<String> {
    resolve(args, env)
        .config
        .ssh_args
        .iter()
        .map(|a| String::from_utf8_lossy(a).into_owned())
        .collect()
}

fn secs(d: Duration) -> u64 {
    d.as_secs()
}

#[test]
fn defaults_match_autossh() {
    let c = resolve(&["-M", "20000", "-N", "host"], &[]).config;
    assert_eq!(secs(c.poll), 600);
    assert_eq!(secs(c.first_poll), 600);
    assert_eq!(c.net_timeout, Duration::from_millis(15_000));
    assert_eq!(secs(c.gate_time), 30);
    assert_eq!(c.max_start, -1);
    assert_eq!(c.max_lifetime, None);
    assert_eq!(c.monitor, Monitor::Loop { port: 20000 });
    assert_eq!(std::str::from_utf8(&c.ssh_path), Ok("/usr/bin/ssh"));
    assert_eq!(c.log.target, LogTarget::Syslog);
    assert_eq!(c.log.level, Level::Info);
    assert!(!c.log.also_stderr);
}

#[test]
fn first_poll_follows_poll_unless_set() {
    let c = resolve(&["-M", "1", "host"], &[("AUTOSSH_POLL", "300")]).config;
    assert_eq!((secs(c.poll), secs(c.first_poll)), (300, 300));

    let c = resolve(
        &["-M", "1", "host"],
        &[("AUTOSSH_POLL", "300"), ("AUTOSSH_FIRST_POLL", "10")],
    )
    .config;
    assert_eq!((secs(c.poll), secs(c.first_poll)), (300, 10));
}

#[test]
fn short_poll_shrinks_the_net_timeout() {
    let r = resolve(&["-M", "1", "host"], &[("AUTOSSH_POLL", "10")]);
    assert_eq!(r.config.net_timeout, Duration::from_millis(5_000));
    assert!(
        r.warnings
            .iter()
            .any(|w| w.contains("adjusting net timeouts"))
    );

    // A poll long enough to fit two timeouts leaves them alone.
    let r = resolve(&["-M", "1", "host"], &[("AUTOSSH_POLL", "60")]);
    assert_eq!(r.config.net_timeout, Duration::from_millis(15_000));
    assert!(r.warnings.is_empty());
}

#[test]
fn max_lifetime_clamps_both_poll_times() {
    let r = resolve(
        &["-M", "1", "host"],
        &[("AUTOSSH_POLL", "600"), ("AUTOSSH_MAXLIFETIME", "100")],
    );
    assert_eq!(secs(r.config.poll), 100);
    assert_eq!(secs(r.config.first_poll), 100);
    assert_eq!(r.config.max_lifetime, Some(Duration::from_secs(100)));
    assert_eq!(
        r.warnings.iter().filter(|w| w.contains("lifetime")).count(),
        2
    );

    // 0 means no limit at all.
    let c = resolve(&["-M", "1", "host"], &[("AUTOSSH_MAXLIFETIME", "0")]).config;
    assert_eq!(c.max_lifetime, None);
}

#[test]
fn rash_variables_outrank_autossh_ones() {
    let c = resolve(
        &["-M", "1", "host"],
        &[("AUTOSSH_POLL", "600"), ("RASH_POLL", "5")],
    )
    .config;
    assert_eq!(secs(c.poll), 5);
}

#[test]
fn monitor_port_precedence() {
    // AUTOSSH_PORT beats -M.
    let r = resolve(&["-M", "20000", "-N", "host"], &[("AUTOSSH_PORT", "30000")]);
    assert_eq!(r.config.monitor, Monitor::Loop { port: 30000 });

    // RASH_PORT beats AUTOSSH_PORT.
    let r = resolve(
        &["-M", "20000", "host"],
        &[("AUTOSSH_PORT", "30000"), ("RASH_PORT", "40000")],
    );
    assert_eq!(r.config.monitor, Monitor::Loop { port: 40000 });

    // --monitor beats everything.
    let r = resolve(
        &["--monitor", "50000", "-M", "20000", "host"],
        &[("AUTOSSH_PORT", "30000")],
    );
    assert_eq!(r.config.monitor, Monitor::Loop { port: 50000 });
}

#[test]
fn env_sourced_port_injects_at_the_front() {
    // -M records its own position...
    assert_eq!(
        ssh_args(&["-N", "-M", "20000", "host"], &[]),
        [
            "-N",
            "-L",
            "20000:127.0.0.1:20000",
            "-R",
            "20000:127.0.0.1:20001",
            "host"
        ]
    );
    // ...but an environment port goes in front of everything,
    // even when -M is also present.
    assert_eq!(
        ssh_args(&["-N", "-M", "20000", "host"], &[("AUTOSSH_PORT", "20000")]),
        [
            "-L",
            "20000:127.0.0.1:20000",
            "-R",
            "20000:127.0.0.1:20001",
            "-N",
            "host"
        ]
    );
}

#[test]
fn monitor_modes_produce_the_right_forwards() {
    assert_eq!(
        ssh_args(&["-M", "20000", "-N", "host"], &[]),
        [
            "-L",
            "20000:127.0.0.1:20000",
            "-R",
            "20000:127.0.0.1:20001",
            "-N",
            "host"
        ]
    );
    // Echo mode is one forward only; the remote service sends the data back.
    assert_eq!(
        ssh_args(&["-M", "20000:7", "-N", "host"], &[]),
        ["-L", "20000:127.0.0.1:7", "-N", "host"]
    );
    // Monitoring off means no forwards at all.
    let r = resolve(&["-M", "0", "-N", "host"], &[]);
    assert_eq!(r.config.monitor, Monitor::Disabled);
    assert_eq!(ssh_args(&["-M", "0", "-N", "host"], &[]), ["-N", "host"]);
    assert!(r.warnings.iter().any(|w| w.contains("monitoring disabled")));
}

#[test]
fn d6_ipv6_monitor_host_is_bracketed() {
    let c = resolve(
        &["-M", "20000", "-N", "host"],
        &[("RASH_MONITOR_HOST", "::1")],
    )
    .config;
    assert_eq!(c.monitor_host, Host::V6([0, 0, 0, 0, 0, 0, 0, 1]));
    assert_eq!(
        ssh_args(
            &["-M", "20000", "-N", "host"],
            &[("RASH_MONITOR_HOST", "::1")]
        ),
        [
            "-L",
            "20000:[::1]:20000",
            "-R",
            "20000:[::1]:20001",
            "-N",
            "host"
        ]
    );
}

#[test]
fn background_disables_the_starting_gate() {
    // -f means nobody can type a passphrase, so a starting gate would only misfire.
    let c = resolve(&["-fN", "-M", "0", "host"], &[("AUTOSSH_GATETIME", "30")]).config;
    assert!(c.background);
    assert_eq!(secs(c.gate_time), 0);

    let c = resolve(&["-M", "0", "host"], &[("AUTOSSH_GATETIME", "0")]).config;
    assert_eq!(secs(c.gate_time), 0);
}

#[test]
fn debug_outranks_loglevel() {
    let c = resolve(
        &["-M", "0", "host"],
        &[("AUTOSSH_DEBUG", "yes"), ("AUTOSSH_LOGLEVEL", "3")],
    )
    .config;
    assert_eq!(c.log.level, Level::Debug);
    assert!(c.log.also_stderr);

    let c = resolve(&["-M", "0", "host"], &[("AUTOSSH_LOGLEVEL", "3")]).config;
    assert_eq!(c.log.level, Level::Error);
    assert!(!c.log.also_stderr);

    let c = resolve(&["-M", "0", "host"], &[("AUTOSSH_LOGFILE", "/tmp/x.log")]).config;
    assert_eq!(c.log.target, LogTarget::File(b"/tmp/x.log".to_vec()));
}

#[test]
fn rejections() {
    let bad = |args: &[&str], env: &[(&str, &str)], needle: &str| match try_resolve(args, env) {
        Err(ConfigError::Invalid(m)) => assert!(
            m.contains(needle),
            "expected {needle:?} in error, got {m:?}"
        ),
        other => panic!("expected an Invalid error containing {needle:?}, got {other:?}"),
    };

    bad(&["-M", "65535", "host"], &[], "out of range");
    bad(&["-M", "abc", "host"], &[], "invalid port");
    bad(&["-M", "20000:0", "host"], &[], "invalid echo port");
    bad(&["-M", "20000:x", "host"], &[], "invalid echo port");
    bad(
        &["-M", "1", "host"],
        &[("AUTOSSH_POLL", "0")],
        "invalid poll time",
    );
    bad(
        &["-M", "1", "host"],
        &[("AUTOSSH_POLL", "12x")],
        "invalid poll time",
    );
    bad(
        &["-M", "1", "host"],
        &[("AUTOSSH_GATETIME", "-1")],
        "invalid gate time",
    );
    bad(
        &["-M", "1", "host"],
        &[("AUTOSSH_MAXSTART", "-2")],
        "invalid max start",
    );
    bad(
        &["-M", "1", "host"],
        &[("AUTOSSH_LOGLEVEL", "8")],
        "invalid log level",
    );
    bad(
        &["-M", "1", "host"],
        &[("AUTOSSH_MESSAGE", &"x".repeat(65))],
        "64 bytes",
    );

    // 65534 is the last port that leaves room for the read port above it.
    assert_eq!(
        resolve(&["-M", "65534", "host"], &[]).config.monitor,
        Monitor::Loop { port: 65534 }
    );

    // No port anywhere is a usage error, which the binary answers with usage.
    assert_eq!(
        try_resolve(&["-N", "host"], &[]),
        Err(ConfigError::NoMonitorPort)
    );
}

#[test]
fn ssh_path_override() {
    let c = resolve(&["-M", "0", "host"], &[("AUTOSSH_PATH", "/opt/bin/ssh")]).config;
    assert_eq!(std::str::from_utf8(&c.ssh_path), Ok("/opt/bin/ssh"));

    let c = resolve(
        &["-M", "0", "host"],
        &[
            ("AUTOSSH_PATH", "/opt/bin/ssh"),
            ("RASH_SSH_PATH", "/usr/local/bin/ssh"),
        ],
    )
    .config;
    assert_eq!(std::str::from_utf8(&c.ssh_path), Ok("/usr/local/bin/ssh"));
}

#[test]
fn max_start_and_message_pass_through() {
    let c = resolve(
        &["-M", "0", "host"],
        &[("AUTOSSH_MAXSTART", "5"), ("AUTOSSH_MESSAGE", "homelab")],
    )
    .config;
    assert_eq!(c.max_start, 5);
    assert_eq!(c.message, "homelab");

    let c = resolve(&["-M", "0", "host"], &[("AUTOSSH_MAXSTART", "-1")]).config;
    assert_eq!(c.max_start, -1);
}

fn invalid(args: &[&str], env: &[(&str, &str)]) -> String {
    match try_resolve(args, env) {
        Err(ConfigError::Invalid(m)) => m,
        other => panic!("expected an Invalid error, got {other:?}"),
    }
}

#[test]
fn error_texts_are_exact() {
    let host = &["-M", "1", "host"];
    assert_eq!(
        invalid(host, &[("AUTOSSH_POLL", "12x")]),
        "invalid poll time \"12x\""
    );
    assert_eq!(
        invalid(host, &[("AUTOSSH_FIRST_POLL", "0")]),
        "invalid first poll time \"0\""
    );
    assert_eq!(
        invalid(host, &[("AUTOSSH_MAXLIFETIME", "-1")]),
        "invalid max lifetime \"-1\""
    );
    assert_eq!(
        invalid(host, &[("RASH_KILL_TIMEOUT", "")]),
        "invalid kill timeout \"\""
    );
    assert_eq!(
        invalid(host, &[("RASH_MONITOR_HOST", "localhost")]),
        "invalid monitor host \"localhost\""
    );
    assert_eq!(
        invalid(&["-M", "65535", "host"], &[]),
        "monitor port (65535) out of range"
    );
    assert_eq!(
        invalid(&["-M", "1:70000", "host"], &[]),
        "invalid echo port  \"70000\""
    );
    assert_eq!(invalid(&["-M", "1:", "host"], &[]), "invalid echo port \"\"");
    assert_eq!(
        ConfigError::NoMonitorPort.text(),
        "no monitor port given"
    );
    assert_eq!(ConfigError::Invalid("why".to_owned()).text(), "why");
}

#[test]
fn a_value_that_is_not_text_is_refused() {
    let env = ProcessEnv {
        vars: vec![(b"AUTOSSH_POLL".to_vec(), b"\xff".to_vec())],
    };
    let inv = cli::parse(&[b"-M".to_vec(), b"0".to_vec(), b"host".to_vec()]).expect("parse");
    assert_eq!(
        config::resolve(inv, &env),
        Err(ConfigError::Invalid("poll time is not valid text".to_owned()))
    );

    // A path need not be text.
    let env = ProcessEnv {
        vars: vec![(b"AUTOSSH_LOGFILE".to_vec(), b"/tmp/\xff".to_vec())],
    };
    let inv = cli::parse(&[b"-M".to_vec(), b"0".to_vec(), b"host".to_vec()]).expect("parse");
    let c = config::resolve(inv, &env).expect("resolve").config;
    assert_eq!(c.log.target, LogTarget::File(b"/tmp/\xff".to_vec()));
    assert_eq!(c.log.target.text(), "file /tmp/\u{fffd}");
}

#[test]
fn the_first_entry_for_a_variable_counts() {
    let env = ProcessEnv {
        vars: vec![
            (b"A".to_vec(), b"1".to_vec()),
            (b"B".to_vec(), b"2".to_vec()),
            (b"A".to_vec(), b"3".to_vec()),
        ],
    };
    assert_eq!(env.var("A"), Some(b"1".to_vec()));
    assert_eq!(env.var("B"), Some(b"2".to_vec()));
    assert_eq!(env.var("C"), None);
}

#[test]
fn numbers_are_read_in_base_ten() {
    assert_eq!(
        resolve(&["-M", "020000", "host"], &[]).config.monitor,
        Monitor::Loop { port: 20000 }
    );
    assert_eq!(
        resolve(&["-M", "+7", "host"], &[]).config.monitor,
        Monitor::Loop { port: 7 }
    );
    let c = resolve(&["-M", "0", "host"], &[("AUTOSSH_GATETIME", "-0")]).config;
    assert_eq!(secs(c.gate_time), 0);
}

#[test]
fn the_largest_poll_time_is_accepted() {
    let c = resolve(
        &["-M", "0", "host"],
        &[("AUTOSSH_POLL", "18446744073709551615")],
    )
    .config;
    assert_eq!(secs(c.poll), u64::MAX);
    assert_eq!(c.net_timeout, Duration::from_millis(15_000));
    assert_eq!(
        invalid(&["-M", "0", "host"], &[("AUTOSSH_POLL", "18446744073709551616")]),
        "invalid poll time \"18446744073709551616\""
    );
}

#[test]
fn every_warning() {
    let r = resolve(
        &["-M", "0", "host"],
        &[("AUTOSSH_MAXLIFETIME", "20"), ("AUTOSSH_FIRST_POLL", "40")],
    );
    assert_eq!(
        r.warnings,
        [
            "poll time is greater than lifetime, dropping poll time to 20",
            "first poll time is greater than lifetime, dropping first poll time to 20",
            "port set to 0, monitoring disabled",
            "short poll time: adjusting net timeouts to 10000",
        ]
    );
}

#[test]
fn an_empty_variable_counts_only_where_it_means_something() {
    // An empty port or pid file is none.
    let r = resolve(
        &["-M", "20000", "host"],
        &[("AUTOSSH_PORT", ""), ("AUTOSSH_PIDFILE", "")],
    );
    assert_eq!(r.config.monitor, Monitor::Loop { port: 20000 });
    assert_eq!(r.config.pid_file, None);
    // An empty RASH_PORT hides AUTOSSH_PORT.
    let r = resolve(
        &["-M", "20000", "host"],
        &[("RASH_PORT", ""), ("AUTOSSH_PORT", "30000")],
    );
    assert_eq!(r.config.monitor, Monitor::Loop { port: 20000 });
}

#[test]
fn settings_of_rash_alone() {
    let c = resolve(
        &["-M", "0", "host"],
        &[
            ("RASH_TOUCH_PIDFILE", "1"),
            ("RASH_KILL_TIMEOUT", "9"),
            ("RASH_MONITOR_HOST", "10.0.0.1"),
            ("AUTOSSH_PIDFILE", "/run/rash.pid"),
        ],
    )
    .config;
    assert!(c.touch_pid_file);
    assert_eq!(secs(c.kill_timeout), 9);
    assert_eq!(c.monitor_host, Host::V4([10, 0, 0, 1]));
    assert_eq!(c.monitor_host.text(), "10.0.0.1");
    assert_eq!(c.pid_file, Some(b"/run/rash.pid".to_vec()));
}

#[test]
fn monitor_ports_and_words() {
    let m = Monitor::Loop { port: 20000 };
    assert_eq!((m.write_port(), m.read_port()), (Some(20000), Some(20001)));
    assert_eq!(m.text(), "loop, write 20000, read 20001");
    let m = Monitor::Echo { port: 20000, echo: 7 };
    assert_eq!((m.write_port(), m.read_port()), (Some(20000), None));
    assert_eq!(m.text(), "echo, write 20000 to remote echo 7");
    let m = Monitor::Disabled;
    assert_eq!((m.write_port(), m.read_port()), (None, None));
    assert_eq!(m.text(), "disabled");
}

#[test]
fn levels_have_numbers_and_names() {
    let names = [
        "emerg", "alert", "crit", "err", "warning", "notice", "info", "debug",
    ];
    for n in 0u8..8 {
        let l = Level::from_num(n).expect("a level");
        assert_eq!(l.num(), n);
        assert_eq!(l.text(), names[n as usize]);
    }
    assert_eq!(Level::from_num(8), None);
}

#[test]
fn paths_are_pinned_down() {
    let env = [("AUTOSSH_PIDFILE", "p"), ("AUTOSSH_LOGFILE", "l")];
    let mut c = resolve(&["-M", "0", "host"], &env).config;
    c.absolutize(Some(b"/d/p".to_vec()), None);
    assert_eq!(c.pid_file, Some(b"/d/p".to_vec()));
    assert_eq!(c.log.target, LogTarget::File(b"l".to_vec()));
    c.absolutize(None, Some(b"/d/l".to_vec()));
    assert_eq!(c.log.target, LogTarget::File(b"/d/l".to_vec()));

    // What is not there is not made up.
    let mut c = resolve(&["-M", "0", "host"], &[]).config;
    c.absolutize(Some(b"/d/p".to_vec()), Some(b"/d/l".to_vec()));
    assert_eq!(c.pid_file, None);
    assert_eq!(c.log.target, LogTarget::Syslog);
}

#[test]
fn every_port_can_be_asked_for() {
    for port in (1u16..65_535).step_by(97).chain([65_534]) {
        assert_eq!(
            config::parse_monitor(&port.to_string()),
            Ok(Monitor::Loop { port })
        );
        assert_eq!(
            config::parse_monitor(&format!("{port}:65535")),
            Ok(Monitor::Echo { port, echo: 65_535 })
        );
    }
    assert_eq!(config::parse_monitor("0:7"), Ok(Monitor::Disabled));
}

#[test]
fn forwards_over_a_given_host() {
    let text = |args: Vec<Vec<u8>>| -> Vec<String> {
        args.iter()
            .map(|a| String::from_utf8_lossy(a).into_owned())
            .collect()
    };
    assert_eq!(
        text(Monitor::Loop { port: 65_534 }.forwards_over("[::1]")),
        ["-L", "65534:[::1]:65534", "-R", "65534:[::1]:65535"]
    );
    assert_eq!(
        text(Monitor::Echo { port: 1, echo: 7 }.forwards(Host::V4([10, 0, 0, 1]))),
        ["-L", "1:10.0.0.1:7"]
    );
}

#[test]
fn an_environment_of_owned_texts() {
    let env = [("RASH_POLL".to_owned(), "7".to_owned())];
    let inv = cli::parse(&[b"-M".to_vec(), b"0".to_vec(), b"host".to_vec()]).expect("parse");
    let c = config::resolve(inv, &env[..]).expect("resolve").config;
    assert_eq!(secs(c.poll), 7);
    assert_eq!(env[..].var("POLL"), None);
}

#[test]
fn a_host_that_was_read_or_not() {
    let h = Host::localhost();
    assert_eq!(config::host_or_error("127.0.0.1", Some(h)), Ok(h));
    assert_eq!(
        config::host_or_error("x", None),
        Err(ConfigError::Invalid("invalid monitor host \"x\"".to_owned()))
    );
}

#[test]
fn an_outranked_variable_has_no_effect_at_all() {
    let mine = [("RASH_POLL", "5"), ("RASH_SSH_PATH", "/a"), ("RASH_PORT", "1")];
    let both = [
        ("RASH_POLL", "5"),
        ("RASH_SSH_PATH", "/a"),
        ("RASH_PORT", "1"),
        ("AUTOSSH_POLL", "broken"),
        ("AUTOSSH_PATH", "/b"),
        ("AUTOSSH_PORT", "2"),
    ];
    assert_eq!(resolve(&["host"], &mine), resolve(&["host"], &both));
}
