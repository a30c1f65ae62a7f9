//! What a command line leads to.

use rash::config::{LogTarget, Monitor};
use rash::settings::{File, Section, Spec};
use rash::start::{start, Start, USAGE, VERSION};

const MAN: &str = ".Dd now\n.Dt RASH 1\n.Os\n.Sh SYNOPSIS\n";

fn started(args: &[&str], env: &[(&str, &str)]) -> Start {
    let argv: Vec<Vec<u8>> = args.iter().map(|a| a.as_bytes().to_vec()).collect();
    start(&argv, env, MAN, Ok(File::default()))
}

fn started_with(args: &[&str], env: &[(&str, &str)], file: Result<File, String>) -> Start {
    let argv: Vec<Vec<u8>> = args.iter().map(|a| a.as_bytes().to_vec()).collect();
    start(&argv, env, MAN, file)
}

/// A file with two sessions.
fn file() -> File {
    let mut f = File::default();
    f.defaults.poll = Some(300);
    f.defaults.loglevel = Some("notice".to_owned());
    let mut s = Section::default();
    s.monitor = Some(Spec::Port(20000));
    s.ssh_args = Some(vec!["-N".to_owned(), "me@host".to_owned()]);
    s.message = Some("homelab".to_owned());
    s.maxstart = Some(-1);
    s.log = Some("stderr".to_owned());
    f.insert("homelab".to_owned(), s);
    let mut s = Section::default();
    s.monitor = Some(Spec::Text("0".to_owned()));
    s.log = Some("/var/log/rash".to_owned());
    s.loglevel = Some("3".to_owned());
    s.poll = Some(0);
    f.insert("broken".to_owned(), s);
    f
}

fn printed(out: &str) -> Start {
    Start::Stop {
        out: out.to_owned(),
        err: String::new(),
        code: 0,
    }
}

fn refused(err: &str) -> Start {
    Start::Stop {
        out: String::new(),
        err: err.to_owned(),
        code: 1,
    }
}

#[test]
fn questions_are_answered() {
    assert_eq!(started(&["-V"], &[]), printed(&format!("rash {VERSION}\n")));
    assert_eq!(started(&["--help"], &[]), printed(USAGE));
    assert!(USAGE.starts_with("usage: rash [-V]"));
    assert!(USAGE.ends_with("RASH_TOUCH_PIDFILE.\n"));
    // Even with a broken environment.
    assert_eq!(started(&["--help"], &[("AUTOSSH_POLL", "x")]), printed(USAGE));
}

#[test]
fn it_writes_the_manual_page_and_nothing_else() {
    // No monitor port, no destination: --man has to return before rash starts
    // insisting on either.
    assert_eq!(started(&["--man"], &[]), printed(MAN));
}

#[test]
fn a_bare_rash_is_a_usage_error() {
    assert_eq!(started(&[], &[]), refused(USAGE));
    assert_eq!(started(&["-M", "0"], &[]), refused(USAGE));
    assert_eq!(started(&["host"], &[]), refused(USAGE));
}

#[test]
fn errors_are_told() {
    assert_eq!(
        started(&["--nope"], &[]),
        refused("rash: unknown option --nope\n")
    );
    assert_eq!(
        started(&["-M", "x", "host"], &[]),
        refused("rash: invalid port \"x\"\n")
    );
}

#[test]
fn a_run() {
    let Start::Run(r) = started(&["-M", "0", "-N", "host"], &[]) else {
        panic!("expected a run");
    };
    assert_eq!(r.config.ssh_args, [b"-N".to_vec(), b"host".to_vec()]);
}

#[test]
fn a_dry_run_shows_everything() {
    let out = format!(
        "rash {VERSION} — dry run, nothing is executed\n\
         \n\
         ssh command:\n    \
             /usr/bin/ssh -L 20000:127.0.0.1:20000 -R 20000:127.0.0.1:20001 -N 'me@a host'\n\
         \n\
         monitor:       loop, write 20000, read 20001\n\
         monitor host:  127.0.0.1\n\
         poll:          600s (first 10s)\n\
         net timeout:   15000ms\n\
         gate time:     30s\n\
         max starts:    unlimited\n\
         max lifetime:  unlimited\n\
         kill timeout:  5s\n\
         background:    false\n\
         pid file:      (none)\n\
         message:       (none)\n\
         log:           syslog at level info\n"
    );
    assert_eq!(
        started(
            &["--dry-run", "-M", "20000", "-N", "me@a host"],
            &[("AUTOSSH_FIRST_POLL", "10")]
        ),
        printed(&out)
    );
}

#[test]
fn a_dry_run_shows_every_other_setting_too() {
    let out = format!(
        "rash {VERSION} — dry run, nothing is executed\n\
         \n\
         ssh command:\n    \
             /opt/ssh host\n\
         \n\
         monitor:       disabled\n\
         monitor host:  ::1\n\
         poll:          20s (first 20s)\n\
         net timeout:   10000ms\n\
         gate time:     disabled\n\
         max starts:    3\n\
         max lifetime:  90s\n\
         kill timeout:  1s\n\
         background:    true\n\
         pid file:      /run/rash.pid (touched)\n\
         message:       homelab\n\
         log:           file /tmp/l at level debug (also stderr)\n\
         \n\
         warning: port set to 0, monitoring disabled\n\
         \n\
         warning: short poll time: adjusting net timeouts to 10000\n"
    );
    assert_eq!(
        started(
            &["--dry-run", "-f", "-M", "0", "host"],
            &[
                ("AUTOSSH_PATH", "/opt/ssh"),
                ("RASH_MONITOR_HOST", "::1"),
                ("AUTOSSH_POLL", "20"),
                ("AUTOSSH_MAXSTART", "3"),
                ("AUTOSSH_MAXLIFETIME", "90"),
                ("RASH_KILL_TIMEOUT", "1"),
                ("AUTOSSH_PIDFILE", "/run/rash.pid"),
                ("RASH_TOUCH_PIDFILE", "1"),
                ("AUTOSSH_MESSAGE", "homelab"),
                ("AUTOSSH_LOGFILE", "/tmp/l"),
                ("AUTOSSH_DEBUG", "1"),
            ]
        ),
        printed(&out)
    );
}

#[test]
fn ssh_gets_its_arguments_unchanged() {
    let args = ["-i", "-f", "-Zq", "-L", "8080:localhost:80", "host", "screen", "-D"];
    let Start::Run(r) = started(&args, &[("AUTOSSH_PORT", "0")]) else {
        panic!("expected a run");
    };
    let want: Vec<Vec<u8>> = args.iter().map(|a| a.as_bytes().to_vec()).collect();
    assert_eq!(r.config.ssh_args, want);

    let Start::Run(r) = started(&args, &[("AUTOSSH_PORT", "20000:7")]) else {
        panic!("expected a run");
    };
    assert_eq!(r.config.ssh_args[..2], [b"-L".to_vec(), b"20000:127.0.0.1:7".to_vec()]);
    assert_eq!(r.config.ssh_args[2..], want);
}

#[test]
fn list_prints_the_session_names() {
    assert_eq!(
        started_with(&["--list"], &[], Ok(file())),
        printed("broken\nhomelab\n")
    );
    assert_eq!(started(&["--list"], &[]), printed(""));
    // Nothing is run, whatever else was asked for.
    assert_eq!(
        started_with(&["--list", "-M", "0", "host"], &[("AUTOSSH_POLL", "x")], Ok(file())),
        printed("broken\nhomelab\n")
    );
    assert_eq!(
        started_with(&["--list"], &[], Err("/etc/rash.toml: denied".to_owned())),
        refused("rash: /etc/rash.toml: denied\n")
    );
    // The other questions come first.
    assert_eq!(
        started_with(&["--list", "--help"], &[], Err("denied".to_owned())),
        printed(USAGE)
    );
}

#[test]
fn a_session_needs_nothing_else() {
    let Start::Run(r) = started_with(&["--session", "homelab"], &[], Ok(file())) else {
        panic!("expected a run");
    };
    let c = r.config;
    let args: Vec<String> = c
        .ssh_args
        .iter()
        .map(|a| String::from_utf8_lossy(a).into_owned())
        .collect();
    assert_eq!(
        args,
        [
            "-L",
            "20000:127.0.0.1:20000",
            "-R",
            "20000:127.0.0.1:20001",
            "-N",
            "me@host"
        ]
    );
    assert_eq!(c.poll.as_secs(), 300);
    assert_eq!(c.first_poll.as_secs(), 300);
    assert_eq!(c.message, "homelab");
    assert_eq!(c.max_start, -1);
    assert_eq!(c.log.level.text(), "notice");
    assert_eq!(c.log.target, LogTarget::Stderr);
}

#[test]
fn options_and_variables_win_over_a_session() {
    let Start::Run(r) = started_with(
        &["--session=homelab", "-q", "-M", "30000", "other"],
        &[("AUTOSSH_POLL", "60"), ("RASH_MESSAGE", "mine"), ("AUTOSSH_LOGFILE", "/l")],
        Ok(file()),
    ) else {
        panic!("expected a run");
    };
    let c = r.config;
    assert_eq!(c.monitor, Monitor::Loop { port: 30000 });
    // -M keeps its place.
    assert_eq!(c.ssh_args[0], b"-q");
    assert_eq!(c.ssh_args[5], b"other");
    assert_eq!(c.poll.as_secs(), 60);
    assert_eq!(c.message, "mine");
    assert_eq!(c.log.target, LogTarget::File(b"/l".to_vec()));

    let Start::Run(r) = started_with(
        &["--session=homelab"],
        &[("AUTOSSH_PORT", "0")],
        Ok(file()),
    ) else {
        panic!("expected a run");
    };
    assert_eq!(r.config.monitor, Monitor::Disabled);
}

#[test]
fn the_defaults_of_a_file_apply_without_a_session() {
    let Start::Run(r) = started_with(&["-M", "0", "host"], &[], Ok(file())) else {
        panic!("expected a run");
    };
    assert_eq!(r.config.poll.as_secs(), 300);
    assert_eq!(r.config.log.level.text(), "notice");
    assert_eq!(r.config.log.target, LogTarget::Syslog);
}

#[test]
fn a_session_can_be_wrong() {
    assert_eq!(
        started_with(&["--session", "nope", "-M", "0", "host"], &[], Ok(file())),
        refused(
            "rash: no session named \"nope\" in the config file (it has: broken, homelab)\n"
        )
    );
    assert_eq!(
        started_with(&["--session", "broken", "host"], &[], Ok(file())),
        refused("rash: invalid poll time \"0\"\n")
    );
    // A session without arguments for ssh needs some.
    assert_eq!(
        started_with(&["--session", "broken"], &[], Ok(file())),
        refused(USAGE)
    );
    assert_eq!(
        started_with(&["-M", "0", "host"], &[], Err("c: bad".to_owned())),
        refused("rash: c: bad\n")
    );
}

#[test]
fn every_setting_of_a_section_counts() {
    let mut f = File::default();
    f.defaults = Section {
        monitor: Some(Spec::Text("20000:7".to_owned())),
        ssh_args: Some(vec!["host".to_owned()]),
        ssh_path: Some(b"/opt/ssh".to_vec()),
        poll: Some(100),
        first_poll: Some(10),
        gatetime: Some(3),
        maxstart: Some(4),
        maxlifetime: Some(500),
        message: Some("m".to_owned()),
        pidfile: Some(b"/run/p".to_vec()),
        monitor_host: Some("::1".to_owned()),
        kill_timeout: Some(9),
        log: Some("/var/log/r".to_owned()),
        log_format: Some("text".to_owned()),
        loglevel: Some("debug".to_owned()),
    };
    let Start::Run(r) = started_with(&[], &[], Ok(f)) else {
        panic!("expected a run");
    };
    let c = r.config;
    assert_eq!(c.monitor, Monitor::Echo { port: 20000, echo: 7 });
    assert_eq!(c.monitor_host.text(), "::1");
    assert_eq!(c.ssh_path, b"/opt/ssh");
    assert_eq!((c.poll.as_secs(), c.first_poll.as_secs()), (100, 10));
    assert_eq!(c.gate_time.as_secs(), 3);
    assert_eq!(c.max_start, 4);
    assert_eq!(c.max_lifetime.map(|d| d.as_secs()), Some(500));
    assert_eq!(c.message, "m");
    assert_eq!(c.pid_file, Some(b"/run/p".to_vec()));
    assert_eq!(c.kill_timeout.as_secs(), 9);
    assert_eq!(c.log.target, LogTarget::File(b"/var/log/r".to_vec()));
    assert_eq!(c.log.level.text(), "debug");
    assert!(!c.log.also_stderr);
    assert_eq!(c.ssh_args[2], b"host");
}

#[test]
fn every_level_can_be_named() {
    for (n, name) in ["emerg", "alert", "crit", "err", "warning", "notice", "info", "debug"]
        .iter()
        .enumerate()
    {
        for written in [(*name).to_owned(), n.to_string()] {
            let mut f = File::default();
            f.defaults.loglevel = Some(written);
            let Start::Run(r) = started_with(&["-M", "0", "host"], &[], Ok(f)) else {
                panic!("expected a run");
            };
            assert_eq!(r.config.log.level.text(), *name);
        }
    }
    let mut f = File::default();
    f.defaults.loglevel = Some("loud".to_owned());
    assert_eq!(
        started_with(&["-M", "0", "host"], &[], Ok(f)),
        refused("rash: invalid log level \"loud\"\n")
    );
}

#[test]
fn a_variable_set_to_nothing_does_not_hide_a_session() {
    let mut f = file();
    f.defaults.pidfile = Some(b"/run/p".to_vec());
    for name in ["AUTOSSH_PORT", "RASH_PORT"] {
        let env = [(name, ""), ("AUTOSSH_PIDFILE", ""), ("RASH_PIDFILE", "")];
        let Start::Run(r) = started_with(&["--session", "homelab"], &env, Ok(f.clone())) else {
            panic!("expected a run");
        };
        assert_eq!(r.config.monitor, Monitor::Loop { port: 20000 });
        assert_eq!(r.config.pid_file, Some(b"/run/p".to_vec()));
    }

    // An empty RASH_PORT hides AUTOSSH_PORT, and so the session's port counts.
    let env = [("RASH_PORT", ""), ("AUTOSSH_PORT", "30000")];
    let Start::Run(r) = started_with(&["--session", "homelab"], &env, Ok(f.clone())) else {
        panic!("expected a run");
    };
    assert_eq!(r.config.monitor, Monitor::Loop { port: 20000 });

    // Without a session to say so there is no port, and no pid file.
    assert_eq!(started(&["host"], &env), refused(USAGE));
    let env = [("RASH_PIDFILE", ""), ("AUTOSSH_PIDFILE", "/run/q")];
    let Start::Run(r) = started(&["-M", "0", "host"], &env) else {
        panic!("expected a run");
    };
    assert_eq!(r.config.pid_file, None);

    // Where nothing is a value like any other, it wins.
    let Start::Run(r) = started_with(
        &["--session", "homelab"],
        &[("AUTOSSH_MESSAGE", "")],
        Ok(f),
    ) else {
        panic!("expected a run");
    };
    assert_eq!(r.config.message, "");
}
