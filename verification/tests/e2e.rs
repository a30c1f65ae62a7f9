//! Whole runs: the supervisor and the monitor against a scripted ssh, a scripted
//! tunnel and a clock that only moves when told to.

use rash::config::Config;
use rash::log::Line;
use rash::monitor::{self, Monitor, Prober};
use rash::settings::File;
use rash::start::{start, Start};
use rash::supervise::supervisor::{Action, Event, Phase, Supervisor};
use rash::supervise::{exit_code, Death, Sig, Verdict};
use rash::time::Duration;

/// What happens while ssh runs.
#[derive(Clone, Copy)]
enum Happens {
    /// ssh exits, after a moment.
    Exit(i32),
    /// ssh is killed by someone.
    Killed(i32),
    /// The poll timer fires.
    Tick,
    /// rash gets a signal.
    Signal(Sig),
    /// The lifetime is over.
    Deadline,
    /// Waiting for ssh fails.
    WaitFailure,
}

/// A run, and all that it did.
struct Run {
    cfg: Config,
    /// What happens while ssh runs, in order.
    script: Vec<Happens>,
    /// What happens while rash rests between two starts, in order; it rests to
    /// the end where there is nothing.
    naps: Vec<Option<Sig>>,
    /// Whether the tunnel gives back what it is given.
    tunnel: bool,
    /// Whether ssh goes when it gets SIGTERM.
    obedient: bool,
    /// Whether the lifetime is over when the clock is looked at.
    late: bool,
    /// The arguments of each start.
    starts: Vec<String>,
    log: Vec<Line>,
    rests: Vec<u64>,
    touches: usize,
    terminated: Vec<u32>,
    killed: Vec<u32>,
    children: Vec<u32>,
}

impl Run {
    fn new(args: &[&str], env: &[(&str, &str)], script: &[Happens]) -> Self {
        let argv: Vec<Vec<u8>> = args.iter().map(|a| a.as_bytes().to_vec()).collect();
        let Start::Run(resolved) = start(&argv, env, "", Ok(File::default())) else {
            panic!("expected a run");
        };
        Run {
            cfg: resolved.config,
            script: script.iter().rev().copied().collect(),
            naps: Vec::new(),
            tunnel: true,
            obedient: true,
            late: false,
            starts: Vec::new(),
            log: Vec::new(),
            rests: Vec::new(),
            touches: 0,
            terminated: Vec::new(),
            killed: Vec::new(),
            children: Vec::new(),
        }
    }

    fn logged(&self, what: &str) -> bool {
        self.log.iter().any(|l| l.text.contains(what))
    }

    fn probe(&mut self) -> bool {
        let (mut prober, mut action) = Prober::new(Monitor::new(&self.cfg));
        loop {
            let event = match action {
                monitor::Action::Finish(ok) => return ok,
                monitor::Action::Draw => monitor::Event::Drawn {
                    hostname: "here".to_owned(),
                    pid: 1,
                    nonce: self.log.len() as u64,
                },
                monitor::Action::Connect { .. } => monitor::Event::Connected,
                monitor::Action::Accept { .. } => monitor::Event::Accepted,
                monitor::Action::Exchange { message, .. } => {
                    monitor::Event::Replied(if self.tunnel { Some(message) } else { None })
                }
            };
            let step = prober.step(&self.cfg, event);
            self.log.extend(step.lines);
            action = step.action;
        }
    }

    /// Run until rash exits, or until nothing more is scripted.
    fn go(&mut self) -> Option<u8> {
        let (mut supervisor, mut action) = Supervisor::new();
        let moment = Duration::from_millis(50);
        let mut last_start = None;
        loop {
            let event = match action {
                Action::Install => Event::Installed,
                Action::Bind => Event::Bound,
                Action::Check => {
                    assert!(supervisor.can_count(&self.cfg, last_start, self.late));
                    Event::Clock {
                        since_start: last_start,
                        past_deadline: self.late,
                    }
                }
                Action::Rest(span) => {
                    self.rests.push(span.as_secs());
                    match self.naps.pop() {
                        Some(Some(sig)) => Event::Signal(sig),
                        _ => Event::Rested,
                    }
                }
                Action::Start => {
                    let args: Vec<String> = self
                        .cfg
                        .ssh_args
                        .iter()
                        .map(|a| String::from_utf8_lossy(a).into_owned())
                        .collect();
                    self.starts.push(args.join(" "));
                    let child = 100 + self.starts.len() as u32;
                    self.children.push(child);
                    last_start = Some(moment);
                    Event::Started { child: Some(child) }
                }
                Action::Begin { .. } | Action::Watch => match self.script.pop() {
                    None => {
                        assert!(matches!(supervisor.phase(), Phase::Watching { .. }));
                        return None;
                    }
                    Some(Happens::Exit(code)) => {
                        self.children.pop();
                        Event::Exited {
                            death: Death::Exit(code),
                            uptime: moment,
                        }
                    }
                    Some(Happens::Killed(sig)) => {
                        self.children.pop();
                        Event::Exited {
                            death: Death::Signal(sig),
                            uptime: moment,
                        }
                    }
                    Some(Happens::Tick) => Event::Tick,
                    Some(Happens::Signal(sig)) => Event::Signal(sig),
                    Some(Happens::Deadline) => Event::Deadline,
                    Some(Happens::WaitFailure) => Event::WaitFailed("no child".to_owned()),
                },
                Action::Probe => Event::Probed(self.probe()),
                Action::Touch => {
                    self.touches += 1;
                    if self.touches == 1 {
                        Event::TouchFailed("gone".to_owned())
                    } else {
                        Event::Touched
                    }
                }
                Action::Terminate { pid, patience } => {
                    assert_eq!(patience, self.cfg.kill_timeout);
                    self.terminated.push(pid);
                    if self.obedient {
                        self.children.pop();
                        Event::Reaped
                    } else {
                        Event::Overdue
                    }
                }
                Action::Kill { pid } => {
                    self.killed.push(pid);
                    self.children.pop();
                    Event::ReapFailed("interrupted".to_owned())
                }
                Action::Exit(verdict) => {
                    assert_eq!(supervisor.phase(), Phase::Done(verdict));
                    assert_eq!(supervisor.start_count(), self.starts.len() as u64);
                    return Some(exit_code(verdict));
                }
            };
            let step = supervisor.step(&self.cfg, event);
            self.log.extend(step.lines);
            action = step.action;
        }
    }
}

#[test]
fn a_healthy_tunnel_is_left_alone() {
    let mut r = Run::new(
        &["-M", "20000", "-N", "host"],
        &[("AUTOSSH_POLL", "1")],
        &[Happens::Tick, Happens::Tick, Happens::Signal(Sig::Hup), Happens::Tick],
    );
    assert_eq!(r.go(), None);
    assert!(r.logged("connection ok"));
    assert!(r.logged("woken by SIGHUP"));
    assert_eq!(r.starts.len(), 1, "a working tunnel must not be restarted");
    assert!(r.terminated.is_empty());
}

#[test]
fn a_wedged_tunnel_triggers_a_restart() {
    // The case the whole monitor exists for: ssh is alive and the port still
    // accepts connections, but nothing travels through it. Nothing about the
    // child process looks wrong, so only an end-to-end probe can catch it.
    let mut r = Run::new(
        &["-M", "20000", "-N", "host"],
        &[("AUTOSSH_POLL", "1"), ("AUTOSSH_GATETIME", "0")],
        &[Happens::Tick, Happens::Signal(Sig::Term)],
    );
    r.tunnel = false;
    assert_eq!(r.go(), Some(1));
    assert_eq!(r.starts.len(), 2);
    assert!(r.logged("tried connection 3 times and failed"));
    assert!(r.logged("port down, restarting ssh"));
    assert_eq!(r.terminated, [101, 102]);
}

#[test]
fn the_monitor_forwards_reach_ssh() {
    let mut r = Run::new(
        &["-M", "20000", "-N", "host"],
        &[("AUTOSSH_GATETIME", "0")],
        &[Happens::Exit(0)],
    );
    r.go();
    assert_eq!(
        r.starts,
        ["-L 20000:127.0.0.1:20000 -R 20000:127.0.0.1:20001 -N host"]
    );
}

#[test]
fn a_clean_exit_stops_rash() {
    let mut r = Run::new(
        &["-M", "0", "-N", "host"],
        &[("AUTOSSH_GATETIME", "0")],
        &[Happens::Exit(0)],
    );
    assert_eq!(r.go(), Some(0));
    assert_eq!(r.starts.len(), 1, "a clean exit should not be retried");
}

#[test]
fn a_premature_first_exit_stops_rash() {
    // The starting gate: ssh died at once on the very first try, so something is
    // wrong with the connection or the credentials and retrying would only spin.
    let mut r = Run::new(&["-M", "0", "-N", "host"], &[], &[Happens::Exit(1)]);
    assert_eq!(r.go(), Some(1));
    assert_eq!(r.starts.len(), 1);
    assert!(r.logged("exited prematurely"));
}

#[test]
fn a_dropped_connection_is_retried_until_it_succeeds() {
    let mut r = Run::new(
        &["-M", "0", "-N", "host"],
        &[("AUTOSSH_GATETIME", "0")],
        &[Happens::Exit(255), Happens::Exit(255), Happens::Exit(0)],
    );
    assert_eq!(r.go(), Some(0));
    assert_eq!(r.starts.len(), 3, "two failures then a clean exit");
}

#[test]
fn max_start_is_honoured() {
    let mut r = Run::new(
        &["-M", "0", "-N", "host"],
        &[("AUTOSSH_GATETIME", "0"), ("AUTOSSH_MAXSTART", "3")],
        &[Happens::Exit(255); 9],
    );
    assert_eq!(r.go(), Some(0));
    assert_eq!(r.starts.len(), 3);
    assert!(r.logged("max start count reached"));
    assert!(r.logged("starting ssh (count 3 of 3)"));
}

#[test]
fn no_start_at_all_can_be_allowed() {
    let mut r = Run::new(&["-M", "0", "host"], &[("AUTOSSH_MAXSTART", "0")], &[]);
    assert_eq!(r.go(), Some(0));
    assert!(r.starts.is_empty());
}

#[test]
fn sigterm_stops_rash_and_reaps_ssh() {
    for sig in [Sig::Term, Sig::Int, Sig::Quit] {
        let mut r = Run::new(&["-M", "0", "-N", "host"], &[], &[Happens::Signal(sig)]);
        assert_eq!(r.go(), Some(1));
        assert!(r.logged("received signal to exit"));
        assert_eq!(r.terminated, [101]);
        assert!(r.killed.is_empty());
        assert!(r.children.is_empty(), "ssh outlived rash");
    }
}

#[test]
fn sigusr1_restarts_ssh_without_stopping_rash() {
    let mut r = Run::new(
        &["-M", "0", "-N", "host"],
        &[],
        &[Happens::Signal(Sig::Usr1), Happens::Signal(Sig::Term)],
    );
    assert_eq!(r.go(), Some(1));
    assert_eq!(r.starts.len(), 2);
    assert!(r.logged("signalled to kill and restart ssh"));
    assert!(r.children.is_empty());
}

#[test]
fn d11_a_child_that_ignores_sigterm_is_killed() {
    let mut r = Run::new(
        &["-M", "0", "-N", "host"],
        &[("RASH_KILL_TIMEOUT", "1")],
        &[Happens::Signal(Sig::Term)],
    );
    r.obedient = false;
    assert_eq!(r.go(), Some(1));
    assert!(r.logged("ssh 101 ignored SIGTERM after 1s; sending SIGKILL"));
    assert!(r.logged("waitpid() not successful: interrupted"));
    assert_eq!(r.terminated, [101]);
    assert_eq!(r.killed, [101]);
    assert!(r.children.is_empty(), "the wedged ssh survived");
}

#[test]
fn max_lifetime_shuts_rash_down() {
    let mut r = Run::new(
        &["-M", "0", "-N", "host"],
        &[("AUTOSSH_MAXLIFETIME", "2")],
        &[Happens::Tick, Happens::Deadline],
    );
    assert_eq!(r.go(), Some(0));
    assert!(r.logged("exceeded maximum time to live"));
    assert_eq!(r.terminated, [101]);

    // It is looked at between two starts as well.
    let mut r = Run::new(
        &["-M", "0", "-N", "host"],
        &[("AUTOSSH_MAXLIFETIME", "2")],
        &[],
    );
    r.late = true;
    assert_eq!(r.go(), Some(0));
    assert!(r.starts.is_empty());
}

#[test]
fn the_ssh_command_line_is_what_dry_run_promised() {
    let args = ["-M", "0", "-N", "-p", "2222", "me@host"];
    let mut r = Run::new(&args, &[("AUTOSSH_GATETIME", "0")], &[Happens::Exit(0)]);
    r.go();
    assert_eq!(r.starts, ["-N -p 2222 me@host"]);

    let mut argv: Vec<Vec<u8>> = args.iter().map(|a| a.as_bytes().to_vec()).collect();
    argv.push(b"--dry-run".to_vec());
    let env: &[(&str, &str)] = &[];
    let Start::Stop { out, .. } = start(&argv, env, "", Ok(File::default())) else {
        panic!("expected a plan");
    };
    assert!(out.contains("\n    /usr/bin/ssh -N -p 2222 me@host\n"));
}

#[test]
fn in_the_background_dash_f_is_kept_from_ssh() {
    let mut r = Run::new(
        &["-M", "0", "-fN", "-p", "2222", "me@host"],
        &[("AUTOSSH_MAXLIFETIME", "30")],
        // There is no starting gate in the background.
        &[Happens::Exit(255), Happens::Deadline],
    );
    assert!(r.cfg.background);
    assert_eq!(r.go(), Some(0));
    assert_eq!(r.starts, ["-N -p 2222 me@host", "-N -p 2222 me@host"]);
}

#[test]
fn a_child_killed_by_someone_else_is_restarted() {
    let mut r = Run::new(
        &["-M", "0", "host"],
        &[],
        &[Happens::Killed(9), Happens::Exit(0)],
    );
    assert_eq!(r.go(), Some(0));
    assert_eq!(r.starts.len(), 2);
    assert!(r.logged("ssh exited on signal 9, restarting ssh"));
}

#[test]
fn quick_restarts_are_spaced_apart() {
    let mut r = Run::new(
        &["-M", "0", "host"],
        &[("AUTOSSH_GATETIME", "0"), ("AUTOSSH_MAXSTART", "9")],
        &[Happens::Exit(255); 9],
    );
    assert_eq!(r.go(), Some(0));
    // Six starts without a rest, the first one included, and then the curve.
    assert_eq!(r.rests, [2, 8, 18]);
    assert!(r.logged("sleeping for grace time 18 secs"));
    assert!(r.logged("checking for grace period, tries = 8"));
}

#[test]
fn a_signal_cuts_a_rest_short() {
    let run = |nap| {
        let mut r = Run::new(
            &["-M", "0", "host"],
            &[("AUTOSSH_GATETIME", "0")],
            &[Happens::Exit(255); 7],
        );
        r.naps = vec![nap];
        let code = r.go();
        (code, r)
    };
    let (code, r) = run(Some(Sig::Hup));
    assert_eq!(code, None);
    assert!(r.logged("SIGHUP during backoff; retrying now"));
    assert_eq!(r.starts.len(), 8);

    let (code, r) = run(Some(Sig::Int));
    assert_eq!(code, Some(1));
    assert!(r.logged("received signal to exit (SIGINT)"));
    assert_eq!(r.starts.len(), 6);
}

#[test]
fn the_pid_file_is_touched_after_a_good_check() {
    let env = [("RASH_TOUCH_PIDFILE", "1"), ("AUTOSSH_PIDFILE", "/run/p")];
    let mut r = Run::new(
        &["-M", "20000", "host"],
        &env,
        &[Happens::Tick, Happens::Tick],
    );
    r.go();
    assert_eq!(r.touches, 2);
    assert!(r.logged("could not touch pid file: gone"));

    // Without a pid file there is nothing to touch.
    let mut r = Run::new(&["-M", "0", "host"], &env[..1], &[Happens::Tick]);
    r.go();
    assert_eq!(r.touches, 0);
    assert!(r.logged("check on child 101"));
}

#[test]
fn what_fails_before_and_around_ssh_ends_the_run() {
    let cfg = Run::new(&["-M", "0", "host"], &[], &[]).cfg;

    let (mut s, action) = Supervisor::new();
    assert_eq!(action, Action::Install);
    let step = s.step(&cfg, Event::InstallFailed("no".to_owned()));
    assert_eq!(step.action, Action::Exit(Verdict::ExitErr));
    assert_eq!(step.lines[0].text, "cannot install signal handlers: no");

    let (mut s, _) = Supervisor::new();
    s.step(&cfg, Event::Installed);
    let step = s.step(&cfg, Event::BindFailed("in use".to_owned()));
    assert_eq!(step.action, Action::Exit(Verdict::ExitErr));
    assert_eq!(step.lines[0].text, "cannot open monitor socket: in use");

    let (mut s, _) = Supervisor::new();
    s.step(&cfg, Event::Installed);
    s.step(&cfg, Event::Bound);
    let step = s.step(
        &cfg,
        Event::Clock {
            since_start: None,
            past_deadline: false,
        },
    );
    assert_eq!(step.action, Action::Start);
    let step = s.step(&cfg, Event::StartFailed("not found".to_owned()));
    assert_eq!(step.action, Action::Exit(Verdict::ExitErr));
    assert_eq!(step.lines[0].text, "/usr/bin/ssh: not found");

    let mut r = Run::new(&["-M", "0", "host"], &[], &[Happens::WaitFailure]);
    assert_eq!(r.go(), Some(1));
    assert!(r.logged("waiting on ssh: no child"));
}

#[test]
fn a_child_without_an_id_is_not_signalled() {
    let cfg = Run::new(&["-M", "0", "host"], &[], &[]).cfg;
    let (mut s, _) = Supervisor::new();
    s.step(&cfg, Event::Installed);
    s.step(&cfg, Event::Bound);
    s.step(
        &cfg,
        Event::Clock {
            since_start: None,
            past_deadline: false,
        },
    );
    let step = s.step(&cfg, Event::Started { child: None });
    assert_eq!(
        step.action,
        Action::Begin {
            first: Duration::from_secs(600),
            every: Duration::from_secs(600)
        }
    );
    assert_eq!(step.lines[0].text, "ssh child pid is 0");
    let step = s.step(&cfg, Event::Signal(Sig::Usr1));
    assert_eq!(step.action, Action::Check);
}
