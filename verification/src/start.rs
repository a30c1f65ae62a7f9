//! From the command line, the environment and the configuration file to a run, or
//! to what is printed instead of one.

use crate::cli::laws::{foreign_from, law_foreign_arguments_pass_through};
use crate::cli::{self, blank, split, Invocation, InvocationView, ParseErrorView};
use crate::config::laws::{law_monitoring_off_adds_nothing, law_where_the_forwards_go};
use crate::config::{
    lookups, monitor_choice, resolution, ConfigError, ConfigErrorView, EnvSource, Lookup, Resolved,
    ResolvedView,
};
use crate::layers::{
    law_an_empty_section_changes_nothing, layered, merge, merged, port_of, resolution_over,
    resolve_over,
};
use crate::plan::{plan_text, print_plan};
use crate::settings::{effective, nothing_set, File, FileView, Section, SectionView};
use crate::text::{concat3, contents};
use vstd::prelude::*;

verus! {

/// The version of rash.
pub const VERSION: &'static str = "0.1.0";

/// How rash is used.
pub const USAGE: &'static str = "\
usage: rash [-V] [-M monitor_port[:echo_port]] [-f] [SSH_OPTIONS]

    -M  monitor port. May be overridden by AUTOSSH_PORT (or RASH_PORT).
        0 turns the monitoring loop off. Alternatively a port for an echo
        service on the remote machine may be given (normally port 7).
    -f  run in background. rash handles this itself and does not pass it
        to ssh. Implies a gate time of 0.
    -V  print version and exit.

    --dry-run  print the ssh command and resolved settings, then exit.
    --monitor SPEC  as -M, but takes precedence over it.

All other options are passed through to ssh unchanged.

Environment variables (each also accepted as RASH_*, which takes precedence):

    AUTOSSH_DEBUG        log at maximum verbosity, and to stderr
    AUTOSSH_FIRST_POLL   seconds before the first connection check
    AUTOSSH_GATETIME     seconds ssh must stay up to count as established (30)
    AUTOSSH_LOGFILE      log to this file rather than syslog
    AUTOSSH_LOGLEVEL     syslog verbosity, 0-7
    AUTOSSH_MAXLIFETIME  maximum seconds to live before shutting down
    AUTOSSH_MAXSTART     how many times to start ssh; negative means no limit
    AUTOSSH_MESSAGE      message appended to the echo string (max 64 bytes)
    AUTOSSH_PATH         path to ssh, if not /usr/bin/ssh
    AUTOSSH_PIDFILE      write the rash pid to this file
    AUTOSSH_POLL         seconds between connection checks (600)
    AUTOSSH_PORT         monitor port; overrides -M

rash-only variables: RASH_KILL_TIMEOUT, RASH_MONITOR_HOST, RASH_TOUCH_PIDFILE.
";

/// What a command line leads to.
#[derive(Debug, PartialEq, Eq)]
pub enum Start {
    /// Print this to stdout and that to stderr, and exit with a status.
    Stop { out: String, err: String, code: u8 },
    /// Run.
    Run(Resolved),
}

/// What a [`Start`] holds.
#[verifier::ext_equal]
pub enum StartView {
    Stop { out: Seq<char>, err: Seq<char>, code: u8 },
    Run(ResolvedView),
}

impl View for Start {
    type V = StartView;

    open spec fn view(&self) -> StartView {
        match *self {
            Start::Stop { out, err, code } => StartView::Stop { out: out@, err: err@, code },
            Start::Run(r) => StartView::Run(r@),
        }
    }
}

/// Something that was asked for is printed.
pub open spec fn answered(out: Seq<char>) -> StartView {
    StartView::Stop { out, err: Seq::empty(), code: 0 }
}

/// Something is wrong, and this is said about it.
pub open spec fn refused(err: Seq<char>) -> StartView {
    StartView::Stop { out: Seq::empty(), err, code: 1 }
}

/// An error as a line on stderr.
pub open spec fn complaint(e: Seq<char>) -> Seq<char> {
    "rash: "@ + e + "\n"@
}

/// The names of the sessions, one per line.
pub open spec fn listed(names: Seq<Seq<char>>) -> Seq<char>
    decreases names.len(),
{
    if names.len() == 0 {
        Seq::empty()
    } else {
        listed(names.drop_last()) + names.last() + "\n"@
    }
}

/// What reading the configuration file came to.
pub open spec fn file_in(file: Result<File, String>) -> Result<FileView, Seq<char>> {
    match file {
        Ok(f) => Ok(f@),
        Err(e) => Err(e@),
    }
}

/// What an invocation leads to that asks for a run, with a section of the
/// configuration file beneath it.
pub open spec fn launched(inv: InvocationView, env: Lookup, section: SectionView) -> StartView {
    if merged(inv, section).ssh_args.len() == 0 {
        // A monitor port alone is not enough: there has to be something to hand to
        // ssh.
        refused(USAGE@)
    } else {
        match resolution_over(inv, env, section) {
            Err(ConfigErrorView::NoMonitorPort) => refused(USAGE@),
            Err(e) => refused(complaint(e.shown())),
            Ok(r) => if r.config.dry_run {
                answered(plan_text(VERSION@, r))
            } else {
                StartView::Run(r)
            },
        }
    }
}

/// What a command line and an environment lead to. `man` is the manual page, and
/// `file` the configuration file, or why it could not be loaded.
pub open spec fn started<E: EnvSource + ?Sized>(
    argv: Seq<Seq<u8>>,
    env: &E,
    man: Seq<char>,
    file: Result<FileView, Seq<char>>,
) -> StartView {
    match split(argv) {
        Err(e) => refused(complaint(e.shown())),
        Ok(inv) => if inv.version {
            answered("rash "@ + VERSION@ + "\n"@)
        } else if inv.help {
            answered(USAGE@)
        } else if inv.man {
            answered(man)
        } else {
            match file {
                Err(e) => refused(complaint(e)),
                Ok(f) => if inv.list {
                    answered(listed(f.names()))
                } else {
                    match effective(f, inv.session) {
                        Err(e) => refused(complaint(e)),
                        Ok(section) => launched(inv, lookups(env), section),
                    }
                },
            }
        },
    }
}

fn answer(out: String) -> (s: Start)
    ensures
        s@ == answered(out@),
{
    let err = String::new();
    assert(err@ =~= Seq::empty());
    Start::Stop { out, err, code: 0 }
}

fn refuse(err: String) -> (s: Start)
    ensures
        s@ == refused(err@),
{
    let out = String::new();
    assert(out@ =~= Seq::empty());
    Start::Stop { out, err, code: 1 }
}

fn complain(e: String) -> (s: String)
    ensures
        s@ == complaint(e@),
{
    concat3("rash: ", e.as_str(), "\n")
}

/// The names of the sessions, one per line.
fn list(file: &File) -> (s: String)
    ensures
        s@ == listed(file@.names()),
{
    let names = file.session_names();
    let ghost all = file@.names();
    let mut s = String::new();
    let mut i: usize = 0;
    assert(all.len() == names@.map_values(|s: &str| s@).len());
    assert(s@ =~= listed(all.take(0)));
    while i < names.len()
        invariant
            i <= names.len(),
            all.len() == names.len(),
            all == names@.map_values(|s: &str| s@),
            s@ == listed(all.take(i as int)),
        decreases names.len() - i,
    {
        s.append(names[i]);
        s.append("\n");
        proof {
            let upto = all.take(i + 1);
            assert(upto.drop_last() =~= all.take(i as int));
            assert(upto.last() == names@[i as int]@);
        }
        i = i + 1;
    }
    assert(all.take(i as int) =~= all);
    s
}

/// Decide what an invocation leads to that asks for a run.
fn launch<E: EnvSource + ?Sized>(inv: Invocation, env: &E, section: &Section) -> (s: Start)
    ensures
        s@ == launched(inv@, lookups(env), section@),
        s matches Start::Run(r) ==> r@.config.wf(),
{
    let mut inv = inv;
    let ghost asked = inv@;
    merge(&mut inv, section);
    if inv.ssh_args.len() == 0 {
        return refuse(USAGE.to_owned());
    }
    assert(resolution_over(inv@, lookups(env), section@) == resolution_over(
        asked,
        lookups(env),
        section@,
    ));
    let resolved = match resolve_over(inv, env, section) {
        Ok(r) => r,
        Err(ConfigError::NoMonitorPort) => {
            return refuse(USAGE.to_owned());
        },
        Err(e) => {
            return refuse(complain(e.text()));
        },
    };
    if resolved.config.dry_run {
        return answer(print_plan(VERSION, &resolved));
    }
    Start::Run(resolved)
}

/// Decide what a command line and an environment lead to. `man` is the manual
/// page, and `file` the configuration file, or why it could not be loaded.
pub fn start<E: EnvSource + ?Sized>(
    argv: &[Vec<u8>],
    env: &E,
    man: &str,
    file: Result<File, String>,
) -> (s: Start)
    ensures
        s@ == started(contents(argv@), env, man@, file_in(file)),
        s matches Start::Run(r) ==> r@.config.wf(),
{
    let inv = match cli::parse(argv) {
        Ok(inv) => inv,
        Err(e) => {
            return refuse(complain(e.text()));
        },
    };
    if inv.version {
        return answer(concat3("rash ", VERSION, "\n"));
    }
    if inv.help {
        return answer(USAGE.to_owned());
    }
    if inv.man {
        return answer(man.to_owned());
    }
    let file = match file {
        Ok(f) => f,
        Err(e) => {
            return refuse(complain(e));
        },
    };
    if inv.list {
        return answer(list(&file));
    }
    let session = match &inv.session {
        Some(name) => Some(name.as_str()),
        None => None,
    };
    let section = match file.section(session) {
        Ok(s) => s,
        Err(e) => {
            return refuse(complain(e));
        },
    };
    launch(inv, env, &section)
}

// -------------------------------------------------------------------- laws

/// `--version`, `--help` and `--man` are answered whatever else is missing, and
/// whatever the environment and the configuration file hold.
pub proof fn law_questions_are_always_answered<E: EnvSource + ?Sized>(
    argv: Seq<Seq<u8>>,
    env: &E,
    man: Seq<char>,
    file: Result<FileView, Seq<char>>,
)
    requires
        split(argv) is Ok,
        ({
            let inv = split(argv)->Ok_0;
            inv.version || inv.help || inv.man
        }),
    ensures
        started(argv, env, man, file) matches StartView::Stop { out, err, code } && code == 0
            && err == Seq::<char>::empty(),
{
}

/// `--list` prints the names of the sessions, one per line, and runs nothing,
/// whatever else is missing.
pub proof fn law_list_prints_the_sessions<E: EnvSource + ?Sized>(
    argv: Seq<Seq<u8>>,
    env: &E,
    man: Seq<char>,
    f: FileView,
)
    requires
        split(argv) is Ok,
        ({
            let inv = split(argv)->Ok_0;
            inv.list && !inv.version && !inv.help && !inv.man
        }),
    ensures
        started(argv, env, man, Ok(f)) == answered(listed(f.names())),
{
}

/// Without a configuration file, or with one that sets nothing, the command line and
/// the environment decide alone.
pub proof fn law_an_empty_file_changes_nothing<E: EnvSource + ?Sized>(
    argv: Seq<Seq<u8>>,
    env: &E,
    man: Seq<char>,
)
    requires
        split(argv) is Ok,
        split(argv)->Ok_0.session is None,
    ensures
        ({
            let inv = split(argv)->Ok_0;
            let f = FileView { defaults: nothing_set(), sessions: Seq::empty() };
            let s = started(argv, env, man, Ok(f));
            !inv.version && !inv.help && !inv.man && !inv.list ==> {
                &&& inv.ssh_args.len() == 0 ==> s == refused(USAGE@)
                &&& inv.ssh_args.len() > 0 ==> s == match resolution(inv, lookups(env)) {
                    Err(ConfigErrorView::NoMonitorPort) => refused(USAGE@),
                    Err(e) => refused(complaint(e.shown())),
                    Ok(r) => if r.config.dry_run {
                        answered(plan_text(VERSION@, r))
                    } else {
                        StartView::Run(r)
                    },
                }
            }
        }),
{
    law_an_empty_section_changes_nothing(split(argv)->Ok_0, lookups(env));
}

/// A session that the file does not have is never run.
pub proof fn law_a_missing_session_is_refused<E: EnvSource + ?Sized>(
    argv: Seq<Seq<u8>>,
    env: &E,
    man: Seq<char>,
    f: FileView,
)
    requires
        split(argv) is Ok,
        split(argv)->Ok_0.session matches Some(name) && f.session(name) is None,
    ensures
        started(argv, env, man, Ok(f)) is Stop,
{
}

/// Nothing runs without a monitor port and something to hand to ssh.
pub proof fn law_a_run_has_all_it_needs<E: EnvSource + ?Sized>(
    argv: Seq<Seq<u8>>,
    env: &E,
    man: Seq<char>,
    file: Result<FileView, Seq<char>>,
)
    requires
        started(argv, env, man, file) is Run,
    ensures
        split(argv) is Ok,
        file is Ok,
        effective(file->Ok_0, split(argv)->Ok_0.session) is Ok,
        ({
            let inv = split(argv)->Ok_0;
            let section = effective(file->Ok_0, inv.session)->Ok_0;
            &&& merged(inv, section).ssh_args.len() > 0
            &&& monitor_choice(
                merged(inv, section),
                layered(lookups(env), section, port_of(inv, section)),
            ) is Some
        }),
        !started(argv, env, man, file)->Run_0.config.dry_run,
{
}

/// All options that are not rash's own are passed through to ssh unchanged: where
/// there are arguments and none of them is rash's, ssh is run with exactly these,
/// behind the forwards of the monitor that the environment or the configuration
/// file asked for.
pub proof fn law_ssh_gets_its_arguments_unchanged<E: EnvSource + ?Sized>(
    argv: Seq<Seq<u8>>,
    env: &E,
    man: Seq<char>,
    file: Result<FileView, Seq<char>>,
)
    requires
        argv.len() > 0,
        foreign_from(argv, 0),
    ensures
        started(argv, env, man, file) matches StartView::Run(r) ==> {
            &&& r.config.ssh_args == r.config.monitor.forward_args(r.config.monitor_host) + argv
            &&& r.config.monitor is Disabled ==> r.config.ssh_args == argv
        },
{
    law_foreign_arguments_pass_through(argv);
    let inv = InvocationView { ssh_args: argv, ..blank() };
    if file is Ok && effective(file->Ok_0, None) is Ok {
        let section = effective(file->Ok_0, None)->Ok_0;
        let over = layered(lookups(env), section, port_of(inv, section));
        law_where_the_forwards_go(inv, over);
        law_monitoring_off_adds_nothing(inv, over);
    }
}

/// A dry run never runs anything.
pub proof fn law_a_dry_run_only_prints<E: EnvSource + ?Sized>(
    argv: Seq<Seq<u8>>,
    env: &E,
    man: Seq<char>,
    file: Result<FileView, Seq<char>>,
)
    requires
        split(argv) is Ok,
        split(argv)->Ok_0.dry_run,
    ensures
        started(argv, env, man, file) is Stop,
{
}

/// What is printed where something is asked for or wrong, and with which status. What is
/// asked for goes to stdout, and the status is 0: the version first, then the usage,
/// then the manual page, then the sessions. A complaint goes to stderr after the name
/// of the program, and the status is 1.
pub proof fn law_what_is_printed<E: EnvSource + ?Sized>(
    argv: Seq<Seq<u8>>,
    env: &E,
    man: Seq<char>,
    file: Result<FileView, Seq<char>>,
)
    ensures
        match split(argv) {
            Err(e) => started(argv, env, man, file) == (StartView::Stop {
                out: Seq::empty(),
                err: "rash: "@ + e.shown() + "\n"@,
                code: 1,
            }),
            Ok(inv) => {
                let s = started(argv, env, man, file);
                let none = Seq::<char>::empty();
                if inv.version {
                    s == (StartView::Stop {
                        out: "rash "@ + "0.1.0"@ + "\n"@,
                        err: none,
                        code: 0,
                    })
                } else if inv.help {
                    s == (StartView::Stop { out: USAGE@, err: none, code: 0 })
                } else if inv.man {
                    s == (StartView::Stop { out: man, err: none, code: 0 })
                } else {
                    match file {
                        Err(e) => s == (StartView::Stop {
                            out: none,
                            err: "rash: "@ + e + "\n"@,
                            code: 1,
                        }),
                        Ok(f) => if inv.list {
                            s == (StartView::Stop { out: listed(f.names()), err: none, code: 0 })
                        } else {
                            effective(f, inv.session) matches Err(e) ==> s == (StartView::Stop {
                                out: none,
                                err: "rash: "@ + e + "\n"@,
                                code: 1,
                            })
                        },
                    }
                }
            },
        },
{
}

/// What a run comes to, once the section of the configuration file is known. Without
/// anything for ssh, and without a monitor port, the usage is printed to stderr, with
/// status 1. A dry run prints the plan, with status 0. Otherwise what was resolved is
/// run.
pub proof fn law_what_a_run_comes_to(inv: InvocationView, env: Lookup, section: SectionView)
    ensures
        ({
            let s = launched(inv, env, section);
            let none = Seq::<char>::empty();
            let idle = inv.ssh_args.len() == 0 && (section.ssh_args is None
                || section.ssh_args->Some_0.len() == 0);
            if idle {
                s == (StartView::Stop { out: none, err: USAGE@, code: 1 })
            } else {
                match resolution_over(inv, env, section) {
                    Err(ConfigErrorView::NoMonitorPort) => s == (StartView::Stop {
                        out: none,
                        err: USAGE@,
                        code: 1,
                    }),
                    Err(ConfigErrorView::Invalid(m)) => s == (StartView::Stop {
                        out: none,
                        err: "rash: "@ + m + "\n"@,
                        code: 1,
                    }),
                    Ok(r) => if inv.dry_run {
                        s == (StartView::Stop {
                            out: plan_text("0.1.0"@, r),
                            err: none,
                            code: 0,
                        })
                    } else {
                        s == StartView::Run(r)
                    },
                }
            }
        }),
{
    if let Some(list) = section.ssh_args {
        assert(crate::layers::raw_list(list).len() == list.len());
    }
}

/// A command line that asks for a run is run with the section of the session that it
/// names.
pub proof fn law_the_session_that_is_named_is_run<E: EnvSource + ?Sized>(
    argv: Seq<Seq<u8>>,
    env: &E,
    man: Seq<char>,
    f: FileView,
    inv: InvocationView,
    section: SectionView,
)
    requires
        split(argv) == Ok::<InvocationView, ParseErrorView>(inv),
        !inv.version && !inv.help && !inv.man && !inv.list,
        effective(f, inv.session) == Ok::<SectionView, Seq<char>>(section),
    ensures
        started(argv, env, man, Ok(f)) == launched(inv, lookups(env), section),
{
}

/// The sessions are listed one after the other, each on a line of its own.
pub proof fn law_how_sessions_are_listed(names: Seq<Seq<char>>, last: Seq<char>)
    ensures
        listed(Seq::empty()) == Seq::<char>::empty(),
        listed(names.push(last)) == listed(names) + last + seq!['\n'],
{
    reveal_strlit("\n");
    assert(names.push(last).drop_last() =~= names);
    assert(listed(names.push(last)) =~= listed(names) + last + seq!['\n']);
}

} // verus!
