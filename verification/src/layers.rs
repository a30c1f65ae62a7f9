//! A section of the configuration file, beneath the command line and the
//! environment.
//!
//! Everything that a section sets can also be set by an option or a variable, and
//! those win: the file is the lowest layer, above only the built-in defaults.

use crate::cli::{bytes_in, raw, text_in, Invocation, InvocationView};
use crate::config::{
    lookups, monitor_choice, non_empty, resolution, resolve, setting, texts, ConfigError,
    ConfigErrorView, ConfigView, EnvSource, Level, LogTarget, LogTargetView, LogView, Lookup,
    Resolved, ResolvedView,
};
use crate::config::meaning::{either, law_the_names_of_the_variables};
use crate::settings::{nothing_set, or, Section, SectionView, SpecView};
use crate::text::{
    contents, copy_bytes, decimal, decimal_text, lemma_contents_push, push_signed, same_text,
    signed_decimal, to_bytes,
};
use vstd::prelude::*;
use vstd::utf8::encode_utf8;

verus! {

/// A number, as a variable would hold it.
pub open spec fn number_bytes(n: Option<u64>) -> Option<Seq<u8>> {
    match n {
        Some(n) => Some(raw(decimal(n as nat))),
        None => None,
    }
}

/// A number that may be negative, as a variable would hold it.
pub open spec fn signed_bytes(n: Option<i64>) -> Option<Seq<u8>> {
    match n {
        Some(n) => Some(raw(signed_decimal(n as int))),
        None => None,
    }
}

/// A text, as a variable would hold it.
pub open spec fn text_bytes(s: Option<Seq<char>>) -> Option<Seq<u8>> {
    match s {
        Some(s) => Some(raw(s)),
        None => None,
    }
}

/// The number of a log level, where a text is its name.
pub open spec fn level_number(s: Seq<char>) -> Seq<char> {
    if s == Level::Emerg.shown() {
        "0"@
    } else if s == Level::Alert.shown() {
        "1"@
    } else if s == Level::Crit.shown() {
        "2"@
    } else if s == Level::Error.shown() {
        "3"@
    } else if s == Level::Warning.shown() {
        "4"@
    } else if s == Level::Notice.shown() {
        "5"@
    } else if s == Level::Info.shown() {
        "6"@
    } else if s == Level::Debug.shown() {
        "7"@
    } else {
        s
    }
}

/// The log level of a section, as a variable would hold it.
pub open spec fn level_bytes(s: Option<Seq<char>>) -> Option<Seq<u8>> {
    match s {
        Some(s) => Some(raw(level_number(s))),
        None => None,
    }
}

/// The log file of a section, where its log is neither syslog nor stderr.
pub open spec fn log_file_bytes(s: Option<Seq<char>>) -> Option<Seq<u8>> {
    match s {
        Some(s) => if s == "syslog"@ || s == "stderr"@ {
            None
        } else {
            Some(raw(s))
        },
        None => None,
    }
}

/// The monitor spec of a section, as a variable would hold it.
pub open spec fn spec_bytes(s: Option<SpecView>) -> Option<Seq<u8>> {
    match s {
        Some(SpecView::Port(n)) => Some(raw(decimal(n as nat))),
        Some(SpecView::Text(t)) => Some(raw(t)),
        None => None,
    }
}

/// The value that a section gives to a variable, with `port` for the monitor port.
pub open spec fn beneath(s: SectionView, port: Option<Seq<u8>>, key: Seq<char>) -> Option<Seq<u8>> {
    if key == "AUTOSSH_PORT"@ {
        port
    } else if key == "AUTOSSH_PATH"@ {
        s.ssh_path
    } else if key == "AUTOSSH_POLL"@ {
        number_bytes(s.poll)
    } else if key == "AUTOSSH_FIRST_POLL"@ {
        number_bytes(s.first_poll)
    } else if key == "AUTOSSH_GATETIME"@ {
        number_bytes(s.gatetime)
    } else if key == "AUTOSSH_MAXSTART"@ {
        signed_bytes(s.maxstart)
    } else if key == "AUTOSSH_MAXLIFETIME"@ {
        number_bytes(s.maxlifetime)
    } else if key == "AUTOSSH_MESSAGE"@ {
        text_bytes(s.message)
    } else if key == "AUTOSSH_PIDFILE"@ {
        s.pidfile
    } else if key == "AUTOSSH_LOGFILE"@ {
        log_file_bytes(s.log)
    } else if key == "AUTOSSH_LOGLEVEL"@ {
        level_bytes(s.loglevel)
    } else if key == "RASH_MONITOR_HOST"@ {
        text_bytes(s.monitor_host)
    } else if key == "RASH_KILL_TIMEOUT"@ {
        number_bytes(s.kill_timeout)
    } else {
        None
    }
}

/// What a section puts in the place of a variable that is set to nothing, where that
/// counts as not set: the monitor port and the pid file.
pub open spec fn filling(s: SectionView, port: Option<Seq<u8>>, key: Seq<char>) -> Option<Seq<u8>> {
    if key == "RASH_PORT"@ || key == "AUTOSSH_PORT"@ {
        non_empty(port)
    } else if key == "RASH_PIDFILE"@ || key == "AUTOSSH_PIDFILE"@ {
        non_empty(s.pidfile)
    } else {
        None
    }
}

/// The value of a variable, by what the environment has for it and by the section
/// beneath.
pub open spec fn value_over(
    found: Option<Seq<u8>>,
    s: SectionView,
    port: Option<Seq<u8>>,
    key: Seq<char>,
) -> Option<Seq<u8>> {
    match found {
        Some(v) => if v.len() == 0 && filling(s, port, key) is Some {
            filling(s, port, key)
        } else {
            Some(v)
        },
        None => beneath(s, port, key),
    }
}

/// An environment with a section beneath it.
pub open spec fn layered(env: Lookup, s: SectionView, port: Option<Seq<u8>>) -> Lookup {
    |key: Seq<char>| value_over(env(key), s, port, key)
}

/// A list of texts, as the bytes of each.
pub open spec fn raw_list(list: Seq<Seq<char>>) -> Seq<Seq<u8>> {
    list.map_values(|s: Seq<char>| raw(s))
}

/// An invocation, with the section's arguments for ssh where it has none of its own.
pub open spec fn merged(inv: InvocationView, s: SectionView) -> InvocationView {
    if inv.ssh_args.len() == 0 && s.ssh_args is Some {
        InvocationView { ssh_args: raw_list(s.ssh_args->Some_0), ..inv }
    } else {
        inv
    }
}

/// The section's monitor port, where there is no `-M`.
pub open spec fn port_of(inv: InvocationView, s: SectionView) -> Option<Seq<u8>> {
    if inv.monitor is Some {
        None
    } else {
        spec_bytes(s.monitor)
    }
}

/// Where log lines go, if nothing has said so and the section says stderr.
pub open spec fn redirected(target: LogTargetView, s: SectionView) -> LogTargetView {
    if target is Syslog && s.log == Some("stderr"@) {
        LogTargetView::Stderr
    } else {
        target
    }
}

/// What the command line, the environment and a section resolve to.
pub open spec fn resolution_over(inv: InvocationView, env: Lookup, s: SectionView) -> Result<
    ResolvedView,
    ConfigErrorView,
> {
    match resolution(merged(inv, s), layered(env, s, port_of(inv, s))) {
        Ok(r) => Ok(
            ResolvedView {
                config: ConfigView {
                    log: LogView {
                        target: redirected(r.config.log.target, s),
                        ..r.config.log
                    },
                    ..r.config
                },
                ..r
            },
        ),
        Err(e) => Err(e),
    }
}

/// An environment, with a section beneath it.
pub struct Layered<'a, E: EnvSource + ?Sized> {
    pub env: &'a E,
    pub section: &'a Section,
    /// The monitor port of the section, where it counts.
    pub port: Option<Vec<u8>>,
}

fn number_value(n: Option<u64>) -> (v: Option<Vec<u8>>)
    ensures
        bytes_in(v) == number_bytes(n),
{
    match n {
        Some(n) => Some(to_bytes(decimal_text(n).as_str())),
        None => None,
    }
}

fn text_value(s: &Option<String>) -> (v: Option<Vec<u8>>)
    ensures
        bytes_in(v) == text_bytes(text_in(*s)),
{
    match s {
        Some(s) => Some(to_bytes(s.as_str())),
        None => None,
    }
}

fn path_value(p: &Option<Vec<u8>>) -> (v: Option<Vec<u8>>)
    ensures
        bytes_in(v) == bytes_in(*p),
{
    match p {
        Some(p) => Some(copy_bytes(p)),
        None => None,
    }
}

fn signed_value(n: Option<i64>) -> (v: Option<Vec<u8>>)
    ensures
        bytes_in(v) == signed_bytes(n),
{
    match n {
        Some(n) => {
            let mut s = String::new();
            push_signed(&mut s, n);
            assert(s@ =~= signed_decimal(n as int));
            Some(to_bytes(s.as_str()))
        },
        None => None,
    }
}

fn level_value(s: &Option<String>) -> (v: Option<Vec<u8>>)
    ensures
        bytes_in(v) == level_bytes(text_in(*s)),
{
    match s {
        Some(s) => {
            let s = s.as_str();
            let n = if same_text(s, Level::Emerg.text()) {
                "0"
            } else if same_text(s, Level::Alert.text()) {
                "1"
            } else if same_text(s, Level::Crit.text()) {
                "2"
            } else if same_text(s, Level::Error.text()) {
                "3"
            } else if same_text(s, Level::Warning.text()) {
                "4"
            } else if same_text(s, Level::Notice.text()) {
                "5"
            } else if same_text(s, Level::Info.text()) {
                "6"
            } else if same_text(s, Level::Debug.text()) {
                "7"
            } else {
                s
            };
            Some(to_bytes(n))
        },
        None => None,
    }
}

fn log_file_value(s: &Option<String>) -> (v: Option<Vec<u8>>)
    ensures
        bytes_in(v) == log_file_bytes(text_in(*s)),
{
    match s {
        Some(s) => if same_text(s.as_str(), "syslog") || same_text(s.as_str(), "stderr") {
            None
        } else {
            Some(to_bytes(s.as_str()))
        },
        None => None,
    }
}

/// The value that a section gives to a variable.
fn section_value(s: &Section, port: &Option<Vec<u8>>, key: &str) -> (v: Option<Vec<u8>>)
    ensures
        bytes_in(v) == beneath(s@, bytes_in(*port), key@),
{
    if same_text(key, "AUTOSSH_PORT") {
        path_value(port)
    } else if same_text(key, "AUTOSSH_PATH") {
        path_value(&s.ssh_path)
    } else if same_text(key, "AUTOSSH_POLL") {
        number_value(s.poll)
    } else if same_text(key, "AUTOSSH_FIRST_POLL") {
        number_value(s.first_poll)
    } else if same_text(key, "AUTOSSH_GATETIME") {
        number_value(s.gatetime)
    } else if same_text(key, "AUTOSSH_MAXSTART") {
        signed_value(s.maxstart)
    } else if same_text(key, "AUTOSSH_MAXLIFETIME") {
        number_value(s.maxlifetime)
    } else if same_text(key, "AUTOSSH_MESSAGE") {
        text_value(&s.message)
    } else if same_text(key, "AUTOSSH_PIDFILE") {
        path_value(&s.pidfile)
    } else if same_text(key, "AUTOSSH_LOGFILE") {
        log_file_value(&s.log)
    } else if same_text(key, "AUTOSSH_LOGLEVEL") {
        level_value(&s.loglevel)
    } else if same_text(key, "RASH_MONITOR_HOST") {
        text_value(&s.monitor_host)
    } else if same_text(key, "RASH_KILL_TIMEOUT") {
        number_value(s.kill_timeout)
    } else {
        None
    }
}

fn filled_value(p: &Option<Vec<u8>>) -> (v: Option<Vec<u8>>)
    ensures
        bytes_in(v) == non_empty(bytes_in(*p)),
{
    match p {
        Some(p) => if p.len() > 0 {
            Some(copy_bytes(p))
        } else {
            None
        },
        None => None,
    }
}

/// What a section puts in the place of a variable that is set to nothing.
fn filling_value(s: &Section, port: &Option<Vec<u8>>, key: &str) -> (v: Option<Vec<u8>>)
    ensures
        bytes_in(v) == filling(s@, bytes_in(*port), key@),
{
    if same_text(key, "RASH_PORT") || same_text(key, "AUTOSSH_PORT") {
        filled_value(port)
    } else if same_text(key, "RASH_PIDFILE") || same_text(key, "AUTOSSH_PIDFILE") {
        filled_value(&s.pidfile)
    } else {
        None
    }
}

impl<'a, E: EnvSource + ?Sized> EnvSource for Layered<'a, E> {
    open spec fn lookup(&self, key: Seq<char>) -> Option<Seq<u8>> {
        value_over(self.env.lookup(key), self.section@, bytes_in(self.port), key)
    }

    fn var(&self, key: &str) -> (v: Option<Vec<u8>>) {
        match self.env.var(key) {
            Some(v) => if v.len() == 0 {
                match filling_value(self.section, &self.port, key) {
                    Some(f) => Some(f),
                    None => Some(v),
                }
            } else {
                Some(v)
            },
            None => section_value(self.section, &self.port, key),
        }
    }
}

/// Take the section's arguments for ssh where there are none.
pub fn merge(inv: &mut Invocation, section: &Section)
    ensures
        final(inv)@ == merged(old(inv)@, section@),
{
    if inv.ssh_args.len() == 0 {
        if let Some(list) = &section.ssh_args {
            let ghost all = raw_list(texts(list@));
            let mut args: Vec<Vec<u8>> = Vec::new();
            let mut i: usize = 0;
            assert(contents(args@) =~= all.take(0));
            while i < list.len()
                invariant
                    i <= list.len(),
                    all == raw_list(texts(list@)),
                    contents(args@) == all.take(i as int),
                decreases list.len() - i,
            {
                let a = to_bytes(list[i].as_str());
                proof {
                    lemma_contents_push(args@, a);
                    assert(all[i as int] == a@);
                    assert(all.take(i + 1) =~= all.take(i as int).push(a@));
                }
                args.push(a);
                i = i + 1;
            }
            assert(all.take(i as int) =~= all);
            inv.ssh_args = args;
        }
    }
}

/// Resolve the command line and the environment, with a section beneath them.
pub fn resolve_over<E: EnvSource + ?Sized>(inv: Invocation, env: &E, section: &Section) -> (r:
    Result<Resolved, ConfigError>)
    ensures
        match r {
            Ok(v) => {
                &&& resolution_over(inv@, lookups(env), section@) == Ok::<
                    ResolvedView,
                    ConfigErrorView,
                >(v@)
                &&& v@.config.wf()
            },
            Err(e) => resolution_over(inv@, lookups(env), section@) == Err::<
                ResolvedView,
                ConfigErrorView,
            >(e@),
        },
{
    let mut inv = inv;
    let ghost asked = inv@;
    let port: Option<Vec<u8>> = if inv.monitor.is_some() {
        None
    } else {
        match &section.monitor {
            Some(spec) => Some(to_bytes(spec.as_text().as_str())),
            None => None,
        }
    };
    assert(bytes_in(port) == port_of(asked, section@));
    merge(&mut inv, section);
    let env_over = Layered { env, section, port };
    assert(lookups(&env_over) =~= layered(
        lookups(env),
        section@,
        port_of(asked, section@),
    ));
    let mut resolved = resolve(inv, &env_over)?;
    if let LogTarget::Syslog = resolved.config.log.target {
        if let Some(log) = &section.log {
            if same_text(log.as_str(), "stderr") {
                resolved.config.log.target = LogTarget::Stderr;
            }
        }
    }
    Ok(resolved)
}

// -------------------------------------------------------------------- laws

/// A section gives each variable its own value.
proof fn lemma_values(s: SectionView, port: Option<Seq<u8>>)
    ensures
        beneath(s, port, "AUTOSSH_PORT"@) == port,
        beneath(s, port, "AUTOSSH_PATH"@) == s.ssh_path,
        beneath(s, port, "AUTOSSH_POLL"@) == number_bytes(s.poll),
        beneath(s, port, "AUTOSSH_FIRST_POLL"@) == number_bytes(s.first_poll),
        beneath(s, port, "AUTOSSH_GATETIME"@) == number_bytes(s.gatetime),
        beneath(s, port, "AUTOSSH_MAXSTART"@) == signed_bytes(s.maxstart),
        beneath(s, port, "AUTOSSH_MAXLIFETIME"@) == number_bytes(s.maxlifetime),
        beneath(s, port, "AUTOSSH_MESSAGE"@) == text_bytes(s.message),
        beneath(s, port, "AUTOSSH_PIDFILE"@) == s.pidfile,
        beneath(s, port, "AUTOSSH_LOGFILE"@) == log_file_bytes(s.log),
        beneath(s, port, "AUTOSSH_LOGLEVEL"@) == level_bytes(s.loglevel),
        beneath(s, port, "RASH_MONITOR_HOST"@) == text_bytes(s.monitor_host),
        beneath(s, port, "RASH_KILL_TIMEOUT"@) == number_bytes(s.kill_timeout),
{
    reveal_strlit("AUTOSSH_PORT");
    reveal_strlit("AUTOSSH_PATH");
    reveal_strlit("AUTOSSH_POLL");
    reveal_strlit("AUTOSSH_FIRST_POLL");
    reveal_strlit("AUTOSSH_GATETIME");
    reveal_strlit("AUTOSSH_MAXSTART");
    reveal_strlit("AUTOSSH_MAXLIFETIME");
    reveal_strlit("AUTOSSH_MESSAGE");
    reveal_strlit("AUTOSSH_PIDFILE");
    reveal_strlit("AUTOSSH_LOGFILE");
    reveal_strlit("AUTOSSH_LOGLEVEL");
    reveal_strlit("RASH_MONITOR_HOST");
    reveal_strlit("RASH_KILL_TIMEOUT");
    assert("AUTOSSH_PORT"@.len() == 12);
    assert("AUTOSSH_PATH"@.len() == 12);
    assert("AUTOSSH_POLL"@.len() == 12);
    assert("AUTOSSH_FIRST_POLL"@.len() == 18);
    assert("AUTOSSH_GATETIME"@.len() == 16);
    assert("AUTOSSH_MAXSTART"@.len() == 16);
    assert("AUTOSSH_MAXLIFETIME"@.len() == 19);
    assert("AUTOSSH_MESSAGE"@.len() == 15);
    assert("AUTOSSH_PIDFILE"@.len() == 15);
    assert("AUTOSSH_LOGFILE"@.len() == 15);
    assert("AUTOSSH_LOGLEVEL"@.len() == 16);
    assert("RASH_MONITOR_HOST"@.len() == 17);
    assert("RASH_KILL_TIMEOUT"@.len() == 17);
    assert("AUTOSSH_PORT"@[10] == 'R' && "AUTOSSH_PATH"@[10] == 'T' && "AUTOSSH_POLL"@[10] == 'L');
    assert("AUTOSSH_GATETIME"@[8] == 'G' && "AUTOSSH_MAXSTART"@[8] == 'M');
    assert("AUTOSSH_LOGLEVEL"@[8] == 'L');
    assert("AUTOSSH_MESSAGE"@[8] == 'M' && "AUTOSSH_PIDFILE"@[8] == 'P');
    assert("AUTOSSH_LOGFILE"@[8] == 'L');
    assert("RASH_MONITOR_HOST"@[5] == 'M' && "RASH_KILL_TIMEOUT"@[5] == 'K');
}

/// A section says nothing of the first name of a variable that has two.
proof fn lemma_first_name(s: SectionView, port: Option<Seq<u8>>, name: Seq<char>)
    requires
        name.len() <= 11,
    ensures
        beneath(s, port, "RASH_"@ + name) is None,
{
    reveal_strlit("RASH_");
    reveal_strlit("AUTOSSH_PORT");
    reveal_strlit("AUTOSSH_PATH");
    reveal_strlit("AUTOSSH_POLL");
    reveal_strlit("AUTOSSH_FIRST_POLL");
    reveal_strlit("AUTOSSH_GATETIME");
    reveal_strlit("AUTOSSH_MAXSTART");
    reveal_strlit("AUTOSSH_MAXLIFETIME");
    reveal_strlit("AUTOSSH_MESSAGE");
    reveal_strlit("AUTOSSH_PIDFILE");
    reveal_strlit("AUTOSSH_LOGFILE");
    reveal_strlit("AUTOSSH_LOGLEVEL");
    reveal_strlit("RASH_MONITOR_HOST");
    reveal_strlit("RASH_KILL_TIMEOUT");
    let key = "RASH_"@ + name;
    assert(key.len() <= 16);
    assert("RASH_MONITOR_HOST"@.len() == 17 && "RASH_KILL_TIMEOUT"@.len() == 17);
    assert(key[0] == 'R');
    assert("AUTOSSH_PORT"@[0] == 'A' && "AUTOSSH_PATH"@[0] == 'A' && "AUTOSSH_POLL"@[0] == 'A');
    assert("AUTOSSH_GATETIME"@[0] == 'A' && "AUTOSSH_MAXSTART"@[0] == 'A');
    assert("AUTOSSH_LOGLEVEL"@[0] == 'A' && "AUTOSSH_MESSAGE"@[0] == 'A');
    assert("AUTOSSH_PIDFILE"@[0] == 'A' && "AUTOSSH_LOGFILE"@[0] == 'A');
    assert("AUTOSSH_FIRST_POLL"@[0] == 'A' && "AUTOSSH_MAXLIFETIME"@[0] == 'A');
}

/// What becomes of a variable that has two names.
proof fn lemma_layer(
    env: Lookup,
    s: SectionView,
    port: Option<Seq<u8>>,
    name: Seq<char>,
    second: Seq<char>,
)
    requires
        name.len() <= 11,
        name != "PORT"@,
        name != "PIDFILE"@,
        "AUTOSSH_"@ + name == second,
    ensures
        setting(layered(env, s, port), name) == or(setting(env, name), beneath(s, port, second)),
{
    lemma_first_name(s, port, name);
    lemma_names("PORT"@);
    lemma_names("PIDFILE"@);
    lemma_names(name);
    lemma_port_and_pidfile(s, port);
    reveal_strlit("RASH_");
    reveal_strlit("AUTOSSH_");
    assert(("RASH_"@ + name)[0] == 'R');
    assert(second[0] == 'A');
    assert("AUTOSSH_PORT"@[0] == 'A' && "AUTOSSH_PIDFILE"@[0] == 'A') by {
        reveal_strlit("AUTOSSH_PORT");
        reveal_strlit("AUTOSSH_PIDFILE");
    }
    assert("RASH_PORT"@[0] == 'R' && "RASH_PIDFILE"@[0] == 'R') by {
        reveal_strlit("RASH_PORT");
        reveal_strlit("RASH_PIDFILE");
    }
}

/// A prefix can be taken off a name again.
proof fn lemma_names(name: Seq<char>)
    ensures
        ("RASH_"@ + name).skip("RASH_"@.len() as int) == name,
        ("AUTOSSH_"@ + name).skip("AUTOSSH_"@.len() as int) == name,
{
    assert(("RASH_"@ + name).skip("RASH_"@.len() as int) =~= name);
    assert(("AUTOSSH_"@ + name).skip("AUTOSSH_"@.len() as int) =~= name);
}

/// The names of the variables that count as not set where they are empty.
proof fn lemma_port_and_pidfile(s: SectionView, port: Option<Seq<u8>>)
    ensures
        "RASH_"@ + "PORT"@ == "RASH_PORT"@,
        "AUTOSSH_"@ + "PORT"@ == "AUTOSSH_PORT"@,
        "RASH_"@ + "PIDFILE"@ == "RASH_PIDFILE"@,
        "AUTOSSH_"@ + "PIDFILE"@ == "AUTOSSH_PIDFILE"@,
        "PORT"@.len() == 4,
        "PIDFILE"@.len() == 7,
        "RASH_PORT"@ != "RASH_PIDFILE"@,
        "AUTOSSH_PORT"@ != "AUTOSSH_PIDFILE"@,
        "RASH_PIDFILE"@ != "AUTOSSH_PORT"@,
        "AUTOSSH_PIDFILE"@ != "RASH_PORT"@,
        filling(s, port, "AUTOSSH_PATH"@) is None,
        filling(s, port, "RASH_MONITOR_HOST"@) is None,
        filling(s, port, "RASH_KILL_TIMEOUT"@) is None,
{
    reveal_strlit("AUTOSSH_PATH");
    reveal_strlit("RASH_MONITOR_HOST");
    reveal_strlit("RASH_KILL_TIMEOUT");
    assert("AUTOSSH_PATH"@.len() == 12 && "AUTOSSH_PATH"@[0] == 'A' && "AUTOSSH_PATH"@[9] == 'A');
    assert("RASH_MONITOR_HOST"@.len() == 17 && "RASH_KILL_TIMEOUT"@.len() == 17);
    reveal_strlit("RASH_");
    reveal_strlit("AUTOSSH_");
    reveal_strlit("PORT");
    reveal_strlit("PIDFILE");
    reveal_strlit("RASH_PORT");
    reveal_strlit("RASH_PIDFILE");
    reveal_strlit("AUTOSSH_PORT");
    reveal_strlit("AUTOSSH_PIDFILE");
    assert("RASH_"@ + "PORT"@ =~= "RASH_PORT"@);
    assert("AUTOSSH_"@ + "PORT"@ =~= "AUTOSSH_PORT"@);
    assert("RASH_"@ + "PIDFILE"@ =~= "RASH_PIDFILE"@);
    assert("AUTOSSH_"@ + "PIDFILE"@ =~= "AUTOSSH_PIDFILE"@);
    assert("RASH_PORT"@.len() == 9 && "RASH_PIDFILE"@.len() == 12);
    assert("AUTOSSH_PORT"@.len() == 12 && "AUTOSSH_PIDFILE"@.len() == 15);
    assert("RASH_PIDFILE"@[0] == 'R' && "AUTOSSH_PORT"@[0] == 'A' && "AUTOSSH_PORT"@[9] == 'O');
}

/// A section is the lowest layer: a variable that is set, under either of its names,
/// wins over it, and the section decides where none is. A monitor port or a pid file
/// that is set to nothing counts as not set.
pub proof fn law_a_section_is_the_lowest_layer(env: Lookup, s: SectionView, port: Option<Seq<u8>>)
    ensures
        ({
            let over = layered(env, s, port);
            &&& non_empty(setting(over, "PORT"@)) == or(
                non_empty(setting(env, "PORT"@)),
                non_empty(port),
            )
            &&& setting(over, "POLL"@) == or(setting(env, "POLL"@), number_bytes(s.poll))
            &&& setting(over, "FIRST_POLL"@) == or(
                setting(env, "FIRST_POLL"@),
                number_bytes(s.first_poll),
            )
            &&& setting(over, "GATETIME"@) == or(
                setting(env, "GATETIME"@),
                number_bytes(s.gatetime),
            )
            &&& setting(over, "MAXSTART"@) == or(
                setting(env, "MAXSTART"@),
                signed_bytes(s.maxstart),
            )
            &&& setting(over, "MAXLIFETIME"@) == or(
                setting(env, "MAXLIFETIME"@),
                number_bytes(s.maxlifetime),
            )
            &&& setting(over, "MESSAGE"@) == or(setting(env, "MESSAGE"@), text_bytes(s.message))
            &&& non_empty(setting(over, "PIDFILE"@)) == or(
                non_empty(setting(env, "PIDFILE"@)),
                non_empty(s.pidfile),
            )
            &&& setting(over, "LOGFILE"@) == or(setting(env, "LOGFILE"@), log_file_bytes(s.log))
            &&& setting(over, "LOGLEVEL"@) == or(setting(env, "LOGLEVEL"@), level_bytes(s.loglevel))
            &&& over("RASH_MONITOR_HOST"@) == or(
                env("RASH_MONITOR_HOST"@),
                text_bytes(s.monitor_host),
            )
            &&& over("RASH_KILL_TIMEOUT"@) == or(
                env("RASH_KILL_TIMEOUT"@),
                number_bytes(s.kill_timeout),
            )
            &&& over("AUTOSSH_PATH"@) == or(env("AUTOSSH_PATH"@), s.ssh_path)
        }),
{
    lemma_values(s, port);
    lemma_port_and_pidfile(s, port);
    lemma_first_name(s, port, "PORT"@);
    lemma_first_name(s, port, "PIDFILE"@);
    reveal_strlit("PORT");
    reveal_strlit("PIDFILE");
    assert("PORT"@[1] == 'O' && "PORT"@[2] == 'R');
    assert("PIDFILE"@[0] == 'P');
    reveal_strlit("AUTOSSH_");
    reveal_strlit("POLL");
    reveal_strlit("AUTOSSH_POLL");
    assert("AUTOSSH_"@ + "POLL"@ =~= "AUTOSSH_POLL"@);
    lemma_layer(env, s, port, "POLL"@, "AUTOSSH_POLL"@);
    reveal_strlit("FIRST_POLL");
    reveal_strlit("AUTOSSH_FIRST_POLL");
    assert("AUTOSSH_"@ + "FIRST_POLL"@ =~= "AUTOSSH_FIRST_POLL"@);
    lemma_layer(env, s, port, "FIRST_POLL"@, "AUTOSSH_FIRST_POLL"@);
    reveal_strlit("GATETIME");
    reveal_strlit("AUTOSSH_GATETIME");
    assert("AUTOSSH_"@ + "GATETIME"@ =~= "AUTOSSH_GATETIME"@);
    lemma_layer(env, s, port, "GATETIME"@, "AUTOSSH_GATETIME"@);
    reveal_strlit("MAXSTART");
    reveal_strlit("AUTOSSH_MAXSTART");
    assert("AUTOSSH_"@ + "MAXSTART"@ =~= "AUTOSSH_MAXSTART"@);
    lemma_layer(env, s, port, "MAXSTART"@, "AUTOSSH_MAXSTART"@);
    reveal_strlit("MAXLIFETIME");
    reveal_strlit("AUTOSSH_MAXLIFETIME");
    assert("AUTOSSH_"@ + "MAXLIFETIME"@ =~= "AUTOSSH_MAXLIFETIME"@);
    lemma_layer(env, s, port, "MAXLIFETIME"@, "AUTOSSH_MAXLIFETIME"@);
    reveal_strlit("MESSAGE");
    reveal_strlit("AUTOSSH_MESSAGE");
    assert("AUTOSSH_"@ + "MESSAGE"@ =~= "AUTOSSH_MESSAGE"@);
    lemma_layer(env, s, port, "MESSAGE"@, "AUTOSSH_MESSAGE"@);
    reveal_strlit("LOGFILE");
    reveal_strlit("AUTOSSH_LOGFILE");
    assert("AUTOSSH_"@ + "LOGFILE"@ =~= "AUTOSSH_LOGFILE"@);
    lemma_layer(env, s, port, "LOGFILE"@, "AUTOSSH_LOGFILE"@);
    reveal_strlit("LOGLEVEL");
    reveal_strlit("AUTOSSH_LOGLEVEL");
    assert("AUTOSSH_"@ + "LOGLEVEL"@ =~= "AUTOSSH_LOGLEVEL"@);
    lemma_layer(env, s, port, "LOGLEVEL"@, "AUTOSSH_LOGLEVEL"@);
}

/// Arguments on the command line win over those of a section, and so does any
/// monitor port that the command line or the environment gives. Where neither gives
/// one, the section's counts.
pub proof fn law_the_command_line_outranks_a_section(
    inv: InvocationView,
    env: Lookup,
    s: SectionView,
)
    ensures
        inv.ssh_args.len() > 0 ==> merged(inv, s) == inv,
        monitor_choice(inv, env) is Some ==> monitor_choice(
            merged(inv, s),
            layered(env, s, port_of(inv, s)),
        ) == monitor_choice(inv, env),
        monitor_choice(inv, env) is None ==> monitor_choice(
            merged(inv, s),
            layered(env, s, port_of(inv, s)),
        ) == match non_empty(spec_bytes(s.monitor)) {
            Some(spec) => Some((spec, false)),
            None => None,
        },
{
    law_a_section_is_the_lowest_layer(env, s, port_of(inv, s));
}

/// A section that sets nothing changes nothing.
pub proof fn law_an_empty_section_changes_nothing(inv: InvocationView, env: Lookup)
    ensures
        resolution_over(inv, env, nothing_set()) == resolution(inv, env),
{
    assert(layered(env, nothing_set(), None) =~= env);
}

// -------------------------------------------------- a section, setting by setting

/// The bytes of a number.
pub open spec fn digits_of(n: Option<u64>) -> Option<Seq<u8>> {
    match n {
        Some(n) => Some(encode_utf8(decimal(n as nat))),
        None => None,
    }
}

/// The bytes of a text.
pub open spec fn bytes_of(s: Option<Seq<char>>) -> Option<Seq<u8>> {
    match s {
        Some(s) => Some(encode_utf8(s)),
        None => None,
    }
}

/// What a variable with two names has in the environment, or else the value of a
/// section.
pub open spec fn first_set(v: Option<Seq<u8>>, under: Option<Seq<u8>>) -> Option<Seq<u8>> {
    if v is Some {
        v
    } else {
        under
    }
}

/// What each setting is with a section beneath the environment: the environment's where
/// it sets it, under either name, and the section's otherwise, written as a variable
/// would have it. Debugging and the touching of the pid file are not the section's to
/// set.
pub proof fn law_what_a_section_sets(env: Lookup, s: SectionView, port: Option<Seq<u8>>)
    ensures
        ({
            let over = layered(env, s, port);
            &&& either(over, "RASH_POLL"@, "AUTOSSH_POLL"@) == first_set(
                either(env, "RASH_POLL"@, "AUTOSSH_POLL"@),
                digits_of(s.poll),
            )
            &&& either(over, "RASH_FIRST_POLL"@, "AUTOSSH_FIRST_POLL"@) == first_set(
                either(env, "RASH_FIRST_POLL"@, "AUTOSSH_FIRST_POLL"@),
                digits_of(s.first_poll),
            )
            &&& either(over, "RASH_GATETIME"@, "AUTOSSH_GATETIME"@) == first_set(
                either(env, "RASH_GATETIME"@, "AUTOSSH_GATETIME"@),
                digits_of(s.gatetime),
            )
            &&& either(over, "RASH_MAXLIFETIME"@, "AUTOSSH_MAXLIFETIME"@) == first_set(
                either(env, "RASH_MAXLIFETIME"@, "AUTOSSH_MAXLIFETIME"@),
                digits_of(s.maxlifetime),
            )
            &&& either(over, "RASH_MAXSTART"@, "AUTOSSH_MAXSTART"@) == first_set(
                either(env, "RASH_MAXSTART"@, "AUTOSSH_MAXSTART"@),
                match s.maxstart {
                    Some(n) => Some(encode_utf8(signed_decimal(n as int))),
                    None => None,
                },
            )
            &&& either(over, "RASH_MESSAGE"@, "AUTOSSH_MESSAGE"@) == first_set(
                either(env, "RASH_MESSAGE"@, "AUTOSSH_MESSAGE"@),
                bytes_of(s.message),
            )
            &&& either(over, "RASH_LOGFILE"@, "AUTOSSH_LOGFILE"@) == first_set(
                either(env, "RASH_LOGFILE"@, "AUTOSSH_LOGFILE"@),
                if s.log == Some("syslog"@) || s.log == Some("stderr"@) {
                    None
                } else {
                    bytes_of(s.log)
                },
            )
            &&& s.loglevel is None ==> either(over, "RASH_LOGLEVEL"@, "AUTOSSH_LOGLEVEL"@)
                == either(env, "RASH_LOGLEVEL"@, "AUTOSSH_LOGLEVEL"@)
            &&& s.loglevel matches Some(name) ==> either(
                over,
                "RASH_LOGLEVEL"@,
                "AUTOSSH_LOGLEVEL"@,
            ) == first_set(
                either(env, "RASH_LOGLEVEL"@, "AUTOSSH_LOGLEVEL"@),
                Some(encode_utf8(level_number(name))),
            )
            &&& either(over, "RASH_SSH_PATH"@, "AUTOSSH_PATH"@) == first_set(
                either(env, "RASH_SSH_PATH"@, "AUTOSSH_PATH"@),
                s.ssh_path,
            )
            &&& over("RASH_MONITOR_HOST"@) == first_set(
                env("RASH_MONITOR_HOST"@),
                bytes_of(s.monitor_host),
            )
            &&& over("RASH_KILL_TIMEOUT"@) == first_set(
                env("RASH_KILL_TIMEOUT"@),
                digits_of(s.kill_timeout),
            )
            &&& over("RASH_TOUCH_PIDFILE"@) == env("RASH_TOUCH_PIDFILE"@)
            &&& either(over, "RASH_DEBUG"@, "AUTOSSH_DEBUG"@) == either(
                env,
                "RASH_DEBUG"@,
                "AUTOSSH_DEBUG"@,
            )
        }),
{
    law_a_section_is_the_lowest_layer(env, s, port);
    law_the_names_of_the_variables(env);
    law_the_names_of_the_variables(layered(env, s, port));
    lemma_untouched(s, port);
    reveal_strlit("RASH_");
    reveal_strlit("SSH_PATH");
    lemma_first_name(s, port, "SSH_PATH"@);
    lemma_port_and_pidfile(s, port);
    reveal_strlit("RASH_SSH_PATH");
    assert("RASH_"@ + "SSH_PATH"@ =~= "RASH_SSH_PATH"@);
}

/// A section has nothing to say of these variables.
proof fn lemma_untouched(s: SectionView, port: Option<Seq<u8>>)
    ensures
        beneath(s, port, "RASH_DEBUG"@) is None && filling(s, port, "RASH_DEBUG"@) is None,
        beneath(s, port, "AUTOSSH_DEBUG"@) is None && filling(s, port, "AUTOSSH_DEBUG"@) is None,
        beneath(s, port, "RASH_TOUCH_PIDFILE"@) is None && filling(
            s,
            port,
            "RASH_TOUCH_PIDFILE"@,
        ) is None,
        filling(s, port, "RASH_SSH_PATH"@) is None,
{
    reveal_strlit("RASH_DEBUG");
    reveal_strlit("AUTOSSH_DEBUG");
    reveal_strlit("RASH_TOUCH_PIDFILE");
    reveal_strlit("RASH_SSH_PATH");
    reveal_strlit("RASH_PORT");
    reveal_strlit("RASH_PIDFILE");
    reveal_strlit("AUTOSSH_PORT");
    reveal_strlit("AUTOSSH_PATH");
    reveal_strlit("AUTOSSH_POLL");
    reveal_strlit("AUTOSSH_FIRST_POLL");
    reveal_strlit("AUTOSSH_GATETIME");
    reveal_strlit("AUTOSSH_MAXSTART");
    reveal_strlit("AUTOSSH_MAXLIFETIME");
    reveal_strlit("AUTOSSH_MESSAGE");
    reveal_strlit("AUTOSSH_PIDFILE");
    reveal_strlit("AUTOSSH_LOGFILE");
    reveal_strlit("AUTOSSH_LOGLEVEL");
    reveal_strlit("RASH_MONITOR_HOST");
    reveal_strlit("RASH_KILL_TIMEOUT");
    assert("RASH_DEBUG"@.len() == 10 && "AUTOSSH_DEBUG"@.len() == 13);
    assert("RASH_TOUCH_PIDFILE"@.len() == 18 && "RASH_TOUCH_PIDFILE"@[0] == 'R');
    assert("RASH_SSH_PATH"@.len() == 13 && "RASH_PORT"@.len() == 9 && "RASH_PIDFILE"@.len() == 12);
    assert("AUTOSSH_PORT"@.len() == 12 && "AUTOSSH_PATH"@.len() == 12);
    assert("AUTOSSH_POLL"@.len() == 12 && "AUTOSSH_FIRST_POLL"@.len() == 18);
    assert("AUTOSSH_FIRST_POLL"@[0] == 'A');
    assert("AUTOSSH_GATETIME"@.len() == 16 && "AUTOSSH_MAXSTART"@.len() == 16);
    assert("AUTOSSH_MAXLIFETIME"@.len() == 19 && "AUTOSSH_MESSAGE"@.len() == 15);
    assert("AUTOSSH_PIDFILE"@.len() == 15 && "AUTOSSH_LOGFILE"@.len() == 15);
    assert("AUTOSSH_LOGLEVEL"@.len() == 16);
    assert("RASH_MONITOR_HOST"@.len() == 17 && "RASH_KILL_TIMEOUT"@.len() == 17);
}

/// A pid file or a monitor port that the environment sets to nothing counts as not set,
/// and so does one of the section's; the section's counts where the environment has
/// none that is set to something.
pub proof fn law_what_a_section_fills_in(env: Lookup, s: SectionView, port: Option<Seq<u8>>)
    ensures
        ({
            let over = layered(env, s, port);
            let here = either(env, "RASH_PIDFILE"@, "AUTOSSH_PIDFILE"@);
            let there = either(over, "RASH_PIDFILE"@, "AUTOSSH_PIDFILE"@);
            let named = either(env, "RASH_PORT"@, "AUTOSSH_PORT"@);
            let known = either(over, "RASH_PORT"@, "AUTOSSH_PORT"@);
            &&& here is Some && here->Some_0.len() > 0 ==> there == here
            &&& here is None || here->Some_0.len() == 0 ==> {
                &&& s.pidfile is Some && s.pidfile->Some_0.len() > 0 ==> there == s.pidfile
                &&& s.pidfile is None || s.pidfile->Some_0.len() == 0 ==> there is None
                    || there->Some_0.len() == 0
            }
            &&& named is Some && named->Some_0.len() > 0 ==> known == named
            &&& named is None || named->Some_0.len() == 0 ==> {
                &&& port is Some && port->Some_0.len() > 0 ==> known == port
                &&& port is None || port->Some_0.len() == 0 ==> known is None
                    || known->Some_0.len() == 0
            }
        }),
{
    law_a_section_is_the_lowest_layer(env, s, port);
    law_the_names_of_the_variables(env);
    law_the_names_of_the_variables(layered(env, s, port));
}

/// What a section leads to, beside its settings. Its arguments go to ssh only where the
/// command line has none. Its monitor spec counts only where there is no `-M`. Its log
/// goes to stderr where it says so and nothing else names a file. All else is as though
/// its settings were variables.
pub proof fn law_what_a_section_leads_to(inv: InvocationView, env: Lookup, s: SectionView)
    ensures
        ({
            let port = match (inv.monitor, s.monitor) {
                (None, Some(SpecView::Port(n))) => Some(encode_utf8(decimal(n as nat))),
                (None, Some(SpecView::Text(t))) => Some(encode_utf8(t)),
                _ => None,
            };
            let args = if inv.ssh_args.len() == 0 && s.ssh_args is Some {
                s.ssh_args->Some_0.map_values(|a: Seq<char>| encode_utf8(a))
            } else {
                inv.ssh_args
            };
            let alone = resolution(
                InvocationView { ssh_args: args, ..inv },
                layered(env, s, port),
            );
            match alone {
                Err(e) => resolution_over(inv, env, s) == Err::<ResolvedView, ConfigErrorView>(e),
                Ok(r) => resolution_over(inv, env, s) matches Ok(v) && {
                    &&& v.warnings == r.warnings
                    &&& v.config == (ConfigView { log: v.config.log, ..r.config })
                    &&& v.config.log.level == r.config.log.level
                    &&& v.config.log.also_stderr == r.config.log.also_stderr
                    &&& v.config.log.target == if r.config.log.target == LogTargetView::Syslog
                        && s.log == Some("stderr"@) {
                        LogTargetView::Stderr
                    } else {
                        r.config.log.target
                    }
                },
            }
        }),
{
    assert((|a: Seq<char>| encode_utf8(a)) =~= (|a: Seq<char>| raw(a)));
}

/// A log level may be given by its name, which stands for its number. Anything else is
/// taken as it is.
pub proof fn law_what_a_level_name_stands_for(name: Seq<char>)
    ensures
        level_number("emerg"@) == "0"@,
        level_number("alert"@) == "1"@,
        level_number("crit"@) == "2"@,
        level_number("err"@) == "3"@,
        level_number("warning"@) == "4"@,
        level_number("notice"@) == "5"@,
        level_number("info"@) == "6"@,
        level_number("debug"@) == "7"@,
        name != "emerg"@ && name != "alert"@ && name != "crit"@ && name != "err"@ && name
            != "warning"@ && name != "notice"@ && name != "info"@ && name != "debug"@
            ==> level_number(name) == name,
{
    reveal_strlit("emerg");
    reveal_strlit("alert");
    reveal_strlit("crit");
    reveal_strlit("err");
    reveal_strlit("warning");
    reveal_strlit("notice");
    reveal_strlit("info");
    reveal_strlit("debug");
    assert("emerg"@.len() == 5 && "emerg"@[0] == 'e');
    assert("alert"@.len() == 5 && "alert"@[0] == 'a');
    assert("crit"@.len() == 4 && "crit"@[0] == 'c');
    assert("err"@.len() == 3);
    assert("warning"@.len() == 7);
    assert("notice"@.len() == 6);
    assert("info"@.len() == 4 && "info"@[0] == 'i');
    assert("debug"@.len() == 5 && "debug"@[0] == 'd');
}

} // verus!
