//! Resolving a complete configuration from the command line and the environment.
//!
//! Nothing is read, opened or logged here. Anything worth telling the user about
//! comes back as a warning for the caller to emit once a log sink exists.

pub mod laws;
pub mod meaning;

use crate::cli::{bytes_in, inject_forwards, raw, spliced, Invocation, InvocationView};
use crate::host::{
    address, is_bare, is_bracketless, lemma_decimal_is_bare, parse_address, Host,
};
use crate::text::{
    concat3, contents, copy_bytes, decimal, from_utf8, to_readable, integer_within, readable,
    parse_integer, push_decimal, same_bytes, to_bytes,
};
use crate::time::{milliseconds, seconds, Duration};
use vstd::prelude::*;
use vstd::utf8::{decode_utf8, encode_utf8, valid_utf8};

verus! {

/// Where ssh is, unless the environment says otherwise.
pub const DEFAULT_SSH_PATH: &'static str = "/usr/bin/ssh";

/// Seconds between connection checks.
pub const DEFAULT_POLL: u64 = 600;

/// Seconds that ssh must stay up to count as established.
pub const DEFAULT_GATE: u64 = 30;

/// Milliseconds that a probe may take for each step.
pub const DEFAULT_NET_TIMEOUT_MS: u64 = 15_000;

/// Bytes that the message in a probe may have.
pub const MAX_MESSAGE: usize = 64;

/// Seconds that a child gets to honour SIGTERM before SIGKILL.
pub const DEFAULT_KILL_TIMEOUT: u64 = 5;

// ------------------------------------------------------------- the monitor

/// How the connection is monitored.
#[derive(Debug, Clone, Copy, PartialEq, Eq, Structural)]
pub enum Monitor {
    /// `-M 0`: no monitoring; react only to ssh exiting and to signals.
    Disabled,
    /// `-M port`: a loop of forwardings. Write to `port`, read back on `port + 1`.
    Loop { port: u16 },
    /// `-M port:echo`: a remote echo service. `port` carries both directions.
    Echo { port: u16, echo: u16 },
}

/// One forwarding spec: a port, a host and a port, separated by colons.
pub open spec fn forward_over(from: nat, literal: Seq<char>, to: nat) -> Seq<char> {
    decimal(from) + ":"@ + literal + ":"@ + decimal(to)
}

/// The forwarding spec over a host.
pub open spec fn forward(from: nat, host: Host, to: nat) -> Seq<char> {
    forward_over(from, host.literal(), to)
}

/// The fields of a forwarding spec: what stands between the colons that are not
/// in brackets. `field` is what has been read of the current one.
pub open spec fn fields(s: Seq<char>, inside: bool, field: Seq<char>) -> Seq<Seq<char>>
    decreases s.len(),
{
    if s.len() == 0 {
        seq![field]
    } else if s[0] == ':' && !inside {
        seq![field] + fields(s.skip(1), false, Seq::empty())
    } else if s[0] == '[' {
        fields(s.skip(1), true, field.push(s[0]))
    } else if s[0] == ']' {
        fields(s.skip(1), false, field.push(s[0]))
    } else {
        fields(s.skip(1), inside, field.push(s[0]))
    }
}

proof fn lemma_fields_run(t: Seq<char>, rest: Seq<char>, inside: bool, field: Seq<char>)
    requires
        is_bracketless(t),
        !inside ==> is_bare(t),
    ensures
        fields(t + rest, inside, field) == fields(rest, inside, field + t),
    decreases t.len(),
{
    if t.len() == 0 {
        assert(t + rest =~= rest);
        assert(field + t =~= field);
    } else {
        let c = t.last();
        let head = t.drop_last();
        let tail = seq![c] + rest;
        assert forall|i: int| 0 <= i < head.len() implies #[trigger] head[i] != '[' && head[i]
            != ']' && (inside || head[i] != ':') by {
            assert(head[i] == t[i]);
        }
        lemma_fields_run(head, tail, inside, field);
        assert(head + tail =~= t + rest);
        assert(t[t.len() - 1] == c);
        assert(tail.skip(1) =~= rest);
        assert((field + head).push(c) =~= field + t);
    }
}

/// A forwarding spec comes apart into the port, the host and the port that it
/// was made of.
proof fn lemma_forward_fields(from: nat, host: Host, to: nat)
    requires
        is_bracketless(host.shown()),
        host is V4 ==> is_bare(host.shown()),
    ensures
        fields(forward(from, host, to), false, Seq::empty()) == seq![
            decimal(from),
            host.literal(),
            decimal(to),
        ],
{
    reveal_strlit(":");
    reveal_strlit("[");
    reveal_strlit("]");
    let none = Seq::<char>::empty();
    let a = decimal(from);
    let h = host.literal();
    let b = decimal(to);
    lemma_decimal_is_bare(from);
    lemma_decimal_is_bare(to);
    let last = fields(b, false, none);
    assert(last =~= seq![b]) by {
        lemma_fields_run(b, none, false, none);
        assert(b + none =~= b);
        assert(none + b =~= b);
    }
    let tail = ":"@ + b;
    assert(tail.skip(1) =~= b);
    assert(fields(h + tail, false, none) =~= seq![h, b]) by {
        assert(fields(tail, false, h) =~= seq![h, b]);
        match host {
            Host::V4(_) => {
                lemma_fields_run(h, tail, false, none);
                assert(none + h =~= h);
            },
            Host::V6(_) => {
                let t = host.shown();
                let closing = "]"@ + tail;
                let opened = t + closing;
                assert((h + tail).skip(1) =~= opened);
                assert(none.push('[') =~= "["@);
                lemma_fields_run(t, closing, true, "["@);
                assert(closing.skip(1) =~= tail);
                assert(("["@ + t).push(']') =~= h);
                assert(fields(h + tail, false, none) == fields(opened, true, "["@));
                assert(fields(closing, true, "["@ + t) == fields(tail, false, h));
            },
        }
    }
    let rest = ":"@ + (h + tail);
    assert(rest.skip(1) =~= h + tail);
    lemma_fields_run(a, rest, false, none);
    assert(a + rest =~= forward(from, host, to));
    assert(none + a =~= a);
    assert(fields(rest, false, a) =~= seq![a, h, b]);
}

impl Monitor {
    /// In loop mode there has to be a port above the one that is written to.
    pub open spec fn wf(self) -> bool {
        self matches Monitor::Loop { port } ==> port < u16::MAX
    }

    /// The arguments that have ssh build the monitor path, over a host that is
    /// written as `literal`.
    pub open spec fn forward_args_over(self, literal: Seq<char>) -> Seq<Seq<u8>> {
        match self {
            Monitor::Disabled => Seq::empty(),
            Monitor::Loop { port } => seq![
                raw("-L"@),
                raw(forward_over(port as nat, literal, port as nat)),
                raw("-R"@),
                raw(forward_over(port as nat, literal, port as nat + 1)),
            ],
            Monitor::Echo { port, echo } => seq![
                raw("-L"@),
                raw(forward_over(port as nat, literal, echo as nat)),
            ],
        }
    }

    /// The arguments that have ssh build the monitor path.
    pub open spec fn forward_args(self, host: Host) -> Seq<Seq<u8>> {
        self.forward_args_over(host.literal())
    }

    /// The ssh arguments that build the monitor path.
    ///
    /// Each forwarding spec among them comes apart, at the colons that are not
    /// in brackets, into exactly the port, host and port it is made of.
    pub fn forwards(&self, host: Host) -> (args: Vec<Vec<u8>>)
        requires
            self.wf(),
        ensures
            contents(args@) == self.forward_args(host),
            forall|from: nat, to: nat|
                #[trigger] fields(forward(from, host, to), false, Seq::empty()) == seq![
                    decimal(from),
                    host.literal(),
                    decimal(to),
                ],
    {
        let shown = host.text();
        let args = self.forwards_over(host.enclose(shown.as_str()).as_str());
        assert forall|from: nat, to: nat|
            #[trigger] fields(forward(from, host, to), false, Seq::empty()) == seq![
                decimal(from),
                host.literal(),
                decimal(to),
            ] by {
            lemma_forward_fields(from, host, to);
        }
        args
    }

    /// The ssh arguments that build the monitor path, over a host that is written
    /// as `literal`.
    pub fn forwards_over(&self, literal: &str) -> (args: Vec<Vec<u8>>)
        requires
            self.wf(),
        ensures
            contents(args@) == self.forward_args_over(literal@),
    {
        let mut args: Vec<Vec<u8>> = Vec::new();
        match *self {
            Monitor::Disabled => {},
            Monitor::Loop { port } => {
                args.push(to_bytes("-L"));
                args.push(forward_arg(port, literal, port));
                args.push(to_bytes("-R"));
                args.push(forward_arg(port, literal, port + 1));
            },
            Monitor::Echo { port, echo } => {
                args.push(to_bytes("-L"));
                args.push(forward_arg(port, literal, echo));
            },
        }
        assert(contents(args@) =~= self.forward_args_over(literal@));
        args
    }

    /// The port the probe is written to, if any.
    pub fn write_port(&self) -> (p: Option<u16>)
        ensures
            p == match *self {
                Monitor::Disabled => None::<u16>,
                Monitor::Loop { port } => Some(port),
                Monitor::Echo { port, echo: _ } => Some(port),
            },
    {
        match *self {
            Monitor::Disabled => None,
            Monitor::Loop { port } => Some(port),
            Monitor::Echo { port, echo: _ } => Some(port),
        }
    }

    /// The port on which to listen for the probe to come back, if any.
    pub fn read_port(&self) -> (p: Option<u16>)
        requires
            self.wf(),
        ensures
            p == match *self {
                Monitor::Loop { port } => Some((port + 1) as u16),
                _ => None::<u16>,
            },
    {
        match *self {
            Monitor::Loop { port } => Some(port + 1),
            _ => None,
        }
    }

    /// The arrangement in words.
    pub open spec fn shown(self) -> Seq<char> {
        match self {
            Monitor::Disabled => "disabled"@,
            Monitor::Loop { port } => "loop, write "@ + decimal(port as nat) + ", read "@ + decimal(
                port as nat + 1,
            ),
            Monitor::Echo { port, echo } => "echo, write "@ + decimal(port as nat)
                + " to remote echo "@ + decimal(echo as nat),
        }
    }

    /// The arrangement in words.
    pub fn text(&self) -> (s: String)
        requires
            self.wf(),
        ensures
            s@ == self.shown(),
    {
        match *self {
            Monitor::Disabled => "disabled".to_owned(),
            Monitor::Loop { port } => {
                let mut s = "loop, write ".to_owned();
                push_decimal(&mut s, port as u64);
                s.append(", read ");
                push_decimal(&mut s, port as u64 + 1);
                s
            },
            Monitor::Echo { port, echo } => {
                let mut s = "echo, write ".to_owned();
                push_decimal(&mut s, port as u64);
                s.append(" to remote echo ");
                push_decimal(&mut s, echo as u64);
                s
            },
        }
    }
}

/// One forwarding spec, as an argument.
fn forward_arg(from: u16, literal: &str, to: u16) -> (arg: Vec<u8>)
    ensures
        arg@ == raw(forward_over(from as nat, literal@, to as nat)),
{
    let mut s = String::new();
    push_decimal(&mut s, from as u64);
    s.append(":");
    s.append(literal);
    s.append(":");
    push_decimal(&mut s, to as u64);
    assert(s@ =~= forward_over(from as nat, literal@, to as nat));
    to_bytes(s.as_str())
}

// ------------------------------------------------------------------ logging

/// Log verbosity, in the order of the levels of syslog(3).
#[derive(Debug, Clone, Copy, PartialEq, Eq, PartialOrd, Ord, Structural)]
pub enum Level {
    Emerg,
    Alert,
    Crit,
    Error,
    Warning,
    Notice,
    Info,
    Debug,
}

impl Level {
    /// The number that syslog(3) gives to the level.
    pub open spec fn rank(self) -> int {
        match self {
            Level::Emerg => 0,
            Level::Alert => 1,
            Level::Crit => 2,
            Level::Error => 3,
            Level::Warning => 4,
            Level::Notice => 5,
            Level::Info => 6,
            Level::Debug => 7,
        }
    }

    /// The level that has this number.
    pub fn from_num(n: u8) -> (l: Option<Self>)
        ensures
            l is Some == (n <= 7),
            l matches Some(level) ==> level.rank() == n,
    {
        match n {
            0 => Some(Level::Emerg),
            1 => Some(Level::Alert),
            2 => Some(Level::Crit),
            3 => Some(Level::Error),
            4 => Some(Level::Warning),
            5 => Some(Level::Notice),
            6 => Some(Level::Info),
            7 => Some(Level::Debug),
            _ => None,
        }
    }

    /// The number of the level.
    pub fn num(&self) -> (n: u8)
        ensures
            n == self.rank(),
    {
        match self {
            Level::Emerg => 0,
            Level::Alert => 1,
            Level::Crit => 2,
            Level::Error => 3,
            Level::Warning => 4,
            Level::Notice => 5,
            Level::Info => 6,
            Level::Debug => 7,
        }
    }

    /// The name of the level.
    pub open spec fn shown(self) -> Seq<char> {
        match self {
            Level::Emerg => "emerg"@,
            Level::Alert => "alert"@,
            Level::Crit => "crit"@,
            Level::Error => "err"@,
            Level::Warning => "warning"@,
            Level::Notice => "notice"@,
            Level::Info => "info"@,
            Level::Debug => "debug"@,
        }
    }

    /// The name of the level.
    pub fn text(&self) -> (s: &'static str)
        ensures
            s@ == self.shown(),
    {
        match self {
            Level::Emerg => "emerg",
            Level::Alert => "alert",
            Level::Crit => "crit",
            Level::Error => "err",
            Level::Warning => "warning",
            Level::Notice => "notice",
            Level::Info => "info",
            Level::Debug => "debug",
        }
    }
}

/// Where log lines go.
#[derive(Debug, Clone, PartialEq, Eq)]
pub enum LogTarget {
    Syslog,
    File(Vec<u8>),
    Stderr,
}

/// What a [`LogTarget`] holds.
pub enum LogTargetView {
    Syslog,
    File(Seq<u8>),
    Stderr,
}

impl View for LogTarget {
    type V = LogTargetView;

    open spec fn view(&self) -> LogTargetView {
        match *self {
            LogTarget::Syslog => LogTargetView::Syslog,
            LogTarget::File(p) => LogTargetView::File(p@),
            LogTarget::Stderr => LogTargetView::Stderr,
        }
    }
}

impl LogTargetView {
    /// The target in words.
    pub open spec fn shown(self) -> Seq<char> {
        match self {
            LogTargetView::Syslog => "syslog"@,
            LogTargetView::File(p) => "file "@ + readable(p),
            LogTargetView::Stderr => "stderr"@,
        }
    }
}

impl LogTarget {
    /// The target in words.
    pub fn text(&self) -> (s: String)
        ensures
            s@ == self@.shown(),
    {
        match self {
            LogTarget::Syslog => "syslog".to_owned(),
            LogTarget::File(p) => {
                let mut s = "file ".to_owned();
                s.append(to_readable(p).as_str());
                s
            },
            LogTarget::Stderr => "stderr".to_owned(),
        }
    }
}

/// Where log lines go, and which.
#[derive(Debug, Clone, PartialEq, Eq)]
pub struct Log {
    pub target: LogTarget,
    pub level: Level,
    /// Whether every line goes to stderr as well.
    pub also_stderr: bool,
}

/// What a [`Log`] holds.
pub struct LogView {
    pub target: LogTargetView,
    pub level: Level,
    pub also_stderr: bool,
}

impl View for Log {
    type V = LogView;

    open spec fn view(&self) -> LogView {
        LogView { target: self.target@, level: self.level, also_stderr: self.also_stderr }
    }
}

// ---------------------------------------------------------- a configuration

/// Everything that is needed in order to run, fully resolved.
#[derive(Debug, Clone, PartialEq, Eq)]
pub struct Config {
    pub ssh_path: Vec<u8>,
    /// ssh's arguments, with the monitor forwards already injected.
    pub ssh_args: Vec<Vec<u8>>,
    pub monitor: Monitor,
    pub monitor_host: Host,
    pub poll: Duration,
    pub first_poll: Duration,
    pub net_timeout: Duration,
    pub gate_time: Duration,
    /// Negative means no limit.
    pub max_start: i64,
    pub max_lifetime: Option<Duration>,
    pub message: String,
    pub pid_file: Option<Vec<u8>>,
    pub touch_pid_file: bool,
    pub background: bool,
    pub kill_timeout: Duration,
    pub log: Log,
    pub dry_run: bool,
}

/// What a [`Config`] holds.
#[verifier::ext_equal]
pub struct ConfigView {
    pub ssh_path: Seq<u8>,
    pub ssh_args: Seq<Seq<u8>>,
    pub monitor: Monitor,
    pub monitor_host: Host,
    pub poll: Duration,
    pub first_poll: Duration,
    pub net_timeout: Duration,
    pub gate_time: Duration,
    pub max_start: int,
    pub max_lifetime: Option<Duration>,
    pub message: Seq<char>,
    pub pid_file: Option<Seq<u8>>,
    pub touch_pid_file: bool,
    pub background: bool,
    pub kill_timeout: Duration,
    pub log: LogView,
    pub dry_run: bool,
}

impl View for Config {
    type V = ConfigView;

    open spec fn view(&self) -> ConfigView {
        ConfigView {
            ssh_path: self.ssh_path@,
            ssh_args: contents(self.ssh_args@),
            monitor: self.monitor,
            monitor_host: self.monitor_host,
            poll: self.poll,
            first_poll: self.first_poll,
            net_timeout: self.net_timeout,
            gate_time: self.gate_time,
            max_start: self.max_start as int,
            max_lifetime: self.max_lifetime,
            message: self.message@,
            pid_file: bytes_in(self.pid_file),
            touch_pid_file: self.touch_pid_file,
            background: self.background,
            kill_timeout: self.kill_timeout,
            log: self.log@,
            dry_run: self.dry_run,
        }
    }
}

impl ConfigView {
    /// What holds of every configuration that was resolved: the ports fit, the
    /// spans are proper ones, two steps of a probe fit into the poll interval,
    /// neither poll time exceeds the lifetime, there is no starting gate in the
    /// background, and the message is short.
    pub open spec fn wf(self) -> bool {
        &&& self.monitor.wf()
        &&& self.poll.wf() && self.first_poll.wf() && self.net_timeout.wf() && self.gate_time.wf()
        &&& self.kill_timeout.wf()
        &&& self.poll.secs > 0
        &&& self.first_poll.secs > 0
        &&& 2 * self.net_timeout.total() <= self.poll.total()
        &&& self.max_lifetime matches Some(life) ==> {
            &&& life.wf() && life.secs > 0
            &&& self.poll.total() <= life.total()
            &&& self.first_poll.total() <= life.total()
        }
        &&& self.background ==> self.gate_time.total() == 0
        &&& self.max_start >= -1
        &&& encode_utf8(self.message).len() <= MAX_MESSAGE
    }
}

/// A value, or the one that is to take its place, if it is there.
pub open spec fn pinned(path: Seq<u8>, absolute: Option<Seq<u8>>) -> Seq<u8> {
    match absolute {
        Some(p) => p,
        None => path,
    }
}

impl Config {
    /// Pin down the paths that are used after the process has moved to `/`: the
    /// pid file and the log file. Each is given in absolute form, unless it has
    /// none.
    pub fn absolutize(&mut self, pid_file: Option<Vec<u8>>, log_file: Option<Vec<u8>>)
        ensures
            final(self)@ == (ConfigView {
                pid_file: match old(self)@.pid_file {
                    Some(p) => Some(pinned(p, bytes_in(pid_file))),
                    None => None,
                },
                log: LogView {
                    target: match old(self)@.log.target {
                        LogTargetView::File(p) => LogTargetView::File(
                            pinned(p, bytes_in(log_file)),
                        ),
                        other => other,
                    },
                    ..old(self)@.log
                },
                ..old(self)@
            }),
            old(self)@.wf() ==> final(self)@.wf(),
    {
        if self.pid_file.is_some() {
            if let Some(p) = pid_file {
                self.pid_file = Some(p);
            }
        }
        if let LogTarget::File(_) = self.log.target {
            if let Some(p) = log_file {
                self.log.target = LogTarget::File(p);
            }
        }
    }
}

/// Why no configuration came of it.
#[derive(Debug, PartialEq, Eq)]
pub enum ConfigError {
    /// Neither `-M`, `--monitor`, nor the environment gave a monitor port.
    NoMonitorPort,
    Invalid(String),
}

/// What a [`ConfigError`] holds.
pub enum ConfigErrorView {
    NoMonitorPort,
    Invalid(Seq<char>),
}

impl View for ConfigError {
    type V = ConfigErrorView;

    open spec fn view(&self) -> ConfigErrorView {
        match *self {
            ConfigError::NoMonitorPort => ConfigErrorView::NoMonitorPort,
            ConfigError::Invalid(m) => ConfigErrorView::Invalid(m@),
        }
    }
}

impl ConfigErrorView {
    /// The error in words.
    pub open spec fn shown(self) -> Seq<char> {
        match self {
            ConfigErrorView::NoMonitorPort => "no monitor port given"@,
            ConfigErrorView::Invalid(m) => m,
        }
    }
}

impl ConfigError {
    /// The error in words.
    pub fn text(&self) -> (s: String)
        ensures
            s@ == self@.shown(),
    {
        match self {
            ConfigError::NoMonitorPort => "no monitor port given".to_owned(),
            ConfigError::Invalid(m) => m.as_str().to_owned(),
        }
    }
}

/// A resolved configuration plus anything the user should be told about it.
#[derive(Debug, PartialEq, Eq)]
pub struct Resolved {
    pub config: Config,
    pub warnings: Vec<String>,
}

/// What a [`Resolved`] holds.
#[verifier::ext_equal]
pub struct ResolvedView {
    pub config: ConfigView,
    pub warnings: Seq<Seq<char>>,
}

/// A list of texts, each taken by what it holds.
pub open spec fn texts(list: Seq<String>) -> Seq<Seq<char>> {
    list.map_values(|s: String| s@)
}

impl View for Resolved {
    type V = ResolvedView;

    open spec fn view(&self) -> ResolvedView {
        ResolvedView { config: self.config@, warnings: texts(self.warnings@) }
    }
}

// ---------------------------------------------------------- the environment

/// A source of environment variables, so that resolution does not depend on the
/// environment of the process.
pub trait EnvSource {
    /// The value of a variable, if it is set.
    spec fn lookup(&self, key: Seq<char>) -> Option<Seq<u8>>;

    /// The value of a variable, if it is set.
    fn var(&self, key: &str) -> (v: Option<Vec<u8>>)
        ensures
            bytes_in(v) == self.lookup(key@),
    ;
}

/// An environment: the value that each variable has, if it is set.
pub type Lookup = spec_fn(Seq<char>) -> Option<Seq<u8>>;

/// The environment that a source gives.
pub open spec fn lookups<E: EnvSource + ?Sized>(env: &E) -> Lookup {
    |key: Seq<char>| env.lookup(key)
}

/// The value that the first entry for `key` has.
pub open spec fn first_value(table: Seq<(Seq<u8>, Seq<u8>)>, key: Seq<u8>) -> Option<Seq<u8>>
    decreases table.len(),
{
    if table.len() == 0 {
        None
    } else if table[0].0 == key {
        Some(table[0].1)
    } else {
        first_value(table.skip(1), key)
    }
}

/// The process environment, as it was when it was captured: names and values, in
/// order.
#[derive(Debug, Clone, PartialEq, Eq)]
pub struct ProcessEnv {
    pub vars: Vec<(Vec<u8>, Vec<u8>)>,
}

impl View for ProcessEnv {
    type V = Seq<(Seq<u8>, Seq<u8>)>;

    open spec fn view(&self) -> Seq<(Seq<u8>, Seq<u8>)> {
        self.vars@.map_values(|p: (Vec<u8>, Vec<u8>)| (p.0@, p.1@))
    }
}

impl EnvSource for ProcessEnv {
    open spec fn lookup(&self, key: Seq<char>) -> Option<Seq<u8>> {
        first_value(self@, raw(key))
    }

    fn var(&self, key: &str) -> (v: Option<Vec<u8>>) {
        let mut i: usize = 0;
        assert(self@.skip(0) =~= self@);
        while i < self.vars.len()
            invariant
                i <= self.vars.len(),
                first_value(self@, raw(key@)) == first_value(self@.skip(i as int), raw(key@)),
            decreases self.vars.len() - i,
        {
            let entry: &(Vec<u8>, Vec<u8>) = &self.vars[i];
            assert(self@.skip(i as int)[0] == (entry.0@, entry.1@));
            if same_bytes(&entry.0, key.as_bytes()) {
                return Some(copy_bytes(&entry.1));
            }
            assert(self@.skip(i as int).skip(1) =~= self@.skip(i + 1));
            i = i + 1;
        }
        None
    }
}

/// A table of texts, taken by the bytes of its entries.
pub open spec fn table_of(entries: Seq<(&str, &str)>) -> Seq<(Seq<u8>, Seq<u8>)> {
    entries.map_values(|p: (&str, &str)| (raw(p.0@), raw(p.1@)))
}

impl<'a> EnvSource for [(&'a str, &'a str)] {
    open spec fn lookup(&self, key: Seq<char>) -> Option<Seq<u8>> {
        first_value(table_of(self@), raw(key))
    }

    fn var(&self, key: &str) -> (v: Option<Vec<u8>>) {
        let ghost table = table_of(self@);
        let mut i: usize = 0;
        assert(table.skip(0) =~= table);
        while i < self.len()
            invariant
                i <= self.len(),
                table == table_of(self@),
                first_value(table, raw(key@)) == first_value(table.skip(i as int), raw(key@)),
            decreases self.len() - i,
        {
            let entry: (&str, &str) = self[i];
            assert(table.skip(i as int)[0] == (raw(entry.0@), raw(entry.1@)));
            if same_bytes(entry.0.as_bytes(), key.as_bytes()) {
                return Some(to_bytes(entry.1));
            }
            assert(table.skip(i as int).skip(1) =~= table.skip(i + 1));
            i = i + 1;
        }
        None
    }
}

/// A table of owned texts, taken by the bytes of its entries.
pub open spec fn owned_table_of(entries: Seq<(String, String)>) -> Seq<(Seq<u8>, Seq<u8>)> {
    entries.map_values(|p: (String, String)| (raw(p.0@), raw(p.1@)))
}

impl EnvSource for [(String, String)] {
    open spec fn lookup(&self, key: Seq<char>) -> Option<Seq<u8>> {
        first_value(owned_table_of(self@), raw(key))
    }

    fn var(&self, key: &str) -> (v: Option<Vec<u8>>) {
        let ghost table = owned_table_of(self@);
        let mut i: usize = 0;
        assert(table.skip(0) =~= table);
        while i < self.len()
            invariant
                i <= self.len(),
                table == owned_table_of(self@),
                first_value(table, raw(key@)) == first_value(table.skip(i as int), raw(key@)),
            decreases self.len() - i,
        {
            let entry: &(String, String) = &self[i];
            assert(table.skip(i as int)[0] == (raw(entry.0@), raw(entry.1@)));
            if same_bytes(entry.0.as_str().as_bytes(), key.as_bytes()) {
                return Some(to_bytes(entry.1.as_str()));
            }
            assert(table.skip(i as int).skip(1) =~= table.skip(i + 1));
            i = i + 1;
        }
        None
    }
}

/// `RASH_<name>` if set, else `AUTOSSH_<name>`.
pub open spec fn setting(env: Lookup, name: Seq<char>) -> Option<Seq<u8>> {
    match env("RASH_"@ + name) {
        Some(v) => Some(v),
        None => env("AUTOSSH_"@ + name),
    }
}

/// `RASH_<name>` if set, else `AUTOSSH_<name>`.
fn dual<E: EnvSource + ?Sized>(env: &E, name: &str) -> (v: Option<Vec<u8>>)
    ensures
        bytes_in(v) == setting(lookups(env), name@),
{
    let mut key = "RASH_".to_owned();
    key.append(name);
    match env.var(key.as_str()) {
        Some(v) => Some(v),
        None => {
            let mut key = "AUTOSSH_".to_owned();
            key.append(name);
            env.var(key.as_str())
        },
    }
}

// ------------------------------------------------------------------- values

/// The complaint about a value that is out of its range.
pub open spec fn invalid(what: Seq<char>, s: Seq<char>) -> ConfigErrorView {
    ConfigErrorView::Invalid("invalid "@ + what + " \""@ + s + "\""@)
}

/// The complaint about a value that is not text.
pub open spec fn not_text(what: Seq<char>) -> ConfigErrorView {
    ConfigErrorView::Invalid(what + " is not valid text"@)
}

/// A value as text.
pub open spec fn text_value(what: Seq<char>, v: Seq<u8>) -> Result<Seq<char>, ConfigErrorView> {
    if valid_utf8(v) {
        Ok(decode_utf8(v))
    } else {
        Err(not_text(what))
    }
}

/// A value as a whole number, which has to lie between `min` and `max`.
pub open spec fn number_value(
    what: Seq<char>,
    v: Seq<u8>,
    negative: bool,
    min: int,
    max: int,
) -> Result<int, ConfigErrorView> {
    match text_value(what, v) {
        Ok(s) => match integer_within(s, negative, min, max) {
            Some(n) => Ok(n),
            None => Err(invalid(what, s)),
        },
        Err(e) => Err(e),
    }
}

fn invalid_error(what: &str, s: &str) -> (e: ConfigError)
    ensures
        e@ == invalid(what@, s@),
{
    let mut m = "invalid ".to_owned();
    m.append(what);
    m.append(" \"");
    m.append(s);
    m.append("\"");
    ConfigError::Invalid(m)
}

/// Environment values must be text; one that is not UTF-8 is a configuration
/// error.
fn as_str(what: &str, v: &[u8]) -> (r: Result<String, ConfigError>)
    ensures
        match r {
            Ok(s) => text_value(what@, v@) == Ok::<Seq<char>, ConfigErrorView>(s@),
            Err(e) => text_value(what@, v@) == Err::<Seq<char>, ConfigErrorView>(e@),
        },
{
    match from_utf8(v) {
        Some(s) => Ok(s),
        None => {
            let mut m = what.to_owned();
            m.append(" is not valid text");
            Err(ConfigError::Invalid(m))
        },
    }
}

/// Parse a number, the whole of which must be consumed, in base ten.
pub fn number(what: &str, s: &str, negative: bool, min: i128, max: i128) -> (r: Result<
    i128,
    ConfigError,
>)
    requires
        -0x8000_0000_0000_0000 <= min <= max <= 0xffff_ffff_ffff_ffff,
    ensures
        match r {
            Ok(n) => integer_within(s@, negative, min as int, max as int) == Some(n as int),
            Err(e) => {
                &&& integer_within(s@, negative, min as int, max as int) is None
                &&& e@ == invalid(what@, s@)
            },
        },
{
    match parse_integer(s, negative, min, max) {
        Some(n) => Ok(n),
        None => Err(invalid_error(what, s)),
    }
}

/// A numeric setting, or its default where it is not set.
pub open spec fn number_setting(
    value: Option<Seq<u8>>,
    what: Seq<char>,
    negative: bool,
    min: int,
    max: int,
    default: int,
) -> Result<int, ConfigErrorView> {
    match value {
        Some(v) => number_value(what, v, negative, min, max),
        None => Ok(default),
    }
}

fn number_or(
    value: Option<Vec<u8>>,
    what: &str,
    negative: bool,
    min: i128,
    max: i128,
    default: i128,
) -> (r: Result<i128, ConfigError>)
    requires
        -0x8000_0000_0000_0000 <= min <= default <= max <= 0xffff_ffff_ffff_ffff,
    ensures
        match r {
            Ok(n) => {
                &&& min <= n <= max
                &&& number_setting(
                    bytes_in(value),
                    what@,
                    negative,
                    min as int,
                    max as int,
                    default as int,
                ) == Ok::<int, ConfigErrorView>(n as int)
            },
            Err(e) => number_setting(
                bytes_in(value),
                what@,
                negative,
                min as int,
                max as int,
                default as int,
            ) == Err::<int, ConfigErrorView>(e@),
        },
{
    match value {
        Some(v) => {
            let s = as_str(what, &v)?;
            number(what, s.as_str(), negative, min, max)
        },
        None => Ok(default),
    }
}

// ----------------------------------------------------------------- settings

/// Where ssh is.
pub open spec fn ssh_path_setting(env: Lookup) -> Seq<u8> {
    match env("RASH_SSH_PATH"@) {
        Some(v) => v,
        None => match env("AUTOSSH_PATH"@) {
            Some(v) => v,
            None => raw(DEFAULT_SSH_PATH@),
        },
    }
}

fn ssh_path<E: EnvSource + ?Sized>(env: &E) -> (path: Vec<u8>)
    ensures
        path@ == ssh_path_setting(lookups(env)),
{
    match env.var("RASH_SSH_PATH") {
        Some(v) => v,
        None => match env.var("AUTOSSH_PATH") {
            Some(v) => v,
            None => to_bytes(DEFAULT_SSH_PATH),
        },
    }
}

/// The log level: the chattiest where debugging is on, whatever else is set.
pub open spec fn level_setting(env: Lookup) -> Result<int, ConfigErrorView> {
    if setting(env, "DEBUG"@) is Some {
        Ok(Level::Debug.rank())
    } else {
        number_setting(
            setting(env, "LOGLEVEL"@),
            "log level"@,
            false,
            0,
            7,
            Level::Info.rank(),
        )
    }
}

fn level<E: EnvSource + ?Sized>(env: &E, debug: bool) -> (r: Result<Level, ConfigError>)
    requires
        debug == setting(lookups(env), "DEBUG"@) is Some,
    ensures
        match r {
            Ok(l) => level_setting(lookups(env)) == Ok::<int, ConfigErrorView>(l.rank()),
            Err(e) => level_setting(lookups(env)) == Err::<int, ConfigErrorView>(e@),
        },
{
    if debug {
        return Ok(Level::Debug);
    }
    let n: i128 = number_or(dual(env, "LOGLEVEL"), "log level", false, 0, 7, 6)?;
    match Level::from_num(n as u8) {
        Some(l) => Ok(l),
        None => Ok(Level::Info),
    }
}

/// Where log lines go.
pub open spec fn target_setting(env: Lookup) -> LogTargetView {
    match setting(env, "LOGFILE"@) {
        Some(p) => LogTargetView::File(p),
        None => LogTargetView::Syslog,
    }
}

/// Seconds between connection checks, before the lifetime is looked at.
pub open spec fn poll_setting(env: Lookup) -> Result<int, ConfigErrorView> {
    number_setting(
        setting(env, "POLL"@),
        "poll time"@,
        false,
        1,
        u64::MAX as int,
        DEFAULT_POLL as int,
    )
}

/// Seconds before the first connection check: those between two, unless set.
pub open spec fn first_poll_setting(env: Lookup, poll: int) -> Result<
    int,
    ConfigErrorView,
> {
    number_setting(
        setting(env, "FIRST_POLL"@),
        "first poll time"@,
        false,
        1,
        u64::MAX as int,
        poll,
    )
}

/// Seconds that ssh must stay up to count as established.
pub open spec fn gate_setting(env: Lookup) -> Result<int, ConfigErrorView> {
    number_setting(
        setting(env, "GATETIME"@),
        "gate time"@,
        true,
        0,
        i64::MAX as int,
        DEFAULT_GATE as int,
    )
}

/// How many times to start ssh, or -1.
pub open spec fn max_start_setting(env: Lookup) -> Result<int, ConfigErrorView> {
    number_setting(
        setting(env, "MAXSTART"@),
        "max start number"@,
        true,
        -1,
        i64::MAX as int,
        -1,
    )
}

/// The message in a probe.
pub open spec fn message_setting(env: Lookup) -> Result<
    Seq<char>,
    ConfigErrorView,
> {
    match setting(env, "MESSAGE"@) {
        Some(v) => match text_value("message"@, v) {
            Ok(s) => if v.len() > MAX_MESSAGE {
                Err(ConfigErrorView::Invalid("echo message may only be 64 bytes long"@))
            } else {
                Ok(s)
            },
            Err(e) => Err(e),
        },
        None => Ok(Seq::empty()),
    }
}

fn message<E: EnvSource + ?Sized>(env: &E) -> (r: Result<String, ConfigError>)
    ensures
        match r {
            Ok(s) => {
                &&& message_setting(lookups(env)) == Ok::<Seq<char>, ConfigErrorView>(s@)
                &&& encode_utf8(s@).len() <= MAX_MESSAGE
            },
            Err(e) => message_setting(lookups(env)) == Err::<Seq<char>, ConfigErrorView>(e@),
        },
{
    match dual(env, "MESSAGE") {
        Some(v) => {
            let s = as_str("message", &v)?;
            if v.len() > MAX_MESSAGE {
                return Err(
                    ConfigError::Invalid("echo message may only be 64 bytes long".to_owned()),
                );
            }
            proof {
                vstd::utf8::decode_utf8_encode_utf8(v@);
            }
            Ok(s)
        },
        None => {
            let s = String::new();
            assert(encode_utf8(s@).len() == 0);
            Ok(s)
        },
    }
}

/// Seconds to live before shutting down, or 0 for no limit.
pub open spec fn lifetime_setting(env: Lookup) -> Result<int, ConfigErrorView> {
    number_setting(
        setting(env, "MAXLIFETIME"@),
        "max lifetime"@,
        false,
        0,
        u64::MAX as int,
        0,
    )
}

/// Seconds that a child gets to honour SIGTERM.
pub open spec fn kill_setting(env: Lookup) -> Result<int, ConfigErrorView> {
    number_setting(
        env("RASH_KILL_TIMEOUT"@),
        "kill timeout"@,
        false,
        0,
        u64::MAX as int,
        DEFAULT_KILL_TIMEOUT as int,
    )
}

/// The host that a text gave, or the complaint about the text.
pub open spec fn host_or_complaint(s: Seq<char>, parsed: Option<Host>) -> Result<
    Host,
    ConfigErrorView,
> {
    match parsed {
        Some(h) => Ok(h),
        None => Err(invalid("monitor host"@, s)),
    }
}

/// The host that reading `s` gave, or the complaint that it gave none.
pub fn host_or_error(s: &str, parsed: Option<Host>) -> (r: Result<Host, ConfigError>)
    ensures
        match r {
            Ok(h) => host_or_complaint(s@, parsed) == Ok::<Host, ConfigErrorView>(h),
            Err(e) => host_or_complaint(s@, parsed) == Err::<Host, ConfigErrorView>(e@),
        },
{
    match parsed {
        Some(h) => Ok(h),
        None => Err(invalid_error("monitor host", s)),
    }
}

/// The host that the monitor connects to and listens on.
pub open spec fn host_setting(env: Lookup) -> Result<Host, ConfigErrorView> {
    match env("RASH_MONITOR_HOST"@) {
        Some(v) => match text_value("monitor host"@, v) {
            Ok(s) => host_or_complaint(s, address(s)),
            Err(e) => Err(e),
        },
        None => Ok(Host::V4([127, 0, 0, 1])),
    }
}

fn host<E: EnvSource + ?Sized>(env: &E) -> (r: Result<Host, ConfigError>)
    ensures
        match r {
            Ok(h) => host_setting(lookups(env)) == Ok::<Host, ConfigErrorView>(h),
            Err(e) => host_setting(lookups(env)) == Err::<Host, ConfigErrorView>(e@),
        },
{
    match env.var("RASH_MONITOR_HOST") {
        Some(v) => {
            let s = as_str("monitor host", &v)?;
            host_or_error(s.as_str(), parse_address(s.as_str()))
        },
        None => Ok(Host::localhost()),
    }
}

/// A value that is set to something.
pub open spec fn non_empty(v: Option<Seq<u8>>) -> Option<Seq<u8>> {
    match v {
        Some(b) => if b.len() > 0 {
            Some(b)
        } else {
            None
        },
        None => None,
    }
}

fn filled(v: Option<Vec<u8>>) -> (r: Option<Vec<u8>>)
    ensures
        bytes_in(r) == non_empty(bytes_in(v)),
{
    match v {
        Some(b) => if b.len() > 0 {
            Some(b)
        } else {
            None
        },
        None => None,
    }
}

// ----------------------------------------------------------- the monitor port

/// The first position from `i` on that holds a colon, or the end.
pub open spec fn colon_from(s: Seq<char>, i: int) -> int
    decreases s.len() - i,
{
    if i >= s.len() || s[i] == ':' {
        i
    } else {
        colon_from(s, i + 1)
    }
}

/// The echo port of a monitor spec: what follows its first colon.
pub open spec fn echo_port(e: Seq<char>) -> Result<int, ConfigErrorView> {
    match integer_within(e, false, 0, u32::MAX as int) {
        None => Err(invalid("echo port"@, e)),
        Some(n) => if n == 0 || n > u16::MAX {
            Err(ConfigErrorView::Invalid("invalid echo port  \""@ + e + "\""@))
        } else {
            Ok(n)
        },
    }
}

/// The write port of a monitor spec: all of it, or what stands before its first
/// colon. Both modes stop short of the last port, because the loop mode needs
/// the next one as well.
pub open spec fn write_port_of(p: Seq<char>) -> Result<int, ConfigErrorView> {
    match integer_within(p, false, 0, u32::MAX as int) {
        None => Err(invalid("port"@, p)),
        Some(n) => if n > 65534 {
            Err(ConfigErrorView::Invalid("monitor port ("@ + decimal(n as nat) + ") out of range"@))
        } else {
            Ok(n)
        },
    }
}

/// `port`, `port:echo_port`, or `0`. A bad echo port is complained about first.
pub open spec fn monitor_of(spec: Seq<char>) -> Result<Monitor, ConfigErrorView> {
    let c = colon_from(spec, 0);
    let echo = if c < spec.len() {
        echo_port(spec.skip(c + 1))
    } else {
        Ok(0)
    };
    match echo {
        Err(e) => Err(e),
        Ok(echo) => match write_port_of(spec.take(c)) {
            Err(e) => Err(e),
            Ok(port) => Ok(
                if port == 0 {
                    Monitor::Disabled
                } else if c < spec.len() {
                    Monitor::Echo { port: port as u16, echo: echo as u16 }
                } else {
                    Monitor::Loop { port: port as u16 }
                },
            ),
        },
    }
}

/// Parse `port`, `port:echo_port`, or `0`.
pub fn parse_monitor(spec: &str) -> (r: Result<Monitor, ConfigError>)
    ensures
        match r {
            Ok(m) => {
                &&& monitor_of(spec@) == Ok::<Monitor, ConfigErrorView>(m)
                &&& m.wf()
            },
            Err(e) => monitor_of(spec@) == Err::<Monitor, ConfigErrorView>(e@),
        },
{
    let mut port_s = String::new();
    let mut echo_s = String::new();
    let mut split: bool = false;
    let ghost c = colon_from(spec@, 0);
    assert(spec@.take(0) =~= Seq::empty());
    for ch in it: spec.chars()
        invariant
            it.seq() == spec@,
            c == colon_from(spec@, 0),
            !split ==> {
                &&& colon_from(spec@, it.index() as int) == c
                &&& port_s@ == spec@.take(it.index() as int)
                &&& echo_s@ == Seq::<char>::empty()
            },
            split ==> {
                &&& 0 <= c < it.index() <= spec@.len()
                &&& port_s@ == spec@.take(c)
                &&& echo_s@ == spec@.subrange(c + 1, it.index() as int)
            },
    {
        let ghost at = it.index() as int;
        assert(ch == spec@[at]);
        if split {
            echo_s.push(ch);
            assert(echo_s@ =~= spec@.subrange(c + 1, at + 1));
        } else if ch == ':' {
            split = true;
            assert(spec@.subrange(c + 1, at + 1) =~= Seq::empty());
        } else {
            port_s.push(ch);
            assert(port_s@ =~= spec@.take(at + 1));
        }
    }
    assert(spec@.take(spec@.len() as int) =~= spec@);
    let mut echo: u16 = 0;
    if split {
        assert(spec@.subrange(c + 1, spec@.len() as int) =~= spec@.skip(c + 1));
        let n: i128 = number("echo port", echo_s.as_str(), false, 0, 0xffff_ffff)?;
        if n == 0 || n > 0xffff {
            return Err(
                ConfigError::Invalid(concat3("invalid echo port  \"", echo_s.as_str(), "\"")),
            );
        }
        echo = n as u16;
    }
    let n: i128 = number("port", port_s.as_str(), false, 0, 0xffff_ffff)?;
    if n > 65534 {
        let mut m = "monitor port (".to_owned();
        push_decimal(&mut m, n as u64);
        m.append(") out of range");
        return Err(ConfigError::Invalid(m));
    }
    let port: u16 = n as u16;
    if port == 0 {
        Ok(Monitor::Disabled)
    } else if split {
        Ok(Monitor::Echo { port, echo })
    } else {
        Ok(Monitor::Loop { port })
    }
}

// ------------------------------------------------------------------ resolving

/// Which monitor spec counts: `--monitor` outranks the environment, which
/// outranks `-M`. Beside it, whether it came from `-M`.
pub open spec fn monitor_choice(inv: InvocationView, env: Lookup) -> Option<
    (Seq<u8>, bool),
> {
    if let Some(spec) = inv.monitor_long {
        Some((spec, false))
    } else if let Some(spec) = non_empty(setting(env, "PORT"@)) {
        Some((spec, false))
    } else if let Some(spec) = inv.monitor {
        Some((spec, true))
    } else {
        None
    }
}

/// The monitor.
pub open spec fn monitor_setting(inv: InvocationView, env: Lookup) -> Result<
    Monitor,
    ConfigErrorView,
> {
    match monitor_choice(inv, env) {
        None => Err(ConfigErrorView::NoMonitorPort),
        Some((v, _)) => match text_value("monitor port"@, v) {
            Ok(s) => monitor_of(s),
            Err(e) => Err(e),
        },
    }
}

/// The complaint in a result, if there is one.
pub open spec fn complaint<T>(r: Result<T, ConfigErrorView>) -> Option<ConfigErrorView> {
    match r {
        Ok(_) => None,
        Err(e) => Some(e),
    }
}

/// What is wrong with the environment: the first complaint, in the order in
/// which its settings are looked at.
pub open spec fn env_failure(env: Lookup) -> Option<ConfigErrorView> {
    if level_setting(env) is Err {
        complaint(level_setting(env))
    } else if poll_setting(env) is Err {
        complaint(poll_setting(env))
    } else if first_poll_setting(env, poll_setting(env)->Ok_0) is Err {
        complaint(first_poll_setting(env, poll_setting(env)->Ok_0))
    } else if gate_setting(env) is Err {
        complaint(gate_setting(env))
    } else if max_start_setting(env) is Err {
        complaint(max_start_setting(env))
    } else if message_setting(env) is Err {
        complaint(message_setting(env))
    } else if lifetime_setting(env) is Err {
        complaint(lifetime_setting(env))
    } else if kill_setting(env) is Err {
        complaint(kill_setting(env))
    } else {
        complaint(host_setting(env))
    }
}

/// What is wrong altogether. The monitor port is looked at last.
pub open spec fn failure(inv: InvocationView, env: Lookup) -> Option<
    ConfigErrorView,
> {
    if env_failure(env) is Some {
        env_failure(env)
    } else {
        complaint(monitor_setting(inv, env))
    }
}

/// A poll time, dropped to the lifetime where there is one that is shorter.
pub open spec fn clamped(poll: int, life: int) -> int {
    if 0 < life < poll {
        life
    } else {
        poll
    }
}

/// Milliseconds that a probe may take for each step: no more than half the poll
/// time, so that two steps fit in between two checks.
pub open spec fn net_timeout_of(poll: int) -> int {
    if poll * 1000 / 2 < DEFAULT_NET_TIMEOUT_MS {
        poll * 1000 / 2
    } else {
        DEFAULT_NET_TIMEOUT_MS as int
    }
}

/// A list of one text, or of none.
pub open spec fn only_if(cond: bool, s: Seq<char>) -> Seq<Seq<char>> {
    if cond {
        seq![s]
    } else {
        Seq::empty()
    }
}

/// What the user should be told about the settings.
pub open spec fn warnings_of(poll: int, first_poll: int, life: int, monitor: Monitor) -> Seq<
    Seq<char>,
> {
    only_if(
        0 < life < poll,
        "poll time is greater than lifetime, dropping poll time to "@ + decimal(life as nat),
    ) + only_if(
        0 < life < first_poll,
        "first poll time is greater than lifetime, dropping first poll time to "@ + decimal(
            life as nat,
        ),
    ) + only_if(monitor is Disabled, "port set to 0, monitoring disabled"@) + only_if(
        net_timeout_of(clamped(poll, life)) < DEFAULT_NET_TIMEOUT_MS,
        "short poll time: adjusting net timeouts to "@ + decimal(
            net_timeout_of(clamped(poll, life)) as nat,
        ),
    )
}

/// The level that has a number.
pub open spec fn level_at(n: int) -> Level {
    if n == 0 {
        Level::Emerg
    } else if n == 1 {
        Level::Alert
    } else if n == 2 {
        Level::Crit
    } else if n == 3 {
        Level::Error
    } else if n == 4 {
        Level::Warning
    } else if n == 5 {
        Level::Notice
    } else if n == 6 {
        Level::Info
    } else {
        Level::Debug
    }
}

/// The configuration that the settings come to, once nothing is wrong with them.
pub open spec fn configuration(inv: InvocationView, env: Lookup) -> ConfigView {
    let life = lifetime_setting(env)->Ok_0;
    let poll = clamped(poll_setting(env)->Ok_0, life);
    let first_poll = clamped(first_poll_setting(env, poll_setting(env)->Ok_0)->Ok_0, life);
    let monitor = monitor_setting(inv, env)->Ok_0;
    let host = host_setting(env)->Ok_0;
    // Forwards go where -M stood, but to the very front where the port came from
    // elsewhere.
    let at = if monitor_choice(inv, env)->Some_0.1 {
        inv.inject_at
    } else {
        0
    };
    ConfigView {
        ssh_path: ssh_path_setting(env),
        ssh_args: spliced(inv.ssh_args, at, monitor.forward_args(host)),
        monitor,
        monitor_host: host,
        poll: seconds(poll as u64),
        first_poll: seconds(first_poll as u64),
        net_timeout: milliseconds(net_timeout_of(poll) as u64),
        // In the background nobody is there to type a passphrase, so the
        // starting gate would only cause a spurious exit.
        gate_time: seconds(
            if inv.background {
                0
            } else {
                gate_setting(env)->Ok_0 as u64
            },
        ),
        max_start: max_start_setting(env)->Ok_0,
        max_lifetime: if life > 0 {
            Some(seconds(life as u64))
        } else {
            None
        },
        message: message_setting(env)->Ok_0,
        pid_file: non_empty(setting(env, "PIDFILE"@)),
        touch_pid_file: env("RASH_TOUCH_PIDFILE"@) is Some,
        background: inv.background,
        kill_timeout: seconds(kill_setting(env)->Ok_0 as u64),
        log: LogView {
            target: target_setting(env),
            level: level_at(level_setting(env)->Ok_0),
            also_stderr: setting(env, "DEBUG"@) is Some,
        },
        dry_run: inv.dry_run,
    }
}

/// What the command line and the environment resolve to.
pub open spec fn resolution(inv: InvocationView, env: Lookup) -> Result<
    ResolvedView,
    ConfigErrorView,
> {
    match failure(inv, env) {
        Some(e) => Err(e),
        None => Ok(
            ResolvedView {
                config: configuration(inv, env),
                warnings: warnings_of(
                    poll_setting(env)->Ok_0,
                    first_poll_setting(env, poll_setting(env)->Ok_0)->Ok_0,
                    lifetime_setting(env)->Ok_0,
                    monitor_setting(inv, env)->Ok_0,
                ),
            },
        ),
    }
}

/// The settings of the environment that can be wrong.
struct Settings {
    level: Level,
    poll: u64,
    first_poll: u64,
    gate: u64,
    max_start: i64,
    message: String,
    life: u64,
    kill: u64,
    host: Host,
}

impl Settings {
    /// These are the settings of `env`.
    spec fn of(self, env: Lookup) -> bool {
        &&& level_setting(env) == Ok::<int, ConfigErrorView>(self.level.rank())
        &&& poll_setting(env) == Ok::<int, ConfigErrorView>(self.poll as int)
        &&& first_poll_setting(env, self.poll as int) == Ok::<int, ConfigErrorView>(
            self.first_poll as int,
        )
        &&& gate_setting(env) == Ok::<int, ConfigErrorView>(self.gate as int)
        &&& max_start_setting(env) == Ok::<int, ConfigErrorView>(self.max_start as int)
        &&& message_setting(env) == Ok::<Seq<char>, ConfigErrorView>(self.message@)
        &&& lifetime_setting(env) == Ok::<int, ConfigErrorView>(self.life as int)
        &&& kill_setting(env) == Ok::<int, ConfigErrorView>(self.kill as int)
        &&& host_setting(env) == Ok::<Host, ConfigErrorView>(self.host)
        &&& self.poll > 0 && self.first_poll > 0 && self.max_start >= -1
        &&& encode_utf8(self.message@).len() <= MAX_MESSAGE
    }
}

/// Read the settings that can be wrong, in order, up to the first that is.
fn settings<E: EnvSource + ?Sized>(env: &E, debug: bool) -> (r: Result<Settings, ConfigError>)
    requires
        debug == setting(lookups(env), "DEBUG"@) is Some,
    ensures
        match r {
            Ok(s) => s.of(lookups(env)) && env_failure(lookups(env)) is None,
            Err(e) => env_failure(lookups(env)) == Some(e@),
        },
{
    let level = level(env, debug)?;
    let poll: i128 = number_or(
        dual(env, "POLL"),
        "poll time",
        false,
        1,
        0xffff_ffff_ffff_ffff,
        DEFAULT_POLL as i128,
    )?;
    let first_poll: i128 = number_or(
        dual(env, "FIRST_POLL"),
        "first poll time",
        false,
        1,
        0xffff_ffff_ffff_ffff,
        poll,
    )?;
    let gate: i128 = number_or(
        dual(env, "GATETIME"),
        "gate time",
        true,
        0,
        0x7fff_ffff_ffff_ffff,
        DEFAULT_GATE as i128,
    )?;
    let max_start: i128 = number_or(
        dual(env, "MAXSTART"),
        "max start number",
        true,
        -1,
        0x7fff_ffff_ffff_ffff,
        -1,
    )?;
    let message = message(env)?;
    let life: i128 = number_or(
        dual(env, "MAXLIFETIME"),
        "max lifetime",
        false,
        0,
        0xffff_ffff_ffff_ffff,
        0,
    )?;
    let kill: i128 = number_or(
        env.var("RASH_KILL_TIMEOUT"),
        "kill timeout",
        false,
        0,
        0xffff_ffff_ffff_ffff,
        DEFAULT_KILL_TIMEOUT as i128,
    )?;
    let host = host(env)?;
    Ok(
        Settings {
            level,
            poll: poll as u64,
            first_poll: first_poll as u64,
            gate: gate as u64,
            max_start: max_start as i64,
            message,
            life: life as u64,
            kill: kill as u64,
            host,
        },
    )
}

/// Find the monitor spec that counts, and read it. Says beside it whether it
/// came from `-M`.
fn monitor<E: EnvSource + ?Sized>(inv: &Invocation, env: &E) -> (r: Result<
    (Monitor, bool),
    ConfigError,
>)
    ensures
        match r {
            Ok((m, from_dash_m)) => {
                &&& monitor_setting(inv@, lookups(env)) == Ok::<Monitor, ConfigErrorView>(m)
                &&& monitor_choice(inv@, lookups(env))->Some_0.1 == from_dash_m
                &&& m.wf()
            },
            Err(e) => monitor_setting(inv@, lookups(env)) == Err::<Monitor, ConfigErrorView>(e@),
        },
{
    let mut from_dash_m: bool = false;
    let spec: Vec<u8> = match &inv.monitor_long {
        Some(s) => copy_bytes(s),
        None => match filled(dual(env, "PORT")) {
            Some(s) => s,
            None => match &inv.monitor {
                Some(s) => {
                    from_dash_m = true;
                    copy_bytes(s)
                },
                None => {
                    return Err(ConfigError::NoMonitorPort);
                },
            },
        },
    };
    let spec = as_str("monitor port", &spec)?;
    let monitor = parse_monitor(spec.as_str())?;
    Ok((monitor, from_dash_m))
}

/// Add a warning that ends in a number.
fn warn(warnings: &mut Vec<String>, text: &str, n: u64)
    ensures
        texts(final(warnings)@) == texts(old(warnings)@) + seq![text@ + decimal(n as nat)],
{
    let mut s = text.to_owned();
    push_decimal(&mut s, n);
    warnings.push(s);
    assert(texts(warnings@) =~= texts(old(warnings)@) + seq![text@ + decimal(n as nat)]);
}

/// What the user should be told about the settings.
fn warnings(poll: u64, first_poll: u64, life: u64, monitor: Monitor) -> (list: Vec<String>)
    ensures
        texts(list@) == warnings_of(poll as int, first_poll as int, life as int, monitor),
{
    let mut list: Vec<String> = Vec::new();
    let mut poll_secs: u64 = poll;
    assert(texts(list@) =~= Seq::empty());
    if 0 < life && life < poll {
        warn(&mut list, "poll time is greater than lifetime, dropping poll time to ", life);
        poll_secs = life;
    }
    if 0 < life && life < first_poll {
        warn(
            &mut list,
            "first poll time is greater than lifetime, dropping first poll time to ",
            life,
        );
    }
    if let Monitor::Disabled = monitor {
        let ghost before = list@;
        list.push("port set to 0, monitoring disabled".to_owned());
        assert(texts(list@) =~= texts(before) + seq!["port set to 0, monitoring disabled"@]);
    }
    if poll_secs < 30 {
        warn(&mut list, "short poll time: adjusting net timeouts to ", poll_secs * 500);
    }
    assert(texts(list@) =~= warnings_of(poll as int, first_poll as int, life as int, monitor));
    list
}

/// Resolve the command line and environment into a runnable configuration.
pub fn resolve<E: EnvSource + ?Sized>(inv: Invocation, env: &E) -> (r: Result<
    Resolved,
    ConfigError,
>)
    ensures
        match r {
            Ok(v) => {
                &&& resolution(inv@, lookups(env)) == Ok::<ResolvedView, ConfigErrorView>(v@)
                &&& v@.config.wf()
            },
            Err(e) => resolution(inv@, lookups(env)) == Err::<ResolvedView, ConfigErrorView>(e@),
        },
{
    let mut inv = inv;
    let ghost asked = inv@;
    let debug: bool = dual(env, "DEBUG").is_some();
    let set = settings(env, debug)?;
    let (monitor, from_dash_m) = monitor(&inv, env)?;
    let warnings = warnings(set.poll, set.first_poll, set.life, monitor);

    // A lifetime shorter than a poll interval would mean never polling at all.
    let short: bool = set.life > 0;
    let poll: u64 = if short && set.life < set.poll { set.life } else { set.poll };
    let first_poll: u64 = if short && set.life < set.first_poll {
        set.life
    } else {
        set.first_poll
    };
    // Short poll times need proportionally shorter network timeouts.
    let net_timeout: u64 = if poll < 30 { poll * 500 } else { DEFAULT_NET_TIMEOUT_MS };
    assert(net_timeout == net_timeout_of(poll as int));
    // Nobody is there to type a passphrase in the background.
    let gate: u64 = if inv.background { 0 } else { set.gate };

    if !from_dash_m {
        inv.inject_at = 0;
    }
    inject_forwards(&mut inv, monitor.forwards(set.host));
    let config = Config {
        ssh_path: ssh_path(env),
        ssh_args: inv.ssh_args,
        monitor,
        monitor_host: set.host,
        poll: Duration::from_secs(poll),
        first_poll: Duration::from_secs(first_poll),
        net_timeout: Duration::from_millis(net_timeout),
        gate_time: Duration::from_secs(gate),
        max_start: set.max_start,
        max_lifetime: if short { Some(Duration::from_secs(set.life)) } else { None },
        message: set.message,
        pid_file: filled(dual(env, "PIDFILE")),
        touch_pid_file: env.var("RASH_TOUCH_PIDFILE").is_some(),
        background: inv.background,
        kill_timeout: Duration::from_secs(set.kill),
        log: Log {
            target: match dual(env, "LOGFILE") {
                Some(p) => LogTarget::File(p),
                None => LogTarget::Syslog,
            },
            level: set.level,
            also_stderr: debug,
        },
        dry_run: inv.dry_run,
    };
    assert(config@ =~= configuration(asked, lookups(env)));
    Ok(Resolved { config, warnings })
}

} // verus!
