//! What each setting means: which variable it is read from, which values it takes, what
//! it is without one, and what is said of a value that it does not take.

use crate::cli::InvocationView;
use crate::config::laws::{lemma_first_colon, lemma_no_colon};
use crate::config::{
    first_value, lookups, monitor_of, pinned, resolution, setting, ConfigErrorView, Level,
    LogTargetView, Lookup, Monitor, ProcessEnv, ResolvedView,
};
use crate::host::{address, v6_text, Host};
use crate::text::{decimal, integer, law_decimal_reads_back, readable};
use crate::time::{seconds, Duration};
use vstd::prelude::*;
use vstd::utf8::{decode_utf8, encode_utf8, valid_utf8};

verus! {

// ------------------------------------------------------------------ the names

/// The value of the first of two variables that is set.
pub open spec fn either(env: Lookup, first: Seq<char>, second: Seq<char>) -> Option<Seq<u8>> {
    if env(first) is Some {
        env(first)
    } else {
        env(second)
    }
}

/// Each setting is read from two variables, of which rash's own counts first.
pub proof fn law_the_names_of_the_variables(env: Lookup)
    ensures
        setting(env, "DEBUG"@) == either(env, "RASH_DEBUG"@, "AUTOSSH_DEBUG"@),
        setting(env, "LOGLEVEL"@) == either(env, "RASH_LOGLEVEL"@, "AUTOSSH_LOGLEVEL"@),
        setting(env, "LOGFILE"@) == either(env, "RASH_LOGFILE"@, "AUTOSSH_LOGFILE"@),
        setting(env, "POLL"@) == either(env, "RASH_POLL"@, "AUTOSSH_POLL"@),
        setting(env, "FIRST_POLL"@) == either(env, "RASH_FIRST_POLL"@, "AUTOSSH_FIRST_POLL"@),
        setting(env, "GATETIME"@) == either(env, "RASH_GATETIME"@, "AUTOSSH_GATETIME"@),
        setting(env, "MAXSTART"@) == either(env, "RASH_MAXSTART"@, "AUTOSSH_MAXSTART"@),
        setting(env, "MESSAGE"@) == either(env, "RASH_MESSAGE"@, "AUTOSSH_MESSAGE"@),
        setting(env, "MAXLIFETIME"@) == either(env, "RASH_MAXLIFETIME"@, "AUTOSSH_MAXLIFETIME"@),
        setting(env, "PIDFILE"@) == either(env, "RASH_PIDFILE"@, "AUTOSSH_PIDFILE"@),
        setting(env, "PORT"@) == either(env, "RASH_PORT"@, "AUTOSSH_PORT"@),
{
    reveal_strlit("RASH_");
    reveal_strlit("AUTOSSH_");
    reveal_strlit("DEBUG");
    reveal_strlit("RASH_DEBUG");
    reveal_strlit("AUTOSSH_DEBUG");
    assert("RASH_"@ + "DEBUG"@ =~= "RASH_DEBUG"@);
    assert("AUTOSSH_"@ + "DEBUG"@ =~= "AUTOSSH_DEBUG"@);
    reveal_strlit("LOGLEVEL");
    reveal_strlit("RASH_LOGLEVEL");
    reveal_strlit("AUTOSSH_LOGLEVEL");
    assert("RASH_"@ + "LOGLEVEL"@ =~= "RASH_LOGLEVEL"@);
    assert("AUTOSSH_"@ + "LOGLEVEL"@ =~= "AUTOSSH_LOGLEVEL"@);
    reveal_strlit("LOGFILE");
    reveal_strlit("RASH_LOGFILE");
    reveal_strlit("AUTOSSH_LOGFILE");
    assert("RASH_"@ + "LOGFILE"@ =~= "RASH_LOGFILE"@);
    assert("AUTOSSH_"@ + "LOGFILE"@ =~= "AUTOSSH_LOGFILE"@);
    reveal_strlit("POLL");
    reveal_strlit("RASH_POLL");
    reveal_strlit("AUTOSSH_POLL");
    assert("RASH_"@ + "POLL"@ =~= "RASH_POLL"@);
    assert("AUTOSSH_"@ + "POLL"@ =~= "AUTOSSH_POLL"@);
    reveal_strlit("FIRST_POLL");
    reveal_strlit("RASH_FIRST_POLL");
    reveal_strlit("AUTOSSH_FIRST_POLL");
    assert("RASH_"@ + "FIRST_POLL"@ =~= "RASH_FIRST_POLL"@);
    assert("AUTOSSH_"@ + "FIRST_POLL"@ =~= "AUTOSSH_FIRST_POLL"@);
    reveal_strlit("GATETIME");
    reveal_strlit("RASH_GATETIME");
    reveal_strlit("AUTOSSH_GATETIME");
    assert("RASH_"@ + "GATETIME"@ =~= "RASH_GATETIME"@);
    assert("AUTOSSH_"@ + "GATETIME"@ =~= "AUTOSSH_GATETIME"@);
    reveal_strlit("MAXSTART");
    reveal_strlit("RASH_MAXSTART");
    reveal_strlit("AUTOSSH_MAXSTART");
    assert("RASH_"@ + "MAXSTART"@ =~= "RASH_MAXSTART"@);
    assert("AUTOSSH_"@ + "MAXSTART"@ =~= "AUTOSSH_MAXSTART"@);
    reveal_strlit("MESSAGE");
    reveal_strlit("RASH_MESSAGE");
    reveal_strlit("AUTOSSH_MESSAGE");
    assert("RASH_"@ + "MESSAGE"@ =~= "RASH_MESSAGE"@);
    assert("AUTOSSH_"@ + "MESSAGE"@ =~= "AUTOSSH_MESSAGE"@);
    reveal_strlit("MAXLIFETIME");
    reveal_strlit("RASH_MAXLIFETIME");
    reveal_strlit("AUTOSSH_MAXLIFETIME");
    assert("RASH_"@ + "MAXLIFETIME"@ =~= "RASH_MAXLIFETIME"@);
    assert("AUTOSSH_"@ + "MAXLIFETIME"@ =~= "AUTOSSH_MAXLIFETIME"@);
    reveal_strlit("PIDFILE");
    reveal_strlit("RASH_PIDFILE");
    reveal_strlit("AUTOSSH_PIDFILE");
    assert("RASH_"@ + "PIDFILE"@ =~= "RASH_PIDFILE"@);
    assert("AUTOSSH_"@ + "PIDFILE"@ =~= "AUTOSSH_PIDFILE"@);
    reveal_strlit("PORT");
    reveal_strlit("RASH_PORT");
    reveal_strlit("AUTOSSH_PORT");
    assert("RASH_"@ + "PORT"@ =~= "RASH_PORT"@);
    assert("AUTOSSH_"@ + "PORT"@ =~= "AUTOSSH_PORT"@);
}

// ----------------------------------------------------------------- the values

/// The number that a value stands for, or `default` where there is no value.
pub open spec fn number_or_default(v: Option<Seq<u8>>, negative: bool, default: int) -> int {
    match v {
        Some(b) => integer(decode_utf8(b), negative)->Some_0,
        None => default,
    }
}

/// The lesser of a poll time and a lifetime; 0 stands for no lifetime.
pub open spec fn at_most(poll: int, life: int) -> int {
    if life > 0 && poll > life {
        life
    } else {
        poll
    }
}

/// The poll times, by their variables. The first poll time is the number given for it,
/// and the poll time's where none is given. The lifetime is the only thing that either
/// is dropped to, and 0 is no lifetime.
pub proof fn law_what_the_poll_times_are(inv: InvocationView, env: Lookup)
    ensures
        resolution(inv, env) matches Ok(r) ==> {
            let poll = number_or_default(
                either(env, "RASH_POLL"@, "AUTOSSH_POLL"@),
                false,
                600,
            );
            let first = number_or_default(
                either(env, "RASH_FIRST_POLL"@, "AUTOSSH_FIRST_POLL"@),
                false,
                poll,
            );
            let life = number_or_default(
                either(env, "RASH_MAXLIFETIME"@, "AUTOSSH_MAXLIFETIME"@),
                false,
                0,
            );
            &&& 1 <= poll <= u64::MAX && 1 <= first <= u64::MAX && 0 <= life <= u64::MAX
            &&& r.config.poll == (Duration { secs: at_most(poll, life) as u64, nanos: 0 })
            &&& r.config.first_poll == (Duration { secs: at_most(first, life) as u64, nanos: 0 })
            &&& r.config.max_lifetime == if life > 0 {
                Some(Duration { secs: life as u64, nanos: 0 })
            } else {
                None
            }
        },
{
    law_the_names_of_the_variables(env);
}

/// A first poll time of `n` seconds is one of `n` seconds, whatever the poll time is;
/// only a shorter lifetime takes its place.
pub proof fn law_the_first_poll_time_is_the_one_given(
    inv: InvocationView,
    env: Lookup,
    n: nat,
)
    requires
        n > 0,
        either(env, "RASH_FIRST_POLL"@, "AUTOSSH_FIRST_POLL"@) == Some(encode_utf8(decimal(n))),
    ensures
        resolution(inv, env) matches Ok(r) ==> {
            &&& n <= u64::MAX
            &&& match r.config.max_lifetime {
                Some(life) if life.secs < n => r.config.first_poll == seconds(life.secs),
                _ => r.config.first_poll == seconds(n as u64),
            }
        },
        forall|life: nat|
            life > 0 && either(env, "RASH_MAXLIFETIME"@, "AUTOSSH_MAXLIFETIME"@) == Some(
                encode_utf8(#[trigger] decimal(life)),
            ) ==> (resolution(inv, env) matches Ok(r) ==> r.config.first_poll == seconds(
                if life < n {
                    life as u64
                } else {
                    n as u64
                },
            )),
        either(env, "RASH_MAXLIFETIME"@, "AUTOSSH_MAXLIFETIME"@) is None ==> (resolution(
            inv,
            env,
        ) matches Ok(r) ==> r.config.first_poll == seconds(n as u64)),
{
    law_what_the_poll_times_are(inv, env);
    law_decimal_reads_back(n);
    vstd::utf8::encode_utf8_decode_utf8(decimal(n));
    assert forall|life: nat|
        life > 0 && either(env, "RASH_MAXLIFETIME"@, "AUTOSSH_MAXLIFETIME"@) == Some(
            encode_utf8(#[trigger] decimal(life)),
        ) implies (resolution(inv, env) matches Ok(r) ==> r.config.first_poll == seconds(
        if life < n {
            life as u64
        } else {
            n as u64
        },
    )) by {
        law_decimal_reads_back(life);
        vstd::utf8::encode_utf8_decode_utf8(decimal(life));
    }
}

/// How long a probe waits at each step: half the poll time in milliseconds, where that
/// is less than fifteen seconds, and fifteen seconds otherwise.
pub proof fn law_what_the_network_timeout_is(inv: InvocationView, env: Lookup)
    ensures
        resolution(inv, env) matches Ok(r) ==> {
            let poll = r.config.poll.secs;
            let wait = r.config.net_timeout;
            &&& poll >= 30 ==> wait.secs == 15 && wait.nanos == 0
            &&& poll < 30 && poll % 2 == 0 ==> wait.secs == poll / 2 && wait.nanos == 0
            &&& poll < 30 && poll % 2 == 1 ==> wait.secs == poll / 2 && wait.nanos == 500_000_000
        },
{
    law_what_the_poll_times_are(inv, env);
}

/// The other numbers, by their variables. The starting gate is off in the background,
/// whatever was given for it.
pub proof fn law_what_the_other_numbers_are(inv: InvocationView, env: Lookup)
    ensures
        resolution(inv, env) matches Ok(r) ==> {
            let gate = number_or_default(
                either(env, "RASH_GATETIME"@, "AUTOSSH_GATETIME"@),
                true,
                30,
            );
            let starts = number_or_default(
                either(env, "RASH_MAXSTART"@, "AUTOSSH_MAXSTART"@),
                true,
                -1,
            );
            let kill = number_or_default(env("RASH_KILL_TIMEOUT"@), false, 5);
            &&& 0 <= gate <= i64::MAX && -1 <= starts <= i64::MAX && 0 <= kill <= u64::MAX
            &&& inv.background ==> r.config.gate_time == (Duration { secs: 0, nanos: 0 })
            &&& !inv.background ==> r.config.gate_time == (Duration {
                secs: gate as u64,
                nanos: 0,
            })
            &&& r.config.max_start == starts
            &&& r.config.kill_timeout == (Duration { secs: kill as u64, nanos: 0 })
        },
{
    law_the_names_of_the_variables(env);
}

/// Where lines are logged, and which: debugging asks for every line, and for stderr
/// too; otherwise the level counts, by its number. Lines go to the log file, and to
/// syslog where there is none.
pub proof fn law_what_the_log_settings_are(inv: InvocationView, env: Lookup)
    ensures
        resolution(inv, env) matches Ok(r) ==> {
            let debug = either(env, "RASH_DEBUG"@, "AUTOSSH_DEBUG"@) is Some;
            let n = number_or_default(
                either(env, "RASH_LOGLEVEL"@, "AUTOSSH_LOGLEVEL"@),
                false,
                6,
            );
            let level = r.config.log.level;
            &&& r.config.log.also_stderr == debug
            &&& debug ==> level == Level::Debug
            &&& !debug ==> {
                &&& 0 <= n <= 7
                &&& n == 0 ==> level == Level::Emerg
                &&& n == 1 ==> level == Level::Alert
                &&& n == 2 ==> level == Level::Crit
                &&& n == 3 ==> level == Level::Error
                &&& n == 4 ==> level == Level::Warning
                &&& n == 5 ==> level == Level::Notice
                &&& n == 6 ==> level == Level::Info
                &&& n == 7 ==> level == Level::Debug
            }
            &&& match either(env, "RASH_LOGFILE"@, "AUTOSSH_LOGFILE"@) {
                Some(path) => r.config.log.target == LogTargetView::File(path),
                None => r.config.log.target == LogTargetView::Syslog,
            }
        },
{
    law_the_names_of_the_variables(env);
}

/// The paths, the text of a probe, the monitor host, and what the command line alone
/// decides. An empty pid file is none.
pub proof fn law_what_the_other_settings_are(inv: InvocationView, env: Lookup)
    ensures
        resolution(inv, env) matches Ok(r) ==> {
            let c = r.config;
            &&& c.ssh_path == match either(env, "RASH_SSH_PATH"@, "AUTOSSH_PATH"@) {
                Some(path) => path,
                None => encode_utf8("/usr/bin/ssh"@),
            }
            &&& match either(env, "RASH_PIDFILE"@, "AUTOSSH_PIDFILE"@) {
                Some(path) => if path.len() > 0 {
                    c.pid_file == Some(path)
                } else {
                    c.pid_file is None
                },
                None => c.pid_file is None,
            }
            &&& c.touch_pid_file == env("RASH_TOUCH_PIDFILE"@) is Some
            &&& match either(env, "RASH_MESSAGE"@, "AUTOSSH_MESSAGE"@) {
                Some(text) => c.message == decode_utf8(text) && text.len() <= 64,
                None => c.message.len() == 0,
            }
            &&& match env("RASH_MONITOR_HOST"@) {
                Some(text) => address(decode_utf8(text)) == Some(c.monitor_host),
                None => c.monitor_host == Host::V4([127, 0, 0, 1]),
            }
            &&& c.background == inv.background
            &&& c.dry_run == inv.dry_run
        },
{
    law_the_names_of_the_variables(env);
}

// ----------------------------------------------------------------- the monitor

/// What is said of a port that is no number.
pub open spec fn no_such(what: Seq<char>, s: Seq<char>) -> ConfigErrorView {
    ConfigErrorView::Invalid("invalid "@ + what + " \""@ + s + "\""@)
}

/// What a monitor spec means: a port by itself is the loop mode's, and 0 turns
/// monitoring off. With a colon it is the echo mode's, and the echo port follows; that
/// one is looked at first, and may not be 0.
pub proof fn law_what_a_monitor_spec_means(p: Seq<char>, e: Seq<char>)
    requires
        forall|k: int| 0 <= k < p.len() ==> #[trigger] p[k] != ':',
    ensures
        monitor_of(p) == match integer(p, false) {
            None => Err::<Monitor, ConfigErrorView>(no_such("port"@, p)),
            Some(n) => if n > 4_294_967_295 {
                Err(no_such("port"@, p))
            } else if n > 65_534 {
                Err(
                    ConfigErrorView::Invalid(
                        "monitor port ("@ + decimal(n as nat) + ") out of range"@,
                    ),
                )
            } else if n == 0 {
                Ok(Monitor::Disabled)
            } else {
                Ok(Monitor::Loop { port: n as u16 })
            },
        },
        monitor_of(p + seq![':'] + e) == match integer(e, false) {
            None => Err::<Monitor, ConfigErrorView>(no_such("echo port"@, e)),
            Some(m) => if m > 4_294_967_295 {
                Err(no_such("echo port"@, e))
            } else if m == 0 || m > 65_535 {
                Err(ConfigErrorView::Invalid("invalid echo port  \""@ + e + "\""@))
            } else {
                match integer(p, false) {
                    None => Err(no_such("port"@, p)),
                    Some(n) => if n > 4_294_967_295 {
                        Err(no_such("port"@, p))
                    } else if n > 65_534 {
                        Err(
                            ConfigErrorView::Invalid(
                                "monitor port ("@ + decimal(n as nat) + ") out of range"@,
                            ),
                        )
                    } else if n == 0 {
                        Ok(Monitor::Disabled)
                    } else {
                        Ok(Monitor::Echo { port: n as u16, echo: m as u16 })
                    },
                }
            },
        },
{
    let both = p + seq![':'] + e;
    lemma_no_colon(p, 0);
    assert(p.take(p.len() as int) =~= p);
    assert forall|k: int| 0 <= k < p.len() implies #[trigger] both[k] != ':' by {
        assert(both[k] == p[k]);
    }
    assert(both[p.len() as int] == ':');
    lemma_first_colon(both, 0, p.len() as int);
    assert(both.take(p.len() as int) =~= p);
    assert(both.skip(p.len() as int + 1) =~= e);
}

/// Which monitor spec counts, and where its forwards go. `--monitor` counts first, then
/// the environment where it gives one that is not empty, and `-M` last. Only for `-M`
/// do they go where that stood, and for the others to the front; ssh's own arguments
/// keep their order around them. Each forward names the monitor host between its ports.
pub proof fn law_what_the_monitor_is(inv: InvocationView, env: Lookup)
    ensures
        resolution(inv, env) matches Ok(r) ==> {
            let named = either(env, "RASH_PORT"@, "AUTOSSH_PORT"@);
            let given = named is Some && named->Some_0.len() > 0;
            let spec = if inv.monitor_long is Some {
                inv.monitor_long
            } else if given {
                named
            } else {
                inv.monitor
            };
            let at = if inv.monitor_long is None && !given {
                if inv.inject_at < inv.ssh_args.len() {
                    inv.inject_at as int
                } else {
                    inv.ssh_args.len() as int
                }
            } else {
                0
            };
            let host = written(r.config.monitor_host);
            let forwards: Seq<Seq<u8>> = match r.config.monitor {
                Monitor::Disabled => Seq::empty(),
                Monitor::Loop { port } => {
                    let p = decimal(port as nat);
                    seq![
                        encode_utf8("-L"@),
                        encode_utf8(p + ":"@ + host + ":"@ + p),
                        encode_utf8("-R"@),
                        encode_utf8(p + ":"@ + host + ":"@ + decimal(port as nat + 1)),
                    ]
                },
                Monitor::Echo { port, echo } => seq![
                    encode_utf8("-L"@),
                    encode_utf8(
                        decimal(port as nat) + ":"@ + host + ":"@ + decimal(echo as nat),
                    ),
                ],
            };
            &&& spec is Some && valid_utf8(spec->Some_0)
            &&& monitor_of(decode_utf8(spec->Some_0)) == Ok::<Monitor, ConfigErrorView>(
                r.config.monitor,
            )
            &&& r.config.ssh_args == inv.ssh_args.take(at) + forwards + inv.ssh_args.skip(at)
        },
{
    law_the_names_of_the_variables(env);
    if let Ok(r) = resolution(inv, env) {
        let forwards = r.config.monitor.forward_args(r.config.monitor_host);
        let args = inv.ssh_args;
        let n = args.len() as int;
        assert(args.take(n) =~= args);
        assert(args.skip(n) =~= Seq::empty());
        assert(args + forwards + Seq::<Seq<u8>>::empty() =~= args + forwards);
        if n == 0 {
            assert(args.take(0) =~= args);
            assert(args.skip(0) =~= args);
            assert(args + forwards =~= args.take(0) + forwards + args.skip(0));
        }
    }
}

/// An address the way a forward has it: an IPv4 address as four numbers with dots
/// between them, and an IPv6 address in brackets.
pub open spec fn written(host: Host) -> Seq<char> {
    match host {
        Host::V4(o) => decimal(o@[0] as nat) + "."@ + decimal(o@[1] as nat) + "."@ + decimal(
            o@[2] as nat,
        ) + "."@ + decimal(o@[3] as nat),
        Host::V6(g) => "["@ + v6_text(g@) + "]"@,
    }
}

// ------------------------------------------------------------------ the refusals

/// What is said of a value that is no number, or none between `min` and `max`.
pub open spec fn refused(
    what: Seq<char>,
    v: Option<Seq<u8>>,
    negative: bool,
    min: int,
    max: int,
) -> Option<Seq<char>> {
    match v {
        None => None,
        Some(b) => if !valid_utf8(b) {
            Some(what + " is not valid text"@)
        } else {
            let s = decode_utf8(b);
            match integer(s, negative) {
                Some(n) if min <= n <= max => None,
                _ => Some("invalid "@ + what + " \""@ + s + "\""@),
            }
        },
    }
}

/// The first of two complaints.
pub open spec fn sooner(a: Option<Seq<char>>, b: Option<Seq<char>>) -> Option<Seq<char>> {
    if a is Some {
        a
    } else {
        b
    }
}

/// What is said of the environment, the first complaint of several: about the level,
/// the two poll times, the starting gate, the number of starts, the text of a probe, the
/// lifetime, the kill timeout, and the monitor host, in this order.
pub open spec fn said_of(env: Lookup) -> Option<Seq<char>> {
    let level = if either(env, "RASH_DEBUG"@, "AUTOSSH_DEBUG"@) is Some {
        None
    } else {
        refused(
            "log level"@,
            either(env, "RASH_LOGLEVEL"@, "AUTOSSH_LOGLEVEL"@),
            false,
            0,
            7,
        )
    };
    let poll = refused(
        "poll time"@,
        either(env, "RASH_POLL"@, "AUTOSSH_POLL"@),
        false,
        1,
        0xffff_ffff_ffff_ffff,
    );
    let first = refused(
        "first poll time"@,
        either(env, "RASH_FIRST_POLL"@, "AUTOSSH_FIRST_POLL"@),
        false,
        1,
        0xffff_ffff_ffff_ffff,
    );
    let gate = refused(
        "gate time"@,
        either(env, "RASH_GATETIME"@, "AUTOSSH_GATETIME"@),
        true,
        0,
        0x7fff_ffff_ffff_ffff,
    );
    let starts = refused(
        "max start number"@,
        either(env, "RASH_MAXSTART"@, "AUTOSSH_MAXSTART"@),
        true,
        -1,
        0x7fff_ffff_ffff_ffff,
    );
    let message = match either(env, "RASH_MESSAGE"@, "AUTOSSH_MESSAGE"@) {
        None => None,
        Some(b) => if !valid_utf8(b) {
            Some("message is not valid text"@)
        } else if b.len() > 64 {
            Some("echo message may only be 64 bytes long"@)
        } else {
            None
        },
    };
    let life = refused(
        "max lifetime"@,
        either(env, "RASH_MAXLIFETIME"@, "AUTOSSH_MAXLIFETIME"@),
        false,
        0,
        0xffff_ffff_ffff_ffff,
    );
    let kill = refused(
        "kill timeout"@,
        env("RASH_KILL_TIMEOUT"@),
        false,
        0,
        0xffff_ffff_ffff_ffff,
    );
    let host = match env("RASH_MONITOR_HOST"@) {
        None => None,
        Some(b) => if !valid_utf8(b) {
            Some("monitor host is not valid text"@)
        } else if address(decode_utf8(b)) is None {
            Some("invalid monitor host \""@ + decode_utf8(b) + "\""@)
        } else {
            None
        },
    };
    sooner(
        level,
        sooner(
            poll,
            sooner(
                first,
                sooner(
                    gate,
                    sooner(starts, sooner(message, sooner(life, sooner(kill, host)))),
                ),
            ),
        ),
    )
}

/// What is refused, and in which words. The environment is looked at first and the
/// monitor spec last. Where nothing is said, there is a configuration.
pub proof fn law_what_is_refused(inv: InvocationView, env: Lookup)
    ensures
        ({
            let named = either(env, "RASH_PORT"@, "AUTOSSH_PORT"@);
            let spec = if inv.monitor_long is Some {
                inv.monitor_long
            } else if named is Some && named->Some_0.len() > 0 {
                named
            } else {
                inv.monitor
            };
            match said_of(env) {
                Some(m) => resolution(inv, env) == Err::<ResolvedView, ConfigErrorView>(
                    ConfigErrorView::Invalid(m),
                ),
                None => match spec {
                    None => resolution(inv, env) == Err::<ResolvedView, ConfigErrorView>(
                        ConfigErrorView::NoMonitorPort,
                    ),
                    Some(b) => if !valid_utf8(b) {
                        resolution(inv, env) == Err::<ResolvedView, ConfigErrorView>(
                            ConfigErrorView::Invalid("monitor port is not valid text"@),
                        )
                    } else {
                        match monitor_of(decode_utf8(b)) {
                            Err(e) => resolution(inv, env) == Err::<
                                ResolvedView,
                                ConfigErrorView,
                            >(e),
                            Ok(m) => resolution(inv, env) is Ok,
                        }
                    },
                },
            }
        }),
{
    law_the_names_of_the_variables(env);
    reveal_strlit("message");
    reveal_strlit("monitor host");
    reveal_strlit("monitor port");
    reveal_strlit(" is not valid text");
    reveal_strlit("message is not valid text");
    reveal_strlit("monitor host is not valid text");
    reveal_strlit("monitor port is not valid text");
    reveal_strlit("invalid ");
    reveal_strlit(" \"");
    reveal_strlit("invalid monitor host \"");
    assert("message"@ + " is not valid text"@ =~= "message is not valid text"@);
    assert("monitor host"@ + " is not valid text"@ =~= "monitor host is not valid text"@);
    assert("monitor port"@ + " is not valid text"@ =~= "monitor port is not valid text"@);
    assert("invalid "@ + "monitor host"@ + " \""@ =~= "invalid monitor host \""@);
}

/// What a refusal says.
pub proof fn law_what_a_refusal_says(m: Seq<char>)
    ensures
        ConfigErrorView::NoMonitorPort.shown() == "no monitor port given"@,
        ConfigErrorView::Invalid(m).shown() == m,
{
}

// ------------------------------------------------------------------ the warnings

/// A text, where there is reason for it.
pub open spec fn in_case(reason: bool, s: Seq<char>) -> Seq<Seq<char>> {
    if reason {
        seq![s]
    } else {
        Seq::empty()
    }
}

/// What is warned of: a poll time that exceeds the lifetime, a first poll time that
/// does, monitoring that is off, and a poll time of less than thirty seconds; and
/// nothing else.
pub proof fn law_what_is_warned_of(inv: InvocationView, env: Lookup)
    ensures
        resolution(inv, env) matches Ok(r) ==> {
            let poll = number_or_default(
                either(env, "RASH_POLL"@, "AUTOSSH_POLL"@),
                false,
                600,
            );
            let first = number_or_default(
                either(env, "RASH_FIRST_POLL"@, "AUTOSSH_FIRST_POLL"@),
                false,
                poll,
            );
            let life = number_or_default(
                either(env, "RASH_MAXLIFETIME"@, "AUTOSSH_MAXLIFETIME"@),
                false,
                0,
            );
            let left = at_most(poll, life);
            r.warnings == in_case(
                life > 0 && poll > life,
                "poll time is greater than lifetime, dropping poll time to "@ + decimal(
                    life as nat,
                ),
            ) + in_case(
                life > 0 && first > life,
                "first poll time is greater than lifetime, dropping first poll time to "@
                    + decimal(life as nat),
            ) + in_case(
                r.config.monitor is Disabled,
                "port set to 0, monitoring disabled"@,
            ) + in_case(
                left < 30,
                "short poll time: adjusting net timeouts to "@ + decimal((left * 500) as nat),
            )
        },
{
    law_what_the_poll_times_are(inv, env);
    law_the_names_of_the_variables(env);
}

// ------------------------------------------------------------------- the words

/// How the monitor, the log and its levels are called.
pub proof fn law_how_settings_are_called(port: u16, echo: u16, path: Seq<u8>)
    ensures
        Monitor::Disabled.shown() == "disabled"@,
        (Monitor::Loop { port }).shown() == "loop, write "@ + decimal(port as nat) + ", read "@
            + decimal(port as nat + 1),
        (Monitor::Echo { port, echo }).shown() == "echo, write "@ + decimal(port as nat)
            + " to remote echo "@ + decimal(echo as nat),
        LogTargetView::Syslog.shown() == "syslog"@,
        LogTargetView::Stderr.shown() == "stderr"@,
        LogTargetView::File(path).shown() == "file "@ + readable(path),
        Level::Emerg.shown() == "emerg"@ && Level::Emerg.rank() == 0,
        Level::Alert.shown() == "alert"@ && Level::Alert.rank() == 1,
        Level::Crit.shown() == "crit"@ && Level::Crit.rank() == 2,
        Level::Error.shown() == "err"@ && Level::Error.rank() == 3,
        Level::Warning.shown() == "warning"@ && Level::Warning.rank() == 4,
        Level::Notice.shown() == "notice"@ && Level::Notice.rank() == 5,
        Level::Info.shown() == "info"@ && Level::Info.rank() == 6,
        Level::Debug.shown() == "debug"@ && Level::Debug.rank() == 7,
{
}

// ------------------------------------------------------------- the environment

proof fn lemma_first_value(table: Seq<(Seq<u8>, Seq<u8>)>, key: Seq<u8>, i: int)
    requires
        0 <= i <= table.len(),
        forall|k: int| 0 <= k < i ==> (#[trigger] table[k]).0 != key,
        i < table.len() ==> table[i].0 == key,
    ensures
        first_value(table, key) == if i < table.len() {
            Some(table[i].1)
        } else {
            None
        },
    decreases i,
{
    if i > 0 {
        assert(table[0].0 != key);
        let rest = table.skip(1);
        assert forall|k: int| 0 <= k < i - 1 implies (#[trigger] rest[k]).0 != key by {
            assert(rest[k] == table[k + 1]);
        }
        lemma_first_value(rest, key, i - 1);
    }
}

/// The value of a variable is that of the first entry of its name, and it has none
/// where there is no such entry.
pub proof fn law_the_first_entry_counts(env: ProcessEnv, key: Seq<char>, i: int)
    requires
        0 <= i <= env@.len(),
        forall|k: int| 0 <= k < i ==> (#[trigger] env@[k]).0 != encode_utf8(key),
        i < env@.len() ==> env@[i].0 == encode_utf8(key),
    ensures
        lookups(&env)(key) == if i < env@.len() {
            Some(env@[i].1)
        } else {
            None
        },
{
    lemma_first_value(env@, encode_utf8(key), i);
}

/// A path is given in absolute form where it has one, and stays as it is otherwise.
pub proof fn law_what_a_path_becomes(path: Seq<u8>, absolute: Seq<u8>)
    ensures
        pinned(path, Some(absolute)) == absolute,
        pinned(path, None) == path,
{
}

} // verus!
