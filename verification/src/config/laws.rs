//! What holds of every configuration.

use crate::cli::{spliced, InvocationView};
use crate::config::{
    clamped, colon_from, env_failure, level_setting, monitor_choice, monitor_of, monitor_setting,
    net_timeout_of, non_empty, resolution, setting, ssh_path_setting, ConfigErrorView, Level,
    LogTargetView, Lookup, Monitor, ResolvedView, DEFAULT_NET_TIMEOUT_MS,
};
use crate::host::{lemma_decimal_is_bare, Host};
use crate::text::{
    all_digits, decimal, digits_value, is_digit, law_decimal_reads_back,
    law_leading_zeros_do_not_count,
};
use crate::time::{milliseconds, seconds};
use vstd::prelude::*;

verus! {

/// A `RASH_` variable takes precedence over its `AUTOSSH_` counterpart, which
/// counts only where the other is not set.
pub proof fn law_rash_variables_outrank_autossh_ones(env: Lookup, name: Seq<char>)
    ensures
        env("RASH_"@ + name) is Some ==> setting(env, name) == env("RASH_"@ + name),
        env("RASH_"@ + name) is None ==> setting(env, name) == env(
            "AUTOSSH_"@ + name,
        ),
{
}

/// Two environments that give every variable with two names the same value, that
/// have ssh at the same place, and that agree on the variables of rash alone, give
/// the same result. `PATH` is not among the names: ssh's place has names of its own.
pub proof fn law_only_the_settings_count(inv: InvocationView, env: Lookup, other: Lookup)
    requires
        forall|name: Seq<char>|
            name != "PATH"@ ==> #[trigger] setting(env, name) == setting(other, name),
        ssh_path_setting(env) == ssh_path_setting(other),
        env("RASH_KILL_TIMEOUT"@) == other("RASH_KILL_TIMEOUT"@),
        env("RASH_MONITOR_HOST"@) == other("RASH_MONITOR_HOST"@),
        env("RASH_TOUCH_PIDFILE"@) == other("RASH_TOUCH_PIDFILE"@),
    ensures
        resolution(inv, env) == resolution(inv, other),
{
    reveal_strlit("PATH");
    reveal_strlit("DEBUG");
    reveal_strlit("LOGLEVEL");
    reveal_strlit("LOGFILE");
    reveal_strlit("POLL");
    reveal_strlit("FIRST_POLL");
    reveal_strlit("GATETIME");
    reveal_strlit("MAXSTART");
    reveal_strlit("MESSAGE");
    reveal_strlit("MAXLIFETIME");
    reveal_strlit("PIDFILE");
    reveal_strlit("PORT");
    assert("PATH"@.len() == 4 && "PATH"@[1] == 'A');
    assert("POLL"@[1] == 'O' && "PORT"@[1] == 'O');
    assert("DEBUG"@.len() == 5 && "LOGLEVEL"@.len() == 8 && "LOGFILE"@.len() == 7);
    assert("FIRST_POLL"@.len() == 10 && "GATETIME"@.len() == 8 && "MAXSTART"@.len() == 8);
    assert("MESSAGE"@.len() == 7 && "MAXLIFETIME"@.len() == 11 && "PIDFILE"@.len() == 7);
    assert(setting(env, "DEBUG"@) == setting(other, "DEBUG"@));
    assert(setting(env, "LOGLEVEL"@) == setting(other, "LOGLEVEL"@));
    assert(setting(env, "LOGFILE"@) == setting(other, "LOGFILE"@));
    assert(setting(env, "POLL"@) == setting(other, "POLL"@));
    assert(setting(env, "FIRST_POLL"@) == setting(other, "FIRST_POLL"@));
    assert(setting(env, "GATETIME"@) == setting(other, "GATETIME"@));
    assert(setting(env, "MAXSTART"@) == setting(other, "MAXSTART"@));
    assert(setting(env, "MESSAGE"@) == setting(other, "MESSAGE"@));
    assert(setting(env, "MAXLIFETIME"@) == setting(other, "MAXLIFETIME"@));
    assert(setting(env, "PIDFILE"@) == setting(other, "PIDFILE"@));
    assert(setting(env, "PORT"@) == setting(other, "PORT"@));
    assert(level_setting(env) == level_setting(other));
    assert(env_failure(env) == env_failure(other));
    assert(monitor_choice(inv, env) == monitor_choice(inv, other));
}

/// Where a `RASH_` variable is set, its `AUTOSSH_` counterpart is without any effect
/// on the whole result. The counterpart of `AUTOSSH_PATH` is `RASH_SSH_PATH`.
pub proof fn law_an_outranked_variable_has_no_effect(
    inv: InvocationView,
    env: Lookup,
    other: Lookup,
    name: Seq<char>,
)
    requires
        forall|key: Seq<char>| key != "AUTOSSH_"@ + name ==> #[trigger] env(key) == other(key),
        if name == "PATH"@ {
            env("RASH_SSH_PATH"@) is Some
        } else {
            env("RASH_"@ + name) is Some
        },
    ensures
        resolution(inv, env) == resolution(inv, other),
{
    reveal_strlit("RASH_");
    reveal_strlit("AUTOSSH_");
    let prefix = "AUTOSSH_"@;
    let outranked = prefix + name;
    assert(outranked[0] == 'A');
    assert forall|n: Seq<char>| n != "PATH"@ implies #[trigger] setting(env, n) == setting(
        other,
        n,
    ) by {
        assert(("RASH_"@ + n)[0] == 'R');
        if prefix + n == outranked {
            assert((prefix + n).skip(8) =~= n);
            assert(outranked.skip(8) =~= name);
        }
    }
    reveal_strlit("RASH_SSH_PATH");
    reveal_strlit("RASH_KILL_TIMEOUT");
    reveal_strlit("RASH_MONITOR_HOST");
    reveal_strlit("RASH_TOUCH_PIDFILE");
    assert("RASH_SSH_PATH"@[0] == 'R' && "RASH_KILL_TIMEOUT"@[0] == 'R');
    assert("RASH_MONITOR_HOST"@[0] == 'R' && "RASH_TOUCH_PIDFILE"@[0] == 'R');
    if name != "PATH"@ {
        assert("AUTOSSH_PATH"@ != outranked) by {
            reveal_strlit("AUTOSSH_PATH");
            reveal_strlit("PATH");
            assert("AUTOSSH_PATH"@.skip(8) =~= "PATH"@);
            assert(outranked.skip(8) =~= name);
        }
    }
    law_only_the_settings_count(inv, env, other);
}

/// With nothing in the environment, what `-M` and ssh's arguments do not decide
/// has its default.
pub proof fn law_defaults(inv: InvocationView, env: Lookup)
    requires
        forall|key: Seq<char>| #[trigger] env(key) is None,
    ensures
        resolution(inv, env) matches Ok(r) ==> {
            let c = r.config;
            &&& c.poll == seconds(600)
            &&& c.first_poll == seconds(600)
            &&& c.net_timeout == milliseconds(15_000)
            &&& c.gate_time == seconds(
                if inv.background {
                    0
                } else {
                    30
                },
            )
            &&& c.max_start == -1
            &&& c.max_lifetime is None
            &&& c.message == Seq::<char>::empty()
            &&& c.pid_file is None
            &&& !c.touch_pid_file
            &&& c.kill_timeout == seconds(5)
            &&& c.monitor_host == Host::V4([127, 0, 0, 1])
            &&& c.log.target == LogTargetView::Syslog
            &&& c.log.level == Level::Info
            &&& !c.log.also_stderr
        },
        resolution(inv, env) == Err::<ResolvedView, ConfigErrorView>(
            ConfigErrorView::NoMonitorPort,
        ) <==> (inv.monitor is None && inv.monitor_long is None),
{
    assert(setting(env, "PORT"@) is None);
    if inv.monitor is Some || inv.monitor_long is Some {
        lemma_monitor_complaint(inv, env);
    }
}

/// The complaint that there is no monitor port comes only where nothing gave
/// one.
proof fn lemma_monitor_complaint(inv: InvocationView, env: Lookup)
    requires
        monitor_choice(inv, env) is Some,
    ensures
        monitor_setting(inv, env) != Err::<Monitor, ConfigErrorView>(
            ConfigErrorView::NoMonitorPort,
        ),
{
}

/// `--monitor` beats the environment, and the environment beats `-M`.
pub proof fn law_monitor_port_precedence(inv: InvocationView, env: Lookup)
    ensures
        inv.monitor_long matches Some(v) ==> monitor_choice(inv, env) == Some((v, false)),
        inv.monitor_long is None ==> (non_empty(setting(env, "PORT"@)) matches Some(v)
            ==> monitor_choice(inv, env) == Some((v, false))),
        inv.monitor_long is None && non_empty(setting(env, "PORT"@)) is None ==> (
        inv.monitor matches Some(v) ==> monitor_choice(inv, env) == Some((v, true))),
        monitor_choice(inv, env) is None <==> inv.monitor_long is None && non_empty(
            setting(env, "PORT"@),
        ) is None && inv.monitor is None,
{
}

/// No port anywhere is the error of its own that it is, unless the environment
/// is wrong in some other way.
pub proof fn law_no_port_anywhere(inv: InvocationView, env: Lookup)
    requires
        monitor_choice(inv, env) is None,
    ensures
        resolution(inv, env) is Err,
        env_failure(env) is None ==> resolution(inv, env) == Err::<
            ResolvedView,
            ConfigErrorView,
        >(ConfigErrorView::NoMonitorPort),
{
}

/// The forwards go where `-M` stood, but in front of everything where the port
/// came from elsewhere, even when there is a `-M` as well. ssh's own arguments
/// stay as they were.
pub proof fn law_where_the_forwards_go(inv: InvocationView, env: Lookup)
    ensures
        resolution(inv, env) matches Ok(r) ==> {
            let forwards = r.config.monitor.forward_args(r.config.monitor_host);
            r.config.ssh_args == if monitor_choice(inv, env)->Some_0.1 {
                spliced(inv.ssh_args, inv.inject_at, forwards)
            } else {
                forwards + inv.ssh_args
            }
        },
{
    if let Ok(r) = resolution(inv, env) {
        let forwards = r.config.monitor.forward_args(r.config.monitor_host);
        assert(spliced(inv.ssh_args, 0, forwards) =~= forwards + inv.ssh_args);
    }
}

/// With monitoring off there are no forwards at all.
pub proof fn law_monitoring_off_adds_nothing(inv: InvocationView, env: Lookup)
    ensures
        resolution(inv, env) matches Ok(r) ==> (r.config.monitor is Disabled
            ==> r.config.ssh_args == inv.ssh_args),
{
    law_where_the_forwards_go(inv, env);
    if let Ok(r) = resolution(inv, env) {
        if r.config.monitor is Disabled {
            assert(spliced(inv.ssh_args, inv.inject_at, Seq::empty()) =~= inv.ssh_args);
            assert(Seq::<Seq<u8>>::empty() + inv.ssh_args =~= inv.ssh_args);
        }
    }
}

/// Debugging outranks the log level: it asks for every line, on stderr too, and
/// the log level is not even looked at.
pub proof fn law_debug_outranks_loglevel(inv: InvocationView, env: Lookup)
    requires
        setting(env, "DEBUG"@) is Some,
    ensures
        level_setting(env) is Ok,
        resolution(inv, env) matches Ok(r) ==> r.config.log.level == Level::Debug
            && r.config.log.also_stderr,
{
}

/// A poll time shorter than thirty seconds shrinks the network timeout to half
/// of it; any other leaves it alone.
pub proof fn law_short_polls_shrink_the_net_timeout(poll: int)
    requires
        poll > 0,
    ensures
        poll < 30 ==> net_timeout_of(poll) == poll * 500,
        poll >= 30 ==> net_timeout_of(poll) == DEFAULT_NET_TIMEOUT_MS,
        2 * net_timeout_of(poll) <= poll * 1000,
{
}

/// A lifetime drops both poll times to itself where they exceed it, and 0 stands
/// for no lifetime.
pub proof fn law_the_lifetime_clamps(poll: int, life: int)
    requires
        poll > 0,
        life >= 0,
    ensures
        life > 0 ==> clamped(poll, life) <= life,
        life > 0 && poll <= life ==> clamped(poll, life) == poll,
        life > 0 && poll > life ==> clamped(poll, life) == life,
        life == 0 ==> clamped(poll, life) == poll,
{
}

pub proof fn lemma_no_colon(s: Seq<char>, i: int)
    requires
        0 <= i <= s.len(),
        forall|k: int| i <= k < s.len() ==> #[trigger] s[k] != ':',
    ensures
        colon_from(s, i) == s.len(),
    decreases s.len() - i,
{
    if i < s.len() {
        lemma_no_colon(s, i + 1);
    }
}

pub proof fn lemma_first_colon(s: Seq<char>, i: int, c: int)
    requires
        0 <= i <= c < s.len(),
        forall|k: int| i <= k < c ==> #[trigger] s[k] != ':',
        s[c] == ':',
    ensures
        colon_from(s, i) == c,
    decreases c - i,
{
    if i < c {
        lemma_first_colon(s, i + 1, c);
    }
}

/// Ports are read in base ten: a leading zero changes nothing, so `020000` is
/// 20000.
pub proof fn law_ports_are_decimal(s: Seq<char>)
    requires
        s.len() > 0,
        all_digits(s),
        digits_value(s) <= u32::MAX,
    ensures
        monitor_of(seq!['0'] + s) == monitor_of(s),
{
    let z = seq!['0'] + s;
    law_leading_zeros_do_not_count(s, false);
    assert forall|k: int| 0 <= k < s.len() implies #[trigger] s[k] != ':' by {
        assert(is_digit(s[k]));
    }
    assert forall|k: int| 0 <= k < z.len() implies #[trigger] z[k] != ':' by {
        if k > 0 {
            assert(z[k] == s[k - 1]);
        }
    }
    lemma_no_colon(s, 0);
    lemma_no_colon(z, 0);
    assert(s.take(s.len() as int) =~= s);
    assert(z.take(z.len() as int) =~= z);
}

/// Every monitor there is can be asked for by its port, or by its port and echo
/// port. Ports from 1 to 65534 serve either mode, and 0 turns monitoring off.
pub proof fn law_every_monitor_can_be_asked_for(port: nat, echo: nat)
    requires
        port <= 65534,
        1 <= echo <= 65535,
    ensures
        monitor_of(decimal(port)) == Ok::<Monitor, ConfigErrorView>(
            if port == 0 {
                Monitor::Disabled
            } else {
                Monitor::Loop { port: port as u16 }
            },
        ),
        monitor_of(decimal(port) + ":"@ + decimal(echo)) == Ok::<Monitor, ConfigErrorView>(
            if port == 0 {
                Monitor::Disabled
            } else {
                Monitor::Echo { port: port as u16, echo: echo as u16 }
            },
        ),
{
    reveal_strlit(":");
    let p = decimal(port);
    let e = decimal(echo);
    let both = p + ":"@ + e;
    law_decimal_reads_back(port);
    law_decimal_reads_back(echo);
    lemma_decimal_is_bare(port);
    lemma_no_colon(p, 0);
    assert(p.take(p.len() as int) =~= p);
    assert forall|k: int| 0 <= k < p.len() implies #[trigger] both[k] != ':' by {
        assert(both[k] == p[k]);
    }
    assert(both[p.len() as int] == ':');
    lemma_first_colon(both, 0, p.len() as int);
    assert(both.take(p.len() as int) =~= p);
    assert(both.skip(p.len() as int + 1) =~= e);
}

/// A monitor port above 65534 is always refused, because the port above it could
/// not be listened on.
pub proof fn law_the_last_port_is_refused(spec: Seq<char>)
    ensures
        monitor_of(spec) matches Ok(m) ==> m.wf() && match m {
            Monitor::Disabled => true,
            Monitor::Loop { port } => 1 <= port <= 65534,
            Monitor::Echo { port, echo } => 1 <= port <= 65534 && echo >= 1,
        },
{
}

} // verus!
