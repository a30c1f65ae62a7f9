//! What `--dry-run` prints: exactly what would be executed, and with what
//! settings.

use crate::cli::laws::{law_a_quoted_command_reads_back, quoted_words, shell};
use crate::cli::{quote, quoted};
use crate::config::{texts, Config, ConfigView, Resolved, ResolvedView};
use crate::text::{contents, decimal, to_readable, readable, push_decimal, push_wide};
use crate::time::{seconds, Duration};
use vstd::prelude::*;

verus! {

/// One setting, with its name.
pub open spec fn row(name: Seq<char>, value: Seq<char>) -> Seq<char> {
    name + value + "\n"@
}

/// A number of seconds.
pub open spec fn in_seconds(d: Duration) -> Seq<char> {
    decimal(d.secs as nat) + "s"@
}

/// A text, or the word for none.
pub open spec fn or_none(s: Seq<char>) -> Seq<char> {
    if s.len() == 0 {
        "(none)"@
    } else {
        s
    }
}

/// A remark, where it applies.
pub open spec fn remark(applies: bool, s: Seq<char>) -> Seq<char> {
    if applies {
        s
    } else {
        ""@
    }
}

/// A truth value in words.
pub open spec fn yes_or_no(b: bool) -> Seq<char> {
    if b {
        "true"@
    } else {
        "false"@
    }
}

/// The arguments of a command, each after a space.
pub open spec fn arguments(args: Seq<Seq<u8>>) -> Seq<char>
    decreases args.len(),
{
    if args.len() == 0 {
        Seq::empty()
    } else {
        arguments(args.drop_last()) + " "@ + quoted(readable(args.last()))
    }
}

/// The command, the way a shell would need it written.
pub open spec fn command(c: ConfigView) -> Seq<char> {
    quoted(readable(c.ssh_path)) + arguments(c.ssh_args)
}

/// The settings that decide how the tunnel is watched.
pub open spec fn watching(c: ConfigView) -> Seq<char> {
    row("monitor:       "@, c.monitor.shown()) + row("monitor host:  "@, c.monitor_host.shown())
        + row(
        "poll:          "@,
        in_seconds(c.poll) + " (first "@ + in_seconds(c.first_poll) + ")"@,
    ) + row("net timeout:   "@, decimal(c.net_timeout.total() / 1_000_000) + "ms"@)
}

/// The settings that decide how often and how long ssh is run.
pub open spec fn limits(c: ConfigView) -> Seq<char> {
    row(
        "gate time:     "@,
        if c.gate_time == seconds(0) {
            "disabled"@
        } else {
            in_seconds(c.gate_time)
        },
    ) + row(
        "max starts:    "@,
        if c.max_start < 0 {
            "unlimited"@
        } else {
            decimal(c.max_start as nat)
        },
    ) + row(
        "max lifetime:  "@,
        match c.max_lifetime {
            None => "unlimited"@,
            Some(d) => in_seconds(d),
        },
    ) + row("kill timeout:  "@, in_seconds(c.kill_timeout))
}

/// The path of the pid file, or nothing.
pub open spec fn pid_path(c: ConfigView) -> Seq<char> {
    match c.pid_file {
        Some(p) => readable(p),
        None => Seq::empty(),
    }
}

/// The settings of the process itself.
pub open spec fn process(c: ConfigView) -> Seq<char> {
    row("background:    "@, yes_or_no(c.background)) + row(
        "pid file:      "@,
        or_none(pid_path(c)) + remark(c.touch_pid_file, " (touched)"@),
    ) + row("message:       "@, or_none(c.message)) + row(
        "log:           "@,
        c.log.target.shown() + " at level "@ + c.log.level.shown() + remark(
            c.log.also_stderr,
            " (also stderr)"@,
        ),
    )
}

/// The warnings, each after an empty line.
pub open spec fn warned(list: Seq<Seq<char>>) -> Seq<char>
    decreases list.len(),
{
    if list.len() == 0 {
        Seq::empty()
    } else {
        warned(list.drop_last()) + row("\nwarning: "@, list.last())
    }
}

/// All that is printed.
pub open spec fn plan_text(version: Seq<char>, r: ResolvedView) -> Seq<char> {
    "rash "@ + version + " — dry run, nothing is executed\n\n"@ + "ssh command:\n    "@ + command(
        r.config,
    ) + "\n\n"@ + watching(r.config) + limits(r.config) + process(r.config) + warned(r.warnings)
}

fn push_row(s: &mut String, name: &str, value: &str)
    ensures
        final(s)@ == old(s)@ + row(name@, value@),
{
    s.append(name);
    s.append(value);
    s.append("\n");
    assert(s@ =~= old(s)@ + row(name@, value@));
}

fn span(d: &Duration) -> (s: String)
    ensures
        s@ == in_seconds(*d),
{
    let mut s = String::new();
    push_decimal(&mut s, d.as_secs());
    s.append("s");
    assert(s@ =~= in_seconds(*d));
    s
}

fn command_line(c: &Config) -> (s: String)
    ensures
        s@ == command(c@),
{
    let mut s = quote(&c.ssh_path);
    let ghost head = s@;
    let ghost all = contents(c.ssh_args@);
    let mut i: usize = 0;
    assert(s@ =~= head + arguments(all.take(0)));
    while i < c.ssh_args.len()
        invariant
            i <= c.ssh_args.len(),
            all == contents(c.ssh_args@),
            s@ == head + arguments(all.take(i as int)),
        decreases c.ssh_args.len() - i,
    {
        let q = quote(&c.ssh_args[i]);
        s.append(" ");
        s.append(q.as_str());
        proof {
            let upto = all.take(i + 1);
            assert(upto.drop_last() =~= all.take(i as int));
            assert(upto.last() == c.ssh_args@[i as int]@);
            assert(s@ =~= head + arguments(upto));
        }
        i = i + 1;
    }
    assert(all.take(i as int) =~= all);
    s
}

fn push_watching(s: &mut String, c: &Config)
    requires
        c.monitor.wf(),
        c.net_timeout.wf(),
    ensures
        final(s)@ == old(s)@ + watching(c@),
{
    let ghost start = s@;
    push_row(s, "monitor:       ", c.monitor.text().as_str());
    push_row(s, "monitor host:  ", c.monitor_host.text().as_str());
    let mut poll = span(&c.poll);
    poll.append(" (first ");
    poll.append(span(&c.first_poll).as_str());
    poll.append(")");
    push_row(s, "poll:          ", poll.as_str());
    let mut net = String::new();
    push_wide(&mut net, c.net_timeout.as_millis());
    net.append("ms");
    assert(net@ =~= decimal(c.net_timeout.total() / 1_000_000) + "ms"@);
    push_row(s, "net timeout:   ", net.as_str());
    assert(s@ =~= start + watching(c@));
}

fn push_limits(s: &mut String, c: &Config)
    ensures
        final(s)@ == old(s)@ + limits(c@),
{
    let ghost start = s@;
    let gate = if c.gate_time.is_zero() {
        "disabled".to_owned()
    } else {
        span(&c.gate_time)
    };
    push_row(s, "gate time:     ", gate.as_str());
    let mut starts = String::new();
    if c.max_start < 0 {
        starts.append("unlimited");
        assert(starts@ =~= "unlimited"@);
    } else {
        push_decimal(&mut starts, c.max_start as u64);
        assert(starts@ =~= decimal(c.max_start as nat));
    }
    push_row(s, "max starts:    ", starts.as_str());
    let life = match c.max_lifetime {
        None => "unlimited".to_owned(),
        Some(d) => span(&d),
    };
    push_row(s, "max lifetime:  ", life.as_str());
    push_row(s, "kill timeout:  ", span(&c.kill_timeout).as_str());
    assert(s@ =~= start + limits(c@));
}

fn filled(s: String) -> (r: String)
    ensures
        r@ == or_none(s@),
{
    if s.as_str().is_empty() {
        "(none)".to_owned()
    } else {
        s
    }
}

fn push_process(s: &mut String, c: &Config)
    ensures
        final(s)@ == old(s)@ + process(c@),
{
    let ghost start = s@;
    push_row(s, "background:    ", if c.background { "true" } else { "false" });
    let path = match &c.pid_file {
        Some(p) => to_readable(p),
        None => String::new(),
    };
    assert(path@ =~= pid_path(c@));
    let mut pid = filled(path);
    pid.append(if c.touch_pid_file { " (touched)" } else { "" });
    push_row(s, "pid file:      ", pid.as_str());
    push_row(s, "message:       ", filled(c.message.as_str().to_owned()).as_str());
    let mut log = c.log.target.text();
    log.append(" at level ");
    log.append(c.log.level.text());
    log.append(if c.log.also_stderr { " (also stderr)" } else { "" });
    push_row(s, "log:           ", log.as_str());
    assert(s@ =~= start + process(c@));
}

fn push_warnings(s: &mut String, warnings: &Vec<String>)
    ensures
        final(s)@ == old(s)@ + warned(texts(warnings@)),
{
    let ghost start = s@;
    let ghost all = texts(warnings@);
    let mut i: usize = 0;
    assert(s@ =~= start + warned(all.take(0)));
    while i < warnings.len()
        invariant
            i <= warnings.len(),
            all == texts(warnings@),
            s@ == start + warned(all.take(i as int)),
        decreases warnings.len() - i,
    {
        push_row(s, "\nwarning: ", warnings[i].as_str());
        proof {
            let upto = all.take(i + 1);
            assert(upto.drop_last() =~= all.take(i as int));
            assert(upto.last() == warnings@[i as int]@);
            assert(s@ =~= start + warned(upto));
        }
        i = i + 1;
    }
    assert(all.take(i as int) =~= all);
}

/// `--dry-run`: show exactly what would be executed, and with what settings.
pub fn print_plan(version: &str, r: &Resolved) -> (s: String)
    requires
        r.config.monitor.wf(),
        r.config.net_timeout.wf(),
    ensures
        s@ == plan_text(version@, r@),
{
    let c = &r.config;
    let mut s = "rash ".to_owned();
    s.append(version);
    s.append(" — dry run, nothing is executed\n\n");
    s.append("ssh command:\n    ");
    s.append(command_line(c).as_str());
    s.append("\n\n");
    push_watching(&mut s, c);
    push_limits(&mut s, c);
    push_process(&mut s, c);
    push_warnings(&mut s, &r.warnings);
    s
}

// -------------------------------------------------------------------- laws

/// Arguments as text, the way they are shown.
pub open spec fn texts_of(args: Seq<Seq<u8>>) -> Seq<Seq<char>> {
    args.map_values(|a: Seq<u8>| readable(a))
}

proof fn lemma_arguments(args: Seq<Seq<u8>>)
    ensures
        arguments(args) == quoted_words(texts_of(args)),
    decreases args.len(),
{
    reveal_strlit(" ");
    if args.len() > 0 {
        lemma_arguments(args.drop_last());
        assert(texts_of(args).drop_last() =~= texts_of(args.drop_last()));
        assert(" "@ =~= seq![' ']);
    }
}

/// The command that the plan shows is the one that is run: pasted into a shell,
/// it comes apart into the path of ssh and the arguments that ssh is given, as
/// text.
pub proof fn law_the_plan_shows_the_command(c: ConfigView)
    ensures
        shell(command(c), false, None, Seq::empty()) == Some(
            seq![readable(c.ssh_path)] + texts_of(c.ssh_args),
        ),
{
    lemma_arguments(c.ssh_args);
    law_a_quoted_command_reads_back(readable(c.ssh_path), texts_of(c.ssh_args));
}

/// A setting, written out.
pub open spec fn set_to(name: Seq<char>, value: Seq<char>) -> Seq<char> {
    name + value + seq!['\n']
}

/// All that the plan shows besides the command, setting by setting.
pub proof fn law_what_the_plan_shows(version: Seq<char>, r: ResolvedView)
    requires
        r.config.net_timeout.wf(),
    ensures
        ({
            let c = r.config;
            let whole = |d: Duration| decimal(d.secs as nat) + "s"@;
            let millis = (c.net_timeout.secs * 1000 + c.net_timeout.nanos as int / 1_000_000) as nat;
            let watched = set_to("monitor:       "@, c.monitor.shown()) + set_to(
                "monitor host:  "@,
                c.monitor_host.shown(),
            ) + set_to(
                "poll:          "@,
                whole(c.poll) + " (first "@ + whole(c.first_poll) + ")"@,
            ) + set_to("net timeout:   "@, decimal(millis) + "ms"@);
            let limited = set_to(
                "gate time:     "@,
                if c.gate_time.secs == 0 && c.gate_time.nanos == 0 {
                    "disabled"@
                } else {
                    whole(c.gate_time)
                },
            ) + set_to(
                "max starts:    "@,
                if c.max_start < 0 {
                    "unlimited"@
                } else {
                    decimal(c.max_start as nat)
                },
            ) + set_to(
                "max lifetime:  "@,
                match c.max_lifetime {
                    None => "unlimited"@,
                    Some(d) => whole(d),
                },
            ) + set_to("kill timeout:  "@, whole(c.kill_timeout));
            let kept = match c.pid_file {
                Some(p) if readable(p).len() > 0 => readable(p),
                _ => "(none)"@,
            };
            let own = set_to(
                "background:    "@,
                if c.background {
                    "true"@
                } else {
                    "false"@
                },
            ) + set_to(
                "pid file:      "@,
                if c.touch_pid_file {
                    kept + " (touched)"@
                } else {
                    kept
                },
            ) + set_to(
                "message:       "@,
                if c.message.len() == 0 {
                    "(none)"@
                } else {
                    c.message
                },
            ) + set_to(
                "log:           "@,
                if c.log.also_stderr {
                    c.log.target.shown() + " at level "@ + c.log.level.shown()
                        + " (also stderr)"@
                } else {
                    c.log.target.shown() + " at level "@ + c.log.level.shown()
                },
            );
            &&& watching(c) == watched
            &&& limits(c) == limited
            &&& process(c) == own
            &&& plan_text(version, r) == "rash "@ + version
                + " — dry run, nothing is executed\n\n"@ + "ssh command:\n    "@ + command(c)
                + "\n\n"@ + watched + limited + own + warned(r.warnings)
        }),
{
    let c = r.config;
    reveal_strlit("\n");
    reveal_strlit("");
    assert(seq!['\n'] =~= "\n"@);
    let kept = or_none(pid_path(c));
    assert(kept + ""@ =~= kept);
    let log = c.log.target.shown() + " at level "@ + c.log.level.shown();
    assert(log + ""@ =~= log);
    let d = c.net_timeout;
    assert(d.total() / 1_000_000 == d.secs * 1000 + d.nanos as int / 1_000_000);
}

/// Each warning stands at the end, on a line of its own after an empty one.
pub proof fn law_warnings_come_last(list: Seq<Seq<char>>, last: Seq<char>)
    ensures
        warned(Seq::empty()) == Seq::<char>::empty(),
        warned(list.push(last)) == warned(list) + "\nwarning: "@ + last + seq!['\n'],
{
    reveal_strlit("\n");
    assert(list.push(last).drop_last() =~= list);
    assert(warned(list.push(last)) =~= warned(list) + "\nwarning: "@ + last + seq!['\n']);
}

} // verus!
