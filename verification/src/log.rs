//! Log lines, and where each of them goes.
//!
//! A line in a file or on stderr reads `%Y/%m/%d %H:%M:%S rash[pid]: message`.

use crate::config::{Level, Log, LogTarget, LogTargetView, LogView};
use crate::text::{decimal, push_decimal};
use vstd::prelude::*;
use vstd::utf8::encode_utf8;

verus! {

/// One message, with how much it matters.
#[derive(Debug, PartialEq, Eq)]
pub struct Line {
    pub level: Level,
    pub text: String,
}

/// What a [`Line`] holds.
#[verifier::ext_equal]
pub struct LineView {
    pub level: Level,
    pub text: Seq<char>,
}

impl View for Line {
    type V = LineView;

    open spec fn view(&self) -> LineView {
        LineView { level: self.level, text: self.text@ }
    }
}

/// A list of lines, each taken by what it holds.
pub open spec fn lines_in(list: Seq<Line>) -> Seq<LineView> {
    list.map_values(|l: Line| l@)
}

/// A line that reports an error.
pub open spec fn err(text: Seq<char>) -> LineView {
    LineView { level: Level::Error, text }
}

/// A line that tells what happens.
pub open spec fn info(text: Seq<char>) -> LineView {
    LineView { level: Level::Info, text }
}

/// A line for debugging.
pub open spec fn debug(text: Seq<char>) -> LineView {
    LineView { level: Level::Debug, text }
}

/// Add a line that reports an error.
pub fn log_err(list: &mut Vec<Line>, text: String)
    ensures
        lines_in(final(list)@) == lines_in(old(list)@).push(err(text@)),
{
    list.push(Line { level: Level::Error, text });
    assert(lines_in(list@) =~= lines_in(old(list)@).push(err(text@)));
}

/// Add a line that tells what happens.
pub fn log_info(list: &mut Vec<Line>, text: String)
    ensures
        lines_in(final(list)@) == lines_in(old(list)@).push(info(text@)),
{
    list.push(Line { level: Level::Info, text });
    assert(lines_in(list@) =~= lines_in(old(list)@).push(info(text@)));
}

/// Add a line for debugging.
pub fn log_debug(list: &mut Vec<Line>, text: String)
    ensures
        lines_in(final(list)@) == lines_in(old(list)@).push(debug(text@)),
{
    list.push(Line { level: Level::Debug, text });
    assert(lines_in(list@) =~= lines_in(old(list)@).push(debug(text@)));
}

/// Somewhere a message is written to.
#[derive(Debug, Clone, Copy, PartialEq, Eq, Structural)]
pub enum Dest {
    /// To syslog(3), as the argument of a format, with the number of its level.
    Syslog,
    /// To the log file, after the prefix.
    File,
    /// To stderr, after the prefix.
    Stderr,
    /// To stderr, after nothing but the name of the program: there is no log yet.
    Bare,
}

/// Whether a text can be handed to C, which ends it at the first NUL.
pub open spec fn is_c_text(text: Seq<char>) -> bool {
    forall|i: int| 0 <= i < encode_utf8(text).len() ==> #[trigger] encode_utf8(text)[i] != 0
}

/// The places a message of this level goes to, in order.
pub open spec fn destinations(logger: Option<LogView>, level: Level, text: Seq<char>) -> Seq<Dest> {
    match logger {
        // Errors raised before there is a log still have to reach someone.
        None => seq![Dest::Bare],
        Some(log) => if level.rank() > log.level.rank() {
            Seq::empty()
        } else {
            let first = match log.target {
                LogTargetView::Syslog => if is_c_text(text) {
                    seq![Dest::Syslog]
                } else {
                    Seq::empty()
                },
                LogTargetView::File(_) => seq![Dest::File],
                LogTargetView::Stderr => seq![Dest::Stderr],
            };
            let second = if log.also_stderr && !(log.target is Stderr) {
                seq![Dest::Stderr]
            } else {
                Seq::empty()
            };
            first + second
        },
    }
}

/// What a [`Log`] that may be missing holds.
pub open spec fn log_in(logger: Option<&Log>) -> Option<LogView> {
    match logger {
        Some(l) => Some(l@),
        None => None,
    }
}

fn without_nul(text: &str) -> (b: bool)
    ensures
        b == is_c_text(text@),
{
    let bytes = text.as_bytes();
    let mut i: usize = 0;
    while i < bytes.len()
        invariant
            bytes@ == encode_utf8(text@),
            i <= bytes.len(),
            forall|j: int| 0 <= j < i ==> bytes@[j] != 0,
        decreases bytes.len() - i,
    {
        if bytes[i] == 0 {
            return false;
        }
        i = i + 1;
    }
    true
}

/// Where one message goes, if the configured verbosity allows it.
///
/// Before there is a logger everything goes to stderr. After that, levels beyond
/// the configured one are dropped, and debugging mirrors the rest to stderr.
pub fn emit(logger: Option<&Log>, level: Level, text: &str) -> (dests: Vec<Dest>)
    ensures
        dests@ == destinations(log_in(logger), level, text@),
{
    let mut dests: Vec<Dest> = Vec::new();
    match logger {
        None => {
            dests.push(Dest::Bare);
        },
        Some(log) => {
            if level.num() > log.level.num() {
                return dests;
            }
            match &log.target {
                LogTarget::Syslog => {
                    if without_nul(text) {
                        dests.push(Dest::Syslog);
                    }
                },
                LogTarget::File(_) => {
                    dests.push(Dest::File);
                },
                LogTarget::Stderr => {
                    dests.push(Dest::Stderr);
                },
            }
            if log.also_stderr {
                match &log.target {
                    LogTarget::Stderr => {},
                    _ => {
                        dests.push(Dest::Stderr);
                    },
                }
            }
        },
    }
    assert(dests@ =~= destinations(log_in(logger), level, text@));
    dests
}

/// What goes before a message in a file or on stderr.
pub open spec fn prefix_of(timestamp: Seq<char>, pid: nat) -> Seq<char> {
    timestamp + " rash["@ + decimal(pid) + "]:"@
}

/// What goes before a message in a file or on stderr.
pub fn prefix(timestamp: &str, pid: u32) -> (s: String)
    ensures
        s@ == prefix_of(timestamp@, pid as nat),
{
    let mut s = timestamp.to_owned();
    s.append(" rash[");
    push_decimal(&mut s, pid as u64);
    s.append("]:");
    s
}

/// A message as it is written to a file or to stderr, with the end of the line.
pub open spec fn written(timestamp: Seq<char>, pid: nat, text: Seq<char>) -> Seq<char> {
    prefix_of(timestamp, pid) + " "@ + text + "\n"@
}

/// A message as it is written to a file or to stderr.
pub fn full_line(timestamp: &str, pid: u32, text: &str) -> (s: String)
    ensures
        s@ == written(timestamp@, pid as nat, text@),
{
    let mut s = prefix(timestamp, pid);
    s.append(" ");
    s.append(text);
    s.append("\n");
    s
}

/// A message as it is written to stderr while there is no log.
pub open spec fn bare_written(text: Seq<char>) -> Seq<char> {
    "rash: "@ + text + "\n"@
}

/// A message as it is written to stderr while there is no log.
pub fn bare_line(text: &str) -> (s: String)
    ensures
        s@ == bare_written(text@),
{
    let mut s = "rash: ".to_owned();
    s.append(text);
    s.append("\n");
    s
}

/// Only what is chattier than the log was asked to be is dropped: a more urgent
/// message goes wherever a less urgent one does.
pub proof fn law_urgent_messages_are_kept(
    log: LogView,
    urgent: Level,
    chatty: Level,
    text: Seq<char>,
)
    requires
        urgent.rank() <= chatty.rank(),
        destinations(Some(log), chatty, text).len() > 0,
    ensures
        destinations(Some(log), urgent, text) == destinations(Some(log), chatty, text),
{
}

/// Where debugging mirrors the log to stderr, every message that is not dropped
/// gets there, exactly once.
pub proof fn law_the_mirror_is_complete(log: LogView, level: Level, text: Seq<char>)
    requires
        log.also_stderr || log.target is Stderr,
        level.rank() <= log.level.rank(),
    ensures
        destinations(Some(log), level, text).contains(Dest::Stderr),
        forall|i: int, j: int|
            0 <= i < j < destinations(Some(log), level, text).len()
                ==> #[trigger] destinations(Some(log), level, text)[i]
                != #[trigger] destinations(Some(log), level, text)[j],
{
    let d = destinations(Some(log), level, text);
    assert(d.last() == Dest::Stderr);
}

/// Without a log, nothing is dropped.
pub proof fn law_nothing_is_lost_before_there_is_a_log(level: Level, text: Seq<char>)
    ensures
        destinations(None, level, text) == seq![Dest::Bare],
{
}

/// The place of a level among the eight, the most urgent first.
pub open spec fn urgency(level: Level) -> int {
    match level {
        Level::Emerg => 0,
        Level::Alert => 1,
        Level::Crit => 2,
        Level::Error => 3,
        Level::Warning => 4,
        Level::Notice => 5,
        Level::Info => 6,
        Level::Debug => 7,
    }
}

/// Where a message goes once there is a log: nowhere if it is less urgent than the log
/// asks for. Any other goes to the file, to stderr, or to syslog; but syslog is not
/// handed a text with a NUL in it. It goes to stderr after that where debugging is on,
/// but not twice.
pub proof fn law_where_a_message_goes(log: LogView, level: Level, text: Seq<char>)
    ensures
        level.rank() == urgency(level),
        ({
            let d = destinations(Some(log), level, text);
            let nul = exists|i: int|
                0 <= i < encode_utf8(text).len() && #[trigger] encode_utf8(text)[i] == 0;
            if urgency(level) > urgency(log.level) {
                d.len() == 0
            } else {
                match log.target {
                    LogTargetView::Stderr => d == seq![Dest::Stderr],
                    LogTargetView::File(_) => if log.also_stderr {
                        d == seq![Dest::File, Dest::Stderr]
                    } else {
                        d == seq![Dest::File]
                    },
                    LogTargetView::Syslog => match (nul, log.also_stderr) {
                        (false, false) => d == seq![Dest::Syslog],
                        (false, true) => d == seq![Dest::Syslog, Dest::Stderr],
                        (true, false) => d.len() == 0,
                        (true, true) => d == seq![Dest::Stderr],
                    },
                }
            }
        }),
{
}

/// How a message is written to a file or to stderr: the time, the program with its
/// process id in brackets, a colon, the message, and the end of the line. Before there
/// is a log, only the program goes before it.
pub proof fn law_how_a_message_is_written(timestamp: Seq<char>, pid: nat, text: Seq<char>)
    ensures
        prefix_of(timestamp, pid) == timestamp + " rash["@ + decimal(pid) + "]:"@,
        written(timestamp, pid, text) == timestamp + " rash["@ + decimal(pid) + "]: "@ + text
            + seq!['\n'],
        bare_written(text) == "rash: "@ + text + seq!['\n'],
        err(text).level == Level::Error && err(text).text == text,
        info(text).level == Level::Info && info(text).text == text,
        debug(text).level == Level::Debug && debug(text).text == text,
{
    reveal_strlit("\n");
    reveal_strlit(" ");
    reveal_strlit("]:");
    reveal_strlit("]: ");
    assert("]:"@ + " "@ =~= "]: "@);
    assert(written(timestamp, pid, text) =~= timestamp + " rash["@ + decimal(pid) + "]: "@ + text
        + seq!['\n']);
    assert(bare_written(text) =~= "rash: "@ + text + seq!['\n']);
}

} // verus!
