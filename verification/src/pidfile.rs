//! The pid file: what goes into it, and whether the one that is found is ours.
//!
//! Nothing stops a second rash from being pointed at the same path. It then
//! writes its own pid into the file, which must survive the exit of the first
//! one: the file is removed only as long as it still names the process that
//! wrote it.

use crate::cli::raw;
use crate::text::{
    concat3, decimal, decimal_text, from_utf8, integer, is_blank, is_digit,
    law_decimal_is_unambiguous, law_trimming_takes_off_white_space,
    law_decimal_reads_back, push_decimal, readable, same_text, to_readable, trim, trimmed,
    trimmed_end, trimmed_start,
};
use vstd::prelude::*;
use vstd::utf8::{
    decode_utf8, encode_utf8, encode_utf8_decode_utf8, encode_utf8_valid_utf8, valid_utf8,
};

verus! {

/// A pid file that this process has written, or is about to.
#[derive(Debug)]
pub struct PidFile {
    path: Vec<u8>,
    pid: u32,
}

/// What a [`PidFile`] holds.
#[verifier::ext_equal]
pub struct PidFileView {
    pub path: Seq<u8>,
    pub pid: nat,
}

impl View for PidFile {
    type V = PidFileView;

    closed spec fn view(&self) -> PidFileView {
        PidFileView { path: self.path@, pid: self.pid as nat }
    }
}

/// What a pid file of a process holds: its id, on a line of its own.
pub open spec fn record(pid: nat) -> Seq<char> {
    decimal(pid) + "\n"@
}

/// Whether what a file holds is the id of a process, and nothing else but white
/// space around it.
pub open spec fn names(bytes: Seq<u8>, pid: nat) -> bool {
    valid_utf8(bytes) && trimmed(decode_utf8(bytes)) == decimal(pid)
}

impl PidFile {
    /// The pid file of the process `pid`. It has to be that of the daemon, so this
    /// comes after any fork.
    pub fn new(path: Vec<u8>, pid: u32) -> (f: Self)
        ensures
            f@ == (PidFileView { path: path@, pid: pid as nat }),
    {
        PidFile { path, pid }
    }

    /// Where the file is.
    pub fn path(&self) -> (p: &[u8])
        ensures
            p@ == self@.path,
    {
        &self.path
    }

    /// What goes into the file.
    pub fn contents(&self) -> (s: String)
        ensures
            s@ == record(self@.pid),
    {
        let mut s = String::new();
        push_decimal(&mut s, self.pid as u64);
        s.append("\n");
        assert(s@ =~= record(self@.pid));
        s
    }

    /// Whether the file is still ours to remove, by what it holds, if it can be
    /// read at all. White space around the pid does not count.
    pub fn is_ours(&self, found: Option<&[u8]>) -> (b: bool)
        ensures
            b == match found {
                Some(bytes) => names(bytes@, self@.pid),
                None => false,
            },
    {
        match found {
            Some(bytes) => match from_utf8(bytes) {
                Some(s) => same_text(
                    trim(s.as_str()).as_str(),
                    decimal_text(self.pid as u64).as_str(),
                ),
                None => false,
            },
            None => false,
        }
    }
}

/// The complaint about a pid file that cannot be written.
pub fn cannot_open(path: &[u8], why: &str) -> (s: String)
    ensures
        s@ == "cannot open pid file \""@ + readable(path@) + "\": "@ + why@,
{
    let mut s = concat3("cannot open pid file \"", to_readable(path).as_str(), "\": ");
    s.append(why);
    s
}

proof fn lemma_trimmed_record(pid: nat)
    ensures
        trimmed(record(pid)) == decimal(pid),
{
    reveal_strlit("\n");
    law_decimal_reads_back(pid);
    let d = decimal(pid);
    assert(is_digit(d[0]));
    assert(is_digit(d[d.len() - 1]));
    assert(trimmed_start(record(pid)) == record(pid));
    assert(record(pid).drop_last() =~= d);
    assert(trimmed_end(d) == d);
}

/// Whatever a pid file holds, it is the file of one process at most.
pub proof fn law_a_file_belongs_to_one_process(bytes: Seq<u8>, pid: nat, other: nat)
    requires
        names(bytes, pid),
        names(bytes, other),
    ensures
        pid == other,
{
    law_decimal_is_unambiguous(pid, other);
}

/// A process takes a file that a process wrote for its own exactly if it was the
/// one to write it, so another process keeps its file.
pub proof fn law_another_process_keeps_its_file(pid: nat, other: nat)
    ensures
        names(raw(record(other)), pid) <==> pid == other,
        trimmed(record(other)) == decimal(other),
{
    lemma_trimmed_record(other);
    encode_utf8_decode_utf8(record(other));
    encode_utf8_valid_utf8(record(other));
    if names(raw(record(other)), pid) {
        law_decimal_is_unambiguous(pid, other);
    }
}

/// The file holds one line, and that line is the process id in decimal.
pub proof fn law_the_file_holds_the_pid(pid: nat)
    ensures
        record(pid).last() == '\n',
        integer(record(pid).drop_last(), false) == Some(pid as int),
        forall|i: int| 0 <= i < record(pid).len() - 1 ==> is_digit(#[trigger] record(pid)[i]),
{
    reveal_strlit("\n");
    law_decimal_reads_back(pid);
    assert(record(pid).drop_last() =~= decimal(pid));
    assert forall|i: int| 0 <= i < record(pid).len() - 1 implies is_digit(
        #[trigger] record(pid)[i],
    ) by {
        assert(record(pid)[i] == decimal(pid)[i]);
    }
}

/// A file is the process's own exactly if it holds the process id in decimal, with
/// white space before and after it or none; a file with anything else in it is not.
pub proof fn law_white_space_around_the_pid_does_not_count(
    pid: nat,
    before: Seq<char>,
    text: Seq<char>,
    after: Seq<char>,
)
    requires
        forall|i: int| 0 <= i < before.len() ==> is_blank(#[trigger] before[i]),
        forall|i: int| 0 <= i < after.len() ==> is_blank(#[trigger] after[i]),
        text.len() > 0 ==> !is_blank(text[0]) && !is_blank(text.last()),
    ensures
        names(encode_utf8(before + text + after), pid) <==> text == decimal(pid),
        forall|bytes: Seq<u8>| #[trigger] names(bytes, pid) ==> valid_utf8(bytes),
{
    let whole = before + text + after;
    encode_utf8_decode_utf8(whole);
    encode_utf8_valid_utf8(whole);
    law_trimming_takes_off_white_space(before, text, after);
}

/// What is written is the process id in decimal and the end of the line.
pub proof fn law_what_is_written(pid: nat)
    ensures
        record(pid) == decimal(pid) + seq!['\n'],
{
    reveal_strlit("\n");
    assert(record(pid) =~= decimal(pid) + seq!['\n']);
}

} // verus!
