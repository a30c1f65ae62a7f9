//! The probe payload.
//!
//! The message is something identifiable as ours, so that a stray process
//! writing to the monitor port cannot be mistaken for a healthy tunnel. A probe
//! succeeds only when the bytes that come back are byte for byte the bytes that
//! went out.

use crate::cli::raw;
use crate::config::Config;
use crate::text::{
    decimal, to_readable, is_digit, law_decimal_is_unambiguous, law_decimal_reads_back, readable,
    push_decimal, to_bytes,
};
use vstd::prelude::*;

verus! {

/// The text of one probe: `hostname rash pid nonce message`, and the end of a
/// line.
pub open spec fn message_text(
    hostname: Seq<char>,
    pid: nat,
    nonce: nat,
    message: Seq<char>,
) -> Seq<char> {
    hostname + " rash "@ + decimal(pid) + " "@ + decimal(nonce) + " "@ + message + "\r\n"@
}

/// Build one probe message.
pub fn message(hostname: &str, pid: u32, nonce: u64, cfg: &Config) -> (m: Vec<u8>)
    ensures
        m@ == raw(message_text(hostname@, pid as nat, nonce as nat, cfg@.message)),
{
    let mut s = hostname.to_owned();
    s.append(" rash ");
    push_decimal(&mut s, pid as u64);
    s.append(" ");
    push_decimal(&mut s, nonce);
    s.append(" ");
    s.append(cfg.message.as_str());
    s.append("\r\n");
    to_bytes(s.as_str())
}

/// The first position from `i` on that holds a NUL, or the end.
pub open spec fn nul_from(bytes: Seq<u8>, i: int) -> int
    decreases bytes.len() - i,
{
    if i >= bytes.len() || bytes[i] == 0 {
        i
    } else {
        nul_from(bytes, i + 1)
    }
}

/// This machine's name, from the name field that uname(2) filled in: what stands
/// before its first NUL. Without one the name is empty.
pub fn hostname(nodename: Option<&[u8]>) -> (s: String)
    ensures
        s@ == match nodename {
            Some(field) => readable(field@.take(nul_from(field@, 0))),
            None => Seq::<char>::empty(),
        },
{
    match nodename {
        None => {
            let s = String::new();
            assert(s@ =~= Seq::<char>::empty());
            s
        },
        Some(field) => {
            let mut end: usize = 0;
            while end < field.len() && field[end] != 0
                invariant
                    end <= field.len(),
                    nul_from(field@, 0) == nul_from(field@, end as int),
                decreases field.len() - end,
            {
                end = end + 1;
            }
            let name = vstd::slice::slice_subrange(field, 0, end);
            assert(name@ =~= field@.take(end as int));
            to_readable(name)
        },
    }
}

/// 64 bits that tell two probes apart: random ones where there were any to be
/// had, and otherwise the time mixed with the process id.
pub fn nonce(random: Option<u64>, nanos: u64, pid: u32) -> (n: u64)
    ensures
        n == match random {
            Some(r) => r,
            None => nanos ^ (pid as u64),
        },
{
    match random {
        Some(r) => r,
        None => nanos ^ (pid as u64),
    }
}

// -------------------------------------------------------------------- laws

/// Where the same process sends two probes, the messages are the same only if
/// the nonces and what the user added are.
pub proof fn law_two_probes_are_never_confused(
    hostname: Seq<char>,
    pid: nat,
    nonce: nat,
    message: Seq<char>,
    other_nonce: nat,
    other_message: Seq<char>,
)
    requires
        raw(message_text(hostname, pid, nonce, message)) == raw(
            message_text(hostname, pid, other_nonce, other_message),
        ),
    ensures
        nonce == other_nonce,
        message == other_message,
{
    reveal_strlit(" ");
    reveal_strlit("\r\n");
    let t = message_text(hostname, pid, nonce, message);
    let u = message_text(hostname, pid, other_nonce, other_message);
    vstd::utf8::encode_utf8_decode_utf8(t);
    vstd::utf8::encode_utf8_decode_utf8(u);
    assert(t == u);
    let head = hostname + " rash "@ + decimal(pid) + " "@;
    let a = decimal(nonce);
    let b = decimal(other_nonce);
    let n = head.len();
    law_decimal_reads_back(nonce);
    law_decimal_reads_back(other_nonce);
    assert(t.skip(n as int) =~= a + " "@ + message + "\r\n"@);
    assert(u.skip(n as int) =~= b + " "@ + other_message + "\r\n"@);
    let rest = t.skip(n as int);
    assert(a.len() == b.len()) by {
        if a.len() < b.len() {
            assert(rest[a.len() as int] == ' ');
            assert(rest[a.len() as int] == b[a.len() as int]);
            assert(is_digit(b[a.len() as int]));
        }
        if b.len() < a.len() {
            assert(rest[b.len() as int] == ' ');
            assert(rest[b.len() as int] == a[b.len() as int]);
            assert(is_digit(a[b.len() as int]));
        }
    }
    assert(a =~= rest.take(a.len() as int));
    assert(b =~= rest.take(a.len() as int));
    law_decimal_is_unambiguous(nonce, other_nonce);
    let end = rest.len() - 2;
    assert(message =~= rest.subrange(a.len() as int + 1, end));
    assert(other_message =~= rest.subrange(a.len() as int + 1, end));
}

/// A message can be told to be ours: it starts with the host, the program and
/// the process, and ends its line.
pub proof fn law_a_message_is_identifiable(
    hostname: Seq<char>,
    pid: nat,
    nonce: nat,
    message: Seq<char>,
)
    ensures
        ({
            let t = message_text(hostname, pid, nonce, message);
            let head = hostname + " rash "@ + decimal(pid) + " "@;
            &&& head.len() <= t.len() && t.take(head.len() as int) == head
            &&& t.skip(t.len() - 2) == seq!['\r', '\n']
        }),
{
    reveal_strlit("\r\n");
    let t = message_text(hostname, pid, nonce, message);
    let head = hostname + " rash "@ + decimal(pid) + " "@;
    assert(t.take(head.len() as int) =~= head);
    assert(t.skip(t.len() - 2) =~= seq!['\r', '\n']);
}

/// Without random numbers, two probes that one process sends at different times
/// still differ.
pub proof fn law_the_time_makes_a_nonce(nanos: u64, later: u64, pid: u32)
    requires
        nanos != later,
    ensures
        nanos ^ (pid as u64) != later ^ (pid as u64),
{
    let p = pid as u64;
    assert(nanos != later ==> nanos ^ p != later ^ p) by (bit_vector);
}

proof fn lemma_nul(bytes: Seq<u8>, i: int)
    requires
        0 <= i <= bytes.len(),
    ensures
        i <= nul_from(bytes, i) <= bytes.len(),
        forall|k: int| i <= k < nul_from(bytes, i) ==> #[trigger] bytes[k] != 0,
        nul_from(bytes, i) < bytes.len() ==> bytes[nul_from(bytes, i)] == 0,
    decreases bytes.len() - i,
{
    if i < bytes.len() && bytes[i] != 0 {
        lemma_nul(bytes, i + 1);
    }
}

/// The name of the machine is all of the field up to its first NUL, and the whole field
/// where it has none.
pub proof fn law_the_name_ends_at_the_first_nul(name: Seq<u8>, rest: Seq<u8>)
    requires
        forall|k: int| 0 <= k < name.len() ==> #[trigger] name[k] != 0,
    ensures
        name.take(nul_from(name, 0)) == name,
        ({
            let field = name + seq![0u8] + rest;
            field.take(nul_from(field, 0)) == name
        }),
{
    lemma_nul(name, 0);
    assert(name.take(name.len() as int) =~= name);
    let field = name + seq![0u8] + rest;
    lemma_nul(field, 0);
    let k = nul_from(field, 0);
    assert(field[name.len() as int] == 0);
    if k < name.len() {
        assert(field[k] == name[k]);
    }
    assert(field.take(name.len() as int) =~= name);
}

} // verus!
