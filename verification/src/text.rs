//! Text and bytes: decimal numbers, comparison, and the way from raw bytes to
//! text.

use vstd::prelude::*;
use vstd::utf8::{decode_utf8, encode_utf8, valid_utf8};

verus! {

/// `String::push` appends one character to the end of the text.
pub assume_specification[ String::push ](s: &mut String, c: char)
    ensures
        final(s)@ == old(s)@.push(c),
;

/// What `String::from_utf8_lossy` makes of a byte string.
pub uninterp spec fn lossy(bytes: Seq<u8>) -> Seq<char>;

/// `String::from_utf8_lossy`: the text that the bytes encode, where they are
/// valid UTF-8. Where they are not, the sequences that are invalid come out
/// replaced; which of them, and by how many marks, is left to the function.
#[verifier::external_body]
fn from_utf8_lossy(bytes: &[u8]) -> (s: String)
    ensures
        s@ == lossy(bytes@),
        valid_utf8(bytes@) ==> s@ == decode_utf8(bytes@),
{
    String::from_utf8_lossy(bytes).into_owned()
}

/// A byte string as text: the text that it encodes, and what stands in for it
/// where it encodes none.
pub open spec fn readable(bytes: Seq<u8>) -> Seq<char> {
    if valid_utf8(bytes) {
        decode_utf8(bytes)
    } else {
        lossy(bytes)
    }
}

/// A byte string as text.
pub fn to_readable(bytes: &[u8]) -> (s: String)
    ensures
        s@ == readable(bytes@),
{
    from_utf8_lossy(bytes)
}

/// `str::from_utf8`: the text that the bytes encode, and nothing where they are
/// not valid UTF-8.
#[verifier::external_body]
pub(crate) fn from_utf8(bytes: &[u8]) -> (r: Option<String>)
    ensures
        r is Some == valid_utf8(bytes@),
        r matches Some(s) ==> s@ == decode_utf8(bytes@),
{
    match core::str::from_utf8(bytes) {
        Ok(s) => Some(s.to_owned()),
        Err(_) => None,
    }
}

/// A list of byte strings, each taken by what it holds.
pub open spec fn contents(list: Seq<Vec<u8>>) -> Seq<Seq<u8>> {
    list.map_values(|v: Vec<u8>| v@)
}

/// Adding to a list of byte strings adds to what it holds.
pub proof fn lemma_contents_push(list: Seq<Vec<u8>>, v: Vec<u8>)
    ensures
        contents(list.push(v)) == contents(list).push(v@),
{
    assert(contents(list.push(v)) =~= contents(list).push(v@));
}

/// Whether two byte strings are the same.
pub fn same_bytes(a: &[u8], b: &[u8]) -> (r: bool)
    ensures
        r == (a@ == b@),
{
    if a.len() != b.len() {
        return false;
    }
    let mut i: usize = 0;
    while i < a.len()
        invariant
            a.len() == b.len(),
            i <= a.len(),
            forall|j: int| 0 <= j < i ==> a@[j] == b@[j],
        decreases a.len() - i,
    {
        if a[i] != b[i] {
            return false;
        }
        i = i + 1;
    }
    assert(a@ =~= b@);
    true
}

/// Whether two texts are the same.
pub fn same_text(a: &str, b: &str) -> (r: bool)
    ensures
        r == (a@ == b@),
{
    proof {
        vstd::utf8::encode_utf8_decode_utf8(a@);
        vstd::utf8::encode_utf8_decode_utf8(b@);
    }
    same_bytes(a.as_bytes(), b.as_bytes())
}

/// The bytes of a text.
pub fn to_bytes(s: &str) -> (v: Vec<u8>)
    ensures
        v@ == encode_utf8(s@),
{
    vstd::slice::slice_to_vec(s.as_bytes())
}

/// A copy of a byte string.
pub fn copy_bytes(bytes: &[u8]) -> (v: Vec<u8>)
    ensures
        v@ == bytes@,
{
    vstd::slice::slice_to_vec(bytes)
}

/// Three texts, one after the other.
pub fn concat3(a: &str, b: &str, c: &str) -> (s: String)
    ensures
        s@ == a@ + b@ + c@,
{
    let mut s = String::new();
    s.append(a);
    s.append(b);
    s.append(c);
    assert(s@ =~= a@ + b@ + c@);
    s
}

// -------------------------------------------------------------- white space

/// Whether a character is white space, as Unicode has it.
pub open spec fn is_white(c: char) -> bool {
    let n = c as u32;
    (0x9 <= n <= 0xd) || n == 0x20 || n == 0x85 || n == 0xa0 || n == 0x1680 || (0x2000 <= n
        <= 0x200a) || n == 0x2028 || n == 0x2029 || n == 0x202f || n == 0x205f || n == 0x3000
}

/// A text from its first character that is not white space on.
pub open spec fn trimmed_start(s: Seq<char>) -> Seq<char>
    decreases s.len(),
{
    if s.len() > 0 && is_white(s[0]) {
        trimmed_start(s.skip(1))
    } else {
        s
    }
}

/// A text up to its last character that is not white space.
pub open spec fn trimmed_end(s: Seq<char>) -> Seq<char>
    decreases s.len(),
{
    if s.len() > 0 && is_white(s.last()) {
        trimmed_end(s.drop_last())
    } else {
        s
    }
}

/// A text without the white space at both of its ends.
pub open spec fn trimmed(s: Seq<char>) -> Seq<char> {
    trimmed_end(trimmed_start(s))
}

proof fn lemma_trimmed_start_push(s: Seq<char>, c: char)
    ensures
        trimmed_start(s.push(c)) == if trimmed_start(s).len() > 0 || !is_white(c) {
            trimmed_start(s).push(c)
        } else {
            Seq::empty()
        },
    decreases s.len(),
{
    if s.len() == 0 {
        assert(s.push(c).skip(1) =~= Seq::empty());
        assert(s =~= Seq::empty());
        assert(trimmed_start(s.push(c).skip(1)) == Seq::<char>::empty());
    } else if is_white(s[0]) {
        assert(s.push(c).skip(1) =~= s.skip(1).push(c));
        lemma_trimmed_start_push(s.skip(1), c);
    }
}

fn is_white_char(c: char) -> (b: bool)
    ensures
        b == is_white(c),
{
    let n: u32 = c as u32;
    (0x9 <= n && n <= 0xd) || n == 0x20 || n == 0x85 || n == 0xa0 || n == 0x1680 || (0x2000 <= n
        && n <= 0x200a) || n == 0x2028 || n == 0x2029 || n == 0x202f || n == 0x205f || n == 0x3000
}

/// A text without the white space at both of its ends.
pub fn trim(s: &str) -> (t: String)
    ensures
        t@ == trimmed(s@),
{
    let mut t = String::new();
    let mut pending = String::new();
    let mut begun: bool = false;
    for c in it: s.chars()
        invariant
            it.seq() == s@,
            0 <= it.index() <= s@.len(),
            begun == (trimmed_start(s@.take(it.index() as int)).len() > 0),
            t@ + pending@ == trimmed_start(s@.take(it.index() as int)),
            t@ == trimmed_end(trimmed_start(s@.take(it.index() as int))),
    {
        let ghost at = it.index() as int;
        let ghost so_far = trimmed_start(s@.take(at));
        let ghost next = trimmed_start(s@.take(at + 1));
        proof {
            assert(c == s@[at]);
            assert(s@.take(at + 1) =~= s@.take(at).push(c));
            lemma_trimmed_start_push(s@.take(at), c);
            assert(so_far.push(c).drop_last() =~= so_far);
        }
        if is_white_char(c) {
            if begun {
                pending.push(c);
                assert(t@ + pending@ =~= next);
            }
        } else {
            t.append(pending.as_str());
            t.push(c);
            pending = String::new();
            begun = true;
            assert(t@ =~= next);
            assert(t@ + pending@ =~= next);
        }
    }
    assert(s@.take(s@.len() as int) =~= s@);
    t
}

// ---------------------------------------------------------------- decimals

/// The character for a digit.
pub open spec fn digit(d: nat) -> char {
    (48 + d) as char
}

/// Whether a character is a decimal digit.
pub open spec fn is_digit(c: char) -> bool {
    '0' <= c && c <= '9'
}

/// A number in decimal, without leading zeros.
pub open spec fn decimal(n: nat) -> Seq<char>
    decreases n,
{
    if n < 10 {
        seq![digit(n)]
    } else {
        decimal(n / 10).push(digit(n % 10))
    }
}

/// A number in decimal, with a minus sign where it is negative.
pub open spec fn signed_decimal(n: int) -> Seq<char> {
    if n < 0 {
        seq!['-'] + decimal((-n) as nat)
    } else {
        decimal(n as nat)
    }
}

/// Whether a text is made of digits only.
pub open spec fn all_digits(s: Seq<char>) -> bool {
    forall|i: int| 0 <= i < s.len() ==> is_digit(#[trigger] s[i])
}

/// The number that a text of digits stands for, in base ten.
pub open spec fn digits_value(s: Seq<char>) -> nat
    decreases s.len(),
{
    if s.len() == 0 {
        0
    } else {
        10 * digits_value(s.drop_last()) + ((s.last() as int - 48) as nat)
    }
}

/// The number that a whole text stands for: digits after an optional `+`, or,
/// where negative numbers are allowed, an optional `-`.
pub open spec fn integer(s: Seq<char>, negative: bool) -> Option<int> {
    let minus = negative && s.len() > 0 && s[0] == '-';
    let body = if minus || (s.len() > 0 && s[0] == '+') {
        s.skip(1)
    } else {
        s
    };
    if body.len() == 0 || !all_digits(body) {
        None
    } else if minus {
        Some(-(digits_value(body) as int))
    } else {
        Some(digits_value(body) as int)
    }
}

/// The number that a text stands for, if it is one between `min` and `max`.
pub open spec fn integer_within(s: Seq<char>, negative: bool, min: int, max: int) -> Option<int> {
    match integer(s, negative) {
        Some(n) => if min <= n <= max {
            Some(n)
        } else {
            None
        },
        None => None,
    }
}

/// Append a number in decimal, however large.
pub fn push_wide(s: &mut String, n: u128)
    ensures
        final(s)@ == old(s)@ + decimal(n as nat),
    decreases n,
{
    if n >= 10 {
        push_wide(s, n / 10);
    }
    let c: char = (48u8 + (n % 10) as u8) as char;
    s.push(c);
    assert(s@ =~= old(s)@ + decimal(n as nat));
}

/// Append a number in decimal.
pub fn push_decimal(s: &mut String, n: u64)
    ensures
        final(s)@ == old(s)@ + decimal(n as nat),
{
    push_wide(s, n as u128);
}

/// A number in decimal.
pub fn decimal_text(n: u64) -> (s: String)
    ensures
        s@ == decimal(n as nat),
{
    let mut s = String::new();
    push_decimal(&mut s, n);
    assert(s@ =~= decimal(n as nat));
    s
}

/// Append a number in decimal, with a minus sign where it is negative.
pub fn push_signed(s: &mut String, n: i64)
    ensures
        final(s)@ == old(s)@ + signed_decimal(n as int),
{
    if n < 0 {
        s.push('-');
        push_wide(s, (-(n as i128)) as u128);
        assert(s@ =~= old(s)@ + signed_decimal(n as int));
    } else {
        push_decimal(s, n as u64);
    }
}

/// The value of the first digits is at most the value of all of them.
proof fn lemma_digits_prefix(s: Seq<char>, i: int)
    requires
        0 <= i <= s.len(),
    ensures
        digits_value(s.take(i)) <= digits_value(s),
    decreases s.len() - i,
{
    if i == s.len() {
        assert(s.take(i) =~= s);
    } else {
        lemma_digits_prefix(s, i + 1);
        assert(s.take(i + 1).drop_last() =~= s.take(i));
    }
}

/// Read a whole number between `min` and `max`, in base ten.
pub fn parse_integer(s: &str, negative: bool, min: i128, max: i128) -> (r: Option<i128>)
    requires
        -0x8000_0000_0000_0000 <= min <= max <= 0xffff_ffff_ffff_ffff,
    ensures
        match r {
            Some(n) => integer_within(s@, negative, min as int, max as int) == Some(n as int),
            None => integer_within(s@, negative, min as int, max as int) is None,
        },
{
    let mut minus: bool = false;
    let mut signed: bool = false;
    let mut any: bool = false;
    let ghost mut count: int = 0;
    let mut value: i128 = 0;
    let ghost skip: int = if s@.len() > 0 && (s@[0] == '+' || (negative && s@[0] == '-')) {
        1
    } else {
        0
    };
    let ghost body = s@.skip(skip);
    assert(s@.skip(0) =~= s@);
    for c in it: s.chars()
        invariant
            it.seq() == s@,
            -0x8000_0000_0000_0000 <= min <= max <= 0xffff_ffff_ffff_ffff,
            skip == (if s@.len() > 0 && (s@[0] == '+' || (negative && s@[0] == '-')) {
                1int
            } else {
                0int
            }),
            body == s@.skip(skip),
            skip == 0 ==> body == s@,
            0 <= it.index() <= s@.len(),
            signed == (it.index() > 0 && skip == 1),
            minus == (it.index() > 0 && negative && s@[0] == '-'),
            count == it.index() - (if signed { 1int } else { 0int }),
            any == (count > 0),
            all_digits(body.take(count)),
            value == digits_value(body.take(count)),
            0 <= value <= 0xffff_ffff_ffff_ffff,
    {
        let ghost at = it.index();
        assert(c == s@[at]);
        if !signed && !any && (c == '+' || (negative && c == '-')) {
            minus = c == '-';
            signed = true;
            assert(body.take(0) =~= Seq::<char>::empty());
        } else {
            assert(at >= skip);
            assert(c == body[at - skip]);
            if c < '0' || c > '9' {
                assert(!all_digits(body));
                return None;
            }
            let d: i128 = c as i128 - 48;
            value = value * 10 + d;
            proof {
                assert(body.take(count + 1).drop_last() =~= body.take(count));
                assert(body.take(count + 1).last() == c);
                assert forall|i: int| 0 <= i < count + 1 implies is_digit(
                    #[trigger] body.take(count + 1)[i],
                ) by {
                    if i < count {
                        assert(body.take(count + 1)[i] == body.take(count)[i]);
                    }
                }
                lemma_digits_prefix(body, count + 1);
            }
            if value > 0xffff_ffff_ffff_ffff {
                return None;
            }
            any = true;
            proof {
                count = count + 1;
            }
        }
    }
    assert(body.take(count) =~= body);
    if !any {
        return None;
    }
    let n: i128 = if minus { 0 - value } else { value };
    if min <= n && n <= max {
        Some(n)
    } else {
        None
    }
}

// -------------------------------------------------------------------- laws

/// A number written in decimal is made of digits and reads back as itself.
pub proof fn law_decimal_reads_back(n: nat)
    ensures
        decimal(n).len() > 0,
        all_digits(decimal(n)),
        digits_value(decimal(n)) == n,
        integer(decimal(n), false) == Some(n as int),
        integer(decimal(n), true) == Some(n as int),
    decreases n,
{
    if n >= 10 {
        law_decimal_reads_back(n / 10);
        assert(decimal(n).drop_last() =~= decimal(n / 10));
        assert forall|i: int| 0 <= i < decimal(n).len() implies is_digit(#[trigger] decimal(n)[i]) by {
            if i < decimal(n / 10).len() {
                assert(decimal(n)[i] == decimal(n / 10)[i]);
            }
        }
    } else {
        assert(decimal(n).drop_last() =~= Seq::<char>::empty());
        assert(digits_value(decimal(n).drop_last()) == 0);
    }
    assert(is_digit(decimal(n)[0]));
}

/// Two numbers written in decimal are the same text only if they are the same
/// number.
pub proof fn law_decimal_is_unambiguous(a: nat, b: nat)
    requires
        decimal(a) == decimal(b),
    ensures
        a == b,
{
    law_decimal_reads_back(a);
    law_decimal_reads_back(b);
}

proof fn lemma_leading_zero(s: Seq<char>)
    ensures
        digits_value(seq!['0'] + s) == digits_value(s),
    decreases s.len(),
{
    let z = seq!['0'] + s;
    if s.len() > 0 {
        lemma_leading_zero(s.drop_last());
        assert(z.drop_last() =~= seq!['0'] + s.drop_last());
        assert(z.last() == s.last());
    } else {
        assert(z.drop_last() =~= Seq::<char>::empty());
        assert(digits_value(z.drop_last()) == 0);
    }
}

/// Numbers are read in base ten whatever they start with: a leading zero changes
/// nothing.
pub proof fn law_leading_zeros_do_not_count(s: Seq<char>, negative: bool)
    requires
        s.len() > 0,
        all_digits(s),
    ensures
        integer(seq!['0'] + s, negative) == integer(s, negative),
        integer(s, negative) == Some(digits_value(s) as int),
{
    lemma_leading_zero(s);
    let z = seq!['0'] + s;
    assert forall|i: int| 0 <= i < z.len() implies is_digit(#[trigger] z[i]) by {
        if i > 0 {
            assert(z[i] == s[i - 1]);
        }
    }
    assert(is_digit(s[0]));
}

/// How a number is written: one digit for a number below ten, and otherwise the number
/// of its tens, followed by the digit of its ones. A minus stands before the digits of
/// a number below zero.
pub proof fn law_how_a_number_is_written(n: nat)
    ensures
        n == 0 ==> decimal(n) == seq!['0'],
        n == 1 ==> decimal(n) == seq!['1'],
        n < 10 ==> decimal(n).len() == 1 && decimal(n)[0] as int == '0' as int + n,
        n >= 10 ==> {
            &&& decimal(n).len() == decimal(n / 10).len() + 1
            &&& decimal(n).drop_last() == decimal(n / 10)
            &&& decimal(n).last() as int == '0' as int + n % 10
        },
        signed_decimal(n as int) == decimal(n),
        n > 0 ==> signed_decimal(-(n as int)) == seq!['-'] + decimal(n),
{
    if n >= 10 {
        assert(decimal(n).drop_last() =~= decimal(n / 10));
    }
}

/// What is read as a number, and as which: digits, each worth ten times the next, after
/// a `+` or nothing, or after a `-` where a number below zero may stand. Anything else
/// is none, an empty text and a lone sign among it.
pub proof fn law_how_a_number_is_read(s: Seq<char>, c: char, negative: bool)
    ensures
        integer(Seq::empty(), negative) is None,
        '0' <= c <= '9' ==> integer(seq![c], negative) == Some(c as int - '0' as int),
        c < '0' || c > '9' ==> integer(seq![c], negative) is None,
        // One more digit.
        s.len() > 0 && (forall|i: int| 0 <= i < s.len() ==> '0' <= #[trigger] s[i] <= '9') ==> {
            &&& integer(s, negative) is Some && integer(s, negative)->Some_0 >= 0
            &&& '0' <= c <= '9' ==> integer(s.push(c), negative) == Some(
                10 * integer(s, negative)->Some_0 + (c as int - '0' as int),
            )
            &&& integer(seq!['+'] + s, negative) == integer(s, negative)
            &&& integer(seq!['-'] + s, true) == Some(-integer(s, true)->Some_0)
        },
        integer(seq!['-'] + s, false) is None,
        // Anything else.
        s.len() > 0 && (exists|i: int| 1 <= i < s.len() && !('0' <= #[trigger] s[i] <= '9'))
            ==> integer(s, negative) is None,
        s.len() > 0 && s[0] != '+' && s[0] != '-' && !('0' <= s[0] <= '9') ==> integer(
            s,
            negative,
        ) is None,
{
    assert(seq![c].drop_last() =~= Seq::empty());
    assert(digits_value(Seq::empty()) == 0);
    assert(digits_value(seq![c]) == 10 * digits_value(seq![c].drop_last()) + ((c as int
        - 48) as nat));
    assert(seq![c][0] == c);
    if !('0' <= c <= '9') {
        assert(!is_digit(seq![c][0]));
        if c == '+' || c == '-' {
            assert(seq![c].skip(1) =~= Seq::empty());
        }
    }
    let digits = s.len() > 0 && forall|i: int| 0 <= i < s.len() ==> '0' <= #[trigger] s[i] <= '9';
    if digits {
        assert(all_digits(s));
        assert('0' <= s[0] <= '9');
        if '0' <= c <= '9' {
            assert(s.push(c).drop_last() =~= s);
            assert(s.push(c)[0] == s[0]);
            assert(all_digits(s.push(c)));
        }
        let plus = seq!['+'] + s;
        let minus = seq!['-'] + s;
        assert(plus[0] == '+' && minus[0] == '-');
        assert(plus.skip(1) =~= s);
        assert(minus.skip(1) =~= s);
    }
    let minus = seq!['-'] + s;
    assert(minus[0] == '-' && !is_digit(minus[0]));
    if exists|i: int| 1 <= i < s.len() && !('0' <= #[trigger] s[i] <= '9') {
        let i = choose|i: int| 1 <= i < s.len() && !('0' <= #[trigger] s[i] <= '9');
        assert(s.skip(1)[i - 1] == s[i]);
        assert(!is_digit(s[i]) && !is_digit(s.skip(1)[i - 1]));
    }
    if s.len() > 0 && s[0] != '+' && s[0] != '-' && !('0' <= s[0] <= '9') {
        assert(!is_digit(s[0]));
    }
}

/// Whether a character is white space, as Unicode lists it.
pub open spec fn is_blank(c: char) -> bool {
    let n = c as int;
    ||| n == 9 || n == 10 || n == 11 || n == 12 || n == 13 || n == 32
    ||| n == 133 || n == 160 || n == 5760 || 8192 <= n <= 8202
    ||| n == 8232 || n == 8233 || n == 8239 || n == 8287 || n == 12288
}

proof fn lemma_blank(c: char)
    ensures
        is_white(c) == is_blank(c),
{
}

proof fn lemma_trims_front(a: Seq<char>, s: Seq<char>)
    requires
        forall|i: int| 0 <= i < a.len() ==> is_blank(#[trigger] a[i]),
        s.len() > 0 ==> !is_blank(s[0]),
    ensures
        trimmed_start(a + s) == s,
    decreases a.len(),
{
    let whole = a + s;
    if a.len() == 0 {
        assert(whole =~= s);
        if s.len() > 0 {
            lemma_blank(s[0]);
        }
    } else {
        assert(is_blank(a[0]));
        lemma_blank(a[0]);
        assert(whole[0] == a[0]);
        assert(whole.skip(1) =~= a.skip(1) + s);
        assert forall|i: int| 0 <= i < a.skip(1).len() implies is_blank(
            #[trigger] a.skip(1)[i],
        ) by {
            assert(a.skip(1)[i] == a[i + 1]);
        }
        lemma_trims_front(a.skip(1), s);
    }
}

proof fn lemma_trims_back(s: Seq<char>, b: Seq<char>)
    requires
        forall|i: int| 0 <= i < b.len() ==> is_blank(#[trigger] b[i]),
        s.len() > 0 ==> !is_blank(s.last()),
    ensures
        trimmed_end(s + b) == s,
    decreases b.len(),
{
    let whole = s + b;
    if b.len() == 0 {
        assert(whole =~= s);
        if s.len() > 0 {
            lemma_blank(s.last());
        }
    } else {
        assert(is_blank(b[b.len() - 1]));
        lemma_blank(b.last());
        assert(whole.last() == b.last());
        assert(whole.drop_last() =~= s + b.drop_last());
        lemma_trims_back(s, b.drop_last());
    }
}

/// Trimming takes white space off both ends of a text, all of it and nothing else.
pub proof fn law_trimming_takes_off_white_space(a: Seq<char>, s: Seq<char>, b: Seq<char>)
    requires
        forall|i: int| 0 <= i < a.len() ==> is_blank(#[trigger] a[i]),
        forall|i: int| 0 <= i < b.len() ==> is_blank(#[trigger] b[i]),
        s.len() > 0 ==> !is_blank(s[0]) && !is_blank(s.last()),
    ensures
        trimmed(a + s + b) == s,
{
    let tail = s + b;
    if s.len() > 0 {
        assert(tail[0] == s[0]);
        assert(a + s + b =~= a + tail);
        lemma_trims_front(a, tail);
        lemma_trims_back(s, b);
    } else {
        let all = a + b;
        assert(a + s + b =~= all + s);
        assert forall|i: int| 0 <= i < all.len() implies is_blank(#[trigger] all[i]) by {
            if i < a.len() {
                assert(all[i] == a[i]);
            } else {
                assert(all[i] == b[i - a.len()]);
            }
        }
        lemma_trims_front(all, s);
    }
}

/// Bytes that are text are read as that text, and any others with marks in the place of
/// what is none.
pub proof fn law_text_is_read_as_it_stands(s: Seq<char>, bytes: Seq<u8>)
    ensures
        readable(vstd::utf8::encode_utf8(s)) == s,
        !valid_utf8(bytes) ==> readable(bytes) == lossy(bytes),
{
    vstd::utf8::encode_utf8_valid_utf8(s);
    vstd::utf8::encode_utf8_decode_utf8(s);
}

/// A number counts as one between two bounds if it lies between them or on either.
pub proof fn law_the_bounds_of_a_number(s: Seq<char>, negative: bool, min: int, max: int)
    ensures
        integer_within(s, negative, min, max) == match integer(s, negative) {
            Some(n) if n < min || n > max => None,
            other => other,
        },
{
}

} // verus!
