//! Numbers, texts, addresses and spans of time.

use rash::host::Host;
use rash::text::{
    concat3, copy_bytes, decimal_text, parse_integer, push_decimal, push_signed, push_wide,
    same_bytes, same_text, to_bytes, to_readable, trim,
};
use rash::time::Duration;

#[test]
fn numbers_are_written_in_decimal() {
    assert_eq!(decimal_text(0), "0");
    assert_eq!(decimal_text(20_000), "20000");
    assert_eq!(decimal_text(u64::MAX), "18446744073709551615");
    let mut s = "n = ".to_owned();
    push_decimal(&mut s, 10);
    push_signed(&mut s, -7);
    push_signed(&mut s, i32::MIN.into());
    push_signed(&mut s, 8);
    assert_eq!(s, "n = 10-7-21474836488");
    let mut s = String::new();
    push_wide(&mut s, u128::MAX);
    assert_eq!(s, "340282366920938463463374607431768211455");
}

#[test]
fn numbers_are_read_like_the_standard_library_reads_them() {
    let texts = [
        "", "+", "-", "0", "-0", "+0", "00", "007", "+7", "-7", "--7", "7-", "7 ", " 7", "1_0",
        "0x10", "65534", "4294967295", "4294967296", "18446744073709551615",
        "18446744073709551616", "-9223372036854775808", "-9223372036854775809",
        "9223372036854775807", "9223372036854775808", "99999999999999999999999999", "\u{661}",
    ];
    for t in texts {
        assert_eq!(
            parse_integer(t, false, 0, u64::MAX.into()),
            t.parse::<u64>().ok().map(i128::from),
            "{t:?} as u64"
        );
        assert_eq!(
            parse_integer(t, true, i64::MIN.into(), i64::MAX.into()),
            t.parse::<i64>().ok().map(i128::from),
            "{t:?} as i64"
        );
        assert_eq!(
            parse_integer(t, false, 0, u32::MAX.into()),
            t.parse::<u32>().ok().map(i128::from),
            "{t:?} as u32"
        );
    }
    // What is written reads back.
    for n in [0u64, 9, 10, 99, 100, 65_534, u64::MAX] {
        assert_eq!(
            parse_integer(&decimal_text(n), false, 0, u64::MAX.into()),
            Some(n.into())
        );
    }
}

#[test]
fn texts_and_bytes_compare() {
    assert!(same_text("über", "über"));
    assert!(!same_text("a", "ab"));
    assert!(same_bytes(b"\xff", b"\xff"));
    assert!(!same_bytes(b"\xff", b"\xfe"));
    assert_eq!(to_bytes("ü"), b"\xc3\xbc");
    assert_eq!(copy_bytes(b"\0x"), b"\0x");
    assert_eq!(concat3("a", "", "b"), "ab");
}

#[test]
fn addresses_as_text() {
    assert_eq!(Host::localhost().text(), "127.0.0.1");
    assert_eq!(Host::V4([255, 0, 10, 9]).text(), "255.0.10.9");
    let v6 = Host::V6([0xfe80, 0, 0, 0, 0, 0, 0, 0xab]);
    assert_eq!(v6.text(), "fe80::ab");
    assert_eq!(v6.enclose("fe80::ab"), "[fe80::ab]");
    assert_eq!(Host::localhost().enclose("127.0.0.1"), "127.0.0.1");
}

#[test]
fn spans_of_time() {
    let d = Duration::from_millis(1_500);
    assert_eq!((d.secs, d.nanos), (1, 500_000_000));
    assert_eq!(d.as_secs(), 1);
    assert_eq!(d.as_millis(), 1_500);
    assert!(!d.is_zero());
    assert!(Duration::zero().is_zero());
    assert!(d.at_most(&Duration::from_secs(2)));
    assert!(!d.at_most(&Duration::from_secs(1)));
    assert!(d.at_most(&d));
    assert!(Duration::from_secs(u64::MAX).at_most(&Duration::longest()));
    assert_eq!(
        Duration::from_secs(u64::MAX).as_millis(),
        18_446_744_073_709_551_615_000
    );
}

#[test]
fn trimming_agrees_with_the_standard_library() {
    for n in 0..0x11_0000u32 {
        if let Some(c) = char::from_u32(n) {
            let s = format!("{c}x{c}");
            assert_eq!(trim(&s), s.trim(), "U+{n:04X}");
        }
    }
    for s in ["", " ", "\n\t", "a", " a b ", "\u{a0}a\u{3000}\n", "a\n\nb"] {
        assert_eq!(trim(s), s.trim());
    }
}

#[test]
fn bytes_become_readable() {
    assert_eq!(to_readable("über".as_bytes()), "über");
    assert_eq!(to_readable(b"a\xffb"), "a\u{fffd}b");
}
