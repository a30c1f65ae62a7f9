//! The pid file.

use rash::pidfile::{cannot_open, PidFile};

#[test]
fn it_writes_our_pid_and_removes_the_file_on_drop() {
    let guard = PidFile::new(b"/run/rash.pid".to_vec(), 4242);
    assert_eq!(guard.path(), b"/run/rash.pid");
    let written: u32 = guard.contents().trim().parse().expect("a number");
    assert_eq!(written, 4242);
    assert_eq!(guard.contents(), "4242\n");

    // What was written is recognised, and so removed.
    assert!(guard.is_ours(Some(guard.contents().as_bytes())));
    // White space around the pid does not count.
    assert!(guard.is_ours(Some(b"4242")));
    assert!(guard.is_ours(Some(b" \t4242\r\n\n")));
}

#[test]
fn a_file_claimed_by_another_process_is_left_alone() {
    // Nothing stops a second rash being pointed at the same path: it truncates
    // the file and writes its own pid. Unconditional removal would then have the
    // first one to exit delete the *survivor's* pid file.
    let guard = PidFile::new(b"/run/rash.pid".to_vec(), 4242);
    assert!(!guard.is_ours(Some(b"999999\n")));
    assert!(!guard.is_ours(Some(b"")));
    assert!(!guard.is_ours(Some(b"42")));
    assert!(!guard.is_ours(Some(b"42420\n")));
    assert!(!guard.is_ours(Some(b"42 42\n")));
    assert!(!guard.is_ours(Some(b"4242\xff")));
    assert!(!guard.is_ours(Some(b"04242\n")));
}

#[test]
fn a_file_removed_underneath_us_is_not_an_error_on_drop() {
    let guard = PidFile::new(b"/run/rash.pid".to_vec(), 4242);
    assert!(!guard.is_ours(None));
}

#[test]
fn the_complaint_names_the_file() {
    assert_eq!(
        cannot_open(b"/no/\xff", "No such file"),
        "cannot open pid file \"/no/\u{fffd}\": No such file"
    );
}
