//! Where log lines go.

use rash::config::{Level, Log, LogTarget};
use rash::log::{bare_line, emit, full_line, prefix, Dest};

fn logger(target: LogTarget, level: Level, also_stderr: bool) -> Log {
    Log {
        target,
        level,
        also_stderr,
    }
}

#[test]
fn before_there_is_a_log_everything_goes_to_stderr() {
    assert_eq!(emit(None, Level::Debug, "x"), [Dest::Bare]);
    assert_eq!(bare_line("x"), "rash: x\n");
}

#[test]
fn chattier_levels_are_dropped() {
    let log = logger(LogTarget::Stderr, Level::Info, false);
    assert_eq!(emit(Some(&log), Level::Error, "x"), [Dest::Stderr]);
    assert_eq!(emit(Some(&log), Level::Info, "x"), [Dest::Stderr]);
    assert_eq!(emit(Some(&log), Level::Debug, "x"), []);
}

#[test]
fn debugging_mirrors_to_stderr_once() {
    let log = logger(LogTarget::Syslog, Level::Debug, true);
    assert_eq!(
        emit(Some(&log), Level::Debug, "x"),
        [Dest::Syslog, Dest::Stderr]
    );
    let log = logger(LogTarget::File(b"/l".to_vec()), Level::Debug, true);
    assert_eq!(
        emit(Some(&log), Level::Debug, "x"),
        [Dest::File, Dest::Stderr]
    );
    let log = logger(LogTarget::Stderr, Level::Debug, true);
    assert_eq!(emit(Some(&log), Level::Debug, "x"), [Dest::Stderr]);
}

#[test]
fn syslog_cannot_take_a_nul() {
    let log = logger(LogTarget::Syslog, Level::Debug, false);
    assert_eq!(emit(Some(&log), Level::Info, "a\0b"), []);
    assert_eq!(emit(Some(&log), Level::Info, "100%s"), [Dest::Syslog]);
}

#[test]
fn the_shape_of_a_line() {
    assert_eq!(
        prefix("2024/01/02 03:04:05", 7),
        "2024/01/02 03:04:05 rash[7]:"
    );
    assert_eq!(
        full_line("2024/01/02 03:04:05", 7, "hello"),
        "2024/01/02 03:04:05 rash[7]: hello\n"
    );
}
