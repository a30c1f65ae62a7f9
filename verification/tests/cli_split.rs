//! Golden tests for the argument splitter.

use rash::cli::{self, Invocation, ParseError};

fn argv(args: &[&str]) -> Vec<Vec<u8>> {
    args.iter().map(|a| a.as_bytes().to_vec()).collect()
}

fn text(arg: &[u8]) -> String {
    String::from_utf8_lossy(arg).into_owned()
}

fn split(args: &[&str]) -> Invocation {
    cli::parse(&argv(args)).expect("should parse")
}

fn ssh(args: &[&str]) -> Vec<String> {
    split(args).ssh_args.iter().map(|a| text(a)).collect()
}

fn monitor(args: &[&str]) -> Option<String> {
    split(args).monitor.map(|m| text(&m))
}

#[test]
fn monitor_port_forms() {
    assert_eq!(
        monitor(&["-M", "20000", "-N", "host"]).as_deref(),
        Some("20000")
    );
    assert_eq!(
        monitor(&["-M20000", "-N", "host"]).as_deref(),
        Some("20000")
    );
    assert_eq!(
        monitor(&["-M", "20000:7", "host"]).as_deref(),
        Some("20000:7")
    );
    assert_eq!(monitor(&["-M", "0", "host"]).as_deref(), Some("0"));
    assert_eq!(monitor(&["-N", "host"]), None);

    // -M is consumed by rash and never reaches ssh.
    assert_eq!(ssh(&["-M", "20000", "-N", "host"]), ["-N", "host"]);
    assert_eq!(ssh(&["-M20000", "-N", "host"]), ["-N", "host"]);

    // Last -M wins.
    assert_eq!(
        monitor(&["-M", "20000", "-M", "30000", "host"]).as_deref(),
        Some("30000")
    );
}

#[test]
fn forwards_are_injected_where_dash_m_stood() {
    assert_eq!(split(&["-M", "20000", "-N", "host"]).inject_at, 0);
    assert_eq!(split(&["-N", "-M", "20000", "host"]).inject_at, 1);
    assert_eq!(split(&["-N", "-q", "-M", "20000", "host"]).inject_at, 2);

    let mut inv = split(&["-N", "-M", "20000", "host"]);
    cli::splice_forwards(
        &mut inv.ssh_args,
        inv.inject_at,
        argv(&["-L", "20000:127.0.0.1:20000", "-R", "20000:127.0.0.1:20001"]),
    );
    let got: Vec<String> = inv.ssh_args.iter().map(|a| text(a)).collect();
    assert_eq!(
        got,
        [
            "-N",
            "-L",
            "20000:127.0.0.1:20000",
            "-R",
            "20000:127.0.0.1:20001",
            "host"
        ]
    );
}

#[test]
fn dash_f_is_rash_s_and_is_stripped_from_clusters() {
    assert!(split(&["-f", "-M", "0", "host"]).background);
    assert_eq!(ssh(&["-f", "-M", "0", "host"]), ["host"]);

    assert!(split(&["-fN", "-M", "0", "host"]).background);
    assert_eq!(ssh(&["-fN", "-M", "0", "host"]), ["-N", "host"]);

    assert!(split(&["-Nf", "-M", "0", "host"]).background);
    assert_eq!(ssh(&["-Nf", "-M", "0", "host"]), ["-N", "host"]);

    // A cluster that is nothing but -f leaves no argument at all.
    assert_eq!(ssh(&["-M", "0", "-f", "host"]), ["host"]);
}

#[test]
fn d4_f_inside_an_option_value_is_never_stripped() {
    // Stripping letters must not eat the `f` out of a value.
    assert_eq!(
        ssh(&["-i", "/home/me/.ssh/id_for_work", "-M", "0", "host"]),
        ["-i", "/home/me/.ssh/id_for_work", "host"]
    );
    // Attached form: the value is the rest of the token.
    assert_eq!(
        ssh(&["-i/home/me/.ssh/id_for_work", "-M", "0", "host"]),
        ["-i/home/me/.ssh/id_for_work", "host"]
    );
    assert_eq!(
        ssh(&["-o", "ExitOnForwardFailure=yes", "-M", "0", "host"]),
        ["-o", "ExitOnForwardFailure=yes", "host"]
    );
}

#[test]
fn d1_unknown_options_are_forwarded_not_rejected() {
    assert_eq!(
        ssh(&["-B", "en0", "-M", "0", "host"]),
        ["-B", "en0", "host"]
    );

    // A cluster containing an unknown letter is passed through byte-for-byte,
    // because we cannot know whether that letter takes a value.
    assert_eq!(ssh(&["-Zq", "-M", "0", "host"]), ["-Zq", "host"]);

    // Letters classified before the unknown one were provably option letters, so
    // stripping -f up to that point stays safe.
    let inv = split(&["-fNZ", "-M", "0", "host"]);
    assert!(inv.background);
    assert_eq!(ssh(&["-fNZ", "-M", "0", "host"]), ["-NZ", "host"]);
}

#[test]
fn d2_p_takes_a_value_on_modern_openssh() {
    // OpenSSH 10.3 has `-P tag`.
    assert_eq!(
        ssh(&["-P", "mytag", "-M", "0", "host"]),
        ["-P", "mytag", "host"]
    );
    assert_eq!(
        ssh(&["-p", "2222", "-M", "0", "host"]),
        ["-p", "2222", "host"]
    );
}

#[test]
fn d3_nothing_after_the_separator_is_rewritten() {
    assert_eq!(
        ssh(&["-M", "0", "host", "--", "cmd", "-flag"]),
        ["host", "cmd", "-flag"]
    );
    // The first `--` is rash's; any later one is ssh's.
    assert_eq!(
        ssh(&["-M", "0", "host", "--", "cmd", "--", "-f"]),
        ["host", "cmd", "--", "-f"]
    );
    // -M is not recognised after the separator either.
    let inv = split(&["-M", "0", "host", "--", "-M", "1"]);
    assert_eq!(
        inv.monitor.map(|m| text(&m)).as_deref(),
        Some("0")
    );
}

#[test]
fn passthrough_shapes() {
    assert_eq!(ssh(&["-4", "-M", "0", "host"]), ["-4", "host"]);
    assert_eq!(
        ssh(&["-L", "8080:localhost:80", "-M", "0", "host"]),
        ["-L", "8080:localhost:80", "host"]
    );
    // A lone `-` is not an option.
    assert_eq!(ssh(&["-M", "0", "host", "-"]), ["host", "-"]);
    // Remote command words survive in order.
    assert_eq!(
        ssh(&["-M", "0", "-t", "host", "screen", "-D", "-R"]),
        ["-t", "host", "screen", "-D", "-R"]
    );
}

#[test]
fn dash_m_inside_a_cluster() {
    let inv = split(&["-NM20000", "host"]);
    assert_eq!(
        inv.monitor.map(|m| text(&m)).as_deref(),
        Some("20000")
    );
    assert_eq!(ssh(&["-NM20000", "host"]), ["-N", "host"]);
    assert_eq!(inv.inject_at, 0);

    let inv = split(&["-NM", "20000", "host"]);
    assert_eq!(
        inv.monitor.map(|m| text(&m)).as_deref(),
        Some("20000")
    );
    assert_eq!(ssh(&["-NM", "20000", "host"]), ["-N", "host"]);
}

#[test]
fn version_is_rash_s_not_ssh_s() {
    assert!(split(&["-V"]).version);
    assert!(split(&["-M", "0", "-V", "host"]).version);
    assert_eq!(ssh(&["-M", "0", "-V", "host"]), ["host"]);
}

#[test]
fn long_options_belong_to_rash() {
    assert!(split(&["--dry-run", "-M", "0", "host"]).dry_run);
    assert!(split(&["--help"]).help);
    assert!(split(&["--version"]).version);

    let inv = split(&["--monitor", "unix", "-N", "host"]);
    assert_eq!(
        inv.monitor_long.map(|m| text(&m)).as_deref(),
        Some("unix")
    );
    let inv = split(&["--monitor=unix", "-N", "host"]);
    assert_eq!(
        inv.monitor_long.map(|m| text(&m)).as_deref(),
        Some("unix")
    );

    // Long options are not recognised after the separator.
    assert_eq!(
        ssh(&["-M", "0", "host", "--", "--dry-run"]),
        ["host", "--dry-run"]
    );
    assert!(!split(&["-M", "0", "host", "--", "--dry-run"]).dry_run);
}

#[test]
fn errors() {
    assert_eq!(
        cli::parse(&argv(&["-M"])),
        Err(ParseError::MissingValue("-M".into()))
    );
    assert_eq!(
        cli::parse(&argv(&["--nope"])),
        Err(ParseError::UnknownLongOption("--nope".into()))
    );
    assert_eq!(
        cli::parse(&argv(&["--monitor"])),
        Err(ParseError::MissingValue("--monitor".into()))
    );
}

#[test]
fn the_manual_page_can_be_asked_for() {
    assert!(split(&["--man"]).man);
    assert!(!split(&["--help"]).man);
}

#[test]
fn sessions_and_config_files_can_be_named() {
    let inv = split(&["--session", "homelab", "--config=/etc/rash.toml", "--list"]);
    assert_eq!(inv.session.as_deref(), Some("homelab"));
    assert_eq!(inv.config.map(|c| text(&c)).as_deref(), Some("/etc/rash.toml"));
    assert!(inv.list);

    // Text that is not UTF-8 is shown with replacement characters.
    let inv = cli::parse(&[b"--session=a\xffb".to_vec()]).expect("should parse");
    assert_eq!(inv.session.as_deref(), Some("a\u{fffd}b"));
}

#[test]
fn bytes_that_are_not_text_reach_ssh_unchanged() {
    let inv = cli::parse(&[b"-M".to_vec(), b"0".to_vec(), b"h\xf6st".to_vec()]).expect("parse");
    assert_eq!(inv.ssh_args, [b"h\xf6st".to_vec()]);
}

#[test]
fn a_value_option_at_the_end_is_left_to_ssh() {
    assert_eq!(ssh(&["-M", "0", "host", "-p"]), ["host", "-p"]);
    // A separator that is the value of an option is none.
    assert_eq!(ssh(&["-i", "--", "-f", "host"]), ["-i", "--", "host"]);
}

#[test]
fn the_first_dash_m_says_where_and_the_last_says_what() {
    let inv = split(&["-N", "-M", "1", "-q", "-M", "2", "host"]);
    assert_eq!(inv.monitor.map(|m| text(&m)).as_deref(), Some("2"));
    assert_eq!(inv.inject_at, 1);
}

#[test]
fn error_texts() {
    assert_eq!(
        ParseError::MissingValue("-M".to_owned()).text(),
        "option -M requires an argument"
    );
    assert_eq!(
        ParseError::UnknownLongOption("--nope".to_owned()).text(),
        "unknown option --nope"
    );
}

#[test]
fn splicing_past_the_end_appends() {
    let mut args = argv(&["a", "b"]);
    cli::splice_forwards(&mut args, 9, argv(&["x"]));
    assert_eq!(args, argv(&["a", "b", "x"]));

    let mut inv = split(&["-N", "-M", "1", "host"]);
    cli::inject_forwards(&mut inv, argv(&["x", "y"]));
    assert_eq!(inv.ssh_args, argv(&["-N", "x", "y", "host"]));
}

#[test]
fn quoting() {
    assert_eq!(cli::quote(b"me@host"), "me@host");
    assert_eq!(cli::quote(b""), "''");
    assert_eq!(cli::quote(b"two words"), "'two words'");
    assert_eq!(cli::quote(b"it's"), "'it'\\''s'");
    assert_eq!(cli::quote(b"\xff"), "'\u{fffd}'");
}

#[test]
fn texts_are_quoted_alike() {
    assert_eq!(cli::quote_text("a/b-c_d.e:f,g=h+i%j@k"), "a/b-c_d.e:f,g=h+i%j@k");
    assert_eq!(cli::quote_text("$HOME"), "'$HOME'");
}

#[test]
fn short_options_are_never_refused() {
    for c in 1u8..128 {
        if c == b'M' || c == b'-' {
            continue;
        }
        assert!(cli::parse(&[vec![b'-', c]]).is_ok(), "letter {c}");
    }
    assert_eq!(
        cli::parse(&argv(&["-NM"])),
        Err(ParseError::MissingValue("-M".to_owned()))
    );
}

#[test]
fn values_that_look_like_options_are_untouched() {
    assert_eq!(ssh(&["-i", "-fV", "-o", "--nope", "host"]), ["-i", "-fV", "-o", "--nope", "host"]);
}

#[test]
fn stripping_can_leave_two_dashes() {
    assert_eq!(ssh(&["-M", "0", "-f-x", "host"]), ["--x", "host"]);
}

#[test]
fn splitting_again_changes_nothing() {
    for args in [
        &["-M", "1", "-fN", "-i", "-f", "host", "-VM2", "screen"][..],
        &["-NM", "20000", "-p", "2222", "my-host"][..],
        &["--dry-run", "-o", "-M", "-Zf", "host", "-p"][..],
    ] {
        let once = split(args);
        let again = cli::parse(&once.ssh_args).expect("should parse");
        assert_eq!(
            again,
            Invocation {
                ssh_args: once.ssh_args,
                ..Invocation::default()
            }
        );
    }
}

#[test]
fn a_monitor_inside_a_value_is_none() {
    let inv = split(&["-i", "-M", "-q", "-NM7", "host"]);
    assert_eq!(inv.monitor.map(|m| text(&m)).as_deref(), Some("7"));
    assert_eq!(inv.inject_at, 3);
    assert_eq!(split(&["-N", "host"]).inject_at, 0);
}

#[test]
fn a_monitor_option_at_the_end_needs_its_value() {
    for args in [&["-M"][..], &["-N", "-qM"][..], &["-p", "22", "host", "-fM"][..]] {
        assert_eq!(
            cli::parse(&argv(args)),
            Err(ParseError::MissingValue("-M".to_owned()))
        );
    }
    // As the value of an option, or behind the separator, it is no option.
    assert!(cli::parse(&argv(&["-i", "-M"])).is_ok());
    assert!(cli::parse(&argv(&["--", "-M"])).is_ok());
}
