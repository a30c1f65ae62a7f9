//! The configuration file.

use rash::settings::{loaded, File, Reading, Section, Spec};

fn section(poll: Option<u64>, message: Option<&str>) -> Section {
    let mut s = Section::default();
    s.poll = poll;
    s.message = message.map(|m| m.to_owned());
    s
}

fn file() -> File {
    let mut f = File::default();
    f.defaults = section(Some(600), Some("default"));
    f.insert("work".to_owned(), section(Some(30), None));
    f.insert("homelab".to_owned(), section(None, Some("homelab")));
    f
}

#[test]
fn a_spec_is_a_port_or_a_text() {
    assert_eq!(Spec::Port(20000).as_text(), "20000");
    assert_eq!(Spec::Text("20000:7".to_owned()).as_text(), "20000:7");
}

#[test]
fn without_a_session_the_defaults_are_all_there_is() {
    let s = file().section(None).expect("the defaults");
    assert_eq!(s, section(Some(600), Some("default")));
}

#[test]
fn a_session_is_laid_over_the_defaults() {
    let s = file().section(Some("work")).expect("the session");
    assert_eq!(s, section(Some(30), Some("default")));
    let s = file().section(Some("homelab")).expect("the session");
    assert_eq!(s, section(Some(600), Some("homelab")));
}

#[test]
fn every_field_can_be_overlaid() {
    let full = || Section {
        monitor: Some(Spec::Port(1)),
        ssh_args: Some(vec!["-N".to_owned(), "host".to_owned()]),
        ssh_path: Some(b"/usr/bin/ssh".to_vec()),
        poll: Some(1),
        first_poll: Some(2),
        gatetime: Some(3),
        maxstart: Some(-1),
        maxlifetime: Some(4),
        message: Some("m".to_owned()),
        pidfile: Some(b"/p".to_vec()),
        monitor_host: Some("::1".to_owned()),
        kill_timeout: Some(5),
        log: Some("stderr".to_owned()),
        log_format: Some("json".to_owned()),
        loglevel: Some("debug".to_owned()),
    };
    let mut s = Section::default();
    s.overlay(&full());
    assert_eq!(s, full());
    // A section that sets nothing changes nothing.
    s.overlay(&Section::default());
    assert_eq!(s, full());
    assert_eq!(s.clone(), full());
}

#[test]
fn a_missing_session_is_complained_about() {
    assert_eq!(
        file().section(Some("nope")),
        Err(
            "no session named \"nope\" in the config file (it has: homelab, work)".to_owned()
        )
    );
    assert_eq!(
        File::default().section(Some("nope")),
        Err("no session named \"nope\" in the config file (it defines none)".to_owned())
    );
}

#[test]
fn names_are_sorted_by_their_bytes() {
    let mut f = File::default();
    for name in ["b", "a", "ab", "Z", "é", "a"] {
        f.insert(name.to_owned(), Section::default());
    }
    assert_eq!(f.session_names(), ["Z", "a", "ab", "b", "é"]);
    assert!(File::default().session_names().is_empty());
}

#[test]
fn a_session_that_is_inserted_again_is_replaced() {
    let mut f = file();
    f.insert("work".to_owned(), section(Some(7), None));
    assert_eq!(f.session_names(), ["homelab", "work"]);
    assert_eq!(f.section(Some("work")).expect("work").poll, Some(7));
}

#[test]
fn a_missing_file_is_no_error() {
    assert_eq!(
        loaded(b"/etc/rash.toml", Reading::Missing),
        Ok(File::default())
    );
    assert_eq!(
        loaded(b"/etc/rash.toml", Reading::Parsed(Ok(file()))),
        Ok(file())
    );
    assert_eq!(
        loaded(
            b"/etc/\xff",
            Reading::Parsed(Err("expected a table".to_owned()))
        ),
        Err("/etc/\u{fffd}: expected a table".to_owned())
    );
    assert_eq!(
        loaded(b"/etc/rash.toml", Reading::Failed("denied".to_owned())),
        Err("/etc/rash.toml: denied".to_owned())
    );
}

#[test]
fn a_file_can_be_copied() {
    assert_eq!(file().clone(), file());
    assert_eq!(File::default().clone(), File::default());
}
