//! Which system call comes next when rash detaches itself.

use rash::daemon::{Call, Detach};

/// Make every call succeed, and list them.
fn detach(null: i32) -> Vec<Call> {
    let mut d = Detach::new();
    let mut made = Vec::new();
    loop {
        let call = d.call();
        made.push(call);
        match call {
            Call::Leave | Call::Finished | Call::Failed => return made,
            Call::OpenNull => d.advance(null),
            _ => d.advance(0),
        }
    }
}

#[test]
fn a_daemon_makes_all_the_calls_in_order() {
    assert_eq!(
        detach(5),
        [
            Call::Fork,
            Call::NewSession,
            Call::Fork,
            Call::ToRoot,
            Call::OpenNull,
            Call::Alias(5, 0),
            Call::Alias(5, 1),
            Call::Alias(5, 2),
            Call::Close(5),
            Call::Finished,
        ]
    );
}

#[test]
fn a_standard_descriptor_is_not_closed() {
    let made = detach(0);
    assert_eq!(made[7], Call::Alias(0, 2));
    assert_eq!(made[8], Call::Finished);
}

#[test]
fn the_parents_leave() {
    let mut d = Detach::new();
    d.advance(1234);
    assert_eq!(d.call(), Call::Leave);

    let mut d = Detach::new();
    d.advance(0);
    d.advance(77);
    d.advance(1235);
    assert_eq!(d.call(), Call::Leave);
}

#[test]
fn failures_are_passed_on() {
    // The first five calls fail at once.
    for failing in 0..5 {
        let mut d = Detach::new();
        for _ in 0..failing {
            d.advance(0);
        }
        d.advance(-1);
        assert_eq!(d.call(), Call::Failed, "call {failing}");
    }

    // A failure to redirect closes what was opened, whatever close returns.
    let mut d = Detach::new();
    for returned in [0, 0, 0, 0, 9, 0, -1] {
        d.advance(returned);
    }
    assert_eq!(d.call(), Call::Close(9));
    d.advance(-1);
    assert_eq!(d.call(), Call::Failed);
}
