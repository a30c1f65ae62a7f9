//! Detaching from the terminal, for `-f`: which system call comes next.
//!
//! The process forks, starts a new session, forks again, moves to `/`, and points
//! the standard descriptors at `/dev/null`. All of it has to happen before there
//! is any other thread, because fork(2) carries none into the child.

use vstd::prelude::*;

verus! {

/// A system call to make, or what came of them all.
#[derive(Debug, Clone, Copy, PartialEq, Eq, Structural)]
pub enum Call {
    /// fork(2)
    Fork,
    /// setsid(2)
    NewSession,
    /// chdir(2) to `/`
    ToRoot,
    /// open(2) of `/dev/null`, for reading and writing
    OpenNull,
    /// dup2(2) of the first descriptor onto the second
    Alias(i32, i32),
    /// close(2), whatever it returns
    Close(i32),
    /// _exit(2) with status 0: this is the process that was left behind
    Leave,
    /// Nothing: this is the daemon
    Finished,
    /// Nothing: the call before returned -1, for a reason that the caller has to
    /// remember before it makes the next one
    Failed,
}

/// How far a process has come.
#[derive(Debug, Clone, Copy, PartialEq, Eq, Structural)]
pub enum Detach {
    /// Before the first fork. Its child is not the leader of a process group, so
    /// that it can start a session.
    First,
    Session,
    /// Before the second fork. Its child does not lead the session, so that it can
    /// never get a controlling terminal.
    Second,
    Root,
    Null,
    /// Before `/dev/null`, open as the first number, takes the place of the second.
    Redirect(i32, i32),
    /// Before the last descriptor is closed, for good or because of a failure.
    Tidy(i32, bool),
    /// The process was left behind, became the daemon, or failed.
    Over(Call),
}

/// The call to make.
pub open spec fn due(d: Detach) -> Call {
    match d {
        Detach::First => Call::Fork,
        Detach::Session => Call::NewSession,
        Detach::Second => Call::Fork,
        Detach::Root => Call::ToRoot,
        Detach::Null => Call::OpenNull,
        Detach::Redirect(fd, target) => Call::Alias(fd, target),
        Detach::Tidy(fd, _) => Call::Close(fd),
        Detach::Over(end) => end,
    }
}

/// How far the process is once the call that was due has returned.
pub open spec fn advanced(d: Detach, returned: int) -> Detach {
    match d {
        Detach::Redirect(fd, target) => if returned == -1 {
            Detach::Tidy(fd, false)
        } else if target < 2 {
            Detach::Redirect(fd, (target + 1) as i32)
        } else if fd > 2 {
            Detach::Tidy(fd, true)
        } else {
            Detach::Over(Call::Finished)
        },
        Detach::Tidy(_, ok) => Detach::Over(
            if ok {
                Call::Finished
            } else {
                Call::Failed
            },
        ),
        Detach::Over(_) => d,
        _ => if returned == -1 {
            Detach::Over(Call::Failed)
        } else {
            match d {
                // In the parent fork returns the child.
                Detach::First => if returned == 0 {
                    Detach::Session
                } else {
                    Detach::Over(Call::Leave)
                },
                Detach::Session => Detach::Second,
                Detach::Second => if returned == 0 {
                    Detach::Root
                } else {
                    Detach::Over(Call::Leave)
                },
                Detach::Root => Detach::Null,
                _ => Detach::Redirect(returned as i32, 0),
            }
        },
    }
}

impl Detach {
    /// The descriptor that is redirected to is a standard one.
    pub open spec fn wf(self) -> bool {
        self matches Detach::Redirect(_, target) ==> 0 <= target <= 2
    }

    /// A process that is about to detach itself.
    pub fn new() -> (d: Self)
        ensures
            d == Detach::First,
            d.wf(),
    {
        Detach::First
    }

    /// The call to make next.
    pub fn call(&self) -> (c: Call)
        ensures
            c == due(*self),
    {
        match *self {
            Detach::First => Call::Fork,
            Detach::Session => Call::NewSession,
            Detach::Second => Call::Fork,
            Detach::Root => Call::ToRoot,
            Detach::Null => Call::OpenNull,
            Detach::Redirect(fd, target) => Call::Alias(fd, target),
            Detach::Tidy(fd, _) => Call::Close(fd),
            Detach::Over(end) => end,
        }
    }

    /// Take in what the call returned.
    pub fn advance(&mut self, returned: i32)
        requires
            old(self).wf(),
        ensures
            *final(self) == advanced(*old(self), returned as int),
            final(self).wf(),
    {
        *self = match *self {
            Detach::Redirect(fd, target) => {
                if returned == -1 {
                    Detach::Tidy(fd, false)
                } else if target < 2 {
                    Detach::Redirect(fd, target + 1)
                } else if fd > 2 {
                    Detach::Tidy(fd, true)
                } else {
                    Detach::Over(Call::Finished)
                }
            },
            Detach::Tidy(_, ok) => Detach::Over(
                if ok {
                    Call::Finished
                } else {
                    Call::Failed
                },
            ),
            Detach::Over(end) => Detach::Over(end),
            _ if returned == -1 => Detach::Over(Call::Failed),
            Detach::First => {
                if returned == 0 {
                    Detach::Session
                } else {
                    Detach::Over(Call::Leave)
                }
            },
            Detach::Session => Detach::Second,
            Detach::Second => {
                if returned == 0 {
                    Detach::Root
                } else {
                    Detach::Over(Call::Leave)
                }
            },
            Detach::Root => Detach::Null,
            Detach::Null => Detach::Redirect(returned, 0),
        };
    }
}

// -------------------------------------------------------------------- laws

/// How far a process is after calls that returned these values.
pub open spec fn after(returned: Seq<int>) -> Detach
    decreases returned.len(),
{
    if returned.len() == 0 {
        Detach::First
    } else {
        advanced(after(returned.drop_last()), returned.last())
    }
}

/// The calls that were made, by what they returned.
pub open spec fn calls(returned: Seq<int>) -> Seq<Call>
    decreases returned.len(),
{
    if returned.len() == 0 {
        Seq::empty()
    } else {
        calls(returned.drop_last()).push(due(after(returned.drop_last())))
    }
}

/// Whether a process is not over before the last of these calls.
pub open spec fn ongoing(returned: Seq<int>) -> bool {
    forall|k: int| 0 <= k < returned.len() ==> !(after(#[trigger] returned.take(k)) is Over)
}

/// The calls that turn a process into a daemon, where `/dev/null` is opened as
/// `fd`. Where that is none of the standard descriptors it is closed at the end.
pub open spec fn daemon_calls(fd: i32) -> Seq<Call> {
    seq![
        Call::Fork,
        Call::NewSession,
        Call::Fork,
        Call::ToRoot,
        Call::OpenNull,
        Call::Alias(fd, 0),
        Call::Alias(fd, 1),
        Call::Alias(fd, 2),
    ] + if fd > 2 {
        seq![Call::Close(fd)]
    } else {
        Seq::empty()
    }
}

/// What a process that is under way has done, and seen, so far.
spec fn trail(returned: Seq<int>) -> bool {
    let d = after(returned);
    let c = calls(returned);
    let fd = returned[4] as i32;
    match d {
        Detach::First => c == Seq::<Call>::empty(),
        Detach::Session => c == seq![Call::Fork] && returned =~= seq![0int],
        Detach::Second => c == seq![Call::Fork, Call::NewSession] && returned.len() == 2
            && returned[0] == 0,
        Detach::Root => c == seq![Call::Fork, Call::NewSession, Call::Fork] && returned.len() == 3
            && returned[0] == 0 && returned[2] == 0,
        Detach::Null => c == seq![Call::Fork, Call::NewSession, Call::Fork, Call::ToRoot]
            && returned.len() == 4 && returned[0] == 0 && returned[2] == 0,
        Detach::Redirect(f, target) => {
            &&& 0 <= target <= 2
            &&& f == fd
            &&& c == daemon_calls(fd).take(5 + target)
            &&& returned.len() == 5 + target
            &&& returned[0] == 0 && returned[2] == 0
        },
        Detach::Tidy(f, ok) => {
            &&& f == fd
            &&& returned[0] == 0 && returned[2] == 0
            &&& ok ==> fd > 2 && c == daemon_calls(fd).take(8) && returned.len() == 8
            &&& !ok ==> 6 <= returned.len() <= 8 && c == daemon_calls(fd).take(
                returned.len() as int,
            )
        },
        Detach::Over(end) => {
            &&& end is Finished ==> c == daemon_calls(fd) && returned[0] == 0 && returned[2] == 0
                && returned.len() >= 8
            &&& end is Finished || end is Failed || end is Leave
        },
    }
}

proof fn lemma_trail(returned: Seq<int>)
    requires
        ongoing(returned),
    ensures
        trail(returned),
    decreases returned.len(),
{
    if returned.len() == 0 {
    } else {
        let before = returned.drop_last();
        assert forall|k: int| 0 <= k < before.len() implies !(after(
            #[trigger] before.take(k),
        ) is Over) by {
            assert(before.take(k) =~= returned.take(k));
        }
        lemma_trail(before);
        assert(returned.take(returned.len() - 1) =~= before);
        let c = calls(returned);
        match after(returned) {
            Detach::Session => {
                assert(c =~= seq![Call::Fork]);
                assert(returned =~= seq![0int]);
            },
            Detach::Second => {
                assert(c =~= seq![Call::Fork, Call::NewSession]);
            },
            Detach::Root => {
                assert(c =~= seq![Call::Fork, Call::NewSession, Call::Fork]);
            },
            Detach::Null => {
                assert(c =~= seq![Call::Fork, Call::NewSession, Call::Fork, Call::ToRoot]);
            },
            Detach::Redirect(fd, target) => {
                assert(c =~= daemon_calls(fd).take(5 + target));
            },
            Detach::Tidy(fd, ok) => {
                assert(c =~= daemon_calls(fd).take(returned.len() as int));
            },
            Detach::Over(end) => {
                if end is Finished {
                    assert(c =~= daemon_calls(returned[4] as i32));
                }
            },
            Detach::First => {},
        }
    }
}

/// Only the grandchild becomes the daemon: a process that finishes was the child
/// of both forks, and made exactly the calls of a daemon, in order.
pub proof fn law_only_the_grandchild_goes_on(returned: Seq<int>)
    requires
        ongoing(returned),
        after(returned) == Detach::Over(Call::Finished),
    ensures
        returned.len() >= 8,
        returned[0] == 0,
        returned[2] == 0,
        calls(returned) == daemon_calls(returned[4] as i32),
{
    lemma_trail(returned);
}

/// A call that fails ends the attempt. If it was one that redirects a descriptor,
/// `/dev/null` is closed first.
pub proof fn law_a_failure_is_passed_on(d: Detach)
    requires
        !(d is Over),
        !(d is Tidy),
    ensures
        d matches Detach::Redirect(fd, _) ==> due(advanced(d, -1)) == Call::Close(fd) && forall|
            any: int,
        |
            #[trigger] advanced(advanced(d, -1), any) == Detach::Over(Call::Failed),
        !(d is Redirect) ==> advanced(d, -1) == Detach::Over(Call::Failed),
{
}

/// What each call that succeeds leads to. The parent of a fork leaves. Its child starts
/// a session, forks again, and that child goes to `/`, opens `/dev/null`, and puts it in
/// the place of the descriptors 0, 1 and 2 one after the other. Then it closes the extra
/// one, if it has a number of its own, and is the daemon.
pub proof fn law_what_each_call_leads_to(child: int, any: int, fd: i32)
    requires
        child > 0,
        any != -1,
    ensures
        due(Detach::First) == Call::Fork,
        due(advanced(Detach::First, child)) == Call::Leave,
        due(advanced(Detach::First, 0)) == Call::NewSession,
        advanced(Detach::First, 0) == Detach::Session,
        due(advanced(Detach::Session, any)) == Call::Fork,
        advanced(Detach::Session, any) == Detach::Second,
        due(advanced(Detach::Second, child)) == Call::Leave,
        due(advanced(Detach::Second, 0)) == Call::ToRoot,
        advanced(Detach::Second, 0) == Detach::Root,
        due(advanced(Detach::Root, any)) == Call::OpenNull,
        advanced(Detach::Root, any) == Detach::Null,
        fd != -1 ==> due(advanced(Detach::Null, fd as int)) == Call::Alias(fd, 0),
        fd != -1 ==> advanced(Detach::Null, fd as int) == Detach::Redirect(fd, 0),
        due(advanced(Detach::Redirect(fd, 0), any)) == Call::Alias(fd, 1),
        advanced(Detach::Redirect(fd, 0), any) == Detach::Redirect(fd, 1),
        due(advanced(Detach::Redirect(fd, 1), any)) == Call::Alias(fd, 2),
        advanced(Detach::Redirect(fd, 1), any) == Detach::Redirect(fd, 2),
        fd > 2 ==> due(advanced(Detach::Redirect(fd, 2), any)) == Call::Close(fd),
        fd <= 2 ==> due(advanced(Detach::Redirect(fd, 2), any)) == Call::Finished,
        fd > 2 ==> due(advanced(advanced(Detach::Redirect(fd, 2), any), child)) == Call::Finished,
        fd > 2 ==> due(advanced(advanced(Detach::Redirect(fd, 2), any), -1)) == Call::Finished,
{
}

/// A process that is over stays so: no call is made any more.
pub proof fn law_what_is_over_stays_over(end: Call, returned: int)
    ensures
        advanced(Detach::Over(end), returned) == Detach::Over(end),
        due(Detach::Over(end)) == end,
{
}

} // verus!
