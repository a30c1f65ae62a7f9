//! What one argument does in front of others.
//!
//! A command line is read from the front. Each law takes one kind of argument and
//! relates the command line that begins with it to the command line without it. The
//! kinds are told apart by the letters and names themselves, and every argument is of
//! one of them.

use crate::cli::laws::lemma_stop_is;
use crate::cli::{
    argument, blank, find_from, is_plain, is_ssh_switch, is_switch, kept, long_name,
    quoted, separator, split, split_from, stop, switches, InvocationView, ParseErrorView,
};
use crate::text::readable;
use vstd::prelude::*;
use vstd::utf8::encode_utf8;

verus! {

/// What is asked by a command line that only hands arguments to ssh.
pub open spec fn bare(args: Seq<Seq<u8>>) -> InvocationView {
    InvocationView {
        monitor: None,
        monitor_long: None,
        background: false,
        version: false,
        help: false,
        man: false,
        dry_run: false,
        list: false,
        session: None,
        config: None,
        ssh_args: args,
        inject_at: 0,
    }
}

/// The later of two values.
pub open spec fn later<T>(first: Option<T>, second: Option<T>) -> Option<T> {
    if second is Some {
        second
    } else {
        first
    }
}

/// What is asked by two command lines, one after the other. What takes a value takes
/// the last one; but the place of the forwards is that of the first `-M`.
pub open spec fn joined(first: InvocationView, second: InvocationView) -> InvocationView {
    InvocationView {
        monitor: later(first.monitor, second.monitor),
        monitor_long: later(first.monitor_long, second.monitor_long),
        background: first.background || second.background,
        version: first.version || second.version,
        help: first.help || second.help,
        man: first.man || second.man,
        dry_run: first.dry_run || second.dry_run,
        list: first.list || second.list,
        session: later(first.session, second.session),
        config: later(first.config, second.config),
        ssh_args: first.ssh_args + second.ssh_args,
        inject_at: if first.monitor is None && second.monitor is Some {
            first.ssh_args.len() + second.inject_at
        } else {
            first.inject_at
        },
    }
}

/// What is asked before a command line, put in front of what that asks. A refusal
/// stays one.
pub open spec fn in_front(
    first: InvocationView,
    rest: Result<InvocationView, ParseErrorView>,
) -> Result<InvocationView, ParseErrorView> {
    match rest {
        Ok(second) => Ok(joined(first, second)),
        Err(e) => Err(e),
    }
}

proof fn lemma_joined_twice(a: InvocationView, b: InvocationView, c: InvocationView)
    ensures
        joined(joined(a, b), c) == joined(a, joined(b, c)),
{
    assert(joined(joined(a, b), c) =~= joined(a, joined(b, c)));
}

/// One argument adds to what was asked before it.
proof fn lemma_argument_adds(inv: InvocationView, argv: Seq<Seq<u8>>, i: int)
    requires
        0 <= i < argv.len(),
    ensures
        argument(inv, argv, i) == match argument(blank(), argv, i) {
            Ok((next, used)) => Ok::<(InvocationView, bool), ParseErrorView>(
                (joined(inv, next), used),
            ),
            Err(e) => Err::<(InvocationView, bool), ParseErrorView>(e),
        },
{
    match argument(blank(), argv, i) {
        Ok((next, used)) => {
            assert(argument(inv, argv, i) is Ok);
            let (grown, _) = argument(inv, argv, i)->Ok_0;
            assert(grown =~= joined(inv, next));
        },
        Err(e) => {},
    }
}

proof fn lemma_the_rest_adds(inv: InvocationView, argv: Seq<Seq<u8>>, i: int)
    requires
        0 <= i,
    ensures
        split_from(inv, argv, i) == in_front(inv, split_from(blank(), argv, i)),
    decreases argv.len() - i,
{
    if i >= argv.len() {
        assert(joined(inv, blank()) =~= inv);
    } else if argv[i] == separator() {
        let rest = argv.skip(i + 1);
        assert(InvocationView { ssh_args: inv.ssh_args + rest, ..inv } =~= joined(
            inv,
            InvocationView { ssh_args: blank().ssh_args + rest, ..blank() },
        ));
    } else {
        lemma_argument_adds(inv, argv, i);
        if let Ok((next, used)) = argument(blank(), argv, i) {
            let k = i + if used {
                2int
            } else {
                1int
            };
            lemma_the_rest_adds(joined(inv, next), argv, k);
            lemma_the_rest_adds(next, argv, k);
            if let Ok(second) = split_from(blank(), argv, k) {
                lemma_joined_twice(inv, next, second);
            }
        }
    }
}

proof fn lemma_shifted(inv: InvocationView, front: Seq<Seq<u8>>, rest: Seq<Seq<u8>>, i: int)
    requires
        0 <= i,
    ensures
        split_from(inv, front + rest, front.len() + i) == split_from(inv, rest, i),
    decreases rest.len() - i,
{
    let argv = front + rest;
    let at = front.len() + i;
    if i < rest.len() {
        assert(argv[at] == rest[i]);
        assert(argv.skip(at + 1) =~= rest.skip(i + 1));
        if rest[i] != separator() {
            if i + 1 < rest.len() {
                assert(argv[at + 1] == rest[i + 1]);
            }
            assert(argument(inv, argv, at) == argument(inv, rest, i));
            if let Ok((next, used)) = argument(inv, rest, i) {
                lemma_shifted(
                    next,
                    front,
                    rest,
                    i + if used {
                        2int
                    } else {
                        1int
                    },
                );
            }
        }
    }
}

/// What the first argument comes to, put in front of the rest.
proof fn lemma_first(token: Seq<u8>, rest: Seq<Seq<u8>>)
    requires
        token != separator(),
    ensures
        ({
            let argv = seq![token] + rest;
            split(argv) == match argument(blank(), argv, 0) {
                Ok((next, used)) => in_front(
                    next,
                    split(
                        if used {
                            rest.skip(1)
                        } else {
                            rest
                        },
                    ),
                ),
                Err(e) => Err::<InvocationView, ParseErrorView>(e),
            }
        }),
{
    let argv = seq![token] + rest;
    assert(argv[0] == token);
    if let Ok((next, used)) = argument(blank(), argv, 0) {
        if used {
            assert(rest.len() > 0);
            let front = seq![token, rest[0]];
            assert(front + rest.skip(1) =~= argv);
            lemma_the_rest_adds(next, argv, 2);
            lemma_shifted(blank(), front, rest.skip(1), 0);
        } else {
            lemma_the_rest_adds(next, argv, 1);
            lemma_shifted(blank(), seq![token], rest, 0);
        }
    }
}

// ------------------------------------------------------------------- the kinds

/// An empty command line asks nothing.
pub proof fn law_an_empty_command_line_asks_nothing()
    ensures
        split(Seq::empty()) == Ok::<InvocationView, ParseErrorView>(bare(Seq::empty())),
{
    assert(blank() =~= bare(Seq::empty()));
}

/// An argument that does not begin with a dash goes to ssh, and so do a lone dash and
/// an empty argument.
pub proof fn law_words_go_to_ssh(token: Seq<u8>, rest: Seq<Seq<u8>>)
    requires
        token.len() < 2 || token[0] != '-' as u8,
    ensures
        split(seq![token] + rest) == in_front(bare(seq![token]), split(rest)),
{
    lemma_first(token, rest);
    assert(InvocationView { ssh_args: blank().ssh_args.push(token), ..blank() } =~= bare(
        seq![token],
    ));
}

/// The separator is taken out, and what follows it goes to ssh, whatever it looks like.
pub proof fn law_the_separator_ends_the_options(rest: Seq<Seq<u8>>)
    ensures
        split(seq![seq!['-' as u8, '-' as u8]] + rest) == Ok::<InvocationView, ParseErrorView>(
            bare(rest),
        ),
{
    let argv = seq![seq!['-' as u8, '-' as u8]] + rest;
    assert(argv[0] == separator());
    assert(argv.skip(1) =~= rest);
    assert(InvocationView { ssh_args: blank().ssh_args + rest, ..blank() } =~= bare(rest));
}

/// ssh's options without a value, as its manual lists them.
pub open spec fn documented_flag(c: u8) -> bool {
    ||| c == '1' as u8 || c == '2' as u8 || c == '4' as u8 || c == '6' as u8
    ||| c == 'A' as u8 || c == 'a' as u8 || c == 'C' as u8 || c == 'G' as u8
    ||| c == 'g' as u8 || c == 'K' as u8 || c == 'k' as u8 || c == 'N' as u8
    ||| c == 'n' as u8 || c == 'q' as u8 || c == 's' as u8 || c == 'T' as u8
    ||| c == 't' as u8 || c == 'v' as u8 || c == 'X' as u8 || c == 'x' as u8
    ||| c == 'Y' as u8 || c == 'y' as u8
}

/// ssh's options with a value, as its manual lists them.
pub open spec fn documented_value(c: u8) -> bool {
    ||| c == 'B' as u8 || c == 'b' as u8 || c == 'c' as u8 || c == 'D' as u8
    ||| c == 'E' as u8 || c == 'e' as u8 || c == 'F' as u8 || c == 'I' as u8
    ||| c == 'i' as u8 || c == 'J' as u8 || c == 'L' as u8 || c == 'l' as u8
    ||| c == 'm' as u8 || c == 'O' as u8 || c == 'o' as u8 || c == 'P' as u8
    ||| c == 'p' as u8 || c == 'Q' as u8 || c == 'R' as u8 || c == 'S' as u8
    ||| c == 'W' as u8 || c == 'w' as u8
}

/// Letters that stand alone: ssh's own, and the two that are rash's.
pub open spec fn lone(letters: Seq<u8>) -> bool {
    forall|j: int|
        0 <= j < letters.len() ==> documented_flag(#[trigger] letters[j]) || letters[j] == 'f' as u8
            || letters[j] == 'V' as u8
}

/// Letters without `f` and `V`.
pub open spec fn for_ssh(letters: Seq<u8>) -> Seq<u8> {
    letters.filter(|c: u8| c != 'f' as u8 && c != 'V' as u8)
}

/// What letters that stand alone ask for, with arguments for ssh.
pub open spec fn asked(letters: Seq<u8>, args: Seq<Seq<u8>>) -> InvocationView {
    InvocationView {
        background: letters.contains('f' as u8),
        version: letters.contains('V' as u8),
        ..bare(args)
    }
}

/// How a cluster of letters and what follows them is read.
proof fn lemma_cluster(letters: Seq<u8>, tail: Seq<u8>)
    requires
        lone(letters),
        tail.len() > 0 ==> !documented_flag(tail[0]) && tail[0] != 'f' as u8 && tail[0]
            != 'V' as u8,
    ensures
        ({
            let token = seq!['-' as u8] + letters + tail;
            &&& stop(token) == 1 + letters.len()
            &&& switches(token) == letters
            &&& letters.filter(|c: u8| is_ssh_switch(c)) == for_ssh(letters)
            &&& token.skip(stop(token)) == tail
            &&& tail.len() > 0 ==> token[stop(token)] == tail[0] && token.skip(stop(token) + 1)
                == tail.skip(1)
        }),
{
    let token = seq!['-' as u8] + letters + tail;
    let k = 1 + letters.len() as int;
    assert forall|x: int| 1 <= x < k implies is_switch(#[trigger] token[x]) by {
        assert(token[x] == letters[x - 1]);
    }
    if k < token.len() {
        assert(token[k] == tail[0]);
    }
    lemma_stop_is(token, 1, k);
    assert(switches(token) =~= letters);
    assert((|c: u8| is_ssh_switch(c)) =~= (|c: u8| c != 'f' as u8 && c != 'V' as u8));
    assert(token.skip(k) =~= tail);
    if tail.len() > 0 {
        assert(token.skip(k + 1) =~= tail.skip(1));
    }
}

/// A cluster of options without a value: `f` in it sends rash to the background, `V`
/// asks for the version, and ssh is handed the cluster without those two. If nothing
/// is left of it, ssh is handed nothing.
pub proof fn law_a_cluster_of_flags(letters: Seq<u8>, rest: Seq<Seq<u8>>)
    requires
        letters.len() > 0,
        lone(letters),
    ensures
        ({
            let left = for_ssh(letters);
            split(seq![seq!['-' as u8] + letters] + rest) == in_front(
                asked(
                    letters,
                    if left.len() > 0 {
                        seq![seq!['-' as u8] + left]
                    } else {
                        Seq::empty()
                    },
                ),
                split(rest),
            )
        }),
{
    let token = seq!['-' as u8] + letters;
    lemma_cluster(letters, Seq::empty());
    assert(seq!['-' as u8] + letters + Seq::<u8>::empty() =~= token);
    assert(token[1] == letters[0]);
    assert(token != separator()) by {
        assert(separator()[1] == '-' as u8);
    }
    lemma_first(token, rest);
    let left = for_ssh(letters);
    let argv = seq![token] + rest;
    assert(argv[0] == token);
    assert(token.skip(stop(token)) =~= Seq::empty());
    assert(kept(token) =~= seq!['-' as u8] + left);
    let args = if left.len() > 0 {
        seq![seq!['-' as u8] + left]
    } else {
        Seq::empty()
    };
    assert(argument(blank(), argv, 0)->Ok_0.0 =~= asked(letters, args));
}

/// An option with a value ends its cluster. The value is the rest of the argument, or
/// else the next argument, and goes to ssh as it stands; at the end of the command
/// line ssh is left to miss it.
pub proof fn law_an_option_with_a_value(
    letters: Seq<u8>,
    option: u8,
    attached: Seq<u8>,
    rest: Seq<Seq<u8>>,
)
    requires
        lone(letters),
        documented_value(option),
    ensures
        ({
            let token = seq!['-' as u8] + letters + seq![option] + attached;
            let left = seq!['-' as u8] + for_ssh(letters) + seq![option] + attached;
            split(seq![token] + rest) == if attached.len() == 0 && rest.len() > 0 {
                in_front(asked(letters, seq![left, rest[0]]), split(rest.skip(1)))
            } else {
                in_front(asked(letters, seq![left]), split(rest))
            }
        }),
{
    let tail = seq![option] + attached;
    let token = seq!['-' as u8] + letters + seq![option] + attached;
    let left = seq!['-' as u8] + for_ssh(letters) + seq![option] + attached;
    assert(token =~= seq!['-' as u8] + letters + tail);
    lemma_cluster(letters, tail);
    if letters.len() > 0 {
        assert(token[1] == letters[0]);
    } else {
        assert(token[1] == option);
    }
    assert(token != separator()) by {
        assert(separator()[1] == '-' as u8);
    }
    lemma_first(token, rest);
    let argv = seq![token] + rest;
    assert(argv[0] == token);
    assert(kept(token) =~= left);
    if attached.len() == 0 && rest.len() > 0 {
        assert(argv[1] == rest[0]);
        assert(argument(blank(), argv, 0)->Ok_0.0 =~= asked(letters, seq![left, rest[0]]));
    } else {
        assert(argument(blank(), argv, 0)->Ok_0.0 =~= asked(letters, seq![left]));
    }
}

/// A letter that is no option of rash's or ssh's ends the cluster too. It goes to ssh
/// with all that follows it in the argument, and the next argument is its own.
pub proof fn law_an_unknown_letter(
    letters: Seq<u8>,
    unknown: u8,
    attached: Seq<u8>,
    rest: Seq<Seq<u8>>,
)
    requires
        lone(letters),
        !documented_flag(unknown),
        !documented_value(unknown),
        unknown != 'f' as u8 && unknown != 'V' as u8 && unknown != 'M' as u8,
        letters.len() == 0 ==> unknown != '-' as u8,
    ensures
        ({
            let token = seq!['-' as u8] + letters + seq![unknown] + attached;
            let left = seq!['-' as u8] + for_ssh(letters) + seq![unknown] + attached;
            split(seq![token] + rest) == in_front(asked(letters, seq![left]), split(rest))
        }),
{
    let tail = seq![unknown] + attached;
    let token = seq!['-' as u8] + letters + seq![unknown] + attached;
    let left = seq!['-' as u8] + for_ssh(letters) + seq![unknown] + attached;
    assert(token =~= seq!['-' as u8] + letters + tail);
    lemma_cluster(letters, tail);
    if letters.len() > 0 {
        assert(token[1] == letters[0]);
    } else {
        assert(token[1] == unknown);
    }
    assert(token != separator()) by {
        assert(separator()[1] == '-' as u8);
    }
    lemma_first(token, rest);
    let argv = seq![token] + rest;
    assert(argv[0] == token);
    assert(kept(token) =~= left);
    assert(argument(blank(), argv, 0)->Ok_0.0 =~= asked(letters, seq![left]));
}

/// `M` takes the rest of the argument as the monitor port, or else the next argument,
/// and is refused where there is none. Neither goes to ssh. The forwards belong where
/// it stood: behind the arguments before this one.
pub proof fn law_the_monitor_option(letters: Seq<u8>, attached: Seq<u8>, rest: Seq<Seq<u8>>)
    requires
        lone(letters),
    ensures
        ({
            let token = seq!['-' as u8] + letters + seq!['M' as u8] + attached;
            let left = for_ssh(letters);
            let first = asked(
                letters,
                if left.len() > 0 {
                    seq![seq!['-' as u8] + left]
                } else {
                    Seq::empty()
                },
            );
            split(seq![token] + rest) == if attached.len() > 0 {
                in_front(InvocationView { monitor: Some(attached), ..first }, split(rest))
            } else if rest.len() > 0 {
                in_front(InvocationView { monitor: Some(rest[0]), ..first }, split(rest.skip(1)))
            } else {
                Err::<InvocationView, ParseErrorView>(ParseErrorView::MissingValue("-M"@))
            }
        }),
{
    let tail = seq!['M' as u8] + attached;
    let token = seq!['-' as u8] + letters + seq!['M' as u8] + attached;
    let left = for_ssh(letters);
    let args = if left.len() > 0 {
        seq![seq!['-' as u8] + left]
    } else {
        Seq::empty()
    };
    let first = asked(letters, args);
    assert(token =~= seq!['-' as u8] + letters + tail);
    lemma_cluster(letters, tail);
    if letters.len() > 0 {
        assert(token[1] == letters[0]);
    } else {
        assert(token[1] == 'M' as u8);
    }
    assert(token != separator()) by {
        assert(separator()[1] == '-' as u8);
    }
    lemma_first(token, rest);
    let argv = seq![token] + rest;
    assert(argv[0] == token);
    assert(kept(token) =~= seq!['-' as u8] + left);
    assert(tail.skip(1) =~= attached);
    if attached.len() > 0 {
        assert(argument(blank(), argv, 0)->Ok_0.0 =~= (InvocationView {
            monitor: Some(attached),
            ..first
        }));
    } else if rest.len() > 0 {
        assert(argv[1] == rest[0]);
        assert(argument(blank(), argv, 0)->Ok_0.0 =~= (InvocationView {
            monitor: Some(rest[0]),
            ..first
        }));
    }
}

proof fn lemma_find(s: Seq<u8>, b: u8, j: int, k: int)
    requires
        0 <= j <= k <= s.len(),
        forall|x: int| j <= x < k ==> #[trigger] s[x] != b,
        k < s.len() ==> s[k] == b,
    ensures
        find_from(s, b, j) == k,
    decreases k - j,
{
    if j < k {
        assert(s[j] != b);
        lemma_find(s, b, j + 1, k);
    }
}

/// A long option is known by its name, up to a `=`. Five names take no value, and
/// ignore one. Three take what follows the `=`, or else the next argument, and are
/// refused where there is neither. Any other name is refused. None of them goes to
/// ssh.
pub proof fn law_the_long_options(name: Seq<u8>, attached: Option<Seq<u8>>, rest: Seq<Seq<u8>>)
    requires
        forall|j: int| 0 <= j < name.len() ==> #[trigger] name[j] != '=' as u8,
        name.len() > 0 || attached is Some,
    ensures
        ({
            let token = seq!['-' as u8, '-' as u8] + name + match attached {
                Some(v) => seq!['=' as u8] + v,
                None => Seq::empty(),
            };
            let none = bare(Seq::empty());
            let value = if attached is Some {
                attached
            } else if rest.len() > 0 {
                Some(rest[0])
            } else {
                None
            };
            let after = if attached is Some {
                rest
            } else {
                rest.skip(1)
            };
            split(seq![token] + rest) == if name == encode_utf8("help"@) {
                in_front(InvocationView { help: true, ..none }, split(rest))
            } else if name == encode_utf8("version"@) {
                in_front(InvocationView { version: true, ..none }, split(rest))
            } else if name == encode_utf8("man"@) {
                in_front(InvocationView { man: true, ..none }, split(rest))
            } else if name == encode_utf8("dry-run"@) {
                in_front(InvocationView { dry_run: true, ..none }, split(rest))
            } else if name == encode_utf8("list"@) {
                in_front(InvocationView { list: true, ..none }, split(rest))
            } else if name == encode_utf8("monitor"@) {
                match value {
                    Some(v) => in_front(
                        InvocationView { monitor_long: Some(v), ..none },
                        split(after),
                    ),
                    None => Err(ParseErrorView::MissingValue("--monitor"@)),
                }
            } else if name == encode_utf8("session"@) {
                match value {
                    Some(v) => in_front(
                        InvocationView { session: Some(readable(v)), ..none },
                        split(after),
                    ),
                    None => Err(ParseErrorView::MissingValue("--session"@)),
                }
            } else if name == encode_utf8("config"@) {
                match value {
                    Some(v) => in_front(InvocationView { config: Some(v), ..none }, split(after)),
                    None => Err(ParseErrorView::MissingValue("--config"@)),
                }
            } else {
                Err::<InvocationView, ParseErrorView>(
                    ParseErrorView::UnknownLongOption("--"@ + readable(name)),
                )
            }
        }),
{
    let behind = match attached {
        Some(v) => seq!['=' as u8] + v,
        None => Seq::empty(),
    };
    let token = seq!['-' as u8, '-' as u8] + name + behind;
    let k = 2 + name.len() as int;
    assert forall|x: int| 2 <= x < k implies #[trigger] token[x] != '=' as u8 by {
        assert(token[x] == name[x - 2]);
    }
    if k < token.len() {
        assert(token[k] == '=' as u8);
    }
    lemma_find(token, '=' as u8, 2, k);
    assert(long_name(token) =~= name);
    assert(token[0] == '-' as u8 && token[1] == '-' as u8 && token.len() > 2);
    assert(token != separator());
    lemma_first(token, rest);
    let argv = seq![token] + rest;
    assert(argv[0] == token);
    if let Some(v) = attached {
        assert(token.skip(k + 1) =~= v);
    } else if rest.len() > 0 {
        assert(argv[1] == rest[0]);
    }
    assert(blank() =~= bare(Seq::empty()));
    reveal_strlit("--");
    reveal_strlit("monitor");
    reveal_strlit("session");
    reveal_strlit("config");
    reveal_strlit("--monitor");
    reveal_strlit("--session");
    reveal_strlit("--config");
    assert("--"@ + "monitor"@ =~= "--monitor"@);
    assert("--"@ + "session"@ =~= "--session"@);
    assert("--"@ + "config"@ =~= "--config"@);
}

/// What a refusal says.
pub proof fn law_what_a_refusal_says(option: Seq<char>)
    ensures
        ParseErrorView::MissingValue(option).shown() == "option "@ + option
            + " requires an argument"@,
        ParseErrorView::UnknownLongOption(option).shown() == "unknown option "@ + option,
{
}

// ------------------------------------------------------------------- quoting

/// An argument is written as it stands exactly if it is made of letters and digits
/// without accents and of the signs `@ % + = : , . / - _`, and is not empty. Any
/// other is put in single quotes.
pub proof fn law_what_is_quoted(t: Seq<char>)
    ensures
        ({
            let plain = t.len() > 0 && forall|i: int|
                0 <= i < t.len() ==> {
                    let c = #[trigger] t[i];
                    ||| '0' <= c <= '9' || 'A' <= c <= 'Z' || 'a' <= c <= 'z'
                    ||| c == '@' || c == '%' || c == '+' || c == '=' || c == ':'
                    ||| c == ',' || c == '.' || c == '/' || c == '-' || c == '_'
                };
            &&& plain ==> quoted(t) == t
            &&& !plain ==> quoted(t).len() >= 2 && quoted(t)[0] == '\'' && quoted(t).last() == '\''
        }),
{
    assert forall|i: int| 0 <= i < t.len() implies is_plain(#[trigger] t[i]) == ({
        let c = t[i];
        ||| '0' <= c <= '9' || 'A' <= c <= 'Z' || 'a' <= c <= 'z'
        ||| c == '@' || c == '%' || c == '+' || c == '=' || c == ':'
        ||| c == ',' || c == '.' || c == '/' || c == '-' || c == '_'
    }) by {}
}

} // verus!
