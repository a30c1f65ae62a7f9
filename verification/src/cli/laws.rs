//! What holds of the command line as a whole.

use crate::cli::{
    argument, blank, cluster, ends_in_monitor, escaped, escaped_char, is_cluster, is_long, is_plain,
    is_ssh_switch, is_switch, kept, quoted, separator, split, split_from, spliced, stop, stop_from,
    switches, wants_next, InvocationView, ParseErrorView,
};
use vstd::prelude::*;

verus! {

// ------------------------------------------------------------ the separator

/// Whether the argument at `i` uses up the one after it.
pub open spec fn uses_next(argv: Seq<Seq<u8>>, i: int) -> bool {
    argument(blank(), argv, i) matches Ok((_, used)) && used
}

/// The position of the separator, seen from `i` on. A `--` that is the value of
/// an option is none.
pub open spec fn separator_from(argv: Seq<Seq<u8>>, i: int) -> Option<int>
    decreases argv.len() - i,
{
    if i >= argv.len() {
        None
    } else if argv[i] == separator() {
        Some(i)
    } else if uses_next(argv, i) {
        separator_from(argv, i + 2)
    } else {
        separator_from(argv, i + 1)
    }
}

/// Whether an argument uses up the next one does not depend on what was asked
/// before it.
proof fn lemma_uses_next(inv: InvocationView, argv: Seq<Seq<u8>>, i: int)
    requires
        0 <= i < argv.len(),
    ensures
        match argument(inv, argv, i) {
            Ok((_, used)) => used == uses_next(argv, i),
            Err(_) => !uses_next(argv, i),
        },
        uses_next(argv, i) ==> i + 1 < argv.len(),
{
}

proof fn lemma_before_the_separator(
    inv: InvocationView,
    before: Seq<Seq<u8>>,
    after: Seq<Seq<u8>>,
    i: int,
)
    requires
        0 <= i <= before.len(),
        separator_from(before + seq![separator()] + after, i) == Some(before.len() as int),
    ensures
        split_from(inv, before + seq![separator()] + after, i) == match split_from(inv, before, i) {
            Ok(v) => Ok::<InvocationView, ParseErrorView>(
                InvocationView { ssh_args: v.ssh_args + after, ..v },
            ),
            Err(e) => Err::<InvocationView, ParseErrorView>(e),
        },
    decreases before.len() - i,
{
    let argv = before + seq![separator()] + after;
    if i == before.len() {
        assert(argv[i] == separator());
        assert(argv.skip(i + 1) =~= after);
    } else {
        assert(argv[i] == before[i]);
        lemma_uses_next(inv, argv, i);
        if uses_next(argv, i) {
            assert(i + 2 <= before.len()) by {
                lemma_separator_is_ahead(argv, i + 2);
            }
            assert(argv[i + 1] == before[i + 1]);
        }
        assert(argument(inv, argv, i) == argument(inv, before, i));
        match argument(inv, argv, i) {
            Ok((next, used)) => {
                if used {
                    lemma_before_the_separator(next, before, after, i + 2);
                } else {
                    lemma_before_the_separator(next, before, after, i + 1);
                }
            },
            Err(e) => {},
        }
    }
}

proof fn lemma_separator_is_ahead(argv: Seq<Seq<u8>>, i: int)
    ensures
        separator_from(argv, i) matches Some(k) ==> i <= k < argv.len(),
    decreases argv.len() - i,
{
    if i < argv.len() && argv[i] != separator() {
        if uses_next(argv, i) {
            lemma_separator_is_ahead(argv, i + 2);
        } else {
            lemma_separator_is_ahead(argv, i + 1);
        }
    }
}

/// Nothing after the separator is rewritten: it goes to ssh as it stands, behind
/// what the arguments before the separator come to on their own. Only the first
/// separator is taken out.
pub proof fn law_nothing_after_the_separator_is_rewritten(
    before: Seq<Seq<u8>>,
    after: Seq<Seq<u8>>,
)
    requires
        separator_from(before + seq![separator()] + after, 0) == Some(before.len() as int),
    ensures
        split(before + seq![separator()] + after) == match split(before) {
            Ok(v) => Ok::<InvocationView, ParseErrorView>(
                InvocationView { ssh_args: v.ssh_args + after, ..v },
            ),
            Err(e) => Err::<InvocationView, ParseErrorView>(e),
        },
{
    lemma_before_the_separator(blank(), before, after, 0);
}

// ------------------------------------------------------------- passing through

/// Whether a token holds nothing that is rash's: it is no long option, and if it
/// is a cluster, neither `-f`, `-V` nor `-M` is among its options.
pub open spec fn is_foreign(token: Seq<u8>) -> bool {
    &&& !is_long(token)
    &&& is_cluster(token) ==> {
        &&& !ends_in_monitor(token)
        &&& !switches(token).contains('f' as u8)
        &&& !switches(token).contains('V' as u8)
    }
}

proof fn lemma_stop(token: Seq<u8>, j: int)
    requires
        0 <= j <= token.len(),
    ensures
        j <= stop_from(token, j) <= token.len(),
        forall|k: int| j <= k < stop_from(token, j) ==> is_switch(#[trigger] token[k]),
    decreases token.len() - j,
{
    if j < token.len() && is_switch(token[j]) {
        lemma_stop(token, j + 1);
    }
}

/// A filter that everything passes changes nothing.
proof fn lemma_filter_all(s: Seq<u8>, keep: spec_fn(u8) -> bool)
    requires
        forall|i: int| 0 <= i < s.len() ==> keep(#[trigger] s[i]),
    ensures
        s.filter(keep) == s,
    decreases s.len(),
{
    reveal(Seq::filter);
    if s.len() > 0 {
        lemma_filter_all(s.drop_last(), keep);
        assert(s =~= s.drop_last().push(s.last()));
    } else {
        assert(s =~= Seq::empty());
    }
}

proof fn lemma_foreign_is_kept(token: Seq<u8>)
    requires
        is_foreign(token),
        is_cluster(token),
    ensures
        kept(token) == token,
{
    lemma_stop(token, 1);
    let keep = |c: u8| is_ssh_switch(c);
    assert forall|i: int| 0 <= i < switches(token).len() implies keep(
        #[trigger] switches(token)[i],
    ) by {
        assert(switches(token).contains(switches(token)[i]));
    }
    lemma_filter_all(switches(token), keep);
    assert(kept(token) =~= token);
}

/// What has been handed to ssh once the first `n` arguments have gone through.
spec fn passed(argv: Seq<Seq<u8>>, n: int) -> InvocationView {
    InvocationView { ssh_args: argv.take(n), ..blank() }
}

proof fn lemma_foreign_step(argv: Seq<Seq<u8>>, i: int) -> (used: bool)
    requires
        0 <= i < argv.len(),
        is_foreign(argv[i]),
    ensures
        used ==> i + 1 < argv.len(),
        argument(passed(argv, i), argv, i) == Ok::<(InvocationView, bool), ParseErrorView>(
            (
                passed(
                    argv,
                    i + if used {
                        2int
                    } else {
                        1int
                    },
                ),
                used,
            ),
        ),
{
    let token = argv[i];
    let inv = passed(argv, i);
    assert(argv.take(i).push(token) =~= argv.take(i + 1));
    if is_cluster(token) {
        lemma_foreign_is_kept(token);
        lemma_stop(token, 1);
        if wants_next(token) && i + 1 < argv.len() {
            assert(argv.take(i + 1).push(argv[i + 1]) =~= argv.take(i + 2));
            assert(cluster(inv, argv, i) == Ok::<(InvocationView, bool), ParseErrorView>(
                (passed(argv, i + 2), true),
            ));
            true
        } else {
            assert(cluster(inv, argv, i) == Ok::<(InvocationView, bool), ParseErrorView>(
                (passed(argv, i + 1), false),
            ));
            false
        }
    } else {
        false
    }
}

/// Whether none of the arguments from `i` on holds anything that is rash's. What
/// is the value of an option is not looked at.
pub open spec fn foreign_from(argv: Seq<Seq<u8>>, i: int) -> bool
    decreases argv.len() - i,
{
    i >= argv.len() || {
        &&& is_foreign(argv[i])
        &&& foreign_from(
            argv,
            i + if uses_next(argv, i) {
                2int
            } else {
                1int
            },
        )
    }
}

proof fn lemma_foreign_passes(argv: Seq<Seq<u8>>, i: int)
    requires
        0 <= i <= argv.len(),
        foreign_from(argv, i),
    ensures
        split_from(passed(argv, i), argv, i) == Ok::<InvocationView, ParseErrorView>(
            passed(argv, argv.len() as int),
        ),
    decreases argv.len() - i,
{
    if i < argv.len() {
        assert(is_foreign(argv[i]));
        assert(argv[i] != separator());
        let used = lemma_foreign_step(argv, i);
        lemma_uses_next(passed(argv, i), argv, i);
        if used {
            lemma_foreign_passes(argv, i + 2);
        } else {
            lemma_foreign_passes(argv, i + 1);
        }
    }
}

/// A command line without any of rash's own options reaches ssh unchanged, and
/// asks nothing of rash, whatever ssh options it holds and whatever their values
/// look like.
pub proof fn law_foreign_arguments_pass_through(argv: Seq<Seq<u8>>)
    requires
        foreign_from(argv, 0),
    ensures
        split(argv) == Ok::<InvocationView, ParseErrorView>(
            InvocationView { ssh_args: argv, ..blank() },
        ),
{
    assert(argv.take(0) =~= Seq::empty());
    assert(passed(argv, 0) =~= blank());
    lemma_foreign_passes(argv, 0);
    assert(argv.take(argv.len() as int) =~= argv);
}

/// A cluster is handed over from its first letter that is not a switch to its
/// last byte as it stands, unless that letter is `M`. So neither an unknown
/// option nor the value attached to an option is ever rewritten.
pub proof fn law_the_rest_of_a_cluster_is_untouched(token: Seq<u8>)
    requires
        is_cluster(token),
        !ends_in_monitor(token),
    ensures
        kept(token).len() >= token.len() - stop(token),
        kept(token).skip(kept(token).len() - (token.len() - stop(token))) == token.skip(
            stop(token),
        ),
{
    lemma_stop(token, 1);
    let tail = token.skip(stop(token));
    assert(kept(token).skip(kept(token).len() - tail.len()) =~= tail);
}

/// The argument that an ssh option takes as its value goes to ssh as it stands,
/// right behind the option.
pub proof fn law_option_values_are_untouched(inv: InvocationView, argv: Seq<Seq<u8>>, i: int)
    requires
        0 <= i,
        i + 1 < argv.len(),
        is_cluster(argv[i]),
        !ends_in_monitor(argv[i]),
        wants_next(argv[i]),
    ensures
        argument(inv, argv, i) matches Ok((next, used)) && used && next.ssh_args
            == inv.ssh_args.push(kept(argv[i])).push(argv[i + 1]),
{
    lemma_stop(argv[i], 1);
}

/// The switches end at `k` if everything up to there is one and `k` is not.
pub proof fn lemma_stop_is(token: Seq<u8>, j: int, k: int)
    requires
        0 <= j <= k <= token.len(),
        forall|x: int| j <= x < k ==> is_switch(#[trigger] token[x]),
        k < token.len() ==> !is_switch(token[k]),
    ensures
        stop_from(token, j) == k,
    decreases k - j,
{
    if j < k {
        assert(is_switch(token[j]));
        lemma_stop_is(token, j + 1, k);
    }
}

proof fn lemma_filter_switches(s: Seq<u8>, keep: spec_fn(u8) -> bool)
    requires
        forall|x: int| 0 <= x < s.len() ==> is_switch(#[trigger] s[x]),
    ensures
        forall|x: int|
            0 <= x < s.filter(keep).len() ==> is_switch(#[trigger] s.filter(keep)[x]) && keep(
                s.filter(keep)[x],
            ),
    decreases s.len(),
{
    reveal(Seq::filter);
    if s.len() > 0 {
        let init = s.drop_last();
        lemma_filter_switches(init, keep);
        assert(is_switch(s[s.len() - 1]));
        assert forall|x: int| 0 <= x < s.filter(keep).len() implies is_switch(
            #[trigger] s.filter(keep)[x],
        ) && keep(s.filter(keep)[x]) by {
            if x < init.filter(keep).len() {
                assert(s.filter(keep)[x] == init.filter(keep)[x]);
            }
        }
    }
}

/// What is left of a cluster for ssh holds none of rash's own options. (Stripping
/// a switch can leave two dashes in front, as it does with `-f-`; what that makes
/// is ssh's to judge.)
pub proof fn law_own_options_are_stripped(token: Seq<u8>)
    requires
        is_cluster(token),
        kept(token).len() > 1,
        kept(token)[1] != '-' as u8,
    ensures
        is_foreign(kept(token)),
{
    let keep = |c: u8| is_ssh_switch(c);
    let all = switches(token);
    let left = all.filter(keep);
    let whole = kept(token);
    lemma_stop(token, 1);
    assert forall|x: int| 0 <= x < all.len() implies is_switch(#[trigger] all[x]) by {
        assert(is_switch(token[x + 1]));
    }
    lemma_filter_switches(all, keep);
    let k = 1 + left.len() as int;
    assert forall|x: int| 1 <= x < k implies is_switch(#[trigger] whole[x]) by {
        assert(whole[x] == left[x - 1]);
    }
    if k < whole.len() {
        assert(whole[k] == token[stop(token)]);
        lemma_stop_is_no_switch(token, 1);
    }
    lemma_stop_is(whole, 1, k);
    assert(switches(whole) =~= left);
}

proof fn lemma_stop_is_no_switch(token: Seq<u8>, j: int)
    ensures
        stop_from(token, j) < token.len() ==> !is_switch(token[stop_from(token, j)]),
    decreases token.len() - j,
{
    if j < token.len() && is_switch(token[j]) {
        lemma_stop_is_no_switch(token, j + 1);
    }
}

// ------------------------------------------------------------------- refusals

/// A command line is refused only for a long option, or for a `-M` at the very
/// end that lacks its value. Short options are never refused.
pub proof fn law_short_options_are_never_refused(argv: Seq<Seq<u8>>)
    requires
        forall|k: int| 0 <= k < argv.len() ==> !is_long(#[trigger] argv[k]),
        argv.len() > 0 && is_cluster(argv.last()) ==> !(ends_in_monitor(argv.last()) && wants_next(
            argv.last(),
        )),
    ensures
        split(argv) is Ok,
{
    lemma_short_options(blank(), argv, 0);
}

proof fn lemma_short_options(inv: InvocationView, argv: Seq<Seq<u8>>, i: int)
    requires
        0 <= i,
        forall|k: int| 0 <= k < argv.len() ==> !is_long(#[trigger] argv[k]),
        argv.len() > 0 && is_cluster(argv.last()) ==> !(ends_in_monitor(argv.last()) && wants_next(
            argv.last(),
        )),
    ensures
        split_from(inv, argv, i) is Ok,
    decreases argv.len() - i,
{
    if i < argv.len() && argv[i] != separator() {
        assert(!is_long(argv[i]));
        match argument(inv, argv, i) {
            Ok((next, used)) => {
                lemma_short_options(
                    next,
                    argv,
                    i + if used {
                        2int
                    } else {
                        1int
                    },
                );
            },
            Err(e) => {
                assert(i == argv.len() - 1);
            },
        }
    }
}

/// Whether `k` is one of the positions, from `i` on, at which an argument is looked
/// at: not the value of an option, and not behind the separator.
pub open spec fn looked_at(argv: Seq<Seq<u8>>, i: int, k: int) -> bool
    decreases argv.len() - i,
{
    if i >= argv.len() || argv[i] == separator() {
        false
    } else {
        i == k || looked_at(
            argv,
            i + if uses_next(argv, i) {
                2int
            } else {
                1int
            },
            k,
        )
    }
}

/// What comes before an argument that is looked at can be split on its own.
proof fn lemma_up_to(inv: InvocationView, argv: Seq<Seq<u8>>, i: int, k: int)
    requires
        0 <= i <= k,
        looked_at(argv, i, k),
        split_from(inv, argv.take(k), i) is Ok,
    ensures
        k < argv.len(),
        argv[k] != separator(),
        split_from(inv, argv, i) == split_from(
            split_from(inv, argv.take(k), i)->Ok_0,
            argv,
            k,
        ),
    decreases argv.len() - i,
{
    lemma_looked_at_is_ahead(argv, i, k);
    if i < k {
        let used = uses_next(argv, i);
        let to = i + if used {
            2int
        } else {
            1int
        };
        lemma_looked_at_is_ahead(argv, to, k);
        lemma_uses_next(inv, argv, i);
        let head = argv.take(k);
        assert(head[i] == argv[i]);
        if i + 1 < k {
            assert(head[i + 1] == argv[i + 1]);
        }
        assert(argument(inv, head, i) == argument(inv, argv, i));
        lemma_up_to(argument(inv, argv, i)->Ok_0.0, argv, to, k);
    }
}

proof fn lemma_looked_at_is_ahead(argv: Seq<Seq<u8>>, i: int, k: int)
    requires
        looked_at(argv, i, k),
    ensures
        i <= k < argv.len(),
        argv[k] != separator(),
    decreases argv.len() - i,
{
    if i != k {
        if uses_next(argv, i) {
            lemma_looked_at_is_ahead(argv, i + 2, k);
        } else {
            lemma_looked_at_is_ahead(argv, i + 1, k);
        }
    }
}

/// A `-M` at the very end that lacks its value is refused, by that name, where
/// nothing before it is.
pub proof fn law_a_monitor_without_a_value_is_refused(argv: Seq<Seq<u8>>)
    requires
        argv.len() > 0,
        looked_at(argv, 0, argv.len() - 1),
        is_cluster(argv.last()),
        ends_in_monitor(argv.last()),
        wants_next(argv.last()),
        split(argv.drop_last()) is Ok,
    ensures
        split(argv) == Err::<InvocationView, ParseErrorView>(ParseErrorView::MissingValue("-M"@)),
{
    let k = argv.len() - 1;
    assert(argv.take(k) =~= argv.drop_last());
    lemma_up_to(blank(), argv, 0, k);
}

/// Without long options, the only refusal there is is that of a `-M` at the very end
/// that lacks its value.
pub proof fn law_the_only_refusal_of_short_options(argv: Seq<Seq<u8>>)
    requires
        forall|k: int| 0 <= k < argv.len() ==> !is_long(#[trigger] argv[k]),
    ensures
        split(argv) is Err <==> argv.len() > 0 && looked_at(argv, 0, argv.len() - 1) && is_cluster(
            argv.last(),
        ) && ends_in_monitor(argv.last()) && wants_next(argv.last()),
        split(argv) matches Err(e) ==> e == ParseErrorView::MissingValue("-M"@),
{
    lemma_short_refusals(blank(), argv, 0);
}

proof fn lemma_short_refusals(inv: InvocationView, argv: Seq<Seq<u8>>, i: int)
    requires
        0 <= i,
        forall|k: int| 0 <= k < argv.len() ==> !is_long(#[trigger] argv[k]),
    ensures
        split_from(inv, argv, i) is Err <==> argv.len() > 0 && looked_at(argv, i, argv.len() - 1)
            && is_cluster(argv.last()) && ends_in_monitor(argv.last()) && wants_next(argv.last()),
        split_from(inv, argv, i) matches Err(e) ==> e == ParseErrorView::MissingValue("-M"@),
    decreases argv.len() - i,
{
    if i < argv.len() && argv[i] != separator() {
        assert(!is_long(argv[i]));
        lemma_uses_next(inv, argv, i);
        match argument(inv, argv, i) {
            Ok((next, used)) => {
                let to = i + if used {
                    2int
                } else {
                    1int
                };
                lemma_short_refusals(next, argv, to);
            },
            Err(e) => {
                assert(i == argv.len() - 1);
            },
        }
    }
}

// --------------------------------------------------------------- the monitor

proof fn lemma_injection_point(inv: InvocationView, argv: Seq<Seq<u8>>, i: int)
    requires
        0 <= i,
        inv.inject_at <= inv.ssh_args.len(),
        inv.monitor is None ==> inv.inject_at == 0,
    ensures
        split_from(inv, argv, i) matches Ok(v) ==> {
            &&& v.inject_at <= v.ssh_args.len()
            &&& v.monitor is None ==> v.inject_at == 0
        },
    decreases argv.len() - i,
{
    if i < argv.len() && argv[i] != separator() {
        match argument(inv, argv, i) {
            Ok((next, used)) => {
                lemma_injection_point(
                    next,
                    argv,
                    i + if used {
                        2int
                    } else {
                        1int
                    },
                );
            },
            Err(e) => {},
        }
    }
}

/// The place for the forwards lies inside ssh's arguments, and is the front
/// where there was no `-M`.
pub proof fn law_the_injection_point_is_inside(argv: Seq<Seq<u8>>)
    ensures
        split(argv) matches Ok(v) ==> {
            &&& v.inject_at <= v.ssh_args.len()
            &&& v.monitor is None ==> v.inject_at == 0
        },
{
    lemma_injection_point(blank(), argv, 0);
}

/// Splicing puts the forwards in as one block and keeps every other argument, in
/// order.
pub proof fn law_splicing_keeps_the_arguments<T>(list: Seq<T>, at: nat, other: Seq<T>)
    ensures
        ({
            let k = if at < list.len() {
                at
            } else {
                list.len()
            };
            let whole = spliced(list, at, other);
            &&& whole.len() == list.len() + other.len()
            &&& whole.subrange(k as int, (k + other.len()) as int) == other
            &&& whole.take(k as int) + whole.skip((k + other.len()) as int) == list
        }),
{
    let k = if at < list.len() {
        at
    } else {
        list.len()
    };
    let whole = spliced(list, at, other);
    assert(whole.subrange(k as int, (k + other.len()) as int) =~= other);
    assert(whole.take(k as int) + whole.skip((k + other.len()) as int) =~= list);
}

// ------------------------------------------------------ splitting once more

/// What the arguments from `i` on hand to ssh, up to the separator.
pub open spec fn handed_from(argv: Seq<Seq<u8>>, i: int) -> Seq<Seq<u8>>
    decreases argv.len() - i,
{
    if i >= argv.len() || argv[i] == separator() {
        Seq::empty()
    } else {
        let used = uses_next(argv, i);
        let rest = handed_from(
            argv,
            i + if used {
                2int
            } else {
                1int
            },
        );
        if is_long(argv[i]) {
            rest
        } else if !is_cluster(argv[i]) {
            seq![argv[i]] + rest
        } else {
            let token = if kept(argv[i]).len() > 1 {
                seq![kept(argv[i])]
            } else {
                Seq::empty()
            };
            let value = if used && !ends_in_monitor(argv[i]) {
                seq![argv[i + 1]]
            } else {
                Seq::empty()
            };
            token + (value + rest)
        }
    }
}

proof fn lemma_handed(inv: InvocationView, argv: Seq<Seq<u8>>, i: int)
    requires
        0 <= i,
        separator_from(argv, i) is None,
    ensures
        split_from(inv, argv, i) matches Ok(v) ==> v.ssh_args == inv.ssh_args + handed_from(argv, i),
    decreases argv.len() - i,
{
    if i >= argv.len() {
        assert(inv.ssh_args + Seq::<Seq<u8>>::empty() =~= inv.ssh_args);
    } else {
        lemma_uses_next(inv, argv, i);
        match argument(inv, argv, i) {
            Ok((next, used)) => {
                let to = i + if used {
                    2int
                } else {
                    1int
                };
                lemma_handed(next, argv, to);
                assert(next.ssh_args + handed_from(argv, to) =~= inv.ssh_args + handed_from(
                    argv,
                    i,
                ));
            },
            Err(e) => {},
        }
    }
}

/// Whether an argument uses up the next one does not depend on what stands in front
/// of it.
proof fn lemma_uses_next_shift(front: Seq<Seq<u8>>, list: Seq<Seq<u8>>, j: int)
    requires
        0 <= j < list.len(),
    ensures
        uses_next(front + list, front.len() + j) == uses_next(list, j),
{
    let all = front + list;
    assert(all[front.len() + j] == list[j]);
    if j + 1 < list.len() {
        assert(all[front.len() + j + 1] == list[j + 1]);
    }
}

proof fn lemma_foreign_shift(front: Seq<Seq<u8>>, list: Seq<Seq<u8>>, j: int)
    requires
        0 <= j,
    ensures
        foreign_from(front + list, front.len() + j) == foreign_from(list, j),
    decreases list.len() - j,
{
    if j < list.len() {
        let all = front + list;
        assert(all[front.len() + j] == list[j]);
        lemma_uses_next_shift(front, list, j);
        if uses_next(list, j) {
            lemma_foreign_shift(front, list, j + 2);
        } else {
            lemma_foreign_shift(front, list, j + 1);
        }
    }
}

/// What is left of a cluster takes a value from the next argument exactly if the
/// cluster does, unless that was `-M`.
proof fn lemma_kept_wants_next(token: Seq<u8>)
    requires
        is_cluster(token),
        kept(token).len() > 1,
        kept(token)[1] != '-' as u8,
    ensures
        is_cluster(kept(token)),
        is_foreign(kept(token)),
        wants_next(kept(token)) == (wants_next(token) && !ends_in_monitor(token)),
{
    law_own_options_are_stripped(token);
    let keep = |c: u8| is_ssh_switch(c);
    let all = switches(token);
    let left = all.filter(keep);
    let whole = kept(token);
    lemma_stop(token, 1);
    assert forall|x: int| 0 <= x < all.len() implies is_switch(#[trigger] all[x]) by {
        assert(is_switch(token[x + 1]));
    }
    lemma_filter_switches(all, keep);
    let k = 1 + left.len() as int;
    assert forall|x: int| 1 <= x < k implies is_switch(#[trigger] whole[x]) by {
        assert(whole[x] == left[x - 1]);
    }
    if k < whole.len() {
        assert(whole[k] == token[stop(token)]);
        lemma_stop_is_no_switch(token, 1);
    }
    lemma_stop_is(whole, 1, k);
    assert(stop(whole) == k);
}

/// Whether no cluster from `i` on is left with two dashes in front once rash's own
/// switches are taken out, as `-f-` is.
pub open spec fn undoubled_from(argv: Seq<Seq<u8>>, i: int) -> bool
    decreases argv.len() - i,
{
    i >= argv.len() || {
        &&& is_cluster(argv[i]) && kept(argv[i]).len() > 1 ==> kept(argv[i])[1] != '-' as u8
        &&& undoubled_from(
            argv,
            i + if uses_next(argv, i) {
                2int
            } else {
                1int
            },
        )
    }
}

proof fn lemma_handed_is_foreign(argv: Seq<Seq<u8>>, i: int)
    requires
        0 <= i,
        separator_from(argv, i) is None,
        undoubled_from(argv, i),
        split_from(blank(), argv, i) is Ok,
    ensures
        foreign_from(handed_from(argv, i), 0),
    decreases argv.len() - i,
{
    if i < argv.len() {
        let token = argv[i];
        let used = uses_next(argv, i);
        let to = i + if used {
            2int
        } else {
            1int
        };
        lemma_uses_next(blank(), argv, i);
        lemma_refusals_agree(argument(blank(), argv, i)->Ok_0.0, blank(), argv, to);
        lemma_handed_is_foreign(argv, to);
        let rest = handed_from(argv, to);
        let all = handed_from(argv, i);
        if is_long(token) {
        } else if !is_cluster(token) {
            lemma_foreign_shift(seq![token], rest, 0);
            assert(all[0] == token);
            assert(!uses_next(all, 0));
        } else if kept(token).len() > 1 {
            lemma_kept_wants_next(token);
            if used && !ends_in_monitor(token) {
                let pair = seq![kept(token), argv[i + 1]];
                assert(all =~= pair + rest);
                assert(all[0] == kept(token));
                assert(uses_next(all, 0));
                lemma_foreign_shift(pair, rest, 0);
            } else {
                let one = seq![kept(token)];
                assert(all =~= one + rest);
                assert(all[0] == kept(token));
                if wants_next(token) && !ends_in_monitor(token) {
                    assert(rest =~= Seq::empty());
                }
                assert(!uses_next(all, 0));
                lemma_foreign_shift(one, rest, 0);
            }
        } else {
            lemma_stop(token, 1);
            assert(all =~= rest);
        }
    }
}

/// Whether the arguments from `i` on are refused does not depend on what was asked
/// before them.
proof fn lemma_refusals_agree(
    inv: InvocationView,
    other: InvocationView,
    argv: Seq<Seq<u8>>,
    i: int,
)
    requires
        0 <= i,
    ensures
        split_from(inv, argv, i) is Ok == split_from(other, argv, i) is Ok,
    decreases argv.len() - i,
{
    if i < argv.len() && argv[i] != separator() {
        lemma_uses_next(inv, argv, i);
        lemma_uses_next(other, argv, i);
        assert(argument(inv, argv, i) is Ok == argument(other, argv, i) is Ok);
        if argument(inv, argv, i) is Ok {
            let to = i + if uses_next(argv, i) {
                2int
            } else {
                1int
            };
            lemma_refusals_agree(
                argument(inv, argv, i)->Ok_0.0,
                argument(other, argv, i)->Ok_0.0,
                argv,
                to,
            );
        }
    }
}

/// What is handed to ssh holds nothing of rash's any more: splitting it once more
/// changes nothing, and asks nothing of rash. The separator is left out, since what
/// follows it is not looked at the first time.
pub proof fn law_splitting_again_changes_nothing(argv: Seq<Seq<u8>>)
    requires
        split(argv) is Ok,
        separator_from(argv, 0) is None,
        undoubled_from(argv, 0),
    ensures
        ({
            let args = split(argv)->Ok_0.ssh_args;
            split(args) == Ok::<InvocationView, ParseErrorView>(
                InvocationView { ssh_args: args, ..blank() },
            )
        }),
{
    lemma_handed(blank(), argv, 0);
    lemma_handed_is_foreign(argv, 0);
    assert(blank().ssh_args + handed_from(argv, 0) =~= handed_from(argv, 0));
    law_foreign_arguments_pass_through(handed_from(argv, 0));
}

/// Whether a token has a dash in first place only.
pub open spec fn dashed_in_front_only(token: Seq<u8>) -> bool {
    forall|j: int| 1 <= j < token.len() ==> #[trigger] token[j] != '-' as u8
}

proof fn lemma_plain_dashes(argv: Seq<Seq<u8>>, i: int)
    requires
        0 <= i,
        forall|k: int| 0 <= k < argv.len() ==> dashed_in_front_only(#[trigger] argv[k]),
    ensures
        separator_from(argv, i) is None,
        undoubled_from(argv, i),
    decreases argv.len() - i,
{
    if i < argv.len() {
        let token = argv[i];
        assert(dashed_in_front_only(token));
        if token == separator() {
            assert(token[1] == '-' as u8);
        }
        if is_cluster(token) && kept(token).len() > 1 {
            let keep = |c: u8| is_ssh_switch(c);
            let all = switches(token);
            lemma_stop(token, 1);
            assert forall|x: int| 0 <= x < all.len() implies is_switch(#[trigger] all[x]) by {
                assert(is_switch(token[x + 1]));
            }
            lemma_filter_switches(all, keep);
            let left = all.filter(keep);
            if left.len() > 0 {
                assert(kept(token)[1] == left[0]);
                assert(is_switch(left[0]));
            } else {
                assert(kept(token)[1] == token[stop(token)]);
            }
        }
        if uses_next(argv, i) {
            lemma_plain_dashes(argv, i + 2);
        } else {
            lemma_plain_dashes(argv, i + 1);
        }
    }
}

/// Where every argument has a dash in first place only, splitting what goes to ssh
/// once more changes nothing.
pub proof fn law_plain_arguments_split_once(argv: Seq<Seq<u8>>)
    requires
        split(argv) is Ok,
        forall|k: int| 0 <= k < argv.len() ==> dashed_in_front_only(#[trigger] argv[k]),
    ensures
        ({
            let args = split(argv)->Ok_0.ssh_args;
            split(args) == Ok::<InvocationView, ParseErrorView>(
                InvocationView { ssh_args: args, ..blank() },
            )
        }),
{
    lemma_plain_dashes(argv, 0);
    law_splitting_again_changes_nothing(argv);
}

// ------------------------------------------------------------ every -M at once

/// Whether a token is a cluster with a `-M` among its options.
pub open spec fn has_monitor(token: Seq<u8>) -> bool {
    is_cluster(token) && ends_in_monitor(token)
}

/// The value of the `-M` in the token at `k`: the rest of the token, or else the
/// next argument.
pub open spec fn monitor_value(argv: Seq<Seq<u8>>, k: int) -> Seq<u8> {
    if wants_next(argv[k]) {
        argv[k + 1]
    } else {
        argv[k].skip(stop(argv[k]) + 1)
    }
}

/// The position of the first token from `i` on, before the separator, that has a
/// `-M`. The value of an option is not looked at.
pub open spec fn first_monitor_from(argv: Seq<Seq<u8>>, i: int) -> Option<int>
    decreases argv.len() - i,
{
    if i >= argv.len() || argv[i] == separator() {
        None
    } else if has_monitor(argv[i]) {
        Some(i)
    } else {
        first_monitor_from(
            argv,
            i + if uses_next(argv, i) {
                2int
            } else {
                1int
            },
        )
    }
}

/// The position of the last token from `i` on, before the separator, that has a
/// `-M`.
pub open spec fn last_monitor_from(argv: Seq<Seq<u8>>, i: int) -> Option<int>
    decreases argv.len() - i,
{
    if i >= argv.len() || argv[i] == separator() {
        None
    } else {
        let later = last_monitor_from(
            argv,
            i + if uses_next(argv, i) {
                2int
            } else {
                1int
            },
        );
        if later is Some {
            later
        } else if has_monitor(argv[i]) {
            Some(i)
        } else {
            None
        }
    }
}

/// Once a place is fixed it stays, and the port is the one given last.
proof fn lemma_last_monitor(inv: InvocationView, argv: Seq<Seq<u8>>, i: int)
    requires
        0 <= i,
    ensures
        split_from(inv, argv, i) matches Ok(v) ==> {
            &&& v.monitor == match last_monitor_from(argv, i) {
                Some(k) => Some(monitor_value(argv, k)),
                None => inv.monitor,
            }
            &&& inv.monitor is Some || last_monitor_from(argv, i) is None ==> v.inject_at
                == inv.inject_at
        },
    decreases argv.len() - i,
{
    if i < argv.len() && argv[i] != separator() {
        lemma_uses_next(inv, argv, i);
        match argument(inv, argv, i) {
            Ok((next, used)) => {
                lemma_last_monitor(
                    next,
                    argv,
                    i + if used {
                        2int
                    } else {
                        1int
                    },
                );
            },
            Err(e) => {},
        }
    }
}

/// What comes before the first `-M` can be split on its own.
proof fn lemma_up_to_the_first(inv: InvocationView, argv: Seq<Seq<u8>>, i: int, k: int)
    requires
        0 <= i,
        first_monitor_from(argv, i) == Some(k),
        split_from(inv, argv, i) is Ok,
    ensures
        i <= k < argv.len(),
        argv[k] != separator(),
        has_monitor(argv[k]),
        split_from(inv, argv.take(k), i) matches Ok(u) && u.monitor == inv.monitor && u.inject_at
            == inv.inject_at && split_from(inv, argv, i) == split_from(u, argv, k),
    decreases argv.len() - i,
{
    if i < k {
        let used = uses_next(argv, i);
        let to = i + if used {
            2int
        } else {
            1int
        };
        lemma_uses_next(inv, argv, i);
        let next = argument(inv, argv, i)->Ok_0.0;
        lemma_up_to_the_first(next, argv, to, k);
        let head = argv.take(k);
        assert(head[i] == argv[i]);
        if i + 1 < k {
            assert(head[i + 1] == argv[i + 1]);
        }
        assert(argument(inv, head, i) == argument(inv, argv, i));
    } else {
        lemma_first_is_ahead(argv, i);
    }
}

proof fn lemma_first_is_ahead(argv: Seq<Seq<u8>>, i: int)
    ensures
        first_monitor_from(argv, i) matches Some(k) ==> {
            &&& i <= k < argv.len()
            &&& has_monitor(argv[k]) && argv[k] != separator()
        },
    decreases argv.len() - i,
{
    if i < argv.len() && argv[i] != separator() && !has_monitor(argv[i]) {
        if uses_next(argv, i) {
            lemma_first_is_ahead(argv, i + 2);
        } else {
            lemma_first_is_ahead(argv, i + 1);
        }
    }
}

proof fn lemma_a_first_has_a_last(argv: Seq<Seq<u8>>, i: int)
    ensures
        first_monitor_from(argv, i) is Some == last_monitor_from(argv, i) is Some,
    decreases argv.len() - i,
{
    if i < argv.len() && argv[i] != separator() {
        if uses_next(argv, i) {
            lemma_a_first_has_a_last(argv, i + 2);
        } else {
            lemma_a_first_has_a_last(argv, i + 1);
        }
    }
}

/// Over a whole command line, the first `-M` fixes the place of the forwards and the
/// last one the port. The place is behind what the arguments before the first `-M`
/// hand to ssh. Without a `-M` it is the front, and there is no port.
pub proof fn law_the_first_monitor_fixes_the_place_and_the_last_the_port(argv: Seq<Seq<u8>>)
    ensures
        split(argv) matches Ok(inv) ==> {
            &&& inv.inject_at <= inv.ssh_args.len()
            &&& match first_monitor_from(argv, 0) {
                Some(k) => {
                    &&& 0 <= k < argv.len() && has_monitor(argv[k])
                    &&& split(argv.take(k)) is Ok
                    &&& inv.inject_at == split(argv.take(k))->Ok_0.ssh_args.len()
                },
                None => inv.inject_at == 0,
            }
            &&& inv.monitor == match last_monitor_from(argv, 0) {
                Some(k) => Some(monitor_value(argv, k)),
                None => None,
            }
            &&& first_monitor_from(argv, 0) is Some <==> last_monitor_from(argv, 0) is Some
        },
{
    if split(argv) is Ok {
        law_the_injection_point_is_inside(argv);
        lemma_last_monitor(blank(), argv, 0);
        lemma_a_first_has_a_last(argv, 0);
        if let Some(k) = first_monitor_from(argv, 0) {
            lemma_up_to_the_first(blank(), argv, 0, k);
            let u = split(argv.take(k))->Ok_0;
            lemma_uses_next(u, argv, k);
            let next = argument(u, argv, k)->Ok_0.0;
            let to = k + if uses_next(argv, k) {
                2int
            } else {
                1int
            };
            lemma_last_monitor(next, argv, to);
        }
    }
}

// ------------------------------------------------------------------- quoting

/// How a shell reads a line of plain words: spaces end a word, single quotes
/// keep what stands between them, and a backslash keeps the next character.
/// Anything that would mean more to it is no plain word.
pub open spec fn shell(
    line: Seq<char>,
    inside: bool,
    word: Option<Seq<char>>,
    words: Seq<Seq<char>>,
) -> Option<Seq<Seq<char>>>
    decreases line.len(),
{
    let sofar = match word {
        Some(w) => w,
        None => Seq::empty(),
    };
    if line.len() == 0 {
        if inside {
            None
        } else if word is Some {
            Some(words.push(sofar))
        } else {
            Some(words)
        }
    } else if inside {
        if line[0] == '\'' {
            shell(line.skip(1), false, word, words)
        } else {
            shell(line.skip(1), true, Some(sofar.push(line[0])), words)
        }
    } else if line[0] == ' ' {
        if word is Some {
            shell(line.skip(1), false, None, words.push(sofar))
        } else {
            shell(line.skip(1), false, None, words)
        }
    } else if line[0] == '\'' {
        shell(line.skip(1), true, Some(sofar), words)
    } else if line[0] == '\\' {
        if line.len() < 2 {
            None
        } else {
            shell(line.skip(2), false, Some(sofar.push(line[1])), words)
        }
    } else if is_plain(line[0]) {
        shell(line.skip(1), false, Some(sofar.push(line[0])), words)
    } else {
        None
    }
}

proof fn lemma_shell_plain(t: Seq<char>, rest: Seq<char>, w: Seq<char>, words: Seq<Seq<char>>)
    requires
        forall|i: int| 0 <= i < t.len() ==> is_plain(#[trigger] t[i]),
    ensures
        shell(t + rest, false, Some(w), words) == shell(rest, false, Some(w + t), words),
    decreases t.len(),
{
    if t.len() == 0 {
        assert(t + rest =~= rest);
        assert(w + t =~= w);
    } else {
        let c = t.last();
        let head = t.drop_last();
        let tail = seq![c] + rest;
        assert(is_plain(c));
        assert forall|i: int| 0 <= i < head.len() implies is_plain(#[trigger] head[i]) by {
            assert(head[i] == t[i]);
        }
        lemma_shell_plain(head, tail, w, words);
        assert(head + tail =~= t + rest);
        assert(tail.skip(1) =~= rest);
        assert((w + head).push(c) =~= w + t);
    }
}

proof fn lemma_shell_escaped(t: Seq<char>, rest: Seq<char>, w: Seq<char>, words: Seq<Seq<char>>)
    ensures
        shell(escaped(t) + rest, true, Some(w), words) == shell(rest, true, Some(w + t), words),
    decreases t.len(),
{
    if t.len() == 0 {
        assert(escaped(t) + rest =~= rest);
        assert(w + t =~= w);
    } else {
        let c = t.last();
        let head = t.drop_last();
        let tail = escaped_char(c) + rest;
        lemma_shell_escaped(head, tail, w, words);
        assert(escaped(head) + tail =~= escaped(t) + rest);
        assert((w + head).push(c) =~= w + t);
        if c == '\'' {
            assert(tail.skip(1) =~= seq!['\\', '\'', '\''] + rest);
            let back = tail.skip(1);
            assert(back.skip(2) =~= seq!['\''] + rest);
            assert(back[0] == '\\' && back[1] == '\'');
            let again = back.skip(2);
            assert(again.skip(1) =~= rest);
            let x = w + head;
            assert(shell(tail, true, Some(x), words) == shell(back, false, Some(x), words));
            assert(shell(back, false, Some(x), words) == shell(
                again,
                false,
                Some(x.push(c)),
                words,
            ));
            assert(shell(again, false, Some(x.push(c)), words) == shell(
                rest,
                true,
                Some(x.push(c)),
                words,
            ));
        } else {
            assert(tail.skip(1) =~= rest);
        }
    }
}

proof fn lemma_shell_quoted(t: Seq<char>, rest: Seq<char>, words: Seq<Seq<char>>)
    ensures
        shell(quoted(t) + rest, false, None, words) == shell(rest, false, Some(t), words),
{
    if t.len() > 0 && forall|i: int| 0 <= i < t.len() ==> is_plain(#[trigger] t[i]) {
        let line = t + rest;
        assert(is_plain(t[0]));
        assert(line[0] == t[0]);
        assert(line.skip(1) =~= t.skip(1) + rest);
        lemma_shell_plain(t.skip(1), rest, seq![t[0]], words);
        assert(seq![t[0]] + t.skip(1) =~= t);
        assert(Seq::<char>::empty().push(t[0]) =~= seq![t[0]]);
    } else {
        let line = quoted(t) + rest;
        let tail = seq!['\''] + rest;
        assert(line[0] == '\'');
        assert(line.skip(1) =~= escaped(t) + tail);
        lemma_shell_escaped(t, tail, Seq::empty(), words);
        assert(Seq::<char>::empty() + t =~= t);
        assert(tail.skip(1) =~= rest);
    }
}

/// A shell reads a quoted argument back as the one word it was.
pub proof fn law_quoting_reads_back(t: Seq<char>)
    ensures
        shell(quoted(t), false, None, Seq::empty()) == Some(seq![t]),
{
    lemma_shell_quoted(t, Seq::empty(), Seq::empty());
    assert(quoted(t) + Seq::<char>::empty() =~= quoted(t));
    assert(Seq::<Seq<char>>::empty().push(t) =~= seq![t]);
}

/// Arguments written one after the other, each quoted and with a space before
/// it.
pub open spec fn quoted_words(args: Seq<Seq<char>>) -> Seq<char>
    decreases args.len(),
{
    if args.len() == 0 {
        Seq::empty()
    } else {
        quoted_words(args.drop_last()) + seq![' '] + quoted(args.last())
    }
}

proof fn lemma_shell_words(args: Seq<Seq<char>>, rest: Seq<char>, w: Seq<char>, words: Seq<Seq<char>>)
    requires
        args.len() > 0,
    ensures
        shell(quoted_words(args) + rest, false, Some(w), words) == shell(
            rest,
            false,
            Some(args.last()),
            words.push(w) + args.drop_last(),
        ),
    decreases args.len(),
{
    let last = args.last();
    let init = args.drop_last();
    let tail = seq![' '] + (quoted(last) + rest);
    assert(quoted_words(args) + rest =~= quoted_words(init) + tail);
    assert(tail.skip(1) =~= quoted(last) + rest);
    if init.len() == 0 {
        assert(quoted_words(init) + tail =~= tail);
        assert(words.push(w) + init =~= words.push(w));
        lemma_shell_quoted(last, rest, words.push(w));
    } else {
        lemma_shell_words(init, tail, w, words);
        let done = (words.push(w) + init.drop_last()).push(init.last());
        assert(done =~= words.push(w) + init);
        lemma_shell_quoted(last, rest, done);
    }
}

/// A shell reads a whole command line of quoted arguments back as the arguments
/// it was written from.
pub proof fn law_a_quoted_command_reads_back(program: Seq<char>, args: Seq<Seq<char>>)
    ensures
        shell(quoted(program) + quoted_words(args), false, None, Seq::empty()) == Some(
            seq![program] + args,
        ),
{
    let none = Seq::<Seq<char>>::empty();
    lemma_shell_quoted(program, quoted_words(args), none);
    if args.len() == 0 {
        assert(none.push(program) =~= seq![program] + args);
    } else {
        lemma_shell_words(args, Seq::empty(), program, none);
        assert(quoted_words(args) + Seq::<char>::empty() =~= quoted_words(args));
        assert((none.push(program) + args.drop_last()).push(args.last()) =~= seq![program] + args);
    }
}

} // verus!
