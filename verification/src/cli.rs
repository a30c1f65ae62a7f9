//! Splitting the command line into rash's own options and ssh's.
//!
//! Only what has to be known is classified: `-M`, `-f`, `-V` and the long
//! options. Everything else is handed to ssh untouched, so an option that is not
//! recognised here is forwarded rather than rejected.

pub mod front;
pub mod laws;

use crate::text::{
    concat3, contents, copy_bytes, to_readable, lemma_contents_push, readable, same_bytes,
};
use vstd::prelude::*;
use vstd::utf8::encode_utf8;

verus! {

/// What rash was asked to do, before any environment is consulted.
#[derive(Debug, PartialEq, Eq)]
pub struct Invocation {
    /// The `-M` spec, exactly as given.
    pub monitor: Option<Vec<u8>>,
    /// `--monitor SPEC`, which outranks both `-M` and the environment.
    pub monitor_long: Option<Vec<u8>>,
    pub background: bool,
    pub version: bool,
    pub help: bool,
    /// `--man`: print the manual page and exit.
    pub man: bool,
    pub dry_run: bool,
    /// `--list`: print the config file's session names and exit.
    pub list: bool,
    /// `--session NAME`: take settings from `[session.NAME]` in the config file.
    pub session: Option<String>,
    /// `--config PATH`: use this config file rather than the default one.
    pub config: Option<Vec<u8>>,
    /// Arguments for ssh, in order, with `-M`, `-f` and `-V` removed.
    pub ssh_args: Vec<Vec<u8>>,
    /// Where the monitor forwards belong: the position `-M` occupied.
    pub inject_at: usize,
}

/// What an [`Invocation`] holds.
#[verifier::ext_equal]
pub struct InvocationView {
    pub monitor: Option<Seq<u8>>,
    pub monitor_long: Option<Seq<u8>>,
    pub background: bool,
    pub version: bool,
    pub help: bool,
    pub man: bool,
    pub dry_run: bool,
    pub list: bool,
    pub session: Option<Seq<char>>,
    pub config: Option<Seq<u8>>,
    pub ssh_args: Seq<Seq<u8>>,
    pub inject_at: nat,
}

/// What an optional byte string holds.
pub open spec fn bytes_in(o: Option<Vec<u8>>) -> Option<Seq<u8>> {
    match o {
        Some(v) => Some(v@),
        None => None,
    }
}

/// What an optional text holds.
pub open spec fn text_in(o: Option<String>) -> Option<Seq<char>> {
    match o {
        Some(s) => Some(s@),
        None => None,
    }
}

impl View for Invocation {
    type V = InvocationView;

    open spec fn view(&self) -> InvocationView {
        InvocationView {
            monitor: bytes_in(self.monitor),
            monitor_long: bytes_in(self.monitor_long),
            background: self.background,
            version: self.version,
            help: self.help,
            man: self.man,
            dry_run: self.dry_run,
            list: self.list,
            session: text_in(self.session),
            config: bytes_in(self.config),
            ssh_args: contents(self.ssh_args@),
            inject_at: self.inject_at as nat,
        }
    }
}

/// Why a command line was refused.
#[derive(Debug, PartialEq, Eq)]
pub enum ParseError {
    MissingValue(String),
    UnknownLongOption(String),
}

/// What a [`ParseError`] holds.
pub enum ParseErrorView {
    MissingValue(Seq<char>),
    UnknownLongOption(Seq<char>),
}

impl View for ParseError {
    type V = ParseErrorView;

    open spec fn view(&self) -> ParseErrorView {
        match *self {
            ParseError::MissingValue(s) => ParseErrorView::MissingValue(s@),
            ParseError::UnknownLongOption(s) => ParseErrorView::UnknownLongOption(s@),
        }
    }
}

impl ParseErrorView {
    /// The error in words.
    pub open spec fn shown(self) -> Seq<char> {
        match self {
            ParseErrorView::MissingValue(o) => "option "@ + o + " requires an argument"@,
            ParseErrorView::UnknownLongOption(o) => "unknown option "@ + o,
        }
    }
}

impl ParseError {
    /// The error in words.
    pub fn text(&self) -> (s: String)
        ensures
            s@ == self@.shown(),
    {
        match self {
            ParseError::MissingValue(o) => concat3("option ", o.as_str(), " requires an argument"),
            ParseError::UnknownLongOption(o) => {
                let mut s = "unknown option ".to_owned();
                s.append(o.as_str());
                s
            },
        }
    }
}

// ------------------------------------------------------------- the grammar

/// The bytes of a text.
pub open spec fn raw(s: Seq<char>) -> Seq<u8> {
    encode_utf8(s)
}

/// ssh's short options that take a value.
pub open spec fn takes_value(c: u8) -> bool {
    let ch = c as char;
    ch == 'B' || ch == 'b' || ch == 'c' || ch == 'D' || ch == 'E' || ch == 'e' || ch == 'F'
        || ch == 'I' || ch == 'i' || ch == 'J' || ch == 'L' || ch == 'l' || ch == 'm' || ch == 'O'
        || ch == 'o' || ch == 'P' || ch == 'p' || ch == 'Q' || ch == 'R' || ch == 'S' || ch == 'W'
        || ch == 'w'
}

/// ssh's short options that are booleans and are ssh's alone.
pub open spec fn is_flag(c: u8) -> bool {
    let ch = c as char;
    ch == '1' || ch == '2' || ch == '4' || ch == '6' || ch == 'A' || ch == 'a' || ch == 'C'
        || ch == 'G' || ch == 'g' || ch == 'K' || ch == 'k' || ch == 'N' || ch == 'n' || ch == 'q'
        || ch == 's' || ch == 'T' || ch == 't' || ch == 'v' || ch == 'X' || ch == 'x' || ch == 'Y'
        || ch == 'y'
}

/// Letters after which the rest of a cluster is still option letters.
pub open spec fn is_switch(c: u8) -> bool {
    c == 'f' as u8 || c == 'V' as u8 || is_flag(c)
}

/// Switches that ssh gets to see.
pub open spec fn is_ssh_switch(c: u8) -> bool {
    c != 'f' as u8 && c != 'V' as u8
}

/// The first position from `j` on that does not hold a switch.
pub open spec fn stop_from(token: Seq<u8>, j: int) -> int
    decreases token.len() - j,
{
    if j >= token.len() || !is_switch(token[j]) {
        j
    } else {
        stop_from(token, j + 1)
    }
}

/// Where the switches of a cluster such as `-fNT` end.
pub open spec fn stop(token: Seq<u8>) -> int {
    stop_from(token, 1)
}

/// The switches of a cluster.
pub open spec fn switches(token: Seq<u8>) -> Seq<u8> {
    token.subrange(1, stop(token))
}

/// Whether a token is a cluster of short options: a dash and at least one
/// letter, and not a long option.
pub open spec fn is_cluster(token: Seq<u8>) -> bool {
    token.len() >= 2 && token[0] == '-' as u8 && token[1] != '-' as u8
}

/// Whether a token is a long option or the separator.
pub open spec fn is_long(token: Seq<u8>) -> bool {
    token.len() >= 2 && token[0] == '-' as u8 && token[1] == '-' as u8
}

/// The separator, past which nothing is looked at.
pub open spec fn separator() -> Seq<u8> {
    seq!['-' as u8, '-' as u8]
}

/// Whether the switches of a cluster end in `-M`.
pub open spec fn ends_in_monitor(token: Seq<u8>) -> bool {
    stop(token) < token.len() && token[stop(token)] == 'M' as u8
}

/// Whether a cluster ends in an option whose value is the next argument.
pub open spec fn wants_next(token: Seq<u8>) -> bool {
    &&& stop(token) == token.len() - 1
    &&& token[stop(token)] == 'M' as u8 || takes_value(token[stop(token)])
}

/// What is left of a cluster for ssh: its switches but for `-f` and `-V`, and
/// everything from the first letter that is not a switch, unless that is `-M`.
pub open spec fn kept(token: Seq<u8>) -> Seq<u8> {
    seq!['-' as u8] + switches(token).filter(|c: u8| is_ssh_switch(c)) + if ends_in_monitor(token) {
        Seq::empty()
    } else {
        token.skip(stop(token))
    }
}

/// One cluster, and whether it used up the next argument as well.
pub open spec fn cluster(inv: InvocationView, argv: Seq<Seq<u8>>, i: int) -> Result<
    (InvocationView, bool),
    ParseErrorView,
> {
    let token = argv[i];
    let has_next = i + 1 < argv.len();
    let switched = InvocationView {
        background: inv.background || switches(token).contains('f' as u8),
        version: inv.version || switches(token).contains('V' as u8),
        ..inv
    };
    // A cluster that was stripped to the bare dash is dropped.
    let args = if kept(token).len() > 1 {
        inv.ssh_args.push(kept(token))
    } else {
        inv.ssh_args
    };
    if ends_in_monitor(token) {
        let at = if inv.monitor is None {
            inv.ssh_args.len()
        } else {
            inv.inject_at
        };
        if !wants_next(token) {
            Ok(
                (
                    InvocationView {
                        monitor: Some(token.skip(stop(token) + 1)),
                        inject_at: at,
                        ssh_args: args,
                        ..switched
                    },
                    false,
                ),
            )
        } else if has_next {
            Ok(
                (
                    InvocationView {
                        monitor: Some(argv[i + 1]),
                        inject_at: at,
                        ssh_args: args,
                        ..switched
                    },
                    true,
                ),
            )
        } else {
            Err(ParseErrorView::MissingValue("-M"@))
        }
    } else if wants_next(token) && has_next {
        Ok((InvocationView { ssh_args: args.push(argv[i + 1]), ..switched }, true))
    } else {
        Ok((InvocationView { ssh_args: args, ..switched }, false))
    }
}

/// The first position from `j` on that holds `b`, or the end.
pub open spec fn find_from(s: Seq<u8>, b: u8, j: int) -> int
    decreases s.len() - j,
{
    if j >= s.len() || s[j] == b {
        j
    } else {
        find_from(s, b, j + 1)
    }
}

/// The name of a long option: what stands between the dashes and a `=`.
pub open spec fn long_name(token: Seq<u8>) -> Seq<u8> {
    token.subrange(2, find_from(token, '=' as u8, 2))
}

/// The value of a long option: what follows its `=`, or else the next argument.
/// Beside it, whether that was used up.
pub open spec fn long_value(argv: Seq<Seq<u8>>, i: int) -> Option<(Seq<u8>, bool)> {
    let at = find_from(argv[i], '=' as u8, 2);
    if at < argv[i].len() {
        Some((argv[i].skip(at + 1), false))
    } else if i + 1 < argv.len() {
        Some((argv[i + 1], true))
    } else {
        None
    }
}

/// One long option, and whether it used up the next argument as well.
pub open spec fn long(inv: InvocationView, argv: Seq<Seq<u8>>, i: int) -> Result<
    (InvocationView, bool),
    ParseErrorView,
> {
    let name = long_name(argv[i]);
    let value = long_value(argv, i);
    if name == raw("help"@) {
        Ok((InvocationView { help: true, ..inv }, false))
    } else if name == raw("version"@) {
        Ok((InvocationView { version: true, ..inv }, false))
    } else if name == raw("man"@) {
        Ok((InvocationView { man: true, ..inv }, false))
    } else if name == raw("dry-run"@) {
        Ok((InvocationView { dry_run: true, ..inv }, false))
    } else if name == raw("list"@) {
        Ok((InvocationView { list: true, ..inv }, false))
    } else if name == raw("monitor"@) {
        match value {
            Some((v, used)) => Ok((InvocationView { monitor_long: Some(v), ..inv }, used)),
            None => Err(ParseErrorView::MissingValue("--"@ + "monitor"@)),
        }
    } else if name == raw("session"@) {
        match value {
            Some((v, used)) => Ok((InvocationView { session: Some(readable(v)), ..inv }, used)),
            None => Err(ParseErrorView::MissingValue("--"@ + "session"@)),
        }
    } else if name == raw("config"@) {
        match value {
            Some((v, used)) => Ok((InvocationView { config: Some(v), ..inv }, used)),
            None => Err(ParseErrorView::MissingValue("--"@ + "config"@)),
        }
    } else {
        Err(ParseErrorView::UnknownLongOption("--"@ + readable(name)))
    }
}

/// One argument, and whether it used up the next one as well.
pub open spec fn argument(inv: InvocationView, argv: Seq<Seq<u8>>, i: int) -> Result<
    (InvocationView, bool),
    ParseErrorView,
> {
    if is_long(argv[i]) {
        long(inv, argv, i)
    } else if is_cluster(argv[i]) {
        cluster(inv, argv, i)
    } else {
        // The destination, a word of the remote command, or a lone dash.
        Ok((InvocationView { ssh_args: inv.ssh_args.push(argv[i]), ..inv }, false))
    }
}

/// The arguments from `i` on. The first separator is dropped, and what follows
/// it goes to ssh as it stands.
pub open spec fn split_from(inv: InvocationView, argv: Seq<Seq<u8>>, i: int) -> Result<
    InvocationView,
    ParseErrorView,
>
    decreases argv.len() - i,
{
    if i >= argv.len() {
        Ok(inv)
    } else if argv[i] == separator() {
        Ok(InvocationView { ssh_args: inv.ssh_args + argv.skip(i + 1), ..inv })
    } else {
        match argument(inv, argv, i) {
            Ok((next, used)) => split_from(
                next,
                argv,
                i + if used {
                    2int
                } else {
                    1int
                },
            ),
            Err(e) => Err(e),
        }
    }
}

/// An invocation that nothing has been asked of.
pub open spec fn blank() -> InvocationView {
    InvocationView {
        monitor: None,
        monitor_long: None,
        background: false,
        version: false,
        help: false,
        man: false,
        dry_run: false,
        list: false,
        session: None,
        config: None,
        ssh_args: Seq::empty(),
        inject_at: 0,
    }
}

/// What a command line asks for.
pub open spec fn split(argv: Seq<Seq<u8>>) -> Result<InvocationView, ParseErrorView> {
    split_from(blank(), argv, 0)
}

// ------------------------------------------------------------- the splitter

impl Default for Invocation {
    fn default() -> (inv: Self)
        ensures
            inv@ == blank(),
    {
        let inv = Invocation {
            monitor: None,
            monitor_long: None,
            background: false,
            version: false,
            help: false,
            man: false,
            dry_run: false,
            list: false,
            session: None,
            config: None,
            ssh_args: Vec::new(),
            inject_at: 0,
        };
        assert(inv@ =~= blank());
        inv
    }
}

/// Whether ssh's option `c` takes a value.
fn takes_a_value(c: u8) -> (b: bool)
    ensures
        b == takes_value(c),
{
    match c as char {
        'B' | 'b' | 'c' | 'D' | 'E' | 'e' | 'F' | 'I' | 'i' | 'J' | 'L' | 'l' | 'm'
        | 'O' | 'o' | 'P' | 'p' | 'Q' | 'R' | 'S' | 'W' | 'w' => true,
        _ => false,
    }
}

/// Whether ssh's option `c` is a boolean.
fn is_a_flag(c: u8) -> (b: bool)
    ensures
        b == is_flag(c),
{
    match c as char {
        '1' | '2' | '4' | '6' | 'A' | 'a' | 'C' | 'G' | 'g' | 'K' | 'k' | 'N' | 'n'
        | 'q' | 's' | 'T' | 't' | 'v' | 'X' | 'x' | 'Y' | 'y' => true,
        _ => false,
    }
}

/// Handle one cluster of short options. Says whether it used up the next
/// argument as well.
fn parse_cluster(inv: &mut Invocation, argv: &[Vec<u8>], i: usize) -> (r: Result<bool, ParseError>)
    requires
        i < argv.len(),
        is_cluster(argv@[i as int]@),
    ensures
        match r {
            Ok(used) => cluster(old(inv)@, contents(argv@), i as int) == Ok::<
                (InvocationView, bool),
                ParseErrorView,
            >((final(inv)@, used)),
            Err(e) => {
                &&& final(inv)@ == old(inv)@
                &&& cluster(old(inv)@, contents(argv@), i as int) == Err::<
                    (InvocationView, bool),
                    ParseErrorView,
                >(e@)
            },
        },
{
    let token: &Vec<u8> = &argv[i];
    let ghost all = contents(argv@);
    assert(all[i as int] == token@);
    let mut left: Vec<u8> = Vec::new();
    left.push('-' as u8);
    let mut background: bool = false;
    let mut version: bool = false;
    let mut j: usize = 1;
    let ghost keep = |c: u8| is_ssh_switch(c);
    proof {
        reveal(Seq::filter);
        assert(token@.subrange(1, 1).filter(keep) =~= Seq::empty());
    }
    while j < token.len() && (token[j] == 'f' as u8 || token[j] == 'V' as u8 || is_a_flag(token[j]))
        invariant
            1 <= j <= token.len(),
            stop_from(token@, j as int) == stop(token@),
            keep == (|c: u8| is_ssh_switch(c)),
            left@ == seq!['-' as u8] + token@.subrange(1, j as int).filter(keep),
            background == token@.subrange(1, j as int).contains('f' as u8),
            version == token@.subrange(1, j as int).contains('V' as u8),
        decreases token.len() - j,
    {
        let c: u8 = token[j];
        let ghost before = token@.subrange(1, j as int);
        let ghost after = token@.subrange(1, j + 1);
        proof {
            assert(after.drop_last() =~= before);
            assert(after =~= before.push(c));
            reveal(Seq::filter);
            assert(after.last() == c);
            assert forall|x: u8| after.contains(x) == (before.contains(x) || x == c) by {
                if before.contains(x) {
                    let k = choose|k: int| 0 <= k < before.len() && before[k] == x;
                    assert(after[k] == x);
                }
                if x == c {
                    assert(after[before.len() as int] == x);
                }
                if after.contains(x) {
                    let k = choose|k: int| 0 <= k < after.len() && after[k] == x;
                    if k < before.len() {
                        assert(before[k] == x);
                    }
                }
            }
        }
        if c == 'f' as u8 {
            background = true;
        } else if c == 'V' as u8 {
            version = true;
        } else {
            left.push(c);
        }
        assert(left@ =~= seq!['-' as u8] + after.filter(keep));
        j = j + 1;
    }
    assert(j == stop(token@));
    let ghost parts = seq!['-' as u8] + switches(token@).filter(keep);
    assert(left@ =~= parts);
    if j < token.len() && j + 1 == token.len() && token[j] == 'M' as u8 && i + 1 == argv.len() {
        return Err(ParseError::MissingValue("-M".to_owned()));
    }
    if background {
        inv.background = true;
    }
    if version {
        inv.version = true;
    }
    let mut detached: Option<Vec<u8>> = None;
    let mut used: bool = false;
    if j < token.len() && token[j] == 'M' as u8 {
        if inv.monitor.is_none() {
            inv.inject_at = inv.ssh_args.len();
        }
        if j + 1 < token.len() {
            inv.monitor = Some(copy_bytes(vstd::slice::slice_subrange(token, j + 1, token.len())));
            assert(token@.subrange(j + 1, token@.len() as int) =~= token@.skip(j + 1));
        } else {
            inv.monitor = Some(copy_bytes(&argv[i + 1]));
            used = true;
        }
        assert(left@ =~= kept(token@));
    } else {
        if j < token.len() && takes_a_value(token[j]) && j + 1 == token.len() && i + 1 < argv.len() {
            detached = Some(copy_bytes(&argv[i + 1]));
            used = true;
        }
        let ghost start = j;
        while j < token.len()
            invariant
                start <= j <= token.len(),
                start == stop(token@),
                left@ == parts + token@.subrange(start as int, j as int),
            decreases token.len() - j,
        {
            left.push(token[j]);
            j = j + 1;
            assert(left@ =~= parts + token@.subrange(start as int, j as int));
        }
        assert(token@.subrange(start as int, j as int) =~= token@.skip(stop(token@)));
        assert(left@ =~= kept(token@));
    }
    if left.len() > 1 {
        proof {
            lemma_contents_push(inv.ssh_args@, left);
        }
        inv.ssh_args.push(left);
    }
    if let Some(v) = detached {
        proof {
            lemma_contents_push(inv.ssh_args@, v);
        }
        inv.ssh_args.push(v);
    }
    Ok(used)
}

/// Resolve a long option's value from `--name=value`, where it stands at
/// `equals`, or from the argument that follows.
fn value_for(name: &str, argv: &[Vec<u8>], i: usize, equals: usize) -> (r: Result<
    (Vec<u8>, bool),
    ParseError,
>)
    requires
        i < argv.len(),
        2 <= equals <= argv@[i as int].len(),
        equals == find_from(argv@[i as int]@, '=' as u8, 2),
    ensures
        match r {
            Ok((v, used)) => long_value(contents(argv@), i as int) == Some((v@, used)),
            Err(e) => {
                &&& long_value(contents(argv@), i as int) is None
                &&& e@ == ParseErrorView::MissingValue("--"@ + name@)
            },
        },
{
    let token: &Vec<u8> = &argv[i];
    let ghost all = contents(argv@);
    assert(all[i as int] == token@);
    if equals < token.len() {
        let v = copy_bytes(vstd::slice::slice_subrange(token, equals + 1, token.len()));
        assert(v@ =~= token@.skip(equals + 1));
        Ok((v, false))
    } else if i + 1 < argv.len() {
        Ok((copy_bytes(&argv[i + 1]), true))
    } else {
        let mut o = "--".to_owned();
        o.append(name);
        Err(ParseError::MissingValue(o))
    }
}

/// Whether a long option has this name.
fn is_named(name: &[u8], text: &str) -> (b: bool)
    ensures
        b == (name@ == raw(text@)),
{
    same_bytes(name, text.as_bytes())
}

/// Handle one `--long` option. Says whether it used up the next argument as
/// well.
fn parse_long(inv: &mut Invocation, argv: &[Vec<u8>], i: usize) -> (r: Result<bool, ParseError>)
    requires
        i < argv.len(),
        is_long(argv@[i as int]@),
    ensures
        match r {
            Ok(used) => long(old(inv)@, contents(argv@), i as int) == Ok::<
                (InvocationView, bool),
                ParseErrorView,
            >((final(inv)@, used)),
            Err(e) => {
                &&& final(inv)@ == old(inv)@
                &&& long(old(inv)@, contents(argv@), i as int) == Err::<
                    (InvocationView, bool),
                    ParseErrorView,
                >(e@)
            },
        },
{
    let token: &Vec<u8> = &argv[i];
    assert(contents(argv@)[i as int] == token@);
    let mut j: usize = 2;
    while j < token.len() && token[j] != '=' as u8
        invariant
            2 <= j <= token.len(),
            find_from(token@, '=' as u8, j as int) == find_from(token@, '=' as u8, 2),
        decreases token.len() - j,
    {
        j = j + 1;
    }
    let name: &[u8] = vstd::slice::slice_subrange(token, 2, j);
    assert(name@ == long_name(token@));
    if is_named(name, "help") {
        inv.help = true;
        Ok(false)
    } else if is_named(name, "version") {
        inv.version = true;
        Ok(false)
    } else if is_named(name, "man") {
        inv.man = true;
        Ok(false)
    } else if is_named(name, "dry-run") {
        inv.dry_run = true;
        Ok(false)
    } else if is_named(name, "list") {
        inv.list = true;
        Ok(false)
    } else if is_named(name, "monitor") {
        let (v, used) = value_for("monitor", argv, i, j)?;
        inv.monitor_long = Some(v);
        Ok(used)
    } else if is_named(name, "session") {
        let (v, used) = value_for("session", argv, i, j)?;
        inv.session = Some(to_readable(&v));
        Ok(used)
    } else if is_named(name, "config") {
        let (v, used) = value_for("config", argv, i, j)?;
        inv.config = Some(v);
        Ok(used)
    } else {
        let mut o = "--".to_owned();
        o.append(to_readable(name).as_str());
        Err(ParseError::UnknownLongOption(o))
    }
}

/// Split the arguments, without the program's own name, into rash's options and
/// ssh's.
pub fn parse(argv: &[Vec<u8>]) -> (r: Result<Invocation, ParseError>)
    ensures
        match r {
            Ok(inv) => split(contents(argv@)) == Ok::<InvocationView, ParseErrorView>(inv@),
            Err(e) => split(contents(argv@)) == Err::<InvocationView, ParseErrorView>(e@),
        },
{
    let ghost all = contents(argv@);
    let mut inv = Invocation::default();
    let mut i: usize = 0;
    while i < argv.len()
        invariant
            i <= argv.len(),
            all == contents(argv@),
            split_from(inv@, all, i as int) == split(all),
        decreases argv.len() - i,
    {
        let token: &Vec<u8> = &argv[i];
        assert(all[i as int] == token@);
        if token.len() >= 2 && token[0] == '-' as u8 && token[1] == '-' as u8 {
            if token.len() == 2 {
                assert(token@ =~= separator());
                let ghost before = inv@;
                let ghost start = i;
                i = i + 1;
                assert(all.subrange(start + 1, i as int) =~= Seq::empty());
                assert(before.ssh_args + Seq::<Seq<u8>>::empty() =~= before.ssh_args);
                while i < argv.len()
                    invariant
                        start + 1 <= i <= argv.len(),
                        all == contents(argv@),
                        inv@ == (InvocationView {
                            ssh_args: before.ssh_args + all.subrange(start + 1, i as int),
                            ..before
                        }),
                    decreases argv.len() - i,
                {
                    let word = copy_bytes(&argv[i]);
                    proof {
                        lemma_contents_push(inv.ssh_args@, word);
                        assert(all[i as int] == word@);
                        assert((before.ssh_args + all.subrange(start + 1, i as int)).push(word@)
                            =~= before.ssh_args + all.subrange(start + 1, i + 1));
                    }
                    inv.ssh_args.push(word);
                    i = i + 1;
                }
                assert(all.subrange(start + 1, i as int) =~= all.skip(start + 1));
                return Ok(inv);
            }
            assert(token@ != separator());
            let used = parse_long(&mut inv, argv, i)?;
            if used {
                assert(i + 1 < argv.len());
                i = i + 1;
            }
        } else if token.len() < 2 || token[0] != '-' as u8 {
            let word = copy_bytes(token);
            proof {
                lemma_contents_push(inv.ssh_args@, word);
            }
            inv.ssh_args.push(word);
        } else {
            let used = parse_cluster(&mut inv, argv, i)?;
            if used {
                assert(i + 1 < argv.len());
                i = i + 1;
            }
        }
        i = i + 1;
    }
    Ok(inv)
}

// --------------------------------------------------------- the ssh command

/// A list with another one put in at a position, or at the end where the
/// position lies beyond it.
pub open spec fn spliced<T>(list: Seq<T>, at: nat, other: Seq<T>) -> Seq<T> {
    if at < list.len() {
        list.take(at as int) + other + list.skip(at as int)
    } else {
        list + other
    }
}

/// Splice the monitor forwards into `args` at `at`, clamped to the end.
pub fn splice_forwards(args: &mut Vec<Vec<u8>>, at: usize, forwards: Vec<Vec<u8>>)
    ensures
        final(args)@ == spliced(old(args)@, at as nat, forwards@),
        contents(final(args)@) == spliced(contents(old(args)@), at as nat, contents(forwards@)),
{
    let ghost whole = args@;
    let mut middle = forwards;
    if at < args.len() {
        let mut tail = args.split_off(at);
        args.append(&mut middle);
        args.append(&mut tail);
        assert(args@ =~= spliced(whole, at as nat, forwards@));
    } else {
        args.append(&mut middle);
    }
    assert(contents(args@) =~= spliced(contents(whole), at as nat, contents(forwards@)));
}

/// Insert the monitor forwards at the position `-M` occupied.
pub fn inject_forwards(inv: &mut Invocation, forwards: Vec<Vec<u8>>)
    ensures
        final(inv)@ == (InvocationView {
            ssh_args: spliced(old(inv)@.ssh_args, old(inv)@.inject_at, contents(forwards@)),
            ..old(inv)@
        }),
{
    let at: usize = inv.inject_at;
    splice_forwards(&mut inv.ssh_args, at, forwards);
}

/// Whether a shell takes a character as it stands.
pub open spec fn is_plain(c: char) -> bool {
    ('0' <= c && c <= '9') || ('A' <= c && c <= 'Z') || ('a' <= c && c <= 'z') || c == '@' || c
        == '%' || c == '+' || c == '=' || c == ':' || c == ',' || c == '.' || c == '/' || c == '-'
        || c == '_'
}

/// One character inside single quotes. A quote has to leave them and come back.
pub open spec fn escaped_char(c: char) -> Seq<char> {
    if c == '\'' {
        seq!['\'', '\\', '\'', '\'']
    } else {
        seq![c]
    }
}

/// A text inside single quotes.
pub open spec fn escaped(t: Seq<char>) -> Seq<char>
    decreases t.len(),
{
    if t.len() == 0 {
        Seq::empty()
    } else {
        escaped(t.drop_last()) + escaped_char(t.last())
    }
}

/// A text the way a shell needs it written: as it stands where every character
/// is plain, and in single quotes otherwise.
pub open spec fn quoted(t: Seq<char>) -> Seq<char> {
    if t.len() > 0 && forall|i: int| 0 <= i < t.len() ==> is_plain(#[trigger] t[i]) {
        t
    } else {
        seq!['\''] + escaped(t) + seq!['\'']
    }
}

/// Render an argument the way a shell would need it written.
pub fn quote(arg: &[u8]) -> (s: String)
    ensures
        s@ == quoted(readable(arg@)),
{
    quote_text(to_readable(arg).as_str())
}

/// Render a text the way a shell would need it written.
pub fn quote_text(t: &str) -> (s: String)
    ensures
        s@ == quoted(t@),
{
    let mut plain: bool = true;
    let mut inner = String::new();
    for c in it: t.chars()
        invariant
            it.seq() == t@,
            plain == (forall|i: int| 0 <= i < it.index() ==> is_plain(#[trigger] t@[i])),
            inner@ == escaped(t@.take(it.index() as int)),
    {
        let ghost at = it.index() as int;
        assert(c == t@[at]);
        let ok: bool = ('0' <= c && c <= '9') || ('A' <= c && c <= 'Z') || ('a' <= c && c <= 'z')
            || c == '@' || c == '%' || c == '+' || c == '=' || c == ':' || c == ',' || c == '.' || c
            == '/' || c == '-' || c == '_';
        if !ok {
            plain = false;
        }
        let ghost before = inner@;
        if c == '\'' {
            inner.push('\'');
            inner.push('\\');
            inner.push('\'');
            inner.push('\'');
        } else {
            inner.push(c);
        }
        assert(inner@ =~= before + escaped_char(c));
        assert(t@.take(at + 1).drop_last() =~= t@.take(at));
    }
    assert(t@.take(t@.len() as int) =~= t@);
    if plain && !t.is_empty() {
        return t.to_owned();
    }
    let mut s = String::new();
    s.push('\'');
    s.append(inner.as_str());
    s.push('\'');
    assert(s@ =~= seq!['\''] + escaped(t@) + seq!['\'']);
    s
}

} // verus!
