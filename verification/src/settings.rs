//! The optional configuration file.
//!
//! Nothing here is required: rash works entirely from the command line and the
//! environment. The file exists so that a tunnel that is run often can be named
//! once and started with `rash --session homelab`. [`crate::layers`] puts a section
//! beneath the command line and the environment, and [`crate::start`] lists the
//! sessions.
//!
//! ```toml
//! [defaults]
//! poll = 600
//! gatetime = 30
//!
//! [session.homelab]
//! monitor  = 20000                                    # or "20000:7", 0
//! ssh_args = ["-N", "-R", "2200:localhost:22", "me@host"]
//! poll     = 300
//! message  = "homelab"
//! ```

use crate::cli::{bytes_in, text_in};
use crate::config::texts;
use crate::text::{
    concat3, copy_bytes, decimal, decimal_text, to_readable, readable, same_text,
};
use vstd::prelude::*;
use vstd::utf8::encode_utf8;

verus! {

/// A monitor spec, which the file may express as a bare integer or as a string.
#[derive(Debug, PartialEq, Eq)]
pub enum Spec {
    Port(u32),
    Text(String),
}

/// What a [`Spec`] holds.
pub enum SpecView {
    Port(u32),
    Text(Seq<char>),
}

impl View for Spec {
    type V = SpecView;

    open spec fn view(&self) -> SpecView {
        match *self {
            Spec::Port(n) => SpecView::Port(n),
            Spec::Text(s) => SpecView::Text(s@),
        }
    }
}

impl Clone for Spec {
    fn clone(&self) -> (r: Self)
        ensures
            r@ == self@,
    {
        match self {
            Spec::Port(n) => Spec::Port(*n),
            Spec::Text(s) => Spec::Text(s.as_str().to_owned()),
        }
    }
}

impl Spec {
    /// The spec as it would be written on the command line.
    pub fn as_text(&self) -> (s: String)
        ensures
            s@ == match self@ {
                SpecView::Port(n) => decimal(n as nat),
                SpecView::Text(t) => t,
            },
    {
        match self {
            Spec::Port(n) => decimal_text(*n as u64),
            Spec::Text(t) => t.as_str().to_owned(),
        }
    }
}

/// One `[defaults]` or `[session.<name>]` block. Every field is optional; an
/// absent one defers to the layer below.
#[derive(Debug, PartialEq, Eq)]
pub struct Section {
    pub monitor: Option<Spec>,
    pub ssh_args: Option<Vec<String>>,
    pub ssh_path: Option<Vec<u8>>,
    pub poll: Option<u64>,
    pub first_poll: Option<u64>,
    pub gatetime: Option<u64>,
    pub maxstart: Option<i64>,
    pub maxlifetime: Option<u64>,
    pub message: Option<String>,
    pub pidfile: Option<Vec<u8>>,
    pub monitor_host: Option<String>,
    pub kill_timeout: Option<u64>,
    /// `syslog`, `stderr`, or a path to a file.
    pub log: Option<String>,
    /// `text` or `json`. It is read, but lines are written as text either way.
    pub log_format: Option<String>,
    /// The name of a syslog level, or the numbers 0-7 as a string.
    pub loglevel: Option<String>,
}

/// What a [`Section`] holds.
#[verifier::ext_equal]
pub struct SectionView {
    pub monitor: Option<SpecView>,
    pub ssh_args: Option<Seq<Seq<char>>>,
    pub ssh_path: Option<Seq<u8>>,
    pub poll: Option<u64>,
    pub first_poll: Option<u64>,
    pub gatetime: Option<u64>,
    pub maxstart: Option<i64>,
    pub maxlifetime: Option<u64>,
    pub message: Option<Seq<char>>,
    pub pidfile: Option<Seq<u8>>,
    pub monitor_host: Option<Seq<char>>,
    pub kill_timeout: Option<u64>,
    pub log: Option<Seq<char>>,
    pub log_format: Option<Seq<char>>,
    pub loglevel: Option<Seq<char>>,
}

/// What an optional spec holds.
pub open spec fn spec_in(o: Option<Spec>) -> Option<SpecView> {
    match o {
        Some(s) => Some(s@),
        None => None,
    }
}

/// What an optional list of texts holds.
pub open spec fn list_in(o: Option<Vec<String>>) -> Option<Seq<Seq<char>>> {
    match o {
        Some(l) => Some(texts(l@)),
        None => None,
    }
}

impl View for Section {
    type V = SectionView;

    open spec fn view(&self) -> SectionView {
        SectionView {
            monitor: spec_in(self.monitor),
            ssh_args: list_in(self.ssh_args),
            ssh_path: bytes_in(self.ssh_path),
            poll: self.poll,
            first_poll: self.first_poll,
            gatetime: self.gatetime,
            maxstart: self.maxstart,
            maxlifetime: self.maxlifetime,
            message: text_in(self.message),
            pidfile: bytes_in(self.pidfile),
            monitor_host: text_in(self.monitor_host),
            kill_timeout: self.kill_timeout,
            log: text_in(self.log),
            log_format: text_in(self.log_format),
            loglevel: text_in(self.loglevel),
        }
    }
}

/// A section that sets nothing.
pub open spec fn nothing_set() -> SectionView {
    SectionView {
        monitor: None,
        ssh_args: None,
        ssh_path: None,
        poll: None,
        first_poll: None,
        gatetime: None,
        maxstart: None,
        maxlifetime: None,
        message: None,
        pidfile: None,
        monitor_host: None,
        kill_timeout: None,
        log: None,
        log_format: None,
        loglevel: None,
    }
}

/// A value, or the one of the layer below where it is absent.
pub open spec fn or<T>(over: Option<T>, under: Option<T>) -> Option<T> {
    if over is Some {
        over
    } else {
        under
    }
}

/// One section laid over another: every value that it sets, and the values of
/// the other for the rest.
pub open spec fn laid_over(over: SectionView, under: SectionView) -> SectionView {
    SectionView {
        monitor: or(over.monitor, under.monitor),
        ssh_args: or(over.ssh_args, under.ssh_args),
        ssh_path: or(over.ssh_path, under.ssh_path),
        poll: or(over.poll, under.poll),
        first_poll: or(over.first_poll, under.first_poll),
        gatetime: or(over.gatetime, under.gatetime),
        maxstart: or(over.maxstart, under.maxstart),
        maxlifetime: or(over.maxlifetime, under.maxlifetime),
        message: or(over.message, under.message),
        pidfile: or(over.pidfile, under.pidfile),
        monitor_host: or(over.monitor_host, under.monitor_host),
        kill_timeout: or(over.kill_timeout, under.kill_timeout),
        log: or(over.log, under.log),
        log_format: or(over.log_format, under.log_format),
        loglevel: or(over.loglevel, under.loglevel),
    }
}

fn copy_spec(o: &Option<Spec>) -> (r: Option<Spec>)
    ensures
        spec_in(r) == spec_in(*o),
{
    match o {
        Some(s) => Some(s.clone()),
        None => None,
    }
}

fn copy_text(o: &Option<String>) -> (r: Option<String>)
    ensures
        text_in(r) == text_in(*o),
{
    match o {
        Some(s) => Some(s.as_str().to_owned()),
        None => None,
    }
}

fn copy_path(o: &Option<Vec<u8>>) -> (r: Option<Vec<u8>>)
    ensures
        bytes_in(r) == bytes_in(*o),
{
    match o {
        Some(p) => Some(copy_bytes(p)),
        None => None,
    }
}

fn copy_list(o: &Option<Vec<String>>) -> (r: Option<Vec<String>>)
    ensures
        list_in(r) == list_in(*o),
{
    match o {
        Some(list) => {
            let mut copy: Vec<String> = Vec::new();
            let mut i: usize = 0;
            while i < list.len()
                invariant
                    i <= list.len(),
                    texts(copy@) == texts(list@).take(i as int),
                decreases list.len() - i,
            {
                let ghost before = copy@;
                let s = list[i].as_str().to_owned();
                assert(s@ == texts(list@)[i as int]);
                copy.push(s);
                assert(texts(copy@) =~= texts(before).push(s@));
                i = i + 1;
                assert(texts(copy@) =~= texts(list@).take(i as int));
            }
            assert(texts(list@).take(i as int) =~= texts(list@));
            Some(copy)
        },
        None => None,
    }
}

fn lay_spec(slot: &mut Option<Spec>, over: &Option<Spec>)
    ensures
        spec_in(*final(slot)) == or(spec_in(*over), spec_in(*old(slot))),
{
    if over.is_some() {
        *slot = copy_spec(over);
    }
}

fn lay_list(slot: &mut Option<Vec<String>>, over: &Option<Vec<String>>)
    ensures
        list_in(*final(slot)) == or(list_in(*over), list_in(*old(slot))),
{
    if over.is_some() {
        *slot = copy_list(over);
    }
}

fn lay_path(slot: &mut Option<Vec<u8>>, over: &Option<Vec<u8>>)
    ensures
        bytes_in(*final(slot)) == or(bytes_in(*over), bytes_in(*old(slot))),
{
    if over.is_some() {
        *slot = copy_path(over);
    }
}

fn lay_text(slot: &mut Option<String>, over: &Option<String>)
    ensures
        text_in(*final(slot)) == or(text_in(*over), text_in(*old(slot))),
{
    if over.is_some() {
        *slot = copy_text(over);
    }
}

fn lay_number<T: Copy>(slot: &mut Option<T>, over: &Option<T>)
    ensures
        *final(slot) == or(*over, *old(slot)),
{
    if over.is_some() {
        *slot = *over;
    }
}

impl Default for Section {
    fn default() -> (s: Self)
        ensures
            s@ == nothing_set(),
    {
        Section {
            monitor: None,
            ssh_args: None,
            ssh_path: None,
            poll: None,
            first_poll: None,
            gatetime: None,
            maxstart: None,
            maxlifetime: None,
            message: None,
            pidfile: None,
            monitor_host: None,
            kill_timeout: None,
            log: None,
            log_format: None,
            loglevel: None,
        }
    }
}

impl Clone for Section {
    fn clone(&self) -> (r: Self)
        ensures
            r@ == self@,
    {
        Section {
            monitor: copy_spec(&self.monitor),
            ssh_args: copy_list(&self.ssh_args),
            ssh_path: copy_path(&self.ssh_path),
            poll: self.poll,
            first_poll: self.first_poll,
            gatetime: self.gatetime,
            maxstart: self.maxstart,
            maxlifetime: self.maxlifetime,
            message: copy_text(&self.message),
            pidfile: copy_path(&self.pidfile),
            monitor_host: copy_text(&self.monitor_host),
            kill_timeout: self.kill_timeout,
            log: copy_text(&self.log),
            log_format: copy_text(&self.log_format),
            loglevel: copy_text(&self.loglevel),
        }
    }
}

impl Section {
    /// Take every value that `other` sets, leaving the rest alone.
    pub fn overlay(&mut self, other: &Section)
        ensures
            final(self)@ == laid_over(other@, old(self)@),
    {
        lay_spec(&mut self.monitor, &other.monitor);
        lay_list(&mut self.ssh_args, &other.ssh_args);
        lay_path(&mut self.ssh_path, &other.ssh_path);
        lay_number(&mut self.poll, &other.poll);
        lay_number(&mut self.first_poll, &other.first_poll);
        lay_number(&mut self.gatetime, &other.gatetime);
        lay_number(&mut self.maxstart, &other.maxstart);
        lay_number(&mut self.maxlifetime, &other.maxlifetime);
        lay_text(&mut self.message, &other.message);
        lay_path(&mut self.pidfile, &other.pidfile);
        lay_text(&mut self.monitor_host, &other.monitor_host);
        lay_number(&mut self.kill_timeout, &other.kill_timeout);
        lay_text(&mut self.log, &other.log);
        lay_text(&mut self.log_format, &other.log_format);
        lay_text(&mut self.loglevel, &other.loglevel);
    }
}

// ------------------------------------------------------------------- the file

/// Whether one byte string comes before another, as in a dictionary.
pub open spec fn precedes(a: Seq<u8>, b: Seq<u8>) -> bool
    decreases a.len(),
{
    if b.len() == 0 {
        false
    } else if a.len() == 0 {
        true
    } else if a[0] != b[0] {
        a[0] < b[0]
    } else {
        precedes(a.skip(1), b.skip(1))
    }
}

/// Whether one name comes before another.
pub open spec fn named_before(a: Seq<char>, b: Seq<char>) -> bool {
    precedes(encode_utf8(a), encode_utf8(b))
}

/// A parsed configuration file.
#[derive(Debug, PartialEq, Eq)]
pub struct File {
    pub defaults: Section,
    /// Written as `[session.<name>]`. The names are sorted, and none occurs twice.
    pub sessions: Vec<(String, Section)>,
}

/// What a [`File`] holds.
#[verifier::ext_equal]
pub struct FileView {
    pub defaults: SectionView,
    pub sessions: Seq<(Seq<char>, SectionView)>,
}

/// A list of named sections, each taken by what it holds.
pub open spec fn sections_in(list: Seq<(String, Section)>) -> Seq<(Seq<char>, SectionView)> {
    list.map_values(|p: (String, Section)| (p.0@, p.1@))
}

impl View for File {
    type V = FileView;

    open spec fn view(&self) -> FileView {
        FileView { defaults: self.defaults@, sessions: sections_in(self.sessions@) }
    }
}

/// The section that a name stands for.
pub open spec fn find(list: Seq<(Seq<char>, SectionView)>, name: Seq<char>) -> Option<SectionView>
    decreases list.len(),
{
    if list.len() == 0 {
        None
    } else if list[0].0 == name {
        Some(list[0].1)
    } else {
        find(list.skip(1), name)
    }
}

impl FileView {
    /// The names are in order, so none occurs twice.
    pub open spec fn wf(self) -> bool {
        forall|i: int, j: int|
            0 <= i < j < self.sessions.len() ==> named_before(
                (#[trigger] self.sessions[i]).0,
                (#[trigger] self.sessions[j]).0,
            )
    }

    /// The names of the sessions.
    pub open spec fn names(self) -> Seq<Seq<char>> {
        self.sessions.map_values(|p: (Seq<char>, SectionView)| p.0)
    }

    /// The section of the session that has this name.
    pub open spec fn session(self, name: Seq<char>) -> Option<SectionView> {
        find(self.sessions, name)
    }
}

/// Names, with commas between them.
pub open spec fn joined(names: Seq<Seq<char>>) -> Seq<char>
    decreases names.len(),
{
    if names.len() == 0 {
        Seq::empty()
    } else if names.len() == 1 {
        names[0]
    } else {
        joined(names.drop_last()) + ", "@ + names.last()
    }
}

/// What to say about the sessions that there are.
pub open spec fn hinted(names: Seq<Seq<char>>) -> Seq<char> {
    if names.len() == 0 {
        " (it defines none)"@
    } else {
        " (it has: "@ + joined(names) + ")"@
    }
}

/// The effective section: the defaults, with a named session laid over them.
pub open spec fn effective(f: FileView, session: Option<Seq<char>>) -> Result<
    SectionView,
    Seq<char>,
> {
    match session {
        None => Ok(f.defaults),
        Some(name) => match f.session(name) {
            Some(s) => Ok(laid_over(s, f.defaults)),
            None => Err(
                "no session named \""@ + name + "\" in the config file"@ + hinted(f.names()),
            ),
        },
    }
}

/// What an optional text slice holds.
pub open spec fn str_in(o: Option<&str>) -> Option<Seq<char>> {
    match o {
        Some(s) => Some(s@),
        None => None,
    }
}

// ------------------------------------------------------------ the order of names

proof fn lemma_total(a: Seq<u8>, b: Seq<u8>)
    ensures
        precedes(a, b) || precedes(b, a) || a == b,
        !(precedes(a, b) && precedes(b, a)),
        !precedes(a, a),
    decreases a.len(),
{
    if a.len() > 0 {
        lemma_total(a.skip(1), a.skip(1));
    }
    if a.len() > 0 && b.len() > 0 {
        lemma_total(a.skip(1), b.skip(1));
        if a[0] == b[0] && a.skip(1) == b.skip(1) {
            assert(a =~= seq![a[0]] + a.skip(1));
            assert(b =~= seq![b[0]] + b.skip(1));
        }
    } else if a.len() == 0 && b.len() == 0 {
        assert(a =~= b);
    }
}

proof fn lemma_transitive(a: Seq<u8>, b: Seq<u8>, c: Seq<u8>)
    requires
        precedes(a, b),
        precedes(b, c),
    ensures
        precedes(a, c),
    decreases a.len(),
{
    if a.len() > 0 && a[0] == b[0] && b[0] == c[0] {
        lemma_transitive(a.skip(1), b.skip(1), c.skip(1));
    }
}

/// Of two names, one comes before the other, unless they are the same.
proof fn lemma_names_compare(a: Seq<char>, b: Seq<char>)
    ensures
        named_before(a, b) || named_before(b, a) || a == b,
        !(named_before(a, b) && named_before(b, a)),
        !named_before(a, a),
{
    lemma_total(encode_utf8(a), encode_utf8(b));
    lemma_total(encode_utf8(a), encode_utf8(a));
    vstd::utf8::encode_utf8_decode_utf8(a);
    vstd::utf8::encode_utf8_decode_utf8(b);
}

/// Whether one name comes before another.
fn is_before(a: &str, b: &str) -> (r: bool)
    ensures
        r == named_before(a@, b@),
{
    let x = a.as_bytes();
    let y = b.as_bytes();
    let mut i: usize = 0;
    assert(x@.skip(0) =~= x@);
    assert(y@.skip(0) =~= y@);
    while i < x.len() && i < y.len() && x[i] == y[i]
        invariant
            i <= x.len(),
            i <= y.len(),
            precedes(x@, y@) == precedes(x@.skip(i as int), y@.skip(i as int)),
        decreases x.len() - i,
    {
        assert(x@.skip(i as int).skip(1) =~= x@.skip(i + 1));
        assert(y@.skip(i as int).skip(1) =~= y@.skip(i + 1));
        i = i + 1;
    }
    if i >= y.len() {
        false
    } else {
        i >= x.len() || x[i] < y[i]
    }
}

/// Whether the names in a list are in order.
spec fn in_order(list: Seq<(Seq<char>, SectionView)>) -> bool {
    forall|i: int, j: int|
        0 <= i < j < list.len() ==> named_before(
            (#[trigger] list[i]).0,
            (#[trigger] list[j]).0,
        )
}

/// A name is found where it stands.
proof fn lemma_found(list: Seq<(Seq<char>, SectionView)>, i: int)
    requires
        in_order(list),
        0 <= i < list.len(),
    ensures
        find(list, list[i].0) == Some(list[i].1),
    decreases list.len(),
{
    if i > 0 {
        lemma_names_compare(list[0].0, list[i].0);
        let rest = list.skip(1);
        assert forall|a: int, b: int| 0 <= a < b < rest.len() implies named_before(
            (#[trigger] rest[a]).0,
            (#[trigger] rest[b]).0,
        ) by {
            assert(rest[a] == list[a + 1]);
            assert(rest[b] == list[b + 1]);
        }
        lemma_found(rest, i - 1);
    }
}

/// A name that stands nowhere is not found.
proof fn lemma_absent(list: Seq<(Seq<char>, SectionView)>, name: Seq<char>)
    requires
        forall|i: int| 0 <= i < list.len() ==> (#[trigger] list[i]).0 != name,
    ensures
        find(list, name) is None,
    decreases list.len(),
{
    if list.len() > 0 {
        let rest = list.skip(1);
        assert forall|i: int| 0 <= i < rest.len() implies (#[trigger] rest[i]).0 != name by {
            assert(rest[i] == list[i + 1]);
        }
        lemma_absent(rest, name);
    }
}

/// Two lists in order that hold the same entries but for one name find the same
/// sections, but for that name.
proof fn lemma_same_but_one(
    before: Seq<(Seq<char>, SectionView)>,
    after: Seq<(Seq<char>, SectionView)>,
    entry: (Seq<char>, SectionView),
    at: int,
)
    requires
        in_order(before),
        in_order(after),
        0 <= at < after.len(),
        after[at] == entry,
        forall|i: int|
            0 <= i < before.len() && (#[trigger] before[i]).0 != entry.0 ==> after.contains(
                before[i],
            ),
        forall|i: int|
            0 <= i < after.len() && (#[trigger] after[i]).0 != entry.0 ==> before.contains(
                after[i],
            ),
    ensures
        forall|n: Seq<char>| #[trigger]
            find(after, n) == if n == entry.0 {
                Some(entry.1)
            } else {
                find(before, n)
            },
{
    assert forall|n: Seq<char>| #[trigger]
        find(after, n) == if n == entry.0 {
            Some(entry.1)
        } else {
            find(before, n)
        } by {
        if n == entry.0 {
            lemma_found(after, at);
        } else if exists|i: int| 0 <= i < before.len() && (#[trigger] before[i]).0 == n {
            let i = choose|i: int| 0 <= i < before.len() && (#[trigger] before[i]).0 == n;
            let j = choose|j: int| 0 <= j < after.len() && after[j] == before[i];
            lemma_found(before, i);
            lemma_found(after, j);
        } else {
            lemma_absent(before, n);
            assert forall|j: int| 0 <= j < after.len() implies (#[trigger] after[j]).0 != n by {
                if after[j].0 == n {
                    let i = choose|i: int| 0 <= i < before.len() && before[i] == after[j];
                    assert(before[i].0 == n);
                }
            }
            lemma_absent(after, n);
        }
    }
}

proof fn lemma_replaced(
    list: Seq<(Seq<char>, SectionView)>,
    at: int,
    entry: (Seq<char>, SectionView),
)
    requires
        in_order(list),
        0 <= at < list.len(),
        list[at].0 == entry.0,
    ensures
        in_order(list.update(at, entry)),
        forall|n: Seq<char>| #[trigger]
            find(list.update(at, entry), n) == if n == entry.0 {
                Some(entry.1)
            } else {
                find(list, n)
            },
{
    let after = list.update(at, entry);
    assert forall|i: int, j: int| 0 <= i < j < after.len() implies named_before(
        (#[trigger] after[i]).0,
        (#[trigger] after[j]).0,
    ) by {
        assert(after[i].0 == list[i].0);
        assert(after[j].0 == list[j].0);
    }
    assert forall|i: int| 0 <= i < list.len() && (#[trigger] list[i]).0
        != entry.0 implies after.contains(list[i]) by {
        assert(after[i] == list[i]);
    }
    assert forall|i: int| 0 <= i < after.len() && (#[trigger] after[i]).0
        != entry.0 implies list.contains(after[i]) by {
        assert(after[i] == list[i]);
    }
    lemma_same_but_one(list, after, entry, at);
}

proof fn lemma_inserted(
    list: Seq<(Seq<char>, SectionView)>,
    at: int,
    entry: (Seq<char>, SectionView),
)
    requires
        in_order(list),
        0 <= at <= list.len(),
        forall|k: int| 0 <= k < at ==> named_before((#[trigger] list[k]).0, entry.0),
        at < list.len() ==> named_before(entry.0, list[at].0),
    ensures
        in_order(list.insert(at, entry)),
        forall|n: Seq<char>| #[trigger]
            find(list.insert(at, entry), n) == if n == entry.0 {
                Some(entry.1)
            } else {
                find(list, n)
            },
{
    let after = list.insert(at, entry);
    assert forall|i: int, j: int| 0 <= i < j < after.len() implies named_before(
        (#[trigger] after[i]).0,
        (#[trigger] after[j]).0,
    ) by {
        let p = if i < at {
            list[i]
        } else {
            list[i - 1]
        };
        let q = if j < at {
            list[j]
        } else {
            list[j - 1]
        };
        if i == at {
            if j - 1 > at {
                lemma_transitive(
                    encode_utf8(entry.0),
                    encode_utf8(list[at].0),
                    encode_utf8(q.0),
                );
            }
        }
    }
    assert forall|i: int| 0 <= i < list.len() && (#[trigger] list[i]).0
        != entry.0 implies after.contains(list[i]) by {
        if i < at {
            assert(after[i] == list[i]);
        } else {
            assert(after[i + 1] == list[i]);
        }
    }
    assert forall|i: int| 0 <= i < after.len() && (#[trigger] after[i]).0
        != entry.0 implies list.contains(after[i]) by {
        if i < at {
            assert(after[i] == list[i]);
        } else {
            assert(after[i] == list[i - 1]);
        }
    }
    lemma_same_but_one(list, after, entry, at);
}

impl Default for File {
    fn default() -> (f: Self)
        ensures
            f@ == (FileView { defaults: nothing_set(), sessions: Seq::empty() }),
            f@.wf(),
    {
        let f = File { defaults: Section::default(), sessions: Vec::new() };
        assert(f@.sessions =~= Seq::empty());
        f
    }
}

impl Clone for File {
    fn clone(&self) -> (r: Self)
        ensures
            r@ == self@,
    {
        let mut sessions: Vec<(String, Section)> = Vec::new();
        let ghost all = self@.sessions;
        let mut i: usize = 0;
        assert(sections_in(sessions@) =~= all.take(0));
        while i < self.sessions.len()
            invariant
                i <= self.sessions.len(),
                all == self@.sessions,
                sections_in(sessions@) == all.take(i as int),
            decreases self.sessions.len() - i,
        {
            let entry: &(String, Section) = &self.sessions[i];
            let copy = (entry.0.as_str().to_owned(), entry.1.clone());
            let ghost before = sessions@;
            assert((copy.0@, copy.1@) == all[i as int]);
            sessions.push(copy);
            assert(sections_in(sessions@) =~= sections_in(before).push(all[i as int]));
            i = i + 1;
            assert(sections_in(sessions@) =~= all.take(i as int));
        }
        assert(all.take(i as int) =~= all);
        File { defaults: self.defaults.clone(), sessions }
    }
}

impl File {
    /// The effective section: `[defaults]` with the named session laid over it.
    pub fn section(&self, session: Option<&str>) -> (r: Result<Section, String>)
        ensures
            match r {
                Ok(s) => effective(self@, str_in(session)) == Ok::<SectionView, Seq<char>>(s@),
                Err(e) => effective(self@, str_in(session)) == Err::<SectionView, Seq<char>>(e@),
            },
    {
        let mut merged = self.defaults.clone();
        if let Some(name) = session {
            match self.lookup(name) {
                Some(i) => {
                    merged.overlay(&self.sessions[i].1);
                },
                None => {
                    let mut e = concat3("no session named \"", name, "\" in the config file");
                    e.append(self.hint().as_str());
                    return Err(e);
                },
            }
        }
        Ok(merged)
    }

    /// Add a session, in the place of the one that has this name, if there is one.
    pub fn insert(&mut self, name: String, section: Section)
        requires
            old(self)@.wf(),
        ensures
            final(self)@.wf(),
            final(self)@.defaults == old(self)@.defaults,
            forall|n: Seq<char>| #[trigger]
                final(self)@.session(n) == if n == name@ {
                    Some(section@)
                } else {
                    old(self)@.session(n)
                },
    {
        let ghost list = self@.sessions;
        let ghost entry = (name@, section@);
        let mut i: usize = 0;
        while i < self.sessions.len() && is_before(self.sessions[i].0.as_str(), name.as_str())
            invariant
                i <= self.sessions.len(),
                list == self@.sessions,
                self@.wf(),
                forall|k: int| 0 <= k < i ==> named_before((#[trigger] list[k]).0, name@),
            decreases self.sessions.len() - i,
        {
            assert(list[i as int].0 == self.sessions@[i as int].0@);
            i = i + 1;
        }
        if i < self.sessions.len() && same_text(self.sessions[i].0.as_str(), name.as_str()) {
            assert(list[i as int].0 == name@);
            self.sessions.set(i, (name, section));
            assert(self@.sessions =~= list.update(i as int, entry));
            proof {
                lemma_replaced(list, i as int, entry);
            }
        } else {
            proof {
                if i < list.len() {
                    assert(list[i as int].0 == self.sessions@[i as int].0@);
                    lemma_names_compare(list[i as int].0, name@);
                }
            }
            self.sessions.insert(i, (name, section));
            assert(self@.sessions =~= list.insert(i as int, entry));
            proof {
                lemma_inserted(list, i as int, entry);
            }
        }
    }

    fn lookup(&self, name: &str) -> (r: Option<usize>)
        ensures
            match r {
                Some(i) => {
                    &&& i < self.sessions.len()
                    &&& self.sessions@[i as int].0@ == name@
                    &&& self@.session(name@) == Some(self.sessions@[i as int].1@)
                },
                None => self@.session(name@) is None,
            },
    {
        let ghost list = self@.sessions;
        let mut i: usize = 0;
        assert(list.skip(0) =~= list);
        while i < self.sessions.len()
            invariant
                i <= self.sessions.len(),
                list == self@.sessions,
                find(list, name@) == find(list.skip(i as int), name@),
            decreases self.sessions.len() - i,
        {
            assert(list.skip(i as int)[0] == list[i as int]);
            if same_text(self.sessions[i].0.as_str(), name) {
                return Some(i);
            }
            assert(list.skip(i as int).skip(1) =~= list.skip(i + 1));
            i = i + 1;
        }
        None
    }

    /// The session names, sorted.
    pub fn session_names(&self) -> (names: Vec<&str>)
        ensures
            names@.map_values(|s: &str| s@) == self@.names(),
            self@.wf() ==> forall|i: int, j: int|
                0 <= i < j < names.len() ==> named_before(
                    (#[trigger] names@[i])@,
                    (#[trigger] names@[j])@,
                ),
    {
        let mut names: Vec<&str> = Vec::new();
        let mut i: usize = 0;
        while i < self.sessions.len()
            invariant
                i <= self.sessions.len(),
                names@.map_values(|s: &str| s@) == self@.names().take(i as int),
            decreases self.sessions.len() - i,
        {
            let ghost before = names@;
            let name: &str = self.sessions[i].0.as_str();
            assert(name@ == self@.names()[i as int]);
            names.push(name);
            assert(names@.map_values(|s: &str| s@) =~= before.map_values(|s: &str| s@).push(name@));
            i = i + 1;
            assert(names@.map_values(|s: &str| s@) =~= self@.names().take(i as int));
        }
        assert(self@.names().take(i as int) =~= self@.names());
        proof {
            let shown = names@.map_values(|s: &str| s@);
            assert(shown.len() == self@.sessions.len());
            assert forall|a: int| 0 <= a < names.len() implies (#[trigger] names@[a])@
                == self@.sessions[a].0 by {
                assert(shown[a] == self@.names()[a]);
            }
        }
        names
    }

    fn hint(&self) -> (s: String)
        ensures
            s@ == hinted(self@.names()),
    {
        let names = self.session_names();
        let ghost all = self@.names();
        assert(all.len() == names@.map_values(|s: &str| s@).len());
        if names.len() == 0 {
            return " (it defines none)".to_owned();
        }
        let mut list = String::new();
        let mut i: usize = 0;
        while i < names.len()
            invariant
                i <= names.len(),
                all.len() == names.len(),
                all == names@.map_values(|s: &str| s@),
                list@ == joined(all.take(i as int)),
            decreases names.len() - i,
        {
            if i > 0 {
                list.append(", ");
            }
            list.append(names[i]);
            proof {
                let upto = all.take(i + 1);
                assert(upto.drop_last() =~= all.take(i as int));
                assert(upto.last() == names@[i as int]@);
                assert(list@ =~= joined(upto));
            }
            i = i + 1;
        }
        assert(all.take(i as int) =~= all);
        concat3(" (it has: ", list.as_str(), ")")
    }
}

// ---------------------------------------------------------------- reading one

/// What came of reading a configuration file.
#[derive(Debug, PartialEq, Eq)]
pub enum Reading {
    /// Its text was read, and then understood or not.
    Parsed(Result<File, String>),
    /// There is none.
    Missing,
    /// It could not be read.
    Failed(String),
}

/// The configuration that a file gives. A missing file is not an error: most
/// runs have none.
pub fn loaded(path: &[u8], reading: Reading) -> (r: Result<File, String>)
    ensures
        match reading {
            Reading::Parsed(Ok(f)) => r == Ok::<File, String>(f),
            Reading::Missing => {
                &&& r is Ok
                &&& r->Ok_0@ == (FileView { defaults: nothing_set(), sessions: Seq::empty() })
            },
            Reading::Parsed(Err(e)) => r is Err && r->Err_0@ == readable(path@) + ": "@ + e@,
            Reading::Failed(e) => r is Err && r->Err_0@ == readable(path@) + ": "@ + e@,
        },
{
    match reading {
        Reading::Parsed(Ok(f)) => Ok(f),
        Reading::Missing => Ok(File::default()),
        Reading::Parsed(Err(e)) => Err(
            concat3(to_readable(path).as_str(), ": ", e.as_str()),
        ),
        Reading::Failed(e) => Err(concat3(to_readable(path).as_str(), ": ", e.as_str())),
    }
}

// -------------------------------------------------------------------- laws

/// In every field a session decides where it sets it, and the defaults decide
/// where it does not.
pub proof fn law_a_session_outranks_the_defaults(f: FileView, name: Seq<char>)
    requires
        f.session(name) is Some,
    ensures
        effective(f, Some(name)) is Ok,
        ({
            let s = f.session(name)->Some_0;
            let d = f.defaults;
            let e = effective(f, Some(name))->Ok_0;
            &&& s.monitor is Some ==> e.monitor == s.monitor
            &&& s.monitor is None ==> e.monitor == d.monitor
            &&& s.ssh_args is Some ==> e.ssh_args == s.ssh_args
            &&& s.ssh_args is None ==> e.ssh_args == d.ssh_args
            &&& s.ssh_path is Some ==> e.ssh_path == s.ssh_path
            &&& s.ssh_path is None ==> e.ssh_path == d.ssh_path
            &&& s.poll is Some ==> e.poll == s.poll
            &&& s.poll is None ==> e.poll == d.poll
            &&& s.first_poll is Some ==> e.first_poll == s.first_poll
            &&& s.first_poll is None ==> e.first_poll == d.first_poll
            &&& s.gatetime is Some ==> e.gatetime == s.gatetime
            &&& s.gatetime is None ==> e.gatetime == d.gatetime
            &&& s.maxstart is Some ==> e.maxstart == s.maxstart
            &&& s.maxstart is None ==> e.maxstart == d.maxstart
            &&& s.maxlifetime is Some ==> e.maxlifetime == s.maxlifetime
            &&& s.maxlifetime is None ==> e.maxlifetime == d.maxlifetime
            &&& s.message is Some ==> e.message == s.message
            &&& s.message is None ==> e.message == d.message
            &&& s.pidfile is Some ==> e.pidfile == s.pidfile
            &&& s.pidfile is None ==> e.pidfile == d.pidfile
            &&& s.monitor_host is Some ==> e.monitor_host == s.monitor_host
            &&& s.monitor_host is None ==> e.monitor_host == d.monitor_host
            &&& s.kill_timeout is Some ==> e.kill_timeout == s.kill_timeout
            &&& s.kill_timeout is None ==> e.kill_timeout == d.kill_timeout
            &&& s.log is Some ==> e.log == s.log
            &&& s.log is None ==> e.log == d.log
            &&& s.log_format is Some ==> e.log_format == s.log_format
            &&& s.log_format is None ==> e.log_format == d.log_format
            &&& s.loglevel is Some ==> e.loglevel == s.loglevel
            &&& s.loglevel is None ==> e.loglevel == d.loglevel
        }),
{
}

/// Without a session the defaults are all there is.
pub proof fn law_no_session_means_the_defaults(f: FileView)
    ensures
        effective(f, None) == Ok::<SectionView, Seq<char>>(f.defaults),
{
}

/// Layers can be laid one by one from either end. Laying a section over another
/// twice is the same as doing it once. A section that sets nothing changes
/// nothing, and over nothing a section stays as it is.
pub proof fn law_layers(over: SectionView, middle: SectionView, under: SectionView)
    ensures
        laid_over(over, laid_over(middle, under)) == laid_over(laid_over(over, middle), under),
        laid_over(over, laid_over(over, under)) == laid_over(over, under),
        laid_over(nothing_set(), under) == under,
        laid_over(over, nothing_set()) == over,
{
}

/// A session is found exactly if its name is among the names that the error about
/// a missing one would list.
pub proof fn law_listed_names_are_found(f: FileView, name: Seq<char>)
    requires
        f.wf(),
    ensures
        effective(f, Some(name)) is Ok <==> f.names().contains(name),
{
    if exists|i: int| 0 <= i < f.sessions.len() && (#[trigger] f.sessions[i]).0 == name {
        let i = choose|i: int| 0 <= i < f.sessions.len() && (#[trigger] f.sessions[i]).0 == name;
        lemma_found(f.sessions, i);
        assert(f.names()[i] == name);
    } else {
        lemma_absent(f.sessions, name);
        if f.names().contains(name) {
            let i = choose|i: int| 0 <= i < f.names().len() && f.names()[i] == name;
            assert(f.sessions[i].0 == name);
        }
    }
}

/// The names are sorted, and none occurs twice.
pub proof fn law_names_are_sorted(f: FileView, i: int, j: int)
    requires
        f.wf(),
        0 <= i < j < f.names().len(),
    ensures
        named_before(f.names()[i], f.names()[j]),
        f.names()[i] != f.names()[j],
{
    assert(f.names()[i] == f.sessions[i].0);
    assert(f.names()[j] == f.sessions[j].0);
    lemma_names_compare(f.sessions[i].0, f.sessions[j].0);
}

/// The section of a session that is in the file, by its place: each field is the
/// session's where it sets it, and the defaults' where it does not.
pub proof fn law_what_a_session_comes_to(f: FileView, i: int)
    requires
        f.wf(),
        0 <= i < f.sessions.len(),
    ensures
        f.names()[i] == f.sessions[i].0,
        ({
            let s = f.sessions[i].1;
            let d = f.defaults;
            effective(f, Some(f.sessions[i].0)) matches Ok(e) && {
                &&& e.monitor == if s.monitor is Some { s.monitor } else { d.monitor }
                &&& e.ssh_args == if s.ssh_args is Some { s.ssh_args } else { d.ssh_args }
                &&& e.ssh_path == if s.ssh_path is Some { s.ssh_path } else { d.ssh_path }
                &&& e.poll == if s.poll is Some { s.poll } else { d.poll }
                &&& e.first_poll == if s.first_poll is Some { s.first_poll } else { d.first_poll }
                &&& e.gatetime == if s.gatetime is Some { s.gatetime } else { d.gatetime }
                &&& e.maxstart == if s.maxstart is Some { s.maxstart } else { d.maxstart }
                &&& e.maxlifetime == if s.maxlifetime is Some {
                    s.maxlifetime
                } else {
                    d.maxlifetime
                }
                &&& e.message == if s.message is Some { s.message } else { d.message }
                &&& e.pidfile == if s.pidfile is Some { s.pidfile } else { d.pidfile }
                &&& e.monitor_host == if s.monitor_host is Some {
                    s.monitor_host
                } else {
                    d.monitor_host
                }
                &&& e.kill_timeout == if s.kill_timeout is Some {
                    s.kill_timeout
                } else {
                    d.kill_timeout
                }
                &&& e.log == if s.log is Some { s.log } else { d.log }
                &&& e.log_format == if s.log_format is Some { s.log_format } else { d.log_format }
                &&& e.loglevel == if s.loglevel is Some { s.loglevel } else { d.loglevel }
            }
        }),
{
    lemma_found(f.sessions, i);
}

/// What is said of a session that is not in the file: its name, and the names that are
/// there, with commas between them.
pub proof fn law_what_is_said_of_a_missing_session(
    f: FileView,
    name: Seq<char>,
    names: Seq<Seq<char>>,
    last: Seq<char>,
)
    requires
        forall|i: int| 0 <= i < f.sessions.len() ==> (#[trigger] f.sessions[i]).0 != name,
    ensures
        effective(f, Some(name)) is Err,
        f.sessions.len() == 0 ==> effective(f, Some(name))->Err_0 == "no session named \""@ + name
            + "\" in the config file"@ + " (it defines none)"@,
        f.sessions.len() > 0 ==> effective(f, Some(name))->Err_0 == "no session named \""@ + name
            + "\" in the config file"@ + (" (it has: "@ + joined(f.names()) + ")"@),
        joined(seq![last]) == last,
        names.len() > 0 ==> joined(names.push(last)) == joined(names) + ", "@ + last,
{
    lemma_absent(f.sessions, name);
    assert(f.names().len() == f.sessions.len());
    assert(names.push(last).drop_last() =~= names);
}

proof fn lemma_order(a: Seq<u8>, b: Seq<u8>, k: int)
    requires
        0 <= k <= a.len(),
        k <= b.len(),
        forall|j: int| 0 <= j < k ==> #[trigger] a[j] == b[j],
    ensures
        precedes(a, b) == precedes(a.skip(k), b.skip(k)),
    decreases k,
{
    if k > 0 {
        assert(a[0] == b[0]);
        let (x, y) = (a.skip(1), b.skip(1));
        assert forall|j: int| 0 <= j < k - 1 implies #[trigger] x[j] == y[j] by {
            assert(x[j] == a[j + 1] && y[j] == b[j + 1]);
        }
        lemma_order(x, y, k - 1);
        assert(x.skip(k - 1) =~= a.skip(k));
        assert(y.skip(k - 1) =~= b.skip(k));
    } else {
        assert(a.skip(0) =~= a);
        assert(b.skip(0) =~= b);
    }
}

/// The order of the names is that of a dictionary, byte by byte: at the first place
/// where two differ the lesser byte comes first, and a name comes before one that it is
/// the beginning of.
pub proof fn law_the_order_of_names(a: Seq<char>, b: Seq<char>, k: int)
    requires
        0 <= k <= encode_utf8(a).len(),
        k <= encode_utf8(b).len(),
        forall|j: int| 0 <= j < k ==> #[trigger] encode_utf8(a)[j] == encode_utf8(b)[j],
    ensures
        ({
            let (x, y) = (encode_utf8(a), encode_utf8(b));
            &&& k < x.len() && k < y.len() && x[k] < y[k] ==> named_before(a, b)
            &&& k < x.len() && k < y.len() && x[k] > y[k] ==> !named_before(a, b)
            &&& k == x.len() && k < y.len() ==> named_before(a, b)
            &&& k == y.len() ==> !named_before(a, b)
        }),
{
    lemma_order(encode_utf8(a), encode_utf8(b), k);
}

} // verus!
