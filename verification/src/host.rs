//! The address that the monitor connects to and listens on.

use crate::text::{concat3, decimal, is_digit, law_decimal_reads_back, push_decimal};
use vstd::prelude::*;

verus! {

/// An IP address.
#[derive(Debug, Clone, Copy, PartialEq, Eq)]
pub enum Host {
    V4([u8; 4]),
    V6([u16; 8]),
}

/// The address that `IpAddr::from_str` reads from a text, if it reads one.
pub uninterp spec fn address(text: Seq<char>) -> Option<Host>;

/// What the `Display` of `Ipv6Addr` writes for eight groups of sixteen bits.
pub uninterp spec fn v6_text(groups: Seq<u16>) -> Seq<char>;

/// `IpAddr::from_str`: the address that the text stands for, as its octets or
/// its groups, and nothing where it stands for none. Which texts stand for
/// which addresses is left to that function.
#[verifier::external_body]
pub(crate) fn parse_address(s: &str) -> (r: Option<Host>)
    ensures
        r == address(s@),
{
    match s.parse::<core::net::IpAddr>() {
        Ok(core::net::IpAddr::V4(a)) => Some(Host::V4(a.octets())),
        Ok(core::net::IpAddr::V6(a)) => Some(Host::V6(a.segments())),
        Err(_) => None,
    }
}

/// Characters of an IPv6 address: hexadecimal digits, colons, and the dots of an
/// address that embeds an IPv4 one.
pub open spec fn is_v6_char(c: char) -> bool {
    ('0' <= c && c <= '9') || ('a' <= c && c <= 'f') || c == ':' || c == '.'
}

/// `Ipv6Addr::to_string`: the canonical text of the address, in the style of
/// RFC 5952. It is made of lower-case hexadecimal digits, colons and dots; how
/// the groups are shortened is left to that function.
#[verifier::external_body]
fn v6_to_string(groups: &[u16; 8]) -> (s: String)
    ensures
        s@ == v6_text(groups@),
        forall|i: int| 0 <= i < s@.len() ==> is_v6_char(#[trigger] s@[i]),
{
    core::net::Ipv6Addr::from(*groups).to_string()
}

/// A text without colons and brackets.
pub open spec fn is_bare(s: Seq<char>) -> bool {
    forall|i: int| 0 <= i < s.len() ==> #[trigger] s[i] != ':' && s[i] != '[' && s[i] != ']'
}

/// A text without brackets.
pub open spec fn is_bracketless(s: Seq<char>) -> bool {
    forall|i: int| 0 <= i < s.len() ==> #[trigger] s[i] != '[' && s[i] != ']'
}

pub proof fn lemma_decimal_is_bare(n: nat)
    ensures
        is_bare(decimal(n)),
{
    law_decimal_reads_back(n);
    assert forall|i: int| 0 <= i < decimal(n).len() implies #[trigger] decimal(n)[i] != ':'
        && decimal(n)[i] != '[' && decimal(n)[i] != ']' by {
        assert(is_digit(decimal(n)[i]));
    }
}

impl Host {
    /// The address as text.
    pub open spec fn shown(self) -> Seq<char> {
        match self {
            Host::V4(o) => decimal(o@[0] as nat) + "."@ + decimal(o@[1] as nat) + "."@ + decimal(
                o@[2] as nat,
            ) + "."@ + decimal(o@[3] as nat),
            Host::V6(g) => v6_text(g@),
        }
    }

    /// A text for the address, where colons have a meaning of their own: an IPv6
    /// address has to stand in brackets there.
    pub open spec fn bracketed(self, shown: Seq<char>) -> Seq<char> {
        match self {
            Host::V4(_) => shown,
            Host::V6(_) => "["@ + shown + "]"@,
        }
    }

    /// The address as ssh's forwarding specs need it, which are separated by
    /// colons.
    pub open spec fn literal(self) -> Seq<char> {
        self.bracketed(self.shown())
    }

    /// The address of this machine.
    pub fn localhost() -> (h: Self)
        ensures
            h == Host::V4([127, 0, 0, 1]),
    {
        Host::V4([127, 0, 0, 1])
    }

    /// The text `shown` for the address, in brackets where it is an IPv6 one.
    pub fn enclose(&self, shown: &str) -> (s: String)
        ensures
            s@ == self.bracketed(shown@),
    {
        match self {
            Host::V4(_) => shown.to_owned(),
            Host::V6(_) => concat3("[", shown, "]"),
        }
    }

    /// The address as text.
    pub fn text(&self) -> (s: String)
        ensures
            s@ == self.shown(),
            self is V4 ==> is_bare(s@),
            is_bracketless(s@),
    {
        match self {
            Host::V4(o) => {
                let mut s = String::new();
                push_decimal(&mut s, o[0] as u64);
                s.append(".");
                push_decimal(&mut s, o[1] as u64);
                s.append(".");
                push_decimal(&mut s, o[2] as u64);
                s.append(".");
                push_decimal(&mut s, o[3] as u64);
                proof {
                    reveal_strlit(".");
                    assert(s@ =~= self.shown());
                    lemma_decimal_is_bare(o@[0] as nat);
                    lemma_decimal_is_bare(o@[1] as nat);
                    lemma_decimal_is_bare(o@[2] as nat);
                    lemma_decimal_is_bare(o@[3] as nat);
                }
                s
            },
            Host::V6(g) => {
                let s = v6_to_string(g);
                assert forall|i: int| 0 <= i < s@.len() implies #[trigger] s@[i] != '[' && s@[i]
                    != ']' by {
                    assert(is_v6_char(s@[i]));
                }
                s
            },
        }
    }
}

/// An IPv4 address is written as its four numbers with dots between them, and stands as
/// it is in a forward. An IPv6 address has to stand in brackets there.
pub proof fn law_how_an_address_is_written(a: u8, b: u8, c: u8, d: u8, g: [u16; 8])
    ensures
        ({
            let dotted = decimal(a as nat) + "."@ + decimal(b as nat) + "."@ + decimal(c as nat)
                + "."@ + decimal(d as nat);
            &&& Host::V4([a, b, c, d]).shown() == dotted
            &&& Host::V4([a, b, c, d]).literal() == dotted
        }),
        Host::V6(g).shown() == v6_text(g@),
        Host::V6(g).literal() == "["@ + v6_text(g@) + "]"@,
{
    let host = Host::V4([a, b, c, d]);
    assert([a, b, c, d]@ =~= seq![a, b, c, d]);
}

} // verus!
