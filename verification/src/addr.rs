//! IP addresses as plain numeric values, with the routability rules the
//! relay cares about.
//!
//! An IPv4 address is its 32-bit big-endian value, an IPv6 address its
//! 128-bit value. An address is *globally routable* when it falls in none
//! of the IANA special-purpose ranges (loopback, link-local, private,
//! shared, documentation, benchmarking, reserved, and the like); only such
//! addresses are worth advertising as a relay's public address.

use vstd::prelude::*;

use crate::decimal::{dec_rep, dec_val, is_digit, is_digit_char, lemma_dec_rep_val, parse_decimal};

verus! {

/// A local or public IP address, as a plain numeric value.
#[derive(Clone, Copy, PartialEq, Eq, Structural, Debug)]
pub enum IpAddress {
    V4(u32),
    V6(u128),
}

/// `127.0.0.0/8`, or `::1`.
pub open spec fn spec_is_loopback(a: IpAddress) -> bool {
    match a {
        IpAddress::V4(v) => v >> 24 == 127,
        IpAddress::V6(v) => v == 1,
    }
}

/// `169.254.0.0/16`, or `fe80::/10`.
pub open spec fn spec_is_link_local(a: IpAddress) -> bool {
    match a {
        IpAddress::V4(v) => v >> 16 == 0xa9fe,
        IpAddress::V6(v) => v >> 118 == 0x3fa,
    }
}

/// `10.0.0.0/8`, `172.16.0.0/12` or `192.168.0.0/16`.
pub open spec fn spec_is_private_v4(v: u32) -> bool {
    v >> 24 == 10 || v >> 20 == 0xac1 || v >> 16 == 0xc0a8
}

/// The IANA special-purpose IPv4 ranges that are not globally reachable:
/// "this network" `0.0.0.0/8`, private, shared `100.64.0.0/10`, loopback,
/// link-local, protocol assignments `192.0.0.0/24` (except `.9`/`.10`),
/// documentation `192.0.2.0/24`, `198.51.100.0/24`, `203.0.113.0/24`,
/// benchmarking `198.18.0.0/15`, and `240.0.0.0/4`.
pub open spec fn spec_is_special_v4(v: u32) -> bool {
    ||| v >> 24 == 0
    ||| spec_is_private_v4(v)
    ||| v >> 22 == 0x191
    ||| spec_is_loopback(IpAddress::V4(v))
    ||| spec_is_link_local(IpAddress::V4(v))
    ||| (v >> 8 == 0xc00000 && v & 0xff != 9 && v & 0xff != 10)
    ||| v >> 8 == 0xc00002
    ||| v >> 8 == 0xc63364
    ||| v >> 8 == 0xcb0071
    ||| v >> 17 == 0x6309
    ||| v >> 28 == 0xf
}

/// The IANA special-purpose IPv6 ranges that are not globally reachable:
/// unspecified, loopback, IPv4-mapped `::ffff:0:0/96`, the translation
/// prefix `64:ff9b:1::/48`, discard-only `100::/64`, the IETF protocol
/// block `2001::/23` (except its anycast and delegated sub-ranges),
/// 6to4 `2002::/16`, documentation `2001:db8::/32` and `3fff::/20`,
/// unique-local `fc00::/7`, and link-local `fe80::/10`.
pub open spec fn spec_is_special_v6(v: u128) -> bool {
    ||| v == 0
    ||| v == 1
    ||| v >> 32 == 0xffff
    ||| v >> 80 == 0x0064ff9b0001
    ||| v >> 64 == 0x0100000000000000
    ||| (v >> 112 == 0x2001 && (v >> 96) & 0xffff < 0x200 && !spec_is_v6_protocol_exception(v))
    ||| v >> 112 == 0x2002
    ||| v >> 96 == 0x20010db8
    ||| v >> 108 == 0x3fff0
    ||| v >> 121 == 0x7e
    ||| spec_is_link_local(IpAddress::V6(v))
}

/// The sub-ranges of `2001::/23` that are nonetheless globally reachable:
/// the port-control and relay-traversal anycast addresses `2001:1::1` and
/// `2001:1::2`, AMT `2001:3::/32`, AS112 `2001:4:112::/48`, and
/// `2001:20::/28` through `2001:30::/28`.
pub open spec fn spec_is_v6_protocol_exception(v: u128) -> bool {
    ||| v == 0x2001_0001_0000_0000_0000_0000_0000_0001
    ||| v == 0x2001_0001_0000_0000_0000_0000_0000_0002
    ||| v >> 96 == 0x20010003
    ||| v >> 80 == 0x0020010004_0112
    ||| ((v >> 96) & 0xffff >= 0x20 && (v >> 96) & 0xffff <= 0x3f && v >> 112 == 0x2001)
}

/// The end of the run of decimal digits starting at `i`: the first index
/// at or after `i` that is past the end or holds a non-digit.
pub open spec fn digits_end(s: Seq<char>, i: int) -> int
    decreases s.len() - i,
{
    if i < 0 || i >= s.len() || !is_digit(s[i]) {
        i
    } else {
        digits_end(s, i + 1)
    }
}

proof fn lemma_digits_end_chars(s: Seq<char>, i: int)
    requires
        0 <= i <= s.len(),
    ensures
        i <= digits_end(s, i) <= s.len(),
        forall|j: int| i <= j < digits_end(s, i) ==> is_digit(#[trigger] s[j]),
        digits_end(s, i) < s.len() ==> !is_digit(s[digits_end(s, i)]),
    decreases s.len() - i,
{
    if i < s.len() && is_digit(s[i]) {
        lemma_digits_end_chars(s, i + 1);
    }
}

/// What dotted-quad IPv4 text denotes: four runs of decimal digits
/// separated by single dots, each run non-empty with a value of at most
/// 255, spanning the whole text; the denoted address is the four octet
/// values, most significant first.
pub open spec fn spec_parse_ipv4(s: Seq<char>) -> Option<u32> {
    let e0 = digits_end(s, 0);
    let o0 = dec_val(s.subrange(0, e0));
    if e0 == 0 || e0 >= s.len() || s[e0] != '.' || o0 > 255 {
        Option::None
    } else {
        let b1 = e0 + 1;
        let e1 = digits_end(s, b1);
        let o1 = dec_val(s.subrange(b1, e1));
        if e1 == b1 || e1 >= s.len() || s[e1] != '.' || o1 > 255 {
            Option::None
        } else {
            let b2 = e1 + 1;
            let e2 = digits_end(s, b2);
            let o2 = dec_val(s.subrange(b2, e2));
            if e2 == b2 || e2 >= s.len() || s[e2] != '.' || o2 > 255 {
                Option::None
            } else {
                let b3 = e2 + 1;
                let e3 = digits_end(s, b3);
                let o3 = dec_val(s.subrange(b3, e3));
                if e3 == b3 || e3 != s.len() || o3 > 255 {
                    Option::None
                } else {
                    Option::Some((o0 * 0x1000000 + o1 * 0x10000 + o2 * 0x100 + o3) as u32)
                }
            }
        }
    }
}

/// The end of the digit run starting at `start`.
fn scan_digits(s: &str, start: usize, n: usize) -> (e: usize)
    requires
        n == s@.len(),
        start <= n,
    ensures
        e as int == digits_end(s@, start as int),
        start <= e <= n,
    decreases n - start,
{
    let mut i: usize = start;
    while i < n
        invariant
            start <= i <= n == s@.len(),
            digits_end(s@, start as int) == digits_end(s@, i as int),
            forall|j: int| start <= j < i ==> is_digit(#[trigger] s@[j]),
        decreases n - i,
    {
        let c = s.get_char(i);
        if !is_digit_char(c) {
            return i;
        }
        i += 1;
    }
    i
}

proof fn lemma_digits_end_at(s: Seq<char>, i: int, e: int)
    requires
        0 <= i <= e <= s.len(),
        forall|j: int| i <= j < e ==> is_digit(#[trigger] s[j]),
        e < s.len() ==> !is_digit(s[e]),
    ensures
        digits_end(s, i) == e,
    decreases e - i,
{
    if i < e {
        lemma_digits_end_at(s, i + 1, e);
    }
}

/// The canonical dotted-quad text of an IPv4 address value.
pub open spec fn spec_ipv4_text(v: u32) -> Seq<char> {
    dec_rep((v >> 24) as nat) + seq!['.'] + dec_rep(((v >> 16) & 0xff) as nat) + seq!['.']
        + dec_rep(((v >> 8) & 0xff) as nat) + seq!['.'] + dec_rep((v & 0xff) as nat)
}

/// Writing an IPv4 address as canonical dotted-quad text and parsing it
/// back yields the address.
pub proof fn lemma_ipv4_text_round_trip(v: u32)
    ensures
        spec_parse_ipv4(spec_ipv4_text(v)) == Option::Some(v),
{
    let x0 = v >> 24;
    let x1 = (v >> 16) & 0xff;
    let x2 = (v >> 8) & 0xff;
    let x3 = v & 0xff;
    assert(x0 <= 255 && x1 <= 255 && x2 <= 255 && x3 <= 255) by (bit_vector)
        requires
            x0 == v >> 24,
            x1 == (v >> 16) & 0xff,
            x2 == (v >> 8) & 0xff,
            x3 == v & 0xff,
    ;
    lemma_dec_rep_val(x0 as nat);
    lemma_dec_rep_val(x1 as nat);
    lemma_dec_rep_val(x2 as nat);
    lemma_dec_rep_val(x3 as nat);
    let u0 = dec_rep(x0 as nat);
    let u1 = dec_rep(x1 as nat);
    let u2 = dec_rep(x2 as nat);
    let u3 = dec_rep(x3 as nat);
    let s = spec_ipv4_text(v);
    let e0 = u0.len() as int;
    let b1 = e0 + 1;
    let e1 = b1 + u1.len();
    let b2 = e1 + 1;
    let e2 = b2 + u2.len();
    let b3 = e2 + 1;
    let e3 = b3 + u3.len();
    assert(s.len() == e3);
    assert(forall|j: int| 0 <= j < e0 ==> s[j] == u0[j]);
    assert(s[e0] == '.');
    assert(forall|j: int| b1 <= j < e1 ==> s[j] == u1[j - b1]);
    assert(s[e1] == '.');
    assert(forall|j: int| b2 <= j < e2 ==> s[j] == u2[j - b2]);
    assert(s[e2] == '.');
    assert(forall|j: int| b3 <= j < e3 ==> s[j] == u3[j - b3]);
    assert(!is_digit('.'));
    lemma_digits_end_at(s, 0, e0);
    lemma_digits_end_at(s, b1, e1);
    lemma_digits_end_at(s, b2, e2);
    lemma_digits_end_at(s, b3, e3);
    assert(s.subrange(0, e0) =~= u0);
    assert(s.subrange(b1, e1) =~= u1);
    assert(s.subrange(b2, e2) =~= u2);
    assert(s.subrange(b3, e3) =~= u3);
    assert(x0 * 0x1000000 + x1 * 0x10000 + x2 * 0x100 + x3 == v) by (bit_vector)
        requires
            x0 == v >> 24,
            x1 == (v >> 16) & 0xff,
            x2 == (v >> 8) & 0xff,
            x3 == v & 0xff,
    ;
}

/// Globally routable: in none of the special-purpose ranges.
pub open spec fn spec_is_global(a: IpAddress) -> bool {
    match a {
        IpAddress::V4(v) => !spec_is_special_v4(v),
        IpAddress::V6(v) => !spec_is_special_v6(v),
    }
}

/// Globally routable addresses are neither loopback nor link-local.
pub proof fn lemma_global_not_loopback_or_link_local(a: IpAddress)
    requires
        spec_is_global(a),
    ensures
        !spec_is_loopback(a),
        !spec_is_link_local(a),
{
}

/// A strict total order on addresses: every IPv4 address before every
/// IPv6 address, numeric order within each family.
pub open spec fn spec_lt(a: IpAddress, b: IpAddress) -> bool {
    match (a, b) {
        (IpAddress::V4(x), IpAddress::V4(y)) => x < y,
        (IpAddress::V4(_), IpAddress::V6(_)) => true,
        (IpAddress::V6(_), IpAddress::V4(_)) => false,
        (IpAddress::V6(x), IpAddress::V6(y)) => x < y,
    }
}

impl IpAddress {
    /// Whether this address is globally routable.
    pub fn is_global(&self) -> (r: bool)
        ensures
            r == spec_is_global(*self),
    {
        match *self {
            IpAddress::V4(v) => {
                let special = (v >> 24 == 0) || (v >> 24 == 10) || (v >> 20 == 0xac1) || (v >> 16
                    == 0xc0a8) || (v >> 22 == 0x191) || (v >> 24 == 127) || (v >> 16 == 0xa9fe) || (
                v >> 8 == 0xc00000 && v & 0xff != 9 && v & 0xff != 10) || (v >> 8 == 0xc00002) || (v
                    >> 8 == 0xc63364) || (v >> 8 == 0xcb0071) || (v >> 17 == 0x6309) || (v >> 28
                    == 0xf);
                !special
            },
            IpAddress::V6(v) => {
                let seg0: u128 = v >> 112;
                let seg1: u128 = (v >> 96) & 0xffff;
                let exception = v == 0x2001_0001_0000_0000_0000_0000_0000_0001 || v
                    == 0x2001_0001_0000_0000_0000_0000_0000_0002 || (v >> 96 == 0x20010003) || (v
                    >> 80 == 0x0020010004_0112) || (seg1 >= 0x20 && seg1 <= 0x3f && seg0 == 0x2001);
                let special = v == 0 || v == 1 || (v >> 32 == 0xffff) || (v >> 80
                    == 0x0064ff9b0001) || (v >> 64 == 0x0100000000000000) || (seg0 == 0x2001 && seg1
                    < 0x200 && !exception) || seg0 == 0x2002 || (v >> 96 == 0x20010db8) || (v >> 108
                    == 0x3fff0) || (v >> 121 == 0x7e) || (v >> 118 == 0x3fa);
                !special
            },
        }
    }

    /// Parses dotted-quad IPv4 text, as an operator writes it after
    /// `--public-ip`: four runs of decimal digits separated by dots, each
    /// with a value of at most 255.
    pub fn parse_ipv4(s: &str) -> (r: Option<IpAddress>)
        ensures
            r is Some <==> spec_parse_ipv4(s@) is Some,
            r is Some ==> r->Some_0 == IpAddress::V4(spec_parse_ipv4(s@)->Some_0),
    {
        let n = s.unicode_len();
        let e0 = scan_digits(s, 0, n);
        proof {
            lemma_digits_end_chars(s@, 0);
        }
        if e0 == 0 || e0 >= n {
            return None;
        }
        if s.get_char(e0) != '.' {
            return None;
        }
        let o0 = match parse_decimal(s.substring_char(0, e0)) {
            Option::Some(v) => v,
            Option::None => {
                return None;
            },
        };
        if o0 > 255 {
            return None;
        }
        let b1 = e0 + 1;
        let e1 = scan_digits(s, b1, n);
        proof {
            lemma_digits_end_chars(s@, b1 as int);
        }
        if e1 == b1 || e1 >= n {
            return None;
        }
        if s.get_char(e1) != '.' {
            return None;
        }
        let o1 = match parse_decimal(s.substring_char(b1, e1)) {
            Option::Some(v) => v,
            Option::None => {
                return None;
            },
        };
        if o1 > 255 {
            return None;
        }
        let b2 = e1 + 1;
        let e2 = scan_digits(s, b2, n);
        proof {
            lemma_digits_end_chars(s@, b2 as int);
        }
        if e2 == b2 || e2 >= n {
            return None;
        }
        if s.get_char(e2) != '.' {
            return None;
        }
        let o2 = match parse_decimal(s.substring_char(b2, e2)) {
            Option::Some(v) => v,
            Option::None => {
                return None;
            },
        };
        if o2 > 255 {
            return None;
        }
        let b3 = e2 + 1;
        let e3 = scan_digits(s, b3, n);
        proof {
            lemma_digits_end_chars(s@, b3 as int);
        }
        if e3 == b3 || e3 != n {
            return None;
        }
        let o3 = match parse_decimal(s.substring_char(b3, e3)) {
            Option::Some(v) => v,
            Option::None => {
                return None;
            },
        };
        if o3 > 255 {
            return None;
        }
        let v: u32 = (o0 as u32) * 0x1000000 + (o1 as u32) * 0x10000 + (o2 as u32) * 0x100 + (
        o3 as u32);
        Some(IpAddress::V4(v))
    }

    /// Whether this address sorts strictly before another under the
    /// family-then-numeric order.
    pub fn lt(&self, other: &IpAddress) -> (r: bool)
        ensures
            r == spec_lt(*self, *other),
    {
        match (*self, *other) {
            (IpAddress::V4(x), IpAddress::V4(y)) => x < y,
            (IpAddress::V4(_), IpAddress::V6(_)) => true,
            (IpAddress::V6(_), IpAddress::V4(_)) => false,
            (IpAddress::V6(x), IpAddress::V6(y)) => x < y,
        }
    }
}

} // verus!
