//! IP addresses and CIDR ranges used for access control and
//! trusted-proxy checks.

use vstd::prelude::*;
use vstd::string::*;
use vstd::bits::{lemma_u32_shr_is_div, lemma_u128_shr_is_div};
use vstd::arithmetic::power2::{pow2, lemma2_to64};
use crate::text::{decimal, push_decimal, push_char};


verus! {

/// An IP address: IPv4 as a 32-bit number, IPv6 as a 128-bit number.
#[derive(Debug, Clone, Copy, PartialEq, Eq, Structural)]
pub enum IpAddress {
    /// An IPv4 address.
    V4(u32),
    /// An IPv6 address.
    V6(u128),
}

/// Dotted-quad text of an IPv4 address.
pub open spec fn ipv4_text(a: u32) -> Seq<char> {
    decimal(((a / 0x1000000) % 256) as nat) + "."@ + decimal(((a / 0x10000) % 256) as nat) + "."@
        + decimal(((a / 0x100) % 256) as nat) + "."@ + decimal((a % 256) as nat)
}

impl IpAddress {
    /// The IPv4 address `a.b.c.d`.
    pub fn v4(a: u8, b: u8, c: u8, d: u8) -> (r: IpAddress)
        ensures
            r == IpAddress::V4(((a as u32) * 0x1000000 + (b as u32) * 0x10000 + (c as u32) * 0x100 + (d as u32)) as u32),
    {
        IpAddress::V4((a as u32) * 0x1000000 + (b as u32) * 0x10000 + (c as u32) * 0x100 + (d as u32))
    }

    /// Dotted-quad text of an IPv4 address.
    pub fn ipv4_to_string(a: u32) -> (r: String)
        ensures
            r@ == ipv4_text(a),
    {
                let mut s = String::new();
                push_decimal(&mut s, ((a / 0x1000000) % 256) as u64);
                push_char(&mut s, '.');
                push_decimal(&mut s, ((a / 0x10000) % 256) as u64);
                push_char(&mut s, '.');
                push_decimal(&mut s, ((a / 0x100) % 256) as u64);
                push_char(&mut s, '.');
                push_decimal(&mut s, (a % 256) as u64);
                proof {
                    reveal_strlit(".");
                }
                s
    }
}

/// A client address together with its display text. For IPv4 the text is
/// the dotted quad; for IPv6 it is the host's standard rendering.
#[derive(Debug)]
pub struct ClientAddress {
    /// The address.
    pub ip: IpAddress,
    /// The address as text.
    pub text: String,
}

impl ClientAddress {
    /// The text matches the address for IPv4.
    pub open spec fn wf(&self) -> bool {
        self.ip matches IpAddress::V4(a) ==> self.text@ == ipv4_text(a)
    }

    /// An IPv4 client address.
    pub fn from_v4(a: u32) -> (r: ClientAddress)
        ensures
            r.ip == IpAddress::V4(a),
            r.text@ == ipv4_text(a),
            r.wf(),
    {
        ClientAddress { ip: IpAddress::V4(a), text: IpAddress::ipv4_to_string(a) }
    }
}

/// The value of a string of decimal digits.
pub open spec fn digits_value(s: Seq<char>) -> nat
    decreases s.len(),
{
    if s.len() == 0 {
        0
    } else {
        digits_value(s.drop_last()) * 10 + ((s.last() as u32) - 48) as nat
    }
}

/// Every character is an ASCII digit.
pub open spec fn all_digits(s: Seq<char>) -> bool {
    forall|i: int| 0 <= i < s.len() ==> '0' <= #[trigger] s[i] && s[i] <= '9'
}

proof fn lemma_digits_value_mono(s: Seq<char>, i: int)
    requires
        all_digits(s),
        0 <= i <= s.len(),
    ensures
        digits_value(s.subrange(0, i)) <= digits_value(s),
    decreases s.len() - i,
{
    if i < s.len() {
        lemma_digits_value_mono(s, i + 1);
        assert(s.subrange(0, i + 1).drop_last() =~= s.subrange(0, i));
    } else {
        assert(s.subrange(0, i) =~= s);
    }
}

/// Parse a small decimal number (at most `max`); `None` when `s` is empty,
/// holds a non-digit, or exceeds `max`.
pub fn parse_small_decimal(s: &str, max: u32) -> (r: Option<u32>)
    requires
        max <= 400_000_000,
    ensures
        r matches Some(v) ==> all_digits(s@) && s@.len() > 0 && v == digits_value(s@) && v <= max,
        r is None ==> !(all_digits(s@) && s@.len() > 0 && digits_value(s@) <= max),
{
    let n = s.unicode_len();
    if n == 0 {
        return None;
    }
    let mut i: usize = 0;
    let mut v: u32 = 0;
    while i < n
        invariant
            n == s@.len(),
            i <= n,
            all_digits(s@.subrange(0, i as int)),
            v == digits_value(s@.subrange(0, i as int)),
            v <= max,
            max <= 400_000_000,
        decreases n - i,
    {
        let c = s.get_char(i);
        proof {
            assert(s@.subrange(0, i + 1).drop_last() =~= s@.subrange(0, i as int));
            assert(s@.subrange(0, i + 1).last() == c);
        }
        if !('0' <= c && c <= '9') {
            proof {
                assert(!all_digits(s@)) by {
                    assert(s@[i as int] == c);
                }
            }
            return None;
        }
        let d = (c as u32) - 48;
        if v * 10 + d > max {
            proof {
                if all_digits(s@) {
                    lemma_digits_value_mono(s@, i + 1);
                }
            }
            return None;
        }
        v = v * 10 + d;
        i = i + 1;
        assert forall|j: int| 0 <= j < i implies '0' <= #[trigger] s@.subrange(0, i as int)[j]
            && s@.subrange(0, i as int)[j] <= '9' by {
            if j < i - 1 {
                assert(s@.subrange(0, i as int)[j] == s@.subrange(0, i - 1)[j]);
            }
        }
    }
    assert(s@.subrange(0, n as int) =~= s@);
    Some(v)
}

/// A CIDR range: an address family, network bits and a prefix length.
#[derive(Debug, Clone, Copy, PartialEq, Eq, Structural)]
pub struct CidrRange {
    /// The network address.
    pub network: IpAddress,
    /// Number of leading bits that must match.
    pub prefix_len: u32,
}

/// The position of the first `/` in `s`, if any.
pub open spec fn slash_at(s: Seq<char>, i: int) -> bool {
    0 <= i < s.len() && s[i] == '/' && forall|j: int| 0 <= j < i ==> s[j] != '/'
}

/// The number of address bits of a family.
pub open spec fn family_bits(ip: IpAddress) -> nat {
    match ip {
        IpAddress::V4(_) => 32,
        IpAddress::V6(_) => 128,
    }
}

/// Whether `ip` falls within `r`: same family, and the leading
/// `prefix_len` bits agree.
pub open spec fn in_range(r: CidrRange, ip: IpAddress) -> bool {
    match (r.network, ip) {
        (IpAddress::V4(n), IpAddress::V4(a)) => r.prefix_len == 0 || (r.prefix_len <= 32 && (n >> (
        32 - r.prefix_len) as u32) == (a >> (32 - r.prefix_len) as u32)),
        (IpAddress::V6(n), IpAddress::V6(a)) => r.prefix_len == 0 || (r.prefix_len <= 128 && (n >> (
        128 - r.prefix_len) as u32) == (a >> (128 - r.prefix_len) as u32)),
        _ => false,
    }
}

/// An IPv4 address lies in a range of prefix length `p` exactly when it
/// agrees with the network address on the leading `p` bits: both give the
/// same quotient when divided by `2^(32 - p)`. A `/32` range holds only its
/// own address.
pub proof fn v4_membership_is_leading_bits(n: u32, a: u32, p: u32)
    requires
        0 < p <= 32,
    ensures
        in_range(CidrRange { network: IpAddress::V4(n), prefix_len: p }, IpAddress::V4(a)) <==> n as nat / pow2(
            (32 - p) as nat,
        ) == a as nat / pow2((32 - p) as nat),
        p == 32 ==> (in_range(CidrRange { network: IpAddress::V4(n), prefix_len: p }, IpAddress::V4(a)) <==> n == a),
{
    let s: u32 = (32 - p) as u32;
    lemma_u32_shr_is_div(n, s);
    lemma_u32_shr_is_div(a, s);
    if p == 32 {
        lemma2_to64();
    }
}

/// An IPv6 address lies in a range of prefix length `p` exactly when it
/// agrees with the network address on the leading `p` bits: both give the
/// same quotient when divided by `2^(128 - p)`.
pub proof fn v6_membership_is_leading_bits(n: u128, a: u128, p: u32)
    requires
        0 < p <= 128,
    ensures
        in_range(CidrRange { network: IpAddress::V6(n), prefix_len: p }, IpAddress::V6(a)) <==> n as nat / pow2(
            (128 - p) as nat,
        ) == a as nat / pow2((128 - p) as nat),
{
    let s: u128 = (128 - p) as u128;
    lemma_u128_shr_is_div(n, s);
    lemma_u128_shr_is_div(a, s);
    assert(n >> ((128 - p) as u32) == n >> s);
    assert(a >> ((128 - p) as u32) == a >> s);
}

/// A range never holds an address of the other family, nor anything when
/// its prefix is longer than the family's width; a zero-length prefix
/// holds every address of its family.
pub proof fn membership_family_and_width(r: CidrRange, ip: IpAddress)
    ensures
        family_bits(r.network) != family_bits(ip) ==> !in_range(r, ip),
        family_bits(r.network) == family_bits(ip) && r.prefix_len == 0 ==> in_range(r, ip),
        r.prefix_len > family_bits(ip) ==> !in_range(r, ip),
{
}

fn find_slash(s: &str) -> (r: Option<usize>)
    ensures
        r matches Some(i) ==> slash_at(s@, i as int),
        r is None ==> forall|i: int| 0 <= i < s@.len() ==> s@[i] != '/',
{
    let n = s.unicode_len();
    let mut i: usize = 0;
    while i < n
        invariant
            n == s@.len(),
            i <= n,
            forall|j: int| 0 <= j < i ==> s@[j] != '/',
        decreases n - i,
    {
        if s.get_char(i) == '/' {
            return Some(i);
        }
        i = i + 1;
    }
    None
}

/// Split range text at its first `/` into the address text and the
/// prefix-length text; text without `/` is all address.
pub fn split_cidr_text(s: &str) -> (r: (&str, Option<&str>))
    ensures
        r.1 matches Some(len_text) ==> exists|i: int|
            slash_at(s@, i) && r.0@ == s@.subrange(0, i) && len_text@ == s@.subrange(i + 1, s@.len() as int),
        r.1 is None ==> r.0@ == s@ && forall|i: int| 0 <= i < s@.len() ==> s@[i] != '/',
{
    match find_slash(s) {
        Some(i) => {
            let n = s.unicode_len();
            (s.substring_char(0, i), Some(s.substring_char(i + 1, n)))
        },
        None => (s, None),
    }
}

impl CidrRange {
    /// Build a range from an already-parsed address and the prefix-length
    /// text that followed its `/` (`None`: a single-host range). Fails when
    /// the length is not a decimal number within the address family's width.
    pub fn from_parts(network: IpAddress, len_text: Option<&str>) -> (r: Option<CidrRange>)
        ensures
            len_text is None ==> r == Some((CidrRange { network, prefix_len: family_bits(network) as u32 })),
            len_text matches Some(t) ==> (r is Some <==> (all_digits(t@) && t@.len() > 0 && digits_value(t@)
                <= family_bits(network))),
            len_text matches Some(t) ==> (r is Some ==> r == Some((CidrRange { network, prefix_len: digits_value(t@) as u32 }))),
    {
        let max: u32 = match network {
            IpAddress::V4(_) => 32,
            IpAddress::V6(_) => 128,
        };
        match len_text {
            None => Some(CidrRange { network, prefix_len: max }),
            Some(t) => match parse_small_decimal(t, max) {
                Some(v) => Some(CidrRange { network, prefix_len: v }),
                None => None,
            },
        }
    }

    /// Whether `ip` falls within this range.
    pub fn contains(&self, ip: &IpAddress) -> (r: bool)
        ensures
            r == in_range(*self, *ip),
    {
        match (self.network, *ip) {
            (IpAddress::V4(n), IpAddress::V4(a)) => {
                if self.prefix_len == 0 {
                    true
                } else if self.prefix_len <= 32 {
                    let shift = 32 - self.prefix_len;
                    (n >> shift) == (a >> shift)
                } else {
                    false
                }
            },
            (IpAddress::V6(n), IpAddress::V6(a)) => {
                if self.prefix_len == 0 {
                    true
                } else if self.prefix_len <= 128 {
                    let shift = 128 - self.prefix_len;
                    (n >> shift) == (a >> shift)
                } else {
                    false
                }
            },
            _ => false,
        }
    }
}

/// Whether any range in `ranges` contains `ip`.
pub fn any_contains(ranges: &Vec<CidrRange>, ip: &IpAddress) -> (r: bool)
    ensures
        r == exists|i: int| 0 <= i < ranges@.len() && in_range(#[trigger] ranges@[i], *ip),
{
    let mut i: usize = 0;
    while i < ranges.len()
        invariant
            i <= ranges@.len(),
            forall|j: int| 0 <= j < i ==> !in_range(#[trigger] ranges@[j], *ip),
        decreases ranges@.len() - i,
    {
        if ranges[i].contains(ip) {
            return true;
        }
        i = i + 1;
    }
    false
}

} // verus!
