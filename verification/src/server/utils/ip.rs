//! Host addresses written as four decimal octets separated by dots.
use vstd::prelude::*;
use crate::encoding;
use crate::server::utils::cli::{all_digits, digits_value, ArgValue};

verus! {

/// A version-4 host address.
#[derive(Debug, Clone, Copy, PartialEq, Eq)]
pub struct Ipv4Addr {
    pub octets: [u8; 4],
}

impl Ipv4Addr {
    pub fn new(a: u8, b: u8, c: u8, d: u8) -> (r: Self)
        ensures
            r.octets@ == seq![a, b, c, d],
    {
        let r = Ipv4Addr { octets: [a, b, c, d] };
        assert(r.octets@ =~= seq![a, b, c, d]);
        r
    }
}

/// A version-4 host address with a port.
#[derive(Debug, Clone, Copy, PartialEq, Eq)]
pub struct SocketAddrV4 {
    pub ip: Ipv4Addr,
    pub port: u16,
}

impl SocketAddrV4 {
    pub fn new(ip: Ipv4Addr, port: u16) -> (r: Self)
        ensures
            r.ip == ip,
            r.port == port,
    {
        SocketAddrV4 { ip, port }
    }
}

impl ArgValue for Ipv4Addr {
    open spec fn spec_target_type() -> Seq<char> {
        "core::net::ip_addr::Ipv4Addr"@
    }

    fn target_type() -> (r: String) {
        "core::net::ip_addr::Ipv4Addr".to_owned()
    }

    open spec fn parses_to(s: Seq<char>, v: Self) -> bool {
        spec_parse_ipv4(s) == Some(v.octets@)
    }

    open spec fn parse_fails(s: Seq<char>) -> bool {
        spec_parse_ipv4(s) is None
    }

    fn parse_value(s: &str) -> (r: Option<Self>) {
        parse_ipv4(s)
    }
}

/// The position of the first dot of `s` at or after `i`, or its length.
pub open spec fn dot_from(s: Seq<char>, i: int) -> int
    decreases s.len() - i,
{
    if i < 0 || i >= s.len() {
        s.len() as int
    } else if s[i] == '.' {
        i
    } else {
        dot_from(s, i + 1)
    }
}

pub proof fn lemma_dot_from_bounds(s: Seq<char>, i: int)
    requires
        0 <= i <= s.len(),
    ensures
        i <= dot_from(s, i) <= s.len(),
        dot_from(s, i) < s.len() ==> s[dot_from(s, i)] == '.',
    decreases s.len() - i,
{
    if i < s.len() && s[i] != '.' {
        lemma_dot_from_bounds(s, i + 1);
    }
}

/// The parts of `s` from `i` on, split at dots.
pub open spec fn split_dots(s: Seq<char>, i: int) -> Seq<Seq<char>>
    decreases s.len() - i + 1,
{
    if i < 0 || i > s.len() {
        Seq::empty()
    } else {
        let j = dot_from(s, i);
        proof {
            lemma_dot_from_bounds(s, i);
        }
        if j >= s.len() {
            seq![s.subrange(i, j)]
        } else {
            seq![s.subrange(i, j)] + split_dots(s, j + 1)
        }
    }
}

/// The value of an octet written as one to three decimal digits, without a
/// leading zero unless it is the digit 0 alone, when it is at most 255.
pub open spec fn octet_of(d: Seq<char>) -> Option<u8> {
    if 1 <= d.len() <= 3 && all_digits(d) && !(d.len() > 1 && d[0] == '0') && digits_value(d) <= 255 {
        Some(digits_value(d) as u8)
    } else {
        None
    }
}

/// The octets that the text `s` writes, when it is four octets separated by
/// dots and nothing else.
pub open spec fn spec_parse_ipv4(s: Seq<char>) -> Option<Seq<u8>> {
    let p = split_dots(s, 0);
    if p.len() == 4 && octet_of(p[0]) is Some && octet_of(p[1]) is Some && octet_of(p[2]) is Some
        && octet_of(p[3]) is Some {
        Some(
            seq![
                octet_of(p[0]).unwrap(),
                octet_of(p[1]).unwrap(),
                octet_of(p[2]).unwrap(),
                octet_of(p[3]).unwrap(),
            ],
        )
    } else {
        None
    }
}

/// One step of splitting at dots: the first part runs to the next dot, and
/// the rest follows it when there is one.
proof fn lemma_split_dots_step(s: Seq<char>, i: int)
    requires
        0 <= i <= s.len(),
    ensures
        split_dots(s, i).len() >= 1,
        split_dots(s, i)[0] == s.subrange(i, dot_from(s, i)),
        dot_from(s, i) >= s.len() ==> split_dots(s, i).len() == 1,
        dot_from(s, i) < s.len() ==> split_dots(s, i) == seq![s.subrange(i, dot_from(s, i))]
            + split_dots(s, dot_from(s, i) + 1),
{
    lemma_dot_from_bounds(s, i);
}

/// Reads the octet written by `c[i..j]`.
fn parse_octet(c: &Vec<char>, i: usize, j: usize) -> (r: Option<u8>)
    requires
        i <= j <= c@.len(),
    ensures
        r == octet_of(c@.subrange(i as int, j as int)),
{
    let ghost d = c@.subrange(i as int, j as int);
    let n = j - i;
    if n < 1 || n > 3 {
        return None;
    }
    assert(d[0] == c@[i as int]);
    if n > 1 && c[i] == '0' {
        return None;
    }
    let mut v: u32 = 0;
    let mut k: usize = i;
    while k < j
        invariant
            i <= k <= j,
            j - i <= 3,
            j <= c@.len(),
            d == c@.subrange(i as int, j as int),
            all_digits(c@.subrange(i as int, k as int)),
            v == digits_value(c@.subrange(i as int, k as int)),
            v <= 999,
        decreases j - k,
    {
        let ch = c[k];
        if !('0' <= ch && ch <= '9') {
            assert(!all_digits(d)) by {
                assert(d[k - i] == ch);
            }
            return None;
        }
        assert(c@.subrange(i as int, k + 1).drop_last() =~= c@.subrange(i as int, k as int));
        assert(digits_value(c@.subrange(i as int, k as int)) <= 99) by {
            lemma_digits_value_bound(c@.subrange(i as int, k as int));
        }
        v = v * 10 + (ch as u32 - '0' as u32);
        k += 1;
    }
    assert(c@.subrange(i as int, k as int) == d);
    if v > 255 {
        return None;
    }
    Some(v as u8)
}

/// Up to two digits are at most 99.
proof fn lemma_digits_value_bound(s: Seq<char>)
    requires
        all_digits(s),
        s.len() <= 2,
    ensures
        0 <= digits_value(s),
        s.len() <= 1 ==> digits_value(s) <= 9,
        digits_value(s) <= 99,
    decreases s.len(),
{
    if s.len() > 0 {
        assert(all_digits(s.drop_last()));
        lemma_digits_value_bound(s.drop_last());
        assert('0' <= s.last() <= '9');
    }
}

/// Reads a host address written as four dotted decimal octets.
pub fn parse_ipv4(s: &str) -> (r: Option<Ipv4Addr>)
    ensures
        match spec_parse_ipv4(s@) {
            Some(o) => r matches Some(a) && a.octets@ == o,
            None => r is None,
        },
{
    let c = encoding::str_chars(s);
    let ghost parts = split_dots(c@, 0);
    let mut octets = [0u8; 4];
    let mut k: usize = 0;
    let mut i: usize = 0;
    loop
        invariant_except_break
            i <= c@.len(),
            k < 4,
            c@ == s@,
            parts == split_dots(c@, 0),
            parts.len() >= k,
            parts.subrange(k as int, parts.len() as int) == split_dots(c@, i as int),
            forall|m: int| 0 <= m < k ==> octet_of(parts[m]) == Some(#[trigger] octets@[m]),
            octets@.len() == 4,
        ensures
            k == 4,
            c@ == s@,
            parts == split_dots(c@, 0),
            parts.len() == 4,
            forall|m: int| 0 <= m < 4 ==> octet_of(parts[m]) == Some(#[trigger] octets@[m]),
        decreases c@.len() - i,
    {
        proof {
            lemma_dot_from_bounds(c@, i as int);
        }
        let j = find_dot(&c, i);
        let ghost rest = split_dots(c@, i as int);
        proof {
            lemma_split_dots_step(c@, i as int);
        }
        assert(rest[0] == c@.subrange(i as int, j as int));
        assert(parts[k as int] == rest[0]);
        let v = match parse_octet(&c, i, j) {
            Some(v) => v,
            None => {
                return None;
            },
        };
        let ghost k0 = k as int;
        octets[k] = v;
        k += 1;
        if j >= c.len() {
            assert(rest.len() == 1);
            if k < 4 {
                return None;
            }
            break;
        }
        assert(rest == seq![rest[0]] + split_dots(c@, j + 1));
        assert(rest.subrange(1, rest.len() as int) =~= split_dots(c@, j + 1));
        assert(parts.subrange(k0 + 1, parts.len() as int) =~= rest.subrange(1, rest.len() as int));
        if k == 4 {
            assert(parts.len() > 4) by {
                lemma_split_dots_step(c@, j + 1);
            }
            return None;
        }
        i = j + 1;
    }
    let r = Ipv4Addr { octets };
    assert(octet_of(parts[0]) == Some(octets@[0]));
    assert(octet_of(parts[1]) == Some(octets@[1]));
    assert(octet_of(parts[2]) == Some(octets@[2]));
    assert(octet_of(parts[3]) == Some(octets@[3]));
    assert(r.octets@ =~= spec_parse_ipv4(s@).unwrap());
    Some(r)
}

/// Finds the first dot of `c` at or after `i`.
fn find_dot(c: &Vec<char>, i: usize) -> (r: usize)
    requires
        i <= c@.len(),
    ensures
        r == dot_from(c@, i as int),
{
    let mut j = i;
    while j < c.len() && c[j] != '.'
        invariant
            i <= j <= c@.len(),
            dot_from(c@, i as int) == dot_from(c@, j as int),
        decreases c@.len() - j,
    {
        j += 1;
    }
    j
}

} // verus!
