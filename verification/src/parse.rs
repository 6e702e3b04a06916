//! Parsing source addresses from text.
//!
//! The accepted forms are a dotted IPv4 address, an IPv4 address with a
//! port, an IPv6 address written as colon-separated hexadecimal groups
//! (with at most one `::` standing for the omitted zero groups), a
//! bracketed IPv6 address, and a bracketed IPv6 address with a port. The
//! grammar is stated by the `spec` functions of this module; the parser
//! returns a value exactly when its input matches the grammar.

use vstd::prelude::*;
use vstd::slice::{slice_subrange, slice_to_vec};
use vstd::string::StringSliceAdditionalSpecFns;

use crate::ip::{IpAddr, Ipv4Addr, Ipv6Addr};

verus! {

/// ASCII `.`
pub const DOT: u8 = 46;

/// ASCII `:`
pub const COLON: u8 = 58;

/// ASCII `[`
pub const LBRACKET: u8 = 91;

/// ASCII `]`
pub const RBRACKET: u8 = 93;

/// Whether `b` is an ASCII decimal digit.
pub open spec fn is_digit(b: u8) -> bool {
    48 <= b <= 57
}

/// The value of a decimal digit.
pub open spec fn digit_value(b: u8) -> int {
    b - 48
}

/// Whether `b` is an ASCII hexadecimal digit.
pub open spec fn is_hex_digit(b: u8) -> bool {
    ||| 48 <= b <= 57
    ||| 97 <= b <= 102
    ||| 65 <= b <= 70
}

/// The value of a hexadecimal digit.
pub open spec fn hex_digit_value(b: u8) -> int {
    if 48 <= b <= 57 {
        b - 48
    } else if 97 <= b <= 102 {
        b - 87
    } else {
        b - 55
    }
}

/// Whether `s` is one or more decimal digits.
pub open spec fn is_dec_run(s: Seq<u8>) -> bool {
    &&& s.len() >= 1
    &&& forall|i: int| 0 <= i < s.len() ==> is_digit(#[trigger] s[i])
}

/// The number denoted by a run of decimal digits.
pub open spec fn dec_value(s: Seq<u8>) -> int
    decreases s.len(),
{
    if s.len() == 0 {
        0
    } else {
        dec_value(s.drop_last()) * 10 + digit_value(s.last())
    }
}

/// Whether `s` is one to four hexadecimal digits: one IPv6 group.
pub open spec fn is_hex_group(s: Seq<u8>) -> bool {
    &&& 1 <= s.len() <= 4
    &&& forall|i: int| 0 <= i < s.len() ==> is_hex_digit(#[trigger] s[i])
}

/// The number denoted by a run of hexadecimal digits.
pub open spec fn hex_value(s: Seq<u8>) -> int
    decreases s.len(),
{
    if s.len() == 0 {
        0
    } else {
        hex_value(s.drop_last()) * 16 + hex_digit_value(s.last())
    }
}

/// The position of the first `sep` in `s`, or `-1` if there is none.
pub open spec fn first_index(s: Seq<u8>, sep: u8) -> int
    decreases s.len(),
{
    if s.len() == 0 {
        -1
    } else if s[0] == sep {
        0
    } else {
        let r = first_index(s.drop_first(), sep);
        if r < 0 {
            -1
        } else {
            r + 1
        }
    }
}

pub proof fn lemma_first_index(s: Seq<u8>, sep: u8)
    ensures
        first_index(s, sep) >= 0 ==> {
            &&& first_index(s, sep) < s.len()
            &&& s[first_index(s, sep)] == sep
            &&& forall|i: int| 0 <= i < first_index(s, sep) ==> s[i] != sep
        },
        first_index(s, sep) < 0 ==> forall|i: int| 0 <= i < s.len() ==> s[i] != sep,
    decreases s.len(),
{
    if s.len() == 0 {
    } else if s[0] == sep {
    } else {
        lemma_first_index(s.drop_first(), sep);
        let r = first_index(s.drop_first(), sep);
        if r >= 0 {
            assert forall|i: int| 0 <= i < r + 1 implies s[i] != sep by {
                if i > 0 {
                    assert(s.drop_first()[i - 1] != sep);
                }
            }
        } else {
            assert forall|i: int| 0 <= i < s.len() implies s[i] != sep by {
                if i > 0 {
                    assert(s.drop_first()[i - 1] != sep);
                }
            }
        }
    }
}

/// `s` divided at every `sep`: the separators themselves are dropped, and
/// `n` separators yield `n + 1` (possibly empty) parts.
pub open spec fn spec_split(s: Seq<u8>, sep: u8) -> Seq<Seq<u8>>
    decreases s.len(),
{
    let i = first_index(s, sep);
    if i < 0 || i >= s.len() {
        seq![s]
    } else {
        seq![s.subrange(0, i)] + spec_split(s.subrange(i + 1, s.len() as int), sep)
    }
}

/// Find the first `sep` in `s`, as an index, or `s.len()` if absent.
fn find_first(s: &[u8], sep: u8) -> (r: usize)
    ensures
        r <= s@.len(),
        r < s@.len() ==> first_index(s@, sep) == r,
        r == s@.len() ==> first_index(s@, sep) < 0,
{
    proof {
        lemma_first_index(s@, sep);
    }
    let n: usize = s.len();
    let mut i: usize = 0;
    while i < n
        invariant
            n == s@.len(),
            0 <= i <= n,
            forall|j: int| 0 <= j < i ==> s@[j] != sep,
        decreases n - i,
    {
        if s[i] == sep {
            proof {
                lemma_first_index_unique(s@, sep, i as int);
            }
            return i;
        }
        i += 1;
    }
    proof {
        if first_index(s@, sep) >= 0 {
            assert(s@[first_index(s@, sep)] == sep);
        }
    }
    n
}

/// A position that carries `sep` with no earlier one is the first index.
proof fn lemma_first_index_unique(s: Seq<u8>, sep: u8, j: int)
    requires
        0 <= j < s.len(),
        s[j] == sep,
        forall|i: int| 0 <= i < j ==> s[i] != sep,
    ensures
        first_index(s, sep) == j,
{
    lemma_first_index(s, sep);
    let f = first_index(s, sep);
    if f < 0 {
        assert(s[j] != sep);
    } else if f < j {
        assert(s[f] != sep);
    } else if f > j {
        assert(s[j] != sep);
    }
}

/// Divide `s` at every `sep`.
pub fn split_bytes(s: &[u8], sep: u8) -> (parts: Vec<Vec<u8>>)
    ensures
        parts@.map_values(|v: Vec<u8>| v@) =~= spec_split(s@, sep),
        parts@.len() >= 1,
    decreases s@.len(),
{
    let i: usize = find_first(s, sep);
    if i == s.len() {
        let mut parts: Vec<Vec<u8>> = Vec::new();
        parts.push(slice_to_vec(s));
        proof {
            assert(parts@.map_values(|v: Vec<u8>| v@) =~= seq![s@]);
        }
        parts
    } else {
        let head: Vec<u8> = slice_to_vec(slice_subrange(s, 0, i));
        let rest: &[u8] = slice_subrange(s, i + 1, s.len());
        let mut parts = split_bytes(rest, sep);
        let ghost orig = parts@.map_values(|v: Vec<u8>| v@);
        parts.insert(0, head);
        proof {
            assert(parts@.map_values(|v: Vec<u8>| v@) =~= seq![head@] + orig);
            assert(parts@.map_values(|v: Vec<u8>| v@) =~= spec_split(s@, sep));
        }
        parts
    }
}


/// A short run of decimal digits denotes a small value.
pub proof fn lemma_dec_value_bound(s: Seq<u8>)
    requires
        forall|i: int| 0 <= i < s.len() ==> is_digit(#[trigger] s[i]),
    ensures
        dec_value(s) >= 0,
        s.len() <= 1 ==> dec_value(s) <= 9,
        s.len() <= 2 ==> dec_value(s) <= 99,
        s.len() <= 3 ==> dec_value(s) <= 999,
    decreases s.len(),
{
    if s.len() > 0 {
        assert(forall|i: int|
            0 <= i < s.drop_last().len() ==> is_digit(#[trigger] s.drop_last()[i]));
        lemma_dec_value_bound(s.drop_last());
        assert(is_digit(s.last()));
    }
}

/// A short run of hexadecimal digits denotes a small value.
pub proof fn lemma_hex_value_bound(s: Seq<u8>)
    requires
        forall|i: int| 0 <= i < s.len() ==> is_hex_digit(#[trigger] s[i]),
    ensures
        hex_value(s) >= 0,
        s.len() <= 1 ==> hex_value(s) <= 0xF,
        s.len() <= 2 ==> hex_value(s) <= 0xFF,
        s.len() <= 3 ==> hex_value(s) <= 0xFFF,
        s.len() <= 4 ==> hex_value(s) <= 0xFFFF,
    decreases s.len(),
{
    if s.len() > 0 {
        assert(forall|i: int|
            0 <= i < s.drop_last().len() ==> is_hex_digit(#[trigger] s.drop_last()[i]));
        lemma_hex_value_bound(s.drop_last());
        assert(is_hex_digit(s.last()));
    }
}

/// Whether `s` is one dotted-quad component: one to three decimal digits
/// denoting at most 255.
pub open spec fn is_ipv4_component(s: Seq<u8>) -> bool {
    &&& is_dec_run(s)
    &&& s.len() <= 3
    &&& dec_value(s) <= 255
}

/// Whether `s` is a port number: decimal digits denoting at most 65535.
pub open spec fn is_port(s: Seq<u8>) -> bool {
    &&& is_dec_run(s)
    &&& dec_value(s) <= 65535
}

/// The four octet values of a dotted-quad IPv4 address, if `s` is one.
pub open spec fn spec_parse_ipv4(s: Seq<u8>) -> Option<Seq<u8>> {
    let parts = spec_split(s, DOT);
    if parts.len() == 4 && (forall|i: int| 0 <= i < 4 ==> is_ipv4_component(#[trigger] parts[i])) {
        Some(
            seq![
                dec_value(parts[0]) as u8,
                dec_value(parts[1]) as u8,
                dec_value(parts[2]) as u8,
                dec_value(parts[3]) as u8,
            ],
        )
    } else {
        None
    }
}

/// Parse one dotted-quad component.
fn parse_ipv4_component(s: &[u8]) -> (r: Option<u8>)
    ensures
        match r {
            Some(v) => is_ipv4_component(s@) && v == dec_value(s@),
            None => !is_ipv4_component(s@),
        },
{
    let n: usize = s.len();
    if n < 1 || n > 3 {
        return None;
    }
    let mut value: u32 = 0;
    let mut i: usize = 0;
    while i < n
        invariant
            n == s@.len(),
            1 <= n <= 3,
            0 <= i <= n,
            forall|j: int| 0 <= j < i ==> is_digit(#[trigger] s@[j]),
            value == dec_value(s@.subrange(0, i as int)),
        decreases n - i,
    {
        let b = s[i];
        if b < 48 || b > 57 {
            return None;
        }
        proof {
            assert(s@.subrange(0, i as int).len() == i);
            lemma_dec_value_bound(s@.subrange(0, i as int));
            assert(s@.subrange(0, i + 1).drop_last() =~= s@.subrange(0, i as int));
        }
        value = value * 10 + ((b - 48) as u32);
        i += 1;
    }
    proof {
        assert(s@.subrange(0, n as int) =~= s@);
    }
    if value <= 255 {
        Some(value as u8)
    } else {
        None
    }
}

/// Parse a whole dotted-quad IPv4 address.
pub fn parse_ipv4(s: &[u8]) -> (r: Option<Ipv4Addr>)
    ensures
        match r {
            Some(ip) => spec_parse_ipv4(s@) == Some(ip.octets@),
            None => spec_parse_ipv4(s@) is None,
        },
{
    let parts: Vec<Vec<u8>> = split_bytes(s, DOT);
    let ghost pm = parts@.map_values(|v: Vec<u8>| v@);
    if parts.len() != 4 {
        return None;
    }
    let c0 = parse_ipv4_component(parts[0].as_slice());
    let c1 = parse_ipv4_component(parts[1].as_slice());
    let c2 = parse_ipv4_component(parts[2].as_slice());
    let c3 = parse_ipv4_component(parts[3].as_slice());
    match (c0, c1, c2, c3) {
        (Some(o0), Some(o1), Some(o2), Some(o3)) => {
            proof {
                assert forall|i: int| 0 <= i < 4 implies is_ipv4_component(#[trigger] pm[i]) by {
                    assert(pm[0] == parts@[0]@ && pm[1] == parts@[1]@ && pm[2] == parts@[2]@
                        && pm[3] == parts@[3]@);
                }
            }
            let ip = Ipv4Addr::new(o0, o1, o2, o3);
            proof {
                assert(spec_parse_ipv4(s@) == Some(ip.octets@));
            }
            Some(ip)
        },
        _ => {
            proof {
                if spec_parse_ipv4(s@) is Some {
                    assert(is_ipv4_component(pm[0]) && is_ipv4_component(pm[1])
                        && is_ipv4_component(pm[2]) && is_ipv4_component(pm[3]));
                }
            }
            None
        },
    }
}

/// Parse a port number.
fn parse_port(s: &[u8]) -> (r: Option<u16>)
    ensures
        match r {
            Some(v) => is_port(s@) && v == dec_value(s@),
            None => !is_port(s@),
        },
{
    let n: usize = s.len();
    if n == 0 {
        return None;
    }
    let mut value: u32 = 0;
    let mut i: usize = 0;
    while i < n
        invariant
            n == s@.len(),
            0 <= i <= n,
            forall|j: int| 0 <= j < i ==> is_digit(#[trigger] s@[j]),
            value == vstd::math::min(dec_value(s@.subrange(0, i as int)), 100000),
            dec_value(s@.subrange(0, i as int)) >= 0,
        decreases n - i,
    {
        let b = s[i];
        if b < 48 || b > 57 {
            return None;
        }
        proof {
            assert(s@.subrange(0, i as int).len() == i);
            lemma_dec_value_bound(s@.subrange(0, i as int));
            assert(s@.subrange(0, i + 1).drop_last() =~= s@.subrange(0, i as int));
        }
        let t: u32 = value * 10 + ((b - 48) as u32);
        value = if t > 100000 {
            100000
        } else {
            t
        };
        i += 1;
    }
    proof {
        assert(s@.subrange(0, n as int) =~= s@);
    }
    if value <= 65535 {
        Some(value as u16)
    } else {
        None
    }
}

/// Parse one IPv6 group of one to four hexadecimal digits.
fn parse_hex_group(s: &[u8]) -> (r: Option<u16>)
    ensures
        match r {
            Some(v) => is_hex_group(s@) && v == hex_value(s@),
            None => !is_hex_group(s@),
        },
{
    let n: usize = s.len();
    if n < 1 || n > 4 {
        return None;
    }
    let mut value: u32 = 0;
    let mut i: usize = 0;
    while i < n
        invariant
            n == s@.len(),
            1 <= n <= 4,
            0 <= i <= n,
            forall|j: int| 0 <= j < i ==> is_hex_digit(#[trigger] s@[j]),
            value == hex_value(s@.subrange(0, i as int)),
        decreases n - i,
    {
        let b = s[i];
        let d: u32 = if 48 <= b && b <= 57 {
            (b - 48) as u32
        } else if 97 <= b && b <= 102 {
            (b - 87) as u32
        } else if 65 <= b && b <= 70 {
            (b - 55) as u32
        } else {
            return None;
        };
        proof {
            assert(s@.subrange(0, i as int).len() == i);
            lemma_hex_value_bound(s@.subrange(0, i as int));
            assert(s@.subrange(0, i + 1).drop_last() =~= s@.subrange(0, i as int));
        }
        value = value * 16 + d;
        i += 1;
    }
    proof {
        assert(s@.subrange(0, n as int) =~= s@);
        lemma_hex_value_bound(s@);
    }
    Some(value as u16)
}

/// Whether every part in `from .. to` is a hexadecimal group.
pub open spec fn all_hex_groups(parts: Seq<Seq<u8>>, from: int, to: int) -> bool {
    forall|i: int| from <= i < to ==> is_hex_group(#[trigger] parts[i])
}

/// The group values of the parts in `from .. to`.
pub open spec fn group_values(parts: Seq<Seq<u8>>, from: int, to: int) -> Seq<u16>
    decreases to - from,
{
    if from >= to {
        Seq::empty()
    } else {
        seq![hex_value(parts[from]) as u16] + group_values(parts, from + 1, to)
    }
}

/// `n` zero groups.
pub open spec fn zero_segs(n: int) -> Seq<u16> {
    Seq::new(
        if n >= 0 {
            n as nat
        } else {
            0
        },
        |i: int| 0u16,
    )
}

proof fn lemma_group_values_snoc(parts: Seq<Seq<u8>>, from: int, to: int)
    requires
        from <= to,
    ensures
        group_values(parts, from, to + 1) =~= group_values(parts, from, to).push(
            hex_value(parts[to]) as u16,
        ),
    decreases to - from,
{
    if from < to {
        lemma_group_values_snoc(parts, from + 1, to);
        assert(group_values(parts, from, to + 1) =~= seq![hex_value(parts[from]) as u16]
            + group_values(parts, from + 1, to + 1));
        assert(group_values(parts, from, to) =~= seq![hex_value(parts[from]) as u16]
            + group_values(parts, from + 1, to));
    } else {
        assert(group_values(parts, from, to + 1) =~= seq![hex_value(parts[to]) as u16]
            + group_values(parts, to + 1, to + 1));
        assert(group_values(parts, from, to) =~= Seq::<u16>::empty());
    }
}

/// Parse the parts in `from .. to` as hexadecimal groups, returning their
/// values.
fn parse_groups(parts: &Vec<Vec<u8>>, from: usize, to: usize) -> (r: Option<Vec<u16>>)
    requires
        from <= to <= parts@.len(),
    ensures
        match r {
            Some(vals) => {
                &&& all_hex_groups(parts@.map_values(|v: Vec<u8>| v@), from as int, to as int)
                &&& vals@ =~= group_values(
                    parts@.map_values(|v: Vec<u8>| v@),
                    from as int,
                    to as int,
                )
                &&& vals@.len() == to - from
            },
            None => !all_hex_groups(parts@.map_values(|v: Vec<u8>| v@), from as int, to as int),
        },
{
    let ghost pm = parts@.map_values(|v: Vec<u8>| v@);
    let mut vals: Vec<u16> = Vec::new();
    let mut i: usize = from;
    while i < to
        invariant
            from <= i <= to <= parts@.len(),
            pm == parts@.map_values(|v: Vec<u8>| v@),
            forall|j: int| from <= j < i ==> is_hex_group(#[trigger] pm[j]),
            vals@ =~= group_values(pm, from as int, i as int),
            vals@.len() == i - from,
        decreases to - i,
    {
        match parse_hex_group(parts[i].as_slice()) {
            Some(v) => {
                proof {
                    assert(pm[i as int] == parts@[i as int]@);
                    lemma_group_values_snoc(pm, from as int, i as int);
                }
                vals.push(v);
            },
            None => {
                proof {
                    assert(pm[i as int] == parts@[i as int]@);
                }
                return None;
            },
        }
        i += 1;
    }
    Some(vals)
}

/// The position of the first empty part, or `-1` if none is empty.
pub open spec fn first_empty(parts: Seq<Seq<u8>>) -> int
    decreases parts.len(),
{
    if parts.len() == 0 {
        -1
    } else if parts[0].len() == 0 {
        0
    } else {
        let r = first_empty(parts.drop_first());
        if r < 0 {
            -1
        } else {
            r + 1
        }
    }
}

proof fn lemma_first_empty(parts: Seq<Seq<u8>>)
    ensures
        first_empty(parts) >= 0 ==> {
            &&& first_empty(parts) < parts.len()
            &&& parts[first_empty(parts)].len() == 0
            &&& forall|i: int| 0 <= i < first_empty(parts) ==> parts[i].len() != 0
        },
        first_empty(parts) < 0 ==> forall|i: int| 0 <= i < parts.len() ==> parts[i].len() != 0,
    decreases parts.len(),
{
    if parts.len() == 0 {
    } else if parts[0].len() == 0 {
    } else {
        lemma_first_empty(parts.drop_first());
        let r = first_empty(parts.drop_first());
        if r >= 0 {
            assert forall|i: int| 0 <= i < r + 1 implies parts[i].len() != 0 by {
                if i > 0 {
                    assert(parts.drop_first()[i - 1].len() != 0);
                }
            }
        } else {
            assert forall|i: int| 0 <= i < parts.len() implies parts[i].len() != 0 by {
                if i > 0 {
                    assert(parts.drop_first()[i - 1].len() != 0);
                }
            }
        }
    }
}

/// The eight group values of an IPv6 address written as colon-separated
/// hexadecimal groups, if `s` is one: either eight groups in full, or
/// fewer with one `::` (leading, trailing, interior, or alone) standing
/// for the omitted zero groups.
pub open spec fn spec_parse_ipv6(s: Seq<u8>) -> Option<Seq<u16>> {
    let parts = spec_split(s, COLON);
    let n = parts.len() as int;
    if n == 8 && all_hex_groups(parts, 0, 8) {
        Some(group_values(parts, 0, 8))
    } else if s.len() == 2 && s[0] == COLON && s[1] == COLON {
        Some(zero_segs(8))
    } else if n >= 3 && parts[0].len() == 0 && parts[1].len() == 0 && n - 2 <= 7 && all_hex_groups(
        parts,
        2,
        n,
    ) {
        Some(zero_segs(8 - (n - 2)) + group_values(parts, 2, n))
    } else if n >= 3 && parts[n - 1].len() == 0 && parts[n - 2].len() == 0 && n - 2 <= 7
        && all_hex_groups(parts, 0, n - 2) {
        Some(group_values(parts, 0, n - 2) + zero_segs(8 - (n - 2)))
    } else if n >= 3 && n - 1 <= 7 && 1 <= first_empty(parts) <= n - 2 && all_hex_groups(
        parts,
        0,
        first_empty(parts),
    ) && all_hex_groups(parts, first_empty(parts) + 1, n) {
        let j = first_empty(parts);
        Some(
            group_values(parts, 0, j) + zero_segs(8 - (n - 1)) + group_values(parts, j + 1, n),
        )
    } else {
        None
    }
}


proof fn lemma_first_empty_unique(parts: Seq<Seq<u8>>, j: int)
    requires
        0 <= j < parts.len(),
        parts[j].len() == 0,
        forall|i: int| 0 <= i < j ==> parts[i].len() != 0,
    ensures
        first_empty(parts) == j,
{
    lemma_first_empty(parts);
    let f = first_empty(parts);
    if f < 0 {
        assert(parts[j].len() != 0);
    } else if f < j {
        assert(parts[f].len() != 0);
    } else if f > j {
        assert(parts[j].len() != 0);
    }
}

/// Find the first empty part, as an index, or `parts.len()` if none.
fn find_first_empty(parts: &Vec<Vec<u8>>) -> (r: usize)
    ensures
        r <= parts@.len(),
        r < parts@.len() ==> first_empty(parts@.map_values(|v: Vec<u8>| v@)) == r,
        r == parts@.len() ==> first_empty(parts@.map_values(|v: Vec<u8>| v@)) < 0,
{
    let ghost pm = parts@.map_values(|v: Vec<u8>| v@);
    proof {
        lemma_first_empty(pm);
    }
    let n: usize = parts.len();
    let mut i: usize = 0;
    while i < n
        invariant
            pm == parts@.map_values(|v: Vec<u8>| v@),
            n == parts@.len(),
            0 <= i <= n,
            forall|j: int| 0 <= j < i ==> (#[trigger] pm[j]).len() != 0,
        decreases n - i,
    {
        if parts[i].len() == 0 {
            proof {
                assert(pm[i as int] == parts@[i as int]@);
                lemma_first_empty_unique(pm, i as int);
            }
            return i;
        }
        proof {
            assert(pm[i as int] == parts@[i as int]@);
        }
        i += 1;
    }
    proof {
        if first_empty(pm) >= 0 {
            assert(pm[first_empty(pm)].len() == 0);
        }
    }
    n
}

/// Append `count` zero groups.
fn push_zeros(vals: &mut Vec<u16>, count: usize)
    ensures
        final(vals)@ =~= old(vals)@ + zero_segs(count as int),
{
    let mut k: usize = 0;
    while k < count
        invariant
            0 <= k <= count,
            vals@ =~= old(vals)@ + zero_segs(k as int),
        decreases count - k,
    {
        vals.push(0);
        k += 1;
    }
}

/// Append all of `src`.
fn append_groups(vals: &mut Vec<u16>, src: &Vec<u16>)
    ensures
        final(vals)@ =~= old(vals)@ + src@,
{
    let n: usize = src.len();
    let mut k: usize = 0;
    while k < n
        invariant
            n == src@.len(),
            0 <= k <= n,
            vals@ =~= old(vals)@ + src@.subrange(0, k as int),
        decreases n - k,
    {
        vals.push(src[k]);
        k += 1;
    }
    proof {
        assert(src@.subrange(0, n as int) =~= src@);
    }
}

/// Parse an IPv6 address into its eight group values.
fn parse_ipv6_segs(s: &[u8]) -> (r: Option<Vec<u16>>)
    ensures
        match r {
            Some(vals) => spec_parse_ipv6(s@) == Some(vals@) && vals@.len() == 8,
            None => spec_parse_ipv6(s@) is None,
        },
{
    let parts: Vec<Vec<u8>> = split_bytes(s, COLON);
    let ghost pm = parts@.map_values(|v: Vec<u8>| v@);
    let n: usize = parts.len();

    if n == 8 {
        match parse_groups(&parts, 0, 8) {
            Some(vals) => {
                return Some(vals);
            },
            None => {},
        }
    }
    if s.len() == 2 && s[0] == COLON && s[1] == COLON {
        let mut vals: Vec<u16> = Vec::new();
        push_zeros(&mut vals, 8);
        proof {
            assert(vals@ =~= zero_segs(8));
        }
        return Some(vals);
    }
    if n >= 3 && parts[0].len() == 0 && parts[1].len() == 0 && n - 2 <= 7 {
        proof {
            assert(pm[0] == parts@[0]@ && pm[1] == parts@[1]@);
        }
        match parse_groups(&parts, 2, n) {
            Some(tail) => {
                let mut vals: Vec<u16> = Vec::new();
                push_zeros(&mut vals, 8 - (n - 2));
                append_groups(&mut vals, &tail);
                proof {
                    assert(vals@ =~= zero_segs(8 - (n - 2)) + group_values(pm, 2, n as int));
                }
                return Some(vals);
            },
            None => {},
        }
    }
    if n >= 3 && parts[n - 1].len() == 0 && parts[n - 2].len() == 0 && n - 2 <= 7 {
        proof {
            assert(pm[n - 1] == parts@[n - 1]@ && pm[n - 2] == parts@[n - 2]@);
        }
        match parse_groups(&parts, 0, n - 2) {
            Some(head) => {
                let mut vals: Vec<u16> = Vec::new();
                append_groups(&mut vals, &head);
                push_zeros(&mut vals, 8 - (n - 2));
                proof {
                    assert(vals@ =~= group_values(pm, 0, n - 2) + zero_segs(8 - (n - 2)));
                }
                return Some(vals);
            },
            None => {},
        }
    }
    let j: usize = find_first_empty(&parts);
    if n >= 3 && n - 1 <= 7 && 1 <= j && j + 2 <= n {
        match parse_groups(&parts, 0, j) {
            Some(head) => {
                match parse_groups(&parts, j + 1, n) {
                    Some(tail) => {
                        let mut vals: Vec<u16> = Vec::new();
                        append_groups(&mut vals, &head);
                        push_zeros(&mut vals, 8 - (n - 1));
                        append_groups(&mut vals, &tail);
                        proof {
                            assert(vals@ =~= group_values(pm, 0, j as int) + zero_segs(
                                8 - (n - 1),
                            ) + group_values(pm, j + 1, n as int));
                        }
                        return Some(vals);
                    },
                    None => {},
                }
            },
            None => {},
        }
    }
    proof {
        if spec_parse_ipv6(s@) is Some {
            if j < n {
                assert(pm[j as int].len() == 0);
            }
            assert(first_empty(pm) == if j < n {
                j as int
            } else {
                -1int
            });
            assert(false);
        }
    }
    None
}

/// The sixteen octets of a sequence of 16-bit groups, each split into its
/// high and low octet.
pub open spec fn segs_bytes(segs: Seq<u16>) -> Seq<u8>
    decreases segs.len(),
{
    if segs.len() == 0 {
        Seq::empty()
    } else {
        seq![(segs[0] / 0x100) as u8, (segs[0] % 0x100) as u8] + segs_bytes(segs.drop_first())
    }
}

proof fn lemma_segs_bytes8(segs: Seq<u16>)
    requires
        segs.len() == 8,
    ensures
        segs_bytes(segs) =~= seq![
            (segs[0] / 0x100) as u8,
            (segs[0] % 0x100) as u8,
            (segs[1] / 0x100) as u8,
            (segs[1] % 0x100) as u8,
            (segs[2] / 0x100) as u8,
            (segs[2] % 0x100) as u8,
            (segs[3] / 0x100) as u8,
            (segs[3] % 0x100) as u8,
            (segs[4] / 0x100) as u8,
            (segs[4] % 0x100) as u8,
            (segs[5] / 0x100) as u8,
            (segs[5] % 0x100) as u8,
            (segs[6] / 0x100) as u8,
            (segs[6] % 0x100) as u8,
            (segs[7] / 0x100) as u8,
            (segs[7] % 0x100) as u8,
        ],
{
    let s1 = segs.drop_first();
    let s2 = s1.drop_first();
    let s3 = s2.drop_first();
    let s4 = s3.drop_first();
    let s5 = s4.drop_first();
    let s6 = s5.drop_first();
    let s7 = s6.drop_first();
    let s8 = s7.drop_first();
    assert(segs_bytes(s8) =~= Seq::<u8>::empty());
    assert(segs_bytes(s7) =~= seq![(s7[0] / 0x100) as u8, (s7[0] % 0x100) as u8] + segs_bytes(s8));
    assert(segs_bytes(s6) =~= seq![(s6[0] / 0x100) as u8, (s6[0] % 0x100) as u8] + segs_bytes(s7));
    assert(segs_bytes(s5) =~= seq![(s5[0] / 0x100) as u8, (s5[0] % 0x100) as u8] + segs_bytes(s6));
    assert(segs_bytes(s4) =~= seq![(s4[0] / 0x100) as u8, (s4[0] % 0x100) as u8] + segs_bytes(s5));
    assert(segs_bytes(s3) =~= seq![(s3[0] / 0x100) as u8, (s3[0] % 0x100) as u8] + segs_bytes(s4));
    assert(segs_bytes(s2) =~= seq![(s2[0] / 0x100) as u8, (s2[0] % 0x100) as u8] + segs_bytes(s3));
    assert(segs_bytes(s1) =~= seq![(s1[0] / 0x100) as u8, (s1[0] % 0x100) as u8] + segs_bytes(s2));
}

/// Parse a whole IPv6 address.
pub fn parse_ipv6(s: &[u8]) -> (r: Option<Ipv6Addr>)
    ensures
        match r {
            Some(ip) => spec_parse_ipv6(s@) matches Some(segs) && ip.octets@ =~= segs_bytes(segs),
            None => spec_parse_ipv6(s@) is None,
        },
{
    match parse_ipv6_segs(s) {
        Some(vals) => {
            let ip = Ipv6Addr::new(
                vals[0],
                vals[1],
                vals[2],
                vals[3],
                vals[4],
                vals[5],
                vals[6],
                vals[7],
            );
            proof {
                lemma_segs_bytes8(vals@);
            }
            Some(ip)
        },
        None => None,
    }
}

/// The abstract value an address string denotes: the four octet values of
/// an IPv4 address, or the eight group values of an IPv6 address.
pub enum SpecIp {
    V4(Seq<u8>),
    V6(Seq<u16>),
}

/// An address written plainly, without brackets or port: IPv4 first, IPv6
/// otherwise.
pub open spec fn spec_parse_ip_plain(s: Seq<u8>) -> Option<SpecIp> {
    match spec_parse_ipv4(s) {
        Some(o) => Some(SpecIp::V4(o)),
        None => match spec_parse_ipv6(s) {
            Some(g) => Some(SpecIp::V6(g)),
            None => None,
        },
    }
}

/// An address joined with a port: either `[` IPv6 `]:` port, or IPv4 `:`
/// port. The port is checked and discarded.
pub open spec fn spec_parse_socket(s: Seq<u8>) -> Option<SpecIp> {
    if s.len() >= 1 && s[0] == LBRACKET {
        let r = first_index(s, RBRACKET);
        if 0 <= r && r + 1 < s.len() && s[r + 1] == COLON {
            match spec_parse_ipv6(s.subrange(1, r)) {
                Some(segs) => if is_port(s.subrange(r + 2, s.len() as int)) {
                    Some(SpecIp::V6(segs))
                } else {
                    None
                },
                None => None,
            }
        } else {
            None
        }
    } else {
        let j = first_index(s, COLON);
        if 0 <= j < s.len() {
            match spec_parse_ipv4(s.subrange(0, j)) {
                Some(o) => if is_port(s.subrange(j + 1, s.len() as int)) {
                    Some(SpecIp::V4(o))
                } else {
                    None
                },
                None => None,
            }
        } else {
            None
        }
    }
}

/// Any accepted source-address form: a trailing `]` selects the bracketed
/// form (the first byte, expected to be `[`, is skipped); otherwise a plain
/// address is tried, then an address with a port.
pub open spec fn spec_parse_ip(s: Seq<u8>) -> Option<SpecIp> {
    if s.len() >= 1 && s[s.len() - 1] == RBRACKET {
        if s.len() >= 2 {
            spec_parse_ip_plain(s.subrange(1, s.len() - 1))
        } else {
            None
        }
    } else if spec_parse_ip_plain(s) is Some {
        spec_parse_ip_plain(s)
    } else {
        spec_parse_socket(s)
    }
}

/// Whether the parsed address `r` denotes exactly the abstract value `sp`.
pub open spec fn ip_matches_spec(r: Option<IpAddr>, sp: Option<SpecIp>) -> bool {
    match r {
        Some(IpAddr::V4(v4)) => sp matches Some(SpecIp::V4(o)) && v4.octets@ == o,
        Some(IpAddr::V6(v6)) => sp matches Some(SpecIp::V6(g)) && v6.octets@ == segs_bytes(g),
        None => sp is None,
    }
}

fn parse_ip_plain(s: &[u8]) -> (r: Option<IpAddr>)
    ensures
        ip_matches_spec(r, spec_parse_ip_plain(s@)),
{
    match parse_ipv4(s) {
        Some(v4) => Some(IpAddr::V4(v4)),
        None => match parse_ipv6(s) {
            Some(v6) => Some(IpAddr::V6(v6)),
            None => None,
        },
    }
}

fn parse_socket(s: &[u8]) -> (r: Option<IpAddr>)
    ensures
        ip_matches_spec(r, spec_parse_socket(s@)),
{
    let n: usize = s.len();
    if n >= 1 && s[0] == LBRACKET {
        let rb: usize = find_first(s, RBRACKET);
        if rb < n && rb + 1 < n && s[rb + 1] == COLON {
            match parse_ipv6(slice_subrange(s, 1, rb)) {
                Some(v6) => match parse_port(slice_subrange(s, rb + 2, n)) {
                    Some(_) => Some(IpAddr::V6(v6)),
                    None => None,
                },
                None => None,
            }
        } else {
            proof {
                lemma_first_index(s@, RBRACKET);
            }
            None
        }
    } else {
        let j: usize = find_first(s, COLON);
        if j < n {
            match parse_ipv4(slice_subrange(s, 0, j)) {
                Some(v4) => match parse_port(slice_subrange(s, j + 1, n)) {
                    Some(_) => Some(IpAddr::V4(v4)),
                    None => None,
                },
                None => None,
            }
        } else {
            None
        }
    }
}

fn parse_ip_bytes(s: &[u8]) -> (r: Option<IpAddr>)
    ensures
        ip_matches_spec(r, spec_parse_ip(s@)),
{
    let n: usize = s.len();
    if n >= 1 && s[n - 1] == RBRACKET {
        if n >= 2 {
            parse_ip_plain(slice_subrange(s, 1, n - 1))
        } else {
            None
        }
    } else {
        match parse_ip_plain(s) {
            Some(ip) => Some(ip),
            None => parse_socket(s),
        }
    }
}

/// Parse a source address in any accepted form.
pub fn parse_ip(addr: &str) -> (r: Option<IpAddr>)
    ensures
        ip_matches_spec(r, spec_parse_ip(addr.spec_bytes())),
{
    parse_ip_bytes(addr.as_bytes())
}

/// Parse a source address, substituting the loopback address when the text
/// is unparseable — unattributable requests share one least-restrictive
/// key rather than failing.
pub fn parse_ip_or_loopback(addr: &str) -> (r: IpAddr)
    ensures
        spec_parse_ip(addr.spec_bytes()) is Some ==> ip_matches_spec(
            Some(r),
            spec_parse_ip(addr.spec_bytes()),
        ),
        spec_parse_ip(addr.spec_bytes()) is None ==> (r matches IpAddr::V4(v4) && v4.octets@
            =~= seq![127u8, 0u8, 0u8, 1u8]),
{
    match parse_ip(addr) {
        Some(ip) => ip,
        None => IpAddr::V4(Ipv4Addr::loopback()),
    }
}

} // verus!
