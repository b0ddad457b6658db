//! Client-address parsing for the challenge verifier. The proxy layer
//! hands over a textual address; a string with a colon is read as a
//! socket address (IPv4 or bracketed IPv6 with a port) and reduced to
//! its IP component, anything else as a bare IPv4 literal.

use vstd::prelude::*;
use vstd::slice::slice_subrange;

verus! {

/// A resolved client address, as plain values.
#[derive(Clone, Copy, Debug, PartialEq, Eq, Structural)]
pub enum IpAddress {
    V4(u8, u8, u8, u8),
    V6(u16, u16, u16, u16, u16, u16, u16, u16),
}

pub open spec fn is_dec_digit(b: u8) -> bool {
    48 <= b <= 57
}

pub open spec fn dec_val(b: u8) -> int {
    b - 48
}

pub open spec fn all_dec_digits(s: Seq<u8>) -> bool {
    forall|i: int| 0 <= i < s.len() ==> is_dec_digit(#[trigger] s[i])
}

/// Value of an all-digit run read as decimal.
pub open spec fn dec_seq_val(s: Seq<u8>) -> int
    decreases s.len(),
{
    if s.len() == 0 {
        0
    } else {
        dec_seq_val(s.drop_last()) * 10 + dec_val(s.last())
    }
}

pub proof fn lemma_dec_seq_val_bound(s: Seq<u8>)
    requires
        all_dec_digits(s),
    ensures
        0 <= dec_seq_val(s),
        s.len() <= 1 ==> dec_seq_val(s) <= 9,
        s.len() <= 2 ==> dec_seq_val(s) <= 99,
        s.len() <= 3 ==> dec_seq_val(s) <= 999,
        s.len() <= 4 ==> dec_seq_val(s) <= 9999,
        s.len() <= 5 ==> dec_seq_val(s) <= 99999,
    decreases s.len(),
{
    if s.len() > 0 {
        assert(all_dec_digits(s.drop_last()));
        lemma_dec_seq_val_bound(s.drop_last());
    }
}

pub open spec fn is_hex_digit(b: u8) -> bool {
    is_dec_digit(b) || 97 <= b <= 102 || 65 <= b <= 70
}

pub open spec fn hex_val(b: u8) -> int {
    if is_dec_digit(b) {
        b - 48
    } else if 97 <= b <= 102 {
        b - 87
    } else {
        b - 55
    }
}

pub open spec fn all_hex_digits(s: Seq<u8>) -> bool {
    forall|i: int| 0 <= i < s.len() ==> is_hex_digit(#[trigger] s[i])
}

/// Value of an all-hex-digit run.
pub open spec fn hex_seq_val(s: Seq<u8>) -> int
    decreases s.len(),
{
    if s.len() == 0 {
        0
    } else {
        hex_seq_val(s.drop_last()) * 16 + hex_val(s.last())
    }
}

pub proof fn lemma_hex_seq_val_bound(s: Seq<u8>)
    requires
        all_hex_digits(s),
    ensures
        0 <= hex_seq_val(s),
        s.len() <= 1 ==> hex_seq_val(s) <= 0xf,
        s.len() <= 2 ==> hex_seq_val(s) <= 0xff,
        s.len() <= 3 ==> hex_seq_val(s) <= 0xfff,
        s.len() <= 4 ==> hex_seq_val(s) <= 0xffff,
    decreases s.len(),
{
    if s.len() > 0 {
        assert(all_hex_digits(s.drop_last()));
        lemma_hex_seq_val_bound(s.drop_last());
    }
}

/// First index at or past `from` holding `b`, or the length if none.
pub open spec fn spec_find(s: Seq<u8>, b: u8, from: int) -> int
    decreases s.len() - from when 0 <= from <= s.len()
{
    if from >= s.len() {
        s.len() as int
    } else if s[from] == b {
        from
    } else {
        spec_find(s, b, from + 1)
    }
}

pub proof fn lemma_find_props(s: Seq<u8>, b: u8, from: int)
    requires
        0 <= from <= s.len(),
    ensures
        from <= spec_find(s, b, from) <= s.len(),
        spec_find(s, b, from) < s.len() ==> s[spec_find(s, b, from)] == b,
        forall|i: int| from <= i < spec_find(s, b, from) ==> s[i] != b,
    decreases s.len() - from,
{
    if from < s.len() && s[from] != b {
        lemma_find_props(s, b, from + 1);
    }
}

/// First index where `::` starts, or the length if none.
pub open spec fn spec_find_dc(s: Seq<u8>, from: int) -> int
    decreases s.len() - from when 0 <= from <= s.len()
{
    if from + 1 >= s.len() {
        s.len() as int
    } else if s[from] == 58 && s[from + 1] == 58 {
        from
    } else {
        spec_find_dc(s, from + 1)
    }
}

pub proof fn lemma_find_dc_props(s: Seq<u8>, from: int)
    requires
        0 <= from <= s.len(),
    ensures
        from <= spec_find_dc(s, from) <= s.len(),
        spec_find_dc(s, from) < s.len() ==> spec_find_dc(s, from) + 1 < s.len() && s[spec_find_dc(
            s,
            from,
        )] == 58 && s[spec_find_dc(s, from) + 1] == 58,
    decreases s.len() - from,
{
    if from + 1 < s.len() && !(s[from] == 58 && s[from + 1] == 58) {
        lemma_find_dc_props(s, from + 1);
    }
}

fn find_byte(s: &[u8], b: u8, from: usize) -> (r: usize)
    requires
        from <= s@.len(),
    ensures
        r == spec_find(s@, b, from as int),
{
    let n = s.len();
    let mut i = from;
    while i < n
        invariant
            from <= i <= n,
            n == s@.len(),
            spec_find(s@, b, from as int) == spec_find(s@, b, i as int),
        decreases n - i,
    {
        if s[i] == b {
            return i;
        }
        i += 1;
    }
    i
}

fn find_double_colon(s: &[u8]) -> (r: usize)
    ensures
        r == spec_find_dc(s@, 0),
{
    let n = s.len();
    let mut i: usize = 0;
    while i < n && i + 1 < n
        invariant
            i <= n,
            n == s@.len(),
            spec_find_dc(s@, 0) == spec_find_dc(s@, i as int),
        decreases n - i,
    {
        if s[i] == 58 && s[i + 1] == 58 {
            return i;
        }
        i += 1;
    }
    n
}

/// A valid IPv4 octet: one to three digits, no leading zero, at most
/// 255.
pub open spec fn spec_octet(s: Seq<u8>) -> Option<u8> {
    if 1 <= s.len() <= 3 && all_dec_digits(s) && (s[0] == 48 ==> s.len() == 1) && dec_seq_val(s)
        <= 255 {
        Some(dec_seq_val(s) as u8)
    } else {
        None
    }
}

fn parse_octet(s: &[u8]) -> (r: Option<u8>)
    ensures
        r == spec_octet(s@),
{
    let n = s.len();
    if n == 0 || n > 3 {
        return None;
    }
    let mut val: u32 = 0;
    let mut i: usize = 0;
    while i < n
        invariant
            n == s@.len(),
            1 <= n <= 3,
            i <= n,
            all_dec_digits(s@.take(i as int)),
            val == dec_seq_val(s@.take(i as int)),
            0 <= val <= 999,
        decreases n - i,
    {
        let b = s[i];
        if b < 48 || b > 57 {
            proof {
                assert(!is_dec_digit(s@[i as int]));
            }
            return None;
        }
        proof {
            assert(s@.take(i + 1).drop_last() =~= s@.take(i as int));
            assert(s@.take(i + 1).last() == s@[i as int]);
            assert(all_dec_digits(s@.take(i + 1)));
            lemma_dec_seq_val_bound(s@.take(i + 1));
        }
        val = val * 10 + ((b - 48) as u32);
        i += 1;
    }
    proof {
        assert(s@.take(n as int) =~= s@);
    }
    if s[0] == 48 && n > 1 {
        return None;
    }
    if val > 255 {
        return None;
    }
    Some(val as u8)
}

/// A valid IPv6 group: one to four hex digits.
pub open spec fn spec_hex16(s: Seq<u8>) -> Option<u16> {
    if 1 <= s.len() <= 4 && all_hex_digits(s) {
        Some(hex_seq_val(s) as u16)
    } else {
        None
    }
}

fn hex_digit_val(b: u8) -> (r: Option<u8>)
    ensures
        r == if is_hex_digit(b) {
            Some(hex_val(b) as u8)
        } else {
            None::<u8>
        },
{
    if 48 <= b && b <= 57 {
        Some(b - 48)
    } else if 97 <= b && b <= 102 {
        Some(b - 87)
    } else if 65 <= b && b <= 70 {
        Some(b - 55)
    } else {
        None
    }
}

fn parse_hex16(s: &[u8]) -> (r: Option<u16>)
    ensures
        r == spec_hex16(s@),
{
    let n = s.len();
    if n == 0 || n > 4 {
        return None;
    }
    let mut val: u32 = 0;
    let mut i: usize = 0;
    while i < n
        invariant
            n == s@.len(),
            1 <= n <= 4,
            i <= n,
            all_hex_digits(s@.take(i as int)),
            val == hex_seq_val(s@.take(i as int)),
            0 <= val <= 0xffff,
        decreases n - i,
    {
        let b = s[i];
        match hex_digit_val(b) {
            Some(d) => {
                proof {
                    assert(s@.take(i + 1).drop_last() =~= s@.take(i as int));
                    assert(s@.take(i + 1).last() == s@[i as int]);
                    assert(all_hex_digits(s@.take(i + 1)));
                    lemma_hex_seq_val_bound(s@.take(i + 1));
                }
                val = val * 16 + (d as u32);
            },
            None => {
                proof {
                    assert(!is_hex_digit(s@[i as int]));
                }
                return None;
            },
        }
        i += 1;
    }
    proof {
        assert(s@.take(n as int) =~= s@);
    }
    Some(val as u16)
}

/// A valid port: one to five digits, at most 65535.
pub open spec fn spec_parse_port(s: Seq<u8>) -> Option<u16> {
    if 1 <= s.len() <= 5 && all_dec_digits(s) && dec_seq_val(s) <= 65535 {
        Some(dec_seq_val(s) as u16)
    } else {
        None
    }
}

fn parse_port(s: &[u8]) -> (r: Option<u16>)
    ensures
        r == spec_parse_port(s@),
{
    let n = s.len();
    if n == 0 || n > 5 {
        return None;
    }
    let mut val: u32 = 0;
    let mut i: usize = 0;
    while i < n
        invariant
            n == s@.len(),
            1 <= n <= 5,
            i <= n,
            all_dec_digits(s@.take(i as int)),
            val == dec_seq_val(s@.take(i as int)),
            0 <= val <= 99999,
        decreases n - i,
    {
        let b = s[i];
        if b < 48 || b > 57 {
            proof {
                assert(!is_dec_digit(s@[i as int]));
            }
            return None;
        }
        proof {
            assert(s@.take(i + 1).drop_last() =~= s@.take(i as int));
            assert(s@.take(i + 1).last() == s@[i as int]);
            assert(all_dec_digits(s@.take(i + 1)));
            lemma_dec_seq_val_bound(s@.take(i + 1));
        }
        val = val * 10 + ((b - 48) as u32);
        i += 1;
    }
    proof {
        assert(s@.take(n as int) =~= s@);
    }
    if val > 65535 {
        return None;
    }
    Some(val as u16)
}

/// Parse of a bare IPv4 literal: four valid octets joined by dots.
pub open spec fn spec_parse_ipv4(s: Seq<u8>) -> Option<IpAddress> {
    let i = spec_find(s, 46, 0);
    if i == s.len() {
        None
    } else {
        let j = spec_find(s, 46, i + 1);
        if j == s.len() {
            None
        } else {
            let k = spec_find(s, 46, j + 1);
            if k == s.len() {
                None
            } else if spec_find(s, 46, k + 1) != s.len() {
                None
            } else {
                match (spec_octet(s.subrange(0, i)), spec_octet(s.subrange(i + 1, j)), spec_octet(
                    s.subrange(j + 1, k),
                ), spec_octet(s.subrange(k + 1, s.len() as int))) {
                    (Some(a), Some(b), Some(c), Some(d)) => Some(IpAddress::V4(a, b, c, d)),
                    _ => None,
                }
            }
        }
    }
}

pub fn parse_ipv4(s: &[u8]) -> (r: Option<IpAddress>)
    ensures
        r == spec_parse_ipv4(s@),
{
    let n = s.len();
    let i = find_byte(s, 46, 0);
    proof {
        lemma_find_props(s@, 46, 0);
    }
    if i == n {
        return None;
    }
    let j = find_byte(s, 46, i + 1);
    proof {
        lemma_find_props(s@, 46, i as int + 1);
    }
    if j == n {
        return None;
    }
    let k = find_byte(s, 46, j + 1);
    proof {
        lemma_find_props(s@, 46, j as int + 1);
    }
    if k == n {
        return None;
    }
    let l = find_byte(s, 46, k + 1);
    proof {
        lemma_find_props(s@, 46, k as int + 1);
    }
    if l != n {
        return None;
    }
    let o1 = parse_octet(slice_subrange(s, 0, i));
    let o2 = parse_octet(slice_subrange(s, i + 1, j));
    let o3 = parse_octet(slice_subrange(s, j + 1, k));
    let o4 = parse_octet(slice_subrange(s, k + 1, n));
    match (o1, o2, o3, o4) {
        (Some(a), Some(b), Some(c), Some(d)) => Some(IpAddress::V4(a, b, c, d)),
        _ => None,
    }
}

/// The colon-separated groups of an IPv6 side: every group a valid
/// hex16, none empty.
pub open spec fn spec_groups(s: Seq<u8>) -> Option<Seq<u16>>
    decreases s.len() via spec_groups_decreases
{
    let i = spec_find(s, 58, 0);
    if i == s.len() {
        match spec_hex16(s) {
            Some(g) => Some(seq![g]),
            None => None,
        }
    } else {
        match spec_hex16(s.subrange(0, i)) {
            Some(g) => match spec_groups(s.subrange(i + 1, s.len() as int)) {
                Some(rest) => Some(seq![g] + rest),
                None => None,
            },
            None => None,
        }
    }
}

#[via_fn]
proof fn spec_groups_decreases(s: Seq<u8>) {
    lemma_find_props(s, 58, 0);
}

/// The two groups an embedded IPv4 tail stands for.
pub open spec fn spec_v4_tail(s: Seq<u8>) -> Option<Seq<u16>> {
    match spec_parse_ipv4(s) {
        Some(ip) => match ip {
            IpAddress::V4(a, b, c, d) => Some(
                seq![((a as int) * 256 + (b as int)) as u16, ((c as int) * 256 + (d as int)) as u16],
            ),
            _ => None,
        },
        None => None,
    }
}

/// Like `spec_groups`, but the last group may instead be a dotted IPv4
/// quad, which stands for two groups — the embedded-IPv4 tail of an
/// IPv6 literal.
pub open spec fn spec_groups_tail(s: Seq<u8>) -> Option<Seq<u16>>
    decreases s.len() via spec_groups_tail_decreases
{
    let i = spec_find(s, 58, 0);
    if i == s.len() {
        match spec_hex16(s) {
            Some(g) => Some(seq![g]),
            None => spec_v4_tail(s),
        }
    } else {
        match spec_hex16(s.subrange(0, i)) {
            Some(g) => match spec_groups_tail(s.subrange(i + 1, s.len() as int)) {
                Some(rest) => Some(seq![g] + rest),
                None => None,
            },
            None => None,
        }
    }
}

#[via_fn]
proof fn spec_groups_tail_decreases(s: Seq<u8>) {
    lemma_find_props(s, 58, 0);
}

fn parse_v4_tail(s: &[u8]) -> (r: Option<Vec<u16>>)
    ensures
        match spec_v4_tail(s@) {
            Some(g) => r is Some && r->Some_0@ == g,
            None => r is None,
        },
{
    match parse_ipv4(s) {
        Some(IpAddress::V4(a, b, c, d)) => {
            let hi: u16 = (a as u16) * 256 + (b as u16);
            let lo: u16 = (c as u16) * 256 + (d as u16);
            let mut v: Vec<u16> = Vec::new();
            v.push(hi);
            v.push(lo);
            proof {
                assert(v@ =~= spec_v4_tail(s@)->Some_0);
            }
            Some(v)
        },
        _ => None,
    }
}

fn parse_groups_tail(s: &[u8]) -> (r: Option<Vec<u16>>)
    ensures
        match spec_groups_tail(s@) {
            Some(g) => r is Some && r->Some_0@ == g,
            None => r is None,
        },
    decreases s@.len(),
{
    let n = s.len();
    let i = find_byte(s, 58, 0);
    proof {
        lemma_find_props(s@, 58, 0);
    }
    if i == n {
        match parse_hex16(s) {
            Some(g) => {
                let mut v: Vec<u16> = Vec::new();
                v.push(g);
                proof {
                    assert(v@ =~= seq![g]);
                }
                Some(v)
            },
            None => parse_v4_tail(s),
        }
    } else {
        let head = slice_subrange(s, 0, i);
        match parse_hex16(head) {
            Some(g) => {
                let tail = slice_subrange(s, i + 1, n);
                match parse_groups_tail(tail) {
                    Some(mut rest) => {
                        let mut v: Vec<u16> = Vec::new();
                        v.push(g);
                        v.append(&mut rest);
                        proof {
                            assert(v@ =~= seq![g] + spec_groups_tail(s@.subrange(
                                i as int + 1,
                                s@.len() as int,
                            ))->Some_0);
                        }
                        Some(v)
                    },
                    None => None,
                }
            },
            None => None,
        }
    }
}

fn parse_groups(s: &[u8]) -> (r: Option<Vec<u16>>)
    ensures
        match spec_groups(s@) {
            Some(g) => r is Some && r->Some_0@ == g,
            None => r is None,
        },
    decreases s@.len(),
{
    let n = s.len();
    let i = find_byte(s, 58, 0);
    proof {
        lemma_find_props(s@, 58, 0);
    }
    if i == n {
        match parse_hex16(s) {
            Some(g) => {
                let mut v: Vec<u16> = Vec::new();
                v.push(g);
                proof {
                    assert(v@ =~= seq![g]);
                }
                Some(v)
            },
            None => None,
        }
    } else {
        let head = slice_subrange(s, 0, i);
        match parse_hex16(head) {
            Some(g) => {
                let tail = slice_subrange(s, i + 1, n);
                match parse_groups(tail) {
                    Some(mut rest) => {
                        let mut v: Vec<u16> = Vec::new();
                        v.push(g);
                        v.append(&mut rest);
                        proof {
                            assert(v@ =~= seq![g] + spec_groups(s@.subrange(
                                i as int + 1,
                                s@.len() as int,
                            ))->Some_0);
                        }
                        Some(v)
                    },
                    None => None,
                }
            },
            None => None,
        }
    }
}

pub open spec fn zero_groups(n: int) -> Seq<u16> {
    Seq::new(n as nat, |i: int| 0u16)
}

/// Parse of an IPv6 literal: eight groups, or two group runs joined by
/// one `::` standing for the elided zero groups; the literal may end in
/// an embedded IPv4 quad standing for the last two groups.
pub open spec fn spec_parse_ipv6(s: Seq<u8>) -> Option<Seq<u16>> {
    let p = spec_find_dc(s, 0);
    if p == s.len() {
        match spec_groups_tail(s) {
            Some(g) => if g.len() == 8 {
                Some(g)
            } else {
                None
            },
            None => None,
        }
    } else {
        let left = s.subrange(0, p);
        let right = s.subrange(p + 2, s.len() as int);
        let gl = if left.len() == 0 {
            Some(Seq::<u16>::empty())
        } else {
            spec_groups(left)
        };
        let gr = if right.len() == 0 {
            Some(Seq::<u16>::empty())
        } else {
            spec_groups_tail(right)
        };
        match (gl, gr) {
            (Some(a), Some(b)) => if a.len() + b.len() <= 7 {
                Some(a + zero_groups(8 - a.len() - b.len()) + b)
            } else {
                None
            },
            _ => None,
        }
    }
}

pub fn parse_ipv6(s: &[u8]) -> (r: Option<Vec<u16>>)
    ensures
        match spec_parse_ipv6(s@) {
            Some(g) => r is Some && r->Some_0@ == g,
            None => r is None,
        },
{
    let n = s.len();
    let p = find_double_colon(s);
    proof {
        lemma_find_dc_props(s@, 0);
    }
    if p == n {
        match parse_groups_tail(s) {
            Some(g) => {
                if g.len() == 8 {
                    Some(g)
                } else {
                    None
                }
            },
            None => None,
        }
    } else {
        let left = slice_subrange(s, 0, p);
        let right = slice_subrange(s, p + 2, n);
        let gl = if left.len() == 0 {
            Some(Vec::<u16>::new())
        } else {
            parse_groups(left)
        };
        let gr = if right.len() == 0 {
            Some(Vec::<u16>::new())
        } else {
            parse_groups_tail(right)
        };
        match (gl, gr) {
            (Some(mut a), Some(mut b)) => {
                if a.len() <= 7 && b.len() <= 7 - a.len() {
                    let ghost spec_a = a@;
                    let ghost spec_b = b@;
                    let zeros = 8 - a.len() - b.len();
                    let mut z: usize = 0;
                    while z < zeros
                        invariant
                            z <= zeros,
                            a@ =~= spec_a + zero_groups(z as int),
                        decreases zeros - z,
                    {
                        a.push(0);
                        proof {
                            assert(a@ =~= spec_a + zero_groups(z + 1));
                        }
                        z += 1;
                    }
                    a.append(&mut b);
                    proof {
                        assert(a@ =~= spec_a + zero_groups(zeros as int) + spec_b);
                    }
                    Some(a)
                } else {
                    None
                }
            },
            _ => None,
        }
    }
}

/// Parse of a socket address: a bracketed IPv6 literal or a bare IPv4
/// literal, a colon, and a port.
pub open spec fn spec_parse_socket_addr(s: Seq<u8>) -> Option<(IpAddress, u16)> {
    if s.len() == 0 {
        None
    } else if s[0] == 91 {
        let j = spec_find(s, 93, 0);
        if j == s.len() || j + 1 == s.len() {
            None
        } else if s[j + 1] != 58 {
            None
        } else {
            match (spec_parse_ipv6(s.subrange(1, j)), spec_parse_port(
                s.subrange(j + 2, s.len() as int),
            )) {
                (Some(g), Some(p)) => Some(
                    (IpAddress::V6(g[0], g[1], g[2], g[3], g[4], g[5], g[6], g[7]), p),
                ),
                _ => None,
            }
        }
    } else {
        let i = spec_find(s, 58, 0);
        if i == s.len() {
            None
        } else {
            match (spec_parse_ipv4(s.subrange(0, i)), spec_parse_port(
                s.subrange(i + 1, s.len() as int),
            )) {
                (Some(ip), Some(p)) => Some((ip, p)),
                _ => None,
            }
        }
    }
}

pub fn parse_socket_addr(s: &[u8]) -> (r: Option<(IpAddress, u16)>)
    ensures
        r == spec_parse_socket_addr(s@),
{
    let n = s.len();
    if n == 0 {
        return None;
    }
    if s[0] == 91 {
        let j = find_byte(s, 93, 0);
        proof {
            lemma_find_props(s@, 93, 0);
        }
        if j == n || j + 1 == n {
            return None;
        }
        if s[j + 1] != 58 {
            return None;
        }
        let ip = parse_ipv6(slice_subrange(s, 1, j));
        let port = parse_port(slice_subrange(s, j + 2, n));
        match (ip, port) {
            (Some(g), Some(p)) => {
                proof {
                    assert(spec_parse_ipv6(s@.subrange(1, j as int))->Some_0.len() == 8);
                }
                Some((IpAddress::V6(g[0], g[1], g[2], g[3], g[4], g[5], g[6], g[7]), p))
            },
            _ => None,
        }
    } else {
        let i = find_byte(s, 58, 0);
        proof {
            lemma_find_props(s@, 58, 0);
        }
        if i == n {
            return None;
        }
        let ip = parse_ipv4(slice_subrange(s, 0, i));
        let port = parse_port(slice_subrange(s, i + 1, n));
        match (ip, port) {
            (Some(a), Some(p)) => Some((a, p)),
            _ => None,
        }
    }
}

/// How the verifier reads the proxy-resolved address: with a colon in
/// it, as a socket address reduced to its IP; otherwise as a bare IPv4
/// literal.
pub open spec fn spec_resolve_client_ip(s: Seq<u8>) -> Option<IpAddress> {
    if spec_find(s, 58, 0) < s.len() {
        match spec_parse_socket_addr(s) {
            Some((ip, p)) => Some(ip),
            None => None,
        }
    } else {
        spec_parse_ipv4(s)
    }
}

pub fn resolve_client_ip(s: &[u8]) -> (r: Option<IpAddress>)
    ensures
        r == spec_resolve_client_ip(s@),
{
    let n = s.len();
    let c = find_byte(s, 58, 0);
    proof {
        lemma_find_props(s@, 58, 0);
    }
    if c < n {
        match parse_socket_addr(s) {
            Some((ip, _p)) => Some(ip),
            None => None,
        }
    } else {
        parse_ipv4(s)
    }
}

} // verus!
