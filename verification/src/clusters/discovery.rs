//! Discovery sources: the static endpoint list read from configuration,
//! and the DNS source that turns resolved addresses into backends.

use vstd::prelude::*;
use vstd::string::*;

use crate::clusters::errors::ClusterError;
use crate::config::def::{IpAddress, SocketAddress};
use crate::config::value::ConfValue;
use crate::utils::{spec_decimal, spec_digit_char};

verus! {

/// One backend: its socket address and its weight.
#[derive(Clone, Copy, PartialEq, Eq, Structural, Debug)]
pub struct BackendEndpoint {
    pub addr: SocketAddress,
    pub weight: u16,
}

/// The canonical text of an IPv4 socket address, `a.b.c.d:port`.
pub open spec fn spec_render_sockaddr(a: SocketAddress) -> Seq<char> {
    match a.ip {
        IpAddress::V4(o1, o2, o3, o4) => spec_decimal(o1 as int) + seq!['.'] + spec_decimal(
            o2 as int,
        ) + seq!['.'] + spec_decimal(o3 as int) + seq!['.'] + spec_decimal(o4 as int) + seq![':']
            + spec_decimal(a.port as int),
        IpAddress::V6(_) => Seq::empty(),
    }
}

/// The first position of `c` in `s`, at or after `from`.
pub open spec fn spec_find_from(s: Seq<char>, from: int, c: char) -> Option<int>
    decreases s.len() - from,
{
    if from < 0 || from >= s.len() {
        None
    } else if s[from] == c {
        Some(from)
    } else {
        spec_find_from(s, from + 1, c)
    }
}

/// The value of the digits between `from` and `to`, folded onto `acc`;
/// nothing when something other than a digit stands there.
pub open spec fn spec_digits_value(s: Seq<char>, from: int, to: int, acc: int) -> Option<int>
    decreases to - from,
{
    if from >= to {
        Some(acc)
    } else if !('0' <= s[from] && s[from] <= '9') {
        None
    } else {
        spec_digits_value(s, from + 1, to, acc * 10 + (s[from] as int - 48))
    }
}

/// The strict decimal number between `from` and `to`: nonempty, digits
/// only, no leading zero, at most `max`.
pub open spec fn spec_parse_num(s: Seq<char>, from: int, to: int, max: int) -> Option<int> {
    if from >= to {
        None
    } else if !('0' <= s[from] && s[from] <= '9') {
        None
    } else if s[from] == '0' && to - from > 1 {
        None
    } else {
        match spec_digits_value(s, from, to, 0) {
            Some(v) => if v <= max {
                Some(v)
            } else {
                None
            },
            None => None,
        }
    }
}

/// Whether `c` is a hexadecimal digit.
pub open spec fn spec_is_hex(c: char) -> bool {
    ('0' <= c && c <= '9') || ('a' <= c && c <= 'f') || ('A' <= c && c <= 'F')
}

/// The value of a hexadecimal digit.
pub open spec fn spec_hex_digit(c: char) -> int {
    if '0' <= c && c <= '9' {
        c as int - 48
    } else if 'a' <= c && c <= 'f' {
        c as int - 87
    } else {
        c as int - 55
    }
}

/// The value of the hexadecimal digits between `from` and `to`, folded
/// onto `acc`; nothing when something else stands there.
pub open spec fn spec_hex_fold(s: Seq<char>, from: int, to: int, acc: int) -> Option<int>
    decreases to - from,
{
    if from >= to {
        Some(acc)
    } else if !spec_is_hex(s[from]) {
        None
    } else {
        spec_hex_fold(s, from + 1, to, acc * 16 + spec_hex_digit(s[from]))
    }
}

/// One address group: one to four hexadecimal digits.
pub open spec fn spec_hex_group(s: Seq<char>, from: int, to: int) -> Option<int> {
    if from >= to || to - from > 4 {
        None
    } else {
        spec_hex_fold(s, from, to, 0)
    }
}

/// The first `::` between `from` and `to`.
pub open spec fn spec_find_dcolon(s: Seq<char>, from: int, to: int) -> Option<int>
    decreases to - from,
{
    if from + 1 >= to {
        None
    } else if s[from] == ':' && s[from + 1] == ':' {
        Some(from)
    } else {
        spec_find_dcolon(s, from + 1, to)
    }
}

/// The colon-separated address groups between `from` and `to`; none of
/// them may be empty.
pub open spec fn spec_groups_range(s: Seq<char>, from: int, to: int) -> Option<Seq<int>>
    decreases to - from,
{
    if from >= to {
        None
    } else {
        match spec_find_from(s, from, ':') {
            Some(i) => if i < to {
                match spec_hex_group(s, from, i) {
                    Some(g) => match spec_groups_range(s, i + 1, to) {
                        Some(rest) => Some(seq![g] + rest),
                        None => None,
                    },
                    None => None,
                }
            } else {
                match spec_hex_group(s, from, to) {
                    Some(g) => Some(seq![g]),
                    None => None,
                }
            },
            None => match spec_hex_group(s, from, to) {
                Some(g) => Some(seq![g]),
                None => None,
            },
        }
    }
}

/// The number the address groups write, highest group first.
pub open spec fn spec_groups_value(gs: Seq<int>) -> int
    decreases gs.len(),
{
    if gs.len() == 0 {
        0
    } else {
        spec_groups_value(gs.drop_last()) * 65536 + gs.last()
    }
}

/// The eight groups of an address: the written ones around the `::`,
/// zeros in between.
pub open spec fn spec_v6_groups(left: Seq<int>, right: Seq<int>) -> Seq<int> {
    left + Seq::new((8 - left.len() - right.len()) as nat, |i: int| 0) + right
}

/// The address value between the brackets: eight groups, or a `::`
/// compression with at most seven written groups. The embedded
/// dotted-quad tail and scope identifiers are not read.
pub open spec fn spec_parse_v6(s: Seq<char>, from: int, to: int) -> Option<int> {
    match spec_find_dcolon(s, from, to) {
        None => match spec_groups_range(s, from, to) {
            Some(gs) => if gs.len() == 8 {
                Some(spec_groups_value(gs))
            } else {
                None
            },
            None => None,
        },
        Some(i) => {
            let left = if i == from {
                Some(Seq::empty())
            } else {
                spec_groups_range(s, from, i)
            };
            let right = if i + 2 >= to {
                Some(Seq::empty())
            } else {
                spec_groups_range(s, i + 2, to)
            };
            match (left, right) {
                (Some(l), Some(r)) => if l.len() + r.len() <= 7 {
                    Some(spec_groups_value(spec_v6_groups(l, r)))
                } else {
                    None
                },
                _ => None,
            }
        },
    }
}

/// The socket address written in `s`: the `a.b.c.d:port` form, or the
/// bracketed `[v6]:port` form; nothing otherwise.
pub open spec fn spec_parse_sockaddr(s: Seq<char>) -> Option<SocketAddress> {
    if s.len() > 0 && s[0] == '[' {
        match spec_find_from(s, 1, ']') {
            None => None,
            Some(j) => if j + 1 < s.len() && s[j + 1] == ':' {
                match (spec_parse_v6(s, 1, j), spec_parse_num(s, j + 2, s.len() as int, 65535)) {
                    (Some(v), Some(port)) => Some(
                        SocketAddress { ip: IpAddress::V6(v as u128), port: port as u16 },
                    ),
                    _ => None,
                }
            } else {
                None
            },
        }
    } else {
        spec_parse_sockaddr_v4(s)
    }
}

/// The dotted-quad form of a socket address.
pub open spec fn spec_parse_sockaddr_v4(s: Seq<char>) -> Option<SocketAddress> {
    match spec_find_from(s, 0, '.') {
        None => None,
        Some(d1) => match spec_find_from(s, d1 + 1, '.') {
            None => None,
            Some(d2) => match spec_find_from(s, d2 + 1, '.') {
                None => None,
                Some(d3) => match spec_find_from(s, d3 + 1, ':') {
                    None => None,
                    Some(colon) => match (
                        spec_parse_num(s, 0, d1, 255),
                        spec_parse_num(s, d1 + 1, d2, 255),
                        spec_parse_num(s, d2 + 1, d3, 255),
                        spec_parse_num(s, d3 + 1, colon, 255),
                        spec_parse_num(s, colon + 1, s.len() as int, 65535),
                    ) {
                        (Some(o1), Some(o2), Some(o3), Some(o4), Some(port)) => Some(
                            SocketAddress {
                                ip: IpAddress::V4(o1 as u8, o2 as u8, o3 as u8, o4 as u8),
                                port: port as u16,
                            },
                        ),
                        _ => None,
                    },
                },
            },
        },
    }
}

proof fn lemma_digits_value_ge(s: Seq<char>, from: int, to: int, acc: int)
    requires
        acc >= 0,
    ensures
        spec_digits_value(s, from, to, acc) matches Some(v) ==> v >= acc,
    decreases to - from,
{
    if from < to && '0' <= s[from] && s[from] <= '9' {
        assert(acc * 10 + (s[from] as int - 48) >= acc) by (nonlinear_arith)
            requires
                acc >= 0,
                s[from] as int - 48 >= 0,
        ;
        lemma_digits_value_ge(s, from + 1, to, acc * 10 + (s[from] as int - 48));
    }
}

proof fn lemma_digit_char(c: char)
    requires
        '0' <= c && c <= '9',
    ensures
        spec_digit_char(c as int - 48) == c,
{
    if c == '0' {
    } else if c == '1' {
    } else if c == '2' {
    } else if c == '3' {
    } else if c == '4' {
    } else if c == '5' {
    } else if c == '6' {
    } else if c == '7' {
    } else if c == '8' {
    } else {
        assert(c == '9');
    }
}

/// Reads the decimal number written in `s` between `from` and `to`:
/// strict form, no sign, no leading zero, at most `max`.
fn parse_num_seg(s: &str, from: usize, to: usize, max: u64) -> (r: Option<u64>)
    requires
        from <= to && to <= s@.len(),
        max <= 65535,
    ensures
        r matches Some(v) ==> v <= max && spec_decimal(v as int) == s@.subrange(
            from as int,
            to as int,
        ),
        match r {
            Some(v) => spec_parse_num(s@, from as int, to as int, max as int) == Some(v as int),
            None => spec_parse_num(s@, from as int, to as int, max as int) is None,
        },
{
    if from == to {
        return None;
    }
    let c0 = s.get_char(from);
    if !('0' <= c0 && c0 <= '9') {
        return None;
    }
    if c0 == '0' && to - from > 1 {
        return None;
    }
    let mut acc: u64 = (c0 as u64) - 48;
    proof {
        lemma_digit_char(c0);
        assert(spec_decimal(acc as int) =~= s@.subrange(from as int, from as int + 1));
        assert(spec_digits_value(s@, from as int, to as int, 0) == spec_digits_value(
            s@,
            from as int + 1,
            to as int,
            acc as int,
        ));
    }
    if acc > max {
        proof {
            lemma_digits_value_ge(s@, from as int + 1, to as int, acc as int);
        }
        return None;
    }
    let mut i: usize = from + 1;
    while i < to
        invariant
            from < i <= to,
            to <= s@.len(),
            acc <= max,
            max <= 65535,
            i > from + 1 ==> acc >= 1,
            (i == from + 1 && acc == 0) ==> to == from + 1,
            spec_decimal(acc as int) == s@.subrange(from as int, i as int),
            spec_digits_value(s@, from as int, to as int, 0) == spec_digits_value(
                s@,
                i as int,
                to as int,
                acc as int,
            ),
            spec_parse_num(s@, from as int, to as int, max as int) == (match spec_digits_value(
                s@,
                from as int,
                to as int,
                0,
            ) {
                Some(v) => if v <= max {
                    Some(v)
                } else {
                    None
                },
                None => None,
            }),
        decreases to - i,
    {
        let c = s.get_char(i);
        if !('0' <= c && c <= '9') {
            return None;
        }
        let d: u64 = (c as u64) - 48;
        proof {
            lemma_digit_char(c);
        }
        let ghost acc0 = acc as int;
        acc = acc * 10 + d;
        proof {
            assert((acc0 * 10 + d) / 10 == acc0 && (acc0 * 10 + d) % 10 == d) by (nonlinear_arith)
                requires
                    0 <= d < 10,
                    acc0 >= 0,
            ;
            assert(acc as int >= 10) by {
                assert(acc0 >= 1);
            }
            assert(spec_decimal(acc as int) == spec_decimal(acc0).push(spec_digit_char(d as int)));
            assert(s@.subrange(from as int, i + 1) =~= s@.subrange(from as int, i as int).push(
                s@[i as int],
            ));
        }
        if acc > max {
            proof {
                lemma_digits_value_ge(s@, i as int + 1, to as int, acc as int);
            }
            return None;
        }
        i += 1;
    }
    Some(acc)
}

/// The first occurrence of `c` in `s` at or after `from`.
fn find_char_from(s: &str, from: usize, c: char) -> (r: Option<usize>)
    requires
        from <= s@.len(),
    ensures
        r matches Some(i) ==> from <= i < s@.len() && s@[i as int] == c,
        match r {
            Some(i) => spec_find_from(s@, from as int, c) == Some(i as int),
            None => spec_find_from(s@, from as int, c) is None,
        },
{
    let len = s.unicode_len();
    let mut i: usize = from;
    while i < len
        invariant
            len == s@.len(),
            from <= i,
            spec_find_from(s@, from as int, c) == spec_find_from(s@, i as int, c),
        decreases len - i,
    {
        if s.get_char(i) == c {
            return Some(i);
        }
        i += 1;
    }
    None
}

/// The groups of an address list, as numbers.
pub open spec fn group_ints(gs: Seq<u16>) -> Seq<int> {
    gs.map(|i: int, g: u16| g as int)
}

/// The value of a hexadecimal digit, or nothing.
fn hex_val(c: char) -> (r: Option<u32>)
    ensures
        match r {
            Some(v) => spec_is_hex(c) && v as int == spec_hex_digit(c) && v < 16,
            None => !spec_is_hex(c),
        },
{
    if '0' <= c && c <= '9' {
        Some(c as u32 - 48)
    } else if 'a' <= c && c <= 'f' {
        Some(c as u32 - 87)
    } else if 'A' <= c && c <= 'F' {
        Some(c as u32 - 55)
    } else {
        None
    }
}

/// Reads one address group: one to four hexadecimal digits.
fn parse_hex_group(s: &str, from: usize, to: usize) -> (r: Option<u16>)
    requires
        from <= to && to <= s@.len(),
    ensures
        match r {
            Some(v) => spec_hex_group(s@, from as int, to as int) == Some(v as int),
            None => spec_hex_group(s@, from as int, to as int) is None,
        },
{
    let n = to - from;
    if n == 0 || n > 4 {
        return None;
    }
    let mut acc: u32 = match hex_val(s.get_char(from)) {
        Some(d) => d,
        None => {
            return None;
        },
    };
    proof {
        assert(spec_hex_fold(s@, from as int, to as int, 0) == spec_hex_fold(
            s@,
            from as int + 1,
            to as int,
            acc as int,
        ));
    }
    if n >= 2 {
        let d = match hex_val(s.get_char(from + 1)) {
            Some(d) => d,
            None => {
                return None;
            },
        };
        let ghost a0 = acc as int;
        acc = acc * 16 + d;
        proof {
            assert(spec_hex_fold(s@, from as int + 1, to as int, a0) == spec_hex_fold(
                s@,
                from as int + 2,
                to as int,
                acc as int,
            ));
        }
    }
    if n >= 3 {
        let d = match hex_val(s.get_char(from + 2)) {
            Some(d) => d,
            None => {
                return None;
            },
        };
        let ghost a0 = acc as int;
        acc = acc * 16 + d;
        proof {
            assert(spec_hex_fold(s@, from as int + 2, to as int, a0) == spec_hex_fold(
                s@,
                from as int + 3,
                to as int,
                acc as int,
            ));
        }
    }
    if n == 4 {
        let d = match hex_val(s.get_char(from + 3)) {
            Some(d) => d,
            None => {
                return None;
            },
        };
        let ghost a0 = acc as int;
        acc = acc * 16 + d;
        proof {
            assert(spec_hex_fold(s@, from as int + 3, to as int, a0) == spec_hex_fold(
                s@,
                from as int + 4,
                to as int,
                acc as int,
            ));
        }
    }
    Some(acc as u16)
}

/// The first `::` in the region.
fn find_dcolon(s: &str, from: usize, to: usize) -> (r: Option<usize>)
    requires
        from <= to && to <= s@.len(),
    ensures
        match r {
            Some(i) => spec_find_dcolon(s@, from as int, to as int) == Some(i as int) && from <= i
                && i + 1 < to,
            None => spec_find_dcolon(s@, from as int, to as int) is None,
        },
{
    let mut i: usize = from;
    while i < to && i + 1 < to
        invariant
            from <= i,
            i <= to,
            to <= s@.len(),
            spec_find_dcolon(s@, from as int, to as int) == spec_find_dcolon(
                s@,
                i as int,
                to as int,
            ),
        decreases to - i,
    {
        if s.get_char(i) == ':' && s.get_char(i + 1) == ':' {
            return Some(i);
        }
        i += 1;
    }
    None
}

/// Reads the colon-separated address groups of the region.
fn parse_groups_range(s: &str, from: usize, to: usize) -> (r: Option<Vec<u16>>)
    requires
        from <= to && to <= s@.len(),
    ensures
        match r {
            Some(v) => spec_groups_range(s@, from as int, to as int) == Some(group_ints(v@)),
            None => spec_groups_range(s@, from as int, to as int) is None,
        },
    decreases to - from,
{
    if from >= to {
        return None;
    }
    let sep: Option<usize> = match find_char_from(s, from, ':') {
        Some(i) => if i < to {
            Some(i)
        } else {
            None
        },
        None => None,
    };
    match sep {
        Some(i) => {
            let g = match parse_hex_group(s, from, i) {
                Some(g) => g,
                None => {
                    return None;
                },
            };
            let mut rest = match parse_groups_range(s, i + 1, to) {
                Some(v) => v,
                None => {
                    return None;
                },
            };
            let ghost rest0 = rest@;
            rest.insert(0, g);
            proof {
                assert(group_ints(rest@) =~= seq![g as int] + group_ints(rest0));
            }
            Some(rest)
        },
        None => {
            let g = match parse_hex_group(s, from, to) {
                Some(g) => g,
                None => {
                    return None;
                },
            };
            let mut v: Vec<u16> = Vec::new();
            v.push(g);
            proof {
                assert(group_ints(v@) =~= seq![g as int]);
            }
            Some(v)
        },
    }
}

/// Powers of the group base.
pub open spec fn spec_p65536(k: int) -> int
    decreases k,
{
    if k <= 0 {
        1
    } else {
        65536 * spec_p65536(k - 1)
    }
}

proof fn lemma_p65536_pos(k: int)
    ensures
        spec_p65536(k) >= 1,
    decreases k,
{
    if k > 0 {
        lemma_p65536_pos(k - 1);
    }
}

proof fn lemma_groups_value_bound(gs: Seq<int>)
    requires
        forall|i: int| 0 <= i < gs.len() ==> 0 <= #[trigger] gs[i] < 65536,
    ensures
        0 <= spec_groups_value(gs) < spec_p65536(gs.len() as int),
    decreases gs.len(),
{
    if gs.len() == 0 {
    } else {
        assert(forall|i: int|
            0 <= i < gs.drop_last().len() ==> 0 <= #[trigger] gs.drop_last()[i] < 65536);
        lemma_groups_value_bound(gs.drop_last());
        let v = spec_groups_value(gs.drop_last());
        let p = spec_p65536(gs.len() - 1);
        lemma_p65536_pos(gs.len() - 1);
        assert(0 <= v * 65536 + gs.last() && v * 65536 + gs.last() < p * 65536)
            by (nonlinear_arith)
            requires
                0 <= v < p,
                0 <= gs.last() < 65536,
        ;
        assert(spec_p65536(gs.len() as int) == 65536 * p);
    }
}

/// Folds at most eight groups into the address value.
fn groups_value_u128(gs: &Vec<u16>) -> (r: u128)
    requires
        gs@.len() <= 8,
    ensures
        r as int == spec_groups_value(group_ints(gs@)),
{
    let mut acc: u128 = 0;
    let n: usize = gs.len();
    proof {
        assert(group_ints(gs@).take(0) =~= Seq::<int>::empty());
    }
    for i in 0..n
        invariant
            n == gs@.len(),
            n <= 8,
            acc as int == spec_groups_value(group_ints(gs@).take(i as int)),
            (acc as int) < spec_p65536(i as int),
    {
        proof {
            assert(spec_p65536(0) == 1);
            assert(spec_p65536(1) == 65536);
            assert(spec_p65536(2) == 0x100000000);
            assert(spec_p65536(3) == 0x1000000000000);
            assert(spec_p65536(4) == 0x10000000000000000);
            assert(spec_p65536(5) == 0x100000000000000000000);
            assert(spec_p65536(6) == 0x1000000000000000000000000);
            assert(spec_p65536(7) == 0x10000000000000000000000000000);
            assert(spec_p65536(i as int) <= spec_p65536(7)) by {
                if i == 0 {
                } else if i == 1 {
                } else if i == 2 {
                } else if i == 3 {
                } else if i == 4 {
                } else if i == 5 {
                } else if i == 6 {
                } else {
                    assert(i == 7);
                }
            }
        }
        let ghost a0 = acc as int;
        let g = gs[i];
        acc = acc * 65536 + (g as u128);
        proof {
            assert(a0 * 65536 + (g as int) < 0x10000000000000000000000000000 * 65536)
                by (nonlinear_arith)
                requires
                    0 <= a0 < 0x10000000000000000000000000000,
                    0 <= (g as int) < 65536,
            ;
            assert(a0 * 65536 + (g as int) < spec_p65536(i as int) * 65536) by (nonlinear_arith)
                requires
                    0 <= a0 < spec_p65536(i as int),
                    0 <= (g as int) < 65536,
            ;
            assert(spec_p65536(i + 1) == 65536 * spec_p65536(i as int));
            let pre = group_ints(gs@).take(i as int);
            let cur = group_ints(gs@).take(i + 1);
            assert(cur.drop_last() =~= pre);
            assert(cur.last() == g as int);
            assert(spec_groups_value(cur) == spec_groups_value(pre) * 65536 + g as int);
        }
    }
    proof {
        assert(group_ints(gs@).take(n as int) =~= group_ints(gs@));
    }
    acc
}

/// Reads the address between the brackets: hexadecimal groups with an
/// optional `::` compression.
fn parse_v6_range(s: &str, from: usize, to: usize) -> (r: Option<u128>)
    requires
        from <= to && to <= s@.len(),
    ensures
        match r {
            Some(v) => spec_parse_v6(s@, from as int, to as int) == Some(v as int),
            None => spec_parse_v6(s@, from as int, to as int) is None,
        },
{
    match find_dcolon(s, from, to) {
        None => {
            let gs = match parse_groups_range(s, from, to) {
                Some(g) => g,
                None => {
                    return None;
                },
            };
            if gs.len() != 8 {
                return None;
            }
            Some(groups_value_u128(&gs))
        },
        Some(i) => {
            let left: Vec<u16> = if i == from {
                Vec::new()
            } else {
                match parse_groups_range(s, from, i) {
                    Some(g) => g,
                    None => {
                        return None;
                    },
                }
            };
            let right: Vec<u16> = if i + 2 >= to {
                Vec::new()
            } else {
                match parse_groups_range(s, i + 2, to) {
                    Some(g) => g,
                    None => {
                        return None;
                    },
                }
            };
            if left.len() > 7 || right.len() > 7 - left.len() {
                return None;
            }
            proof {
                assert(group_ints(left@).len() + group_ints(right@).len() <= 7);
            }
            let mut full: Vec<u16> = Vec::new();
            let ln: usize = left.len();
            for k in 0..ln
                invariant
                    ln == left@.len(),
                    full@ =~= left@.take(k as int),
            {
                full.push(left[k]);
                proof {
                    assert(full@ =~= left@.take(k + 1));
                }
            }
            proof {
                assert(left@.take(ln as int) =~= left@);
            }
            let zeros: usize = 8 - ln - right.len();
            for k in 0..zeros
                invariant
                    full@.len() == ln + k,
                    full@ =~= left@ + Seq::new(k as nat, |j: int| 0u16),
            {
                full.push(0u16);
                proof {
                    assert(full@ =~= left@ + Seq::new((k + 1) as nat, |j: int| 0u16));
                }
            }
            let rn: usize = right.len();
            let ghost mid = full@;
            for k in 0..rn
                invariant
                    rn == right@.len(),
                    full@ =~= mid + right@.take(k as int),
            {
                full.push(right[k]);
                proof {
                    assert(full@ =~= mid + right@.take(k + 1));
                }
            }
            proof {
                assert(right@.take(rn as int) =~= right@);
                assert(group_ints(full@) =~= spec_v6_groups(group_ints(left@), group_ints(right@)));
            }
            Some(groups_value_u128(&full))
        },
    }
}

/// Reads a socket address in its canonical text: `a.b.c.d:port`, or the
/// bracketed `[v6]:port` with hexadecimal groups and an optional `::`.
/// The embedded dotted-quad tail and scope identifiers are not read.
pub fn parse_socket_addr(s: &str) -> (r: Option<SocketAddress>)
    ensures
        r == spec_parse_sockaddr(s@),
        r matches Some(a) ==> (a.ip is V4 ==> s@ == spec_render_sockaddr(a)),
{
    let len = s.unicode_len();
    if len > 0 && s.get_char(0) == '[' {
        let j = match find_char_from(s, 1, ']') {
            Some(j) => j,
            None => {
                return None;
            },
        };
        if !(j + 1 < len && s.get_char(j + 1) == ':') {
            return None;
        }
        let v6 = match parse_v6_range(s, 1, j) {
            Some(v) => v,
            None => {
                return None;
            },
        };
        let port = match parse_num_seg(s, j + 2, len, 65535) {
            Some(p) => p,
            None => {
                return None;
            },
        };
        Some(SocketAddress { ip: IpAddress::V6(v6), port: port as u16 })
    } else {
        parse_sockaddr_v4(s)
    }
}

/// Reads the dotted-quad form.
fn parse_sockaddr_v4(s: &str) -> (r: Option<SocketAddress>)
    ensures
        r == spec_parse_sockaddr_v4(s@),
        r matches Some(a) ==> a.ip is V4 && s@ == spec_render_sockaddr(a),
{
    let len = s.unicode_len();
    let d1 = match find_char_from(s, 0, '.') {
        Some(i) => i,
        None => {
            return None;
        },
    };
    let d2 = match find_char_from(s, d1 + 1, '.') {
        Some(i) => i,
        None => {
            return None;
        },
    };
    let d3 = match find_char_from(s, d2 + 1, '.') {
        Some(i) => i,
        None => {
            return None;
        },
    };
    let colon = match find_char_from(s, d3 + 1, ':') {
        Some(i) => i,
        None => {
            return None;
        },
    };
    let o1 = match parse_num_seg(s, 0, d1, 255) {
        Some(v) => v,
        None => {
            return None;
        },
    };
    let o2 = match parse_num_seg(s, d1 + 1, d2, 255) {
        Some(v) => v,
        None => {
            return None;
        },
    };
    let o3 = match parse_num_seg(s, d2 + 1, d3, 255) {
        Some(v) => v,
        None => {
            return None;
        },
    };
    let o4 = match parse_num_seg(s, d3 + 1, colon, 255) {
        Some(v) => v,
        None => {
            return None;
        },
    };
    let port = match parse_num_seg(s, colon + 1, len, 65535) {
        Some(v) => v,
        None => {
            return None;
        },
    };
    let a = SocketAddress {
        ip: IpAddress::V4(o1 as u8, o2 as u8, o3 as u8, o4 as u8),
        port: port as u16,
    };
    proof {
        assert(s@ =~= spec_render_sockaddr(a));
    }
    Some(a)
}

/// A frozen endpoint list known at construction.
pub struct StaticDiscovery {
    pub backends: Vec<SocketAddress>,
}

/// The `endpoints` list of a static discovery record, when the record has
/// the expected shape.
pub open spec fn spec_static_endpoints(c: ConfValue) -> Option<Seq<ConfValue>> {
    match c.spec_get("endpoints"@) {
        Some(v) => match v {
            ConfValue::Sequence(items) => Some(items@),
            _ => None,
        },
        None => None,
    }
}

/// A successfully built static discovery, related to the record it was
/// built from: one backend per endpoint entry, each the address the entry
/// writes.
pub open spec fn spec_static_built(cfg: Option<ConfValue>, d: StaticDiscovery) -> bool {
    &&& cfg is Some
    &&& spec_static_endpoints(cfg.unwrap()) matches Some(items)
    &&& d.backends@.len() == spec_static_endpoints(cfg.unwrap()).unwrap().len()
    &&& forall|i: int|
        0 <= i < d.backends@.len() ==> spec_endpoint_parsed(
            spec_static_endpoints(cfg.unwrap()).unwrap()[i],
            #[trigger] d.backends@[i],
        )
}

/// A well-shaped endpoint entry: a string in the canonical address form.
pub open spec fn spec_endpoint_ok(v: ConfValue) -> bool {
    v matches ConfValue::Str(s) && spec_parse_sockaddr(s@) is Some
}

/// An endpoint entry read as this backend address.
pub open spec fn spec_endpoint_parsed(v: ConfValue, b: SocketAddress) -> bool {
    v matches ConfValue::Str(s) && spec_parse_sockaddr(s@) == Some(b)
}

/// A static discovery record the builder refuses: no well-shaped
/// `endpoints` list, or some entry that is not an address.
pub open spec fn spec_static_config_bad(c: ConfValue) -> bool {
    match spec_static_endpoints(c) {
        Some(items) => exists|i: int| 0 <= i < items.len() && !spec_endpoint_ok(#[trigger] items[i]),
        None => true,
    }
}

proof fn lemma_static_config_bad(c: ConfValue, items: Seq<ConfValue>, i: int)
    requires
        spec_static_endpoints(c) == Some(items),
        0 <= i < items.len(),
        !spec_endpoint_ok(items[i]),
    ensures
        spec_static_config_bad(c),
{
    let x = spec_static_endpoints(c).unwrap();
    assert(x == items);
    assert(0 <= i < x.len() && !spec_endpoint_ok(x[i]));
    assert(exists|j: int| 0 <= j < x.len() && !spec_endpoint_ok(#[trigger] x[j]));
}

impl StaticDiscovery {
    /// Builds the endpoint list from `{endpoints: [address:port, ...]}`;
    /// a missing record is `LackConfig`, a malformed one `StaticConfig`.
    #[verifier::rlimit(100)]
    pub fn new(cfg: Option<ConfValue>) -> (r: Result<StaticDiscovery, ClusterError>)
        ensures
            match r {
                Ok(d) => spec_static_built(cfg, d),
                Err(e) => match e {
                    ClusterError::LackConfig { name } => cfg is None && name@ == "static"@,
                    ClusterError::StaticConfig { name, message } => cfg is Some && name@
                        == "static"@ && spec_static_config_bad(cfg.unwrap()),
                    _ => false,
                },
            },
    {
        let c = match cfg {
            Some(c) => c,
            None => {
                return Err(ClusterError::LackConfig { name: "static".to_owned() });
            },
        };
        let items = match c.get("endpoints") {
            Some(v) => match v.as_seq() {
                Some(items) => items,
                None => {
                    return Err(
                        ClusterError::StaticConfig {
                            name: "static".to_owned(),
                            message: "endpoints must be a list".to_owned(),
                        },
                    );
                },
            },
            None => {
                return Err(
                    ClusterError::StaticConfig {
                        name: "static".to_owned(),
                        message: "missing field endpoints".to_owned(),
                    },
                );
            },
        };
        let mut backends: Vec<SocketAddress> = Vec::new();
        let n: usize = items.len();
        assert(c.spec_get("endpoints"@) == Some(ConfValue::Sequence(*items)));
        for i in 0..n
            invariant
                n == items@.len(),
                cfg == Some(c),
                c.spec_get("endpoints"@) == Some(ConfValue::Sequence(*items)),
                backends@.len() == i,
                forall|j: int|
                    0 <= j < i ==> spec_endpoint_parsed(items@[j], #[trigger] backends@[j]),
        {
            match items[i].as_str() {
                Some(s) => match parse_socket_addr(s.as_str()) {
                    Some(a) => {
                        let ghost b0 = backends@;
                        backends.push(a);
                        proof {
                            assert(backends@ == b0.push(a));
                            assert(spec_endpoint_parsed(items@[i as int], a));
                            assert forall|j: int| 0 <= j < i + 1 implies spec_endpoint_parsed(
                                items@[j],
                                #[trigger] backends@[j],
                            ) by {
                                if j < i {
                                    assert(backends@[j] == b0[j]);
                                } else {
                                    assert(backends@[j] == a);
                                }
                            }
                        }
                    },
                    None => {
                        proof {
                            assert(spec_static_endpoints(c) == Some(items@));
                            assert(!spec_endpoint_ok(items@[i as int]));
                            lemma_static_config_bad(c, items@, i as int);
                        }
                        return Err(
                            ClusterError::StaticConfig {
                                name: "static".to_owned(),
                                message: "endpoints must be ip:port".to_owned(),
                            },
                        );
                    },
                },
                None => {
                    proof {
                        assert(spec_static_endpoints(c) == Some(items@));
                        assert(!spec_endpoint_ok(items@[i as int]));
                        lemma_static_config_bad(c, items@, i as int);
                    }
                    return Err(
                        ClusterError::StaticConfig {
                            name: "static".to_owned(),
                            message: "endpoints must be strings".to_owned(),
                        },
                    );
                },
            }
        }
        Ok(StaticDiscovery { backends })
    }
}

/// The DNS discovery source: one endpoint per resolved address, at the
/// configured port.
#[derive(Clone)]
pub struct DnsDiscovery {
    pub name: String,
    pub port: u16,
}

impl DnsDiscovery {
    pub fn new(name: String, port: u16) -> (r: Self)
        ensures
            r.name@ == name@,
            r.port == port,
    {
        DnsDiscovery { name, port }
    }

    /// The backend set for one poll: one endpoint per address, at the
    /// fixed port, each with weight 1.
    pub fn discover_from_ips(&self, ips: &Vec<IpAddress>) -> (r: Vec<BackendEndpoint>)
        ensures
            r@.len() == ips@.len(),
            forall|i: int|
                0 <= i < ips@.len() ==> #[trigger] r@[i] == (BackendEndpoint {
                    addr: SocketAddress { ip: ips@[i], port: self.port },
                    weight: 1,
                }),
    {
        let mut out: Vec<BackendEndpoint> = Vec::new();
        let n: usize = ips.len();
        for i in 0..n
            invariant
                n == ips@.len(),
                out@.len() == i,
                forall|j: int|
                    0 <= j < i ==> #[trigger] out@[j] == (BackendEndpoint {
                        addr: SocketAddress { ip: ips@[j], port: self.port },
                        weight: 1,
                    }),
        {
            out.push(BackendEndpoint { addr: SocketAddress { ip: ips[i], port: self.port }, weight: 1 });
        }
        out
    }
}

} // verus!
