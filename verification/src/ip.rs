//! IP address literals: the library's own address type, the grammar of
//! IPv4 and IPv6 literals at the spec level, and a verified parser.

use crate::digits::all_dec_digits;
use crate::digits::dec_val_of;
use crate::digits::is_dec_digit;
use crate::digits::lemma_dec_val_bounds;
use crate::digits::pow10;
use crate::scan::find_char;
use crate::scan::lemma_find_char;
use crate::scan::lemma_find_char_at;
use crate::scan::lemma_find_char_none;
use vstd::prelude::*;
use vstd::string::StrSliceExecFns;

verus! {

broadcast use vstd::utf8::char_u32_cast;

/// The text of the response named no IP address literal.
#[derive(Clone, Copy, Debug, PartialEq, Eq, Structural)]
pub struct AddressParseError;

/// A numeric IP address.
#[derive(Clone, Copy, Debug, PartialEq, Eq, Structural)]
pub enum IpAddress {
    /// An IPv4 address: four octets.
    V4(u8, u8, u8, u8),
    /// An IPv6 address: eight 16-bit segments.
    V6(u16, u16, u16, u16, u16, u16, u16, u16),
}

// ---------------------------------------------------------------------
// Splitting a string on a separator.
// ---------------------------------------------------------------------
/// The parts of `s` between occurrences of `c`: one part more than
/// there are separators, parts may be empty.
pub open spec fn split_on(s: Seq<char>, c: char) -> Seq<Seq<char>>
    decreases s.len(),
    via split_on_decreases
{
    let i = find_char(s, c);
    if i < 0 {
        seq![s]
    } else {
        seq![s.subrange(0, i)] + split_on(s.skip(i + 1), c)
    }
}

#[via_fn]
proof fn split_on_decreases(s: Seq<char>, c: char) {
    lemma_find_char(s, c);
}

/// Splitting yields at least one part.
pub proof fn lemma_split_on_len(s: Seq<char>, c: char)
    ensures
        split_on(s, c).len() >= 1,
    decreases s.len(),
{
    let i = find_char(s, c);
    if i >= 0 {
        lemma_find_char(s, c);
        lemma_split_on_len(s.skip(i + 1), c);
    }
}

/// The parts named by a list of boundaries: the subrange of `s` each
/// pair delimits.
pub open spec fn parts_of(s: Seq<char>, rs: Seq<(usize, usize)>) -> Seq<Seq<char>> {
    Seq::new(rs.len(), |k: int| s.subrange(rs[k].0 as int, rs[k].1 as int))
}

/// Scans for the first occurrence of `c` at or after `from` and before
/// `to`, as an index into `s`; relates it to `find_char` on the
/// subrange.
#[verifier::loop_isolation(false)]
pub fn scan_from(s: &str, from: usize, to: usize, c: char) -> (r: Option<usize>)
    requires
        from <= to <= s@.len(),
    ensures
        ({
            let part = s@.subrange(from as int, to as int);
            match r {
                Some(i) => from <= i < to && i - from == find_char(part, c),
                None => find_char(part, c) == -1,
            }
        }),
{
    let ghost part = s@.subrange(from as int, to as int);
    let mut i: usize = from;
    while i < to
        invariant
            from <= i <= to,
            forall|k: int| from <= k < i ==> s@[k] != c,
        decreases to - i,
    {
        if s.get_char(i) == c {
            proof {
                assert(part[i - from] == c);
                assert(forall|k: int| 0 <= k < i - from ==> part[k] == s@[from + k] && part[k] != c);
                lemma_find_char_at(part, c, i - from);
            }
            return Some(i);
        }
        i = i + 1;
    }
    proof {
        assert(forall|k: int| 0 <= k < part.len() ==> part[k] == s@[from + k] && part[k] != c);
        lemma_find_char_none(part, c);
    }
    None
}

/// Splits the subrange of `s` between `from` and `to` on `c`: returns
/// the boundaries of each part, in order, matching `split_on` of the
/// subrange.
#[verifier::loop_isolation(false)]
pub fn split_ranges(s: &str, from: usize, to: usize, c: char) -> (r: Vec<(usize, usize)>)
    requires
        from <= to <= s@.len(),
    ensures
        r@.len() == split_on(s@.subrange(from as int, to as int), c).len(),
        forall|k: int|
            0 <= k < r@.len() ==> {
                &&& from <= (#[trigger] r@[k]).0 <= r@[k].1 <= to
                &&& s@.subrange(r@[k].0 as int, r@[k].1 as int) == split_on(
                    s@.subrange(from as int, to as int),
                    c,
                )[k]
            },
{
    let ghost whole = s@.subrange(from as int, to as int);
    let mut out: Vec<(usize, usize)> = Vec::new();
    let mut pos: usize = from;
    loop
        invariant
            from <= pos <= to <= s@.len(),
            split_on(whole, c) == Seq::new(out@.len(), |k: int|
                s@.subrange(out@[k].0 as int, out@[k].1 as int)) + split_on(
                s@.subrange(pos as int, to as int),
                c,
            ),
            forall|k: int| 0 <= k < out@.len() ==> from <= (#[trigger] out@[k]).0 <= out@[k].1 <= to,
        decreases to - pos,
    {
        let ghost rest = s@.subrange(pos as int, to as int);
        match scan_from(s, pos, to, c) {
            Some(i) => {
                proof {
                    lemma_find_char(rest, c);
                    assert(rest.subrange(0, i - pos) =~= s@.subrange(pos as int, i as int));
                    assert(rest.skip(i - pos + 1) =~= s@.subrange(i + 1, to as int));
                    assert(split_on(rest, c) == seq![s@.subrange(pos as int, i as int)] + split_on(
                        s@.subrange(i + 1, to as int),
                        c,
                    ));
                }
                out.push((pos, i));
                pos = i + 1;
                proof {
                    assert(split_on(whole, c) =~= Seq::new(out@.len(), |k: int|
                        s@.subrange(out@[k].0 as int, out@[k].1 as int)) + split_on(
                        s@.subrange(pos as int, to as int),
                        c,
                    ));
                }
            },
            None => {
                proof {
                    assert(split_on(rest, c) == seq![rest]);
                }
                out.push((pos, to));
                proof {
                    assert(split_on(whole, c) =~= Seq::new(out@.len(), |k: int|
                        s@.subrange(out@[k].0 as int, out@[k].1 as int)));
                    assert(forall|k: int|
                        0 <= k < out@.len() ==> s@.subrange(
                            (#[trigger] out@[k]).0 as int,
                            out@[k].1 as int,
                        ) == split_on(whole, c)[k]);
                }
                return out;
            },
        }
    }
}

// ---------------------------------------------------------------------
// IPv4 literals: four octets in canonical decimal, separated by dots.
// ---------------------------------------------------------------------
/// One octet of an IPv4 literal: canonical decimal (no leading zero),
/// at most 255.
pub open spec fn is_octet(p: Seq<char>) -> bool {
    &&& p.len() > 0
    &&& all_dec_digits(p)
    &&& p.len() == 1 || p[0] != '0'
    &&& dec_val_of(p) <= 255
}

/// An IPv4 literal: exactly four octets separated by dots.
pub open spec fn is_ipv4_str(s: Seq<char>) -> bool {
    let parts = split_on(s, '.');
    parts.len() == 4 && forall|k: int| 0 <= k < 4 ==> is_octet(#[trigger] parts[k])
}

/// The four octet values of an IPv4 literal.
pub open spec fn ipv4_octets_of(s: Seq<char>) -> Seq<int> {
    Seq::new(4, |k: int| dec_val_of(split_on(s, '.')[k]))
}

/// Reads one octet from the characters of `s` between `from` and `to`.
#[verifier::loop_isolation(false)]
fn parse_octet(s: &str, from: usize, to: usize) -> (r: Option<u8>)
    requires
        from <= to <= s@.len(),
    ensures
        ({
            let part = s@.subrange(from as int, to as int);
            match r {
                Some(v) => is_octet(part) && v as int == dec_val_of(part),
                None => !is_octet(part),
            }
        }),
{
    let ghost part = s@.subrange(from as int, to as int);
    if to == from {
        return None;
    }
    if to - from > 1 && s.get_char(from) == '0' {
        return None;
    }
    if to - from > 3 {
        // Four or more digits with a non-zero leading digit reach a
        // thousand; a non-digit fails the octet anyway.
        proof {
            if all_dec_digits(part) {
                lemma_dec_val_bounds(part);
                crate::digits::lemma_pow10_grows(3, part.len() - 1);
                assert(pow10(3) == 1000) by {
                    reveal_with_fuel(pow10, 4);
                }
            }
        }
        return None;
    }
    let mut acc: u32 = 0;
    let mut j: usize = from;
    while j < to
        invariant
            from <= j <= to,
            to - from <= 3,
            forall|k: int| from <= k < j ==> is_dec_digit(#[trigger] s@[k]),
            acc as int == dec_val_of(s@.subrange(from as int, j as int)),
            (acc as int) < pow10(j - from),
        decreases to - j,
    {
        let c = s.get_char(j);
        let u = c as u32;
        if !(48 <= u && u <= 57) {
            proof {
                assert(part[j - from] == s@[j as int]);
            }
            return None;
        }
        proof {
            crate::digits::lemma_pow10_grows(j - from, 3);
            assert(pow10(3) == 1000) by {
                reveal_with_fuel(pow10, 4);
            }
            assert(s@.subrange(from as int, j + 1).drop_last() =~= s@.subrange(
                from as int,
                j as int,
            ));
        }
        acc = acc * 10 + (u - 48);
        j = j + 1;
    }
    if acc > 255 {
        None
    } else {
        Some(acc as u8)
    }
}

/// Reads an IPv4 literal from the characters of `s` between `from`
/// and `to`.
pub fn parse_ipv4(s: &str, from: usize, to: usize) -> (r: Option<(u8, u8, u8, u8)>)
    requires
        from <= to <= s@.len(),
    ensures
        ({
            let part = s@.subrange(from as int, to as int);
            match r {
                Some(o) => {
                    &&& is_ipv4_str(part)
                    &&& o.0 as int == ipv4_octets_of(part)[0]
                    &&& o.1 as int == ipv4_octets_of(part)[1]
                    &&& o.2 as int == ipv4_octets_of(part)[2]
                    &&& o.3 as int == ipv4_octets_of(part)[3]
                },
                None => !is_ipv4_str(part),
            }
        }),
{
    let ghost part = s@.subrange(from as int, to as int);
    let ranges = split_ranges(s, from, to, '.');
    if ranges.len() != 4 {
        return None;
    }
    let r0 = (ranges[0].0, ranges[0].1);
    let r1 = (ranges[1].0, ranges[1].1);
    let r2 = (ranges[2].0, ranges[2].1);
    let r3 = (ranges[3].0, ranges[3].1);
    let o0 = match parse_octet(s, r0.0, r0.1) {
        Some(v) => v,
        None => {
            return None;
        },
    };
    let o1 = match parse_octet(s, r1.0, r1.1) {
        Some(v) => v,
        None => {
            return None;
        },
    };
    let o2 = match parse_octet(s, r2.0, r2.1) {
        Some(v) => v,
        None => {
            return None;
        },
    };
    let o3 = match parse_octet(s, r3.0, r3.1) {
        Some(v) => v,
        None => {
            return None;
        },
    };
    Some((o0, o1, o2, o3))
}

// ---------------------------------------------------------------------
// IPv6 literals: hex groups, one optional "::" gap, an optional
// embedded IPv4 tail.
// ---------------------------------------------------------------------
/// A hexadecimal digit character.
pub open spec fn is_hex_digit(c: char) -> bool {
    let u = c as u32;
    (48 <= u <= 57) || (97 <= u <= 102) || (65 <= u <= 70)
}

/// The numeric value of a hexadecimal digit character.
pub open spec fn hex_digit_val(c: char) -> int {
    let u = c as u32;
    if 48 <= u <= 57 {
        u - 48
    } else if 97 <= u <= 102 {
        u - 87
    } else {
        u - 55
    }
}

/// Every character of the string is a hexadecimal digit.
pub open spec fn all_hex_digits(g: Seq<char>) -> bool {
    forall|i: int| 0 <= i < g.len() ==> is_hex_digit(#[trigger] g[i])
}

/// One group of an IPv6 literal: one to four hexadecimal digits.
pub open spec fn is_hex_group(g: Seq<char>) -> bool {
    1 <= g.len() <= 4 && all_hex_digits(g)
}

/// The number denoted by a hexadecimal digit string.
pub open spec fn hex_val_of(g: Seq<char>) -> int
    decreases g.len(),
{
    if g.len() == 0 {
        0
    } else {
        hex_val_of(g.drop_last()) * 16 + hex_digit_val(g.last())
    }
}

/// Sixteen raised to a non-negative power.
pub open spec fn pow16(k: int) -> int
    recommends
        k >= 0,
    decreases k,
{
    if k <= 0 {
        1
    } else {
        16 * pow16(k - 1)
    }
}

/// A hexadecimal digit string's value lies below sixteen to its
/// length.
proof fn lemma_hex_val_bounds(g: Seq<char>)
    requires
        all_hex_digits(g),
    ensures
        0 <= hex_val_of(g) < pow16(g.len() as int),
    decreases g.len(),
{
    if g.len() > 0 {
        lemma_hex_val_bounds(g.drop_last());
        assert(is_hex_digit(g.last()));
    }
}

/// Powers of sixteen grow with the exponent.
proof fn lemma_pow16_grows(a: int, b: int)
    requires
        a <= b,
    ensures
        pow16(a) <= pow16(b),
    decreases b - a,
{
    if a < b {
        lemma_pow16_grows(a, b - 1);
        lemma_pow16_pos(b - 1);
    }
}

/// Powers of sixteen are positive.
proof fn lemma_pow16_pos(k: int)
    ensures
        pow16(k) >= 1,
    decreases k,
{
    if k > 0 {
        lemma_pow16_pos(k - 1);
    }
}

/// A hex group holds no dot, so it is never an IPv4 literal.
proof fn lemma_hex_group_not_ipv4(p: Seq<char>)
    requires
        is_hex_group(p),
    ensures
        !is_ipv4_str(p),
{
    if is_ipv4_str(p) {
        let i = find_char(p, '.');
        assert(split_on(p, '.').len() == 4);
        if i < 0 {
            assert(split_on(p, '.') == seq![p]);
        } else {
            lemma_find_char(p, '.');
            assert(is_hex_digit(p[i]));
            assert('.' as u32 == 46);
        }
    }
}

/// The index of the first `"::"` in `s`, or `-1` when none occurs.
pub open spec fn find_colon_pair(s: Seq<char>) -> int
    decreases s.len(),
{
    if s.len() < 2 {
        -1
    } else if s[0] == ':' && s[1] == ':' {
        0
    } else {
        let r = find_colon_pair(s.drop_first());
        if r < 0 {
            -1
        } else {
            r + 1
        }
    }
}

/// What `find_colon_pair` finds: an adjacent colon pair with none
/// before it, or no pair at all.
pub proof fn lemma_find_colon_pair(s: Seq<char>)
    ensures
        find_colon_pair(s) >= 0 ==> {
            &&& find_colon_pair(s) + 1 < s.len()
            &&& s[find_colon_pair(s)] == ':'
            &&& s[find_colon_pair(s) + 1] == ':'
            &&& forall|k: int|
                0 <= k < find_colon_pair(s) ==> !(#[trigger] s[k] == ':' && s[k + 1] == ':')
        },
        find_colon_pair(s) < 0 ==> forall|k: int|
            0 <= k < s.len() - 1 ==> !(#[trigger] s[k] == ':' && s[k + 1] == ':'),
    decreases s.len(),
{
    if s.len() >= 2 && !(s[0] == ':' && s[1] == ':') {
        let t = s.drop_first();
        lemma_find_colon_pair(t);
        assert(forall|k: int| 0 <= k < t.len() ==> #[trigger] t[k] == s[k + 1]);
        let r = find_colon_pair(t);
        if r >= 0 {
            assert forall|k: int| 0 <= k < r + 1 implies !(#[trigger] s[k] == ':' && s[k + 1]
                == ':') by {
                if k > 0 {
                    assert(t[k - 1] == s[k]);
                    assert(t[k] == s[k + 1]);
                    assert(!(t[k - 1] == ':' && t[k] == ':'));
                }
            }
        } else {
            assert forall|k: int| 0 <= k < s.len() - 1 implies !(#[trigger] s[k] == ':' && s[k + 1]
                == ':') by {
                if k > 0 {
                    assert(t[k - 1] == s[k]);
                    assert(t[k] == s[k + 1]);
                    assert(!(t[k - 1] == ':' && t[k] == ':'));
                }
            }
        }
    }
}

/// An adjacent colon pair with none before it is the first one.
proof fn lemma_find_colon_pair_at(s: Seq<char>, i: int)
    requires
        0 <= i,
        i + 1 < s.len(),
        s[i] == ':',
        s[i + 1] == ':',
        forall|k: int| 0 <= k < i ==> !(#[trigger] s[k] == ':' && s[k + 1] == ':'),
    ensures
        find_colon_pair(s) == i,
    decreases s.len(),
{
    if i > 0 {
        let t = s.drop_first();
        assert(forall|k: int| 0 <= k < t.len() ==> t[k] == s[k + 1]);
        assert(forall|k: int| 0 <= k < i - 1 ==> !(#[trigger] t[k] == ':' && t[k + 1] == ':'));
        lemma_find_colon_pair_at(t, i - 1);
    }
}

/// No adjacent colon pair at all means `find_colon_pair` reports none.
proof fn lemma_find_colon_pair_none(s: Seq<char>)
    requires
        forall|k: int| 0 <= k < s.len() - 1 ==> !(#[trigger] s[k] == ':' && s[k + 1] == ':'),
    ensures
        find_colon_pair(s) == -1,
    decreases s.len(),
{
    if s.len() >= 2 {
        let t = s.drop_first();
        assert(forall|k: int| 0 <= k < t.len() ==> t[k] == s[k + 1]);
        lemma_find_colon_pair_none(t);
    }
}

/// Scans for the first `"::"`.
#[verifier::loop_isolation(false)]
fn scan_colon_pair(s: &str) -> (r: Option<usize>)
    ensures
        match r {
            Some(i) => i == find_colon_pair(s@),
            None => find_colon_pair(s@) == -1,
        },
{
    let n = s.unicode_len();
    if n < 2 {
        proof {
            lemma_find_colon_pair_none(s@);
        }
        return None;
    }
    let mut i: usize = 0;
    while i < n - 1
        invariant
            0 <= i <= n - 1,
            n == s@.len(),
            2 <= n,
            forall|k: int| 0 <= k < i ==> !(#[trigger] s@[k] == ':' && s@[k + 1] == ':'),
        decreases n - i,
    {
        if s.get_char(i) == ':' && s.get_char(i + 1) == ':' {
            proof {
                lemma_find_colon_pair_at(s@, i as int);
            }
            return Some(i);
        }
        i = i + 1;
    }
    proof {
        lemma_find_colon_pair_none(s@);
    }
    None
}

/// Every part of the list is a hex group.
pub open spec fn all_hex_groups(parts: Seq<Seq<char>>) -> bool {
    forall|k: int| 0 <= k < parts.len() ==> is_hex_group(#[trigger] parts[k])
}

/// The group values of a list of hex groups.
pub open spec fn group_vals(parts: Seq<Seq<char>>) -> Seq<int> {
    Seq::new(parts.len(), |k: int| hex_val_of(parts[k]))
}

/// A trailing group list: hex groups, the last of which may instead
/// be an embedded IPv4 literal.
pub open spec fn tail_ok(parts: Seq<Seq<char>>) -> bool {
    parts.len() > 0 && {
        ||| all_hex_groups(parts)
        ||| (all_hex_groups(parts.drop_last()) && is_ipv4_str(parts.last()))
    }
}

/// How many 16-bit segments a trailing group list stands for: an
/// embedded IPv4 literal counts as two.
pub open spec fn tail_width(parts: Seq<Seq<char>>) -> int {
    if parts.len() > 0 && is_ipv4_str(parts.last()) {
        parts.len() as int + 1
    } else {
        parts.len() as int
    }
}

/// The two segments an embedded IPv4 literal stands for.
pub open spec fn v4_segs(p: Seq<char>) -> Seq<int> {
    let o = ipv4_octets_of(p);
    seq![o[0] * 256 + o[1], o[2] * 256 + o[3]]
}

/// The segment values of a trailing group list.
pub open spec fn tail_vals(parts: Seq<Seq<char>>) -> Seq<int> {
    if parts.len() > 0 && is_ipv4_str(parts.last()) {
        group_vals(parts.drop_last()) + v4_segs(parts.last())
    } else {
        group_vals(parts)
    }
}

/// The head of a compressed literal: empty, or hex groups.
pub open spec fn head_ok(l: Seq<char>) -> bool {
    l.len() == 0 || all_hex_groups(split_on(l, ':'))
}

/// How many segments the head stands for.
pub open spec fn head_width(l: Seq<char>) -> int {
    if l.len() == 0 {
        0
    } else {
        split_on(l, ':').len() as int
    }
}

/// The segment values of the head.
pub open spec fn head_vals(l: Seq<char>) -> Seq<int> {
    if l.len() == 0 {
        Seq::empty()
    } else {
        group_vals(split_on(l, ':'))
    }
}

/// The tail of a compressed literal: empty, or a trailing group list.
pub open spec fn tail_ok_opt(t: Seq<char>) -> bool {
    t.len() == 0 || tail_ok(split_on(t, ':'))
}

/// How many segments the tail stands for.
pub open spec fn tail_width_opt(t: Seq<char>) -> int {
    if t.len() == 0 {
        0
    } else {
        tail_width(split_on(t, ':'))
    }
}

/// The segment values of the tail.
pub open spec fn tail_vals_opt(t: Seq<char>) -> Seq<int> {
    if t.len() == 0 {
        Seq::empty()
    } else {
        tail_vals(split_on(t, ':'))
    }
}

/// A run of zero segments.
pub open spec fn zero_segs(n: int) -> Seq<int> {
    Seq::new(n as nat, |k: int| 0)
}

/// An IPv6 literal without `"::"`: groups standing for exactly eight
/// segments, the last possibly an embedded IPv4 literal.
pub open spec fn is_ipv6_full(s: Seq<char>) -> bool {
    let parts = split_on(s, ':');
    tail_ok(parts) && tail_width(parts) == 8
}

/// An IPv6 literal with a `"::"` gap: a head and a tail around the
/// first `"::"`, together standing for at most seven segments.
pub open spec fn is_ipv6_compressed(s: Seq<char>) -> bool {
    let i = find_colon_pair(s);
    &&& i >= 0
    &&& head_ok(s.subrange(0, i))
    &&& tail_ok_opt(s.skip(i + 2))
    &&& head_width(s.subrange(0, i)) + tail_width_opt(s.skip(i + 2)) <= 7
}

/// An IPv6 literal, in either form.
pub open spec fn is_ipv6_str(s: Seq<char>) -> bool {
    is_ipv6_full(s) || is_ipv6_compressed(s)
}

/// The eight segment values of an IPv6 literal; the `"::"` gap stands
/// for zero segments.
pub open spec fn ipv6_segments_of(s: Seq<char>) -> Seq<int> {
    if is_ipv6_full(s) {
        tail_vals(split_on(s, ':'))
    } else {
        let i = find_colon_pair(s);
        let h = head_vals(s.subrange(0, i));
        let t = tail_vals_opt(s.skip(i + 2));
        h + zero_segs(8 - h.len() - t.len()) + t
    }
}

/// A string holding `"::"` splits on the colon into a list with an
/// empty part, so it is never a full-form literal.
proof fn lemma_colon_pair_not_full(s: Seq<char>)
    requires
        find_colon_pair(s) >= 0,
    ensures
        !is_ipv6_full(s),
{
    lemma_colon_pair_has_empty(s);
    let parts = split_on(s, ':');
    let k = choose|k: int| 0 <= k < parts.len() && (#[trigger] parts[k]).len() == 0;
    if tail_ok(parts) {
        if all_hex_groups(parts) {
            assert(is_hex_group(parts[k]));
        } else {
            if k < parts.len() - 1 {
                assert(is_hex_group(parts.drop_last()[k]));
            } else {
                assert(is_ipv4_str(parts.last()));
                assert(split_on(parts.last(), '.') == seq![parts.last()]);
            }
        }
    }
}

/// A string holding `"::"` splits on the colon into a list with an
/// empty part.
proof fn lemma_colon_pair_has_empty(s: Seq<char>)
    requires
        find_colon_pair(s) >= 0,
    ensures
        exists|k: int| 0 <= k < split_on(s, ':').len() && (#[trigger] split_on(s, ':')[k]).len()
            == 0,
    decreases s.len(),
{
    lemma_find_colon_pair(s);
    let i2 = find_colon_pair(s);
    let i = find_char(s, ':');
    lemma_find_char(s, ':');
    assert(i >= 0 && i <= i2) by {
        if i < 0 {
            assert(s[i2] != ':');
        }
        if i > i2 {
            assert(s[i2] != ':');
        }
    }
    let parts = split_on(s, ':');
    let rest = s.skip(i + 1);
    assert(parts == seq![s.subrange(0, i)] + split_on(rest, ':'));
    if i == i2 {
        assert(rest[0] == s[i + 1]);
        lemma_find_char_at(rest, ':', 0);
        assert(split_on(rest, ':')[0] == rest.subrange(0, 0));
        assert(parts[1] == rest.subrange(0, 0));
        assert(parts[1].len() == 0);
    } else {
        assert(rest[i2 - i - 1] == s[i2] && rest[i2 - i] == s[i2 + 1]);
        assert(find_colon_pair(rest) >= 0) by {
            lemma_find_colon_pair(rest);
            if find_colon_pair(rest) < 0 {
                assert(!(rest[i2 - i - 1] == ':' && rest[i2 - i] == ':'));
            }
        }
        lemma_colon_pair_has_empty(rest);
        let k = choose|k: int|
            0 <= k < split_on(rest, ':').len() && (#[trigger] split_on(rest, ':')[k]).len() == 0;
        assert(parts[k + 1] == split_on(rest, ':')[k]);
        assert(parts[k + 1].len() == 0);
    }
}

/// Reads one hex group from the characters of `s` between `from` and
/// `to`.
#[verifier::loop_isolation(false)]
fn parse_hex_group(s: &str, from: usize, to: usize) -> (r: Option<u16>)
    requires
        from <= to <= s@.len(),
    ensures
        ({
            let part = s@.subrange(from as int, to as int);
            match r {
                Some(v) => is_hex_group(part) && v as int == hex_val_of(part),
                None => !is_hex_group(part),
            }
        }),
{
    let ghost part = s@.subrange(from as int, to as int);
    if to == from || to - from > 4 {
        return None;
    }
    let mut acc: u32 = 0;
    let mut j: usize = from;
    while j < to
        invariant
            from <= j <= to,
            to - from <= 4,
            forall|k: int| from <= k < j ==> is_hex_digit(#[trigger] s@[k]),
            acc as int == hex_val_of(s@.subrange(from as int, j as int)),
            (acc as int) < pow16(j - from),
        decreases to - j,
    {
        let c = s.get_char(j);
        let u = c as u32;
        let d: u32;
        if 48 <= u && u <= 57 {
            d = u - 48;
        } else if 97 <= u && u <= 102 {
            d = u - 87;
        } else if 65 <= u && u <= 70 {
            d = u - 55;
        } else {
            proof {
                assert(part[j - from] == s@[j as int]);
            }
            return None;
        }
        proof {
            lemma_pow16_grows(j - from, 4);
            assert(pow16(4) == 65536) by {
                reveal_with_fuel(pow16, 5);
            }
            assert(s@.subrange(from as int, j + 1).drop_last() =~= s@.subrange(
                from as int,
                j as int,
            ));
        }
        acc = acc * 16 + d;
        j = j + 1;
    }
    proof {
        lemma_pow16_grows(to - from, 4);
        assert(pow16(4) == 65536) by {
            reveal_with_fuel(pow16, 5);
        }
    }
    Some(acc as u16)
}

/// Reads the parts numbered `lo` (inclusive) to `hi` (exclusive) as
/// hex groups.
#[verifier::loop_isolation(false)]
fn parse_groups(s: &str, ranges: &Vec<(usize, usize)>, lo: usize, hi: usize) -> (r: Option<
    Vec<u16>,
>)
    requires
        lo <= hi <= ranges@.len(),
        forall|k: int| lo <= k < hi ==> (#[trigger] ranges@[k]).0 <= ranges@[k].1 <= s@.len(),
    ensures
        ({
            let parts = parts_of(s@, ranges@.subrange(lo as int, hi as int));
            match r {
                Some(v) => {
                    &&& all_hex_groups(parts)
                    &&& v@.len() == parts.len()
                    &&& forall|k: int|
                        0 <= k < parts.len() ==> (#[trigger] v@[k]) as int == hex_val_of(parts[k])
                },
                None => !all_hex_groups(parts),
            }
        }),
{
    let ghost parts = parts_of(s@, ranges@.subrange(lo as int, hi as int));
    let mut v: Vec<u16> = Vec::new();
    let mut j: usize = lo;
    while j < hi
        invariant
            lo <= j <= hi,
            v@.len() == j - lo,
            forall|k: int|
                0 <= k < j - lo ==> is_hex_group(#[trigger] parts[k]) && v@[k] as int == hex_val_of(
                    parts[k],
                ),
        decreases hi - j,
    {
        let rj = (ranges[j].0, ranges[j].1);
        match parse_hex_group(s, rj.0, rj.1) {
            Some(g) => {
                v.push(g);
            },
            None => {
                proof {
                    assert(parts[j - lo] == s@.subrange(
                        ranges@[j as int].0 as int,
                        ranges@[j as int].1 as int,
                    ));
                }
                return None;
            },
        }
        j = j + 1;
    }
    Some(v)
}

/// Reads a whole range list as a trailing group list: hex groups, the
/// last possibly an embedded IPv4 literal. Returns the segments.
#[verifier::loop_isolation(false)]
fn parse_tail(s: &str, ranges: &Vec<(usize, usize)>) -> (r: Option<Vec<u16>>)
    requires
        ranges@.len() >= 1,
        forall|k: int|
            0 <= k < ranges@.len() ==> (#[trigger] ranges@[k]).0 <= ranges@[k].1 <= s@.len(),
    ensures
        ({
            let parts = parts_of(s@, ranges@);
            match r {
                Some(v) => {
                    &&& tail_ok(parts)
                    &&& v@.len() == tail_width(parts)
                    &&& forall|k: int|
                        0 <= k < v@.len() ==> (#[trigger] v@[k]) as int == tail_vals(parts)[k]
                },
                None => !tail_ok(parts),
            }
        }),
{
    let ghost parts = parts_of(s@, ranges@);
    let n = ranges.len();
    let ghost lead = parts_of(s@, ranges@.subrange(0, n - 1));
    proof {
        assert(lead =~= parts.drop_last());
    }
    let mut head = match parse_groups(s, ranges, 0, n - 1) {
        Some(v) => v,
        None => {
            proof {
                let culprit = choose|k: int| 0 <= k < lead.len() && !is_hex_group(
                    #[trigger] lead[k],
                );
                assert(parts.drop_last()[culprit] == lead[culprit]);
            }
            return None;
        },
    };
    let last = (ranges[n - 1].0, ranges[n - 1].1);
    assert(parts.last() == s@.subrange(last.0 as int, last.1 as int));
    match parse_hex_group(s, last.0, last.1) {
        Some(g) => {
            proof {
                lemma_hex_group_not_ipv4(parts.last());
                assert(forall|k: int|
                    0 <= k < parts.len() - 1 ==> #[trigger] parts[k] == parts.drop_last()[k]);
                assert(tail_vals(parts) =~= group_vals(parts));
            }
            head.push(g);
            Some(head)
        },
        None => {
            match parse_ipv4(s, last.0, last.1) {
                Some(o) => {
                    proof {
                        assert(tail_vals(parts) == group_vals(parts.drop_last()) + v4_segs(
                            parts.last(),
                        ));
                    }
                    head.push((o.0 as u16) * 256 + (o.1 as u16));
                    head.push((o.2 as u16) * 256 + (o.3 as u16));
                    Some(head)
                },
                None => {
                    proof {
                        if tail_ok(parts) {
                            if all_hex_groups(parts) {
                                assert(is_hex_group(parts.last()));
                            }
                        }
                    }
                    None
                },
            }
        },
    }
}

/// Reads an IPv6 literal: the eight segments, in order.
#[verifier::loop_isolation(false)]
fn parse_ipv6(s: &str) -> (r: Option<Vec<u16>>)
    ensures
        match r {
            Some(v) => {
                &&& is_ipv6_str(s@)
                &&& v@.len() == 8
                &&& forall|k: int|
                    0 <= k < 8 ==> (#[trigger] v@[k]) as int == ipv6_segments_of(s@)[k]
            },
            None => !is_ipv6_str(s@),
        },
{
    let n = s.unicode_len();
    match scan_colon_pair(s) {
        None => {
            // No "::": only the full form can match.
            let ranges = split_ranges(s, 0, n, ':');
            proof {
                assert(s@.subrange(0, n as int) =~= s@);
                lemma_split_on_len(s@, ':');
            }
            let ghost parts = parts_of(s@, ranges@);
            proof {
                assert(parts =~= split_on(s@, ':'));
            }
            match parse_tail(s, &ranges) {
                Some(v) => {
                    if v.len() == 8 {
                        proof {
                            assert(is_ipv6_full(s@));
                            assert(ipv6_segments_of(s@) == tail_vals(split_on(s@, ':')));
                        }
                        Some(v)
                    } else {
                        None
                    }
                },
                None => None,
            }
        },
        Some(i) => {
            // A "::" gap: head before it, tail after it.
            proof {
                lemma_find_colon_pair(s@);
                lemma_colon_pair_not_full(s@);
            }
            let ghost l = s@.subrange(0, i as int);
            let ghost t = s@.skip(i + 2);
            let mut segs: Vec<u16>;
            if i == 0 {
                segs = Vec::new();
                proof {
                    assert(l.len() == 0);
                    assert(head_vals(l) =~= Seq::<int>::empty());
                }
            } else {
                let ranges_h = split_ranges(s, 0, i, ':');
                let ghost hparts = parts_of(s@, ranges_h@);
                proof {
                    assert(ranges_h@.subrange(0, ranges_h@.len() as int) =~= ranges_h@);
                    assert(hparts =~= split_on(l, ':'));
                }
                match parse_groups(s, &ranges_h, 0, ranges_h.len()) {
                    Some(v) => {
                        segs = v;
                        proof {
                            assert(head_ok(l));
                            assert(forall|k: int|
                                0 <= k < segs@.len() ==> (#[trigger] segs@[k]) as int == head_vals(
                                    l,
                                )[k]);
                        }
                    },
                    None => {
                        return None;
                    },
                }
            }
            let ghost h_vals = head_vals(l);
            assert(segs@.len() == head_width(l));
            let head_len = segs.len();
            let mut tail: Vec<u16> = Vec::new();
            if i + 2 < n {
                let ranges_t = split_ranges(s, i + 2, n, ':');
                proof {
                    lemma_split_on_len(t, ':');
                    assert(t =~= s@.subrange(i + 2, n as int));
                }
                let ghost tparts = parts_of(s@, ranges_t@);
                proof {
                    assert(tparts =~= split_on(t, ':'));
                }
                match parse_tail(s, &ranges_t) {
                    Some(v) => {
                        tail = v;
                    },
                    None => {
                        return None;
                    },
                }
            } else {
                proof {
                    assert(t.len() == 0);
                    assert(tail_vals_opt(t) =~= Seq::<int>::empty());
                }
            }
            assert(tail@.len() == tail_width_opt(t));
            assert(forall|k: int|
                0 <= k < tail@.len() ==> (#[trigger] tail@[k]) as int == tail_vals_opt(t)[k]);
            let tail_len = tail.len();
            if head_len > 7 || tail_len > 7 || head_len + tail_len > 7 {
                return None;
            }
            assert(is_ipv6_compressed(s@));
            let mut z: usize = head_len + tail_len;
            while z < 8
                invariant
                    head_len + tail_len <= z <= 8,
                    segs@.len() == z - tail_len,
                    forall|k: int|
                        0 <= k < head_len ==> (#[trigger] segs@[k]) as int == h_vals[k],
                    forall|k: int| head_len <= k < segs@.len() ==> (#[trigger] segs@[k]) == 0,
                decreases 8 - z,
            {
                segs.push(0);
                z = z + 1;
            }
            let mut j: usize = 0;
            while j < tail_len
                invariant
                    0 <= j <= tail_len == tail@.len(),
                    segs@.len() == 8 - tail_len + j,
                    forall|k: int|
                        0 <= k < head_len ==> (#[trigger] segs@[k]) as int == h_vals[k],
                    forall|k: int| head_len <= k < 8 - tail_len ==> (#[trigger] segs@[k]) == 0,
                    forall|k: int|
                        8 - tail_len <= k < segs@.len() ==> (#[trigger] segs@[k]) == tail@[k - (8
                            - tail_len)],
                decreases tail_len - j,
            {
                let x = tail[j];
                segs.push(x);
                j = j + 1;
            }
            proof {
                let expect = h_vals + zero_segs(8 - h_vals.len() - tail_vals_opt(t).len())
                    + tail_vals_opt(t);
                assert(ipv6_segments_of(s@) == expect);
                assert(forall|k: int|
                    0 <= k < 8 ==> (#[trigger] segs@[k]) as int == expect[k]);
            }
            Some(segs)
        },
    }
}

/// Parses the text of an IP endpoint response as a numeric address:
/// an IPv4 literal or an IPv6 literal, and nothing else.
pub fn parse_ip(s: &str) -> (r: Result<IpAddress, AddressParseError>)
    ensures
        match r {
            Ok(a) => match a {
                IpAddress::V4(o0, o1, o2, o3) => {
                    &&& is_ipv4_str(s@)
                    &&& o0 as int == ipv4_octets_of(s@)[0]
                    &&& o1 as int == ipv4_octets_of(s@)[1]
                    &&& o2 as int == ipv4_octets_of(s@)[2]
                    &&& o3 as int == ipv4_octets_of(s@)[3]
                },
                IpAddress::V6(s0, s1, s2, s3, s4, s5, s6, s7) => {
                    &&& is_ipv6_str(s@)
                    &&& s0 as int == ipv6_segments_of(s@)[0]
                    &&& s1 as int == ipv6_segments_of(s@)[1]
                    &&& s2 as int == ipv6_segments_of(s@)[2]
                    &&& s3 as int == ipv6_segments_of(s@)[3]
                    &&& s4 as int == ipv6_segments_of(s@)[4]
                    &&& s5 as int == ipv6_segments_of(s@)[5]
                    &&& s6 as int == ipv6_segments_of(s@)[6]
                    &&& s7 as int == ipv6_segments_of(s@)[7]
                },
            },
            Err(_) => !is_ipv4_str(s@) && !is_ipv6_str(s@),
        },
{
    let n = s.unicode_len();
    proof {
        assert(s@.subrange(0, n as int) =~= s@);
    }
    match parse_ipv4(s, 0, n) {
        Some(o) => {
            return Ok(IpAddress::V4(o.0, o.1, o.2, o.3));
        },
        None => {},
    }
    match parse_ipv6(s) {
        Some(v) => Ok(IpAddress::V6(v[0], v[1], v[2], v[3], v[4], v[5], v[6], v[7])),
        None => Err(AddressParseError),
    }
}

} // verus!
