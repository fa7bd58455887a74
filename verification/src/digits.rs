//! Decimal digit strings: the meaning of a digit sequence, the canonical
//! decimal form of an unsigned integer, and verified routines that format
//! and parse such strings.

use vstd::prelude::*;
use vstd::string::StrSliceExecFns;
use vstd::string::StringExecFns;

verus! {

broadcast use vstd::utf8::char_u32_cast;

/// A decimal digit character.
pub open spec fn is_dec_digit(c: char) -> bool {
    48 <= c as u32 <= 57
}

/// The numeric value of a decimal digit character.
pub open spec fn dec_digit_val(c: char) -> int {
    c as u32 - 48
}

/// Every character of the string is a decimal digit.
pub open spec fn all_dec_digits(s: Seq<char>) -> bool {
    forall|i: int| 0 <= i < s.len() ==> is_dec_digit(#[trigger] s[i])
}

/// The number denoted by a digit string, most significant digit first;
/// the empty string denotes zero.
pub open spec fn dec_val_of(s: Seq<char>) -> int
    decreases s.len(),
{
    if s.len() == 0 {
        0
    } else {
        dec_val_of(s.drop_last()) * 10 + dec_digit_val(s.last())
    }
}

/// The digit character for a value between 0 and 9.
pub open spec fn dec_digit_char(v: int) -> char {
    if v == 0 {
        '0'
    } else if v == 1 {
        '1'
    } else if v == 2 {
        '2'
    } else if v == 3 {
        '3'
    } else if v == 4 {
        '4'
    } else if v == 5 {
        '5'
    } else if v == 6 {
        '6'
    } else if v == 7 {
        '7'
    } else if v == 8 {
        '8'
    } else {
        '9'
    }
}

/// The canonical decimal form of a non-negative integer:
/// no leading zeros, a single `'0'` for zero.
pub open spec fn dec_str_of(n: int) -> Seq<char>
    recommends
        n >= 0,
    decreases n,
{
    if n <= 9 {
        seq![dec_digit_char(n)]
    } else {
        dec_str_of(n / 10) + seq![dec_digit_char(n % 10)]
    }
}

/// Ten raised to a non-negative power.
pub open spec fn pow10(k: int) -> int
    recommends
        k >= 0,
    decreases k,
{
    if k <= 0 {
        1
    } else {
        10 * pow10(k - 1)
    }
}

/// The value of a digit produced by `dec_digit_char`.
pub proof fn lemma_digit_val_of_char(v: int)
    requires
        0 <= v <= 9,
    ensures
        is_dec_digit(dec_digit_char(v)),
        dec_digit_val(dec_digit_char(v)) == v,
{
}

/// Reading a concatenation of digit strings: the left part is shifted
/// by one decimal place per character of the right part.
pub proof fn lemma_dec_val_concat(a: Seq<char>, b: Seq<char>)
    ensures
        dec_val_of(a + b) == dec_val_of(a) * pow10(b.len() as int) + dec_val_of(b),
    decreases b.len(),
{
    if b.len() == 0 {
        assert(a + b =~= a);
    } else {
        let b0 = b.drop_last();
        lemma_dec_val_concat(a, b0);
        assert((a + b).drop_last() =~= a + b0);
        assert((a + b).last() == b.last());
        let x = dec_val_of(a);
        let p = pow10(b0.len() as int);
        assert(pow10(b.len() as int) == 10 * p);
        assert((x * p + dec_val_of(b0)) * 10 + dec_digit_val(b.last()) == x * (10 * p) + (
        dec_val_of(b0) * 10 + dec_digit_val(b.last()))) by (nonlinear_arith);
    }
}

/// A digit string's value lies below ten to its length, and a string
/// with a non-zero leading digit reaches ten to one less than its length.
pub proof fn lemma_dec_val_bounds(s: Seq<char>)
    requires
        all_dec_digits(s),
    ensures
        0 <= dec_val_of(s) < pow10(s.len() as int),
        s.len() > 0 && s[0] != '0' ==> dec_val_of(s) >= pow10(s.len() - 1),
    decreases s.len(),
{
    if s.len() > 0 {
        lemma_dec_val_bounds(s.drop_last());
        assert(is_dec_digit(s.last()));
        if s.len() > 1 {
            assert(s.drop_last()[0] == s[0]);
        } else {
            if s[0] != '0' {
                assert(dec_digit_val(s[0]) >= 1) by {
                    let c = s[0];
                    assert('0' as u32 == 48);
                    if c as u32 == 48 {
                        vstd::utf8::char_u32_cast(c, 48);
                        vstd::utf8::char_u32_cast('0', 48);
                    }
                }
            }
        }
    }
}

/// The canonical decimal form consists of digits, never starts with a
/// zero unless it is exactly `"0"`, and denotes the number it was
/// formed from.
pub proof fn lemma_dec_str_of(n: int)
    requires
        n >= 0,
    ensures
        all_dec_digits(dec_str_of(n)),
        dec_str_of(n).len() >= 1,
        dec_val_of(dec_str_of(n)) == n,
        n > 0 ==> dec_str_of(n)[0] != '0',
        n == 0 ==> dec_str_of(n) =~= seq!['0'],
    decreases n,
{
    if n <= 9 {
        lemma_digit_val_of_char(n);
        assert(dec_str_of(n).drop_last() =~= Seq::<char>::empty());
        assert(dec_val_of(Seq::<char>::empty()) == 0);
        assert(dec_str_of(n).last() == dec_digit_char(n));
    } else {
        lemma_dec_str_of(n / 10);
        lemma_digit_val_of_char(n % 10);
        let s = dec_str_of(n);
        let a = dec_str_of(n / 10);
        let t = seq![dec_digit_char(n % 10)];
        assert(s =~= a + t);
        assert(s.drop_last() =~= a);
        assert(s.last() == dec_digit_char(n % 10));
        assert(forall|i: int|
            0 <= i < s.len() ==> is_dec_digit(#[trigger] s[i]) == if i < a.len() {
                is_dec_digit(a[i])
            } else {
                is_dec_digit(t[i - a.len()])
            });
        assert(s[0] == a[0]);
    }
}

/// The digit character for a value below ten, as a string slice.
pub fn digit_str(v: u64) -> (r: &'static str)
    requires
        v <= 9,
    ensures
        r@ =~= seq![dec_digit_char(v as int)],
{
    proof {
        reveal_strlit("0");
        reveal_strlit("1");
        reveal_strlit("2");
        reveal_strlit("3");
        reveal_strlit("4");
        reveal_strlit("5");
        reveal_strlit("6");
        reveal_strlit("7");
        reveal_strlit("8");
        reveal_strlit("9");
    }
    match v {
        0 => "0",
        1 => "1",
        2 => "2",
        3 => "3",
        4 => "4",
        5 => "5",
        6 => "6",
        7 => "7",
        8 => "8",
        _ => "9",
    }
}

/// Formats an unsigned integer in canonical decimal.
pub fn u64_to_dec(n: u64) -> (r: String)
    ensures
        r@ == dec_str_of(n as int),
    decreases n,
{
    if n <= 9 {
        let s = digit_str(n);
        s.to_owned()
    } else {
        let mut s = u64_to_dec(n / 10);
        s.append(digit_str(n % 10));
        assert(s@ =~= dec_str_of(n as int));
        s
    }
}

/// Whether a digit string denotes a value that fits in a `u32`.
pub open spec fn is_u32_dec(s: Seq<char>) -> bool {
    s.len() > 0 && all_dec_digits(s) && dec_val_of(s) <= u32::MAX
}

/// Reads the characters of `s` between `from` and `to` as a `u32`
/// written in decimal, leading zeros allowed. `None` when the range is
/// empty, holds a non-digit, or denotes a value that does not fit.
#[verifier::loop_isolation(false)]
pub fn parse_u32_range(s: &str, from: usize, to: usize) -> (r: Option<u32>)
    requires
        from <= to <= s@.len(),
    ensures
        ({
            let part = s@.subrange(from as int, to as int);
            match r {
                Some(v) => is_u32_dec(part) && v as int == dec_val_of(part),
                None => !is_u32_dec(part),
            }
        }),
{
    let ghost part = s@.subrange(from as int, to as int);
    if from == to {
        return None;
    }
    let mut i: usize = from;
    while i < to
        invariant
            from <= i <= to <= s@.len(),
            forall|k: int| from <= k < i ==> is_dec_digit(#[trigger] s@[k]),
        decreases to - i,
    {
        let c = s.get_char(i);
        let u = c as u32;
        if !(48 <= u && u <= 57) {
            assert(!all_dec_digits(part)) by {
                assert(part[i - from] == s@[i as int]);
            }
            return None;
        }
        i = i + 1;
    }
    assert(all_dec_digits(part)) by {
        assert(forall|k: int|
            0 <= k < part.len() ==> part[k] == s@[from + k] && is_dec_digit(#[trigger] part[k]));
    }
    // Skip leading zeros: they do not change the value.
    let mut z: usize = from;
    while z < to && s.get_char(z) == '0'
        invariant
            from <= z <= to <= s@.len(),
            forall|k: int| from <= k < z ==> s@[k] == '0',
        decreases to - z,
    {
        z = z + 1;
    }
    let ghost zeros = s@.subrange(from as int, z as int);
    let ghost rest = s@.subrange(z as int, to as int);
    proof {
        assert(part =~= zeros + rest);
        assert(dec_val_of(zeros) == 0) by {
            lemma_dec_val_all_zero(zeros);
        }
        lemma_dec_val_concat(zeros, rest);
        lemma_pow10_pos(rest.len() as int);
        assert(dec_val_of(part) == dec_val_of(rest));
        assert(all_dec_digits(rest)) by {
            assert(forall|k: int|
                0 <= k < rest.len() ==> rest[k] == part[z - from + k] && is_dec_digit(
                    #[trigger] rest[k],
                ));
        }
    }
    if to - z > 10 {
        // At least eleven digits after the leading zeros: the value has a
        // non-zero digit ten or more places up, so it cannot fit in a `u32`.
        proof {
            assert(rest[0] != '0');
            lemma_dec_val_bounds(rest);
            lemma_pow10_grows(10, rest.len() - 1);
            assert(pow10(10) == 10000000000) by {
                reveal_with_fuel(pow10, 11);
            }
        }
        return None;
    }
    let mut acc: u64 = 0;
    let mut j: usize = z;
    while j < to
        invariant
            z <= j <= to <= s@.len(),
            from <= z,
            to - z <= 10,
            forall|k: int| from <= k < to ==> is_dec_digit(#[trigger] s@[k]),
            acc as int == dec_val_of(s@.subrange(z as int, j as int)),
            (acc as int) < pow10(j - z),
        decreases to - j,
    {
        let c = s.get_char(j);
        let u = c as u32;
        proof {
            lemma_pow10_grows(j - z, 10);
            assert(pow10(10) == 10000000000) by {
                reveal_with_fuel(pow10, 11);
            }
            assert(s@.subrange(z as int, j + 1).drop_last() =~= s@.subrange(z as int, j as int));
        }
        acc = acc * 10 + ((u - 48) as u64);
        j = j + 1;
    }
    assert(acc as int == dec_val_of(rest));
    if acc > 0xffff_ffff {
        None
    } else {
        Some(acc as u32)
    }
}

/// A string of `'0'` characters denotes zero.
pub proof fn lemma_dec_val_all_zero(s: Seq<char>)
    requires
        forall|k: int| 0 <= k < s.len() ==> s[k] == '0',
    ensures
        dec_val_of(s) == 0,
    decreases s.len(),
{
    if s.len() > 0 {
        lemma_dec_val_all_zero(s.drop_last());
    }
}

/// Powers of ten are positive.
pub proof fn lemma_pow10_pos(k: int)
    ensures
        pow10(k) >= 1,
    decreases k,
{
    if k > 0 {
        lemma_pow10_pos(k - 1);
    }
}

/// Powers of ten grow with the exponent.
pub proof fn lemma_pow10_grows(a: int, b: int)
    requires
        a <= b,
    ensures
        pow10(a) <= pow10(b),
    decreases b - a,
{
    if a < b {
        lemma_pow10_grows(a, b - 1);
        lemma_pow10_pos(b - 1);
    }
}

} // verus!
