//! Calendar dates at day precision and their fixed `YYYY-MM-DD` wire form.

use crate::digits::all_dec_digits;
use crate::digits::dec_digit_char;
use crate::digits::dec_str_of;
use crate::digits::dec_val_of;
use crate::digits::lemma_dec_val_bounds;
use crate::digits::lemma_digit_val_of_char;
use crate::digits::parse_u32_range;
use crate::digits::pow10;
use crate::digits::digit_str;
use vstd::prelude::*;
use vstd::string::StrSliceExecFns;
use vstd::string::StringExecFns;

verus! {

/// A calendar date (UTC, day precision).
#[derive(Clone, Copy, Debug, PartialEq, Eq, Structural)]
pub struct CalendarDate {
    /// The year, at most four digits.
    pub year: u16,
    /// The month, counted from one.
    pub month: u8,
    /// The day of the month, counted from one.
    pub day: u8,
}

/// A leap year of the Gregorian calendar.
pub open spec fn is_leap_year(y: int) -> bool {
    y % 4 == 0 && (y % 100 != 0 || y % 400 == 0)
}

/// The number of days of a month.
pub open spec fn days_in_month(y: int, m: int) -> int
    recommends
        1 <= m <= 12,
{
    if m == 2 {
        if is_leap_year(y) {
            29
        } else {
            28
        }
    } else if m == 4 || m == 6 || m == 9 || m == 11 {
        30
    } else {
        31
    }
}

impl CalendarDate {
    /// A real day of the calendar, within the four-digit year range of
    /// the wire format.
    pub open spec fn wf(self) -> bool {
        &&& self.year <= 9999
    &&& 1 <= self.month <= 12
    &&& 1 <= self.day <= days_in_month(self.year as int, self.month as int)
    }

    /// Builds a date after checking that it names a real calendar day.
    pub fn new(year: u16, month: u8, day: u8) -> (r: Option<CalendarDate>)
        ensures
            match r {
                Some(d) => d == (CalendarDate { year, month, day }) && d.wf(),
                None => !(CalendarDate { year, month, day }).wf(),
            },
    {
        let d = CalendarDate { year, month, day };
        if year <= 9999 && 1 <= month && month <= 12 && 1 <= day && day <= days_in_month_x(
            year,
            month,
        ) {
            Some(d)
        } else {
            None
        }
    }
}

/// The number of days of a month, as executable code.
pub fn days_in_month_x(y: u16, m: u8) -> (r: u8)
    requires
        1 <= m <= 12,
    ensures
        r as int == days_in_month(y as int, m as int),
{
    if m == 2 {
        if (y % 4 == 0) && (y % 100 != 0 || y % 400 == 0) {
            29
        } else {
            28
        }
    } else if m == 4 || m == 6 || m == 9 || m == 11 {
        30
    } else {
        31
    }
}

/// A value below one hundred as two zero-padded digit characters.
pub open spec fn pad2_of(v: int) -> Seq<char> {
    seq![dec_digit_char(v / 10 % 10), dec_digit_char(v % 10)]
}

/// A value below ten thousand as four zero-padded digit characters.
pub open spec fn pad4_of(v: int) -> Seq<char> {
    seq![
        dec_digit_char(v / 1000 % 10),
        dec_digit_char(v / 100 % 10),
        dec_digit_char(v / 10 % 10),
        dec_digit_char(v % 10),
    ]
}

/// The wire form of a date: zero-padded `YYYY-MM-DD`.
pub open spec fn date_str_of(d: CalendarDate) -> Seq<char> {
    pad4_of(d.year as int) + seq!['-'] + pad2_of(d.month as int) + seq!['-'] + pad2_of(
        d.day as int,
    )
}

/// The shape of a wire date: ten characters, dashes after the year and
/// the month, digits everywhere else.
pub open spec fn is_date_format(s: Seq<char>) -> bool {
    &&& s.len() == 10
&&& s[4] == '-'
&&& s[7] == '-'
&&& all_dec_digits(s.subrange(0, 4))
&&& all_dec_digits(s.subrange(5, 7))
&&& all_dec_digits(s.subrange(8, 10))
}

/// The year digits of a wire date.
pub open spec fn date_year_of(s: Seq<char>) -> int {
    dec_val_of(s.subrange(0, 4))
}

/// The month digits of a wire date.
pub open spec fn date_month_of(s: Seq<char>) -> int {
    dec_val_of(s.subrange(5, 7))
}

/// The day digits of a wire date.
pub open spec fn date_day_of(s: Seq<char>) -> int {
    dec_val_of(s.subrange(8, 10))
}

/// A wire date that names a real calendar day.
pub open spec fn is_date_str(s: Seq<char>) -> bool {
    &&& is_date_format(s)
&&& 1 <= date_month_of(s) <= 12
&&& 1 <= date_day_of(s) <= days_in_month(date_year_of(s), date_month_of(s))
}

/// The date a valid wire date names.
pub open spec fn date_of_str(s: Seq<char>) -> CalendarDate {
    CalendarDate {
        year: date_year_of(s) as u16,
        month: date_month_of(s) as u8,
        day: date_day_of(s) as u8,
    }
}

/// The value of two padded digits.
proof fn lemma_pad2_val(v: int)
    requires
        0 <= v < 100,
    ensures
        all_dec_digits(pad2_of(v)),
        dec_val_of(pad2_of(v)) == v,
{
    reveal_with_fuel(dec_val_of, 4);
    lemma_digit_val_of_char(v / 10 % 10);
    lemma_digit_val_of_char(v % 10);
    let s = pad2_of(v);
    assert(s.drop_last() =~= seq![dec_digit_char(v / 10 % 10)]);
    assert(s.drop_last().drop_last() =~= Seq::<char>::empty());
    assert(dec_val_of(Seq::<char>::empty()) == 0);
    assert(dec_val_of(s) == (v / 10 % 10) * 10 + v % 10);
}

/// The value of four padded digits.
proof fn lemma_pad4_val(v: int)
    requires
        0 <= v < 10000,
    ensures
        all_dec_digits(pad4_of(v)),
        dec_val_of(pad4_of(v)) == v,
{
    reveal_with_fuel(dec_val_of, 6);
    lemma_digit_val_of_char(v / 1000 % 10);
    lemma_digit_val_of_char(v / 100 % 10);
    lemma_digit_val_of_char(v / 10 % 10);
    lemma_digit_val_of_char(v % 10);
    let s = pad4_of(v);
    assert(s.drop_last() =~= seq![
        dec_digit_char(v / 1000 % 10),
        dec_digit_char(v / 100 % 10),
        dec_digit_char(v / 10 % 10),
    ]);
    assert(s.drop_last().drop_last() =~= seq![
        dec_digit_char(v / 1000 % 10),
        dec_digit_char(v / 100 % 10),
    ]);
    assert(s.drop_last().drop_last().drop_last() =~= seq![dec_digit_char(v / 1000 % 10)]);
    assert(s.drop_last().drop_last().drop_last().drop_last() =~= Seq::<char>::empty());
    assert(dec_val_of(Seq::<char>::empty()) == 0);
    assert(dec_val_of(s) == ((v / 1000 % 10) * 10 + v / 100 % 10) * 10 * 10 + (v / 10 % 10) * 10 + v
        % 10);
}

/// A run of at most nine digits always denotes a value below a
/// billion, so it fits in a `u32`.
proof fn small_digit_run_fits(s: Seq<char>)
    requires
        s.len() <= 9,
    ensures
        all_dec_digits(s) && s.len() > 0 ==> crate::digits::is_u32_dec(s),
{
    if all_dec_digits(s) && s.len() > 0 {
        lemma_dec_val_bounds(s);
        crate::digits::lemma_pow10_grows(s.len() as int, 9);
        assert(pow10(9) == 1000000000) by {
            reveal_with_fuel(pow10, 10);
        }
    }
}

/// Formatting a well-formed date yields a valid wire date that names
/// the same day: parsing inverts formatting.
pub proof fn lemma_date_round_trip(d: CalendarDate)
    requires
        d.wf(),
    ensures
        is_date_str(date_str_of(d)),
        date_of_str(date_str_of(d)) == d,
{
    let s = date_str_of(d);
    lemma_pad4_val(d.year as int);
    lemma_pad2_val(d.month as int);
    lemma_pad2_val(d.day as int);
    assert(s.subrange(0, 4) =~= pad4_of(d.year as int));
    assert(s.subrange(5, 7) =~= pad2_of(d.month as int));
    assert(s.subrange(8, 10) =~= pad2_of(d.day as int));
}

/// Formats a date as its wire form.
pub fn format_date(d: &CalendarDate) -> (r: String)
    requires
        d.wf(),
    ensures
        r@ == date_str_of(*d),
        is_date_str(r@),
        date_of_str(r@) == *d,
{
    proof {
        reveal_strlit("-");
        lemma_date_round_trip(*d);
    }
    let y = d.year as u64;
    let mut s = digit_str(y / 1000).to_owned();
    s.append(digit_str(y / 100 % 10));
    s.append(digit_str(y / 10 % 10));
    s.append(digit_str(y % 10));
    s.append("-");
    let m = d.month as u64;
    s.append(digit_str(m / 10 % 10));
    s.append(digit_str(m % 10));
    s.append("-");
    let day = d.day as u64;
    s.append(digit_str(day / 10 % 10));
    s.append(digit_str(day % 10));
    assert(s@ =~= date_str_of(*d));
    s
}

/// Parses a wire date; `None` on any deviation from zero-padded
/// `YYYY-MM-DD` naming a real calendar day.
pub fn parse_date(s: &str) -> (r: Option<CalendarDate>)
    ensures
        match r {
            Some(d) => is_date_str(s@) && d == date_of_str(s@) && d.wf(),
            None => !is_date_str(s@),
        },
{
    if s.unicode_len() != 10 {
        return None;
    }
    if s.get_char(4) != '-' || s.get_char(7) != '-' {
        return None;
    }
    let year = match parse_u32_range(s, 0, 4) {
        Some(v) => v,
        None => {
            proof {
                small_digit_run_fits(s@.subrange(0, 4));
            }
            return None;
        },
    };
    let month = match parse_u32_range(s, 5, 7) {
        Some(v) => v,
        None => {
            proof {
                small_digit_run_fits(s@.subrange(5, 7));
            }
            return None;
        },
    };
    let day = match parse_u32_range(s, 8, 10) {
        Some(v) => v,
        None => {
            proof {
                small_digit_run_fits(s@.subrange(8, 10));
            }
            return None;
        },
    };
    proof {
        lemma_dec_val_bounds(s@.subrange(0, 4));
        lemma_dec_val_bounds(s@.subrange(5, 7));
        lemma_dec_val_bounds(s@.subrange(8, 10));
        assert(pow10(4) == 10000 && pow10(2) == 100) by {
            reveal_with_fuel(pow10, 5);
        }
    }
    if month < 1 || month > 12 {
        return None;
    }
    if day < 1 || day > days_in_month_x(year as u16, month as u8) as u32 {
        return None;
    }
    Some(CalendarDate { year: year as u16, month: month as u8, day: day as u8 })
}

} // verus!
