//! Date-only values: a calendar date read from a `%Y-%m-%d` string becomes
//! the seconds of its midnight UTC since the Unix epoch — the form the
//! records carry. The calendar is the proleptic Gregorian one, stated by
//! counting days year by year and month by month; years run over the whole
//! window the wire format's date type holds, so dates before 1970 yield
//! negative timestamps. The accepted text mirrors the widget pipeline:
//! whitespace may precede each number, the year may carry a sign (and then
//! any number of digits; four at most without one), month and day take one
//! or two digits.

use vstd::prelude::*;

use crate::digits::{
    digit_of_char, digit_val, digits_val, is_digit, lemma_digits_val_prefix_le,
};
use vstd::arithmetic::div_mod::lemma_mod_multiples_vanish;
use vstd::string::*;

verus! {

/// The first year a calendar date may carry.
pub const MIN_YEAR: i64 = -262143;

/// The last year a calendar date may carry.
pub const MAX_YEAR: i64 = 262142;

pub open spec fn is_leap_year(y: int) -> bool {
    (y % 4 == 0 && y % 100 != 0) || y % 400 == 0
}

pub open spec fn days_in_year(y: int) -> int {
    if is_leap_year(y) {
        366
    } else {
        365
    }
}

pub open spec fn days_in_month(y: int, m: int) -> int {
    if m == 1 {
        31
    } else if m == 2 {
        if is_leap_year(y) {
            29
        } else {
            28
        }
    } else if m == 3 {
        31
    } else if m == 4 {
        30
    } else if m == 5 {
        31
    } else if m == 6 {
        30
    } else if m == 7 {
        31
    } else if m == 8 {
        31
    } else if m == 9 {
        30
    } else if m == 10 {
        31
    } else if m == 11 {
        30
    } else {
        31
    }
}

/// Days from 1970-01-01 to the first day of year `y` — negative for years
/// before 1970.
pub open spec fn days_before_year(y: int) -> int
    decreases (if y >= 1970 {
        y - 1970
    } else {
        1970 - y
    }),
{
    if y == 1970 {
        0
    } else if y > 1970 {
        days_before_year(y - 1) + days_in_year(y - 1)
    } else {
        days_before_year(y + 1) - days_in_year(y)
    }
}

/// Days from the first day of year `y` to the first day of its month `m`.
pub open spec fn days_before_month(y: int, m: int) -> int
    decreases m,
{
    if m <= 1 {
        0
    } else {
        days_before_month(y, m - 1) + days_in_month(y, m - 1)
    }
}

/// A calendar date the records accept: a year the date window holds, with
/// the day inside its month.
pub open spec fn valid_date(y: int, m: int, d: int) -> bool {
    MIN_YEAR as int <= y <= MAX_YEAR as int && 1 <= m <= 12 && 1 <= d <= days_in_month(y, m)
}

/// Days from 1970-01-01 to the date.
pub open spec fn epoch_days(y: int, m: int, d: int) -> int {
    days_before_year(y) + days_before_month(y, m) + (d - 1)
}

/// The seconds of the date's midnight UTC since the Unix epoch.
pub open spec fn midnight_utc(y: int, m: int, d: int) -> int {
    epoch_days(y, m, d) * 86400
}

/// The day count to a year's first day never outgrows a leap year per year,
/// in either direction.
pub proof fn lemma_days_before_year_bound(y: int)
    ensures
        y >= 1970 ==> 0 <= days_before_year(y) <= (y - 1970) * 366,
        y < 1970 ==> -((1970 - y) * 366) <= days_before_year(y) <= 0,
    decreases (if y >= 1970 {
        y - 1970
    } else {
        1970 - y
    }),
{
    if y > 1970 {
        lemma_days_before_year_bound(y - 1);
    } else if y < 1970 {
        lemma_days_before_year_bound(y + 1);
    }
}

/// The day count to a month's first day stays within the year.
pub proof fn lemma_days_before_month_bound(y: int, m: int)
    requires
        1 <= m <= 13,
    ensures
        0 <= days_before_month(y, m) <= (m - 1) * 31,
    decreases m,
{
    if m > 1 {
        lemma_days_before_month_bound(y, m - 1);
    }
}

fn is_leap_year_exec(y: i64) -> (r: bool)
    requires
        -400000 <= y <= 400000,
    ensures
        r == is_leap_year(y as int),
{
    let yy: i64 = y + 400000;
    proof {
        lemma_mod_multiples_vanish(100000, y as int, 4);
        lemma_mod_multiples_vanish(4000, y as int, 100);
        lemma_mod_multiples_vanish(1000, y as int, 400);
    }
    ((yy % 4 == 0) && (yy % 100 != 0)) || yy % 400 == 0
}

fn days_in_year_exec(y: i64) -> (r: i64)
    requires
        -400000 <= y <= 400000,
    ensures
        r == days_in_year(y as int),
{
    if is_leap_year_exec(y) {
        366
    } else {
        365
    }
}

fn days_in_month_exec(y: i64, m: u64) -> (r: u64)
    requires
        -400000 <= y <= 400000,
        1 <= m <= 12,
    ensures
        r == days_in_month(y as int, m as int),
        1 <= r <= 31,
{
    if m == 2 {
        if is_leap_year_exec(y) {
            29
        } else {
            28
        }
    } else if m == 4 || m == 6 || m == 9 || m == 11 {
        30
    } else {
        31
    }
}

fn days_before_year_exec(y: i64) -> (r: i64)
    requires
        MIN_YEAR <= y <= MAX_YEAR,
    ensures
        r == days_before_year(y as int),
        -97000000 <= r <= 97000000,
{
    if y >= 1970 {
        let mut days: i64 = 0;
        let mut yy: i64 = 1970;
        while yy < y
            invariant
                1970 <= yy <= y <= MAX_YEAR,
                days == days_before_year(yy as int),
                0 <= days <= (yy - 1970) * 366,
            decreases y - yy,
        {
            days = days + days_in_year_exec(yy);
            yy = yy + 1;
        }
        days
    } else {
        let mut days: i64 = 0;
        let mut yy: i64 = 1970;
        while yy > y
            invariant
                MIN_YEAR <= y <= yy <= 1970,
                days == days_before_year(yy as int),
                -((1970 - yy) * 366) <= days <= 0,
            decreases yy - y,
        {
            yy = yy - 1;
            days = days - days_in_year_exec(yy);
        }
        days
    }
}

/// The midnight-UTC timestamp of a calendar date; nothing for a date the
/// records do not accept.
pub fn date_to_timestamp(y: i64, m: u64, d: u64) -> (r: Option<i64>)
    ensures
        r is Some <==> valid_date(y as int, m as int, d as int),
        r matches Some(t) ==> t == midnight_utc(y as int, m as int, d as int),
{
    if y < MIN_YEAR || y > MAX_YEAR || m < 1 || m > 12 {
        return None;
    }
    let dim = days_in_month_exec(y, m);
    if d < 1 || d > dim {
        return None;
    }
    let ydays = days_before_year_exec(y);
    let mut mdays: i64 = 0;
    let mut mm: u64 = 1;
    while mm < m
        invariant
            1 <= mm <= m <= 12,
            MIN_YEAR <= y <= MAX_YEAR,
            mdays == days_before_month(y as int, mm as int),
            0 <= mdays <= (mm - 1) * 31,
        decreases m - mm,
    {
        mdays = mdays + days_in_month_exec(y, mm) as i64;
        mm = mm + 1;
    }
    let total_days = ydays + mdays + (d as i64 - 1);
    Some(total_days * 86400)
}

/// A character the widget pipeline skips before each number: the Unicode
/// whitespace set.
pub open spec fn is_space(c: char) -> bool {
    ||| c == '\u{0009}'
    ||| c == '\u{000A}'
    ||| c == '\u{000B}'
    ||| c == '\u{000C}'
    ||| c == '\u{000D}'
    ||| c == ' '
    ||| c == '\u{0085}'
    ||| c == '\u{00A0}'
    ||| c == '\u{1680}'
    ||| c == '\u{2000}'
    ||| c == '\u{2001}'
    ||| c == '\u{2002}'
    ||| c == '\u{2003}'
    ||| c == '\u{2004}'
    ||| c == '\u{2005}'
    ||| c == '\u{2006}'
    ||| c == '\u{2007}'
    ||| c == '\u{2008}'
    ||| c == '\u{2009}'
    ||| c == '\u{200A}'
    ||| c == '\u{2028}'
    ||| c == '\u{2029}'
    ||| c == '\u{202F}'
    ||| c == '\u{205F}'
    ||| c == '\u{3000}'
}

fn is_space_exec(c: char) -> (r: bool)
    ensures
        r == is_space(c),
{
    c == '\u{0009}' || c == '\u{000A}' || c == '\u{000B}' || c == '\u{000C}' || c == '\u{000D}'
        || c == ' ' || c == '\u{0085}' || c == '\u{00A0}' || c == '\u{1680}' || c == '\u{2000}'
        || c == '\u{2001}' || c == '\u{2002}' || c == '\u{2003}' || c == '\u{2004}' || c
        == '\u{2005}' || c == '\u{2006}' || c == '\u{2007}' || c == '\u{2008}' || c == '\u{2009}'
        || c == '\u{200A}' || c == '\u{2028}' || c == '\u{2029}' || c == '\u{202F}' || c
        == '\u{205F}' || c == '\u{3000}'
}

/// The length of the whitespace run starting at `from`.
pub open spec fn space_run(s: Seq<char>, from: int) -> int
    decreases s.len() - from,
    when 0 <= from <= s.len()
{
    if from < s.len() && is_space(s[from]) {
        1 + space_run(s, from + 1)
    } else {
        0
    }
}

/// The length of the digit run starting at `from`.
pub open spec fn digit_run(s: Seq<char>, from: int) -> int
    decreases s.len() - from,
    when 0 <= from <= s.len()
{
    if from < s.len() && is_digit(s[from]) {
        1 + digit_run(s, from + 1)
    } else {
        0
    }
}

fn skip_spaces(s: &str, from: usize, len: usize) -> (r: usize)
    requires
        len == s@.len(),
        from <= len,
    ensures
        r == from + space_run(s@, from as int),
        from <= r <= len,
{
    let mut i: usize = from;
    while i < len && is_space_exec(s.get_char(i))
        invariant
            from <= i <= len,
            len == s@.len(),
            space_run(s@, from as int) == i - from + space_run(s@, i as int),
        decreases len - i,
    {
        i = i + 1;
    }
    i
}

fn digit_run_end(s: &str, from: usize, len: usize) -> (r: usize)
    requires
        len == s@.len(),
        from <= len,
    ensures
        r == from + digit_run(s@, from as int),
        from <= r <= len,
{
    let mut i: usize = from;
    while i < len && digit_of_char(s.get_char(i)) < 10
        invariant
            from <= i <= len,
            len == s@.len(),
            digit_run(s@, from as int) == i - from + digit_run(s@, i as int),
        decreases len - i,
    {
        i = i + 1;
    }
    i
}

/// Reads the digit run starting at `from`: where it ends, and its value
/// unless that value outgrows the largest year magnitude of interest.
fn read_number(s: &str, from: usize, len: usize) -> (r: (usize, u64, bool))
    requires
        len == s@.len(),
        from <= len,
    ensures
        ({
            let end = from + digit_run(s@, from as int);
            let run = s@.subrange(from as int, end);
            &&& r.0 == end
            &&& from <= end <= len
            &&& (!r.2 ==> r.1 == digits_val(run) && r.1 <= 10000009)
            &&& (r.2 ==> digits_val(run) > 1000000)
        }),
{
    let end = digit_run_end(s, from, len);
    let ghost run = s@.subrange(from as int, end as int);
    let mut acc: u64 = 0;
    let mut overflow = false;
    let mut i: usize = from;
    proof {
        assert(run.subrange(0, 0) =~= s@.subrange(from as int, from as int));
        assert(digits_val(run.subrange(0, 0)) == 0);
        assert forall|j: int| from <= j < end implies is_digit(s@[j]) by {
            lemma_digit_run_digits(s@, from as int, j);
        }
    }
    while i < end
        invariant
            from <= i <= end <= len,
            len == s@.len(),
            end == from + digit_run(s@, from as int),
            run == s@.subrange(from as int, end as int),
            forall|j: int| from <= j < end ==> is_digit(s@[j]),
            !overflow ==> acc == digits_val(run.subrange(0, i - from)) && acc <= 10000009,
            overflow ==> digits_val(run) > 1000000,
        decreases end - i,
    {
        proof {
            assert(is_digit(s@[i as int]));
            assert(run.subrange(0, i - from + 1).drop_last() =~= run.subrange(0, i - from));
            assert(run[i - from] == s@[i as int]);
        }
        let d = digit_of_char(s.get_char(i));
        if !overflow {
            if acc > 1000000 {
                overflow = true;
                proof {
                    lemma_digits_val_prefix_le(run, i - from);
                    assert(run.take(i - from) =~= run.subrange(0, i - from));
                }
            } else {
                acc = acc * 10 + d;
            }
        }
        i = i + 1;
    }
    proof {
        if !overflow {
            assert(run.subrange(0, end - from) =~= run);
        }
    }
    (end, acc, overflow)
}

/// Every position inside a digit run holds a digit.
proof fn lemma_digit_run_digits(s: Seq<char>, from: int, j: int)
    requires
        0 <= from <= s.len(),
        from <= j < from + digit_run(s, from),
    ensures
        is_digit(s[j]),
    decreases j - from,
{
    if j > from {
        lemma_digit_run_digits(s, from + 1, j);
    }
}

/// The components of a `%Y-%m-%d` date string, when the text has that
/// shape: whitespace may precede each number, the year may carry a sign
/// (and then any number of digits; at most four without one), month and
/// day take one or two digits, and nothing may follow the day.
pub open spec fn date_components(s: Seq<char>) -> Option<(int, int, int)> {
    let ws0 = space_run(s, 0);
    let signed = ws0 < s.len() && (s[ws0] == '-' || s[ws0] == '+');
    let neg = ws0 < s.len() && s[ws0] == '-';
    let ystart = if signed {
        ws0 + 1
    } else {
        ws0
    };
    let ylen = digit_run(s, ystart);
    let yend = ystart + ylen;
    if ylen < 1 || (!signed && ylen > 4) || !(yend < s.len() && s[yend] == '-') {
        None
    } else {
        let mstart = yend + 1 + space_run(s, yend + 1);
        let mlen = digit_run(s, mstart);
        let mend = mstart + mlen;
        if mlen < 1 || mlen > 2 || !(mend < s.len() && s[mend] == '-') {
            None
        } else {
            let dstart = mend + 1 + space_run(s, mend + 1);
            let dlen = digit_run(s, dstart);
            if dlen < 1 || dlen > 2 || dstart + dlen != s.len() {
                None
            } else {
                let ymag = digits_val(s.subrange(ystart, yend)) as int;
                let y = if neg {
                    -ymag
                } else {
                    ymag
                };
                Some(
                    (
                        y,
                        digits_val(s.subrange(mstart, mend)) as int,
                        digits_val(s.subrange(dstart, dstart + dlen)) as int,
                    ),
                )
            }
        }
    }
}

/// What a date input's text denotes: the midnight-UTC timestamp of the
/// date it spells, nothing for any other text.
pub open spec fn spec_parse_date(s: Seq<char>) -> Option<i64> {
    match date_components(s) {
        Some((y, m, d)) => if valid_date(y, m, d) {
            Some(midnight_utc(y, m, d) as i64)
        } else {
            None
        },
        None => None,
    }
}

/// Reads a `%Y-%m-%d` date as its midnight-UTC timestamp.
pub fn parse_date(s: &str) -> (r: Option<i64>)
    ensures
        r == spec_parse_date(s@),
{
    let len = s.unicode_len();
    let ws0end = skip_spaces(s, 0, len);
    let mut neg = false;
    let mut ystart = ws0end;
    if ws0end < len {
        let c = s.get_char(ws0end);
        if c == '-' {
            neg = true;
            ystart = ws0end + 1;
        } else if c == '+' {
            ystart = ws0end + 1;
        }
    }
    let signed = ystart != ws0end;
    let (yend, yval, yovf) = read_number(s, ystart, len);
    if yend == ystart {
        return None;
    }
    if !signed && yend - ystart > 4 {
        return None;
    }
    if yend >= len || s.get_char(yend) != '-' {
        return None;
    }
    let mstart = skip_spaces(s, yend + 1, len);
    let (mend, mval, movf) = read_number(s, mstart, len);
    if mend == mstart || mend - mstart > 2 {
        return None;
    }
    if mend >= len || s.get_char(mend) != '-' {
        return None;
    }
    let dstart = skip_spaces(s, mend + 1, len);
    let (dend, dval, dovf) = read_number(s, dstart, len);
    if dend == dstart || dend - dstart > 2 || dend != len {
        return None;
    }
    if yovf || movf || dovf {
        // A component this large is never a valid year, month or day.
        return None;
    }
    let y: i64 = if neg {
        -(yval as i64)
    } else {
        yval as i64
    };
    date_to_timestamp(y, mval, dval)
}

} // verus!
