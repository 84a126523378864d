//! Calendar dates as plain values, and the `YYYY-MM-DD<space><rest>`
//! folder-name prefix: parsing, formatting, and today's date.

use vstd::prelude::*;

use crate::text::first_index_of;
use crate::text::lemma_first_index_of_absent;
use crate::text::lemma_first_index_of_found;
use crate::text::push_char;

verus! {

/// A calendar date in the proleptic Gregorian calendar.
pub struct Date {
    pub year: i32,
    pub month: u32,
    pub day: u32,
}

/// Leap years in the proleptic Gregorian calendar.
pub open spec fn is_leap_year(y: int) -> bool {
    (y % 4 == 0 && y % 100 != 0) || y % 400 == 0
}

/// Number of days in a given month of a given year.
pub open spec fn days_in_month(y: int, m: int) -> int {
    if m == 2 {
        if is_leap_year(y) {
            29
        } else {
            28
        }
    } else if m == 4 || m == 6 || m == 9 || m == 11 {
        30
    } else {
        31
    }
}

impl Date {
    /// A real calendar date: month and day are in range.
    pub open spec fn wf(self) -> bool {
        &&& 1 <= self.month <= 12
        &&& 1 <= self.day <= days_in_month(self.year as int, self.month as int)
    }
}

pub open spec fn is_digit(c: char) -> bool {
    48 <= c as int <= 57
}

pub open spec fn digit_val(c: char) -> int {
    c as int - 48
}

/// The decimal digit character for a value 0..=9.
pub open spec fn digit_char(v: int) -> char {
    if v == 0 {
        '0'
    } else if v == 1 {
        '1'
    } else if v == 2 {
        '2'
    } else if v == 3 {
        '3'
    } else if v == 4 {
        '4'
    } else if v == 5 {
        '5'
    } else if v == 6 {
        '6'
    } else if v == 7 {
        '7'
    } else if v == 8 {
        '8'
    } else {
        '9'
    }
}

/// The fixed shape `DDDD-DD-DD` with decimal digits.
pub open spec fn date_pattern_ok(s: Seq<char>) -> bool {
    &&& s.len() == 10
    &&& is_digit(s[0]) && is_digit(s[1]) && is_digit(s[2]) && is_digit(s[3])
    &&& s[4] == '-'
    &&& is_digit(s[5]) && is_digit(s[6])
    &&& s[7] == '-'
    &&& is_digit(s[8]) && is_digit(s[9])
}

pub open spec fn parsed_year(s: Seq<char>) -> int {
    1000 * digit_val(s[0]) + 100 * digit_val(s[1]) + 10 * digit_val(s[2]) + digit_val(s[3])
}

pub open spec fn parsed_month(s: Seq<char>) -> int {
    10 * digit_val(s[5]) + digit_val(s[6])
}

pub open spec fn parsed_day(s: Seq<char>) -> int {
    10 * digit_val(s[8]) + digit_val(s[9])
}

/// Parse a string of the fixed pattern `YYYY-MM-DD` into a calendar date;
/// anything else, including an impossible month or day, is rejected.
pub open spec fn parse_date(s: Seq<char>) -> Option<Date> {
    if date_pattern_ok(s) && 1 <= parsed_month(s) <= 12 && 1 <= parsed_day(s) <= days_in_month(
        parsed_year(s),
        parsed_month(s),
    ) {
        Some(
            Date {
                year: parsed_year(s) as i32,
                month: parsed_month(s) as u32,
                day: parsed_day(s) as u32,
            },
        )
    } else {
        None
    }
}

fn is_digit_char(c: char) -> (r: bool)
    ensures
        r == is_digit(c),
{
    let u = c as u32;
    48 <= u && u <= 57
}

fn digit_value(c: char) -> (r: u32)
    requires
        is_digit(c),
    ensures
        r == digit_val(c),
        r <= 9,
{
    (c as u32) - 48
}

fn digit_to_char(v: u32) -> (r: char)
    requires
        v <= 9,
    ensures
        r == digit_char(v as int),
{
    if v == 0 {
        '0'
    } else if v == 1 {
        '1'
    } else if v == 2 {
        '2'
    } else if v == 3 {
        '3'
    } else if v == 4 {
        '4'
    } else if v == 5 {
        '5'
    } else if v == 6 {
        '6'
    } else if v == 7 {
        '7'
    } else if v == 8 {
        '8'
    } else {
        '9'
    }
}

fn days_in_month_of(y: i32, m: u32) -> (r: u32)
    requires
        0 <= y,
        1 <= m <= 12,
    ensures
        r == days_in_month(y as int, m as int),
{
    if m == 2 {
        if (y % 4 == 0 && y % 100 != 0) || y % 400 == 0 {
            29
        } else {
            28
        }
    } else if m == 4 || m == 6 || m == 9 || m == 11 {
        30
    } else {
        31
    }
}

/// Parse `s` as a `YYYY-MM-DD` calendar date.
pub fn parse_date_str(s: &str) -> (r: Option<Date>)
    ensures
        r == parse_date(s@),
        r is Some ==> r->0.wf(),
{
    let n = s.unicode_len();
    if n != 10 {
        return None;
    }
    let c0 = s.get_char(0);
    let c1 = s.get_char(1);
    let c2 = s.get_char(2);
    let c3 = s.get_char(3);
    let c4 = s.get_char(4);
    let c5 = s.get_char(5);
    let c6 = s.get_char(6);
    let c7 = s.get_char(7);
    let c8 = s.get_char(8);
    let c9 = s.get_char(9);
    if !(is_digit_char(c0) && is_digit_char(c1) && is_digit_char(c2) && is_digit_char(c3)
        && is_digit_char(c5) && is_digit_char(c6) && is_digit_char(c8) && is_digit_char(c9)) {
        return None;
    }
    if c4 != '-' || c7 != '-' {
        return None;
    }
    let y: u32 = 1000 * digit_value(c0) + 100 * digit_value(c1) + 10 * digit_value(c2)
        + digit_value(c3);
    let m: u32 = 10 * digit_value(c5) + digit_value(c6);
    let d: u32 = 10 * digit_value(c8) + digit_value(c9);
    if m < 1 || m > 12 {
        return None;
    }
    if d < 1 || d > days_in_month_of(y as i32, m) {
        return None;
    }
    Some(Date { year: y as i32, month: m, day: d })
}

/// The ten characters `YYYY-MM-DD` for a date with a four-digit year.
pub open spec fn date_prefix_chars(d: Date) -> Seq<char> {
    let y = d.year as int;
    let m = d.month as int;
    let dd = d.day as int;
    seq![
        digit_char(y / 1000),
        digit_char((y / 100) % 10),
        digit_char((y / 10) % 10),
        digit_char(y % 10),
        '-',
        digit_char(m / 10),
        digit_char(m % 10),
        '-',
        digit_char(dd / 10),
        digit_char(dd % 10),
    ]
}

/// Render a date as its ten-character `YYYY-MM-DD` prefix form.
pub fn format_date_prefix(d: &Date) -> (r: String)
    requires
        d.wf(),
        0 <= d.year <= 9999,
    ensures
        r@ == date_prefix_chars(*d),
{
    let y = d.year as u32;
    let mut out = String::new();
    push_char(&mut out, digit_to_char(y / 1000));
    push_char(&mut out, digit_to_char((y / 100) % 10));
    push_char(&mut out, digit_to_char((y / 10) % 10));
    push_char(&mut out, digit_to_char(y % 10));
    push_char(&mut out, '-');
    push_char(&mut out, digit_to_char(d.month / 10));
    push_char(&mut out, digit_to_char(d.month % 10));
    push_char(&mut out, '-');
    push_char(&mut out, digit_to_char(d.day / 10));
    push_char(&mut out, digit_to_char(d.day % 10));
    proof {
        assert(out@ =~= date_prefix_chars(*d));
    }
    out
}

/// Relies on chrono: `Local::now().date_naive()` is a real calendar date
/// in the local time zone, so `Datelike` returns a month in 1..=12 and a
/// day that exists in that month.
#[verifier::external_body]
pub(crate) fn today_date() -> (d: Date)
    ensures
        d.wf(),
{
    let now = chrono::Local::now().date_naive();
    Date {
        year: chrono::Datelike::year(&now),
        month: chrono::Datelike::month(&now),
        day: chrono::Datelike::day(&now),
    }
}

/// Today's date as the ten-character `YYYY-MM-DD` prefix. A clock outside
/// the four-digit years falls back to the epoch date.
pub fn generate_prefix_date() -> (r: String)
    ensures
        exists|d: Date| d.wf() && 0 <= d.year <= 9999 && r@ == date_prefix_chars(d),
{
    let t = today_date();
    if 0 <= t.year && t.year <= 9999 {
        let r = format_date_prefix(&t);
        proof {
            assert(t.wf() && 0 <= t.year <= 9999 && r@ == date_prefix_chars(t));
        }
        r
    } else {
        let epoch = Date { year: 1970, month: 1, day: 1 };
        let r = format_date_prefix(&epoch);
        proof {
            assert(epoch.wf() && 0 <= epoch.year <= 9999 && r@ == date_prefix_chars(epoch));
        }
        r
    }
}

/// Decompose a folder name on its first space into a calendar date and a
/// non-empty rest, if it has that shape.
pub open spec fn split_prefix(s: Seq<char>) -> Option<(Date, Seq<char>)> {
    let i = first_index_of(s, ' ');
    if i >= 0 {
        let lhs = s.subrange(0, i);
        let rhs = s.subrange(i + 1, s.len() as int);
        if rhs.len() > 0 {
            match parse_date(lhs) {
                Some(d) => Some((d, rhs)),
                None => None,
            }
        } else {
            None
        }
    } else {
        None
    }
}

/// Split a folder name of the shape `YYYY-MM-DD <rest>` (first space,
/// calendar-valid date, non-empty rest) into its date and its rest.
pub fn extract_prefix_date(name: &str) -> (r: Option<(Date, String)>)
    ensures
        r is Some <==> split_prefix(name@) is Some,
        r is Some ==> (r->0).0 == (split_prefix(name@)->0).0 && ((r->0).1)@ == (split_prefix(
            name@,
        )->0).1,
        r is Some ==> ((r->0).0).wf(),
{
    let n = name.unicode_len();
    let mut i: usize = 0;
    while i < n
        invariant
            name@.len() == n,
            i <= n,
            forall|k: int| 0 <= k < i ==> name@[k] != ' ',
        decreases n - i,
    {
        if name.get_char(i) == ' ' {
            proof {
                lemma_first_index_of_found(name@, ' ', i as int);
            }
            if i + 1 >= n {
                return None;
            }
            let lhs = name.substring_char(0, i);
            match parse_date_str(lhs) {
                Some(d) => {
                    let rest = String::from_str(name.substring_char(i + 1, n));
                    return Some((d, rest));
                },
                None => {
                    return None;
                },
            }
        }
        i += 1;
    }
    proof {
        lemma_first_index_of_absent(name@, ' ');
    }
    None
}

} // verus!
