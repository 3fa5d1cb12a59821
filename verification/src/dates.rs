//! Calendar dates as plain values. Disclosure listings publish dates only
//! (no time of day), so a reported timestamp is modeled as a proleptic
//! Gregorian calendar date with lexicographic ordering.

use vstd::prelude::*;
use crate::text::{
    all_digits, digit_val, digits_value, is_digit_char, lemma_digits_value_nonneg, spec_split,
    split_seq, subvec,
};

verus! {

/// One calendar date. Ordering is lexicographic on (year, month, day).
#[derive(Clone, Copy, PartialEq, Eq, Structural, Debug)]
pub struct Date {
    pub year: i32,
    pub month: u8,
    pub day: u8,
}

/// Gregorian leap year rule.
pub open spec fn is_leap_year(y: int) -> bool {
    (y % 4 == 0 && y % 100 != 0) || y % 400 == 0
}

/// Number of days of month `m` of year `y`.
pub open spec fn days_in_month(y: int, m: int) -> int {
    if m == 1 || m == 3 || m == 5 || m == 7 || m == 8 || m == 10 || m == 12 {
        31
    } else if m == 4 || m == 6 || m == 9 || m == 11 {
        30
    } else if m == 2 {
        if is_leap_year(y) {
            29
        } else {
            28
        }
    } else {
        0
    }
}

/// The date names an existing day of the calendar.
pub open spec fn valid_date(d: Date) -> bool {
    1 <= d.month <= 12 && 1 <= d.day <= days_in_month(d.year as int, d.month as int)
}

/// Strictly earlier.
pub open spec fn date_lt(a: Date, b: Date) -> bool {
    a.year < b.year || (a.year == b.year && (a.month < b.month || (a.month == b.month && a.day
        < b.day)))
}

/// Earlier or equal.
pub open spec fn date_le(a: Date, b: Date) -> bool {
    date_lt(a, b) || a == b
}

/// The day before `d`.
pub open spec fn spec_prev_day(d: Date) -> Date {
    if d.day > 1 {
        Date { year: d.year, month: d.month, day: (d.day - 1) as u8 }
    } else if d.month > 1 {
        Date {
            year: d.year,
            month: (d.month - 1) as u8,
            day: days_in_month(d.year as int, d.month - 1) as u8,
        }
    } else {
        Date { year: (d.year - 1) as i32, month: 12, day: 31 }
    }
}

impl Date {
    /// Strictly earlier than `other`.
    pub fn lt(&self, other: &Date) -> (r: bool)
        ensures
            r == date_lt(*self, *other),
    {
        self.year < other.year || (self.year == other.year && (self.month < other.month || (
        self.month == other.month && self.day < other.day)))
    }

    /// Earlier than or equal to `other`.
    pub fn le(&self, other: &Date) -> (r: bool)
        ensures
            r == date_le(*self, *other),
    {
        self.lt(other) || (self.year == other.year && self.month == other.month && self.day
            == other.day)
    }
}

/// Does `d` divide `y`? Computed on the magnitude, so the remainder
/// arithmetic stays unsigned.
fn mod_zero(y: i32, d: u32) -> (r: bool)
    requires
        d > 0,
    ensures
        r == ((y as int) % (d as int) == 0),
{
    let a: u64 = if y < 0 {
        (-(y as i64)) as u64
    } else {
        y as u64
    };
    proof {
        let yi = y as int;
        let di = d as int;
        let ai = a as int;
        assert(ai == (if yi < 0 {
            -yi
        } else {
            yi
        }));
        if yi < 0 {
            vstd::arithmetic::div_mod::lemma_fundamental_div_mod(ai, di);
            let q = ai / di;
            let r = ai % di;
            vstd::arithmetic::div_mod::lemma_mod_bound(ai, di);
            if r == 0 {
                assert(yi == (-q) * di + 0) by (nonlinear_arith)
                    requires
                        ai == di * q + r,
                        r == 0,
                        yi == -ai,
                ;
                vstd::arithmetic::div_mod::lemma_fundamental_div_mod_converse(yi, di, -q, 0);
            } else {
                assert(yi == (-q - 1) * di + (di - r)) by (nonlinear_arith)
                    requires
                        ai == di * q + r,
                        yi == -ai,
                ;
                vstd::arithmetic::div_mod::lemma_fundamental_div_mod_converse(
                    yi,
                    di,
                    -q - 1,
                    di - r,
                );
                assert(yi % di == di - r);
            }
        }
    }
    let rem: u64 = a % (d as u64);
    rem == 0
}

fn is_leap_year_exec(y: i32) -> (r: bool)
    ensures
        r == is_leap_year(y as int),
{
    let div4 = mod_zero(y, 4);
    let div100 = mod_zero(y, 100);
    let div400 = mod_zero(y, 400);
    (div4 && !div100) || div400
}

fn days_in_month_exec(y: i32, m: u8) -> (r: u8)
    ensures
        r as int == days_in_month(y as int, m as int),
{
    if m == 1 || m == 3 || m == 5 || m == 7 || m == 8 || m == 10 || m == 12 {
        31
    } else if m == 4 || m == 6 || m == 9 || m == 11 {
        30
    } else if m == 2 {
        if is_leap_year_exec(y) {
            29
        } else {
            28
        }
    } else {
        0
    }
}

/// The day before `d`, used for the one-day backward safety margin of a
/// run's cutoff.
pub fn prev_day(d: &Date) -> (r: Date)
    requires
        valid_date(*d),
        !(d.year == i32::MIN && d.month == 1 && d.day == 1),
    ensures
        r == spec_prev_day(*d),
        valid_date(r),
        date_lt(r, *d),
{
    if d.day > 1 {
        Date { year: d.year, month: d.month, day: d.day - 1 }
    } else if d.month > 1 {
        Date { year: d.year, month: d.month - 1, day: days_in_month_exec(d.year, d.month - 1) }
    } else {
        Date { year: d.year - 1, month: 12, day: 31 }
    }
}

/// Value of a short digit group, together with its admissible shape: at
/// least one and at most `cap` digits.
pub open spec fn spec_parse_digits(s: Seq<char>, cap: int) -> Option<int> {
    if 1 <= s.len() <= cap && all_digits(s) {
        Some(digits_value(s))
    } else {
        None
    }
}

spec fn pow10(n: nat) -> int
    decreases n,
{
    if n == 0 {
        1
    } else {
        10 * pow10((n - 1) as nat)
    }
}

proof fn lemma_digits_value_lt_pow10(s: Seq<char>)
    requires
        forall|i: int| 0 <= i < s.len() ==> is_digit_char(s[i]),
    ensures
        digits_value(s) < pow10(s.len() as nat),
    decreases s.len(),
{
    if s.len() == 0 {
        assert(pow10(0) == 1);
    } else {
        let p = s.take(s.len() - 1);
        assert(forall|i: int| 0 <= i < p.len() ==> p[i] == s[i]);
        lemma_digits_value_lt_pow10(p);
        lemma_digits_value_nonneg(p);
        assert(pow10(s.len() as nat) == 10 * pow10((s.len() - 1) as nat));
        assert(digits_value(s) == digits_value(p) * 10 + digit_val(s[s.len() - 1]));
        assert(digit_val(s[s.len() - 1]) <= 9);
        assert(digits_value(p) * 10 <= (pow10((s.len() - 1) as nat) - 1) * 10);
    }
}

proof fn lemma_small_pow10()
    ensures
        pow10(0) == 1,
        pow10(1) == 10,
        pow10(2) == 100,
        pow10(3) == 1000,
        pow10(4) == 10000,
{
    assert(pow10(0) == 1);
    assert(pow10(1) == 10);
    assert(pow10(2) == 100);
    assert(pow10(3) == 1000);
    assert(pow10(4) == 10000);
}

/// Parses a group of at most four digits.
fn parse_digits4(v: &Vec<char>) -> (r: Option<u32>)
    ensures
        r matches Some(x) ==> spec_parse_digits(v@, 4) == Some(x as int) && x <= 9999,
        r is None ==> spec_parse_digits(v@, 4) is None,
{
    let n: usize = v.len();
    if n == 0 || n > 4 {
        return None;
    }
    let mut acc: u32 = 0;
    let mut i: usize = 0;
    while i < n
        invariant
            n == v@.len(),
            1 <= n <= 4,
            i <= n,
            forall|k: int| 0 <= k < i ==> is_digit_char(v@[k]),
            acc == digits_value(v@.take(i as int)),
            acc <= 9999,
        decreases n - i,
    {
        let c = v[i];
        let u: u32 = c as u32;
        if u < 48 || u > 57 {
            proof {
                assert(!all_digits(v@));
            }
            return None;
        }
        let ghost prefix = v@.take(i as int);
        let ghost prefix1 = v@.take(i + 1 as int);
        proof {
            assert(prefix1.take(prefix1.len() - 1) =~= prefix);
            assert(prefix1[prefix1.len() - 1] == v@[i as int]);
            assert(forall|k: int| 0 <= k < prefix1.len() ==> is_digit_char(prefix1[k]));
            lemma_digits_value_lt_pow10(prefix1);
            lemma_small_pow10();
            lemma_digits_value_nonneg(prefix);
        }
        acc = acc * 10 + (u - 48);
        i = i + 1;
    }
    proof {
        assert(v@.take(n as int) =~= v@);
    }
    Some(acc)
}

/// A date written `M/D/YYYY`, with one- or two-digit month and day and a
/// year of at most four digits; the named day must exist.
pub open spec fn spec_parse_mdy(s: Seq<char>) -> Option<Date> {
    let parts = spec_split(s, seq!['/']);
    if parts.len() == 3 {
        match (spec_parse_digits(parts[0], 2), spec_parse_digits(parts[1], 2), spec_parse_digits(
            parts[2],
            4,
        )) {
            (Some(m), Some(d), Some(y)) => {
                let date = Date { year: y as i32, month: m as u8, day: d as u8 };
                if m <= 12 && d <= 31 && valid_date(date) {
                    Some(date)
                } else {
                    None
                }
            },
            _ => None,
        }
    } else {
        None
    }
}

/// Parses a date written `M/D/YYYY`.
pub fn parse_mdy(v: &Vec<char>) -> (r: Option<Date>)
    ensures
        r == spec_parse_mdy(v@),
        r matches Some(d) ==> valid_date(d),
{
    let mut slash: Vec<char> = Vec::new();
    slash.push('/');
    proof {
        assert(slash@ =~= seq!['/']);
    }
    let parts = split_seq(v, &slash);
    if parts.len() != 3 {
        return None;
    }
    proof {
        assert(parts.deep_view()[0] == parts@[0]@);
        assert(parts.deep_view()[1] == parts@[1]@);
        assert(parts.deep_view()[2] == parts@[2]@);
    }
    let pm = parse_digits2(&parts[0]);
    let pd = parse_digits2(&parts[1]);
    let py = parse_digits4(&parts[2]);
    match (pm, pd, py) {
        (Some(m), Some(d), Some(y)) => {
            if m <= 12 && d <= 31 {
                let date = Date { year: y as i32, month: m as u8, day: d as u8 };
                if date.month >= 1 && date.day >= 1 && date.day <= days_in_month_exec(
                    date.year,
                    date.month,
                ) {
                    Some(date)
                } else {
                    None
                }
            } else {
                None
            }
        },
        _ => None,
    }
}

/// Parses a group of at most two digits.
fn parse_digits2(v: &Vec<char>) -> (r: Option<u32>)
    ensures
        r matches Some(x) ==> spec_parse_digits(v@, 2) == Some(x as int) && x <= 99,
        r is None ==> spec_parse_digits(v@, 2) is None,
{
    let n: usize = v.len();
    if n == 0 || n > 2 {
        return None;
    }
    match parse_digits4(v) {
        Some(x) => {
            proof {
                assert(all_digits(v@));
                lemma_digits_value_lt_pow10(v@);
                lemma_small_pow10();
            }
            Some(x)
        },
        None => None,
    }
}

/// A date written `YYYY/M.D`; the named day must exist.
pub open spec fn spec_parse_ymd_dots(s: Seq<char>) -> Option<Date> {
    let parts = spec_split(s, seq!['/']);
    if parts.len() == 2 {
        let sub = spec_split(parts[1], seq!['.']);
        if sub.len() == 2 {
            match (spec_parse_digits(parts[0], 4), spec_parse_digits(sub[0], 2), spec_parse_digits(
                sub[1],
                2,
            )) {
                (Some(y), Some(m), Some(d)) => {
                    let date = Date { year: y as i32, month: m as u8, day: d as u8 };
                    if m <= 12 && d <= 31 && valid_date(date) {
                        Some(date)
                    } else {
                        None
                    }
                },
                _ => None,
            }
        } else {
            None
        }
    } else {
        None
    }
}

/// Parses a date written `YYYY/M.D`.
pub fn parse_ymd_dots(v: &Vec<char>) -> (r: Option<Date>)
    ensures
        r == spec_parse_ymd_dots(v@),
        r matches Some(d) ==> valid_date(d),
{
    let mut slash: Vec<char> = Vec::new();
    slash.push('/');
    let mut dot: Vec<char> = Vec::new();
    dot.push('.');
    proof {
        assert(slash@ =~= seq!['/']);
        assert(dot@ =~= seq!['.']);
    }
    let parts = split_seq(v, &slash);
    if parts.len() != 2 {
        return None;
    }
    proof {
        assert(parts.deep_view()[0] == parts@[0]@);
        assert(parts.deep_view()[1] == parts@[1]@);
    }
    let sub = split_seq(&parts[1], &dot);
    if sub.len() != 2 {
        return None;
    }
    proof {
        assert(sub.deep_view()[0] == sub@[0]@);
        assert(sub.deep_view()[1] == sub@[1]@);
    }
    let py = parse_digits4(&parts[0]);
    let pm = parse_digits2(&sub[0]);
    let pd = parse_digits2(&sub[1]);
    match (py, pm, pd) {
        (Some(y), Some(m), Some(d)) => {
            if m <= 12 && d <= 31 {
                let date = Date { year: y as i32, month: m as u8, day: d as u8 };
                if date.month >= 1 && date.day >= 1 && date.day <= days_in_month_exec(
                    date.year,
                    date.month,
                ) {
                    Some(date)
                } else {
                    None
                }
            } else {
                None
            }
        },
        _ => None,
    }
}

/// A timestamp whose first ten characters read `YYYY-MM-DD`; the named day
/// must exist. The remainder of the string is not inspected.
pub open spec fn spec_parse_iso_prefix(s: Seq<char>) -> Option<Date> {
    if s.len() >= 10 {
        let head = s.subrange(0, 10);
        let parts = spec_split(head, seq!['-']);
        if parts.len() == 3 {
            match (spec_parse_digits(parts[0], 4), spec_parse_digits(parts[1], 2),
            spec_parse_digits(parts[2], 2)) {
                (Some(y), Some(m), Some(d)) => {
                    let date = Date { year: y as i32, month: m as u8, day: d as u8 };
                    if m <= 12 && d <= 31 && valid_date(date) {
                        Some(date)
                    } else {
                        None
                    }
                },
                _ => None,
            }
        } else {
            None
        }
    } else {
        None
    }
}

/// Parses the leading `YYYY-MM-DD` of a timestamp.
pub fn parse_iso_prefix(v: &Vec<char>) -> (r: Option<Date>)
    ensures
        r == spec_parse_iso_prefix(v@),
        r matches Some(d) ==> valid_date(d),
{
    if v.len() < 10 {
        return None;
    }
    let head = subvec(v, 0, 10);
    let mut dash: Vec<char> = Vec::new();
    dash.push('-');
    proof {
        assert(dash@ =~= seq!['-']);
    }
    let parts = split_seq(&head, &dash);
    if parts.len() != 3 {
        return None;
    }
    proof {
        assert(parts.deep_view()[0] == parts@[0]@);
        assert(parts.deep_view()[1] == parts@[1]@);
        assert(parts.deep_view()[2] == parts@[2]@);
    }
    let py = parse_digits4(&parts[0]);
    let pm = parse_digits2(&parts[1]);
    let pd = parse_digits2(&parts[2]);
    match (py, pm, pd) {
        (Some(y), Some(m), Some(d)) => {
            if m <= 12 && d <= 31 {
                let date = Date { year: y as i32, month: m as u8, day: d as u8 };
                if date.month >= 1 && date.day >= 1 && date.day <= days_in_month_exec(
                    date.year,
                    date.month,
                ) {
                    Some(date)
                } else {
                    None
                }
            } else {
                None
            }
        },
        _ => None,
    }
}

} // verus!
