//! Calendar dates and clock times as plain values.
//!
//! Due dates are written `YYYY-MM-DD` and due times `HH:MM`, so a date is
//! kept as year/month/day fields in the proleptic Gregorian calendar with
//! four-digit years, and a time as hour/minute fields. Everything here is
//! ordinary integer arithmetic: leap years, month lengths, a day index for
//! comparing and stepping dates, and the weekday used by weekly repeats.

use vstd::prelude::*;

verus! {

use vstd::string::StrSliceExecFns;

/// A calendar date with a four-digit year.
#[derive(Clone, Copy, PartialEq, Eq, Structural, Debug)]
pub struct Date {
    pub year: u16,
    pub month: u8,
    pub day: u8,
}

/// A local clock time of hours and minutes.
#[derive(Clone, Copy, PartialEq, Eq, Structural, Debug)]
pub struct TimeOfDay {
    pub hour: u8,
    pub minute: u8,
}

pub open spec fn is_leap_year_spec(y: int) -> bool {
    (y % 4 == 0 && y % 100 != 0) || y % 400 == 0
}

pub open spec fn days_in_month_spec(y: int, m: int) -> int {
    if m == 2 {
        if is_leap_year_spec(y) {
            29
        } else {
            28
        }
    } else if m == 4 || m == 6 || m == 9 || m == 11 {
        30
    } else {
        31
    }
}

pub open spec fn date_valid(d: Date) -> bool {
    &&& d.year <= 9999
    &&& 1 <= d.month <= 12
    &&& 1 <= d.day <= days_in_month_spec(d.year as int, d.month as int)
}

pub open spec fn time_valid(t: TimeOfDay) -> bool {
    t.hour < 24 && t.minute < 60
}

pub open spec fn year_len_spec(y: int) -> int {
    if is_leap_year_spec(y) {
        366
    } else {
        365
    }
}

/// Days from the start of year 0 to the start of year `y`.
pub open spec fn days_before_year_spec(y: int) -> int
    decreases y,
{
    if y <= 0 {
        0
    } else {
        days_before_year_spec(y - 1) + year_len_spec(y - 1)
    }
}

/// Days from the start of the year to the start of month `m` of year `y`.
pub open spec fn days_before_month_spec(y: int, m: int) -> int
    decreases m,
{
    if m <= 1 {
        0
    } else {
        days_before_month_spec(y, m - 1) + days_in_month_spec(y, m - 1)
    }
}

/// Days from 0000-01-01 to the given date; consecutive dates differ by one.
pub open spec fn day_index_spec(d: Date) -> int {
    days_before_year_spec(d.year as int) + days_before_month_spec(d.year as int, d.month as int)
        + d.day - 1
}

/// Weekday of a date, with 0 = Sunday through 6 = Saturday.
pub open spec fn weekday_spec(d: Date) -> int {
    (day_index_spec(d) + 6) % 7
}

/// Strict calendar order on dates.
pub open spec fn date_lt(a: Date, b: Date) -> bool {
    ||| a.year < b.year
    ||| (a.year == b.year && a.month < b.month)
    ||| (a.year == b.year && a.month == b.month && a.day < b.day)
}

pub fn is_leap_year(y: u16) -> (r: bool)
    ensures
        r == is_leap_year_spec(y as int),
{
    (y % 4 == 0 && y % 100 != 0) || y % 400 == 0
}

pub fn days_in_month(y: u16, m: u8) -> (r: u8)
    ensures
        r == days_in_month_spec(y as int, m as int),
{
    if m == 2 {
        if is_leap_year(y) {
            29
        } else {
            28
        }
    } else if m == 4 || m == 6 || m == 9 || m == 11 {
        30
    } else {
        31
    }
}

/// Whether the year/month/day triple forms a real calendar date.
pub fn ymd_valid(year: u16, month: u8, day: u8) -> (r: bool)
    ensures
        r == date_valid(Date { year, month, day }),
{
    year <= 9999 && 1 <= month && month <= 12 && 1 <= day && day <= days_in_month(year, month)
}

proof fn lemma_days_before_year_bound(y: int)
    requires
        0 <= y,
    ensures
        0 <= days_before_year_spec(y) <= 366 * y,
    decreases y,
{
    if y > 0 {
        lemma_days_before_year_bound(y - 1);
    }
}

proof fn lemma_days_before_month_bound(y: int, m: int)
    requires
        1 <= m <= 13,
    ensures
        0 <= days_before_month_spec(y, m) <= 31 * (m - 1),
    decreases m,
{
    if m > 1 {
        lemma_days_before_month_bound(y, m - 1);
    }
}

/// The months of a year add up to its length.
proof fn lemma_year_days(y: int)
    ensures
        days_before_month_spec(y, 13) == year_len_spec(y),
{
    reveal_with_fuel(days_before_month_spec, 13);
}

proof fn lemma_days_before_year_mono(y1: int, y2: int)
    requires
        0 <= y1 <= y2,
    ensures
        days_before_year_spec(y1) <= days_before_year_spec(y2),
    decreases y2 - y1,
{
    if y1 < y2 {
        lemma_days_before_year_mono(y1 + 1, y2);
    }
}

proof fn lemma_days_before_month_mono(y: int, m1: int, m2: int)
    requires
        m1 <= m2,
    ensures
        days_before_month_spec(y, m1) <= days_before_month_spec(y, m2),
    decreases m2 - m1,
{
    if m1 < m2 {
        lemma_days_before_month_mono(y, m1 + 1, m2);
    }
}

/// Calendar order agrees with the day index: an earlier valid date has a
/// strictly smaller index.
pub proof fn lemma_date_lt_index(a: Date, b: Date)
    requires
        date_valid(a),
        date_valid(b),
        date_lt(a, b),
    ensures
        day_index_spec(a) < day_index_spec(b),
{
    lemma_days_before_month_bound(a.year as int, a.month as int);
    lemma_days_before_month_bound(b.year as int, b.month as int);
    if a.year < b.year {
        lemma_days_before_month_mono(a.year as int, a.month + 1, 13);
        lemma_year_days(a.year as int);
        lemma_days_before_year_mono(a.year + 1, b.year as int);
        lemma_days_before_year_bound(b.year as int);
    } else if a.month < b.month {
        lemma_days_before_month_mono(a.year as int, a.month + 1, b.month as int);
    }
}

/// Weekday of a valid date, with 0 = Sunday through 6 = Saturday.
pub fn weekday(d: Date) -> (w: u8)
    requires
        date_valid(d),
    ensures
        w == weekday_spec(d),
        w <= 6,
{
    let mut acc: u32 = 0;
    let mut y: u16 = 0;
    while y < d.year
        invariant
            y <= d.year <= 9999,
            acc == days_before_year_spec(y as int),
            acc <= 366 * (y as u32),
        decreases d.year - y,
    {
        if is_leap_year(y) {
            acc = acc + 366;
        } else {
            acc = acc + 365;
        }
        y = y + 1;
    }
    let mut m: u8 = 1;
    while m < d.month
        invariant
            1 <= m <= d.month <= 12,
            date_valid(d),
            acc == days_before_year_spec(d.year as int) + days_before_month_spec(
                d.year as int,
                m as int,
            ),
            acc <= 366 * (d.year as u32) + 31 * (m as u32),
        decreases d.month - m,
    {
        acc = acc + days_in_month(d.year, m) as u32;
        m = m + 1;
    }
    acc = acc + (d.day - 1) as u32;
    proof {
        lemma_days_before_year_bound(d.year as int);
        lemma_days_before_month_bound(d.year as int, d.month as int);
    }
    ((acc + 6) % 7) as u8
}

/// The calendar successor of a valid date, when one is representable.
pub open spec fn next_day_spec(d: Date) -> Option<Date> {
    if d.day < days_in_month_spec(d.year as int, d.month as int) {
        Some(Date { year: d.year, month: d.month, day: (d.day + 1) as u8 })
    } else if d.month < 12 {
        Some(Date { year: d.year, month: (d.month + 1) as u8, day: 1 })
    } else if d.year < 9999 {
        Some(Date { year: (d.year + 1) as u16, month: 1, day: 1 })
    } else {
        None
    }
}

/// Stepping to the next day moves the day index up by exactly one.
pub proof fn lemma_next_day_index(d: Date)
    requires
        date_valid(d),
        next_day_spec(d) is Some,
    ensures
        date_valid(next_day_spec(d)->0),
        day_index_spec(next_day_spec(d)->0) == day_index_spec(d) + 1,
{
    let e = next_day_spec(d)->0;
    if d.day < days_in_month_spec(d.year as int, d.month as int) {
    } else if d.month < 12 {
        assert(days_before_month_spec(d.year as int, d.month + 1 as int)
            == days_before_month_spec(d.year as int, d.month as int) + days_in_month_spec(
            d.year as int,
            d.month as int,
        ));
    } else {
        lemma_year_days(d.year as int);
        lemma_days_before_month_bound(d.year as int, 13);
    }
}

pub fn next_day(d: Date) -> (r: Option<Date>)
    requires
        date_valid(d),
    ensures
        r == next_day_spec(d),
        r matches Some(e) ==> date_valid(e) && day_index_spec(e) == day_index_spec(d) + 1,
{
    proof {
        if next_day_spec(d) is Some {
            lemma_next_day_index(d);
        }
    }
    if d.day < days_in_month(d.year, d.month) {
        Some(Date { year: d.year, month: d.month, day: d.day + 1 })
    } else if d.month < 12 {
        Some(Date { year: d.year, month: d.month + 1, day: 1 })
    } else if d.year < 9999 {
        Some(Date { year: d.year + 1, month: 1, day: 1 })
    } else {
        None
    }
}

/// The date `n` days after `d`, when every step stays representable.
pub open spec fn add_days_spec(d: Date, n: nat) -> Option<Date>
    decreases n,
{
    if n == 0 {
        Some(d)
    } else {
        match add_days_spec(d, (n - 1) as nat) {
            Some(e) => next_day_spec(e),
            None => None,
        }
    }
}

/// Adding days moves the day index up by exactly the count added.
pub proof fn lemma_add_days_index(d: Date, n: nat)
    requires
        date_valid(d),
        add_days_spec(d, n) is Some,
    ensures
        date_valid(add_days_spec(d, n)->0),
        day_index_spec(add_days_spec(d, n)->0) == day_index_spec(d) + n,
    decreases n,
{
    if n > 0 {
        lemma_add_days_index(d, (n - 1) as nat);
        lemma_next_day_index(add_days_spec(d, (n - 1) as nat)->0);
    }
}

pub fn add_days(d: Date, n: u32) -> (r: Option<Date>)
    requires
        date_valid(d),
    ensures
        r == add_days_spec(d, n as nat),
        r matches Some(e) ==> date_valid(e) && day_index_spec(e) == day_index_spec(d) + n,
{
    let mut cur: Date = d;
    let mut i: u32 = 0;
    while i < n
        invariant
            i <= n,
            date_valid(d),
            add_days_spec(d, i as nat) == Some(cur),
            date_valid(cur),
        decreases n - i,
    {
        match next_day(cur) {
            Some(e) => {
                cur = e;
            },
            None => {
                proof {
                    assert(add_days_spec(d, (i + 1) as nat) is None);
                    lemma_add_days_none(d, (i + 1) as nat, n as nat);
                }
                return None;
            },
        }
        i = i + 1;
    }
    proof {
        lemma_add_days_index(d, n as nat);
    }
    Some(cur)
}

/// Once a step runs off the representable range, later counts stay `None`.
proof fn lemma_add_days_none(d: Date, k: nat, n: nat)
    requires
        k <= n,
        add_days_spec(d, k) is None,
    ensures
        add_days_spec(d, n) is None,
    decreases n - k,
{
    if k < n {
        lemma_add_days_none(d, (k + 1) as nat, n);
    }
}

pub open spec fn is_digit_char(c: char) -> bool {
    48 <= c as u32 <= 57
}

pub open spec fn digit_val(c: char) -> int {
    c as u32 - 48
}

/// What a ten-character `YYYY-MM-DD` text denotes: a real calendar date, or
/// nothing when the shape or the fields are off.
pub open spec fn parse_date_text(s: Seq<char>) -> Option<Date> {
    if s.len() == 10 && is_digit_char(s[0]) && is_digit_char(s[1]) && is_digit_char(s[2])
        && is_digit_char(s[3]) && s[4] == '-' && is_digit_char(s[5]) && is_digit_char(s[6]) && s[7]
        == '-' && is_digit_char(s[8]) && is_digit_char(s[9]) {
        let d = Date {
            year: (digit_val(s[0]) * 1000 + digit_val(s[1]) * 100 + digit_val(s[2]) * 10
                + digit_val(s[3])) as u16,
            month: (digit_val(s[5]) * 10 + digit_val(s[6])) as u8,
            day: (digit_val(s[8]) * 10 + digit_val(s[9])) as u8,
        };
        if date_valid(d) {
            Some(d)
        } else {
            None
        }
    } else {
        None
    }
}

/// What a five-character `HH:MM` text denotes.
pub open spec fn parse_time_text(s: Seq<char>) -> Option<TimeOfDay> {
    if s.len() == 5 && is_digit_char(s[0]) && is_digit_char(s[1]) && s[2] == ':' && is_digit_char(
        s[3],
    ) && is_digit_char(s[4]) {
        let t = TimeOfDay {
            hour: (digit_val(s[0]) * 10 + digit_val(s[1])) as u8,
            minute: (digit_val(s[3]) * 10 + digit_val(s[4])) as u8,
        };
        if time_valid(t) {
            Some(t)
        } else {
            None
        }
    } else {
        None
    }
}

/// Reads one character that should be a digit; 10 stands for anything else.
fn read_digit(s: &str, i: usize) -> (r: u8)
    requires
        i < s@.len(),
    ensures
        is_digit_char(s@[i as int]) ==> r == digit_val(s@[i as int]),
        !is_digit_char(s@[i as int]) ==> r == 10,
{
    let c: char = s.get_char(i);
    let v: u32 = c as u32;
    if 48 <= v && v <= 57 {
        (v - 48) as u8
    } else {
        10
    }
}

/// Reads a due date written `YYYY-MM-DD`.
pub fn parse_date_ymd(s: &str) -> (r: Option<Date>)
    ensures
        r == parse_date_text(s@),
        r matches Some(d) ==> date_valid(d),
{
    if s.unicode_len() != 10 {
        return None;
    }
    let d0: u8 = read_digit(s, 0);
    let d1: u8 = read_digit(s, 1);
    let d2: u8 = read_digit(s, 2);
    let d3: u8 = read_digit(s, 3);
    let d5: u8 = read_digit(s, 5);
    let d6: u8 = read_digit(s, 6);
    let d8: u8 = read_digit(s, 8);
    let d9: u8 = read_digit(s, 9);
    if d0 == 10 || d1 == 10 || d2 == 10 || d3 == 10 || d5 == 10 || d6 == 10 || d8 == 10 || d9
        == 10 {
        return None;
    }
    if s.get_char(4) != '-' || s.get_char(7) != '-' {
        return None;
    }
    let year: u16 = d0 as u16 * 1000 + d1 as u16 * 100 + d2 as u16 * 10 + d3 as u16;
    let month: u8 = d5 * 10 + d6;
    let day: u8 = d8 * 10 + d9;
    if ymd_valid(year, month, day) {
        Some(Date { year, month, day })
    } else {
        None
    }
}

/// Reads a due time written `HH:MM`.
pub fn parse_time_hm(s: &str) -> (r: Option<TimeOfDay>)
    ensures
        r == parse_time_text(s@),
        r matches Some(t) ==> time_valid(t),
{
    if s.unicode_len() != 5 {
        return None;
    }
    let d0: u8 = read_digit(s, 0);
    let d1: u8 = read_digit(s, 1);
    let d3: u8 = read_digit(s, 3);
    let d4: u8 = read_digit(s, 4);
    if d0 == 10 || d1 == 10 || d3 == 10 || d4 == 10 {
        return None;
    }
    if s.get_char(2) != ':' {
        return None;
    }
    let hour: u8 = d0 * 10 + d1;
    let minute: u8 = d3 * 10 + d4;
    if hour < 24 && minute < 60 {
        Some(TimeOfDay { hour, minute })
    } else {
        None
    }
}

pub open spec fn digit_char(v: int) -> char {
    if v == 0 {
        '0'
    } else if v == 1 {
        '1'
    } else if v == 2 {
        '2'
    } else if v == 3 {
        '3'
    } else if v == 4 {
        '4'
    } else if v == 5 {
        '5'
    } else if v == 6 {
        '6'
    } else if v == 7 {
        '7'
    } else if v == 8 {
        '8'
    } else {
        '9'
    }
}

pub open spec fn two_digit_text(v: int) -> Seq<char> {
    seq![digit_char(v / 10), digit_char(v % 10)]
}

pub open spec fn four_digit_text(v: int) -> Seq<char> {
    seq![
        digit_char(v / 1000),
        digit_char((v / 100) % 10),
        digit_char((v / 10) % 10),
        digit_char(v % 10),
    ]
}

/// The `YYYY-MM-DD` text of a date.
pub open spec fn date_text(d: Date) -> Seq<char> {
    four_digit_text(d.year as int) + seq!['-'] + two_digit_text(d.month as int) + seq!['-']
        + two_digit_text(d.day as int)
}

pub(crate) fn append_digit(s: &mut String, v: u8)
    requires
        v < 10,
    ensures
        final(s)@ == old(s)@ + seq![digit_char(v as int)],
{
    if v == 0 {
        proof {
            reveal_strlit("0");
        }
        s.append("0");
    } else if v == 1 {
        proof {
            reveal_strlit("1");
        }
        s.append("1");
    } else if v == 2 {
        proof {
            reveal_strlit("2");
        }
        s.append("2");
    } else if v == 3 {
        proof {
            reveal_strlit("3");
        }
        s.append("3");
    } else if v == 4 {
        proof {
            reveal_strlit("4");
        }
        s.append("4");
    } else if v == 5 {
        proof {
            reveal_strlit("5");
        }
        s.append("5");
    } else if v == 6 {
        proof {
            reveal_strlit("6");
        }
        s.append("6");
    } else if v == 7 {
        proof {
            reveal_strlit("7");
        }
        s.append("7");
    } else if v == 8 {
        proof {
            reveal_strlit("8");
        }
        s.append("8");
    } else {
        proof {
            reveal_strlit("9");
        }
        s.append("9");
    }
}

/// Writes a date as `YYYY-MM-DD`.
pub fn format_date(d: Date) -> (s: String)
    requires
        date_valid(d),
    ensures
        s@ == date_text(d),
{
    let mut s: String = String::new();
    append_digit(&mut s, (d.year / 1000) as u8);
    append_digit(&mut s, ((d.year / 100) % 10) as u8);
    append_digit(&mut s, ((d.year / 10) % 10) as u8);
    append_digit(&mut s, (d.year % 10) as u8);
    proof {
        reveal_strlit("-");
    }
    s.append("-");
    append_digit(&mut s, d.month / 10);
    append_digit(&mut s, d.month % 10);
    s.append("-");
    append_digit(&mut s, d.day / 10);
    append_digit(&mut s, d.day % 10);
    proof {
        assert(s@ =~= date_text(d));
    }
    s
}

} // verus!
