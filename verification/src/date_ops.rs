use vstd::prelude::*;

use crate::payload::{dec_digits, digit_char, u64_to_string};

verus! {

/// A calendar date. The supported range starts at the epoch year; the
/// host program converts anything earlier before calling in.
pub struct Date {
    pub year: i64,
    pub month: u8,
    pub day: u8,
}

/// A time of day.
pub struct Time {
    pub hour: u8,
    pub minute: u8,
    pub second: u8,
}

/// A calendar date with a time of day, read as universal time.
pub struct DateTime {
    pub date: Date,
    pub time: Time,
}

pub open spec fn is_leap_year(y: int) -> bool {
    (y % 4 == 0 && y % 100 != 0) || y % 400 == 0
}

pub open spec fn days_in_year(y: int) -> int {
    if is_leap_year(y) {
        366
    } else {
        365
    }
}

pub open spec fn days_in_month(y: int, m: int) -> int {
    if m == 2 {
        if is_leap_year(y) {
            29
        } else {
            28
        }
    } else if m == 4 || m == 6 || m == 9 || m == 11 {
        30
    } else {
        31
    }
}

/// Days from the epoch to the start of year `y`.
pub open spec fn days_before_year(y: int) -> int
    decreases y - 1970,
{
    if y <= 1970 {
        0
    } else {
        days_before_year(y - 1) + days_in_year(y - 1)
    }
}

/// Days from the start of the year to the start of month `m`.
pub open spec fn days_before_month(y: int, m: int) -> int
    decreases m,
{
    if m <= 1 {
        0
    } else {
        days_before_month(y, m - 1) + days_in_month(y, m - 1)
    }
}

impl Date {
    pub open spec fn wf(self) -> bool {
        &&& 1970 <= self.year
        &&& 1 <= self.month <= 12
        &&& 1 <= self.day <= days_in_month(self.year as int, self.month as int)
    }

    /// Days from the epoch to this date.
    pub open spec fn day_number(self) -> int {
        days_before_year(self.year as int) + days_before_month(self.year as int, self.month as int)
            + (self.day - 1)
    }
}

impl Time {
    pub open spec fn wf(self) -> bool {
        self.hour < 24 && self.minute < 60 && self.second < 60
    }

    pub open spec fn second_of_day(self) -> int {
        self.hour * 3600 + self.minute * 60 + self.second
    }
}

impl DateTime {
    pub open spec fn wf(self) -> bool {
        self.date.wf() && self.time.wf()
    }

    /// Seconds from the epoch to this moment.
    pub open spec fn timestamp_of(self) -> int {
        self.date.day_number() * 86400 + self.time.second_of_day()
    }
}

/// The year that day `d`, counted from the epoch, falls in, starting
/// the count at year `y`.
pub open spec fn year_of_days(y: int, d: int) -> int
    decreases d,
{
    if d < days_in_year(y) || d <= 0 {
        y
    } else {
        year_of_days(y + 1, d - days_in_year(y))
    }
}

/// Whether the year is a leap year.
pub fn leap_year(y: i64) -> (r: bool)
    requires
        y >= 0,
    ensures
        r == is_leap_year(y as int),
{
    (y % 4 == 0 && y % 100 != 0) || y % 400 == 0
}

/// Days in the year.
pub fn year_len(y: i64) -> (r: u64)
    requires
        y >= 0,
    ensures
        r == days_in_year(y as int),
{
    if leap_year(y) {
        366
    } else {
        365
    }
}

/// Days in the month.
pub fn month_len(y: i64, m: u8) -> (r: u64)
    requires
        y >= 0,
    ensures
        r == days_in_month(y as int, m as int),
{
    if m == 2 {
        if leap_year(y) {
            29
        } else {
            28
        }
    } else if m == 4 || m == 6 || m == 9 || m == 11 {
        30
    } else {
        31
    }
}

proof fn lemma_days_before_month_nonneg(y: int, m: int)
    requires
        m >= 0,
    ensures
        days_before_month(y, m) >= 0,
    decreases m,
{
    if m > 1 {
        lemma_days_before_month_nonneg(y, m - 1);
    }
}

proof fn lemma_days_before_year_mono(a: int, b: int)
    requires
        1970 <= a <= b,
    ensures
        days_before_year(a) <= days_before_year(b),
        days_before_year(b) - days_before_year(a) >= b - a,
    decreases b - a,
{
    if a < b {
        lemma_days_before_year_mono(a, b - 1);
    }
}

/// The date that falls `days` days after the epoch.
pub fn date_of_days(days: u64) -> (r: Date)
    requires
        days + 1970 <= i64::MAX,
    ensures
        r.wf(),
        r.day_number() == days,
        r.year == year_of_days(1970, days as int),
{
    let mut y: i64 = 1970;
    let mut d: u64 = days;
    proof {
        assert(days_before_year(1970) == 0);
    }
    while d >= year_len(y)
        invariant
            1970 <= y,
            days + 1970 <= i64::MAX,
            days_before_year(y as int) + d == days,
            year_of_days(1970, days as int) == year_of_days(y as int, d as int),
            y - 1970 <= days - d,
        decreases d,
    {
        let len = year_len(y);
        proof {
            assert(year_of_days(y as int, d as int) == year_of_days(
                y as int + 1,
                d as int - days_in_year(y as int),
            ));
        }
        d = d - len;
        y = y + 1;
    }
    proof {
        assert(year_of_days(y as int, d as int) == y as int);
    }
    let mut m: u8 = 1;
    proof {
        assert(days_before_month(y as int, 1) == 0);
        assert(days_before_month(y as int, 13) == days_in_year(y as int)) by {
            reveal_with_fuel(days_before_month, 14);
        }
    }
    while m < 12 && d >= month_len(y, m)
        invariant
            1970 <= y,
            1 <= m <= 12,
            days_before_year(y as int) + days_before_month(y as int, m as int) + d == days,
            d < days_in_year(y as int) - days_before_month(y as int, m as int),
            days_before_month(y as int, 13) == days_in_year(y as int),
        decreases 12 - m,
    {
        let len = month_len(y, m);
        d = d - len;
        m = m + 1;
    }
    proof {
        if m == 12 {
            assert(days_before_month(y as int, 13) == days_before_month(y as int, 12)
                + days_in_month(y as int, 12));
        }
        assert(d < days_in_month(y as int, m as int));
    }
    let day = (d + 1) as u8;
    Date { year: y, month: m, day }
}

/// Days from the epoch to the given date.
pub fn day_number_of(date: &Date) -> (r: u64)
    requires
        date.wf(),
        date.day_number() <= u64::MAX,
    ensures
        r == date.day_number(),
{
    proof {
        lemma_days_before_month_nonneg(date.year as int, date.month as int);
        lemma_days_before_month_nonneg(date.year as int, 13);
    }
    let mut acc: u64 = 0;
    let mut y: i64 = 1970;
    while y < date.year
        invariant
            1970 <= y <= date.year,
            acc == days_before_year(y as int),
            date.wf(),
            date.day_number() <= u64::MAX,
        decreases date.year - y,
    {
        proof {
            lemma_days_before_year_mono(y as int + 1, date.year as int);
            lemma_days_before_month_nonneg(date.year as int, date.month as int);
            assert(days_before_year(y as int + 1) <= days_before_year(date.year as int));
            assert(days_before_year(date.year as int) <= date.day_number());
        }
        acc = acc + year_len(y);
        y = y + 1;
    }
    let mut m: u8 = 1;
    while m < date.month
        invariant
            1 <= m <= date.month,
            date.wf(),
            date.day_number() <= u64::MAX,
            y == date.year,
            acc == days_before_year(date.year as int) + days_before_month(
                date.year as int,
                m as int,
            ),
        decreases date.month - m,
    {
        proof {
            lemma_month_prefix_le(date.year as int, m as int + 1, date.month as int);
        }
        acc = acc + month_len(y, m);
        m = m + 1;
    }
    acc + (date.day - 1) as u64
}

proof fn lemma_month_prefix_le(y: int, a: int, b: int)
    requires
        1 <= a <= b,
    ensures
        days_before_month(y, a) <= days_before_month(y, b),
    decreases b - a,
{
    if a < b {
        lemma_month_prefix_le(y, a, b - 1);
    }
}

/// The moment `timestamp` seconds after the epoch, in universal time.
pub fn from(timestamp: i64) -> (r: DateTime)
    requires
        timestamp >= 0,
    ensures
        r.wf(),
        r.timestamp_of() == timestamp,
        r.date.year == year_of_days(1970, timestamp as int / 86400),
{
    let total = timestamp as u64;
    let days = total / 86400;
    let rem = total % 86400;
    let date = date_of_days(days);
    let hour = (rem / 3600) as u8;
    let minute = ((rem % 3600) / 60) as u8;
    let second = (rem % 60) as u8;
    proof {
        assert(hour * 3600 + minute * 60 + second == rem as int);
        assert(days * 86400 + rem == total as int);
    }
    DateTime { date, time: Time { hour, minute, second } }
}

/// The timestamp of the given moment, as decimal text.
pub fn to_timestamp_from(dt: &DateTime) -> (r: String)
    requires
        dt.wf(),
        dt.timestamp_of() <= i64::MAX,
    ensures
        r@ == dec_digits(dt.timestamp_of() as nat),
{
    proof {
        lemma_days_before_month_nonneg(dt.date.year as int, dt.date.month as int);
        lemma_days_before_year_mono(1970, dt.date.year as int);
        assert(dt.date.day_number() >= 0);
        assert(dt.date.day_number() * 86400 <= dt.timestamp_of());
        assert(dt.date.day_number() <= u64::MAX) by (nonlinear_arith)
            requires
                dt.date.day_number() >= 0,
                dt.date.day_number() * 86400 <= i64::MAX,
        ;
    }
    let days = day_number_of(&dt.date);
    proof {
        assert(days * 86400 + 86400 <= i64::MAX + 86400) by (nonlinear_arith)
            requires
                days * 86400 <= i64::MAX,
        ;
    }
    let secs = days * 86400 + dt.time.hour as u64 * 3600 + dt.time.minute as u64 * 60
        + dt.time.second as u64;
    u64_to_string(secs)
}

/// The year of the given timestamp, as decimal text.
pub fn to_year_only(timestamp: i64) -> (r: String)
    requires
        timestamp >= 0,
    ensures
        r@ == dec_digits(year_of_days(1970, timestamp as int / 86400) as nat),
{
    let dt = from(timestamp);
    u64_to_string(dt.date.year as u64)
}

/// The date `days` days after the given one; a negative count moves
/// backwards, but never before the epoch.
pub fn add_days(date: Date, days: i64) -> (r: Date)
    requires
        date.wf(),
        date.day_number() <= i64::MAX,
        0 <= date.day_number() + days,
        date.day_number() + days + 1970 <= i64::MAX,
    ensures
        r.wf(),
        r.day_number() == date.day_number() + days,
{
    let n = day_number_of(&date);
    let target = n as i64 + days;
    date_of_days(target as u64)
}

/// How many whole days ago `timestamp` lies, seen from `now`, as the
/// texts "Today", "Yesterday" or "N days ago". A moment in the future
/// gives a negative day count, written with its sign.
pub open spec fn days_ago_text(ts: int, now: int) -> Seq<char> {
    let d = if now >= ts {
        (now - ts) / 86400
    } else {
        -((ts - now) / 86400)
    };
    if d == 0 {
        seq!['T', 'o', 'd', 'a', 'y']
    } else if d == 1 {
        seq!['Y', 'e', 's', 't', 'e', 'r', 'd', 'a', 'y']
    } else {
        crate::payload::dec_str(d) + seq![' ', 'd', 'a', 'y', 's', ' ', 'a', 'g', 'o']
    }
}

/// Formats how long ago a timestamp lies relative to `now`.
pub fn days_ago(timestamp: u64, now: u64) -> (r: String)
    ensures
        r@ == days_ago_text(timestamp as int, now as int),
{
    let d: i64 = if now >= timestamp {
        let diff = (now - timestamp) / 86400;
        proof {
            assert(diff <= u64::MAX / 86400);
        }
        diff as i64
    } else {
        let diff = (timestamp - now) / 86400;
        proof {
            assert(diff <= u64::MAX / 86400);
        }
        -(diff as i64)
    };
    if d == 0 {
        proof {
            reveal_strlit("Today");
            assert("Today"@ =~= days_ago_text(timestamp as int, now as int));
        }
        let mut s = String::new();
        s.append("Today");
        s
    } else if d == 1 {
        proof {
            reveal_strlit("Yesterday");
            assert("Yesterday"@ =~= days_ago_text(timestamp as int, now as int));
        }
        let mut s = String::new();
        s.append("Yesterday");
        s
    } else {
        let mut s = crate::payload::i64_to_string(d);
        proof {
            reveal_strlit(" days ago");
            assert(" days ago"@ =~= seq![' ', 'd', 'a', 'y', 's', ' ', 'a', 'g', 'o']);
        }
        s.append(" days ago");
        proof {
            assert(s@ =~= days_ago_text(timestamp as int, now as int));
        }
        s
    }
}

/// A number as exactly two digits, zero padded.
pub open spec fn two_digits(n: nat) -> Seq<char> {
    if n < 10 {
        seq!['0', digit_char(n)]
    } else {
        dec_digits(n)
    }
}

/// Writes a number under 100 as two digits onto `out`.
fn append_two_digits(out: &mut String, n: u8)
    requires
        n < 100,
    ensures
        final(out)@ == old(out)@ + two_digits(n as nat),
{
    if n < 10 {
        proof {
            reveal_strlit("0");
        }
        out.append("0");
        let digits = u64_to_string(n as u64);
        out.append(digits.as_str());
        proof {
            assert("0"@ =~= seq!['0']);
            assert(out@ =~= old(out)@ + two_digits(n as nat));
        }
    } else {
        let digits = u64_to_string(n as u64);
        out.append(digits.as_str());
    }
}

/// The date in input-field form: year, month and day as digits,
/// separated by dashes, month and day zero padded to two digits.
pub fn to_input_date_from(dt: &DateTime) -> (r: String)
    requires
        dt.wf(),
    ensures
        r@ == dec_digits(dt.date.year as nat) + seq!['-'] + two_digits(dt.date.month as nat)
            + seq!['-'] + two_digits(dt.date.day as nat),
{
    let mut s = u64_to_string(dt.date.year as u64);
    proof {
        reveal_strlit("-");
        assert("-"@ =~= seq!['-']);
    }
    s.append("-");
    append_two_digits(&mut s, dt.date.month);
    s.append("-");
    append_two_digits(&mut s, dt.date.day);
    proof {
        assert(s@ =~= dec_digits(dt.date.year as nat) + seq!['-'] + two_digits(dt.date.month as nat)
            + seq!['-'] + two_digits(dt.date.day as nat));
    }
    s
}

/// Three-letter abbreviation of the month.
pub open spec fn month_abbrev(m: nat) -> Seq<char> {
    if m == 1 {
        seq!['J', 'a', 'n']
    } else if m == 2 {
        seq!['F', 'e', 'b']
    } else if m == 3 {
        seq!['M', 'a', 'r']
    } else if m == 4 {
        seq!['A', 'p', 'r']
    } else if m == 5 {
        seq!['M', 'a', 'y']
    } else if m == 6 {
        seq!['J', 'u', 'n']
    } else if m == 7 {
        seq!['J', 'u', 'l']
    } else if m == 8 {
        seq!['A', 'u', 'g']
    } else if m == 9 {
        seq!['S', 'e', 'p']
    } else if m == 10 {
        seq!['O', 'c', 't']
    } else if m == 11 {
        seq!['N', 'o', 'v']
    } else {
        seq!['D', 'e', 'c']
    }
}

fn append_month_abbrev(out: &mut String, m: u8)
    requires
        1 <= m <= 12,
    ensures
        final(out)@ == old(out)@ + month_abbrev(m as nat),
{
    proof {
        reveal_strlit("Jan");
        reveal_strlit("Feb");
        reveal_strlit("Mar");
        reveal_strlit("Apr");
        reveal_strlit("May");
        reveal_strlit("Jun");
        reveal_strlit("Jul");
        reveal_strlit("Aug");
        reveal_strlit("Sep");
        reveal_strlit("Oct");
        reveal_strlit("Nov");
        reveal_strlit("Dec");
    }
    if m == 1 {
        out.append("Jan");
        proof { assert(out@ =~= old(out)@ + month_abbrev(m as nat)); }
    } else if m == 2 {
        out.append("Feb");
        proof { assert(out@ =~= old(out)@ + month_abbrev(m as nat)); }
    } else if m == 3 {
        out.append("Mar");
        proof { assert(out@ =~= old(out)@ + month_abbrev(m as nat)); }
    } else if m == 4 {
        out.append("Apr");
        proof { assert(out@ =~= old(out)@ + month_abbrev(m as nat)); }
    } else if m == 5 {
        out.append("May");
        proof { assert(out@ =~= old(out)@ + month_abbrev(m as nat)); }
    } else if m == 6 {
        out.append("Jun");
        proof { assert(out@ =~= old(out)@ + month_abbrev(m as nat)); }
    } else if m == 7 {
        out.append("Jul");
        proof { assert(out@ =~= old(out)@ + month_abbrev(m as nat)); }
    } else if m == 8 {
        out.append("Aug");
        proof { assert(out@ =~= old(out)@ + month_abbrev(m as nat)); }
    } else if m == 9 {
        out.append("Sep");
        proof { assert(out@ =~= old(out)@ + month_abbrev(m as nat)); }
    } else if m == 10 {
        out.append("Oct");
        proof { assert(out@ =~= old(out)@ + month_abbrev(m as nat)); }
    } else if m == 11 {
        out.append("Nov");
        proof { assert(out@ =~= old(out)@ + month_abbrev(m as nat)); }
    } else {
        out.append("Dec");
        proof { assert(out@ =~= old(out)@ + month_abbrev(m as nat)); }
    }
}

/// The date in display form: space-padded day, abbreviated month and
/// year, separated by dashes.
pub open spec fn display_date_text(d: Date) -> Seq<char> {
    let day_part = if d.day < 10 {
        seq![' ', digit_char(d.day as nat)]
    } else {
        dec_digits(d.day as nat)
    };
    day_part + seq!['-'] + month_abbrev(d.month as nat) + seq!['-'] + dec_digits(d.year as nat)
}

/// Formats a moment's date for display.
pub fn to_display_date(dt: &DateTime) -> (r: String)
    requires
        dt.wf(),
    ensures
        r@ == display_date_text(dt.date),
{
    let mut s = String::new();
    if dt.date.day < 10 {
        proof {
            reveal_strlit(" ");
            assert(" "@ =~= seq![' ']);
        }
        s.append(" ");
        let digits = u64_to_string(dt.date.day as u64);
        s.append(digits.as_str());
    } else {
        let digits = u64_to_string(dt.date.day as u64);
        s.append(digits.as_str());
    }
    proof {
        reveal_strlit("-");
        assert("-"@ =~= seq!['-']);
    }
    s.append("-");
    append_month_abbrev(&mut s, dt.date.month);
    s.append("-");
    let year_digits = u64_to_string(dt.date.year as u64);
    s.append(year_digits.as_str());
    proof {
        assert(s@ =~= display_date_text(dt.date));
    }
    s
}

/// A time of day in twelve-hour form: unpadded hour, two-digit minute,
/// and the half-day marker.
pub open spec fn twelve_hour_text(t: Time) -> Seq<char> {
    let hour12 = if t.hour % 12 == 0 {
        12nat
    } else {
        (t.hour % 12) as nat
    };
    let marker = if t.hour < 12 {
        seq![' ', 'A', 'M']
    } else {
        seq![' ', 'P', 'M']
    };
    dec_digits(hour12) + seq![':'] + two_digits(t.minute as nat) + marker
}

/// Formats a time of day in twelve-hour form.
pub fn format_time_from(t: &Time) -> (r: String)
    requires
        t.wf(),
    ensures
        r@ == twelve_hour_text(*t),
{
    let hour12: u8 = if t.hour % 12 == 0 {
        12
    } else {
        t.hour % 12
    };
    let mut s = u64_to_string(hour12 as u64);
    proof {
        reveal_strlit(":");
        assert(":"@ =~= seq![':']);
    }
    s.append(":");
    append_two_digits(&mut s, t.minute);
    if t.hour < 12 {
        proof {
            reveal_strlit(" AM");
            assert(" AM"@ =~= seq![' ', 'A', 'M']);
        }
        s.append(" AM");
    } else {
        proof {
            reveal_strlit(" PM");
            assert(" PM"@ =~= seq![' ', 'P', 'M']);
        }
        s.append(" PM");
    }
    proof {
        assert(s@ =~= twelve_hour_text(*t));
    }
    s
}

/// What parsing a twenty-four-hour "HH:MM" text yields.
pub open spec fn parsed_hm(s: Seq<char>) -> Option<Time> {
    if s.len() == 5 && crate::environ_ops::is_digit(s[0]) && crate::environ_ops::is_digit(s[1])
        && s[2] == ':' && crate::environ_ops::is_digit(s[3]) && crate::environ_ops::is_digit(s[4]) {
        let h = crate::environ_ops::digit_of(s[0]) * 10 + crate::environ_ops::digit_of(s[1]);
        let mi = crate::environ_ops::digit_of(s[3]) * 10 + crate::environ_ops::digit_of(s[4]);
        if h < 24 && mi < 60 {
            Some(Time { hour: h as u8, minute: mi as u8, second: 0 })
        } else {
            None
        }
    } else {
        None
    }
}

/// Parses a twenty-four-hour "HH:MM" text and formats it in twelve-hour
/// form; None when the text is not such a time.
pub fn format_time(time_str: &str) -> (r: Option<String>)
    ensures
        match r {
            Some(text) => parsed_hm(time_str@) matches Some(t) && text@ == twelve_hour_text(t),
            None => parsed_hm(time_str@) is None,
        },
{
    let len = time_str.unicode_len();
    if len != 5 {
        return None;
    }
    let c0 = time_str.get_char(0);
    let c1 = time_str.get_char(1);
    let c2 = time_str.get_char(2);
    let c3 = time_str.get_char(3);
    let c4 = time_str.get_char(4);
    if c2 != ':' {
        return None;
    }
    let d0 = c0 as u32;
    let d1 = c1 as u32;
    let d3 = c3 as u32;
    let d4 = c4 as u32;
    if d0 < 48 || d0 > 57 || d1 < 48 || d1 > 57 || d3 < 48 || d3 > 57 || d4 < 48 || d4 > 57 {
        return None;
    }
    let h = ((d0 - 48) * 10 + (d1 - 48)) as u8;
    let mi = ((d3 - 48) * 10 + (d4 - 48)) as u8;
    if h >= 24 || mi >= 60 {
        return None;
    }
    let t = Time { hour: h, minute: mi, second: 0 };
    Some(format_time_from(&t))
}

} // verus!
