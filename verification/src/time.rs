//! Points in time, and the stamp under which a snapshot is filed.

use vstd::prelude::*;
use crate::text::{decimal, decimal_value, digit, law_decimal_reads_back};

verus! {

/// A point in time: whole seconds since 1970-01-01 00:00:00 UTC, and nanoseconds
/// since that second. Nanoseconds from one thousand million up stand for a leap
/// second.
#[derive(Clone, Copy, Debug, PartialEq, Eq, Structural)]
pub struct Timestamp {
    pub secs: i64,
    pub nanos: u32,
}

/// The first second of the first year that the calendar covers, -262143.
pub const FIRST_SECOND: i64 = -8_334_601_228_800;

/// The last second of the last year that the calendar covers, 262142.
pub const LAST_SECOND: i64 = 8_210_266_876_799;

impl Timestamp {
    /// The calendar covers the time, and a leap second ends a minute.
    pub open spec fn valid(self) -> bool {
        &&& FIRST_SECOND <= self.secs <= LAST_SECOND
        &&& self.nanos < 2_000_000_000
        &&& self.nanos >= 1_000_000_000 ==> self.secs as int % 60 == 59
    }

    /// Whether the calendar covers the time.
    pub fn is_valid(&self) -> (r: bool)
        ensures
            r == self.valid(),
    {
        if self.secs < FIRST_SECOND || self.secs > LAST_SECOND || self.nanos >= 2_000_000_000 {
            return false;
        }
        if self.nanos < 1_000_000_000 {
            return true;
        }
        let shifted: u64 = (self.secs - FIRST_SECOND) as u64;
        shifted % 60 == 59
    }
}

/// The pattern of a stamp: date, dash, time of day, all digits.
pub open spec fn stamp_pattern() -> Seq<char> {
    "%Y%m%d-%H%M%S"@
}

/// Every fourth year is a leap year, but of the hundreds only every fourth.
pub open spec fn is_leap_year(year: int) -> bool {
    year % 4 == 0 && (year % 100 != 0 || year % 400 == 0)
}

/// The number of days of a month.
pub open spec fn month_length(year: int, month: int) -> int {
    if month == 2 {
        if is_leap_year(year) {
            29
        } else {
            28
        }
    } else if month == 4 || month == 6 || month == 9 || month == 11 {
        30
    } else {
        31
    }
}

/// A date of the calendar.
pub open spec fn is_date(year: int, month: int, day: int) -> bool {
    1 <= month <= 12 && 1 <= day <= month_length(year, month)
}

/// The days from the start of the year 0 to the start of a year: 365 for each year
/// between, and one more for each leap year among them.
pub open spec fn days_before_year(year: int) -> int {
    365 * year + (year + 3) / 4 - (year + 99) / 100 + (year + 399) / 400
}

/// The days of a year before a month.
pub open spec fn days_before_month(year: int, month: int) -> int
    decreases month,
{
    if month <= 1 {
        0
    } else {
        days_before_month(year, month - 1) + month_length(year, month - 1)
    }
}

/// The number of a day, counted from 1970-01-01.
pub open spec fn day_number(year: int, month: int, day: int) -> int {
    days_before_year(year) + days_before_month(year, month) + day - 1 - 719_528
}

/// A number in decimal, with leading zeros up to a width.
pub open spec fn padded(n: nat, width: nat) -> Seq<char>
    decreases width,
{
    if width <= 1 {
        decimal(n)
    } else {
        padded(n / 10, (width - 1) as nat).push(digit(n % 10))
    }
}

/// A number below one hundred in two digits.
pub open spec fn two_digits(n: int) -> Seq<char> {
    seq![digit((n / 10) as nat), digit((n % 10) as nat)]
}

/// A year in four digits, or with its sign where these do not do.
pub open spec fn year_text(year: int) -> Seq<char> {
    if 0 <= year <= 9999 {
        padded(year as nat, 4)
    } else if year > 0 {
        seq!['+'] + padded(year as nat, 4)
    } else {
        seq!['-'] + padded((-year) as nat, 4)
    }
}

/// The time of day as a stamp shows it: hours, minutes and seconds, where a leap
/// second is the sixtieth.
pub open spec fn clock_text(t: Timestamp) -> Seq<char> {
    let s = t.secs as int % 86_400;
    two_digits(s / 3600) + two_digits(s / 60 % 60) + two_digits(
        s % 60 + t.nanos as int / 1_000_000_000,
    )
}

/// What a stamp shows behind the year.
pub open spec fn stamp_tail(month: int, day: int, t: Timestamp) -> Seq<char> {
    two_digits(month) + two_digits(day) + seq!['-'] + clock_text(t)
}

/// The text is the stamp of a time: the date in UTC, a dash and the time of day.
pub open spec fn is_stamp(t: Timestamp, s: Seq<char>) -> bool {
    exists|year: int, month: int, day: int|
        {
            &&& is_date(year, month, day)
            &&& #[trigger] day_number(year, month, day) == t.secs as int / 86_400
            &&& s == year_text(year) + stamp_tail(month, day, t)
        }
}

/// The stamp of a time.
pub open spec fn stamp(t: Timestamp) -> Seq<char> {
    choose|s: Seq<char>| is_stamp(t, s)
}

/// `chrono`: `DateTime::<Utc>::from_timestamp`, then `DateTime::format` written out
/// with `DelayedFormat::write_to`.
///
/// There is such a time in `chrono` exactly where `Timestamp::valid` holds. Under
/// the pattern of a stamp each of them can be written, and what is written is the
/// year, with a sign outside 0 to 9999, month and day of the Gregorian calendar, a
/// dash, and hour, minute and second. Other patterns are not admitted.
#[verifier::external_body]
fn format_utc(secs: i64, nanos: u32, pattern: &str) -> (r: Option<String>)
    requires
        pattern@ == stamp_pattern(),
    ensures
        r is Some <==> (Timestamp { secs, nanos }).valid(),
        r matches Some(s) ==> is_stamp(Timestamp { secs, nanos }, s@),
{
    let time = chrono::DateTime::<chrono::Utc>::from_timestamp(secs, nanos)?;
    let mut out = String::new();
    time.format(pattern).write_to(&mut out).ok()?;
    Some(out)
}

/// Writes the stamp of a time.
pub fn stamp_of(t: Timestamp) -> (r: String)
    requires
        t.valid(),
    ensures
        r@ == stamp(t),
        is_stamp(t, r@),
{
    match format_utc(t.secs, t.nanos, "%Y%m%d-%H%M%S") {
        Some(s) => {
            proof {
                law_time_has_one_stamp(t, s@, stamp(t));
            }
            s
        },
        None => {
            assert(false);
            String::new()
        },
    }
}

proof fn lemma_year_length(year: int)
    ensures
        days_before_year(year + 1) == days_before_year(year) + if is_leap_year(year) {
            366int
        } else {
            365
        },
{
}

proof fn lemma_later_year(a: int, b: int)
    requires
        a < b,
    ensures
        days_before_year(a + 1) <= days_before_year(b),
    decreases b - a,
{
    if a + 1 < b {
        lemma_later_year(a, b - 1);
        lemma_year_length(b - 1);
    }
}

proof fn lemma_later_month(year: int, a: int, b: int)
    requires
        1 <= a < b,
    ensures
        days_before_month(year, a) + month_length(year, a) <= days_before_month(year, b),
    decreases b - a,
{
    if a + 1 < b {
        lemma_later_month(year, a, b - 1);
    }
}

proof fn lemma_day_of_year(year: int, month: int, day: int)
    requires
        is_date(year, month, day),
    ensures
        0 <= days_before_month(year, month) + day - 1 < if is_leap_year(year) {
            366int
        } else {
            365
        },
{
    if month > 1 {
        lemma_later_month(year, 1, month);
    }
    lemma_later_month(year, month, 13);
    reveal_with_fuel(days_before_month, 14);
}

/// No two dates of the calendar have the same number.
pub proof fn law_day_number_tells_the_date(y1: int, m1: int, d1: int, y2: int, m2: int, d2: int)
    requires
        is_date(y1, m1, d1),
        is_date(y2, m2, d2),
        day_number(y1, m1, d1) == day_number(y2, m2, d2),
    ensures
        y1 == y2,
        m1 == m2,
        d1 == d2,
{
    lemma_day_of_year(y1, m1, d1);
    lemma_day_of_year(y2, m2, d2);
    lemma_year_length(y1);
    lemma_year_length(y2);
    if y1 < y2 {
        lemma_later_year(y1, y2);
    }
    if y2 < y1 {
        lemma_later_year(y2, y1);
    }
    if m1 < m2 {
        lemma_later_month(y1, m1, m2);
    }
    if m2 < m1 {
        lemma_later_month(y1, m2, m1);
    }
}

/// A time has one stamp only.
pub proof fn law_time_has_one_stamp(t: Timestamp, a: Seq<char>, b: Seq<char>)
    requires
        is_stamp(t, a),
        is_stamp(t, b),
    ensures
        a == b,
{
    let (y1, m1, d1) = choose|year: int, month: int, day: int|
        {
            &&& is_date(year, month, day)
            &&& #[trigger] day_number(year, month, day) == t.secs as int / 86_400
            &&& a == year_text(year) + stamp_tail(month, day, t)
        };
    let (y2, m2, d2) = choose|year: int, month: int, day: int|
        {
            &&& is_date(year, month, day)
            &&& #[trigger] day_number(year, month, day) == t.secs as int / 86_400
            &&& b == year_text(year) + stamp_tail(month, day, t)
        };
    law_day_number_tells_the_date(y1, m1, d1, y2, m2, d2);
}

proof fn lemma_padded_reads_back(n: nat, width: nat)
    ensures
        forall|i: int|
            0 <= i < padded(n, width).len() ==> '0' <= #[trigger] padded(n, width)[i] <= '9',
        padded(n, width).len() >= 1,
        decimal_value(padded(n, width)) == n,
    decreases width,
{
    if width <= 1 {
        law_decimal_reads_back(n);
    } else {
        lemma_padded_reads_back(n / 10, (width - 1) as nat);
        assert(padded(n, width).drop_last() =~= padded(n / 10, (width - 1) as nat));
    }
}

proof fn lemma_year_text(year: int)
    ensures
        year_text(year).len() >= 1,
        forall|i: int|
            0 <= i < year_text(year).len() ==> #[trigger] year_text(year)[i] != '_',
        year_text(year)[0] == '+' <==> year > 9999,
        year_text(year)[0] == '-' <==> year < 0,
        0 <= year <= 9999 ==> decimal_value(year_text(year)) == year,
        year > 9999 ==> decimal_value(year_text(year).skip(1)) == year,
        year < 0 ==> decimal_value(year_text(year).skip(1)) == -year,
{
    if year >= 0 {
        lemma_padded_reads_back(year as nat, 4);
        assert((seq!['+'] + padded(year as nat, 4)).skip(1) =~= padded(year as nat, 4));
    } else {
        lemma_padded_reads_back((-year) as nat, 4);
        assert((seq!['-'] + padded((-year) as nat, 4)).skip(1) =~= padded((-year) as nat, 4));
    }
    if 0 <= year <= 9999 {
        assert('0' <= year_text(year)[0] <= '9');
    }
}

/// The characters of a stamp are digits, signs and a dash: never an underscore.
pub proof fn law_stamp_has_no_underscore(t: Timestamp, s: Seq<char>)
    requires
        t.valid(),
        is_stamp(t, s),
    ensures
        forall|i: int| 0 <= i < s.len() ==> #[trigger] s[i] != '_',
{
    let (year, month, day) = choose|year: int, month: int, day: int|
        {
            &&& is_date(year, month, day)
            &&& #[trigger] day_number(year, month, day) == t.secs as int / 86_400
            &&& s == year_text(year) + stamp_tail(month, day, t)
        };
    lemma_year_text(year);
    let tail = stamp_tail(month, day, t);
    assert(tail.len() == 11);
    assert forall|i: int| 0 <= i < tail.len() implies #[trigger] tail[i] != '_' by {}
    assert forall|i: int| 0 <= i < s.len() implies #[trigger] s[i] != '_' by {
        if i >= year_text(year).len() {
            assert(s[i] == tail[i - year_text(year).len()]);
        }
    }
}

proof fn lemma_two_digits_tell_the_number(m: int, n: int)
    requires
        0 <= m < 100,
        0 <= n < 100,
        digit((m / 10) as nat) == digit((n / 10) as nat),
        digit((m % 10) as nat) == digit((n % 10) as nat),
    ensures
        m == n,
{
}

proof fn lemma_same_second(a: Timestamp, b: Timestamp)
    requires
        a.valid(),
        b.valid(),
        a.secs as int % 86_400 / 3600 == b.secs as int % 86_400 / 3600,
        a.secs as int % 86_400 / 60 % 60 == b.secs as int % 86_400 / 60 % 60,
        a.secs as int % 86_400 % 60 + a.nanos as int / 1_000_000_000 == b.secs as int % 86_400 % 60
            + b.nanos as int / 1_000_000_000,
    ensures
        a.secs as int % 86_400 == b.secs as int % 86_400,
        a.nanos as int / 1_000_000_000 == b.nanos as int / 1_000_000_000,
{
    let s = a.secs as int % 86_400;
    let r = b.secs as int % 86_400;
    assert(a.secs as int % 60 == s % 60);
    assert(b.secs as int % 60 == r % 60);
    assert(s % 60 == r % 60);
    assert(s / 60 / 60 == s / 3600);
    assert(r / 60 / 60 == r / 3600);
    assert(s / 60 == r / 60);
}

proof fn lemma_clock_tells_the_second(a: Timestamp, b: Timestamp)
    requires
        a.valid(),
        b.valid(),
        clock_text(a) == clock_text(b),
    ensures
        a.secs as int % 86_400 == b.secs as int % 86_400,
        a.nanos as int / 1_000_000_000 == b.nanos as int / 1_000_000_000,
{
    let x = clock_text(a);
    let y = clock_text(b);
    let s = a.secs as int % 86_400;
    let r = b.secs as int % 86_400;
    let v = s % 60 + a.nanos as int / 1_000_000_000;
    let w = r % 60 + b.nanos as int / 1_000_000_000;
    assert(s / 3600 == r / 3600) by {
        assert(x[0] == y[0] && x[1] == y[1]);
        lemma_two_digits_tell_the_number(s / 3600, r / 3600);
    }
    assert(s / 60 % 60 == r / 60 % 60) by {
        assert(x[2] == y[2] && x[3] == y[3]);
        lemma_two_digits_tell_the_number(s / 60 % 60, r / 60 % 60);
    }
    assert(v == w) by {
        assert(x[4] == y[4] && x[5] == y[5]);
        lemma_two_digits_tell_the_number(v, w);
    }
    lemma_same_second(a, b);
}

/// Times with the same stamp lie in the same second: two stamps of different
/// seconds differ, the leap second that follows a second included.
pub proof fn law_stamp_tells_the_second(a: Timestamp, b: Timestamp, s: Seq<char>)
    requires
        a.valid(),
        b.valid(),
        is_stamp(a, s),
        is_stamp(b, s),
    ensures
        a.secs == b.secs,
        a.nanos as int / 1_000_000_000 == b.nanos as int / 1_000_000_000,
{
    let (y1, m1, d1) = choose|year: int, month: int, day: int|
        {
            &&& is_date(year, month, day)
            &&& #[trigger] day_number(year, month, day) == a.secs as int / 86_400
            &&& s == year_text(year) + stamp_tail(month, day, a)
        };
    let (y2, m2, d2) = choose|year: int, month: int, day: int|
        {
            &&& is_date(year, month, day)
            &&& #[trigger] day_number(year, month, day) == b.secs as int / 86_400
            &&& s == year_text(year) + stamp_tail(month, day, b)
        };
    let t1 = stamp_tail(m1, d1, a);
    let t2 = stamp_tail(m2, d2, b);
    assert(t1.len() == 11 && t2.len() == 11);
    let n = s.len() - 11;
    assert(s.take(n) =~= year_text(y1));
    assert(s.take(n) =~= year_text(y2));
    assert(s.skip(n) =~= t1);
    assert(s.skip(n) =~= t2);
    lemma_year_text(y1);
    lemma_year_text(y2);
    assert(y1 == y2);
    assert(t1[0] == t2[0] && t1[1] == t2[1] && t1[2] == t2[2] && t1[3] == t2[3]);
    assert(m1 == m2 && d1 == d2);
    assert(t1.skip(5) =~= clock_text(a));
    assert(t2.skip(5) =~= clock_text(b));
    lemma_clock_tells_the_second(a, b);
}

/// `chrono::Utc::now`, taken apart with `DateTime::timestamp` and
/// `DateTime::timestamp_subsec_nanos`: some time from 1970 on that the calendar
/// covers, within a whole second. Which one depends on the clock.
#[verifier::external_body]
fn utc_now() -> (r: Timestamp)
    ensures
        r.valid(),
        r.secs >= 0,
        r.nanos < 1_000_000_000,
{
    let now = chrono::Utc::now();
    Timestamp { secs: now.timestamp(), nanos: now.timestamp_subsec_nanos() }
}

/// Reads the clock.
pub fn current_time() -> (r: Timestamp)
    ensures
        r.valid(),
        r.secs >= 0,
        r.nanos < 1_000_000_000,
{
    utc_now()
}

/// The calendar goes on day by day: the first of January 1970 has the number zero, and
/// the number goes up by one to the next day of a month, from the last day of a month
/// to the first of the next, and from the last of December to the first of January.
pub proof fn law_days_follow_each_other(year: int, month: int, day: int)
    requires
        is_date(year, month, day),
    ensures
        day_number(1970, 1, 1) == 0,
        day < month_length(year, month) ==> day_number(year, month, day + 1) == day_number(
            year,
            month,
            day,
        ) + 1,
        day == month_length(year, month) && month < 12 ==> day_number(year, month + 1, 1)
            == day_number(year, month, day) + 1,
        day == month_length(year, month) && month == 12 ==> day_number(year + 1, 1, 1)
            == day_number(year, month, day) + 1,
{
    lemma_year_length(year);
    reveal_with_fuel(days_before_month, 13);
}

/// The lengths of the months: February has a day more in every fourth year, but of the
/// hundreds only in every fourth.
pub proof fn law_lengths_of_the_months(year: int)
    ensures
        month_length(year, 1) == 31,
        month_length(year, 2) == if year % 400 == 0 || (year % 4 == 0 && year % 100 != 0) {
            29int
        } else {
            28
        },
        month_length(year, 3) == 31,
        month_length(year, 4) == 30,
        month_length(year, 5) == 31,
        month_length(year, 6) == 30,
        month_length(year, 7) == 31,
        month_length(year, 8) == 31,
        month_length(year, 9) == 30,
        month_length(year, 10) == 31,
        month_length(year, 11) == 30,
        month_length(year, 12) == 31,
{
}

/// The calendar covers the years -262143 to 262142, from their first second to their
/// last. A leap second ends a minute.
pub proof fn law_calendar_covers_whole_years(t: Timestamp)
    ensures
        FIRST_SECOND == 86_400 * day_number(-262143, 1, 1),
        LAST_SECOND == 86_400 * day_number(262143, 1, 1) - 1,
        t.valid() <==> {
            &&& 86_400 * day_number(-262143, 1, 1) <= t.secs < 86_400 * day_number(262143, 1, 1)
            &&& t.nanos < 1_000_000_000 || (t.nanos < 2_000_000_000 && t.secs as int % 60 == 59)
        },
{
    reveal_with_fuel(days_before_month, 2);
}

proof fn lemma_digit_of(n: int)
    requires
        0 <= n < 10,
    ensures
        digit(n as nat) == "0123456789"@[n],
{
    reveal_strlit("0123456789");
}

/// A stamp shows year, month, day, hour, minute and second of its time in UTC, each
/// in as many digits as it can need, with a dash between date and time. In a leap
/// second, `second` is the sixtieth.
pub proof fn law_stamp_shows_date_and_time(
    t: Timestamp,
    year: int,
    month: int,
    day: int,
    hour: int,
    minute: int,
    second: int,
    s: Seq<char>,
)
    requires
        t.valid(),
        0 <= year <= 9999,
        is_date(year, month, day),
        0 <= hour < 24,
        0 <= minute < 60,
        0 <= second < 60,
        t.secs == 86_400 * day_number(year, month, day) + 3600 * hour + 60 * minute + second,
        is_stamp(t, s),
    ensures
        ({
            let shown = second + t.nanos as int / 1_000_000_000;
            s == seq![
                "0123456789"@[year / 1000],
                "0123456789"@[year / 100 % 10],
                "0123456789"@[year / 10 % 10],
                "0123456789"@[year % 10],
                "0123456789"@[month / 10],
                "0123456789"@[month % 10],
                "0123456789"@[day / 10],
                "0123456789"@[day % 10],
                '-',
                "0123456789"@[hour / 10],
                "0123456789"@[hour % 10],
                "0123456789"@[minute / 10],
                "0123456789"@[minute % 10],
                "0123456789"@[shown / 10],
                "0123456789"@[shown % 10],
            ]
        }),
{
    let shown = second + t.nanos as int / 1_000_000_000;
    let rest = 3600 * hour + 60 * minute + second;
    assert(t.secs as int / 86_400 == day_number(year, month, day) && t.secs as int % 86_400
        == rest);
    assert(rest / 3600 == hour);
    assert(rest / 60 == 60 * hour + minute);
    assert(rest / 60 % 60 == minute);
    assert(rest % 60 == second);
    let w = year_text(year) + stamp_tail(month, day, t);
    assert(is_stamp(t, w));
    law_time_has_one_stamp(t, s, w);
    lemma_four_digits(year);
    lemma_digit_of(month / 10);
    lemma_digit_of(month % 10);
    lemma_digit_of(day / 10);
    lemma_digit_of(day % 10);
    lemma_digit_of(hour / 10);
    lemma_digit_of(hour % 10);
    lemma_digit_of(minute / 10);
    lemma_digit_of(minute % 10);
    lemma_digit_of(shown / 10);
    lemma_digit_of(shown % 10);
    assert(clock_text(t) =~= seq![
        "0123456789"@[hour / 10],
        "0123456789"@[hour % 10],
        "0123456789"@[minute / 10],
        "0123456789"@[minute % 10],
        "0123456789"@[shown / 10],
        "0123456789"@[shown % 10],
    ]);
}

proof fn lemma_four_digits(year: int)
    requires
        0 <= year <= 9999,
    ensures
        year_text(year) == seq![
            "0123456789"@[year / 1000],
            "0123456789"@[year / 100 % 10],
            "0123456789"@[year / 10 % 10],
            "0123456789"@[year % 10],
        ],
{
    reveal_with_fuel(padded, 5);
    reveal_with_fuel(decimal, 2);
    lemma_digit_of(year / 1000);
    lemma_digit_of(year / 100 % 10);
    lemma_digit_of(year / 10 % 10);
    lemma_digit_of(year % 10);
    let n = year as nat;
    assert(n / 10 / 10 == n / 100);
    assert(n / 10 / 10 / 10 == n / 1000);
    assert(padded(n, 4) =~= seq![
        "0123456789"@[year / 1000],
        "0123456789"@[year / 100 % 10],
        "0123456789"@[year / 10 % 10],
        "0123456789"@[year % 10],
    ]);
}

} // verus!
