//! Days of the Gregorian calendar and moments of UTC.
//!
//! The calendar itself, its texts and its arithmetic are chrono's. What chrono is
//! trusted with is stated at each call.

use chrono::Datelike;
use chrono::TimeZone;
use vstd::prelude::*;

use crate::text;

verus! {

/// The first year that chrono can represent.
pub const FIRST_YEAR: i32 = -262143;

/// The last year that chrono can represent.
pub const LAST_YEAR: i32 = 262142;

/// The day number of 1970-01-01.
pub const EPOCH_DAY: i64 = 719163;

/// How many seconds a day has.
pub const DAY_SECONDS: i64 = 86400;

/// One second in nanoseconds.
pub const SECOND_NANOS: u32 = 1_000_000_000;

/// The number of the first day that chrono can represent.
pub const FIRST_DAY: i64 = -95746129;

/// The number of the last day that chrono can represent.
pub const LAST_DAY: i64 = 95745399;

/// The first second that chrono can represent, counted from the start of 1970.
pub const FIRST_SECOND: i64 = -8334601228800;

/// The last second that chrono can represent, counted from the start of 1970.
pub const LAST_SECOND: i64 = 8210266876799;

/// A day of the proleptic Gregorian calendar.
#[derive(Clone, Copy, Debug, PartialEq, Eq, Structural)]
pub struct Date {
    pub year: i32,
    pub month: u32,
    pub day: u32,
}

/// A moment of UTC: whole seconds since the start of 1970, and nanoseconds. More
/// than a second of nanoseconds stands for a leap second.
#[derive(Clone, Copy, Debug, PartialEq, Eq, Structural)]
pub struct Timestamp {
    pub secs: i64,
    pub nanos: u32,
}

/// Whether `year` is a leap year.
pub open spec fn leap_year(year: int) -> bool {
    (year % 4 == 0 && year % 100 != 0) || year % 400 == 0
}

/// How many days lie before the year, counted from the start of year 1.
pub open spec fn days_before_year(year: int) -> int {
    365 * (year - 1) + (year - 1) / 4 - (year - 1) / 100 + (year - 1) / 400
}

/// How many days the month has.
pub open spec fn month_length(year: int, month: int) -> int {
    if month == 2 {
        if leap_year(year) {
            29
        } else {
            28
        }
    } else if month == 4 || month == 6 || month == 9 || month == 11 {
        30
    } else {
        31
    }
}

/// How many days of the year lie before the month.
pub open spec fn days_before_month(year: int, month: int) -> int
    decreases month,
{
    if month <= 1 {
        0
    } else {
        days_before_month(year, month - 1) + month_length(year, month - 1)
    }
}

/// The numeral of `n` with zeros before it up to `width` digits.
pub open spec fn zero_padded(n: nat, width: nat) -> Seq<char> {
    let digits = text::numeral(n);
    if digits.len() < width {
        Seq::new((width - digits.len()) as nat, |i: int| '0') + digits
    } else {
        digits
    }
}

/// The year in at least four digits, with a sign if it is before year 0 or after 9999.
pub open spec fn year_text(year: int) -> Seq<char> {
    if year < 0 {
        seq!['-'] + zero_padded((-year) as nat, 4)
    } else if year > 9999 {
        seq!['+'] + zero_padded(year as nat, 4)
    } else {
        zero_padded(year as nat, 4)
    }
}

/// The time of day as `HH:MM:SS`.
pub open spec fn time_text(hour: nat, minute: nat, second: nat) -> Seq<char> {
    zero_padded(hour, 2) + seq![':'] + zero_padded(minute, 2) + seq![':'] + zero_padded(second, 2)
}

/// The number of the first day that chrono can represent.
pub open spec fn first_day() -> int {
    days_before_year(FIRST_YEAR as int) + 1
}

/// The number of the last day that chrono can represent.
pub open spec fn last_day() -> int {
    days_before_year(LAST_YEAR + 1)
}

/// Whether chrono can represent a moment of that second.
pub open spec fn representable(secs: int) -> bool {
    first_day() <= secs / (DAY_SECONDS as int) + EPOCH_DAY <= last_day()
}

impl Date {
    /// Whether the calendar has the day and chrono can represent it.
    pub open spec fn valid(self) -> bool {
        &&& FIRST_YEAR <= self.year <= LAST_YEAR
        &&& 1 <= self.month <= 12
        &&& 1 <= self.day <= month_length(self.year as int, self.month as int)
    }

    /// The number of the day, where 0001-01-01 is day 1.
    #[verifier::opaque]
    pub open spec fn number(self) -> int {
        days_before_year(self.year as int) + days_before_month(
            self.year as int,
            self.month as int,
        ) + self.day
    }

    /// The day as `YYYY-MM-DD`.
    pub open spec fn text(self) -> Seq<char> {
        year_text(self.year as int) + seq!['-'] + zero_padded(self.month as nat, 2) + seq!['-']
            + zero_padded(self.day as nat, 2)
    }

    /// Whether `self` is an earlier day than `other`.
    pub open spec fn precedes(self, other: Date) -> bool {
        ||| self.year < other.year
        ||| self.year == other.year && self.month < other.month
        ||| self.year == other.year && self.month == other.month && self.day < other.day
    }

    /// The start of the day in UTC, in seconds since the start of 1970.
    pub open spec fn start(self) -> int {
        (self.number() - EPOCH_DAY) * DAY_SECONDS
    }

    /// Whether the day is earlier than the other.
    pub fn is_before(self, other: Date) -> (earlier: bool)
        ensures
            earlier == self.precedes(other),
    {
        self.year < other.year || (self.year == other.year && (self.month < other.month || (
        self.month == other.month && self.day < other.day)))
    }
}

impl Timestamp {
    /// Whether chrono can represent the moment.
    pub open spec fn valid(self) -> bool {
        representable(self.secs as int) && self.nanos < 2 * SECOND_NANOS
    }

    /// Whether chrono can represent the moment and it lies in no leap second.
    pub open spec fn regular(self) -> bool {
        representable(self.secs as int) && self.nanos < SECOND_NANOS
    }

    /// Whether `self` is earlier than `other`.
    pub open spec fn precedes(self, other: Timestamp) -> bool {
        self.secs < other.secs || (self.secs == other.secs && self.nanos < other.nanos)
    }

    /// Whether the moment is earlier than the other.
    pub fn is_before(self, other: Timestamp) -> (earlier: bool)
        ensures
            earlier == self.precedes(other),
    {
        self.secs < other.secs || (self.secs == other.secs && self.nanos < other.nanos)
    }
}

proof fn lemma_year_has_its_days(year: int)
    ensures
        days_before_year(year + 1) == days_before_year(year) + days_before_month(year, 13),
        days_before_month(year, 13) >= 365,
{
    reveal_with_fuel(days_before_month, 14);
}

proof fn lemma_later_year_later_start(a: int, b: int)
    requires
        a < b,
    ensures
        days_before_year(a + 1) <= days_before_year(b),
    decreases b - a,
{
    if a + 1 < b {
        lemma_later_year_later_start(a, b - 1);
        lemma_year_has_its_days(b - 1);
    }
}

proof fn lemma_later_month_later_start(year: int, a: int, b: int)
    requires
        1 <= a < b,
    ensures
        days_before_month(year, a) + month_length(year, a) <= days_before_month(year, b),
    decreases b - a,
{
    if a + 1 < b {
        lemma_later_month_later_start(year, a, b - 1);
    }
}

/// The numbers of the days go up as the days go by.
pub proof fn law_numbers_follow_the_calendar(a: Date, b: Date)
    requires
        a.valid(),
        b.valid(),
    ensures
        a.precedes(b) <==> a.number() < b.number(),
        a == b <==> a.number() == b.number(),
{
    if a.precedes(b) {
        lemma_earlier_day_smaller_number(a, b);
    } else if b.precedes(a) {
        lemma_earlier_day_smaller_number(b, a);
    }
}

proof fn lemma_earlier_day_smaller_number(a: Date, b: Date)
    requires
        a.valid(),
        b.valid(),
        a.precedes(b),
    ensures
        a.number() < b.number(),
{
    reveal_with_fuel(days_before_month, 2);
    reveal(Date::number);
    if a.year < b.year {
        lemma_year_has_its_days(a.year as int);
        lemma_later_year_later_start(a.year as int, b.year as int);
        lemma_later_month_later_start(a.year as int, a.month as int, 13);
        if b.month > 1 {
            lemma_later_month_later_start(b.year as int, 1, b.month as int);
        }
    } else if a.month < b.month {
        lemma_later_month_later_start(a.year as int, a.month as int, b.month as int);
    }
}

proof fn lemma_limits()
    ensures
        first_day() == FIRST_DAY,
        last_day() == LAST_DAY,
        forall|secs: int| #[trigger] representable(secs) <==> FIRST_SECOND <= secs <= LAST_SECOND,
{
}

/// Every valid day has a number that chrono can represent, and it starts and ends at a
/// second that chrono can represent.
pub proof fn law_days_are_representable(day: Date)
    requires
        day.valid(),
    ensures
        first_day() <= day.number() <= last_day(),
        representable(day.start()),
        representable(day.start() + DAY_SECONDS - 1),
{
    let first = Date { year: FIRST_YEAR, month: 1, day: 1 };
    let last = Date { year: LAST_YEAR, month: 12, day: 31 };
    reveal_with_fuel(days_before_month, 13);
    reveal(Date::number);
    lemma_limits();
    assert(first.number() == first_day());
    assert(last.number() == last_day());
    law_numbers_follow_the_calendar(first, day);
    law_numbers_follow_the_calendar(day, last);
    law_numbers_follow_the_calendar(day, first);
    law_numbers_follow_the_calendar(last, day);
}

/// Whether the day `days` after the day with the number is one that chrono can represent.
pub open spec fn day_fits(number: int, days: int) -> bool {
    first_day() <= number + days <= last_day()
}

/// Whether the day `days` after the day with the number is one that chrono can represent.
pub fn can_reach(number: i64, days: i64) -> (yes: bool)
    requires
        first_day() <= number <= last_day(),
    ensures
        yes == day_fits(number as int, days as int),
{
    proof {
        lemma_limits();
    }
    FIRST_DAY - number <= days && days <= LAST_DAY - number
}

/// The moment that lies `amount` times `unit` seconds before `at`, if chrono can
/// represent it.
pub fn checked_before(at: Timestamp, amount: i64, unit: i64) -> (earlier: Option<Timestamp>)
    requires
        at.regular(),
        1 <= unit <= DAY_SECONDS,
    ensures
        earlier is Some <==> representable(at.secs - amount * unit),
        earlier matches Some(t) ==> t.regular() && t.secs == at.secs - amount * unit && t.nanos
            == at.nanos,
{
    proof {
        lemma_limits();
    }
    let span: i64 = 20_000_000_000_000;
    if amount < -span || amount > span {
        proof {
            if amount > 0 {
                assert(amount * unit >= amount) by (nonlinear_arith)
                    requires
                        unit >= 1,
                        amount > 0,
                ;
            } else {
                assert(amount * unit <= amount) by (nonlinear_arith)
                    requires
                        unit >= 1,
                        amount <= 0,
                ;
            }
        }
        return None;
    }
    assert(-1_728_000_000_000_000_000 <= amount * unit <= 1_728_000_000_000_000_000)
        by (nonlinear_arith)
        requires
            -20_000_000_000_000 <= amount <= 20_000_000_000_000,
            1 <= unit <= 86400,
    ;
    let seconds: i64 = amount * unit;
    let target: i64 = at.secs - seconds;
    if target < FIRST_SECOND || target > LAST_SECOND {
        None
    } else {
        Some(seconds_before(at, seconds))
    }
}

/// What chrono reads of a text as a day by a format.
pub uninterp spec fn parsed_date(text: Seq<char>, format: Seq<char>) -> Option<Date>;

/// What chrono reads of a text as a moment by a format.
pub uninterp spec fn parsed_moment(text: Seq<char>, format: Seq<char>) -> Option<Timestamp>;

/// `chrono::NaiveDate::parse_from_str`. What it reads depends on the two texts
/// alone, and where it reads something, that is a day of the calendar. By the
/// format `%Y-%m-%d` it reads the text of a day as that day, and it reads nothing of
/// a text without a decimal digit.
#[verifier::external_body]
pub(crate) fn parse_date(text: &str, format: &str) -> (date: Option<Date>)
    ensures
        date == parsed_date(text@, format@),
        date matches Some(d) ==> d.valid(),
        format@ == "%Y-%m-%d"@ ==> forall|d: Date|
            d.valid() && text@ == #[trigger] d.text() ==> date == Some(d),
        format@ == "%Y-%m-%d"@ && text::digitless(text@) ==> date is None,
{
    match chrono::NaiveDate::parse_from_str(text, format) {
        Ok(d) => Some(Date { year: d.year(), month: d.month(), day: d.day() }),
        Err(_) => None,
    }
}

/// `chrono::NaiveDateTime::parse_from_str`, the result taken as UTC. What it reads
/// depends on the two texts alone. By the format `%Y-%m-%d %H:%M:%S` it reads the
/// text of a day, a space and a time of that day as that moment, and it reads
/// nothing of the text of a day alone or of a text without a decimal digit.
#[verifier::external_body]
pub(crate) fn parse_moment(text: &str, format: &str) -> (moment: Option<Timestamp>)
    ensures
        moment == parsed_moment(text@, format@),
        moment matches Some(t) ==> t.valid(),
        format@ == "%Y-%m-%d %H:%M:%S"@ ==> forall|d: Date, hour: nat, minute: nat, second: nat|
            d.valid() && hour < 24 && minute < 60 && second < 60 && text@ == #[trigger] d.text()
                + seq![' '] + #[trigger] time_text(hour, minute, second) ==> moment == Some(
                Timestamp {
                    secs: (d.start() + 3600 * hour + 60 * minute + second) as i64,
                    nanos: 0,
                },
            ),
        format@ == "%Y-%m-%d %H:%M:%S"@ ==> forall|d: Date|
            d.valid() && text@ == #[trigger] d.text() ==> moment is None,
        format@ == "%Y-%m-%d %H:%M:%S"@ && text::digitless(text@) ==> moment is None,
{
    match chrono::NaiveDateTime::parse_from_str(text, format) {
        Ok(t) => Some(
            Timestamp {
                secs: t.and_utc().timestamp(),
                nanos: t.and_utc().timestamp_subsec_nanos(),
            },
        ),
        Err(_) => None,
    }
}

/// `chrono::NaiveDate::format` with the format `%Y-%m-%d`: the year in at least four
/// digits, the month and the day in two.
#[verifier::external_body]
pub(crate) fn format_date(date: Date, format: &str) -> (text: String)
    requires
        date.valid(),
        format@ == "%Y-%m-%d"@,
    ensures
        text@ == date.text(),
{
    chrono::NaiveDate::from_ymd_opt(date.year, date.month, date.day).unwrap().format(
        format,
    ).to_string()
}

/// `chrono::NaiveDate + chrono::Duration`: the day that lies so many days later.
#[verifier::external_body]
pub(crate) fn days_after(date: Date, days: i64) -> (later: Date)
    requires
        date.valid(),
        first_day() <= date.number() + days <= last_day(),
    ensures
        later.valid(),
        later.number() == date.number() + days,
{
    let d = chrono::NaiveDate::from_ymd_opt(date.year, date.month, date.day).unwrap()
        + chrono::Duration::days(days);
    Date { year: d.year(), month: d.month(), day: d.day() }
}

/// `chrono::TimeZone::from_utc_datetime` of `Utc` on the start of the day.
#[verifier::external_body]
pub(crate) fn midnight(date: Date) -> (start: Timestamp)
    requires
        date.valid(),
    ensures
        start.secs == date.start(),
        start.nanos == 0,
{
    let d = chrono::NaiveDate::from_ymd_opt(date.year, date.month, date.day).unwrap();
    let t = chrono::Utc.from_utc_datetime(&d.and_hms_opt(0, 0, 0).unwrap());
    Timestamp { secs: t.timestamp(), nanos: t.timestamp_subsec_nanos() }
}

/// `chrono::DateTime::date_naive` of a moment of UTC: the day that it falls on.
#[verifier::external_body]
pub(crate) fn date_of(at: Timestamp) -> (date: Date)
    requires
        at.regular(),
    ensures
        date.valid(),
        date.number() == at.secs as int / DAY_SECONDS as int + EPOCH_DAY,
{
    let d = chrono::DateTime::from_timestamp(at.secs, at.nanos).unwrap().date_naive();
    Date { year: d.year(), month: d.month(), day: d.day() }
}

/// `chrono::DateTime - chrono::Duration`: the moment that lies so many seconds earlier.
#[verifier::external_body]
pub(crate) fn seconds_before(at: Timestamp, seconds: i64) -> (earlier: Timestamp)
    requires
        at.regular(),
        representable(at.secs - seconds),
    ensures
        earlier.secs == at.secs - seconds,
        earlier.nanos == at.nanos,
{
    let t = chrono::DateTime::from_timestamp(at.secs, at.nanos).unwrap()
        - chrono::Duration::seconds(seconds);
    Timestamp { secs: t.timestamp(), nanos: t.timestamp_subsec_nanos() }
}

/// `chrono::Utc::now`. Of the moment that it gives nothing is claimed but that it
/// lies in 1970 or later and in no leap second.
#[verifier::external_body]
pub(crate) fn utc_now() -> (now: Timestamp)
    ensures
        now.regular(),
        now.secs >= 0,
{
    let t = chrono::Utc::now();
    Timestamp { secs: t.timestamp(), nanos: t.timestamp_subsec_nanos() }
}

/// `chrono::DateTime::with_timezone` with `Local`, and `date_naive` of the result: the
/// day that a moment falls on where the program runs. Local time differs from UTC by
/// less than a day; by how much depends on the machine.
#[verifier::external_body]
pub(crate) fn local_date(at: Timestamp) -> (date: Date)
    requires
        at.regular(),
        representable(at.secs - DAY_SECONDS),
        representable(at.secs + DAY_SECONDS),
    ensures
        date.valid(),
        -1 <= date.number() - (at.secs as int / DAY_SECONDS as int + EPOCH_DAY) <= 1,
{
    let utc = chrono::DateTime::from_timestamp(at.secs, at.nanos).unwrap();
    let d = utc.with_timezone(&chrono::Local).date_naive();
    Date { year: d.year(), month: d.month(), day: d.day() }
}

/// Moments are ordered by how many nanoseconds they lie from the start of 1970; a moment in a
/// leap second lies behind its second and before the next.
pub proof fn law_moments_are_ordered(a: Timestamp, b: Timestamp)
    ensures
        a.nanos < 1_000_000_000 && b.nanos < 1_000_000_000 ==> (a.precedes(b) <==> a.secs
            * 1_000_000_000 + a.nanos < b.secs * 1_000_000_000 + b.nanos),
        a.secs < b.secs ==> a.precedes(b),
        a.secs == b.secs ==> (a.precedes(b) <==> a.nanos < b.nanos),
        a.secs > b.secs ==> !a.precedes(b),
{
}

/// Every day of the calendar can be reached from every other.
pub proof fn law_every_day_can_be_reached(a: Date, b: Date)
    requires
        a.valid(),
        b.valid(),
    ensures
        day_fits(a.number(), b.number() - a.number()),
{
    law_days_are_representable(b);
}

/// A day starts so many times 86400 seconds from the start of 1970 as it lies days from that
/// day, whose number is 719163.
pub proof fn law_days_start_at_midnight(day: Date)
    ensures
        day.start() == (day.number() - 719163) * 86400,
        (Date { year: 1970, month: 1, day: 1 }).number() == 719163,
        (Date { year: 1970, month: 1, day: 1 }).start() == 0,
{
    reveal(Date::number);
}

}
