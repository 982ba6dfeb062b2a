//! Instants as Unix milliseconds, and the calendar steps between them.
use chrono::TimeZone;
use vstd::prelude::*;

verus! {

/// The first millisecond chrono's calendar reaches: the start of the year -262143.
pub const FIRST_INSTANT: i64 = -8_334_601_228_800_000;

/// The last millisecond chrono's calendar reaches: the end of the year 262142.
pub const LAST_INSTANT: i64 = 8_210_266_876_799_999;

/// Whether a count of Unix milliseconds names an instant of the calendar.
pub open spec fn is_instant(ms: int) -> bool {
    FIRST_INSTANT <= ms <= LAST_INSTANT
}

/// How many milliseconds a day has.
pub const DAY: i64 = 86_400_000;

/// Whether a year of the Gregorian calendar has a 29th of February.
pub open spec fn is_leap(year: int) -> bool {
    year % 4 == 0 && (year % 100 != 0 || year % 400 == 0)
}

/// How many days a month has. Months are counted through: January of the year `y` is the
/// month `12 * y`.
pub open spec fn month_length(month: int) -> int {
    let m = month % 12;
    if m == 1 {
        if is_leap(month / 12) {
            29
        } else {
            28
        }
    } else if m == 3 || m == 5 || m == 8 || m == 10 {
        30
    } else {
        31
    }
}

/// How many leap years there are from the year 1 to a year; fewer than none before that.
pub open spec fn leap_years(year: int) -> int {
    year / 4 - year / 100 + year / 400
}

/// The day a year begins on, counted from the first of January 1970.
pub open spec fn year_start(year: int) -> int {
    365 * (year - 1970) + leap_years(year - 1) - leap_years(1969)
}

/// How many days the first `m` months of a year have.
pub open spec fn days_of_months(year: int, m: int) -> int
    decreases m,
{
    if m <= 0 {
        0
    } else {
        days_of_months(year, m - 1) + month_length(12 * year + m - 1)
    }
}

/// The day a month begins on, counted from the first of January 1970.
pub open spec fn month_start(month: int) -> int {
    year_start(month / 12) + days_of_months(month / 12, month % 12)
}

/// Whether a month has begun by a day, and not yet ended.
pub open spec fn in_month(day: int, month: int) -> bool {
    month_start(month) <= day < month_start(month + 1)
}

/// The month a day is in.
pub open spec fn month_of(day: int) -> int {
    choose|month: int| #[trigger] in_month(day, month)
}

/// The millisecond so many months after another: on the same day of the month, or on the last
/// where the month is too short for that, and at the same time of the day.
#[verifier::opaque]
pub open spec fn months_on(at: int, months: int) -> int {
    let day = at / (DAY as int);
    let to = month_of(day) + months;
    let offset = day - month_start(month_of(day));
    (month_start(to) + if offset < month_length(to) {
        offset
    } else {
        month_length(to) - 1
    }) * DAY + at % (DAY as int)
}

/// The instant so many months after another, if the calendar reaches it.
pub open spec fn months_after(at: i64, months: int) -> Option<i64> {
    if is_instant(months_on(at as int, months)) {
        Some(months_on(at as int, months) as i64)
    } else {
        None
    }
}

/// From one number to the next a quotient grows by one where it comes out even, and else stays.
proof fn quotient_follows(y: int, d: int)
    requires
        d > 1,
    ensures
        y / d == (y - 1) / d + if y % d == 0 {
            1int
        } else {
            0int
        },
{
    let q = (y - 1) / d;
    let r = (y - 1) % d;
    vstd::arithmetic::div_mod::lemma_fundamental_div_mod(y - 1, d);
    if r == d - 1 {
        assert(y == (q + 1) * d + 0) by (nonlinear_arith)
            requires
                y - 1 == d * q + r,
                r == d - 1,
        ;
        vstd::arithmetic::div_mod::lemma_fundamental_div_mod_converse(y, d, q + 1, 0);
    } else {
        assert(y == q * d + (r + 1)) by (nonlinear_arith)
            requires
                y - 1 == d * q + r,
        ;
        vstd::arithmetic::div_mod::lemma_fundamental_div_mod_converse(y, d, q, r + 1);
    }
}

/// What a multiple of a number divides, the number divides.
proof fn multiple_divides(y: int, d: int, k: int)
    requires
        d > 0,
        k > 0,
        y % (d * k) == 0,
    ensures
        y % d == 0,
{
    let e = d * k;
    assert(e > 0) by (nonlinear_arith)
        requires
            d > 0,
            k > 0,
            e == d * k,
    ;
    vstd::arithmetic::div_mod::lemma_fundamental_div_mod(y, e);
    let q = y / e;
    assert(y == (k * q) * d + 0) by (nonlinear_arith)
        requires
            y == e * q,
            e == d * k,
    ;
    vstd::arithmetic::div_mod::lemma_fundamental_div_mod_converse(y, d, k * q, 0);
}

proof fn leap_years_follow(y: int)
    ensures
        leap_years(y) == leap_years(y - 1) + if is_leap(y) {
            1int
        } else {
            0int
        },
{
    quotient_follows(y, 4);
    quotient_follows(y, 100);
    quotient_follows(y, 400);
    if y % 400 == 0 {
        multiple_divides(y, 100, 4);
    }
    if y % 100 == 0 {
        multiple_divides(y, 4, 25);
    }
}

proof fn month_in_year(y: int, m: int)
    requires
        0 <= m < 12,
    ensures
        (12 * y + m) / 12 == y,
        (12 * y + m) % 12 == m,
        days_of_months(y, m + 1) == days_of_months(y, m) + month_length(12 * y + m),
{
}

proof fn days_of_a_year(y: int)
    ensures
        days_of_months(y, 12) == 365 + if is_leap(y) {
            1int
        } else {
            0int
        },
{
    assert(days_of_months(y, 0) == 0);
    month_in_year(y, 0);
    month_in_year(y, 1);
    month_in_year(y, 2);
    month_in_year(y, 3);
    month_in_year(y, 4);
    month_in_year(y, 5);
    month_in_year(y, 6);
    month_in_year(y, 7);
    month_in_year(y, 8);
    month_in_year(y, 9);
    month_in_year(y, 10);
    month_in_year(y, 11);
}

proof fn months_follow(month: int)
    ensures
        month_start(month + 1) == month_start(month) + month_length(month),
{
    let y = month / 12;
    let m = month % 12;
    assert(month == 12 * y + m);
    month_in_year(y, m);
    if m < 11 {
        month_in_year(y, m + 1);
    } else {
        month_in_year(y + 1, 0);
        assert(month + 1 == 12 * (y + 1));
        leap_years_follow(y);
        days_of_a_year(y);
    }
}

proof fn months_begin_in_order(a: int, b: int)
    requires
        a <= b,
    ensures
        month_start(a) <= month_start(b),
    decreases b - a,
{
    if a < b {
        months_begin_in_order(a, b - 1);
        months_follow(b - 1);
    }
}

/// A day is in the month that has begun by then and not yet ended, and in no other.
pub proof fn day_in_month(day: int, month: int)
    requires
        in_month(day, month),
    ensures
        month_of(day) == month,
{
    let found = month_of(day);
    assert(in_month(day, found));
    if found < month {
        months_begin_in_order(found + 1, month);
    } else if month < found {
        months_begin_in_order(month + 1, found);
    }
}

/// Every day is in some month.
pub proof fn every_day_is_in_a_month(day: int)
    ensures
        in_month(day, month_of(day)),
    decreases if day < 0 {
        -day
    } else {
        day
    },
{
    if day == 0 {
        let first: int = 23_640;
        assert(in_month(0, first)) by {
            assert(first / 12 == 1970 && first % 12 == 0);
            assert(days_of_months(1970, 0) == 0);
            months_follow(first);
        }
    } else if day > 0 {
        every_day_is_in_a_month(day - 1);
        let month = month_of(day - 1);
        months_follow(month + 1);
        assert(in_month(day, month) || in_month(day, month + 1));
    } else {
        every_day_is_in_a_month(day + 1);
        let month = month_of(day + 1);
        months_follow(month - 1);
        assert(in_month(day, month) || in_month(day, month - 1));
    }
}

/// No months after an instant is the instant.
pub proof fn no_months_lead_nowhere(at: int)
    ensures
        months_on(at, 0) == at,
{
    reveal(months_on);
    let day = at / (DAY as int);
    every_day_is_in_a_month(day);
    months_follow(month_of(day));
    assert(at == day * DAY + at % (DAY as int));
}

/// More months lead further: no two numbers of months after one instant are the same instant.
pub proof fn months_lead_on(at: i64, a: int, b: int)
    requires
        a < b,
    ensures
        months_on(at as int, a) < months_on(at as int, b),
{
    reveal(months_on);
    let day = at as int / (DAY as int);
    let from = month_of(day);
    let offset = day - month_start(from);
    months_follow(from + a);
    months_begin_in_order(from + a + 1, from + b);
}

/// An instant in RFC 3339, in UTC with a `Z`, with as many sub-second digits as it needs.
pub uninterp spec fn rfc3339_text(at: i64) -> Seq<char>;

/// An instant as chrono displays it.
pub uninterp spec fn instant_text(at: i64) -> Seq<char>;

/// chrono's `TimeZone::timestamp_millis_opt` on UTC: it yields a date for exactly the
/// milliseconds between [`FIRST_INSTANT`] and [`LAST_INSTANT`].
#[verifier::external_body]
pub(crate) fn on_calendar(ms: i64) -> (r: bool)
    ensures
        r == is_instant(ms as int),
{
    chrono::Utc.timestamp_millis_opt(ms).single().is_some()
}

/// chrono's `DateTime::checked_add_months` in UTC, from and to Unix milliseconds: the same day
/// and time so many months ahead in the Gregorian calendar, or the last day of a month that is
/// too short, as far as the calendar reaches.
#[verifier::external_body]
fn add_months(at: i64, months: u32) -> (r: Option<i64>)
    requires
        is_instant(at as int),
    ensures
        r == months_after(at, months as int),
        r is Some ==> is_instant(r->0 as int),
{
    let from = chrono::DateTime::from_timestamp_millis(at)?;
    from.checked_add_months(chrono::Months::new(months)).map(|to| to.timestamp_millis())
}

/// chrono's `DateTime::checked_sub_months` in UTC, from and to Unix milliseconds: as
/// [`add_months`], but so many months back.
#[verifier::external_body]
fn sub_months(at: i64, months: u32) -> (r: Option<i64>)
    requires
        is_instant(at as int),
    ensures
        r == months_after(at, -months),
        r is Some ==> is_instant(r->0 as int),
{
    let from = chrono::DateTime::from_timestamp_millis(at)?;
    from.checked_sub_months(chrono::Months::new(months)).map(|to| to.timestamp_millis())
}

/// chrono's `DateTime::to_rfc3339_opts` with automatic sub-second digits and a `Z`.
#[verifier::external_body]
fn rfc3339(at: i64) -> (r: String)
    requires
        is_instant(at as int),
    ensures
        r@ == rfc3339_text(at),
{
    let when = chrono::DateTime::from_timestamp_millis(at).unwrap_or_default();
    when.to_rfc3339_opts(chrono::SecondsFormat::AutoSi, true)
}

/// chrono's `Display` of a UTC date and time.
#[verifier::external_body]
pub(crate) fn displayed(at: i64) -> (r: String)
    requires
        is_instant(at as int),
    ensures
        r@ == instant_text(at),
{
    let when = chrono::DateTime::from_timestamp_millis(at).unwrap_or_default();
    format!("{when}")
}

/// The instant a count of Unix milliseconds names, if the calendar reaches it.
pub fn unix_ms_to_datetime(ms: i64) -> (r: Option<i64>)
    ensures
        r == (if is_instant(ms as int) {
            Some(ms)
        } else {
            None
        }),
{
    if on_calendar(ms) {
        Some(ms)
    } else {
        None
    }
}

/// An instant as it appears inside a time axis: UTC, `Z`-suffixed, with sub-second digits
/// only when there are any.
pub fn instant(at: i64) -> (r: String)
    requires
        is_instant(at as int),
    ensures
        r@ == rfc3339_text(at),
{
    rfc3339(at)
}

/// One step of a grid: so many milliseconds, or so many calendar months.
#[derive(Clone, Copy, Debug, PartialEq, Eq, Structural)]
pub enum Step {
    Millis(i64),
    Months(i32),
}

/// A step together with its ISO-8601 spelling.
#[derive(Clone, Debug)]
pub struct Period {
    pub step: Step,
    pub iso: String,
}

/// A [`Period`], with its spelling as characters.
pub struct PeriodView {
    pub step: Step,
    pub iso: Seq<char>,
}

impl View for Period {
    type V = PeriodView;

    open spec fn view(&self) -> PeriodView {
        PeriodView { step: self.step, iso: self.iso@ }
    }
}

/// The view of an optional period.
pub open spec fn opt_period(period: Option<Period>) -> Option<PeriodView> {
    match period {
        None => None,
        Some(p) => Some(p@),
    }
}

impl Period {
    /// The ISO-8601 spelling.
    pub fn to_iso8601(&self) -> (r: String)
        ensures
            r@ == self@.iso,
    {
        self.iso.clone()
    }

    /// The same period again.
    pub fn copied(&self) -> (r: Period)
        ensures
            r == *self,
    {
        Period { step: self.step, iso: self.iso.clone() }
    }
}

/// Where `n` steps from `anchor` lead, counted from the anchor and not from one step to the
/// next; `None` where the calendar ends first.
pub open spec fn step_from(step: Step, anchor: i64, n: i64) -> Option<i64> {
    match step {
        Step::Millis(ms) => {
            let at = anchor + ms * n;
            if is_instant(at) {
                Some(at as i64)
            } else {
                None
            }
        },
        Step::Months(months) => {
            let total = months * n;
            if -u32::MAX <= total <= u32::MAX {
                months_after(anchor, total)
            } else {
                None
            }
        },
    }
}

/// Whether a step leads ahead.
pub open spec fn leads_ahead(step: Step) -> bool {
    match step {
        Step::Millis(ms) => ms > 0,
        Step::Months(months) => months > 0,
    }
}

/// No steps from an anchor lead to the anchor, which is on the calendar if that is anywhere.
pub proof fn no_steps_lead_nowhere(step: Step, anchor: i64)
    ensures
        is_instant(anchor as int) ==> step_from(step, anchor, 0) == Some(anchor),
        step_from(step, anchor, 0) is Some ==> step_from(step, anchor, 0) == Some(anchor),
{
    no_months_lead_nowhere(anchor as int);
}

/// More steps ahead lead further: no two numbers of steps from one anchor are one instant.
pub proof fn steps_lead_on(step: Step, anchor: i64, a: i64, b: i64)
    requires
        leads_ahead(step),
        a < b,
        step_from(step, anchor, a) is Some,
        step_from(step, anchor, b) is Some,
    ensures
        step_from(step, anchor, a)->0 < step_from(step, anchor, b)->0,
{
    let size = match step {
        Step::Millis(ms) => ms as int,
        Step::Months(months) => months as int,
    };
    assert(size * a < size * b) by (nonlinear_arith)
        requires
            size > 0,
            a < b,
    ;
    if step is Months {
        months_lead_on(anchor, size * a, size * b);
    }
}

impl Step {
    /// Where `n` steps from `anchor` lead.
    pub fn add_to(self, anchor: i64, n: i64) -> (r: Option<i64>)
        requires
            is_instant(anchor as int),
        ensures
            r == step_from(self, anchor, n),
            r is Some ==> is_instant(r->0 as int),
            n == 0 ==> r == Some(anchor),
    {
        proof {
            no_steps_lead_nowhere(self, anchor);
        }
        match self {
            Step::Millis(ms) => {
                proof {
                    product_fits(ms as int, n as int);
                }
                let at: i128 = anchor as i128 + (ms as i128) * (n as i128);
                if at < FIRST_INSTANT as i128 || at > LAST_INSTANT as i128 {
                    None
                } else {
                    Some(at as i64)
                }
            },
            Step::Months(months) => {
                proof {
                    product_fits(months as int, n as int);
                }
                let total: i128 = (months as i128) * (n as i128);
                if 0 <= total && total <= u32::MAX as i128 {
                    add_months(anchor, total as u32)
                } else if total < 0 && -total <= u32::MAX as i128 {
                    sub_months(anchor, (-total) as u32)
                } else {
                    None
                }
            },
        }
    }
}

/// A product of two 64-bit integers is far inside 128 bits, and zero when one is.
proof fn product_fits(a: int, b: int)
    requires
        i64::MIN <= a <= i64::MAX,
        i64::MIN <= b <= i64::MAX,
    ensures
        -0x4000_0000_0000_0000_0000_0000_0000_0000 <= a * b,
        a * b <= 0x4000_0000_0000_0000_0000_0000_0000_0000,
        b == 0 ==> a * b == 0,
{
    assert(-0x4000_0000_0000_0000_0000_0000_0000_0000 <= a * b <= 0x4000_0000_0000_0000_0000_0000_0000_0000)
        by (nonlinear_arith)
        requires
            -0x8000_0000_0000_0000 <= a <= 0x8000_0000_0000_0000,
            -0x8000_0000_0000_0000 <= b <= 0x8000_0000_0000_0000,
    ;
}

// ---- What the calendar is -------------------------------------------------------------------

proof fn months_of_a_cycle(y: int, m: int)
    requires
        0 <= m <= 12,
    ensures
        days_of_months(y + 400, m) == days_of_months(y, m),
    decreases m,
{
    if m > 0 {
        months_of_a_cycle(y, m - 1);
        month_in_year(y, m - 1);
        month_in_year(y + 400, m - 1);
        assert((y + 400) % 4 == y % 4);
        assert((y + 400) % 100 == y % 100);
        assert((y + 400) % 400 == y % 400);
    }
}

/// Days are counted from the first of 1970. A month has at least 28 days and at most 31, and the
/// calendar starts over after four centuries of 146097 days.
pub proof fn months_follow_one_another(month: int)
    ensures
        month_start(12int * 1970) == 0,
        28 <= month_start(month + 1) - month_start(month) <= 31,
        month_start(month + 4800) - month_start(month) == 146_097,
{
    let y = month / 12;
    let m = month % 12;
    assert(month == 12 * y + m);
    assert((12 * 1970int) / 12 == 1970 && (12 * 1970int) % 12 == 0);
    assert(days_of_months(1970, 0) == 0);
    months_follow(month);
    month_in_year(y, m);
    month_in_year(y + 400, m);
    assert(month + 4800 == 12 * (y + 400) + m);
    months_of_a_cycle(y, m);
}

/// A year has 365 days, and one more in every fourth year but for those of three centuries out of
/// four.
pub proof fn years_follow_one_another(year: int)
    ensures
        month_start(12 * (year + 1)) - month_start(12 * year) == 365 + (if year % 400 == 0 || (year
            % 4 == 0 && year % 100 != 0) {
            1int
        } else {
            0int
        }),
{
    month_in_year(year, 0);
    month_in_year(year + 1, 0);
    leap_years_follow(year);
    assert(days_of_months(year, 0) == 0);
    assert(days_of_months(year + 1, 0) == 0);
    if year % 400 == 0 {
        multiple_divides(year, 4, 100);
    }
}

/// Months ahead or back keep the time of day and the day of the month, and where that month has
/// no such day, its last one.
pub proof fn months_keep_the_day(at: int, months: int)
    ensures
        ({
            let day = at / (DAY as int);
            let from = month_of(day);
            let to = from + months;
            let reached = months_on(at, months) / (DAY as int);
            &&& months_on(at, months) % (DAY as int) == at % (DAY as int)
            &&& in_month(reached, to)
            &&& reached - month_start(to) == day - month_start(from) || (reached - month_start(to)
                < day - month_start(from) && reached + 1 == month_start(to + 1))
        }),
{
    reveal(months_on);
    let day = at / (DAY as int);
    let from = month_of(day);
    let to = from + months;
    every_day_is_in_a_month(day);
    months_follow(from);
    months_follow(to);
    let offset = day - month_start(from);
    let reached = month_start(to) + if offset < month_length(to) {
        offset
    } else {
        month_length(to) - 1
    };
    vstd::arithmetic::div_mod::lemma_fundamental_div_mod_converse(
        months_on(at, months),
        DAY as int,
        reached,
        at % (DAY as int),
    );
}

/// A step in milliseconds leads exactly so far, and the same number of steps back returns.
pub proof fn steps_in_milliseconds_are_even(
    ms: i64,
    anchor: i64,
    n: i64,
    r: Option<i64>,
    back: Option<i64>,
)
    requires
        is_instant(anchor as int),
        n != i64::MIN,
        call_ensures(Step::add_to, (Step::Millis(ms), anchor, n), r),
        r is Some,
        call_ensures(Step::add_to, (Step::Millis(ms), r->0, (-n) as i64), back),
    ensures
        r->0 - anchor == ms * n,
        back == Some(anchor),
{
    assert(ms * (-n) == -(ms * n)) by (nonlinear_arith);
}

/// A step in months leads to the month that many months on, and further with every step.
pub proof fn steps_in_months_reach_their_month(
    months: i32,
    anchor: i64,
    n: i64,
    r: Option<i64>,
)
    requires
        is_instant(anchor as int),
        call_ensures(Step::add_to, (Step::Months(months), anchor, n), r),
        r is Some,
    ensures
        month_of(r->0 as int / (DAY as int)) == month_of(anchor as int / (DAY as int)) + months * n,
        r->0 as int % (DAY as int) == anchor as int % (DAY as int),
{
    months_keep_the_day(anchor as int, months * n);
    day_in_month(
        months_on(anchor as int, months * n) / (DAY as int),
        month_of(anchor as int / (DAY as int)) + months * n,
    );
}

/// A number of milliseconds is an instant as it stands, or none, and whatever is between two
/// instants is one.
pub proof fn instants_are_their_milliseconds(
    a: i64,
    b: i64,
    c: i64,
    of_a: Option<i64>,
    of_b: Option<i64>,
    of_c: Option<i64>,
)
    requires
        call_ensures(unix_ms_to_datetime, (a,), of_a),
        call_ensures(unix_ms_to_datetime, (b,), of_b),
        call_ensures(unix_ms_to_datetime, (c,), of_c),
        a <= b <= c,
        of_a is Some,
        of_c is Some,
    ensures
        of_a == Some(a),
        of_b == Some(b),
        of_c == Some(c),
{
}

} // verus!
