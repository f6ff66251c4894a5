//! Calendar dates and the date range of a stats request.
//!
//! Parsing, formatting and calendar arithmetic are chrono's; the dates are held
//! as chrono's day numbers (days from the start of the common era).
use vstd::prelude::*;

use chrono::Datelike;

use crate::clock::local_date_reading;
use crate::models::{Period, StatsQuery};

verus! {

/// chrono's day number of the earliest date it can hold (-262143-01-01).
pub const FIRST_DAY: i32 = -95746129i32;

/// chrono's day number of the latest date it can hold (+262142-12-31).
pub const LAST_DAY: i32 = 95745399i32;

/// `day` is a date that chrono can hold.
pub open spec fn day_in_range(day: int) -> bool {
    FIRST_DAY <= day <= LAST_DAY
}

/// A calendar date, as chrono's day number (0001-01-01 is day 1).
#[derive(Debug, Clone, Copy, PartialEq, Eq, Structural)]
pub struct Date {
    pub days: i32,
}

/// What `chrono::NaiveDate::parse_from_str(text, "%Y-%m-%d")` gives, as a day
/// number: `None` where chrono refuses the text.
pub uninterp spec fn ymd_parse(text: Seq<char>) -> Option<int>;

/// The text `chrono::NaiveDate::format("%Y-%m-%d")` writes for the date with
/// this day number.
pub uninterp spec fn ymd_text(day: int) -> Seq<char>;

/// Calls `chrono::NaiveDate::parse_from_str(text, "%Y-%m-%d")`. Claimed: the
/// result is `ymd_parse(text)`, and a parsed date is one chrono can hold.
#[verifier::external_body]
pub(crate) fn parse_ymd(text: &str) -> (r: Option<Date>)
    ensures
        r is Some <==> ymd_parse(text@) is Some,
        r matches Some(d) ==> ymd_parse(text@) == Some(d.days as int) && day_in_range(d.days as int),
{
    match chrono::NaiveDate::parse_from_str(text, "%Y-%m-%d") {
        Ok(d) => Some(Date { days: d.num_days_from_ce() }),
        Err(_) => None,
    }
}

/// Calls `chrono::NaiveDate::format("%Y-%m-%d")` on the date with day number
/// `d.days`. Claimed: the text is `ymd_text(d.days)`.
#[verifier::external_body]
pub(crate) fn format_ymd(d: Date) -> (s: String)
    requires
        day_in_range(d.days as int),
    ensures
        s@ == ymd_text(d.days as int),
{
    let date = chrono::NaiveDate::from_num_days_from_ce_opt(d.days).expect("a day that chrono holds");
    date.format("%Y-%m-%d").to_string()
}

/// Calls `chrono::NaiveDate::checked_add_signed` with `TimeDelta::days(n)`.
/// Claimed: the date `n` days on, or `None` exactly where chrono cannot hold it.
#[verifier::external_body]
pub(crate) fn add_days(d: Date, n: i32) -> (r: Option<Date>)
    requires
        day_in_range(d.days as int),
        -1000 <= n <= 1000,
    ensures
        r is Some <==> day_in_range(d.days + n),
        r matches Some(e) ==> e.days == d.days + n,
{
    let date = chrono::NaiveDate::from_num_days_from_ce_opt(d.days).expect("a day that chrono holds");
    match date.checked_add_signed(chrono::TimeDelta::days(n as i64)) {
        Some(e) => Some(Date { days: e.num_days_from_ce() }),
        None => None,
    }
}

/// Calls `chrono::Local::now().date_naive()`: today in the machine's time zone.
/// Claimed only: a date that chrono can hold, and a reading of the clock (which
/// day it is depends on the clock).
#[verifier::external_body]
pub(crate) fn today_local() -> (d: Date)
    ensures
        day_in_range(d.days as int),
        local_date_reading(d.days as int),
{
    Date { days: chrono::Local::now().date_naive().num_days_from_ce() }
}

/// The date a query bound names: the parsed text, or none where the bound is
/// absent or chrono refuses it.
pub open spec fn bound_day(text: Option<String>) -> Option<int> {
    match text {
        Some(s) => ymd_parse(s@),
        None => None,
    }
}

/// The first day of a request's range: its `from`, else 30 days before today.
pub open spec fn period_first_day(q: StatsQuery, today: int) -> int {
    match bound_day(q.from) {
        Some(d) => d,
        None => today - 30,
    }
}

/// The last day of a request's range (inclusive): its `to`, else today.
pub open spec fn period_last_day(q: StatsQuery, today: int) -> int {
    match bound_day(q.to) {
        Some(d) => d,
        None => today,
    }
}

/// chrono can hold the first day and the day after the last.
pub open spec fn period_resolvable(q: StatsQuery, today: int) -> bool {
    day_in_range(period_first_day(q, today)) && day_in_range(period_last_day(q, today) + 1)
}

/// A request's date range: the bounds for the database query (`query_to` is
/// the day after the range, exclusive) and the range as it is shown.
#[derive(Debug, Clone)]
pub struct ResolvedPeriod {
    pub query_from: String,
    pub query_to: String,
    pub period: Period,
}

/// `r` is the range of request `q` on day `today`.
pub open spec fn resolves(r: ResolvedPeriod, q: StatsQuery, today: int) -> bool {
    &&& r.query_from@ == ymd_text(period_first_day(q, today))
    &&& r.query_to@ == ymd_text(period_last_day(q, today) + 1)
    &&& r.period.from@ == ymd_text(period_first_day(q, today))
    &&& r.period.to@ == ymd_text(period_last_day(q, today))
}

fn parse_bound(text: &Option<String>) -> (r: Option<Date>)
    ensures
        r is Some <==> bound_day(*text) is Some,
        r matches Some(d) ==> bound_day(*text) == Some(d.days as int) && day_in_range(d.days as int),
{
    match text {
        Some(s) => parse_ymd(s.as_str()),
        None => None,
    }
}

/// The date range of a stats request on day `today`: `from` and `to` where they
/// parse as `YYYY-MM-DD`, else the 30 days before today and today.
pub fn resolve_period_at(q: &StatsQuery, today: Date) -> (r: ResolvedPeriod)
    requires
        day_in_range(today.days as int),
        period_resolvable(*q, today.days as int),
    ensures
        resolves(r, *q, today.days as int),
{
    let from = match parse_bound(&q.from) {
        Some(d) => d,
        None => match add_days(today, -30) {
            Some(d) => d,
            None => {
                proof {
                    assert(false);
                }
                today
            },
        },
    };
    let to_inclusive = match parse_bound(&q.to) {
        Some(d) => d,
        None => today,
    };
    let to_exclusive = match add_days(to_inclusive, 1) {
        Some(d) => d,
        None => {
            proof {
                assert(false);
            }
            to_inclusive
        },
    };
    ResolvedPeriod {
        query_from: format_ymd(from),
        query_to: format_ymd(to_exclusive),
        period: Period { from: format_ymd(from), to: format_ymd(to_inclusive) },
    }
}

/// The date range of a stats request on day `today`, or `None` where chrono
/// cannot hold the first day or the day after the last.
pub fn try_resolve_period_at(q: &StatsQuery, today: Date) -> (r: Option<ResolvedPeriod>)
    requires
        day_in_range(today.days as int),
    ensures
        r is Some <==> period_resolvable(*q, today.days as int),
        r matches Some(p) ==> resolves(p, *q, today.days as int),
{
    let from_ok = match parse_bound(&q.from) {
        Some(_) => true,
        None => add_days(today, -30).is_some(),
    };
    let to_inclusive = match parse_bound(&q.to) {
        Some(d) => d,
        None => today,
    };
    let to_ok = add_days(to_inclusive, 1).is_some();
    if from_ok && to_ok {
        Some(resolve_period_at(q, today))
    } else {
        None
    }
}

/// The date range of a stats request, taking today from the clock in the
/// machine's time zone (the day that the clock reads in this call); `None`
/// where chrono cannot hold the range's ends.
pub fn resolve_period(q: &StatsQuery) -> (r: Option<ResolvedPeriod>)
    ensures
        exists|today: int|
            #![trigger local_date_reading(today)]
            local_date_reading(today) && day_in_range(today) && (r is Some <==> period_resolvable(*q, today)) && (
            r matches Some(p) ==> resolves(p, *q, today)),
{
    let today = today_local();
    let r = try_resolve_period_at(q, today);
    r
}

/// Today and tomorrow as `YYYY-MM-DD`, the bounds of a query for `today`'s
/// traffic; `None` where chrono cannot hold tomorrow.
pub fn day_window(today: Date) -> (r: Option<(String, String)>)
    requires
        day_in_range(today.days as int),
    ensures
        r is Some <==> day_in_range(today.days + 1),
        r matches Some(w) ==> w.0@ == ymd_text(today.days as int) && w.1@ == ymd_text(today.days + 1),
{
    match add_days(today, 1) {
        Some(tomorrow) => Some((format_ymd(today), format_ymd(tomorrow))),
        None => None,
    }
}

/// The bounds of a query for today's traffic, taking today from the clock
/// (the day that the clock reads in this call) and tomorrow after it.
pub fn today_window() -> (r: Option<(String, String)>)
    ensures
        exists|today: int|
            #![trigger local_date_reading(today)]
            local_date_reading(today) && day_in_range(today) && (r is Some <==> day_in_range(today + 1)) && (
            r matches Some(w) ==> w.0@ == ymd_text(today) && w.1@ == ymd_text(today + 1)),
{
    let today = today_local();
    let r = day_window(today);
    r
}

/// With no bounds given (or bounds that do not parse as `YYYY-MM-DD`), a
/// request covers the 30 days before today and today: the query runs from 30
/// days back up to tomorrow (exclusive), and the period shown ends today. A
/// bound that is given and parses stands in for its default.
pub proof fn lemma_default_period(r: ResolvedPeriod, q: StatsQuery, today: int)
    requires
        resolves(r, q, today),
    ensures
        bound_day(q.from) is None ==> r.query_from@ == ymd_text(today - 30) && r.period.from@ == ymd_text(today - 30),
        bound_day(q.to) is None ==> r.query_to@ == ymd_text(today + 1) && r.period.to@ == ymd_text(today),
        bound_day(q.from) matches Some(d) ==> r.query_from@ == ymd_text(d) && r.period.from@ == ymd_text(d),
        bound_day(q.to) matches Some(d) ==> r.query_to@ == ymd_text(d + 1) && r.period.to@ == ymd_text(d),
{
}

} // verus!
