use blog_analytics::dates::{day_window, resolve_period, try_resolve_period_at, Date, LAST_DAY, FIRST_DAY};
use blog_analytics::models::StatsQuery;

fn query(from: Option<&str>, to: Option<&str>) -> StatsQuery {
    StatsQuery { from: from.map(|s| s.to_string()), to: to.map(|s| s.to_string()), limit: None, granularity: None }
}

// 2025-01-01 in chrono's day numbering.
const NEW_YEAR_2025: i32 = 739252;

#[test]
fn explicit_range() {
    let r = try_resolve_period_at(&query(Some("2025-01-01"), Some("2025-01-31")), Date { days: NEW_YEAR_2025 }).unwrap();
    assert_eq!(r.query_from, "2025-01-01");
    assert_eq!(r.query_to, "2025-02-01");
    assert_eq!(r.period.from, "2025-01-01");
    assert_eq!(r.period.to, "2025-01-31");
}

#[test]
fn default_range_is_last_thirty_days() {
    let r = try_resolve_period_at(&query(None, None), Date { days: NEW_YEAR_2025 }).unwrap();
    assert_eq!(r.query_from, "2024-12-02");
    assert_eq!(r.query_to, "2025-01-02");
    assert_eq!(r.period.from, "2024-12-02");
    assert_eq!(r.period.to, "2025-01-01");
}

#[test]
fn unparsable_bounds_fall_back() {
    let r = try_resolve_period_at(&query(Some("yesterday"), Some("2025/01/05")), Date { days: NEW_YEAR_2025 }).unwrap();
    assert_eq!(r.period.from, "2024-12-02");
    assert_eq!(r.period.to, "2025-01-01");
}

#[test]
fn leap_day_and_month_end() {
    let r = try_resolve_period_at(&query(Some("2024-02-28"), Some("2024-02-29")), Date { days: NEW_YEAR_2025 }).unwrap();
    assert_eq!(r.query_to, "2024-03-01");
    let r = try_resolve_period_at(&query(None, Some("2024-12-31")), Date { days: NEW_YEAR_2025 }).unwrap();
    assert_eq!(r.query_to, "2025-01-01");
}

#[test]
fn range_at_the_end_of_chrono_dates() {
    assert!(try_resolve_period_at(&query(None, None), Date { days: LAST_DAY }).is_none());
    assert!(try_resolve_period_at(&query(None, None), Date { days: FIRST_DAY + 5 }).is_none());
    assert!(try_resolve_period_at(&query(Some("2025-01-01"), Some("2025-01-02")), Date { days: LAST_DAY }).is_some());
}

#[test]
fn resolve_with_clock() {
    let r = resolve_period(&query(Some("2023-05-06"), Some("2023-05-07"))).unwrap();
    assert_eq!(r.query_from, "2023-05-06");
    assert_eq!(r.query_to, "2023-05-08");
}

#[test]
fn today_window_bounds() {
    let (today, tomorrow) = day_window(Date { days: NEW_YEAR_2025 }).unwrap();
    assert_eq!(today, "2025-01-01");
    assert_eq!(tomorrow, "2025-01-02");
    assert!(day_window(Date { days: LAST_DAY }).is_none());
}
