use blog_analytics::api::{bots_response, granularity_of, limit_or, rss_response, timeseries_group_expr, timeseries_sql};
use blog_analytics::dashboard::{chart_height, ArticlesTemplate, BotsTemplate, GeoTemplate, OverviewTemplate, ReferrersTemplate, RssTemplate};
use blog_analytics::models::{PageStats, Period, StatsQuery, UserAgentDayGroup, UserAgentGroup};
use blog_analytics::stats::{bot_clients, rss_clients, total_bot_hits, total_rss_hits, total_rss_subscribers};
use blog_analytics::timeline::{rss_time_points, rss_timeline};

fn group(ua: &str, hits: i64, uv: i64) -> UserAgentGroup {
    UserAgentGroup { user_agent: ua.to_string(), hits, unique_visitors: uv }
}

fn day(d: &str, ua: &str, hits: i64) -> UserAgentDayGroup {
    UserAgentDayGroup { day: d.to_string(), user_agent: ua.to_string(), hits }
}

fn period() -> Period {
    Period { from: "2025-01-01".to_string(), to: "2025-01-31".to_string() }
}

fn sample_groups() -> Vec<UserAgentGroup> {
    vec![
        group("Feedly/1.0", 5, 2),
        group("Mozilla/5.0 Chrome/120.0", 100, 40),
        group("Feedly/2.0 (+http://feedly.com)", 7, 3),
        group("Miniflux/2.0.50", 20, 1),
        group("Googlebot/2.1", 9, 9),
        group("SomeCrawler/1.0", 9, 1),
        group("bingbot/2.0", 30, 2),
    ]
}

#[test]
fn rss_clients_are_summed_and_ranked() {
    let r = rss_clients(&sample_groups());
    let got: Vec<(String, i64, i64)> = r.iter().map(|e| (e.client_name.clone(), e.hits, e.unique_subscribers)).collect();
    assert_eq!(
        got,
        vec![("Miniflux".to_string(), 20, 1), ("Feedly".to_string(), 12, 5)]
    );
    assert_eq!(total_rss_hits(&r), 32);
    assert_eq!(total_rss_subscribers(&r), 6);
}

#[test]
fn bots_are_summed_and_ranked_with_stable_ties() {
    let r = bot_clients(&sample_groups());
    let got: Vec<(String, i64)> = r.iter().map(|e| (e.client_name.clone(), e.hits)).collect();
    assert_eq!(
        got,
        vec![("Bingbot".to_string(), 30), ("Googlebot".to_string(), 9), ("Bot (other)".to_string(), 9)]
    );
    assert_eq!(total_bot_hits(&r), 48);
}

#[test]
fn empty_groups_give_empty_answers() {
    assert!(rss_clients(&vec![]).is_empty());
    assert!(bot_clients(&vec![group("Firefox/1", 3, 3)]).is_empty());
    assert_eq!(total_rss_hits(&vec![]), 0);
}

#[test]
fn time_points_are_ordered_by_day_then_reader() {
    let daily = vec![
        day("2025-01-02", "Feedly/1", 3),
        day("2025-01-01", "Reeder/5", 1),
        day("2025-01-01", "Feedly/1", 2),
        day("2025-01-02", "Feedly/2", 4),
        day("2025-01-01", "Chrome/1", 50),
        day("2025-01-01", "Googlebot", 8),
    ];
    let points = rss_time_points(&daily);
    let got: Vec<(String, String, i64)> =
        points.iter().map(|p| (p.date.clone(), p.client_name.clone(), p.hits)).collect();
    assert_eq!(
        got,
        vec![
            ("2025-01-01".to_string(), "Feedly".to_string(), 2),
            ("2025-01-01".to_string(), "Reeder".to_string(), 1),
            ("2025-01-02".to_string(), "Feedly".to_string(), 7),
        ]
    );
}

#[test]
fn timeline_fills_missing_days_with_zero() {
    let daily = vec![
        day("2025-01-03", "Feedly/1", 3),
        day("2025-01-01", "Reeder/5", 1),
        day("2025-01-01", "Feedly/1", 2),
        day("2025-01-01", "Safari/17", 9),
    ];
    let t = rss_timeline(&daily);
    assert_eq!(t.dates, vec!["2025-01-01".to_string(), "2025-01-03".to_string()]);
    assert_eq!(t.clients, vec!["Feedly".to_string(), "Reeder".to_string()]);
    assert_eq!(t.series, vec![vec![2, 3], vec![1, 0]]);
    let empty = rss_timeline(&vec![]);
    assert!(empty.dates.is_empty() && empty.clients.is_empty() && empty.series.is_empty());
}

#[test]
fn rss_answer() {
    let daily = vec![day("2025-01-01", "Feedly/1", 2)];
    let r = rss_response(period(), &sample_groups(), &daily);
    assert_eq!(r.period.from, "2025-01-01");
    assert_eq!(r.total_hits, 32);
    assert_eq!(r.by_client.len(), 2);
    assert_eq!(r.over_time.len(), 1);
    assert_eq!(r.over_time[0].hits, 2);
}

#[test]
fn bots_answer() {
    let r = bots_response(period(), &sample_groups());
    assert_eq!(r.total_hits, 48);
    assert_eq!(r.bots[0].client_name, "Bingbot");
}

#[test]
fn query_defaults() {
    let q = StatsQuery { from: None, to: None, limit: None, granularity: None };
    assert_eq!(granularity_of(&q), "day");
    assert_eq!(limit_or(&q, 50), 50);
    let q = StatsQuery { from: None, to: None, limit: Some(7), granularity: Some("week".to_string()) };
    assert_eq!(granularity_of(&q), "week");
    assert_eq!(limit_or(&q, 50), 7);
}

#[test]
fn timeseries_grouping() {
    assert_eq!(timeseries_group_expr("week"), "strftime('%Y-W%W', timestamp)");
    assert_eq!(timeseries_group_expr("month"), "strftime('%Y-%m', timestamp)");
    assert_eq!(timeseries_group_expr("day"), "DATE(timestamp)");
    assert_eq!(timeseries_group_expr("Week"), "DATE(timestamp)");
    assert_eq!(
        timeseries_sql("month"),
        "SELECT strftime('%Y-%m', timestamp) as period, COUNT(*) as views, COUNT(DISTINCT visitor_hash) as uv\n         FROM events WHERE timestamp >= ?1 AND timestamp < ?2\n         GROUP BY period ORDER BY period"
    );
}

#[test]
fn chart_heights() {
    assert_eq!(chart_height(0, 800), 200);
    assert_eq!(chart_height(7, 800), 200);
    assert_eq!(chart_height(8, 800), 224);
    assert_eq!(chart_height(10, 800), 280);
    assert_eq!(chart_height(30, 800), 800);
    assert_eq!(chart_height(30, 600), 600);
    assert_eq!(chart_height(1, 100), 100);
}

#[test]
fn page_templates() {
    let pages = vec![PageStats { url: "/a/".to_string(), views: 3, unique_visitors: 2 }; 10];
    let t = ArticlesTemplate::new(period(), pages);
    assert_eq!(t.active_page, "articles");
    assert_eq!(t.chart_height, 280);
    assert_eq!(t.to, "2025-01-31");
    let t = ReferrersTemplate::new(period(), vec![]);
    assert_eq!(t.active_page, "referrers");
    assert_eq!(t.chart_height, 200);
    let t = GeoTemplate::new(period(), vec![], vec![]);
    assert_eq!(t.active_page, "geo");
    let t = OverviewTemplate::new(period(), (10, 4), (1, 1), vec![], vec![]);
    assert_eq!(t.active_page, "overview");
    assert_eq!(t.total_pageviews, 10);
    assert_eq!(t.today_unique_visitors, 1);
}

#[test]
fn bots_and_rss_templates() {
    let t = BotsTemplate::new(period(), &sample_groups());
    assert_eq!(t.active_page, "bots");
    assert_eq!(t.bot_count, 3);
    assert_eq!(t.total_hits, 48);
    assert_eq!(t.chart_height, 200);
    let t = RssTemplate::new(period(), &sample_groups(), "[]".to_string(), "[]".to_string());
    assert_eq!(t.active_page, "rss");
    assert_eq!(t.client_count, 2);
    assert_eq!(t.total_hits, 32);
    assert_eq!(t.total_subscribers, 6);
    assert_eq!(t.timeline_series_json, "[]");
}

#[test]
fn points_and_timeline_agree() {
    let daily = vec![
        day("2025-01-02", "Inoreader/1.0", 4),
        day("2025-01-01", "Feedly/1", 2),
        day("2025-01-02", "Feedly/1", 1),
        day("2025-01-02", "Inoreader/1.0", 6),
    ];
    let points = rss_time_points(&daily);
    let t = rss_timeline(&daily);
    for p in &points {
        let d = t.dates.iter().position(|x| *x == p.date).unwrap();
        let c = t.clients.iter().position(|x| *x == p.client_name).unwrap();
        assert_eq!(t.series[c][d], p.hits);
    }
    assert_eq!(t.series, vec![vec![2, 1], vec![0, 10]]);
}

#[test]
fn negative_counts_are_summed_as_they_come() {
    let groups = vec![group("Feedly/1", 5, 1), group("Feedly/2", -7, -1), group("Googlebot", -2, 0)];
    let r = rss_clients(&groups);
    assert_eq!(r.len(), 1);
    assert_eq!(r[0].hits, -2);
    assert_eq!(r[0].unique_subscribers, 0);
    assert_eq!(total_rss_hits(&r), -2);
    assert_eq!(total_bot_hits(&bot_clients(&groups)), -2);
}
