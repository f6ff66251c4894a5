//! The computations of the JSON stats endpoints.
use vstd::prelude::*;
use vstd::string::StringExecFns;

use crate::classify::ClientType;
use crate::models::{BotsResponse, Period, RssResponse, StatsQuery, UserAgentDayGroup, UserAgentGroup};
use crate::stats::{
    bot_clients, bot_clients_of, bot_entry_hits, bot_hit_total_fits, client_sums_fit, kind_hits, rss_hit_total_fits,
    rss_clients, rss_clients_of, rss_entry_hits, sum_of, total_bot_hits, total_rss_hits,
};
use crate::timeline::{day_sums_fit, rss_points_of, rss_time_points};

verus! {

fn same_text(a: &str, b: &str) -> (r: bool)
    ensures
        r == (a@ == b@),
{
    String::from_str(a) == String::from_str(b)
}

/// The time grouping of a timeseries request: its `granularity`, `day` by default.
pub fn granularity_of(q: &StatsQuery) -> (g: &str)
    ensures
        g@ == match q.granularity {
            Some(s) => s@,
            None => "day"@,
        },
{
    match &q.granularity {
        Some(s) => s.as_str(),
        None => "day",
    }
}

/// A request's `limit`, or `default` where it has none.
pub fn limit_or(q: &StatsQuery, default: u32) -> (l: u32)
    ensures
        l == match q.limit {
            Some(x) => x,
            None => default,
        },
{
    match q.limit {
        Some(x) => x,
        None => default,
    }
}

/// The SQL expression that groups events by `granularity`: ISO week for
/// `week`, month for `month`, and day for anything else.
pub open spec fn group_expr_for(granularity: Seq<char>) -> Seq<char> {
    if granularity == "week"@ {
        "strftime('%Y-W%W', timestamp)"@
    } else if granularity == "month"@ {
        "strftime('%Y-%m', timestamp)"@
    } else {
        "DATE(timestamp)"@
    }
}

/// The SQL expression that groups events by `granularity`.
pub fn timeseries_group_expr(granularity: &str) -> (e: &'static str)
    ensures
        e@ == group_expr_for(granularity@),
{
    if same_text(granularity, "week") {
        "strftime('%Y-W%W', timestamp)"
    } else if same_text(granularity, "month") {
        "strftime('%Y-%m', timestamp)"
    } else {
        "DATE(timestamp)"
    }
}

/// The timeseries query for `granularity`: views and distinct visitors per
/// period between `?1` (inclusive) and `?2` (exclusive), in period order.
pub fn timeseries_sql(granularity: &str) -> (sql: String)
    ensures
        sql@ == "SELECT "@ + group_expr_for(granularity@)
            + " as period, COUNT(*) as views, COUNT(DISTINCT visitor_hash) as uv\n         FROM events WHERE timestamp >= ?1 AND timestamp < ?2\n         GROUP BY period ORDER BY period"@,
{
    let mut sql = String::from_str("SELECT ");
    sql.append(timeseries_group_expr(granularity));
    sql.append(
        " as period, COUNT(*) as views, COUNT(DISTINCT visitor_hash) as uv\n         FROM events WHERE timestamp >= ?1 AND timestamp < ?2\n         GROUP BY period ORDER BY period",
    );
    sql
}

/// The RSS answer: the readers with their hits and unique subscribers (most
/// hits first), the total of their hits, and their hits per day and reader.
pub fn rss_response(period: Period, ua_groups: &Vec<UserAgentGroup>, daily_groups: &Vec<UserAgentDayGroup>) -> (r: RssResponse)
    requires
        client_sums_fit(ua_groups@, ClientType::RssReader),
        rss_hit_total_fits(ua_groups@),
        day_sums_fit(daily_groups@),
    ensures
        r.period == period,
        rss_clients_of(r.by_client@, ua_groups@),
        r.total_hits == kind_hits(ua_groups@, ClientType::RssReader),
        r.total_hits == sum_of(r.by_client@, rss_entry_hits()),
        rss_points_of(r.over_time@, daily_groups@),
{
    let by_client = rss_clients(ua_groups);
    assert(rss_clients_of(by_client@, ua_groups@));
    let total_hits = total_rss_hits(&by_client);
    let over_time = rss_time_points(daily_groups);
    RssResponse { period, total_hits, by_client, over_time }
}

/// The bots answer: the bots with their hits (most first) and the total.
pub fn bots_response(period: Period, ua_groups: &Vec<UserAgentGroup>) -> (r: BotsResponse)
    requires
        client_sums_fit(ua_groups@, ClientType::Bot),
        bot_hit_total_fits(ua_groups@),
    ensures
        r.period == period,
        bot_clients_of(r.bots@, ua_groups@),
        r.total_hits == kind_hits(ua_groups@, ClientType::Bot),
        r.total_hits == sum_of(r.bots@, bot_entry_hits()),
{
    let bots = bot_clients(ua_groups);
    assert(bot_clients_of(bots@, ua_groups@));
    let total_hits = total_bot_hits(&bots);
    BotsResponse { period, total_hits, bots }
}

} // verus!
