//! The data that the service stores and the shapes of its stats answers.
use vstd::prelude::*;

verus! {

/// A page view as the edge worker reports it.
#[derive(Debug, Clone)]
pub struct AnalyticsEvent {
    pub url: String,
    pub referer: Option<String>,
    pub user_agent: String,
    pub country: Option<String>,
    pub city: Option<String>,
    pub timezone: Option<String>,
    pub timestamp: String,
    pub visitor_hash: String,
}

/// Query parameters shared by all stats endpoints.
#[derive(Debug, Clone)]
pub struct StatsQuery {
    pub from: Option<String>,
    pub to: Option<String>,
    pub limit: Option<u32>,
    pub granularity: Option<String>,
}

/// The date range an answer covers, both ends inclusive, as `YYYY-MM-DD`.
#[derive(Debug, Clone)]
pub struct Period {
    pub from: String,
    pub to: String,
}

#[derive(Debug, Clone)]
pub struct PageStats {
    pub url: String,
    pub views: i64,
    pub unique_visitors: i64,
}

#[derive(Debug, Clone)]
pub struct OverviewResponse {
    pub period: Period,
    pub total_pageviews: i64,
    pub unique_visitors: i64,
    pub today_pageviews: i64,
    pub today_unique_visitors: i64,
    pub top_pages: Vec<PageStats>,
}

#[derive(Debug, Clone)]
pub struct TimeseriesPoint {
    pub date: String,
    pub views: i64,
    pub unique_visitors: i64,
}

#[derive(Debug, Clone)]
pub struct TimeseriesResponse {
    pub period: Period,
    pub granularity: String,
    pub data: Vec<TimeseriesPoint>,
}

#[derive(Debug, Clone)]
pub struct ArticlesResponse {
    pub period: Period,
    pub articles: Vec<PageStats>,
}

/// Traffic of one RSS reader.
#[derive(Debug, Clone)]
pub struct RssClientStats {
    pub client_name: String,
    pub hits: i64,
    pub unique_subscribers: i64,
}

/// Hits of one RSS reader on one day.
#[derive(Debug, Clone)]
pub struct RssTimePoint {
    pub date: String,
    pub client_name: String,
    pub hits: i64,
}

#[derive(Debug, Clone)]
pub struct RssResponse {
    pub period: Period,
    pub total_hits: i64,
    pub by_client: Vec<RssClientStats>,
    pub over_time: Vec<RssTimePoint>,
}

/// Traffic of one bot.
#[derive(Debug, Clone)]
pub struct BotStats {
    pub client_name: String,
    pub hits: i64,
}

#[derive(Debug, Clone)]
pub struct BotsResponse {
    pub period: Period,
    pub total_hits: i64,
    pub bots: Vec<BotStats>,
}

#[derive(Debug, Clone)]
pub struct ReferrerStats {
    pub referrer: String,
    pub hits: i64,
    pub unique_visitors: i64,
}

#[derive(Debug, Clone)]
pub struct ReferrersResponse {
    pub period: Period,
    pub referrers: Vec<ReferrerStats>,
}

#[derive(Debug, Clone)]
pub struct CountryStats {
    pub country: String,
    pub hits: i64,
    pub unique_visitors: i64,
}

#[derive(Debug, Clone)]
pub struct CityStats {
    pub city: String,
    pub country: String,
    pub hits: i64,
    pub unique_visitors: i64,
}

#[derive(Debug, Clone)]
pub struct GeoResponse {
    pub period: Period,
    pub countries: Vec<CountryStats>,
    pub cities: Vec<CityStats>,
}

/// Events of one user agent in a period: how many, and from how many visitors.
#[derive(Debug, Clone)]
pub struct UserAgentGroup {
    pub user_agent: String,
    pub hits: i64,
    pub unique_visitors: i64,
}

/// Events of one user agent on one day.
#[derive(Debug, Clone)]
pub struct UserAgentDayGroup {
    pub day: String,
    pub user_agent: String,
    pub hits: i64,
}

} // verus!
