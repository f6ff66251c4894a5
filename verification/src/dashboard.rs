//! The data of the dashboard's HTML pages.
use vstd::prelude::*;
use vstd::string::StringExecFns;

use crate::classify::ClientType;
use crate::models::{CityStats, CountryStats, PageStats, Period, ReferrerStats, RssClientStats, BotStats, TimeseriesPoint, UserAgentGroup};
use crate::stats::{
    bot_clients, bot_clients_of, bot_hit_total_fits, client_names, client_sums_fit, kind_hits, kind_uniques, lemma_bot_count,
    rss_hit_total_fits, rss_subscriber_total_fits,
    rss_clients, rss_clients_of, total_bot_hits, total_rss_hits, total_rss_subscribers,
};

verus! {

/// The height in pixels of a bar chart of `item_count` bars: 28 per bar, at
/// least 200 and at most `cap` (`cap` wins where it is below 200).
pub open spec fn chart_height_for(item_count: usize, cap: u32) -> int {
    let raw = (item_count as u32) as int * 28;
    let floored = if raw > 200 { raw } else { 200 };
    if floored < cap { floored } else { cap as int }
}

/// The height of a bar chart with `item_count` bars.
pub fn chart_height(item_count: usize, cap: u32) -> (h: u32)
    requires
        (item_count as u32) as int * 28 <= u32::MAX,
    ensures
        h as int == chart_height_for(item_count, cap),
{
    let raw: u32 = (item_count as u32) * 28;
    let floored: u32 = if raw > 200 { raw } else { 200 };
    if floored < cap { floored } else { cap }
}

pub struct OverviewTemplate {
    pub active_page: String,
    pub from: String,
    pub to: String,
    pub total_pageviews: i64,
    pub unique_visitors: i64,
    pub today_pageviews: i64,
    pub today_unique_visitors: i64,
    pub top_pages: Vec<PageStats>,
    pub timeseries: Vec<TimeseriesPoint>,
}

pub struct ArticlesTemplate {
    pub active_page: String,
    pub from: String,
    pub to: String,
    pub articles: Vec<PageStats>,
    pub chart_height: u32,
}

pub struct RssTemplate {
    pub active_page: String,
    pub from: String,
    pub to: String,
    pub total_hits: i64,
    pub total_subscribers: i64,
    pub client_count: usize,
    pub by_client: Vec<RssClientStats>,
    pub timeline_dates_json: String,
    pub timeline_series_json: String,
}

pub struct BotsTemplate {
    pub active_page: String,
    pub from: String,
    pub to: String,
    pub total_hits: i64,
    pub bot_count: usize,
    pub bots: Vec<BotStats>,
    pub chart_height: u32,
}

pub struct ReferrersTemplate {
    pub active_page: String,
    pub from: String,
    pub to: String,
    pub referrers: Vec<ReferrerStats>,
    pub chart_height: u32,
}

pub struct GeoTemplate {
    pub active_page: String,
    pub from: String,
    pub to: String,
    pub countries: Vec<CountryStats>,
    pub cities: Vec<CityStats>,
    pub chart_height: u32,
}

impl OverviewTemplate {
    /// The overview page.
    pub fn new(
        period: Period,
        totals: (i64, i64),
        today_totals: (i64, i64),
        top_pages: Vec<PageStats>,
        timeseries: Vec<TimeseriesPoint>,
    ) -> (t: Self)
        ensures
            t.active_page@ == "overview"@,
            t.from == period.from,
            t.to == period.to,
            t.total_pageviews == totals.0,
            t.unique_visitors == totals.1,
            t.today_pageviews == today_totals.0,
            t.today_unique_visitors == today_totals.1,
            t.top_pages == top_pages,
            t.timeseries == timeseries,
    {
        OverviewTemplate {
            active_page: String::from_str("overview"),
            from: period.from,
            to: period.to,
            total_pageviews: totals.0,
            unique_visitors: totals.1,
            today_pageviews: today_totals.0,
            today_unique_visitors: today_totals.1,
            top_pages,
            timeseries,
        }
    }
}

impl ArticlesTemplate {
    /// The articles page: a bar per article, the chart between 200 and 800 pixels.
    pub fn new(period: Period, articles: Vec<PageStats>) -> (t: Self)
        requires
            (articles@.len() as u32) as int * 28 <= u32::MAX,
        ensures
            t.active_page@ == "articles"@,
            t.from == period.from,
            t.to == period.to,
            t.articles == articles,
            t.chart_height as int == chart_height_for(articles@.len() as usize, 800),
    {
        let chart_height = chart_height(articles.len(), 800);
        ArticlesTemplate { active_page: String::from_str("articles"), from: period.from, to: period.to, articles, chart_height }
    }
}

impl ReferrersTemplate {
    /// The referrers page: a bar per referrer, the chart between 200 and 800 pixels.
    pub fn new(period: Period, referrers: Vec<ReferrerStats>) -> (t: Self)
        requires
            (referrers@.len() as u32) as int * 28 <= u32::MAX,
        ensures
            t.active_page@ == "referrers"@,
            t.from == period.from,
            t.to == period.to,
            t.referrers == referrers,
            t.chart_height as int == chart_height_for(referrers@.len() as usize, 800),
    {
        let chart_height = chart_height(referrers.len(), 800);
        ReferrersTemplate { active_page: String::from_str("referrers"), from: period.from, to: period.to, referrers, chart_height }
    }
}

impl GeoTemplate {
    /// The geography page: the chart sized by the countries, between 200 and 600 pixels.
    pub fn new(period: Period, countries: Vec<CountryStats>, cities: Vec<CityStats>) -> (t: Self)
        requires
            (countries@.len() as u32) as int * 28 <= u32::MAX,
        ensures
            t.active_page@ == "geo"@,
            t.from == period.from,
            t.to == period.to,
            t.countries == countries,
            t.cities == cities,
            t.chart_height as int == chart_height_for(countries@.len() as usize, 600),
    {
        let chart_height = chart_height(countries.len(), 600);
        GeoTemplate { active_page: String::from_str("geo"), from: period.from, to: period.to, countries, cities, chart_height }
    }
}

impl BotsTemplate {
    /// The bots page: the bots among the user-agent groups with their hits
    /// (most first), their total and count, the chart between 200 and 600 pixels.
    pub fn new(period: Period, ua_groups: &Vec<UserAgentGroup>) -> (t: Self)
        requires
            client_sums_fit(ua_groups@, ClientType::Bot),
            bot_hit_total_fits(ua_groups@),
            client_names(ua_groups@, ClientType::Bot).len() * 28 <= u32::MAX,
        ensures
            t.active_page@ == "bots"@,
            t.from == period.from,
            t.to == period.to,
            bot_clients_of(t.bots@, ua_groups@),
            t.total_hits == kind_hits(ua_groups@, ClientType::Bot),
            t.bot_count == t.bots@.len(),
            t.bot_count == client_names(ua_groups@, ClientType::Bot).len(),
            t.chart_height as int == chart_height_for(t.bot_count, 600),
    {
        let bots = bot_clients(ua_groups);
        assert(bot_clients_of(bots@, ua_groups@));
        let total_hits = total_bot_hits(&bots);
        proof {
            lemma_bot_count(bots@, ua_groups@);
        }
        let bot_count = bots.len();
        let chart_height = chart_height(bot_count, 600);
        BotsTemplate { active_page: String::from_str("bots"), from: period.from, to: period.to, total_hits, bot_count, bots, chart_height }
    }
}

impl RssTemplate {
    /// The RSS page: the readers among the user-agent groups with their hits
    /// and unique subscribers (most hits first), the totals and the number of
    /// readers, and the chart data as JSON text.
    pub fn new(
        period: Period,
        ua_groups: &Vec<UserAgentGroup>,
        timeline_dates_json: String,
        timeline_series_json: String,
    ) -> (t: Self)
        requires
            client_sums_fit(ua_groups@, ClientType::RssReader),
            rss_hit_total_fits(ua_groups@),
            rss_subscriber_total_fits(ua_groups@),
        ensures
            t.active_page@ == "rss"@,
            t.from == period.from,
            t.to == period.to,
            rss_clients_of(t.by_client@, ua_groups@),
            t.total_hits == kind_hits(ua_groups@, ClientType::RssReader),
            t.total_subscribers == kind_uniques(ua_groups@, ClientType::RssReader),
            t.client_count == t.by_client@.len(),
            t.timeline_dates_json == timeline_dates_json,
            t.timeline_series_json == timeline_series_json,
    {
        let by_client = rss_clients(ua_groups);
        assert(rss_clients_of(by_client@, ua_groups@));
        let total_hits = total_rss_hits(&by_client);
        let total_subscribers = total_rss_subscribers(&by_client);
        let client_count = by_client.len();
        RssTemplate {
            active_page: String::from_str("rss"),
            from: period.from,
            to: period.to,
            total_hits,
            total_subscribers,
            client_count,
            by_client,
            timeline_dates_json,
            timeline_series_json,
        }
    }
}

} // verus!
