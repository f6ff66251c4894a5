//! User-agent classification: RSS reader, bot or browser.
use vstd::prelude::*;
use vstd::string::StringExecFns;

use crate::text::{contains_chars, contains_seq, chars_of, lower_chars, lower_seq};

verus! {

/// The kind of client that sent a request.
#[derive(Debug, Clone, Copy, PartialEq, Eq, Structural)]
pub enum ClientType {
    Browser,
    RssReader,
    Bot,
    Unknown,
}

/// What a user agent was classified as, with the client's display name.
#[derive(Debug, Clone)]
pub struct ClientInfo {
    pub client_type: ClientType,
    pub client_name: String,
}

/// The RSS readers that are recognised, as (lowercase pattern, display name);
/// the generic fallbacks come last.
pub open spec fn rss_reader_table() -> Seq<(Seq<char>, Seq<char>)> {
    seq![
        ("feedly"@, "Feedly"@),
        ("inoreader"@, "Inoreader"@),
        ("newsblur"@, "NewsBlur"@),
        ("miniflux"@, "Miniflux"@),
        ("netnewswire"@, "NetNewsWire"@),
        ("freshreader"@, "FreshReader"@),
        ("theoldreader"@, "The Old Reader"@),
        ("bazqux"@, "BazQux"@),
        ("feedbin"@, "Feedbin"@),
        ("tiny tiny rss"@, "Tiny Tiny RSS"@),
        ("liferea"@, "Liferea"@),
        ("newsboat"@, "Newsboat"@),
        ("reeder"@, "Reeder"@),
        ("readkit"@, "ReadKit"@),
        ("feedreader"@, "FeedReader"@),
        ("rssowl"@, "RSSOwl"@),
        ("akregator"@, "Akregator"@),
        ("yarr"@, "Yarr"@),
        ("thunderbird"@, "Thunderbird"@),
        ("rss"@, "RSS Reader (other)"@),
        ("feed"@, "Feed Reader (other)"@),
        ("atom"@, "Feed Reader (other)"@),
    ]
}

/// The bots that are recognised, as (lowercase pattern, display name); the
/// generic fallbacks come last.
pub open spec fn bot_table() -> Seq<(Seq<char>, Seq<char>)> {
    seq![
        ("googlebot"@, "Googlebot"@),
        ("bingbot"@, "Bingbot"@),
        ("yandexbot"@, "YandexBot"@),
        ("baiduspider"@, "Baiduspider"@),
        ("duckduckbot"@, "DuckDuckBot"@),
        ("gptbot"@, "GPTBot"@),
        ("chatgpt-user"@, "ChatGPT-User"@),
        ("claudebot"@, "ClaudeBot"@),
        ("anthropic-ai"@, "Anthropic AI"@),
        ("ccbot"@, "CCBot"@),
        ("facebookexternalhit"@, "Facebook"@),
        ("twitterbot"@, "Twitter"@),
        ("linkedinbot"@, "LinkedIn"@),
        ("slackbot"@, "Slackbot"@),
        ("telegrambot"@, "TelegramBot"@),
        ("discordbot"@, "DiscordBot"@),
        ("applebot"@, "Applebot"@),
        ("semrushbot"@, "SemrushBot"@),
        ("ahrefsbot"@, "AhrefsBot"@),
        ("mj12bot"@, "Majestic"@),
        ("dotbot"@, "DotBot"@),
        ("petalbot"@, "PetalBot"@),
        ("bytespider"@, "ByteSpider"@),
        ("amazonbot"@, "Amazonbot"@),
        ("seznam"@, "SeznamBot"@),
        ("ia_archiver"@, "Alexa"@),
        ("archive.org_bot"@, "Internet Archive"@),
        ("bot"@, "Bot (other)"@),
        ("spider"@, "Bot (other)"@),
        ("crawler"@, "Bot (other)"@),
        ("scraper"@, "Bot (other)"@),
    ]
}

/// The name paired with the first pattern of `table`, from position `i` on,
/// that occurs in `text`.
pub open spec fn first_match_from(table: Seq<(Seq<char>, Seq<char>)>, text: Seq<char>, i: int) -> Option<Seq<char>>
    decreases table.len() - i,
{
    if i < 0 || i >= table.len() {
        None
    } else if contains_seq(text, table[i].0) {
        Some(table[i].1)
    } else {
        first_match_from(table, text, i + 1)
    }
}

/// The name paired with the first pattern of `table` that occurs in `text`.
pub open spec fn first_match(table: Seq<(Seq<char>, Seq<char>)>, text: Seq<char>) -> Option<Seq<char>> {
    first_match_from(table, text, 0)
}

/// The browser name read off a lowercased user agent; more specific names are
/// tested before the generic ones.
pub open spec fn browser_name(ua: Seq<char>) -> Seq<char> {
    if contains_seq(ua, "edg/"@) || contains_seq(ua, "edge/"@) {
        "Edge"@
    } else if contains_seq(ua, "opr/"@) || contains_seq(ua, "opera"@) {
        "Opera"@
    } else if contains_seq(ua, "vivaldi"@) {
        "Vivaldi"@
    } else if contains_seq(ua, "brave"@) {
        "Brave"@
    } else if contains_seq(ua, "firefox"@) {
        "Firefox"@
    } else if contains_seq(ua, "chrome"@) || contains_seq(ua, "chromium"@) {
        "Chrome"@
    } else if contains_seq(ua, "safari"@) {
        "Safari"@
    } else if contains_seq(ua, "curl"@) {
        "curl"@
    } else if contains_seq(ua, "wget"@) {
        "wget"@
    } else {
        "Unknown"@
    }
}

/// The classification of a user agent: the first RSS reader whose pattern
/// occurs in the lowercased text, else the first bot, else a browser named
/// from the text.
pub open spec fn classification(ua: Seq<char>) -> (ClientType, Seq<char>) {
    let lower = lower_seq(ua);
    match first_match(rss_reader_table(), lower) {
        Some(name) => (ClientType::RssReader, name),
        None => match first_match(bot_table(), lower) {
            Some(name) => (ClientType::Bot, name),
            None => (ClientType::Browser, browser_name(lower)),
        },
    }
}

/// The view of a table of (pattern, name) pairs.
pub open spec fn table_view(t: Seq<(&str, &str)>) -> Seq<(Seq<char>, Seq<char>)> {
    t.map_values(|p: (&str, &str)| (p.0@, p.1@))
}

fn rss_readers() -> (t: Vec<(&'static str, &'static str)>)
    ensures
        table_view(t@) == rss_reader_table(),
{
    let t = vec![
        ("feedly", "Feedly"),
        ("inoreader", "Inoreader"),
        ("newsblur", "NewsBlur"),
        ("miniflux", "Miniflux"),
        ("netnewswire", "NetNewsWire"),
        ("freshreader", "FreshReader"),
        ("theoldreader", "The Old Reader"),
        ("bazqux", "BazQux"),
        ("feedbin", "Feedbin"),
        ("tiny tiny rss", "Tiny Tiny RSS"),
        ("liferea", "Liferea"),
        ("newsboat", "Newsboat"),
        ("reeder", "Reeder"),
        ("readkit", "ReadKit"),
        ("feedreader", "FeedReader"),
        ("rssowl", "RSSOwl"),
        ("akregator", "Akregator"),
        ("yarr", "Yarr"),
        ("thunderbird", "Thunderbird"),
        ("rss", "RSS Reader (other)"),
        ("feed", "Feed Reader (other)"),
        ("atom", "Feed Reader (other)"),
    ];
    assert(table_view(t@) =~= rss_reader_table());
    t
}

} // verus!

verus! {

fn bots() -> (t: Vec<(&'static str, &'static str)>)
    ensures
        table_view(t@) == bot_table(),
{
    let t = vec![
        ("googlebot", "Googlebot"),
        ("bingbot", "Bingbot"),
        ("yandexbot", "YandexBot"),
        ("baiduspider", "Baiduspider"),
        ("duckduckbot", "DuckDuckBot"),
        ("gptbot", "GPTBot"),
        ("chatgpt-user", "ChatGPT-User"),
        ("claudebot", "ClaudeBot"),
        ("anthropic-ai", "Anthropic AI"),
        ("ccbot", "CCBot"),
        ("facebookexternalhit", "Facebook"),
        ("twitterbot", "Twitter"),
        ("linkedinbot", "LinkedIn"),
        ("slackbot", "Slackbot"),
        ("telegrambot", "TelegramBot"),
        ("discordbot", "DiscordBot"),
        ("applebot", "Applebot"),
        ("semrushbot", "SemrushBot"),
        ("ahrefsbot", "AhrefsBot"),
        ("mj12bot", "Majestic"),
        ("dotbot", "DotBot"),
        ("petalbot", "PetalBot"),
        ("bytespider", "ByteSpider"),
        ("amazonbot", "Amazonbot"),
        ("seznam", "SeznamBot"),
        ("ia_archiver", "Alexa"),
        ("archive.org_bot", "Internet Archive"),
        ("bot", "Bot (other)"),
        ("spider", "Bot (other)"),
        ("crawler", "Bot (other)"),
        ("scraper", "Bot (other)"),
    ];
    assert(table_view(t@) =~= bot_table());
    t
}

/// The name of the first row of `table` whose pattern occurs in `text`.
fn find_first(table: &Vec<(&'static str, &'static str)>, text: &Vec<char>) -> (r: Option<&'static str>)
    ensures
        match r {
            Some(name) => first_match(table_view(table@), text@) == Some(name@),
            None => first_match(table_view(table@), text@) is None,
        },
{
    let ghost tv = table_view(table@);
    let n = table.len();
    for i in 0..n
        invariant
            n == table@.len(),
            tv == table_view(table@),
            first_match_from(tv, text@, 0) == first_match_from(tv, text@, i as int),
    {
        let row = table[i];
        let pat = chars_of(row.0);
        if contains_chars(text, &pat) {
            assert(tv[i as int] == (row.0@, row.1@));
            return Some(row.1);
        }
        assert(tv[i as int] == (row.0@, row.1@));
    }
    None
}

fn has(text: &Vec<char>, pat: &str) -> (b: bool)
    ensures
        b == contains_seq(text@, pat@),
{
    let p = chars_of(pat);
    contains_chars(text, &p)
}

fn browser_name_of(ua: &Vec<char>) -> (name: String)
    ensures
        name@ == browser_name(ua@),
{
    if has(ua, "edg/") || has(ua, "edge/") {
        String::from_str("Edge")
    } else if has(ua, "opr/") || has(ua, "opera") {
        String::from_str("Opera")
    } else if has(ua, "vivaldi") {
        String::from_str("Vivaldi")
    } else if has(ua, "brave") {
        String::from_str("Brave")
    } else if has(ua, "firefox") {
        String::from_str("Firefox")
    } else if has(ua, "chrome") || has(ua, "chromium") {
        String::from_str("Chrome")
    } else if has(ua, "safari") {
        String::from_str("Safari")
    } else if has(ua, "curl") {
        String::from_str("curl")
    } else if has(ua, "wget") {
        String::from_str("wget")
    } else {
        String::from_str("Unknown")
    }
}

/// The browser named in an already lowercased user agent.
pub fn extract_browser_name(ua_lower: &str) -> (name: String)
    ensures
        name@ == browser_name(ua_lower@),
{
    let ua = chars_of(ua_lower);
    browser_name_of(&ua)
}

/// Classifies a user agent: RSS readers first, then bots, and a browser
/// otherwise; patterns are matched against the ASCII-lowercased text.
pub fn classify(user_agent: &str) -> (info: ClientInfo)
    ensures
        (info.client_type, info.client_name@) == classification(user_agent@),
{
    let lower = lower_chars(user_agent);
    let readers = rss_readers();
    match find_first(&readers, &lower) {
        Some(name) => {
            return ClientInfo { client_type: ClientType::RssReader, client_name: String::from_str(name) };
        }
        None => {}
    }
    let bot_rows = bots();
    match find_first(&bot_rows, &lower) {
        Some(name) => {
            return ClientInfo { client_type: ClientType::Bot, client_name: String::from_str(name) };
        }
        None => {}
    }
    ClientInfo { client_type: ClientType::Browser, client_name: browser_name_of(&lower) }
}

/// The browser is named by the first of these groups of markers that occurs
/// in the lowercased user agent, in this order: Edge (`edg/`, `edge/`), Opera
/// (`opr/`, `opera`), Vivaldi, Brave, Firefox, Chrome (`chrome`, `chromium`),
/// Safari, curl, wget; with none of them the name is `Unknown`. A user agent
/// that names Chrome and Safari besides its own browser (as those of Edge,
/// Opera and Vivaldi do) gets its own browser's name.
pub proof fn lemma_browser_precedence(ua: Seq<char>)
    ensures
        contains_seq(ua, "edg/"@) || contains_seq(ua, "edge/"@) ==> browser_name(ua) == "Edge"@,
        !contains_seq(ua, "edg/"@) && !contains_seq(ua, "edge/"@)
            && (contains_seq(ua, "opr/"@) || contains_seq(ua, "opera"@)) ==> browser_name(ua) == "Opera"@,
        !contains_seq(ua, "edg/"@) && !contains_seq(ua, "edge/"@) && !contains_seq(ua, "opr/"@)
            && !contains_seq(ua, "opera"@) && contains_seq(ua, "vivaldi"@) ==> browser_name(ua) == "Vivaldi"@,
        !contains_seq(ua, "edg/"@) && !contains_seq(ua, "edge/"@) && !contains_seq(ua, "opr/"@)
            && !contains_seq(ua, "opera"@) && !contains_seq(ua, "vivaldi"@) && contains_seq(ua, "brave"@)
            ==> browser_name(ua) == "Brave"@,
        !contains_seq(ua, "edg/"@) && !contains_seq(ua, "edge/"@) && !contains_seq(ua, "opr/"@)
            && !contains_seq(ua, "opera"@) && !contains_seq(ua, "vivaldi"@) && !contains_seq(ua, "brave"@)
            && contains_seq(ua, "firefox"@) ==> browser_name(ua) == "Firefox"@,
        !contains_seq(ua, "edg/"@) && !contains_seq(ua, "edge/"@) && !contains_seq(ua, "opr/"@)
            && !contains_seq(ua, "opera"@) && !contains_seq(ua, "vivaldi"@) && !contains_seq(ua, "brave"@)
            && !contains_seq(ua, "firefox"@) && (contains_seq(ua, "chrome"@) || contains_seq(ua, "chromium"@))
            ==> browser_name(ua) == "Chrome"@,
        !contains_seq(ua, "edg/"@) && !contains_seq(ua, "edge/"@) && !contains_seq(ua, "opr/"@)
            && !contains_seq(ua, "opera"@) && !contains_seq(ua, "vivaldi"@) && !contains_seq(ua, "brave"@)
            && !contains_seq(ua, "firefox"@) && !contains_seq(ua, "chrome"@) && !contains_seq(ua, "chromium"@)
            && contains_seq(ua, "safari"@) ==> browser_name(ua) == "Safari"@,
        !contains_seq(ua, "edg/"@) && !contains_seq(ua, "edge/"@) && !contains_seq(ua, "opr/"@)
            && !contains_seq(ua, "opera"@) && !contains_seq(ua, "vivaldi"@) && !contains_seq(ua, "brave"@)
            && !contains_seq(ua, "firefox"@) && !contains_seq(ua, "chrome"@) && !contains_seq(ua, "chromium"@)
            && !contains_seq(ua, "safari"@) && contains_seq(ua, "curl"@) ==> browser_name(ua) == "curl"@,
        !contains_seq(ua, "edg/"@) && !contains_seq(ua, "edge/"@) && !contains_seq(ua, "opr/"@)
            && !contains_seq(ua, "opera"@) && !contains_seq(ua, "vivaldi"@) && !contains_seq(ua, "brave"@)
            && !contains_seq(ua, "firefox"@) && !contains_seq(ua, "chrome"@) && !contains_seq(ua, "chromium"@)
            && !contains_seq(ua, "safari"@) && !contains_seq(ua, "curl"@) && contains_seq(ua, "wget"@)
            ==> browser_name(ua) == "wget"@,
        !contains_seq(ua, "edg/"@) && !contains_seq(ua, "edge/"@) && !contains_seq(ua, "opr/"@)
            && !contains_seq(ua, "opera"@) && !contains_seq(ua, "vivaldi"@) && !contains_seq(ua, "brave"@)
            && !contains_seq(ua, "firefox"@) && !contains_seq(ua, "chrome"@) && !contains_seq(ua, "chromium"@)
            && !contains_seq(ua, "safari"@) && !contains_seq(ua, "curl"@) && !contains_seq(ua, "wget"@)
            ==> browser_name(ua) == "Unknown"@,
{
}

/// Classification ignores ASCII case: texts that lowercase alike classify
/// alike, and lowercasing a user agent first changes nothing.
pub proof fn lemma_classification_ignores_case(a: Seq<char>, b: Seq<char>)
    ensures
        lower_seq(a) == lower_seq(b) ==> classification(a) == classification(b),
        classification(lower_seq(a)) == classification(a),
{
    assert(lower_seq(lower_seq(a)) =~= lower_seq(a));
}

/// RSS readers are recognised before bots, and every user agent gets a kind:
/// a reader where a reader pattern occurs, else a bot where a bot pattern
/// occurs, else a browser; never `Unknown`.
pub proof fn lemma_classification_kinds(ua: Seq<char>)
    ensures
        first_match(rss_reader_table(), lower_seq(ua)) is Some ==> classification(ua).0 == ClientType::RssReader,
        first_match(rss_reader_table(), lower_seq(ua)) is None && first_match(bot_table(), lower_seq(ua)) is Some
            ==> classification(ua).0 == ClientType::Bot,
        first_match(rss_reader_table(), lower_seq(ua)) is None && first_match(bot_table(), lower_seq(ua)) is None
            ==> classification(ua).0 == ClientType::Browser,
        classification(ua).0 != ClientType::Unknown,
{
}

} // verus!
