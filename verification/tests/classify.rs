use blog_analytics::classify::{classify, extract_browser_name, ClientType};

#[test]
fn test_rss_readers() {
    let cases = vec![
        ("Feedly/1.0 (+http://www.feedly.com/fetcher.html; like FeedFetcher-Google)", "Feedly", ClientType::RssReader),
        ("Inoreader/1.0", "Inoreader", ClientType::RssReader),
        ("NewsBlur Feed Fetcher - 42 subscribers", "NewsBlur", ClientType::RssReader),
        ("Miniflux/2.0.50", "Miniflux", ClientType::RssReader),
        ("NetNewsWire (RSS Reader; https://netnewswire.com/)", "NetNewsWire", ClientType::RssReader),
        ("Newsboat/2.30", "Newsboat", ClientType::RssReader),
        ("Reeder/5.0", "Reeder", ClientType::RssReader),
        ("Thunderbird/115.0", "Thunderbird", ClientType::RssReader),
    ];

    for (ua, expected_name, expected_type) in cases {
        let info = classify(ua);
        assert_eq!(info.client_type, expected_type, "Failed for UA: {ua}");
        assert_eq!(info.client_name, expected_name, "Failed for UA: {ua}");
    }
}

#[test]
fn test_bots() {
    let cases = vec![
        ("Mozilla/5.0 (compatible; Googlebot/2.1; +http://www.google.com/bot.html)", "Googlebot"),
        ("Mozilla/5.0 (compatible; bingbot/2.0; +http://www.bing.com/bingbot.htm)", "Bingbot"),
        ("Mozilla/5.0 AppleWebKit/537.36 (KHTML, like Gecko; compatible; GPTBot/1.0)", "GPTBot"),
        ("claudebot", "ClaudeBot"),
        ("facebookexternalhit/1.1", "Facebook"),
        ("Slackbot-LinkExpanding 1.0", "Slackbot"),
        ("AhrefsBot/7.0", "AhrefsBot"),
        ("SomeRandomCrawler/1.0", "Bot (other)"),
    ];

    for (ua, expected_name) in cases {
        let info = classify(ua);
        assert_eq!(info.client_type, ClientType::Bot, "Failed for UA: {ua}");
        assert_eq!(info.client_name, expected_name, "Failed for UA: {ua}");
    }
}

#[test]
fn test_browsers() {
    let cases = vec![
        ("Mozilla/5.0 (Windows NT 10.0; Win64; x64) AppleWebKit/537.36 (KHTML, like Gecko) Chrome/120.0.0.0 Safari/537.36", "Chrome"),
        ("Mozilla/5.0 (Macintosh; Intel Mac OS X 10.15; rv:121.0) Gecko/20100101 Firefox/121.0", "Firefox"),
        ("Mozilla/5.0 (Macintosh; Intel Mac OS X 10_15_7) AppleWebKit/605.1.15 (KHTML, like Gecko) Version/17.0 Safari/605.1.15", "Safari"),
        ("Mozilla/5.0 (Windows NT 10.0; Win64; x64) AppleWebKit/537.36 (KHTML, like Gecko) Chrome/120.0.0.0 Safari/537.36 Edg/120.0.0.0", "Edge"),
    ];

    for (ua, expected_name) in cases {
        let info = classify(ua);
        assert_eq!(info.client_type, ClientType::Browser, "Failed for UA: {ua}");
        assert_eq!(info.client_name, expected_name, "Failed for UA: {ua}");
    }
}

#[test]
fn test_generic_rss_fallback() {
    let info = classify("SomeApp/1.0 RSS");
    assert_eq!(info.client_type, ClientType::RssReader);
    assert_eq!(info.client_name, "RSS Reader (other)");
}

#[test]
fn classify_rss_wins_over_bot() {
    // "feedbot" holds both "feed" and "bot"; RSS readers are tested first.
    let info = classify("FeedBot/1.0");
    assert_eq!(info.client_type, ClientType::RssReader);
    assert_eq!(info.client_name, "Feed Reader (other)");
}

#[test]
fn classify_unknown_browser() {
    let info = classify("");
    assert_eq!(info.client_type, ClientType::Browser);
    assert_eq!(info.client_name, "Unknown");
    assert_eq!(classify("curl/8.4.0").client_name, "curl");
    assert_eq!(classify("Wget/1.21").client_name, "wget");
}

#[test]
fn classify_is_case_insensitive() {
    assert_eq!(classify("GOOGLEBOT").client_name, "Googlebot");
    assert_eq!(classify("Mozilla OPR/100").client_name, "Opera");
}

#[test]
fn extract_browser_name_expects_lowercase() {
    assert_eq!(extract_browser_name("vivaldi/6.0"), "Vivaldi");
    assert_eq!(extract_browser_name("VIVALDI/6.0"), "Unknown");
    assert_eq!(extract_browser_name("brave chromium"), "Brave");
}
