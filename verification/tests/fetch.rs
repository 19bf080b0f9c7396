use wp2l2d::decimal::{i64_to_string, u64_to_string};
use wp2l2d::hash::fnv1a_str;
use wp2l2d::healthcheck::HealthReport;
use wp2l2d::routes::ping;
use wp2l2d::wordpress::{assert_valid_xml, Feed, FeedError};

const RSS_DOC: &str = "<?xml version=\"1.0\"?>\
<rss version=\"2.0\"><channel>\
<title>Sample Feed</title>\
<link>http://example.com</link>\
<language>en-us</language>\
<lastBuildDate>Mon, 01 Jan 2024 00:00:00 GMT</lastBuildDate>\
<item><title>First</title><link>http://example.com/1</link>\
<category>News</category><description>hello</description></item>\
<item><title>Second</title><link>http://example.com/2</link>\
<category>Tech</category><category>More</category></item>\
</channel></rss>";

#[test]
fn valid_response_parses_into_channel() {
    let feed = Feed::from_response(200, "application/rss+xml", RSS_DOC.as_bytes()).unwrap();
    let ch = feed.borrow_channel();
    assert_eq!(ch.title, "Sample Feed");
    assert_eq!(ch.link, "http://example.com");
    assert_eq!(ch.language.as_deref(), Some("en-us"));
    assert_eq!(ch.last_build_date.as_deref(), Some("Mon, 01 Jan 2024 00:00:00 GMT"));
    assert_eq!(ch.items.len(), 2);
    assert_eq!(ch.items[0].title.as_deref(), Some("First"));
    assert_eq!(ch.items[0].description.as_deref(), Some("hello"));
    assert_eq!(ch.items[0].categories, vec!["News".to_string()]);
    assert_eq!(ch.items[1].categories, vec!["Tech".to_string(), "More".to_string()]);
}

#[test]
fn status_404_is_upstream_unavailable() {
    let r = Feed::from_response(404, "application/rss+xml", RSS_DOC.as_bytes());
    assert!(matches!(r, Err(FeedError::UpstreamUnavailable(404))));
}

#[test]
fn wrong_content_type_is_rejected_before_parsing() {
    let r = Feed::from_response(200, "text/html", RSS_DOC.as_bytes());
    assert!(matches!(r, Err(FeedError::InvalidContentType(_))));
    let garbage = Feed::from_response(200, "text/html", b"not even xml");
    assert!(matches!(garbage, Err(FeedError::InvalidContentType(_))));
}

#[test]
fn malformed_body_is_a_parse_error() {
    let r = Feed::from_response(200, "application/rss+xml", b"these bytes are not xml");
    assert!(matches!(r, Err(FeedError::FeedParseError(_))));
}

#[test]
fn missing_channel_title_is_a_parse_error() {
    let doc = "<?xml version=\"1.0\"?><rss version=\"2.0\"><channel>\
<link>http://example.com</link></channel></rss>";
    let r = Feed::from_response(200, "application/rss+xml", doc.as_bytes());
    assert!(matches!(r, Err(FeedError::FeedParseError(_))));
}

#[test]
fn validation_accepts_only_the_exact_pair() {
    assert!(assert_valid_xml(200, "application/rss+xml").is_ok());
    assert!(matches!(
        assert_valid_xml(503, "application/rss+xml"),
        Err(FeedError::UpstreamUnavailable(503))
    ));
    assert!(matches!(
        assert_valid_xml(200, "application/xml"),
        Err(FeedError::InvalidContentType(_))
    ));
}

#[test]
fn ping_answers_pong() {
    assert_eq!(ping(), "pong");
}

#[test]
fn health_report_records_response() {
    let mut h = HealthReport::new("http://example.com/feed".to_string());
    assert_eq!(h.response_code, 0);
    assert!(!h.health);
    h.set_response(200, "application/rss+xml");
    assert_eq!(h.response_code, 200);
    assert_eq!(h.response_type, "application/rss+xml");
    assert!(h.health);
    h.set_response(500, "text/plain");
    assert!(!h.health);
    h.set_response(399, "x");
    assert!(h.health);
    h.set_response(400, "x");
    assert!(!h.health);
}

#[test]
fn health_report_records_elapsed_millis() {
    let mut h = HealthReport::new("u".to_string());
    h.set_time_since(2, 250);
    assert_eq!(h.response_time, 2250);
    h.set_time_since(0, 0);
    assert_eq!(h.response_time, 0);
}

#[test]
fn decimal_rendering_matches_expected() {
    assert_eq!(u64_to_string(0), "0");
    assert_eq!(u64_to_string(7), "7");
    assert_eq!(u64_to_string(1704067200000), "1704067200000");
    assert_eq!(u64_to_string(u64::MAX), "18446744073709551615");
    assert_eq!(i64_to_string(0), "0");
    assert_eq!(i64_to_string(-1), "-1");
    assert_eq!(i64_to_string(-62135596800000), "-62135596800000");
}

#[test]
fn hash_is_deterministic_with_fixed_basis() {
    assert_eq!(fnv1a_str(""), 0xcbf29ce484222325);
    assert_eq!(fnv1a_str("http://a/1"), fnv1a_str("http://a/1"));
    assert_ne!(fnv1a_str("http://a/1"), fnv1a_str("http://a/2"));
}
