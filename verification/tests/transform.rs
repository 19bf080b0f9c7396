use wp2l2d::config::Config;
use wp2l2d::linetoday::{from, LineToday};
use wp2l2d::model::{Channel, FeedItem};
use wp2l2d::wordpress::Feed;

fn item(
    title: Option<&str>,
    link: Option<&str>,
    pub_date: Option<&str>,
    categories: Vec<&str>,
    content: Option<&str>,
    description: Option<&str>,
) -> FeedItem {
    FeedItem {
        title: title.map(|s| s.to_string()),
        link: link.map(|s| s.to_string()),
        author: None,
        pub_date: pub_date.map(|s| s.to_string()),
        content: content.map(|s| s.to_string()),
        description: description.map(|s| s.to_string()),
        categories: categories.into_iter().map(|s| s.to_string()).collect(),
    }
}

fn channel(title: &str, last_build_date: Option<&str>, items: Vec<FeedItem>) -> Channel {
    Channel {
        title: title.to_string(),
        link: "http://example.com".to_string(),
        language: None,
        last_build_date: last_build_date.map(|s| s.to_string()),
        items,
    }
}

fn config() -> Config {
    Config {
        host: "127.0.0.1".to_string(),
        port: "8080".to_string(),
        cert_file: None,
        key_file: None,
        wp_feed_url: "http://example.com/feed".to_string(),
        line_native_country: "TW".to_string(),
        line_pub_to_country: None,
        line_excl_from_country: None,
        line_lang: None,
        publish_duration_in_weeks: None,
    }
}

fn transformer(ch: Channel, cfg: Config) -> LineToday {
    from(Feed { channel: ch }, cfg)
}

fn output(ch: Channel, cfg: Config, now_secs: i64) -> String {
    let lt = transformer(ch, cfg);
    String::from_utf8(lt.transform_at(now_secs).unwrap()).unwrap()
}

fn count_occurrences(haystack: &str, needle: &str) -> usize {
    let mut n = 0;
    let mut at = 0;
    while let Some(p) = haystack[at..].find(needle) {
        n += 1;
        at += p + needle.len();
    }
    n
}

#[test]
fn article_count_matches_item_count() {
    let items = vec![
        item(Some("one"), Some("http://a/1"), None, vec!["X"], None, None),
        item(Some("two"), Some("http://a/2"), None, vec!["Y"], None, None),
        item(Some("three"), Some("http://a/3"), None, vec!["Z"], None, None),
    ];
    let xml = output(channel("T", None, items), config(), 0);
    assert_eq!(count_occurrences(&xml, "<article>"), 3);
    assert_eq!(count_occurrences(&xml, "</article>"), 3);
}

#[test]
fn articles_keep_channel_order() {
    let items = vec![
        item(Some("first title"), Some("http://a/1"), None, vec!["X"], None, None),
        item(Some("second title"), Some("http://a/2"), None, vec!["X"], None, None),
    ];
    let xml = output(channel("T", None, items), config(), 0);
    let p1 = xml.find("<title>first title</title>").unwrap();
    let p2 = xml.find("<title>second title</title>").unwrap();
    assert!(p1 < p2);
}

#[test]
fn empty_channel_has_no_articles() {
    let xml = output(channel("T", None, vec![]), config(), 0);
    assert_eq!(count_occurrences(&xml, "<article>"), 0);
    assert!(xml.contains("<articles>"));
    assert!(xml.contains("</articles>"));
}

#[test]
fn item_without_category_is_skipped() {
    let items = vec![
        item(Some("ok"), Some("http://a/1"), None, vec!["X"], None, None),
        item(Some("bad"), Some("http://a/2"), None, vec![], None, None),
    ];
    let xml = output(channel("T", None, items), config(), 0);
    assert_eq!(count_occurrences(&xml, "<article>"), 1);
    assert!(!xml.contains("<title>bad</title>"));
}

#[test]
fn missing_category_count_matches_skipped_articles() {
    let items = vec![
        item(Some("ok"), Some("http://a/1"), None, vec!["X"], None, None),
        item(Some("bad1"), Some("http://a/2"), None, vec![], None, None),
        item(Some("bad2"), Some("http://a/3"), None, vec![], None, None),
    ];
    let ch = channel("T", None, items);
    assert_eq!(ch.count_missing_category(), 2);
    let xml = output(ch, config(), 0);
    assert_eq!(count_occurrences(&xml, "<article>"), 1);

    let all_good = channel("T", None, vec![
        item(None, Some("http://a/1"), None, vec!["C"], None, None),
    ]);
    assert_eq!(all_good.count_missing_category(), 0);
}

#[test]
fn uuid_is_sanitized_and_truncated() {
    let lt = transformer(
        channel("Acme News", Some("Mon, 01 Jan 2024 00:00:00 GMT"), vec![]),
        config(),
    );
    assert_eq!(lt.uuid(), "AcmeNewsMon01Jan2024000000GMT");

    let lt2 = transformer(
        channel("A very, very long channel title indeed!", Some("Mon, 01 Jan 2024 00:00:00 GMT"), vec![]),
        config(),
    );
    let u = lt2.uuid();
    assert_eq!(u.len(), 30);
    assert!(u.chars().all(|c| c.is_ascii_alphanumeric()));
    assert_eq!(u, "Averyverylongchanneltitleindee");
}

#[test]
fn uuid_is_idempotent() {
    let a = transformer(channel("Same", Some("Mon, 01 Jan 2024 00:00:00 GMT"), vec![]), config());
    let b = transformer(channel("Same", Some("Mon, 01 Jan 2024 00:00:00 GMT"), vec![]), config());
    assert_eq!(a.uuid(), b.uuid());
}

#[test]
fn item_id_is_stable_for_same_link() {
    let a = transformer(
        channel("one channel", None, vec![item(None, Some("http://a/x"), None, vec!["C"], None, None)]),
        config(),
    );
    let b = transformer(
        channel("another channel", None, vec![
            item(None, Some("http://other"), None, vec!["C"], None, None),
            item(None, Some("http://a/x"), None, vec!["C"], None, None),
        ]),
        config(),
    );
    assert_eq!(a.id_for(0), b.id_for(1));
}

#[test]
fn item_ids_differ_for_distinct_links() {
    let lt = transformer(
        channel("T", None, vec![
            item(None, Some("http://a/1"), None, vec!["C"], None, None),
            item(None, Some("http://a/2"), None, vec!["C"], None, None),
        ]),
        config(),
    );
    assert_ne!(lt.id_for(0), lt.id_for(1));
}

#[test]
fn item_id_without_link_uses_index_and_title() {
    let a = transformer(
        channel("T", None, vec![item(None, None, None, vec!["C"], None, None)]),
        config(),
    );
    let b = transformer(
        channel("T", None, vec![item(Some("different item"), None, None, vec!["C"], None, None)]),
        config(),
    );
    assert_eq!(a.id_for(0), b.id_for(0));
}

#[test]
fn publish_window_is_exactly_the_configured_weeks() {
    for (weeks, expect) in [
        (Some(2u8), 2i64),
        (None, 144),
        (Some(255), 255),
        (Some(0), 0),
    ] {
        let mut cfg = config();
        cfg.publish_duration_in_weeks = weeks;
        let lt = transformer(
            channel("T", None, vec![
                item(None, Some("http://a/1"), Some("Mon, 01 Jan 2024 00:00:00 GMT"), vec!["C"], None, None),
            ]),
            cfg,
        );
        let start = lt.start_millis_for(0, 0);
        let end = lt.end_millis_for(0, 0);
        assert_eq!(end - start, expect * 7 * 86400 * 1000);
    }
}

#[test]
fn unset_publish_country_emits_no_element() {
    let xml = output(
        channel("T", None, vec![item(None, Some("http://a/1"), None, vec!["C"], None, None)]),
        config(),
        0,
    );
    assert!(!xml.contains("publishCountries"));
    assert!(!xml.contains("excludedCountries"));
}

#[test]
fn publish_country_list_splits_in_order() {
    let mut cfg = config();
    cfg.line_pub_to_country = Some("US,JP".to_string());
    let xml = output(
        channel("T", None, vec![item(None, Some("http://a/1"), None, vec!["C"], None, None)]),
        cfg,
        0,
    );
    assert_eq!(count_occurrences(&xml, "<publishCountries>"), 1);
    assert_eq!(count_occurrences(&xml, "<country>"), 2);
    let us = xml.find("<country>US</country>").unwrap();
    let jp = xml.find("<country>JP</country>").unwrap();
    assert!(us < jp);
}

#[test]
fn empty_publish_country_still_emits_element() {
    let mut cfg = config();
    cfg.line_pub_to_country = Some("".to_string());
    let xml = output(
        channel("T", None, vec![item(None, Some("http://a/1"), None, vec!["C"], None, None)]),
        cfg,
        0,
    );
    assert_eq!(count_occurrences(&xml, "<publishCountries>"), 1);
    assert_eq!(count_occurrences(&xml, "<country>"), 1);
}

#[test]
fn exclude_country_list_is_emitted_when_set() {
    let mut cfg = config();
    cfg.line_excl_from_country = Some("KR,CN,HK".to_string());
    let xml = output(
        channel("T", None, vec![item(None, Some("http://a/1"), None, vec!["C"], None, None)]),
        cfg,
        0,
    );
    assert_eq!(count_occurrences(&xml, "<excludedCountries>"), 1);
    assert_eq!(count_occurrences(&xml, "<country>"), 3);
}

#[test]
fn scenario_acme_news() {
    let mut cfg = config();
    cfg.publish_duration_in_weeks = Some(2);
    let items = vec![item(
        None,
        Some("http://a/1"),
        Some("Mon, 01 Jan 2024 00:00:00 GMT"),
        vec!["Tech"],
        Some("<p>hi</p>"),
        None,
    )];
    let xml = output(
        channel("Acme News", Some("Mon, 01 Jan 2024 00:00:00 GMT"), items),
        cfg,
        0,
    );
    assert_eq!(count_occurrences(&xml, "<article>"), 1);
    assert!(xml.contains("<startYmdtUnix>1704067200000</startYmdtUnix>"));
    assert!(xml.contains("<endYmdtUnix>1705276800000</endYmdtUnix>"));
    assert!(xml.contains("<category>Tech</category>"));
    assert!(xml.contains("<content><![CDATA[<p>hi</p>]]></content>"));
    assert!(xml.contains("<time>1704067200000</time>"));
    assert!(xml.contains("<nativeCountry>TW</nativeCountry>"));
}

#[test]
fn document_starts_with_xml_declaration() {
    let xml = output(channel("T", None, vec![]), config(), 0);
    assert!(xml.starts_with("<?xml version=\"1.0\" encoding=\"UTF-8\"?>"));
}

#[test]
fn text_content_is_escaped() {
    let items = vec![item(Some("a & b <c>"), Some("http://a/1"), None, vec!["C"], None, None)];
    let xml = output(channel("T", None, items), config(), 0);
    assert!(xml.contains("<title>a &amp; b &lt;c&gt;</title>"));
}

#[test]
fn language_defaults_and_overrides() {
    let mut ch = channel("T", None, vec![item(None, Some("http://a/1"), None, vec!["C"], None, None)]);
    ch.language = Some("fr-FR".to_string());
    let xml = output(ch, config(), 0);
    assert!(xml.contains("<language>fr</language>"));

    let xml2 = output(
        channel("T", None, vec![item(None, Some("http://a/1"), None, vec!["C"], None, None)]),
        config(),
        0,
    );
    assert!(xml2.contains("<language>en</language>"));

    let mut cfg = config();
    cfg.line_lang = Some("ja".to_string());
    let mut ch3 = channel("T", None, vec![item(None, Some("http://a/1"), None, vec!["C"], None, None)]);
    ch3.language = Some("fr-FR".to_string());
    let xml3 = output(ch3, cfg, 0);
    assert!(xml3.contains("<language>ja</language>"));
}

#[test]
fn fallbacks_use_channel_values() {
    let items = vec![item(None, None, None, vec!["C"], None, None)];
    let mut ch = channel("Fallback Title", None, items);
    ch.link = "http://chan/link".to_string();
    let xml = output(ch, config(), 0);
    assert!(xml.contains("<title>Fallback Title</title>"));
    assert!(xml.contains("<author>Fallback Title</author>"));
    assert!(xml.contains("<sourceUrl>http://chan/link</sourceUrl>"));
    assert!(xml.contains("<content><![CDATA[(No Content)]]></content>"));
}

#[test]
fn description_is_content_fallback() {
    let items = vec![item(None, Some("http://a/1"), None, vec!["C"], None, Some("desc here"))];
    let xml = output(channel("T", None, items), config(), 0);
    assert!(xml.contains("<content><![CDATA[desc here]]></content>"));
}

#[test]
fn missing_dates_fall_back_to_given_second() {
    let items = vec![item(None, Some("http://a/1"), None, vec!["C"], None, None)];
    let lt = transformer(channel("T", None, items), config());
    assert_eq!(lt.start_millis_for(0, 12345), 12345000);
    let xml = output(
        channel("T", None, vec![item(None, Some("http://a/1"), None, vec!["C"], None, None)]),
        config(),
        12345,
    );
    assert!(xml.contains("<time>12345000</time>"));
    assert!(xml.contains("<publishTimeUnix>12345000</publishTimeUnix>"));
}

#[test]
fn content_type_is_constant_zero() {
    let items = vec![item(None, Some("http://a/1"), None, vec!["C"], None, None)];
    let xml = output(channel("T", None, items), config(), 0);
    assert!(xml.contains("<contentType>0</contentType>"));
    assert!(xml.contains("<contents>"));
    assert!(xml.contains("<text>"));
}
