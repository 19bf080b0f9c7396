//! The feed fetcher's verified half: validating an upstream HTTP response
//! and parsing its body into the channel model. The network round-trip
//! itself lives outside the library; parsing is the `rss` crate's work
//! behind trusted declarations.

use vstd::prelude::*;

use crate::model::{Channel, ChannelView, FeedItem};
use crate::strutil::str_eq;

verus! {

/// The only upstream content type accepted.
pub const RSS_CONTENT_TYPE: &'static str = "application/rss+xml";

/// Why a fetch failed.
#[derive(Debug)]
pub enum FeedError {
    /// The upstream response status was not 200.
    UpstreamUnavailable(u16),
    /// The upstream response did not carry the syndication content type.
    InvalidContentType(String),
    /// The body was not a well-formed feed, or the channel lacked its
    /// mandatory title; carries the parser diagnostic.
    FeedParseError(String),
}

/// A successfully fetched and parsed upstream feed.
pub struct Feed {
    pub channel: Channel,
}

/// The channel that a byte sequence parses to, when it is a well-formed
/// feed document. The same bytes always parse to the same channel.
pub uninterp spec fn rss_channel_of(bytes: Seq<u8>) -> Option<ChannelView>;

/// Declares rss's `Item` type so one parsed item can pass through
/// `convert_item`; the library never looks inside a value of it.
#[verifier::external_type_specification]
#[verifier::external_body]
pub struct ExRssItem(rss::Item);

/// Relies on rss's `Item` accessors (`title`, `link`, `author`, `pub_date`,
/// `content`, `description`, `categories` and `Category::name`): copies each
/// field of one parsed item into the library's model, category names in
/// order. Its contract is part of `parse_rss`'s.
#[verifier::external_body]
fn convert_item(it: &rss::Item) -> FeedItem {
    FeedItem {
        title: it.title().map(|s| s.to_string()),
        link: it.link().map(|s| s.to_string()),
        author: it.author().map(|s| s.to_string()),
        pub_date: it.pub_date().map(|s| s.to_string()),
        content: it.content().map(|s| s.to_string()),
        description: it.description().map(|s| s.to_string()),
        categories: it.categories().iter().map(|c| c.name().to_string()).collect(),
    }
}

/// Relies on rss's `Channel::read_from` and its accessors: whether the bytes
/// parse, and to which channel, is a function of the bytes alone; on
/// success the channel's title, link, language, last-build date and items
/// are copied into the library's model, items in document order.
#[verifier::external_body]
fn parse_rss(body: &[u8]) -> (r: Result<Channel, String>)
    ensures
        r matches Ok(c) ==> rss_channel_of(body@) == Some(c.deep_view()),
        r is Err ==> rss_channel_of(body@) is None,
{
    match rss::Channel::read_from(body) {
        Ok(ch) => Ok(Channel {
            title: ch.title().to_string(),
            link: ch.link().to_string(),
            language: ch.language().map(|s| s.to_string()),
            last_build_date: ch.last_build_date().map(|s| s.to_string()),
            items: ch.items().iter().map(convert_item).collect(),
        }),
        Err(e) => Err(e.to_string()),
    }
}

/// Accepts exactly a 200 status paired with the syndication content type.
pub fn assert_valid_xml(status: u16, content_type: &str) -> (r: Result<(), FeedError>)
    ensures
        r is Ok <==> (status == 200 && content_type@ == RSS_CONTENT_TYPE@),
        status != 200 ==> (r matches Err(FeedError::UpstreamUnavailable(s)) && s == status),
        status == 200 && content_type@ != RSS_CONTENT_TYPE@ ==> (r matches Err(
            FeedError::InvalidContentType(t),
        ) && t@ == content_type@),
{
    if status != 200 {
        return Err(FeedError::UpstreamUnavailable(status));
    }
    if !str_eq(content_type, RSS_CONTENT_TYPE) {
        return Err(FeedError::InvalidContentType(content_type.to_owned()));
    }
    Ok(())
}

impl Feed {
    /// Turns one upstream HTTP response into a parsed feed: the status and
    /// content type are validated strictly before the body is looked at,
    /// and a channel without a title is rejected as malformed.
    pub fn from_response(status: u16, content_type: &str, body: &[u8]) -> (r: Result<
        Feed,
        FeedError,
    >)
        ensures
            status != 200 ==> (r matches Err(FeedError::UpstreamUnavailable(s)) && s == status),
            status == 200 && content_type@ != RSS_CONTENT_TYPE@ ==> (r matches Err(
                FeedError::InvalidContentType(t),
            ) && t@ == content_type@),
            status == 200 && content_type@ == RSS_CONTENT_TYPE@ ==> match rss_channel_of(body@) {
                Some(cv) => if cv.title.len() > 0 {
                    r matches Ok(f) && f.channel.deep_view() == cv
                } else {
                    r matches Err(e) && e is FeedParseError
                },
                None => (r matches Err(e) && e is FeedParseError),
            },
    {
        match assert_valid_xml(status, content_type) {
            Ok(u) => u,
            Err(e) => {
                return Err(e);
            },
        }
        match parse_rss(body) {
            Ok(c) => {
                if c.title.as_str().is_empty() {
                    Err(FeedError::FeedParseError(String::from_str("missing channel title")))
                } else {
                    Ok(Feed { channel: c })
                }
            },
            Err(diag) => Err(FeedError::FeedParseError(diag)),
        }
    }

    /// The parsed channel.
    pub fn borrow_channel(&self) -> (r: &Channel)
        ensures
            r.deep_view() == self.channel.deep_view(),
    {
        &self.channel
    }
}

} // verus!
