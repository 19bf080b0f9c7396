//! The feed transformer: maps a parsed channel plus configuration onto the
//! provider's article-feed XML document. Every derived value — document
//! identifier, per-article identifier, publish window, resolved language and
//! country lists, fallback fields — is specified here, and the emitted
//! document is specified as an event sequence over those values.
//!
//! An item with no category is a malformed-feed condition; the transformer
//! skips such an item rather than failing the whole document, a deliberate
//! policy choice where the data violates the feed invariant.

use vstd::prelude::*;

use crate::config::{Config, ConfigView};
use crate::dates::{date_millis, now_unix_seconds, resolve_date_seconds, MAX_EPOCH_SECONDS};
use crate::decimal::{dec_int, dec_nat, i64_to_string, u64_to_string};
use crate::emit::{
    cdata_tag_events, emit_cdata_tag, emit_text_tag, rendered, text_tag_events, writer_events,
    EmitError, XmlEvent, XmlWriter,
};
use crate::hash::{fnv1a, fnv1a_str};
use crate::model::{uncategorized_count, ChannelView, FeedItemView};
use crate::text::{
    is_alnum, prefix_of, sanitize, sanitize_prefix, split_commas, split_commas_exec,
    two_char_prefix,
};
use crate::wordpress::Feed;

verus! {

/// How long an article stays published when the configuration does not say:
/// 144 weeks, around three years.
pub const DEFAULT_PUBLISH_WEEKS: u8 = 144;

/// An optional character sequence, or empty when absent.
pub open spec fn opt_or_empty(s: Option<Seq<char>>) -> Seq<char> {
    match s {
        Some(t) => t,
        None => Seq::<char>::empty(),
    }
}

/// The document identifier: channel title and last-build date concatenated,
/// stripped to ASCII letters and digits, truncated to 30 characters.
pub open spec fn uuid_of(ch: ChannelView) -> Seq<char> {
    prefix_of(sanitize(ch.title + opt_or_empty(ch.last_build_date)), 30)
}

/// The document timestamp in unix millis: the channel's last-build date,
/// falling back to the given second.
pub open spec fn doc_time_millis(ch: ChannelView, now_secs: int) -> int {
    date_millis(ch.last_build_date, now_secs)
}

/// The stable per-article identifier: the hash of the item's link when it
/// has one, else of the item's index (in decimal) followed by the channel
/// title.
pub open spec fn item_id(ch: ChannelView, idx: int) -> u64 {
    match ch.items[idx].link {
        Some(l) => fnv1a(l),
        None => fnv1a(dec_nat(idx as nat) + ch.title),
    }
}

/// The resolved language: the configured override when set, else the first
/// two characters of the channel language, else `en`.
pub open spec fn language_of(ch: ChannelView, cfg: ConfigView) -> Seq<char> {
    match cfg.line_lang {
        Some(l) => l,
        None => match ch.language {
            Some(cl) => prefix_of(cl, 2),
            None => "en"@,
        },
    }
}

/// The configured publish duration in weeks, defaulted.
pub open spec fn weeks_of(cfg: ConfigView) -> int {
    match cfg.publish_duration_in_weeks {
        Some(w) => w as int,
        None => DEFAULT_PUBLISH_WEEKS as int,
    }
}

/// When an article's publication starts, in unix millis: the item's publish
/// date, falling back to the given second.
pub open spec fn start_millis(it: FeedItemView, now_secs: int) -> int {
    date_millis(it.pub_date, now_secs)
}

/// When an article's publication ends, in unix millis: exactly the
/// configured number of weeks after it starts.
pub open spec fn end_millis_of(it: FeedItemView, cfg: ConfigView, now_secs: int) -> int {
    start_millis(it, now_secs) + weeks_of(cfg) * 604800000
}

/// An article's title: the item's, falling back to the channel title.
pub open spec fn title_of(ch: ChannelView, it: FeedItemView) -> Seq<char> {
    match it.title {
        Some(t) => t,
        None => ch.title,
    }
}

/// An article's author: the item's, falling back to the channel title.
pub open spec fn author_of(ch: ChannelView, it: FeedItemView) -> Seq<char> {
    match it.author {
        Some(a) => a,
        None => ch.title,
    }
}

/// An article's source URL: the item's link, falling back to the channel
/// link.
pub open spec fn source_of(ch: ChannelView, it: FeedItemView) -> Seq<char> {
    match it.link {
        Some(l) => l,
        None => ch.link,
    }
}

/// An article's body: the item content, else its description, else a fixed
/// placeholder.
pub open spec fn content_of(it: FeedItemView) -> Seq<char> {
    match it.content {
        Some(c) => c,
        None => match it.description {
            Some(d) => d,
            None => "(No Content)"@,
        },
    }
}

/// One `country` element per token, in order.
pub open spec fn country_events(tokens: Seq<Seq<char>>) -> Seq<XmlEvent>
    decreases tokens.len(),
{
    if tokens.len() == 0 {
        Seq::<XmlEvent>::empty()
    } else {
        text_tag_events("country"@, tokens[0]) + country_events(tokens.drop_first())
    }
}

/// The optional country-list element: absent config gives no events at all;
/// a present config, even an empty string, gives the wrapping element with
/// one `country` child per comma-separated token, empty tokens kept.
pub open spec fn country_block(name: Seq<char>, v: Option<Seq<char>>) -> Seq<XmlEvent> {
    match v {
        Some(s) => seq![XmlEvent::Open { name }] + country_events(split_commas(s)) + seq![
            XmlEvent::Close { name },
        ],
        None => Seq::<XmlEvent>::empty(),
    }
}

/// The identity and audience part of one article: identifier, native
/// country, resolved language, and the two optional country lists.
pub open spec fn article_meta_events(ch: ChannelView, cfg: ConfigView, idx: int) -> Seq<XmlEvent> {
    text_tag_events("ID"@, dec_nat(item_id(ch, idx) as nat)) + text_tag_events(
        "nativeCountry"@,
        cfg.line_native_country,
    ) + text_tag_events("language"@, language_of(ch, cfg)) + country_block(
        "publishCountries"@,
        cfg.line_pub_to_country,
    ) + country_block("excludedCountries"@, cfg.line_excl_from_country)
}

/// The publish window of one article.
pub open spec fn article_dates_events(it: FeedItemView, cfg: ConfigView, now_secs: int) -> Seq<
    XmlEvent,
> {
    text_tag_events("startYmdtUnix"@, dec_int(start_millis(it, now_secs))) + text_tag_events(
        "endYmdtUnix"@,
        dec_int(end_millis_of(it, cfg, now_secs)),
    )
}

/// The descriptive fields of one article: title, first category, publish
/// time and the fixed content type.
pub open spec fn article_fields_events(ch: ChannelView, it: FeedItemView, now_secs: int) -> Seq<
    XmlEvent,
> {
    text_tag_events("title"@, title_of(ch, it)) + text_tag_events("category"@, it.categories[0])
        + text_tag_events("publishTimeUnix"@, dec_int(start_millis(it, now_secs)))
        + text_tag_events("contentType"@, "0"@)
}

/// The body of one article: the content CDATA nested in `contents`/`text`.
pub open spec fn contents_events(it: FeedItemView) -> Seq<XmlEvent> {
    seq![
        XmlEvent::Open { name: "contents"@ },
        XmlEvent::Open { name: "text"@ },
    ] + cdata_tag_events("content"@, content_of(it)) + seq![
        XmlEvent::Close { name: "text"@ },
        XmlEvent::Close { name: "contents"@ },
    ]
}

/// The attribution of one article: author and source URL.
pub open spec fn article_tail_events(ch: ChannelView, it: FeedItemView) -> Seq<XmlEvent> {
    text_tag_events("author"@, author_of(ch, it)) + text_tag_events(
        "sourceUrl"@,
        source_of(ch, it),
    )
}

/// The full event sequence of one `article` element.
pub open spec fn article_events(
    ch: ChannelView,
    cfg: ConfigView,
    idx: int,
    now_secs: int,
) -> Seq<XmlEvent> {
    let it = ch.items[idx];
    seq![XmlEvent::Open { name: "article"@ }] + article_meta_events(ch, cfg, idx)
        + article_dates_events(it, cfg, now_secs) + article_fields_events(ch, it, now_secs)
        + contents_events(it) + article_tail_events(ch, it) + seq![
        XmlEvent::Close { name: "article"@ },
    ]
}

/// The events of the first `idx` items: one article per item, in channel
/// order, items without a category skipped.
pub open spec fn articles_prefix(
    ch: ChannelView,
    cfg: ConfigView,
    now_secs: int,
    idx: int,
) -> Seq<XmlEvent>
    decreases idx,
{
    if idx <= 0 {
        Seq::<XmlEvent>::empty()
    } else {
        articles_prefix(ch, cfg, now_secs, idx - 1) + (if ch.items[idx - 1].categories.len() > 0 {
            article_events(ch, cfg, idx - 1, now_secs)
        } else {
            Seq::<XmlEvent>::empty()
        })
    }
}

/// The full event sequence of the output document.
pub open spec fn doc_events(ch: ChannelView, cfg: ConfigView, now_secs: int) -> Seq<XmlEvent> {
    seq![XmlEvent::Decl, XmlEvent::Open { name: "articles"@ }] + text_tag_events(
        "UUID"@,
        uuid_of(ch),
    ) + text_tag_events("time"@, dec_int(doc_time_millis(ch, now_secs))) + articles_prefix(
        ch,
        cfg,
        now_secs,
        ch.items.len() as int,
    ) + seq![XmlEvent::Close { name: "articles"@ }]
}

/// One feed, one configuration: everything a single transformation reads.
pub struct LineToday {
    pub feed: Feed,
    pub config: Config,
}

/// Pairs a fetched feed with the configuration for one transformation.
pub fn from(feed: Feed, config: Config) -> (lt: LineToday)
    ensures
        lt.feed == feed,
        lt.config == config,
{
    LineToday { feed, config }
}

impl LineToday {
    /// The channel this transformation reads.
    pub open spec fn chv(&self) -> ChannelView {
        self.feed.channel.deep_view()
    }

    /// The configuration this transformation reads.
    pub open spec fn cfgv(&self) -> ConfigView {
        self.config.deep_view()
    }

    /// The document identifier of this channel state.
    pub fn uuid(&self) -> (r: String)
        ensures
            r@ == uuid_of(self.chv()),
    {
        let mut all = self.feed.channel.title.clone();
        match &self.feed.channel.last_build_date {
            Some(d) => {
                all.append(d.as_str());
            },
            None => {
                proof {
                    assert(self.feed.channel.title@ + Seq::<char>::empty() =~= self
                        .feed
                        .channel
                        .title@);
                }
            },
        }
        sanitize_prefix(all.as_str(), 30)
    }

    /// The stable identifier of the item at `idx`, in decimal.
    pub fn id_for(&self, idx: usize) -> (r: String)
        requires
            idx < self.feed.channel.items@.len(),
        ensures
            r@ == dec_nat(item_id(self.chv(), idx as int) as nat),
    {
        let item = &self.feed.channel.items[idx];
        proof {
            assert(self.chv().items[idx as int] == self.feed.channel.items@[idx as int].deep_view());
        }
        let h: u64 = match &item.link {
            Some(l) => fnv1a_str(l.as_str()),
            None => {
                let mut s = u64_to_string(idx as u64);
                s.append(self.feed.channel.title.as_str());
                fnv1a_str(s.as_str())
            },
        };
        u64_to_string(h)
    }

    /// The resolved article language.
    pub fn language(&self) -> (r: String)
        ensures
            r@ == language_of(self.chv(), self.cfgv()),
    {
        match &self.config.line_lang {
            Some(l) => l.clone(),
            None => match &self.feed.channel.language {
                Some(cl) => two_char_prefix(cl.as_str()),
                None => String::from_str("en"),
            },
        }
    }

    /// When publication of the item at `idx` starts, in unix millis.
    pub fn start_millis_for(&self, idx: usize, now_secs: i64) -> (r: i64)
        requires
            idx < self.feed.channel.items@.len(),
            -MAX_EPOCH_SECONDS <= now_secs <= MAX_EPOCH_SECONDS,
        ensures
            r as int == start_millis(self.chv().items[idx as int], now_secs as int),
            i64::MIN < r < i64::MAX,
    {
        let item = &self.feed.channel.items[idx];
        proof {
            assert(self.chv().items[idx as int] == self.feed.channel.items@[idx as int].deep_view());
        }
        let secs = resolve_date_seconds(&item.pub_date, now_secs);
        secs * 1000
    }

    /// When publication of the item at `idx` ends, in unix millis: exactly
    /// the configured number of weeks after it starts.
    pub fn end_millis_for(&self, idx: usize, now_secs: i64) -> (r: i64)
        requires
            idx < self.feed.channel.items@.len(),
            -MAX_EPOCH_SECONDS <= now_secs <= MAX_EPOCH_SECONDS,
        ensures
            r as int == end_millis_of(self.chv().items[idx as int], self.cfgv(), now_secs as int),
            i64::MIN < r < i64::MAX,
    {
        let item = &self.feed.channel.items[idx];
        proof {
            assert(self.chv().items[idx as int] == self.feed.channel.items@[idx as int].deep_view());
        }
        let weeks: u8 = match self.config.publish_duration_in_weeks {
            Some(w) => w,
            None => DEFAULT_PUBLISH_WEEKS,
        };
        let secs = resolve_date_seconds(&item.pub_date, now_secs);
        let r = (secs + (weeks as i64) * 604800) * 1000;
        proof {
            assert(r as int == start_millis(self.chv().items[idx as int], now_secs as int)
                + weeks_of(self.cfgv()) * 604800000);
        }
        r
    }
}

/// One `country` element per comma-separated token of `countries`.
fn country_xml(w: &mut XmlWriter, countries: &str) -> (r: Result<(), EmitError>)
    ensures
        r is Ok,
        writer_events(*final(w)) == writer_events(*old(w)) + country_events(
            split_commas(countries@),
        ),
{
    let toks = split_commas_exec(countries);
    let ghost all = split_commas(countries@);
    let ghost base = writer_events(*w);
    let mut k: usize = 0;
    proof {
        assert(base + country_events(all.take(0)) =~= base);
        assert(all.take(0) =~= Seq::<Seq<char>>::empty());
    }
    while k < toks.len()
        invariant
            toks.deep_view() == all,
            k <= toks.len(),
            writer_events(*w) == base + country_events(all.take(k as int)),
        decreases toks.len() - k,
    {
        match emit_text_tag(w, "country", toks[k].as_str()) {
            Ok(u) => u,
            Err(e) => {
                return Err(e);
            },
        }
        proof {
            assert(toks[k as int].deep_view() == all[k as int]);
            lemma_country_events_push(all.take(k as int), all[k as int]);
            assert(all.take(k as int).push(all[k as int]) =~= all.take(k + 1 as int));
            assert((base + country_events(all.take(k as int))) + text_tag_events(
                "country"@,
                all[k as int],
            ) =~= base + country_events(all.take(k + 1 as int)));
        }
        k = k + 1;
    }
    proof {
        assert(all.take(toks.len() as int) =~= all);
    }
    Ok(())
}

/// Appending one token appends its `country` element.
proof fn lemma_country_events_push(tokens: Seq<Seq<char>>, t: Seq<char>)
    ensures
        country_events(tokens.push(t)) == country_events(tokens) + text_tag_events("country"@, t),
    decreases tokens.len(),
{
    if tokens.len() == 0 {
        assert(tokens.push(t)[0] == t);
        assert(tokens.push(t).drop_first() =~= Seq::<Seq<char>>::empty());
        assert(country_events(tokens.push(t)) == text_tag_events("country"@, t) + country_events(
            Seq::<Seq<char>>::empty(),
        ));
        assert(country_events(tokens.push(t)) =~= country_events(tokens) + text_tag_events(
            "country"@,
            t,
        ));
    } else {
        assert(tokens.push(t)[0] == tokens[0]);
        assert(tokens.push(t).drop_first() =~= tokens.drop_first().push(t));
        lemma_country_events_push(tokens.drop_first(), t);
        assert(country_events(tokens.push(t)) == text_tag_events("country"@, tokens[0])
            + country_events(tokens.drop_first().push(t)));
        assert(country_events(tokens) == text_tag_events("country"@, tokens[0]) + country_events(
            tokens.drop_first(),
        ));
        assert(country_events(tokens.push(t)) =~= country_events(tokens) + text_tag_events(
            "country"@,
            t,
        ));
    }
}

impl LineToday {
    /// Writes the identity and audience elements of the item at `idx`.
    fn article_meta_xml(&self, w: &mut XmlWriter, idx: usize) -> (r: Result<(), EmitError>)
        requires
            idx < self.feed.channel.items@.len(),
        ensures
            r is Ok,
            writer_events(*final(w)) == writer_events(*old(w)) + article_meta_events(
                self.chv(),
                self.cfgv(),
                idx as int,
            ),
    {
        let ghost chv = self.chv();
        let ghost cfgv = self.cfgv();
        let ghost base = writer_events(*w);
        let ghost mut done = Seq::<XmlEvent>::empty();

        let article_id = self.id_for(idx);
        match emit_text_tag(w, "ID", article_id.as_str()) {
            Ok(u) => u,
            Err(e) => {
                return Err(e);
            },
        }
        proof {
            done = text_tag_events("ID"@, dec_nat(item_id(chv, idx as int) as nat));
            assert(writer_events(*w) =~= base + done);
        }

        match emit_text_tag(w, "nativeCountry", self.config.line_native_country.as_str()) {
            Ok(u) => u,
            Err(e) => {
                return Err(e);
            },
        }
        proof {
            let seg = text_tag_events("nativeCountry"@, cfgv.line_native_country);
            assert(writer_events(*w) =~= base + (done + seg));
            done = done + seg;
        }

        let language = self.language();
        match emit_text_tag(w, "language", language.as_str()) {
            Ok(u) => u,
            Err(e) => {
                return Err(e);
            },
        }
        proof {
            let seg = text_tag_events("language"@, language_of(chv, cfgv));
            assert(writer_events(*w) =~= base + (done + seg));
            done = done + seg;
        }

        match &self.config.line_pub_to_country {
            Some(p) => {
                match w.write_open("publishCountries") {
                    Ok(u) => u,
                    Err(e) => {
                        return Err(e);
                    },
                }
                match country_xml(w, p.as_str()) {
                    Ok(u) => u,
                    Err(e) => {
                        return Err(e);
                    },
                }
                match w.write_close("publishCountries") {
                    Ok(u) => u,
                    Err(e) => {
                        return Err(e);
                    },
                }
                proof {
                    let blk = country_block("publishCountries"@, cfgv.line_pub_to_country);
                    assert(cfgv.line_pub_to_country == Some(p@));
                    assert(writer_events(*w) =~= base + (done + blk));
                    done = done + blk;
                }
            },
            None => {
                proof {
                    let blk = country_block("publishCountries"@, cfgv.line_pub_to_country);
                    assert(cfgv.line_pub_to_country is None);
                    assert(done + blk =~= done);
                    done = done + blk;
                }
            },
        }

        match &self.config.line_excl_from_country {
            Some(x) => {
                match w.write_open("excludedCountries") {
                    Ok(u) => u,
                    Err(e) => {
                        return Err(e);
                    },
                }
                match country_xml(w, x.as_str()) {
                    Ok(u) => u,
                    Err(e) => {
                        return Err(e);
                    },
                }
                match w.write_close("excludedCountries") {
                    Ok(u) => u,
                    Err(e) => {
                        return Err(e);
                    },
                }
                proof {
                    let blk = country_block("excludedCountries"@, cfgv.line_excl_from_country);
                    assert(cfgv.line_excl_from_country == Some(x@));
                    assert(writer_events(*w) =~= base + (done + blk));
                    done = done + blk;
                }
            },
            None => {
                proof {
                    let blk = country_block("excludedCountries"@, cfgv.line_excl_from_country);
                    assert(cfgv.line_excl_from_country is None);
                    assert(done + blk =~= done);
                    done = done + blk;
                }
            },
        }
        proof {
            assert(writer_events(*w) == base + done);
            assert(done == article_meta_events(chv, cfgv, idx as int));
        }
        Ok(())
    }

    /// Writes the publish window of the item at `idx`.
    fn article_dates_xml(&self, w: &mut XmlWriter, idx: usize, now_secs: i64) -> (r: Result<
        (),
        EmitError,
    >)
        requires
            idx < self.feed.channel.items@.len(),
            -MAX_EPOCH_SECONDS <= now_secs <= MAX_EPOCH_SECONDS,
        ensures
            r is Ok,
            writer_events(*final(w)) == writer_events(*old(w)) + article_dates_events(
                self.chv().items[idx as int],
                self.cfgv(),
                now_secs as int,
            ),
    {
        let ghost itv = self.chv().items[idx as int];
        let ghost cfgv = self.cfgv();
        let ghost base = writer_events(*w);

        let start_pub = i64_to_string(self.start_millis_for(idx, now_secs));
        let end_pub = i64_to_string(self.end_millis_for(idx, now_secs));
        match emit_text_tag(w, "startYmdtUnix", start_pub.as_str()) {
            Ok(u) => u,
            Err(e) => {
                return Err(e);
            },
        }
        match emit_text_tag(w, "endYmdtUnix", end_pub.as_str()) {
            Ok(u) => u,
            Err(e) => {
                return Err(e);
            },
        }
        proof {
            assert(writer_events(*w) =~= base + article_dates_events(
                itv,
                cfgv,
                now_secs as int,
            ));
        }
        Ok(())
    }

    /// Writes the descriptive fields of the item at `idx`.
    fn article_fields_xml(&self, w: &mut XmlWriter, idx: usize, now_secs: i64) -> (r: Result<
        (),
        EmitError,
    >)
        requires
            idx < self.feed.channel.items@.len(),
            self.chv().items[idx as int].categories.len() > 0,
            -MAX_EPOCH_SECONDS <= now_secs <= MAX_EPOCH_SECONDS,
        ensures
            r is Ok,
            writer_events(*final(w)) == writer_events(*old(w)) + article_fields_events(
                self.chv(),
                self.chv().items[idx as int],
                now_secs as int,
            ),
    {
        let ghost chv = self.chv();
        let ghost itv = chv.items[idx as int];
        let ghost base = writer_events(*w);
        let ghost mut done = Seq::<XmlEvent>::empty();
        let item = &self.feed.channel.items[idx];
        proof {
            assert(itv == self.feed.channel.items@[idx as int].deep_view());
        }

        let title: &str = match &item.title {
            Some(t) => t.as_str(),
            None => self.feed.channel.title.as_str(),
        };
        match emit_text_tag(w, "title", title) {
            Ok(u) => u,
            Err(e) => {
                return Err(e);
            },
        }
        proof {
            assert(title@ == title_of(chv, itv));
            done = text_tag_events("title"@, title_of(chv, itv));
            assert(writer_events(*w) =~= base + done);
        }

        let category = &item.categories[0];
        match emit_text_tag(w, "category", category.as_str()) {
            Ok(u) => u,
            Err(e) => {
                return Err(e);
            },
        }
        proof {
            assert(category@ == itv.categories[0]);
            let seg = text_tag_events("category"@, itv.categories[0]);
            assert(writer_events(*w) =~= base + (done + seg));
            done = done + seg;
        }

        let start_pub = i64_to_string(self.start_millis_for(idx, now_secs));
        match emit_text_tag(w, "publishTimeUnix", start_pub.as_str()) {
            Ok(u) => u,
            Err(e) => {
                return Err(e);
            },
        }
        proof {
            let seg = text_tag_events(
                "publishTimeUnix"@,
                dec_int(start_millis(itv, now_secs as int)),
            );
            assert(writer_events(*w) =~= base + (done + seg));
            done = done + seg;
        }

        match emit_text_tag(w, "contentType", "0") {
            Ok(u) => u,
            Err(e) => {
                return Err(e);
            },
        }
        proof {
            let seg = text_tag_events("contentType"@, "0"@);
            assert(writer_events(*w) =~= base + (done + seg));
            done = done + seg;
            assert(done == article_fields_events(chv, itv, now_secs as int));
        }
        Ok(())
    }

    /// Writes the article body: the content CDATA nested in
    /// `contents`/`text`.
    fn content_xml(&self, w: &mut XmlWriter, idx: usize) -> (r: Result<(), EmitError>)
        requires
            idx < self.feed.channel.items@.len(),
        ensures
            r is Ok,
            writer_events(*final(w)) == writer_events(*old(w)) + contents_events(
                self.chv().items[idx as int],
            ),
    {
        let ghost itv = self.chv().items[idx as int];
        let ghost base = writer_events(*w);
        let item = &self.feed.channel.items[idx];
        proof {
            assert(itv == self.feed.channel.items@[idx as int].deep_view());
        }

        match w.write_open("contents") {
            Ok(u) => u,
            Err(e) => {
                return Err(e);
            },
        }
        match w.write_open("text") {
            Ok(u) => u,
            Err(e) => {
                return Err(e);
            },
        }
        let content: &str = match &item.content {
            Some(c) => c.as_str(),
            None => match &item.description {
                Some(d) => d.as_str(),
                None => "(No Content)",
            },
        };
        match emit_cdata_tag(w, "content", content) {
            Ok(u) => u,
            Err(e) => {
                return Err(e);
            },
        }
        match w.write_close("text") {
            Ok(u) => u,
            Err(e) => {
                return Err(e);
            },
        }
        match w.write_close("contents") {
            Ok(u) => u,
            Err(e) => {
                return Err(e);
            },
        }
        proof {
            assert(content@ == content_of(itv));
            assert(writer_events(*w) =~= base + contents_events(itv));
        }
        Ok(())
    }

    /// Writes the attribution of the item at `idx`.
    fn article_tail_xml(&self, w: &mut XmlWriter, idx: usize) -> (r: Result<(), EmitError>)
        requires
            idx < self.feed.channel.items@.len(),
        ensures
            r is Ok,
            writer_events(*final(w)) == writer_events(*old(w)) + article_tail_events(
                self.chv(),
                self.chv().items[idx as int],
            ),
    {
        let ghost chv = self.chv();
        let ghost itv = chv.items[idx as int];
        let ghost base = writer_events(*w);
        let item = &self.feed.channel.items[idx];
        proof {
            assert(itv == self.feed.channel.items@[idx as int].deep_view());
        }

        let author: &str = match &item.author {
            Some(a) => a.as_str(),
            None => self.feed.channel.title.as_str(),
        };
        match emit_text_tag(w, "author", author) {
            Ok(u) => u,
            Err(e) => {
                return Err(e);
            },
        }
        let source: &str = match &item.link {
            Some(l) => l.as_str(),
            None => self.feed.channel.link.as_str(),
        };
        match emit_text_tag(w, "sourceUrl", source) {
            Ok(u) => u,
            Err(e) => {
                return Err(e);
            },
        }
        proof {
            assert(author@ == author_of(chv, itv));
            assert(source@ == source_of(chv, itv));
            assert(writer_events(*w) =~= base + article_tail_events(chv, itv));
        }
        Ok(())
    }

    /// Writes one `article` element for the item at `idx`.
    fn article_xml(&self, w: &mut XmlWriter, idx: usize, now_secs: i64) -> (r: Result<
        (),
        EmitError,
    >)
        requires
            idx < self.feed.channel.items@.len(),
            self.chv().items[idx as int].categories.len() > 0,
            -MAX_EPOCH_SECONDS <= now_secs <= MAX_EPOCH_SECONDS,
        ensures
            r is Ok,
            writer_events(*final(w)) == writer_events(*old(w)) + article_events(
                self.chv(),
                self.cfgv(),
                idx as int,
                now_secs as int,
            ),
    {
        let ghost chv = self.chv();
        let ghost cfgv = self.cfgv();
        let ghost itv = chv.items[idx as int];
        let ghost base = writer_events(*w);
        let ghost mut done = Seq::<XmlEvent>::empty();

        match w.write_open("article") {
            Ok(u) => u,
            Err(e) => {
                return Err(e);
            },
        }
        proof {
            done = seq![XmlEvent::Open { name: "article"@ }];
            assert(writer_events(*w) =~= base + done);
        }
        match self.article_meta_xml(w, idx) {
            Ok(u) => u,
            Err(e) => {
                return Err(e);
            },
        }
        proof {
            let seg = article_meta_events(chv, cfgv, idx as int);
            assert(writer_events(*w) =~= base + (done + seg));
            done = done + seg;
        }
        match self.article_dates_xml(w, idx, now_secs) {
            Ok(u) => u,
            Err(e) => {
                return Err(e);
            },
        }
        proof {
            let seg = article_dates_events(itv, cfgv, now_secs as int);
            assert(writer_events(*w) =~= base + (done + seg));
            done = done + seg;
        }
        match self.article_fields_xml(w, idx, now_secs) {
            Ok(u) => u,
            Err(e) => {
                return Err(e);
            },
        }
        proof {
            let seg = article_fields_events(chv, itv, now_secs as int);
            assert(writer_events(*w) =~= base + (done + seg));
            done = done + seg;
        }
        match self.content_xml(w, idx) {
            Ok(u) => u,
            Err(e) => {
                return Err(e);
            },
        }
        proof {
            let seg = contents_events(itv);
            assert(writer_events(*w) =~= base + (done + seg));
            done = done + seg;
        }
        match self.article_tail_xml(w, idx) {
            Ok(u) => u,
            Err(e) => {
                return Err(e);
            },
        }
        proof {
            let seg = article_tail_events(chv, itv);
            assert(writer_events(*w) =~= base + (done + seg));
            done = done + seg;
        }
        match w.write_close("article") {
            Ok(u) => u,
            Err(e) => {
                return Err(e);
            },
        }
        proof {
            let seg = seq![XmlEvent::Close { name: "article"@ }];
            assert(writer_events(*w) =~= base + (done + seg));
            done = done + seg;
            assert(done == article_events(chv, cfgv, idx as int, now_secs as int));
        }
        Ok(())
    }

    /// Produces the full output document for the given fallback second:
    /// exactly the rendering of the document's event sequence.
    pub fn transform_at(&self, now_secs: i64) -> (r: Result<Vec<u8>, EmitError>)
        requires
            -MAX_EPOCH_SECONDS <= now_secs <= MAX_EPOCH_SECONDS,
        ensures
            r matches Ok(b) && b@ == rendered(doc_events(self.chv(), self.cfgv(), now_secs as int)),
    {
        let ghost chv = self.chv();
        let ghost cfgv = self.cfgv();
        let mut w = XmlWriter::new();
        let ghost mut done = Seq::<XmlEvent>::empty();

        match w.write_decl() {
            Ok(u) => u,
            Err(e) => {
                return Err(e);
            },
        }
        match w.write_open("articles") {
            Ok(u) => u,
            Err(e) => {
                return Err(e);
            },
        }
        proof {
            done = seq![XmlEvent::Decl, XmlEvent::Open { name: "articles"@ }];
            assert(writer_events(w) =~= done);
        }

        let uuid = self.uuid();
        match emit_text_tag(&mut w, "UUID", uuid.as_str()) {
            Ok(u) => u,
            Err(e) => {
                return Err(e);
            },
        }
        proof {
            done = done + text_tag_events("UUID"@, uuid_of(chv));
            assert(writer_events(w) == done);
        }

        let time = i64_to_string(
            {
                let secs = resolve_date_seconds(&self.feed.channel.last_build_date, now_secs);
                secs * 1000
            },
        );
        proof {
            assert(time@ == dec_int(doc_time_millis(chv, now_secs as int)));
        }
        match emit_text_tag(&mut w, "time", time.as_str()) {
            Ok(u) => u,
            Err(e) => {
                return Err(e);
            },
        }
        proof {
            done = done + text_tag_events("time"@, dec_int(doc_time_millis(chv, now_secs as int)));
            assert(writer_events(w) == done);
        }

        let ghost head = done;
        let n = self.feed.channel.items.len();
        let mut idx: usize = 0;
        proof {
            assert(head + articles_prefix(chv, cfgv, now_secs as int, 0) =~= head);
        }
        while idx < n
            invariant
                n == self.feed.channel.items@.len(),
                idx <= n,
                chv == self.chv(),
                cfgv == self.cfgv(),
                -MAX_EPOCH_SECONDS <= now_secs <= MAX_EPOCH_SECONDS,
                writer_events(w) == head + articles_prefix(chv, cfgv, now_secs as int, idx as int),
            decreases n - idx,
        {
            proof {
                assert(chv.items[idx as int] == self.feed.channel.items@[idx as int].deep_view());
            }
            let has_category = self.feed.channel.items[idx].categories.len() > 0;
            if has_category {
                match self.article_xml(&mut w, idx, now_secs) {
                    Ok(u) => u,
                    Err(e) => {
                        return Err(e);
                    },
                }
                proof {
                    let prev = articles_prefix(chv, cfgv, now_secs as int, idx as int);
                    let art = article_events(chv, cfgv, idx as int, now_secs as int);
                    assert((head + prev) + art =~= head + (prev + art));
                    assert(articles_prefix(chv, cfgv, now_secs as int, idx + 1 as int) == prev
                        + art);
                }
            } else {
                proof {
                    let prev = articles_prefix(chv, cfgv, now_secs as int, idx as int);
                    assert(articles_prefix(chv, cfgv, now_secs as int, idx + 1 as int) =~= prev);
                }
            }
            idx = idx + 1;
        }

        match w.write_close("articles") {
            Ok(u) => u,
            Err(e) => {
                return Err(e);
            },
        }
        proof {
            assert(writer_events(w) =~= (head + articles_prefix(
                chv,
                cfgv,
                now_secs as int,
                n as int,
            )) + seq![XmlEvent::Close { name: "articles"@ }]);
            assert(writer_events(w) =~= doc_events(chv, cfgv, now_secs as int));
        }
        Ok(w.into_bytes())
    }

    /// Produces the full output document, taking the wall clock as the
    /// fallback second for absent or unparsable dates.
    pub fn build_xml(&self) -> (r: Result<Vec<u8>, EmitError>)
        ensures
            r is Ok,
            r matches Ok(b) ==> exists|now_secs: int|
                0 <= now_secs <= MAX_EPOCH_SECONDS && b@ == rendered(
                    #[trigger] doc_events(self.chv(), self.cfgv(), now_secs),
                ),
    {
        let now = now_unix_seconds();
        let r = self.transform_at(now);
        proof {
            if r is Ok {
                assert(0 <= now as int <= MAX_EPOCH_SECONDS && r->Ok_0@ == rendered(
                    doc_events(self.chv(), self.cfgv(), now as int),
                ));
            }
        }
        r
    }
}


/// Whether `e` opens an element named `name`.
pub open spec fn is_open_named(e: XmlEvent, name: Seq<char>) -> bool {
    e matches XmlEvent::Open { name: n } && n == name
}

/// How many events of `events` open an element named `name`.
pub open spec fn count_opens(events: Seq<XmlEvent>, name: Seq<char>) -> nat
    decreases events.len(),
{
    if events.len() == 0 {
        0
    } else {
        count_opens(events.drop_last(), name) + (if is_open_named(events.last(), name) {
            1nat
        } else {
            0nat
        })
    }
}

pub proof fn lemma_count_opens_concat(a: Seq<XmlEvent>, b: Seq<XmlEvent>, name: Seq<char>)
    ensures
        count_opens(a + b, name) == count_opens(a, name) + count_opens(b, name),
    decreases b.len(),
{
    if b.len() == 0 {
        assert(a + b =~= a);
    } else {
        assert((a + b).drop_last() =~= a + b.drop_last());
        assert((a + b).last() == b.last());
        lemma_count_opens_concat(a, b.drop_last(), name);
    }
}

proof fn lemma_count_opens_tag(name: Seq<char>, text: Seq<char>, target: Seq<char>)
    ensures
        count_opens(text_tag_events(name, text), target) == (if name == target {
            1nat
        } else {
            0nat
        }),
        count_opens(cdata_tag_events(name, text), target) == (if name == target {
            1nat
        } else {
            0nat
        }),
{
    reveal_with_fuel(count_opens, 5);
    let s = text_tag_events(name, text);
    assert(s.last() == XmlEvent::Close { name });
    assert(s.drop_last() =~= seq![XmlEvent::Open { name }, XmlEvent::Text { text }]);
    assert(s.drop_last().last() == XmlEvent::Text { text });
    assert(s.drop_last().drop_last().last() == XmlEvent::Open { name });
    assert(s.drop_last().drop_last() =~= seq![XmlEvent::Open { name }]);
    assert(s.drop_last().drop_last().drop_last() =~= Seq::<XmlEvent>::empty());
    let c = cdata_tag_events(name, text);
    assert(c.last() == XmlEvent::Close { name });
    assert(c.drop_last() =~= seq![XmlEvent::Open { name }, XmlEvent::Cdata { text }]);
    assert(c.drop_last().last() == XmlEvent::Cdata { text });
    assert(c.drop_last().drop_last().last() == XmlEvent::Open { name });
    assert(c.drop_last().drop_last() =~= seq![XmlEvent::Open { name }]);
    assert(c.drop_last().drop_last().drop_last() =~= Seq::<XmlEvent>::empty());
}

proof fn lemma_count_opens_pair(e1: XmlEvent, e2: XmlEvent, target: Seq<char>)
    ensures
        count_opens(seq![e1, e2], target) == (if is_open_named(e1, target) {
            1nat
        } else {
            0nat
        }) + (if is_open_named(e2, target) {
            1nat
        } else {
            0nat
        }),
{
    reveal_with_fuel(count_opens, 4);
    assert(seq![e1, e2].last() == e2);
    assert(seq![e1, e2].drop_last() =~= seq![e1]);
    assert(seq![e1].last() == e1);
    assert(seq![e1].drop_last() =~= Seq::<XmlEvent>::empty());
}

proof fn lemma_count_opens_single(e1: XmlEvent, target: Seq<char>)
    ensures
        count_opens(seq![e1], target) == (if is_open_named(e1, target) {
            1nat
        } else {
            0nat
        }),
{
    reveal_with_fuel(count_opens, 3);
    assert(seq![e1].last() == e1);
    assert(seq![e1].drop_last() =~= Seq::<XmlEvent>::empty());
}

proof fn lemma_count_opens_country_events(tokens: Seq<Seq<char>>, target: Seq<char>)
    ensures
        count_opens(country_events(tokens), target) == (if target == "country"@ {
            tokens.len()
        } else {
            0nat
        }),
    decreases tokens.len(),
{
    if tokens.len() == 0 {
    } else {
        lemma_count_opens_tag("country"@, tokens[0], target);
        lemma_count_opens_country_events(tokens.drop_first(), target);
        lemma_count_opens_concat(
            text_tag_events("country"@, tokens[0]),
            country_events(tokens.drop_first()),
            target,
        );
    }
}

proof fn lemma_count_opens_country_block(name: Seq<char>, v: Option<Seq<char>>, target: Seq<char>)
    ensures
        count_opens(country_block(name, v), target) == match v {
            Some(cs) => (if name == target {
                1nat
            } else {
                0nat
            }) + (if target == "country"@ {
                split_commas(cs).len()
            } else {
                0nat
            }),
            None => 0nat,
        },
{
    match v {
        Some(cs) => {
            lemma_count_opens_single(XmlEvent::Open { name }, target);
            lemma_count_opens_single(XmlEvent::Close { name }, target);
            lemma_count_opens_country_events(split_commas(cs), target);
            lemma_count_opens_concat(
                seq![XmlEvent::Open { name }],
                country_events(split_commas(cs)),
                target,
            );
            lemma_count_opens_concat(
                seq![XmlEvent::Open { name }] + country_events(split_commas(cs)),
                seq![XmlEvent::Close { name }],
                target,
            );
        },
        None => {},
    }
}


/// The element name `article` differs from every other tag name of the
/// document.
#[verifier::rlimit(100)]
proof fn lemma_article_name_distinct()
    ensures
        "article"@ != "country"@,
        "article"@ != "ID"@,
        "article"@ != "nativeCountry"@,
        "article"@ != "language"@,
        "article"@ != "publishCountries"@,
        "article"@ != "excludedCountries"@,
        "article"@ != "startYmdtUnix"@,
        "article"@ != "endYmdtUnix"@,
        "article"@ != "title"@,
        "article"@ != "category"@,
        "article"@ != "publishTimeUnix"@,
        "article"@ != "contentType"@,
        "article"@ != "contents"@,
        "article"@ != "text"@,
        "article"@ != "content"@,
        "article"@ != "author"@,
        "article"@ != "sourceUrl"@,
        "article"@ != "articles"@,
        "article"@ != "UUID"@,
        "article"@ != "time"@,
{
    reveal_strlit("article");
    reveal_strlit("country");
    reveal_strlit("ID");
    reveal_strlit("nativeCountry");
    reveal_strlit("language");
    reveal_strlit("publishCountries");
    reveal_strlit("excludedCountries");
    reveal_strlit("startYmdtUnix");
    reveal_strlit("endYmdtUnix");
    reveal_strlit("title");
    reveal_strlit("category");
    reveal_strlit("publishTimeUnix");
    reveal_strlit("contentType");
    reveal_strlit("contents");
    reveal_strlit("text");
    reveal_strlit("content");
    reveal_strlit("author");
    reveal_strlit("sourceUrl");
    reveal_strlit("articles");
    reveal_strlit("UUID");
    reveal_strlit("time");
    assert("article"@.len() == 7);
    assert("country"@.len() == 7);
    assert("ID"@.len() == 2);
    assert("nativeCountry"@.len() == 13);
    assert("language"@.len() == 8);
    assert("publishCountries"@.len() == 16);
    assert("excludedCountries"@.len() == 17);
    assert("startYmdtUnix"@.len() == 13);
    assert("endYmdtUnix"@.len() == 11);
    assert("title"@.len() == 5);
    assert("category"@.len() == 8);
    assert("publishTimeUnix"@.len() == 15);
    assert("contentType"@.len() == 11);
    assert("contents"@.len() == 8);
    assert("text"@.len() == 4);
    assert("content"@.len() == 7);
    assert("author"@.len() == 6);
    assert("sourceUrl"@.len() == 9);
    assert("articles"@.len() == 8);
    assert("UUID"@.len() == 4);
    assert("time"@.len() == 4);
    assert("article"@[0] != "country"@[0]);
    assert("article"@[0] != "content"@[0]);
}

/// The element name `publishCountries` differs from every other tag name of
/// the document.
#[verifier::rlimit(100)]
proof fn lemma_publish_name_distinct()
    ensures
        "publishCountries"@ != "country"@,
        "publishCountries"@ != "ID"@,
        "publishCountries"@ != "nativeCountry"@,
        "publishCountries"@ != "language"@,
        "publishCountries"@ != "article"@,
        "publishCountries"@ != "excludedCountries"@,
        "publishCountries"@ != "startYmdtUnix"@,
        "publishCountries"@ != "endYmdtUnix"@,
        "publishCountries"@ != "title"@,
        "publishCountries"@ != "category"@,
        "publishCountries"@ != "publishTimeUnix"@,
        "publishCountries"@ != "contentType"@,
        "publishCountries"@ != "contents"@,
        "publishCountries"@ != "text"@,
        "publishCountries"@ != "content"@,
        "publishCountries"@ != "author"@,
        "publishCountries"@ != "sourceUrl"@,
        "publishCountries"@ != "articles"@,
        "publishCountries"@ != "UUID"@,
        "publishCountries"@ != "time"@,
{
    reveal_strlit("publishCountries");
    reveal_strlit("country");
    reveal_strlit("ID");
    reveal_strlit("nativeCountry");
    reveal_strlit("language");
    reveal_strlit("article");
    reveal_strlit("excludedCountries");
    reveal_strlit("startYmdtUnix");
    reveal_strlit("endYmdtUnix");
    reveal_strlit("title");
    reveal_strlit("category");
    reveal_strlit("publishTimeUnix");
    reveal_strlit("contentType");
    reveal_strlit("contents");
    reveal_strlit("text");
    reveal_strlit("content");
    reveal_strlit("author");
    reveal_strlit("sourceUrl");
    reveal_strlit("articles");
    reveal_strlit("UUID");
    reveal_strlit("time");
    assert("publishCountries"@.len() == 16);
    assert("country"@.len() == 7);
    assert("ID"@.len() == 2);
    assert("nativeCountry"@.len() == 13);
    assert("language"@.len() == 8);
    assert("article"@.len() == 7);
    assert("excludedCountries"@.len() == 17);
    assert("startYmdtUnix"@.len() == 13);
    assert("endYmdtUnix"@.len() == 11);
    assert("title"@.len() == 5);
    assert("category"@.len() == 8);
    assert("publishTimeUnix"@.len() == 15);
    assert("contentType"@.len() == 11);
    assert("contents"@.len() == 8);
    assert("text"@.len() == 4);
    assert("content"@.len() == 7);
    assert("author"@.len() == 6);
    assert("sourceUrl"@.len() == 9);
    assert("articles"@.len() == 8);
    assert("UUID"@.len() == 4);
    assert("time"@.len() == 4);
}

/// LAW: one article holds exactly one `article` element, and holds its
/// `publishCountries` element exactly when the publish-to configuration is
/// set — no other element of an article carries either name.
#[verifier::rlimit(100)]
pub proof fn lemma_article_events_counts(ch: ChannelView, cfg: ConfigView, idx: int, now_secs: int)
    ensures
        count_opens(article_events(ch, cfg, idx, now_secs), "article"@) == 1,
        count_opens(article_events(ch, cfg, idx, now_secs), "publishCountries"@) == (
        if cfg.line_pub_to_country is Some {
            1nat
        } else {
            0nat
        }),
{
    lemma_article_name_distinct();
    lemma_publish_name_distinct();
    lemma_article_segment_counts(ch, cfg, idx, now_secs, "article"@);
    lemma_article_segment_counts(ch, cfg, idx, now_secs, "publishCountries"@);
}

/// Sums the open-element counts of an article's segments for one target
/// name, assuming the target is neither `country` nor one of the fixed tag
/// names except possibly `article` or `publishCountries`.
proof fn lemma_article_segment_counts(
    ch: ChannelView,
    cfg: ConfigView,
    idx: int,
    now_secs: int,
    target: Seq<char>,
)
    requires
        target == "article"@ || target == "publishCountries"@,
        target != "country"@,
        target != "ID"@,
        target != "nativeCountry"@,
        target != "language"@,
        target != "excludedCountries"@,
        target != "startYmdtUnix"@,
        target != "endYmdtUnix"@,
        target != "title"@,
        target != "category"@,
        target != "publishTimeUnix"@,
        target != "contentType"@,
        target != "contents"@,
        target != "text"@,
        target != "content"@,
        target != "author"@,
        target != "sourceUrl"@,
    ensures
        count_opens(article_events(ch, cfg, idx, now_secs), target) == (if target == "article"@ {
            1nat
        } else {
            0nat
        }) + (if target == "publishCountries"@ && cfg.line_pub_to_country is Some {
            1nat
        } else {
            0nat
        }),
{
    let it = ch.items[idx];
    let s1 = seq![XmlEvent::Open { name: "article"@ }];
    let s2 = article_meta_events(ch, cfg, idx);
    let s3 = article_dates_events(it, cfg, now_secs);
    let s4 = article_fields_events(ch, it, now_secs);
    let s5 = contents_events(it);
    let s6 = article_tail_events(ch, it);
    let s7 = seq![XmlEvent::Close { name: "article"@ }];

    lemma_count_opens_single(XmlEvent::Open { name: "article"@ }, target);
    lemma_count_opens_single(XmlEvent::Close { name: "article"@ }, target);

    lemma_count_opens_tag("ID"@, dec_nat(item_id(ch, idx) as nat), target);
    lemma_count_opens_tag("nativeCountry"@, cfg.line_native_country, target);
    lemma_count_opens_tag("language"@, language_of(ch, cfg), target);
    lemma_count_opens_country_block("publishCountries"@, cfg.line_pub_to_country, target);
    lemma_count_opens_country_block("excludedCountries"@, cfg.line_excl_from_country, target);
    let m1 = text_tag_events("ID"@, dec_nat(item_id(ch, idx) as nat));
    let m2 = text_tag_events("nativeCountry"@, cfg.line_native_country);
    let m3 = text_tag_events("language"@, language_of(ch, cfg));
    let m4 = country_block("publishCountries"@, cfg.line_pub_to_country);
    let m5 = country_block("excludedCountries"@, cfg.line_excl_from_country);
    lemma_count_opens_concat(m1, m2, target);
    lemma_count_opens_concat(m1 + m2, m3, target);
    lemma_count_opens_concat(m1 + m2 + m3, m4, target);
    lemma_count_opens_concat(m1 + m2 + m3 + m4, m5, target);

    lemma_count_opens_tag("startYmdtUnix"@, dec_int(start_millis(it, now_secs)), target);
    lemma_count_opens_tag("endYmdtUnix"@, dec_int(end_millis_of(it, cfg, now_secs)), target);
    lemma_count_opens_concat(
        text_tag_events("startYmdtUnix"@, dec_int(start_millis(it, now_secs))),
        text_tag_events("endYmdtUnix"@, dec_int(end_millis_of(it, cfg, now_secs))),
        target,
    );

    lemma_count_opens_tag("title"@, title_of(ch, it), target);
    lemma_count_opens_tag("category"@, it.categories[0], target);
    lemma_count_opens_tag("publishTimeUnix"@, dec_int(start_millis(it, now_secs)), target);
    lemma_count_opens_tag("contentType"@, "0"@, target);
    let f1 = text_tag_events("title"@, title_of(ch, it));
    let f2 = text_tag_events("category"@, it.categories[0]);
    let f3 = text_tag_events("publishTimeUnix"@, dec_int(start_millis(it, now_secs)));
    let f4 = text_tag_events("contentType"@, "0"@);
    lemma_count_opens_concat(f1, f2, target);
    lemma_count_opens_concat(f1 + f2, f3, target);
    lemma_count_opens_concat(f1 + f2 + f3, f4, target);

    let c1 = seq![
        XmlEvent::Open { name: "contents"@ },
        XmlEvent::Open { name: "text"@ },
    ];
    let c2 = cdata_tag_events("content"@, content_of(it));
    let c3 = seq![
        XmlEvent::Close { name: "text"@ },
        XmlEvent::Close { name: "contents"@ },
    ];
    lemma_count_opens_pair(
        XmlEvent::Open { name: "contents"@ },
        XmlEvent::Open { name: "text"@ },
        target,
    );
    lemma_count_opens_pair(
        XmlEvent::Close { name: "text"@ },
        XmlEvent::Close { name: "contents"@ },
        target,
    );
    lemma_count_opens_tag("content"@, content_of(it), target);
    lemma_count_opens_concat(c1, c2, target);
    lemma_count_opens_concat(c1 + c2, c3, target);

    lemma_count_opens_tag("author"@, author_of(ch, it), target);
    lemma_count_opens_tag("sourceUrl"@, source_of(ch, it), target);
    lemma_count_opens_concat(
        text_tag_events("author"@, author_of(ch, it)),
        text_tag_events("sourceUrl"@, source_of(ch, it)),
        target,
    );

    lemma_count_opens_concat(s1, s2, target);
    lemma_count_opens_concat(s1 + s2, s3, target);
    lemma_count_opens_concat(s1 + s2 + s3, s4, target);
    lemma_count_opens_concat(s1 + s2 + s3 + s4, s5, target);
    lemma_count_opens_concat(s1 + s2 + s3 + s4 + s5, s6, target);
    lemma_count_opens_concat(s1 + s2 + s3 + s4 + s5 + s6, s7, target);
}

proof fn lemma_articles_prefix_counts(ch: ChannelView, cfg: ConfigView, now_secs: int, idx: int)
    requires
        0 <= idx <= ch.items.len(),
    ensures
        count_opens(articles_prefix(ch, cfg, now_secs, idx), "article"@) + uncategorized_count(
            ch.items.take(idx),
        ) == idx,
        count_opens(articles_prefix(ch, cfg, now_secs, idx), "publishCountries"@) == (
        if cfg.line_pub_to_country is Some {
            count_opens(articles_prefix(ch, cfg, now_secs, idx), "article"@)
        } else {
            0nat
        }),
    decreases idx,
{
    if idx > 0 {
        lemma_articles_prefix_counts(ch, cfg, now_secs, idx - 1);
        assert(ch.items.take(idx).drop_last() =~= ch.items.take(idx - 1));
        assert(ch.items.take(idx).last() == ch.items[idx - 1]);
        if ch.items[idx - 1].categories.len() > 0 {
            lemma_article_events_counts(ch, cfg, idx - 1, now_secs);
            lemma_count_opens_concat(
                articles_prefix(ch, cfg, now_secs, idx - 1),
                article_events(ch, cfg, idx - 1, now_secs),
                "article"@,
            );
            lemma_count_opens_concat(
                articles_prefix(ch, cfg, now_secs, idx - 1),
                article_events(ch, cfg, idx - 1, now_secs),
                "publishCountries"@,
            );
        } else {
            assert(articles_prefix(ch, cfg, now_secs, idx) =~= articles_prefix(
                ch,
                cfg,
                now_secs,
                idx - 1,
            ));
        }
    } else {
        assert(ch.items.take(0) =~= Seq::<FeedItemView>::empty());
    }
}

/// LAW: nothing but a missing category ever suppresses an article: the
/// document holds exactly one `article` element per item that carries a
/// category, for every channel, so the number of skipped items is exactly
/// what `Channel::count_missing_category` reports.
pub proof fn lemma_article_count_with_skips(ch: ChannelView, cfg: ConfigView, now_secs: int)
    ensures
        count_opens(doc_events(ch, cfg, now_secs), "article"@) + uncategorized_count(ch.items)
            == ch.items.len(),
{
    lemma_article_name_distinct();
    lemma_articles_prefix_counts(ch, cfg, now_secs, ch.items.len() as int);
    assert(ch.items.take(ch.items.len() as int) =~= ch.items);
    lemma_doc_frame(ch, cfg, now_secs, "article"@);
}

/// LAW: a channel of N items, each carrying at least one category, yields a
/// document with exactly N `article` elements; and the document holds a
/// `publishCountries` element once per article when the publish-to
/// configuration is set, and none at all when it is unset.
#[verifier::rlimit(100)]
pub proof fn lemma_article_count(ch: ChannelView, cfg: ConfigView, now_secs: int)
    requires
        forall|i: int| 0 <= i < ch.items.len() ==> #[trigger] ch.items[i].categories.len() > 0,
    ensures
        count_opens(doc_events(ch, cfg, now_secs), "article"@) == ch.items.len(),
        count_opens(doc_events(ch, cfg, now_secs), "publishCountries"@) == (
        if cfg.line_pub_to_country is Some {
            ch.items.len()
        } else {
            0nat
        }),
{
    lemma_article_name_distinct();
    lemma_publish_name_distinct();
    crate::model::lemma_uncategorized_count_zero(ch.items);
    lemma_articles_prefix_counts(ch, cfg, now_secs, ch.items.len() as int);
    assert(ch.items.take(ch.items.len() as int) =~= ch.items);
    lemma_doc_frame(ch, cfg, now_secs, "article"@);
    lemma_doc_frame(ch, cfg, now_secs, "publishCountries"@);
}

/// The fixed document frame around the articles contributes no element
/// named `target` when `target` is none of its tag names.
proof fn lemma_doc_frame(ch: ChannelView, cfg: ConfigView, now_secs: int, target: Seq<char>)
    requires
        target != "articles"@,
        target != "UUID"@,
        target != "time"@,
    ensures
        count_opens(doc_events(ch, cfg, now_secs), target) == count_opens(
            articles_prefix(ch, cfg, now_secs, ch.items.len() as int),
            target,
        ),
{
    let d1 = seq![XmlEvent::Decl, XmlEvent::Open { name: "articles"@ }];
    let d2 = text_tag_events("UUID"@, uuid_of(ch));
    let d3 = text_tag_events("time"@, dec_int(doc_time_millis(ch, now_secs)));
    let d4 = articles_prefix(ch, cfg, now_secs, ch.items.len() as int);
    let d5 = seq![XmlEvent::Close { name: "articles"@ }];
    lemma_count_opens_pair(XmlEvent::Decl, XmlEvent::Open { name: "articles"@ }, target);
    lemma_count_opens_tag("UUID"@, uuid_of(ch), target);
    lemma_count_opens_tag("time"@, dec_int(doc_time_millis(ch, now_secs)), target);
    lemma_count_opens_single(XmlEvent::Close { name: "articles"@ }, target);
    lemma_count_opens_concat(d1, d2, target);
    lemma_count_opens_concat(d1 + d2, d3, target);
    lemma_count_opens_concat(d1 + d2 + d3, d4, target);
    lemma_count_opens_concat(d1 + d2 + d3 + d4, d5, target);
}

/// LAW: articles keep channel order: extending the emitted range by one
/// categorized item appends exactly that item's article events.
pub proof fn lemma_articles_in_order(ch: ChannelView, cfg: ConfigView, now_secs: int, idx: int)
    requires
        0 <= idx < ch.items.len(),
        ch.items[idx].categories.len() > 0,
    ensures
        articles_prefix(ch, cfg, now_secs, idx + 1) == articles_prefix(ch, cfg, now_secs, idx)
            + article_events(ch, cfg, idx, now_secs),
{
}

/// LAW: the document identifier is a function of the channel title and
/// last-build date alone, is at most 30 characters long, and consists of
/// ASCII letters and digits only.
pub proof fn lemma_uuid_wf(c1: ChannelView, c2: ChannelView)
    requires
        c1.title == c2.title,
        c1.last_build_date == c2.last_build_date,
    ensures
        uuid_of(c1) == uuid_of(c2),
        uuid_of(c1).len() <= 30,
        forall|i: int| 0 <= i < uuid_of(c1).len() ==> is_alnum(#[trigger] uuid_of(c1)[i]),
{
    crate::text::lemma_sanitize_wf(c1.title + opt_or_empty(c1.last_build_date));
}

/// LAW: an article's identifier is a function of its link alone when it has
/// one: the same link gives the same identifier, whatever the item's index
/// or its channel.
pub proof fn lemma_item_id_of_link(c1: ChannelView, i1: int, c2: ChannelView, i2: int)
    requires
        0 <= i1 < c1.items.len(),
        0 <= i2 < c2.items.len(),
        c1.items[i1].link is Some,
        c1.items[i1].link == c2.items[i2].link,
    ensures
        item_id(c1, i1) == item_id(c2, i2),
{
}

/// LAW: an article's identifier without a link is a function of its index
/// and the channel title alone.
pub proof fn lemma_item_id_of_index(c1: ChannelView, i1: int, c2: ChannelView, i2: int)
    requires
        0 <= i1 < c1.items.len(),
        0 <= i2 < c2.items.len(),
        c1.items[i1].link is None,
        c2.items[i2].link is None,
        i1 == i2,
        c1.title == c2.title,
    ensures
        item_id(c1, i1) == item_id(c2, i2),
{
}

/// LAW: the publish window is exactly the configured duration: the end
/// timestamp minus the start timestamp is weeks times 7 times 86400 times
/// 1000 milliseconds, for any configured duration.
pub proof fn lemma_publish_window(it: FeedItemView, cfg: ConfigView, now_secs: int)
    ensures
        end_millis_of(it, cfg, now_secs) - start_millis(it, now_secs) == weeks_of(cfg) * 7 * 86400
            * 1000,
{
    assert(weeks_of(cfg) * 604800000 == weeks_of(cfg) * 7 * 86400 * 1000) by (nonlinear_arith);
}

} // verus!

