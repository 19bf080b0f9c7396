//! The per-request configuration consumed by the transformer.
//!
//! Loading these values from the process environment is the surrounding
//! program's concern; the library only reads them.

use vstd::prelude::*;

verus! {

/// Service configuration. The transformer reads only the `line_*` fields and
/// `publish_duration_in_weeks`; the rest describe how the surrounding program
/// serves and fetches.
pub struct Config {
    pub host: String,
    pub port: String,
    pub cert_file: Option<String>,
    pub key_file: Option<String>,
    pub wp_feed_url: String,
    pub line_native_country: String,
    pub line_pub_to_country: Option<String>,
    pub line_excl_from_country: Option<String>,
    pub line_lang: Option<String>,
    pub publish_duration_in_weeks: Option<u8>,
}

/// The mathematical view of a [`Config`].
pub struct ConfigView {
    pub host: Seq<char>,
    pub port: Seq<char>,
    pub cert_file: Option<Seq<char>>,
    pub key_file: Option<Seq<char>>,
    pub wp_feed_url: Seq<char>,
    pub line_native_country: Seq<char>,
    pub line_pub_to_country: Option<Seq<char>>,
    pub line_excl_from_country: Option<Seq<char>>,
    pub line_lang: Option<Seq<char>>,
    pub publish_duration_in_weeks: Option<u8>,
}

impl DeepView for Config {
    type V = ConfigView;

    open spec fn deep_view(&self) -> ConfigView {
        ConfigView {
            host: self.host.deep_view(),
            port: self.port.deep_view(),
            cert_file: self.cert_file.deep_view(),
            key_file: self.key_file.deep_view(),
            wp_feed_url: self.wp_feed_url.deep_view(),
            line_native_country: self.line_native_country.deep_view(),
            line_pub_to_country: self.line_pub_to_country.deep_view(),
            line_excl_from_country: self.line_excl_from_country.deep_view(),
            line_lang: self.line_lang.deep_view(),
            publish_duration_in_weeks: self.publish_duration_in_weeks.deep_view(),
        }
    }
}

} // verus!
