//! A feed-transformation library: it takes a syndication channel fetched from
//! an upstream source, and re-emits it as a provider-specific article-feed XML
//! document, computing derived identifiers, publish windows and fallback
//! values along the way.

pub mod config;
pub mod dates;
pub mod decimal;
pub mod emit;
pub mod hash;
pub mod healthcheck;
pub mod linetoday;
pub mod model;
pub mod routes;
pub mod strutil;
pub mod text;
pub mod wordpress;
