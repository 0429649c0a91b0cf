//! Core of an RSS-to-push-notification watcher.
//!
//! The library renders feed entries into notification payloads: it resolves
//! `{{...}}` placeholder tags against feed and entry metadata, escapes the
//! result for embedding in a JSON payload, filters entries against a
//! last-fetch cutoff, and builds the payload and the conditional-fetch
//! header value.  Network and database access live outside the library.
#![verifier::loop_isolation(false)]

pub mod fetch;
pub mod foreign;
pub mod model;
pub mod notify;
pub mod render;

pub use render::escape;
pub use render::fill_template;
