//! Data model of a fetched feed, as the rendering core reads it.
//!
//! A decoded feed document is held as plain values: every text field is a
//! `String`, every timestamp a Unix-seconds `i64`, and every text-bearing
//! field carries its content classification.  The decoding itself happens
//! outside the library; the library only renders what is here.
use vstd::prelude::*;

verus! {

/// Content classification of a text field: markup to be converted to
/// markdown, plain text passed through, or anything else (carrying the
/// content type's printed form for the diagnostic sentinel).
#[derive(Debug, Clone)]
pub enum TextKind {
    Html,
    Plain,
    Other(String),
}

/// A text field together with its content classification.
#[derive(Debug, Clone)]
pub struct Text {
    pub kind: TextKind,
    pub content: String,
}

/// An author or contributor.
#[derive(Debug, Clone)]
pub struct Person {
    pub name: String,
    pub uri: Option<String>,
    pub email: Option<String>,
}

/// A link carried by a feed or an entry.
#[derive(Debug, Clone)]
pub struct Link {
    pub href: String,
    pub title: Option<String>,
    pub rel: Option<String>,
}

/// A category tag.
#[derive(Debug, Clone)]
pub struct Category {
    pub term: String,
    pub label: Option<String>,
}

/// One entry of a feed document.
#[derive(Debug, Clone)]
pub struct Entry {
    pub id: String,
    pub title: Option<Text>,
    pub updated: Option<i64>,
    pub published: Option<i64>,
    pub summary: Option<Text>,
    pub rights: Option<Text>,
    pub source: Option<String>,
    pub authors: Vec<Person>,
    pub links: Vec<Link>,
    pub categories: Vec<Category>,
    pub contributors: Vec<Person>,
}

/// A decoded feed document: feed-level metadata plus its entries, in
/// document order.
#[derive(Debug, Clone)]
pub struct Feed {
    pub id: String,
    pub title: Option<Text>,
    pub description: Option<Text>,
    pub rights: Option<Text>,
    pub language: Option<String>,
    pub updated: Option<i64>,
    pub published: Option<i64>,
    pub authors: Vec<Person>,
    pub links: Vec<Link>,
    pub categories: Vec<Category>,
    pub contributors: Vec<Person>,
    pub entries: Vec<Entry>,
}

/// One configured feed, as the configuration store hands it over:
/// identity, source URL, the last successful fetch time (absent when the
/// feed was never fetched), the two templates, and the push destination.
#[derive(Debug, Clone)]
pub struct FeedConf {
    pub id: u32,
    pub url: String,
    pub last_fetch: Option<i64>,
    pub title: String,
    pub message: String,
    pub push_url: String,
    pub push_token: String,
}

} // verus!
