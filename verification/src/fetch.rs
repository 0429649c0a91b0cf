//! The decisions of the conditional fetch: cutoff substitution, the
//! `If-Modified-Since` header value, and response classification.
use crate::foreign::rfc2822_of;
use crate::foreign::RFC2822_MAX_TS;
use crate::foreign::RFC2822_MIN_TS;
use crate::render::replace_all;
use crate::render::replace_text;
use crate::render::rfc2822_in_range;
use vstd::prelude::*;

verus! {

/// What a fetch response means for the pipeline: the document is unchanged,
/// a fresh document arrived, or the fetch failed for this cycle.
#[derive(Debug, Clone, Copy, PartialEq, Eq, Structural)]
pub enum FetchClass {
    NotModified,
    Document,
    Failed,
}

/// The classification of an HTTP status: `304` means unchanged, any other
/// success status carries a document, anything else is a failed fetch.
pub open spec fn spec_classify(status: u16) -> FetchClass {
    if status == 304 {
        FetchClass::NotModified
    } else if 200 <= status < 300 {
        FetchClass::Document
    } else {
        FetchClass::Failed
    }
}

/// Classifies a fetch response status.
pub fn classify_status(status: u16) -> (r: FetchClass)
    ensures
        r == spec_classify(status),
{
    if status == 304 {
        FetchClass::NotModified
    } else if 200 <= status && status < 300 {
        FetchClass::Document
    } else {
        FetchClass::Failed
    }
}

/// The cutoff instant for one cycle: the stored last-fetch time, or `now`
/// when the feed was never fetched, so that no earlier entry looks new.
pub open spec fn spec_cutoff(last_fetch: Option<i64>, now: i64) -> i64 {
    match last_fetch {
        Option::Some(t) => t,
        Option::None => now,
    }
}

/// Substitutes `now` for an absent last-fetch timestamp.
pub fn cutoff_time(last_fetch: Option<i64>, now: i64) -> (r: i64)
    ensures
        r == spec_cutoff(last_fetch, now),
{
    match last_fetch {
        Option::Some(t) => t,
        Option::None => now,
    }
}

/// The conditional-freshness precondition sent with a fetch: the cutoff
/// formatted per RFC 2822 with the `+0000` offset rendered as the literal
/// `GMT`; absent when the instant is beyond what RFC 2822 can carry.
pub fn if_modified_since(ts: i64) -> (r: Option<String>)
    ensures
        match r {
            Option::Some(s) => rfc2822_in_range(ts) && s@ == replace_text(
                rfc2822_of(ts),
                "+0000"@,
                "GMT"@,
            ),
            Option::None => !rfc2822_in_range(ts),
        },
{
    if RFC2822_MIN_TS <= ts && ts <= RFC2822_MAX_TS {
        let formatted = crate::foreign::rfc2822(ts);
        proof {
            reveal_strlit("+0000");
        }
        Option::Some(replace_all(formatted.as_str(), "+0000", "GMT"))
    } else {
        Option::None
    }
}

} // verus!
