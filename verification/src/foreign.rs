//! Contracts for the outside functions the rendering core calls.
use vstd::prelude::*;

verus! {

/// Relies on std's `String::push`: appends the given character to the end of
/// the string.
pub assume_specification[ String::push ](s: &mut String, ch: char)
    ensures
        final(s)@ == old(s)@.push(ch),
;

/// The markdown rendering of an HTML fragment, as `html2md::parse_html`
/// computes it.  The result depends on the input characters alone.
pub uninterp spec fn markdown_of(s: Seq<char>) -> Seq<char>;

/// Relies on `html2md::parse_html`: converts an HTML fragment to its
/// markdown rendering, a pure function of the input text.
#[verifier::external_body]
pub(crate) fn html_to_markdown(s: &str) -> (r: String)
    ensures
        r@ == markdown_of(s@),
{
    html2md::parse_html(s)
}

/// The RFC 2822 rendering of a Unix timestamp (seconds), as chrono formats
/// it for the UTC timezone: for example `Thu, 1 Jan 1970 00:00:00 +0000`.
/// The result depends on the timestamp alone.
pub uninterp spec fn rfc2822_of(ts: i64) -> Seq<char>;

/// Earliest second chrono's RFC 2822 formatter accepts (year 0).
pub const RFC2822_MIN_TS: i64 = -62167219200;

/// Latest second chrono's RFC 2822 formatter accepts (end of year 9999).
pub const RFC2822_MAX_TS: i64 = 253402300799;

/// Relies on chrono: `DateTime::<Utc>::from_timestamp` turns the seconds
/// into the corresponding UTC instant (the range bound keeps it in years
/// 0 through 9999, where it cannot fail), and `DateTime::to_rfc2822`
/// formats that instant; `to_rfc2822` panics outside those years, so the
/// bound also keeps this call from panicking.
#[verifier::external_body]
pub(crate) fn rfc2822(ts: i64) -> (r: String)
    requires
        RFC2822_MIN_TS <= ts <= RFC2822_MAX_TS,
    ensures
        r@ == rfc2822_of(ts),
{
    match chrono::DateTime::<chrono::Utc>::from_timestamp(ts, 0) {
        Some(d) => d.to_rfc2822(),
        None => String::new(),
    }
}

} // verus!
