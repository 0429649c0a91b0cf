//! Entry filtering, per-entry notification rendering, and payload assembly.
use crate::model::Entry;
use crate::model::Feed;
use crate::model::FeedConf;
use crate::render::escape;
use crate::render::escape_text;
use crate::render::fill_template;
use crate::render::spec_fill_template;
use vstd::prelude::*;

verus! {

/// One rendered notification: escaped title and message, and the escaped
/// click target taken from the entry's first link, when it has one.
#[derive(Debug, Clone)]
pub struct Notification {
    pub title: String,
    pub message: String,
    pub link: Option<String>,
}

/// Whether an entry survives the last-fetch cutoff: an entry with no
/// published time is always kept (it cannot be judged old), and with no
/// cutoff every entry is kept; otherwise the entry is kept exactly when it
/// was published strictly after the cutoff.
pub open spec fn spec_entry_fresh(e: Entry, cutoff: Option<i64>) -> bool {
    match e.published {
        Option::None => true,
        Option::Some(p) => match cutoff {
            Option::None => true,
            Option::Some(t) => p > t,
        },
    }
}

/// Decides whether an entry survives the cutoff filter.
pub fn entry_fresh(e: &Entry, cutoff: Option<i64>) -> (r: bool)
    ensures
        r == spec_entry_fresh(*e, cutoff),
{
    match &e.published {
        Option::None => true,
        Option::Some(p) => match cutoff {
            Option::None => true,
            Option::Some(t) => *p > t,
        },
    }
}

/// With no prior last-fetch timestamp there is no cutoff, and every entry
/// is kept, whatever its published time.
pub proof fn lemma_no_cutoff_keeps_all(e: Entry)
    ensures
        spec_entry_fresh(e, Option::None),
{
}

/// At a cutoff `t`: an entry published exactly at `t` is dropped, one
/// published strictly after `t` is kept, and one with no published time is
/// always kept.
pub proof fn lemma_cutoff_boundary(e: Entry, t: i64)
    ensures
        e.published == Option::Some(t) ==> !spec_entry_fresh(e, Option::Some(t)),
        (e.published matches Option::Some(p) && p > t) ==> spec_entry_fresh(e, Option::Some(t)),
        e.published is None ==> spec_entry_fresh(e, Option::Some(t)),
{
}

/// The sub-sequence of entries that survive the cutoff, in document order.
pub open spec fn spec_fresh_entries(es: Seq<Entry>, cutoff: Option<i64>) -> Seq<Entry>
    decreases es.len(),
{
    if es.len() == 0 {
        Seq::empty()
    } else {
        spec_fresh_entries(es.drop_last(), cutoff) + (if spec_entry_fresh(es.last(), cutoff) {
            seq![es.last()]
        } else {
            Seq::empty()
        })
    }
}

/// With no prior last-fetch timestamp, the filter keeps the whole entry
/// sequence, whatever the entries' published times.
pub proof fn lemma_no_cutoff_keeps_every_entry(es: Seq<Entry>)
    ensures
        spec_fresh_entries(es, Option::None) == es,
    decreases es.len(),
{
    if es.len() == 0 {
        assert(spec_fresh_entries(es, Option::None) =~= es);
    } else {
        lemma_no_cutoff_keeps_every_entry(es.drop_last());
        assert(spec_fresh_entries(es, Option::None) =~= es.drop_last() + seq![es.last()]);
        assert(es.drop_last() + seq![es.last()] =~= es);
    }
}

/// What one rendered notification must look like for an entry: both
/// templates rendered against the entry and its feed, and the click target
/// the escaped first link, absent exactly when the entry has no links.
pub open spec fn spec_notification(
    n: Notification,
    e: Entry,
    f: Feed,
    title_tpl: Seq<char>,
    msg_tpl: Seq<char>,
) -> bool {
    &&& n.title@ == spec_fill_template(title_tpl, e, f)
    &&& n.message@ == spec_fill_template(msg_tpl, e, f)
    &&& match n.link {
        Option::None => e.links@.len() == 0,
        Option::Some(l) => e.links@.len() > 0 && l@ == escape_text(e.links@[0].href@),
    }
}

/// Renders one entry into a notification, using the configured title and
/// message templates.
pub fn render_notification(entry: &Entry, feed: &Feed, conf: &FeedConf) -> (r: Notification)
    ensures
        spec_notification(r, *entry, *feed, conf.title@, conf.message@),
{
    let title = fill_template(conf.title.as_str(), entry, feed);
    let message = fill_template(conf.message.as_str(), entry, feed);
    let link = if entry.links.len() > 0 {
        Option::Some(escape(entry.links[0].href.clone()))
    } else {
        Option::None
    };
    Notification { title, message, link }
}

/// Renders every entry that survives the cutoff, one notification per
/// surviving entry, in document order.
pub fn render_all(feed: &Feed, conf: &FeedConf, cutoff: Option<i64>) -> (r: Vec<Notification>)
    ensures
        ({
            let kept = spec_fresh_entries(feed.entries@, cutoff);
            &&& r@.len() == kept.len()
            &&& forall|j: int|
                0 <= j < kept.len() ==> spec_notification(
                    #[trigger] r@[j],
                    kept[j],
                    *feed,
                    conf.title@,
                    conf.message@,
                )
        }),
{
    let n = feed.entries.len();
    let mut out: Vec<Notification> = Vec::new();
    let mut i: usize = 0;
    while i < n
        invariant
            i <= n,
            n == feed.entries@.len(),
            out@.len() == spec_fresh_entries(feed.entries@.take(i as int), cutoff).len(),
            forall|j: int|
                0 <= j < out@.len() ==> spec_notification(
                    #[trigger] out@[j],
                    spec_fresh_entries(feed.entries@.take(i as int), cutoff)[j],
                    *feed,
                    conf.title@,
                    conf.message@,
                ),
        decreases n - i,
    {
        let ghost kept_before = spec_fresh_entries(feed.entries@.take(i as int), cutoff);
        let entry = &feed.entries[i];
        if entry_fresh(entry, cutoff) {
            let notif = render_notification(entry, feed, conf);
            out.push(notif);
        }
        proof {
            assert(feed.entries@.take(i + 1).drop_last() =~= feed.entries@.take(i as int));
            assert(feed.entries@.take(i + 1).last() == feed.entries@[i as int]);
            let kept_after = spec_fresh_entries(feed.entries@.take(i + 1), cutoff);
            if spec_entry_fresh(feed.entries@[i as int], cutoff) {
                assert(kept_after =~= kept_before.push(feed.entries@[i as int]));
            } else {
                assert(kept_after =~= kept_before);
            }
        }
        i = i + 1;
    }
    proof {
        assert(feed.entries@.take(n as int) =~= feed.entries@);
    }
    out
}

/// The JSON payload carrying one notification: title, message, the fixed
/// priority, the markdown display hint, and, when the entry had a link, the
/// click-action target.
pub open spec fn spec_payload(n: Notification) -> Seq<char> {
    let head = "{"@ + "\"title\":\""@ + n.title@ + "\""@ + ",\"message\":\""@ + n.message@ + "\""@
        + ",\"priority\":1"@ + ",\"extras\": {"@
        + "\"client::display\": { \"contentType\": \"text/markdown\" }"@;
    match n.link {
        Option::None => head + "}}"@,
        Option::Some(l) => head + ",\"client::notification\": { \"click\": { \"url\": \""@ + l@
            + "\"}}"@ + "}}"@,
    }
}

/// Builds the JSON payload for one notification.
pub fn payload_json(n: &Notification) -> (r: String)
    ensures
        r@ == spec_payload(*n),
{
    let mut req = String::from_str("{");
    req.append("\"title\":\"");
    req.append(n.title.as_str());
    req.append("\"");
    req.append(",\"message\":\"");
    req.append(n.message.as_str());
    req.append("\"");
    req.append(",\"priority\":1");
    req.append(",\"extras\": {");
    req.append("\"client::display\": { \"contentType\": \"text/markdown\" }");
    match &n.link {
        Option::Some(l) => {
            req.append(",\"client::notification\": { \"click\": { \"url\": \"");
            req.append(l.as_str());
            req.append("\"}}");
        },
        Option::None => {},
    }
    req.append("}}");
    req
}

/// The gateway endpoint for a configured push destination.
pub fn message_url(push_url: &str) -> (r: String)
    ensures
        r@ == push_url@ + "/message"@,
{
    let mut r = String::from_str(push_url);
    r.append("/message");
    r
}

} // verus!
