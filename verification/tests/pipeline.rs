use rss_watcher::fetch::classify_status;
use rss_watcher::fetch::cutoff_time;
use rss_watcher::fetch::if_modified_since;
use rss_watcher::fetch::FetchClass;
use rss_watcher::model::Entry;
use rss_watcher::model::Feed;
use rss_watcher::model::FeedConf;
use rss_watcher::model::Link;
use rss_watcher::model::Text;
use rss_watcher::model::TextKind;
use rss_watcher::notify::entry_fresh;
use rss_watcher::notify::message_url;
use rss_watcher::notify::payload_json;
use rss_watcher::notify::render_all;
use rss_watcher::notify::Notification;

fn entry_published(published: Option<i64>) -> Entry {
    Entry {
        id: String::from("e"),
        title: None,
        updated: None,
        published,
        summary: None,
        rights: None,
        source: None,
        authors: vec![],
        links: vec![],
        categories: vec![],
        contributors: vec![],
    }
}

fn feed_with_entries(entries: Vec<Entry>) -> Feed {
    Feed {
        id: String::from("f"),
        title: None,
        description: None,
        rights: None,
        language: None,
        updated: None,
        published: None,
        authors: vec![],
        links: vec![],
        categories: vec![],
        contributors: vec![],
        entries,
    }
}

fn conf(title: &str, message: &str) -> FeedConf {
    FeedConf {
        id: 7,
        url: String::from("http://feed.example/rss"),
        last_fetch: None,
        title: String::from(title),
        message: String::from(message),
        push_url: String::from("http://push.example"),
        push_token: String::from("tok"),
    }
}

#[test]
fn no_cutoff_keeps_every_entry() {
    assert!(entry_fresh(&entry_published(None), None));
    assert!(entry_fresh(&entry_published(Some(0)), None));
    assert!(entry_fresh(&entry_published(Some(i64::MIN)), None));
    let feed = feed_with_entries(vec![
        entry_published(Some(-100)),
        entry_published(Some(0)),
        entry_published(None),
    ]);
    let notifs = render_all(&feed, &conf("t", "m"), None);
    assert_eq!(notifs.len(), 3);
}

#[test]
fn cutoff_boundary_is_strict() {
    let t = 1_000_000;
    assert!(!entry_fresh(&entry_published(Some(t)), Some(t)));
    assert!(entry_fresh(&entry_published(Some(t + 1)), Some(t)));
    assert!(entry_fresh(&entry_published(None), Some(t)));
    assert!(!entry_fresh(&entry_published(Some(t - 1)), Some(t)));
}

#[test]
fn cutoff_filter_drops_old_entries() {
    let feed = feed_with_entries(vec![
        entry_published(Some(50)),
        entry_published(Some(100)),
        entry_published(Some(101)),
        entry_published(None),
    ]);
    let notifs = render_all(&feed, &conf("x", "y"), Some(100));
    assert_eq!(notifs.len(), 2);
}

#[test]
fn end_to_end_rendering() {
    let mut entry = entry_published(Some(10));
    entry.title = Some(Text { kind: TextKind::Plain, content: String::from("Release 2.0") });
    entry.summary = Some(Text { kind: TextKind::Plain, content: String::from("Bug fixes") });
    let mut feed = feed_with_entries(vec![entry]);
    feed.title = Some(Text { kind: TextKind::Plain, content: String::from("Changelog") });
    let c = conf("{{title}}: {{entry.title}}", "{{entry.summary}}");
    let notifs = render_all(&feed, &c, Some(0));
    assert_eq!(notifs.len(), 1);
    assert_eq!(notifs[0].title, "Changelog: Release 2.0");
    assert_eq!(notifs[0].message, "Bug fixes");
    assert!(notifs[0].link.is_none());
    let payload = payload_json(&notifs[0]);
    assert_eq!(
        payload,
        "{\"title\":\"Changelog: Release 2.0\",\"message\":\"Bug fixes\",\"priority\":1,\
         \"extras\": {\"client::display\": { \"contentType\": \"text/markdown\" }}}"
    );
}

#[test]
fn first_link_becomes_escaped_click_target() {
    let mut entry = entry_published(None);
    entry.links = vec![
        Link { href: String::from("http://a.example/?x=1&y=2"), title: None, rel: None },
        Link { href: String::from("http://b.example"), title: None, rel: None },
    ];
    let feed = feed_with_entries(vec![entry]);
    let notifs = render_all(&feed, &conf("t", "m"), None);
    assert_eq!(notifs.len(), 1);
    assert_eq!(notifs[0].link.as_deref(), Some("http://a.example/?x=1$amp;y=2"));
}

#[test]
fn payload_with_link_carries_click_action() {
    let n = Notification {
        title: String::from("T"),
        message: String::from("M"),
        link: Some(String::from("http://x.example")),
    };
    let payload = payload_json(&n);
    assert_eq!(
        payload,
        "{\"title\":\"T\",\"message\":\"M\",\"priority\":1,\"extras\": \
         {\"client::display\": { \"contentType\": \"text/markdown\" },\
         \"client::notification\": { \"click\": { \"url\": \"http://x.example\"}}}}"
    );
}

#[test]
fn status_classification() {
    assert_eq!(classify_status(304), FetchClass::NotModified);
    assert_eq!(classify_status(200), FetchClass::Document);
    assert_eq!(classify_status(226), FetchClass::Document);
    assert_eq!(classify_status(404), FetchClass::Failed);
    assert_eq!(classify_status(500), FetchClass::Failed);
    assert_eq!(classify_status(199), FetchClass::Failed);
}

#[test]
fn cutoff_substitutes_now_when_never_fetched() {
    assert_eq!(cutoff_time(None, 12345), 12345);
    assert_eq!(cutoff_time(Some(99), 12345), 99);
}

#[test]
fn if_modified_since_formats_gmt() {
    assert_eq!(if_modified_since(0).as_deref(), Some("Thu, 1 Jan 1970 00:00:00 GMT"));
    assert_eq!(
        if_modified_since(1234567890).as_deref(),
        Some("Fri, 13 Feb 2009 23:31:30 GMT")
    );
    assert_eq!(if_modified_since(i64::MAX), None);
    assert_eq!(if_modified_since(i64::MIN), None);
}

#[test]
fn message_url_appends_endpoint() {
    assert_eq!(message_url("http://push.example"), "http://push.example/message");
}
