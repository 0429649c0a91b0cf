use rss_watcher::model::Category;
use rss_watcher::model::Entry;
use rss_watcher::model::Feed;
use rss_watcher::model::Link;
use rss_watcher::model::Person;
use rss_watcher::model::Text;
use rss_watcher::model::TextKind;
use rss_watcher::render::escape;
use rss_watcher::render::extract_datetime;
use rss_watcher::render::extract_string;
use rss_watcher::render::fill_template;
use rss_watcher::render::fill_template_field;
use rss_watcher::render::replace_all;

fn empty_entry() -> Entry {
    Entry {
        id: String::from("entry-1"),
        title: None,
        updated: None,
        published: None,
        summary: None,
        rights: None,
        source: None,
        authors: vec![],
        links: vec![],
        categories: vec![],
        contributors: vec![],
    }
}

fn empty_feed() -> Feed {
    Feed {
        id: String::from("feed-1"),
        title: None,
        description: None,
        rights: None,
        language: None,
        updated: None,
        published: None,
        authors: vec![],
        links: vec![],
        categories: vec![],
        contributors: vec![],
        entries: vec![],
    }
}

fn plain(s: &str) -> Option<Text> {
    Some(Text { kind: TextKind::Plain, content: String::from(s) })
}

#[test]
fn plain_template_is_rendered_verbatim() {
    let r = fill_template("hello world, no tags here.", &empty_entry(), &empty_feed());
    assert_eq!(r, "hello world, no tags here.");
}

#[test]
fn unknown_path_renders_sentinel() {
    let r = fill_template("{{unknown.path}}", &empty_entry(), &empty_feed());
    assert_eq!(r, "Unknown field \\\"unknown.path\\\"");
}

#[test]
fn unterminated_tag_is_dropped() {
    let r = fill_template("Hello {{title", &empty_entry(), &empty_feed());
    assert_eq!(r, "Hello ");
}

#[test]
fn single_brace_passes_through() {
    let r = fill_template("a{b}c", &empty_entry(), &empty_feed());
    assert_eq!(r, "a{b}c");
}

#[test]
fn escape_applies_fixed_mapping_once() {
    let r = escape(String::from("back\\slash \"quote\" line\nbreak & co"));
    assert_eq!(r, "back\\\\slash \\\"quote\\\" line\\nbreak $amp; co");
}

#[test]
fn escape_neutralizes_angle_brackets() {
    let r = escape(String::from("<b>"));
    assert_eq!(r, "$amp;lt;b$amp;gt;");
}

#[test]
fn escape_of_empty_is_empty() {
    assert_eq!(escape(String::new()), "");
}

#[test]
fn triple_brace_run_does_not_nest() {
    let mut feed = empty_feed();
    feed.title = plain("Changelog");
    let r = fill_template("{{{{title}}", &empty_entry(), &feed);
    assert_eq!(r, "Changelog");
}

#[test]
fn missing_field_renders_sentinel() {
    let r = fill_template("{{entry.title}}", &empty_entry(), &empty_feed());
    assert_eq!(r, "Field \\\"entry.title\\\" was not in feed");
}

#[test]
fn plain_text_field_passes_through() {
    let mut feed = empty_feed();
    feed.title = plain("Changelog");
    let r = fill_template("{{title}}", &empty_entry(), &feed);
    assert_eq!(r, "Changelog");
}

#[test]
fn html_field_is_converted_to_markdown() {
    let mut entry = empty_entry();
    entry.summary = Some(Text {
        kind: TextKind::Html,
        content: String::from("<p>very <b>good</b> news</p>"),
    });
    let r = fill_template_field("entry.summary", &entry, &empty_feed());
    assert_eq!(r, "very **good** news");
}

#[test]
fn unknown_content_type_renders_sentinel() {
    let mut entry = empty_entry();
    entry.summary = Some(Text {
        kind: TextKind::Other(String::from("application/json")),
        content: String::from("{}"),
    });
    let r = fill_template_field("entry.summary", &entry, &empty_feed());
    assert_eq!(r, "Unknown field content type application/json");
}

#[test]
fn datetime_renders_rfc2822_with_utc() {
    let r = extract_datetime(&Some(0), "updated");
    assert_eq!(r, "Thu, 1 Jan 1970 00:00:00 UTC");
}

#[test]
fn datetime_of_known_instant() {
    // 2009-02-13 23:31:30 UTC
    let r = extract_datetime(&Some(1234567890), "updated");
    assert_eq!(r, "Fri, 13 Feb 2009 23:31:30 UTC");
}

#[test]
fn datetime_absent_renders_sentinel() {
    let r = extract_datetime(&None, "published");
    assert_eq!(r, "Field \"published\" was not in feed");
}

#[test]
fn datetime_beyond_rfc2822_renders_sentinel() {
    let r = extract_datetime(&Some(i64::MAX), "updated");
    assert_eq!(r, "Field \"updated\" was not in feed");
}

#[test]
fn extract_string_present_and_absent() {
    assert_eq!(extract_string(&Some(String::from("en")), "language"), "en");
    assert_eq!(extract_string(&None, "language"), "Field \"language\" was not in feed");
}

#[test]
fn authors_render_all_person_shapes() {
    let mut feed = empty_feed();
    feed.authors = vec![
        Person {
            name: String::from("Ada"),
            uri: Some(String::from("http://ada.example")),
            email: Some(String::from("ada@example.org")),
        },
        Person {
            name: String::from("Grace"),
            uri: Some(String::from("http://grace.example")),
            email: None,
        },
        Person { name: String::from("Edsger"), uri: None, email: Some(String::from("e@x.nl")) },
        Person { name: String::from("Alan"), uri: None, email: None },
    ];
    let r = fill_template_field("authors", &empty_entry(), &feed);
    assert_eq!(
        r,
        "[Ada](ada@example.org) - [homepage](http://ada.example), \
         [Grace](http://grace.example), [Edsger](e@x.nl), Alan"
    );
}

#[test]
fn links_prefer_title_then_rel_then_href() {
    let mut entry = empty_entry();
    entry.links = vec![
        Link {
            href: String::from("http://a.example"),
            title: Some(String::from("A")),
            rel: Some(String::from("alternate")),
        },
        Link { href: String::from("http://b.example"), title: None, rel: Some(String::from("via")) },
        Link { href: String::from("http://c.example"), title: None, rel: None },
    ];
    let r = fill_template_field("entry.links", &entry, &empty_feed());
    assert_eq!(
        r,
        "[A](http://a.example), [via](http://b.example), [http://c.example](http://c.example)"
    );
}

#[test]
fn categories_prefer_label_over_term() {
    let mut feed = empty_feed();
    feed.categories = vec![
        Category { term: String::from("tech"), label: Some(String::from("Technology")) },
        Category { term: String::from("sci"), label: None },
    ];
    let r = fill_template_field("categories", &empty_entry(), &feed);
    assert_eq!(r, "Technology, sci");
}

#[test]
fn empty_person_list_renders_empty() {
    let r = fill_template_field("contributors", &empty_entry(), &empty_feed());
    assert_eq!(r, "");
}

#[test]
fn whitespace_in_tag_is_not_trimmed() {
    let mut feed = empty_feed();
    feed.title = plain("Changelog");
    let r = fill_template("{{ title }}", &empty_entry(), &feed);
    assert_eq!(r, "Unknown field \\\" title \\\"");
}

#[test]
fn replace_all_replaces_every_occurrence() {
    let r = replace_all("+0000 and +0000", "+0000", "UTC");
    assert_eq!(r, "UTC and UTC");
}

#[test]
fn replace_all_without_match_is_identity() {
    let r = replace_all("nothing here", "+0000", "UTC");
    assert_eq!(r, "nothing here");
}
