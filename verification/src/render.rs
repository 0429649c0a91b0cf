//! Placeholder rendering and payload-safe escaping.
use crate::foreign::markdown_of;
use crate::foreign::rfc2822_of;
use crate::foreign::RFC2822_MAX_TS;
use crate::foreign::RFC2822_MIN_TS;
use crate::model::Category;
use crate::model::Entry;
use crate::model::Feed;
use crate::model::Link;
use crate::model::Person;
use crate::model::Text;
use crate::model::TextKind;
use vstd::prelude::*;

verus! {

// ---------------------------------------------------------------------------
// Escaping
// ---------------------------------------------------------------------------

/// What one character becomes under the payload escaper: JSON-breaking
/// characters get a backslash escape, and the three HTML-active characters
/// are neutralized (the ampersand replacement is the fixed marker `$amp;`,
/// which is also why an escaped `<` reads `$amp;lt;`: the ampersand of its
/// entity is itself neutralized).
pub open spec fn escape_char(c: char) -> Seq<char> {
    if c == '\\' {
        "\\\\"@
    } else if c == '"' {
        "\\\""@
    } else if c == '\n' {
        "\\n"@
    } else if c == '<' {
        "$amp;lt;"@
    } else if c == '>' {
        "$amp;gt;"@
    } else if c == '&' {
        "$amp;"@
    } else {
        seq![c]
    }
}

/// The escaper over a whole text: each character replaced by its expansion,
/// in order.  Applying it a second time escapes the escapes, so it is applied
/// exactly once, at the final rendering boundary.
pub open spec fn escape_text(s: Seq<char>) -> Seq<char>
    decreases s.len(),
{
    if s.len() == 0 {
        Seq::empty()
    } else {
        escape_text(s.drop_last()) + escape_char(s.last())
    }
}

/// Escapes characters that would break the JSON payload, and neutralizes
/// the HTML-active characters, in one pass over the input.
pub fn escape(input: String) -> (r: String)
    ensures
        r@ == escape_text(input@),
{
    let n = input.as_str().unicode_len();
    let mut out = String::new();
    let mut i: usize = 0;
    while i < n
        invariant
            i <= n,
            out@ == escape_text(input@.take(i as int)),
        decreases n - i,
    {
        let c = input.as_str().get_char(i);
        if c == '\\' {
            out.append("\\\\");
        } else if c == '"' {
            out.append("\\\"");
        } else if c == '\n' {
            out.append("\\n");
        } else if c == '<' {
            out.append("$amp;lt;");
        } else if c == '>' {
            out.append("$amp;gt;");
        } else if c == '&' {
            out.append("$amp;");
        } else {
            out.push(c);
        }
        proof {
            assert(input@.take(i + 1).drop_last() =~= input@.take(i as int));
            assert(input@.take(i + 1).last() == input@[i as int]);
        }
        i = i + 1;
    }
    proof {
        assert(input@.take(n as int) =~= input@);
    }
    out
}

// ---------------------------------------------------------------------------
// Small string utilities
// ---------------------------------------------------------------------------

/// Character-wise equality of two string slices.
fn str_eq(a: &str, b: &str) -> (r: bool)
    ensures
        r == (a@ == b@),
{
    let na = a.unicode_len();
    let nb = b.unicode_len();
    if na != nb {
        return false;
    }
    let mut i: usize = 0;
    while i < na
        invariant
            i <= na,
            na == a@.len() == b@.len(),
            forall|k: int| 0 <= k < i ==> a@[k] == b@[k],
        decreases na - i,
    {
        if a.get_char(i) != b.get_char(i) {
            return false;
        }
        i = i + 1;
    }
    proof {
        assert(a@ =~= b@);
    }
    true
}

/// `s` with every occurrence of `pat` replaced by `rep`: scanning left to
/// right, a match is consumed whole and scanning resumes after it, as std's
/// `str::replace` does.
pub open spec fn replace_text(s: Seq<char>, pat: Seq<char>, rep: Seq<char>) -> Seq<char>
    decreases s.len(),
{
    if pat.len() == 0 || s.len() < pat.len() {
        s
    } else if s.take(pat.len() as int) == pat {
        rep + replace_text(s.skip(pat.len() as int), pat, rep)
    } else {
        seq![s[0]] + replace_text(s.skip(1), pat, rep)
    }
}

/// Whether `pat` occurs in `s` starting at position `i`.
fn occurs_at(s: &str, pat: &str, i: usize) -> (r: bool)
    requires
        i + pat@.len() <= s@.len(),
    ensures
        r == (s@.subrange(i as int, i + pat@.len()) == pat@),
{
    let n = s.unicode_len();
    let m = pat.unicode_len();
    let mut j: usize = 0;
    while j < m
        invariant
            j <= m,
            m == pat@.len(),
            n == s@.len(),
            i + m <= n,
            forall|k: int| 0 <= k < j ==> s@[i + k] == pat@[k],
        decreases m - j,
    {
        if s.get_char(i + j) != pat.get_char(j) {
            proof {
                assert(s@.subrange(i as int, i + pat@.len())[j as int] != pat@[j as int]);
            }
            return false;
        }
        j = j + 1;
    }
    proof {
        assert(s@.subrange(i as int, i + pat@.len()) =~= pat@);
    }
    true
}

/// Replaces every occurrence of `pat` in `s` by `rep`.
pub fn replace_all(s: &str, pat: &str, rep: &str) -> (r: String)
    requires
        pat@.len() > 0,
    ensures
        r@ == replace_text(s@, pat@, rep@),
{
    let n = s.unicode_len();
    let m = pat.unicode_len();
    let mut out = String::new();
    let mut i: usize = 0;
    proof {
        assert(s@.skip(0) =~= s@);
        assert(Seq::<char>::empty() + replace_text(s@, pat@, rep@) =~= replace_text(
            s@,
            pat@,
            rep@,
        ));
    }
    while i < n
        invariant
            i <= n,
            n == s@.len(),
            m == pat@.len(),
            m > 0,
            out@ + replace_text(s@.skip(i as int), pat@, rep@) == replace_text(s@, pat@, rep@),
        decreases n - i,
    {
        let ghost prev = out@;
        if m <= n - i && occurs_at(s, pat, i) {
            out.append(rep);
            proof {
                assert(s@.skip(i as int).take(m as int) =~= s@.subrange(i as int, i + m));
                assert(s@.skip(i as int).skip(m as int) =~= s@.skip(i + m));
                assert(prev + (rep@ + replace_text(s@.skip(i + m), pat@, rep@)) =~= (prev + rep@)
                    + replace_text(s@.skip(i + m), pat@, rep@));
            }
            i = i + m;
        } else {
            let c = s.get_char(i);
            out.push(c);
            proof {
                let rest = s@.skip(i as int);
                assert(rest.len() >= 1);
                if rest.len() >= m {
                    assert(i + m <= n);
                    assert(rest.take(m as int) =~= s@.subrange(i as int, i + m));
                    assert(rest.take(m as int) != pat@);
                    assert(replace_text(rest, pat@, rep@) == seq![rest[0]] + replace_text(
                        rest.skip(1),
                        pat@,
                        rep@,
                    ));
                } else {
                    assert(replace_text(rest, pat@, rep@) == rest);
                    assert(rest.skip(1) =~= s@.skip(i + 1));
                    assert(replace_text(rest.skip(1), pat@, rep@) == rest.skip(1));
                    assert(rest =~= seq![rest[0]] + rest.skip(1));
                }
                assert(rest[0] == s@[i as int]);
                assert(rest.skip(1) =~= s@.skip(i + 1));
                assert(prev + (seq![s@[i as int]] + replace_text(s@.skip(i + 1), pat@, rep@))
                    =~= (prev + seq![s@[i as int]]) + replace_text(s@.skip(i + 1), pat@, rep@));
                assert(prev.push(s@[i as int]) =~= prev + seq![s@[i as int]]);
            }
            i = i + 1;
        }
    }
    proof {
        assert(s@.skip(n as int) =~= Seq::<char>::empty());
        assert(out@ + Seq::<char>::empty() =~= out@);
    }
    out
}

// ---------------------------------------------------------------------------
// Field extraction
// ---------------------------------------------------------------------------

/// The sentinel rendered when a field is absent from the feed.
pub open spec fn missing_text(name: Seq<char>) -> Seq<char> {
    "Field \""@ + name + "\" was not in feed"@
}

/// The sentinel rendered for a text field whose content classification is
/// neither plain text nor markup.
pub open spec fn unknown_kind_text(label: Seq<char>) -> Seq<char> {
    "Unknown field content type "@ + label
}

/// The sentinel rendered for a placeholder path outside the fixed path set.
pub open spec fn unknown_field_text(path: Seq<char>) -> Seq<char> {
    "Unknown field \""@ + path + "\""@
}

fn missing_msg(field: &str) -> (r: String)
    ensures
        r@ == missing_text(field@),
{
    let mut r = String::from_str("Field \"");
    r.append(field);
    r.append("\" was not in feed");
    r
}

/// What a plain string field renders to: the value, or the missing-field
/// sentinel.
pub open spec fn spec_string_value(text: Option<String>, name: Seq<char>) -> Seq<char> {
    match text {
        Option::None => missing_text(name),
        Option::Some(s) => s@,
    }
}

/// Renders an optional plain string field.
pub fn extract_string(text: &Option<String>, field: &str) -> (r: String)
    ensures
        r@ == spec_string_value(*text, field@),
{
    match text {
        Option::None => missing_msg(field),
        Option::Some(s) => s.clone(),
    }
}

/// What a classified text field renders to: markup is converted to
/// markdown, plain text passes through, any other classification or an
/// absent field yields its sentinel.
pub open spec fn spec_text_value(text: Option<Text>, name: Seq<char>) -> Seq<char> {
    match text {
        Option::None => missing_text(name),
        Option::Some(t) => match t.kind {
            TextKind::Html => markdown_of(t.content@),
            TextKind::Plain => t.content@,
            TextKind::Other(label) => unknown_kind_text(label@),
        },
    }
}

/// Renders an optional classified text field.
pub fn extract_text(text: &Option<Text>, field: &str) -> (r: String)
    ensures
        r@ == spec_text_value(*text, field@),
{
    match text {
        Option::None => missing_msg(field),
        Option::Some(t) => match &t.kind {
            TextKind::Html => crate::foreign::html_to_markdown(t.content.as_str()),
            TextKind::Plain => t.content.clone(),
            TextKind::Other(label) => {
                let mut r = String::from_str("Unknown field content type ");
                r.append(label.as_str());
                r
            },
        },
    }
}

/// Whether chrono can format the timestamp per RFC 2822 (years 0 through
/// 9999).
pub open spec fn rfc2822_in_range(ts: i64) -> bool {
    RFC2822_MIN_TS <= ts <= RFC2822_MAX_TS
}

/// What a timestamp field renders to: the RFC 2822 form with the `+0000`
/// offset rewritten to `UTC`; an absent field, or an instant beyond what
/// RFC 2822 can carry, yields the missing-field sentinel.
pub open spec fn spec_datetime_value(date: Option<i64>, name: Seq<char>) -> Seq<char> {
    match date {
        Option::None => missing_text(name),
        Option::Some(ts) => if rfc2822_in_range(ts) {
            replace_text(rfc2822_of(ts), "+0000"@, "UTC"@)
        } else {
            missing_text(name)
        },
    }
}

/// Renders an optional timestamp field.
pub fn extract_datetime(date: &Option<i64>, field: &str) -> (r: String)
    ensures
        r@ == spec_datetime_value(*date, field@),
{
    match date {
        Option::None => missing_msg(field),
        Option::Some(ts) => {
            if RFC2822_MIN_TS <= *ts && *ts <= RFC2822_MAX_TS {
                let formatted = crate::foreign::rfc2822(*ts);
                proof {
                    reveal_strlit("+0000");
                }
                replace_all(formatted.as_str(), "+0000", "UTC")
            } else {
                missing_msg(field)
            }
        },
    }
}

// ---------------------------------------------------------------------------
// List fields
// ---------------------------------------------------------------------------

/// The markdown rendering of one person: name linked to the email and a
/// homepage link when both are present, name linked to whichever of the two
/// is present otherwise, the bare name when neither is.
pub open spec fn spec_person_md(p: Person) -> Seq<char> {
    if p.uri is Some && p.email is Some {
        "["@ + p.name@ + "]("@ + p.email->0@ + ") - [homepage]("@ + p.uri->0@ + ")"@
    } else if p.uri is Some {
        "["@ + p.name@ + "]("@ + p.uri->0@ + ")"@
    } else if p.email is Some {
        "["@ + p.name@ + "]("@ + p.email->0@ + ")"@
    } else {
        p.name@
    }
}

/// The comma-separated rendering of a person list.
pub open spec fn spec_persons_md(ps: Seq<Person>) -> Seq<char>
    decreases ps.len(),
{
    if ps.len() == 0 {
        Seq::empty()
    } else if ps.len() == 1 {
        spec_person_md(ps[0])
    } else {
        spec_person_md(ps[0]) + ", "@ + spec_persons_md(ps.skip(1))
    }
}

/// Renders an author or contributor list as comma-separated markdown.
#[verifier::rlimit(60)]
pub fn person_vec_to_md(person_vec: &Vec<Person>) -> (r: String)
    ensures
        r@ == spec_persons_md(person_vec@),
{
    let mut md_str = String::new();
    let n = person_vec.len();
    let mut i: usize = 0;
    proof {
        assert(person_vec@.skip(0) =~= person_vec@);
        assert(Seq::<char>::empty() + spec_persons_md(person_vec@) =~= spec_persons_md(
            person_vec@,
        ));
    }
    while i < n
        invariant
            i <= n,
            n == person_vec@.len(),
            md_str@ + spec_persons_md(person_vec@.skip(i as int)) == spec_persons_md(person_vec@),
        decreases n - i,
    {
        let ghost prev = md_str@;
        let p = &person_vec[i];
        match (&p.uri, &p.email) {
            (Option::Some(u), Option::Some(e)) => {
                md_str.append("[");
                md_str.append(p.name.as_str());
                md_str.append("](");
                md_str.append(e.as_str());
                md_str.append(") - [homepage](");
                md_str.append(u.as_str());
                md_str.append(")");
            },
            (Option::Some(u), Option::None) => {
                md_str.append("[");
                md_str.append(p.name.as_str());
                md_str.append("](");
                md_str.append(u.as_str());
                md_str.append(")");
            },
            (Option::None, Option::Some(e)) => {
                md_str.append("[");
                md_str.append(p.name.as_str());
                md_str.append("](");
                md_str.append(e.as_str());
                md_str.append(")");
            },
            (Option::None, Option::None) => {
                md_str.append(p.name.as_str());
            },
        }
        proof {
            assert(prev + ("["@ + p.name@ + "]("@ + (p.email->0)@ + ") - [homepage]("@
                + (p.uri->0)@ + ")"@) =~= prev + "["@ + p.name@ + "]("@ + (p.email->0)@
                + ") - [homepage]("@ + (p.uri->0)@ + ")"@);
            assert(prev + ("["@ + p.name@ + "]("@ + (p.uri->0)@ + ")"@) =~= prev + "["@ + p.name@
                + "]("@ + (p.uri->0)@ + ")"@);
            assert(prev + ("["@ + p.name@ + "]("@ + (p.email->0)@ + ")"@) =~= prev + "["@ + p.name@
                + "]("@ + (p.email->0)@ + ")"@);
            assert(md_str@ =~= prev + spec_person_md(*p));
        }
        if i < n - 1 {
            md_str.append(", ");
        }
        proof {
            let rest = person_vec@.skip(i as int);
            assert(rest[0] == person_vec@[i as int]);
            assert(rest.skip(1) =~= person_vec@.skip(i + 1));
            if i + 1 < n {
                assert(rest.len() >= 2);
                assert(md_str@ =~= (prev + spec_person_md(rest[0])) + ", "@);
                assert(md_str@ + spec_persons_md(person_vec@.skip(i + 1)) =~= prev + (
                spec_person_md(rest[0]) + ", "@ + spec_persons_md(rest.skip(1))));
            } else {
                assert(rest.len() == 1);
                assert(spec_persons_md(person_vec@.skip(i + 1)) == Seq::<char>::empty());
                assert(md_str@ + spec_persons_md(person_vec@.skip(i + 1)) =~= prev
                    + spec_persons_md(rest));
            }
        }
        i = i + 1;
    }
    proof {
        assert(person_vec@.skip(n as int) =~= Seq::<Person>::empty());
        assert(md_str@ + Seq::<char>::empty() =~= md_str@);
    }
    md_str
}

/// The markdown rendering of one link: a markdown link targeting the URL,
/// labelled by the link's title if present, else its relation label if
/// present, else the URL itself.
pub open spec fn spec_link_md(l: Link) -> Seq<char> {
    if l.title is Some {
        "["@ + l.title->0@ + "]("@ + l.href@ + ")"@
    } else if l.rel is Some {
        "["@ + l.rel->0@ + "]("@ + l.href@ + ")"@
    } else {
        "["@ + l.href@ + "]("@ + l.href@ + ")"@
    }
}

/// The comma-separated rendering of a link list.
pub open spec fn spec_links_md(ls: Seq<Link>) -> Seq<char>
    decreases ls.len(),
{
    if ls.len() == 0 {
        Seq::empty()
    } else if ls.len() == 1 {
        spec_link_md(ls[0])
    } else {
        spec_link_md(ls[0]) + ", "@ + spec_links_md(ls.skip(1))
    }
}

/// Renders a link list as comma-separated markdown links.
pub fn link_vec_to_md(link_vec: &Vec<Link>) -> (r: String)
    ensures
        r@ == spec_links_md(link_vec@),
{
    let mut md_str = String::new();
    let n = link_vec.len();
    let mut i: usize = 0;
    proof {
        assert(link_vec@.skip(0) =~= link_vec@);
        assert(Seq::<char>::empty() + spec_links_md(link_vec@) =~= spec_links_md(link_vec@));
    }
    while i < n
        invariant
            i <= n,
            n == link_vec@.len(),
            md_str@ + spec_links_md(link_vec@.skip(i as int)) == spec_links_md(link_vec@),
        decreases n - i,
    {
        let ghost prev = md_str@;
        let l = &link_vec[i];
        md_str.append("[");
        match (&l.title, &l.rel) {
            (Option::Some(t), _) => md_str.append(t.as_str()),
            (Option::None, Option::Some(rel_label)) => md_str.append(rel_label.as_str()),
            (Option::None, Option::None) => md_str.append(l.href.as_str()),
        }
        md_str.append("](");
        md_str.append(l.href.as_str());
        md_str.append(")");
        proof {
            let label = if l.title is Some {
                (l.title->0)@
            } else if l.rel is Some {
                (l.rel->0)@
            } else {
                l.href@
            };
            assert(md_str@ =~= prev + ("["@ + label + "]("@ + l.href@ + ")"@));
            assert(md_str@ =~= prev + spec_link_md(*l));
        }
        if i < n - 1 {
            md_str.append(", ");
        }
        proof {
            let rest = link_vec@.skip(i as int);
            assert(rest[0] == link_vec@[i as int]);
            assert(rest.skip(1) =~= link_vec@.skip(i + 1));
            if i + 1 < n {
                assert(md_str@ =~= (prev + spec_link_md(rest[0])) + ", "@);
                assert(md_str@ + spec_links_md(link_vec@.skip(i + 1)) =~= prev + (spec_link_md(
                    rest[0],
                ) + ", "@ + spec_links_md(rest.skip(1))));
            } else {
                assert(rest.len() == 1);
                assert(md_str@ + spec_links_md(link_vec@.skip(i + 1)) =~= prev + spec_links_md(
                    rest,
                ));
            }
        }
        i = i + 1;
    }
    proof {
        assert(link_vec@.skip(n as int) =~= Seq::<Link>::empty());
        assert(md_str@ + Seq::<char>::empty() =~= md_str@);
    }
    md_str
}

/// The rendering of one category: its human label if present, else its raw
/// term.
pub open spec fn spec_category_md(c: Category) -> Seq<char> {
    if c.label is Some {
        c.label->0@
    } else {
        c.term@
    }
}

/// The comma-separated rendering of a category list.
pub open spec fn spec_categories_md(cs: Seq<Category>) -> Seq<char>
    decreases cs.len(),
{
    if cs.len() == 0 {
        Seq::empty()
    } else if cs.len() == 1 {
        spec_category_md(cs[0])
    } else {
        spec_category_md(cs[0]) + ", "@ + spec_categories_md(cs.skip(1))
    }
}

/// Renders a category list, comma-separated.
pub fn category_vec_to_md(category_vec: &Vec<Category>) -> (r: String)
    ensures
        r@ == spec_categories_md(category_vec@),
{
    let mut md_str = String::new();
    let n = category_vec.len();
    let mut i: usize = 0;
    proof {
        assert(category_vec@.skip(0) =~= category_vec@);
        assert(Seq::<char>::empty() + spec_categories_md(category_vec@) =~= spec_categories_md(
            category_vec@,
        ));
    }
    while i < n
        invariant
            i <= n,
            n == category_vec@.len(),
            md_str@ + spec_categories_md(category_vec@.skip(i as int)) == spec_categories_md(
                category_vec@,
            ),
        decreases n - i,
    {
        let ghost prev = md_str@;
        let c = &category_vec[i];
        match &c.label {
            Option::Some(label) => md_str.append(label.as_str()),
            Option::None => md_str.append(c.term.as_str()),
        }
        proof {
            assert(md_str@ =~= prev + spec_category_md(*c));
        }
        if i < n - 1 {
            md_str.append(", ");
        }
        proof {
            let rest = category_vec@.skip(i as int);
            assert(rest[0] == category_vec@[i as int]);
            assert(rest.skip(1) =~= category_vec@.skip(i + 1));
            if i + 1 < n {
                assert(md_str@ =~= (prev + spec_category_md(rest[0])) + ", "@);
                assert(md_str@ + spec_categories_md(category_vec@.skip(i + 1)) =~= prev + (
                spec_category_md(rest[0]) + ", "@ + spec_categories_md(rest.skip(1))));
            } else {
                assert(rest.len() == 1);
                assert(md_str@ + spec_categories_md(category_vec@.skip(i + 1)) =~= prev
                    + spec_categories_md(rest));
            }
        }
        i = i + 1;
    }
    proof {
        assert(category_vec@.skip(n as int) =~= Seq::<Category>::empty());
        assert(md_str@ + Seq::<char>::empty() =~= md_str@);
    }
    md_str
}

// ---------------------------------------------------------------------------
// Placeholder path resolution
// ---------------------------------------------------------------------------

/// What a placeholder path resolves to against a feed/entry pair.  The path
/// set is fixed: feed-level names, and entry-level names prefixed `entry.`;
/// every other path yields the unknown-field sentinel, so resolution never
/// fails.
pub open spec fn spec_resolve(path: Seq<char>, entry: Entry, feed: Feed) -> Seq<char> {
    if path == "id"@ {
        feed.id@
    } else if path == "title"@ {
        spec_text_value(feed.title, path)
    } else if path == "updated"@ {
        spec_datetime_value(feed.updated, path)
    } else if path == "authors"@ {
        spec_persons_md(feed.authors@)
    } else if path == "description"@ {
        spec_text_value(feed.description, path)
    } else if path == "links"@ {
        spec_links_md(feed.links@)
    } else if path == "categories"@ {
        spec_categories_md(feed.categories@)
    } else if path == "contributors"@ {
        spec_persons_md(feed.contributors@)
    } else if path == "language"@ {
        spec_string_value(feed.language, path)
    } else if path == "published"@ {
        spec_datetime_value(feed.published, path)
    } else if path == "rights"@ {
        spec_text_value(feed.rights, path)
    } else if path == "entry.id"@ {
        entry.id@
    } else if path == "entry.title"@ {
        spec_text_value(entry.title, path)
    } else if path == "entry.updated"@ {
        spec_datetime_value(entry.updated, path)
    } else if path == "entry.authors"@ {
        spec_persons_md(entry.authors@)
    } else if path == "entry.links"@ {
        spec_links_md(entry.links@)
    } else if path == "entry.summary"@ {
        spec_text_value(entry.summary, path)
    } else if path == "entry.categories"@ {
        spec_categories_md(entry.categories@)
    } else if path == "entry.contributors"@ {
        spec_persons_md(entry.contributors@)
    } else if path == "entry.published"@ {
        spec_datetime_value(entry.published, path)
    } else if path == "entry.source"@ {
        spec_string_value(entry.source, path)
    } else if path == "entry.rights"@ {
        spec_text_value(entry.rights, path)
    } else {
        unknown_field_text(path)
    }
}

/// Resolves one placeholder path to its formatted text.
pub fn fill_template_field(field: &str, entry: &Entry, feed: &Feed) -> (r: String)
    ensures
        r@ == spec_resolve(field@, *entry, *feed),
{
    if str_eq(field, "id") {
        feed.id.clone()
    } else if str_eq(field, "title") {
        extract_text(&feed.title, field)
    } else if str_eq(field, "updated") {
        extract_datetime(&feed.updated, field)
    } else if str_eq(field, "authors") {
        person_vec_to_md(&feed.authors)
    } else if str_eq(field, "description") {
        extract_text(&feed.description, field)
    } else if str_eq(field, "links") {
        link_vec_to_md(&feed.links)
    } else if str_eq(field, "categories") {
        category_vec_to_md(&feed.categories)
    } else if str_eq(field, "contributors") {
        person_vec_to_md(&feed.contributors)
    } else if str_eq(field, "language") {
        extract_string(&feed.language, field)
    } else if str_eq(field, "published") {
        extract_datetime(&feed.published, field)
    } else if str_eq(field, "rights") {
        extract_text(&feed.rights, field)
    } else if str_eq(field, "entry.id") {
        entry.id.clone()
    } else if str_eq(field, "entry.title") {
        extract_text(&entry.title, field)
    } else if str_eq(field, "entry.updated") {
        extract_datetime(&entry.updated, field)
    } else if str_eq(field, "entry.authors") {
        person_vec_to_md(&entry.authors)
    } else if str_eq(field, "entry.links") {
        link_vec_to_md(&entry.links)
    } else if str_eq(field, "entry.summary") {
        extract_text(&entry.summary, field)
    } else if str_eq(field, "entry.categories") {
        category_vec_to_md(&entry.categories)
    } else if str_eq(field, "entry.contributors") {
        person_vec_to_md(&entry.contributors)
    } else if str_eq(field, "entry.published") {
        extract_datetime(&entry.published, field)
    } else if str_eq(field, "entry.source") {
        extract_string(&entry.source, field)
    } else if str_eq(field, "entry.rights") {
        extract_text(&entry.rights, field)
    } else {
        let mut r = String::from_str("Unknown field \"");
        r.append(field);
        r.append("\"");
        r
    }
}

// ---------------------------------------------------------------------------
// The template scanner
// ---------------------------------------------------------------------------

/// State of the two-counter tag scanner.  Outside a tag only a pending
/// single `{` needs remembering; inside a tag only whether the previous
/// character was a `}`, plus the path buffer accumulated so far.
pub ghost struct ScanState {
    /// Inside a `{{...` tag.
    pub in_tag: bool,
    /// Outside a tag, the previous character was a single `{`, not yet
    /// copied to the output.
    pub open1: bool,
    /// Inside a tag, the previous character was a single `}`.
    pub close1: bool,
    /// The field-path buffer of the open tag.
    pub buf: Seq<char>,
    /// The output assembled so far, before escaping.
    pub out: Seq<char>,
}

/// The scanner's initial state.
pub open spec fn scan_init() -> ScanState {
    ScanState { in_tag: false, open1: false, close1: false, buf: Seq::empty(), out: Seq::empty() }
}

/// One step of the scanner.  A run of two `{` opens a tag; inside, a run of
/// two `}` closes it and resolves the buffer; a further `{` inside a tag
/// discards the buffered false start; a single `{` outside a tag is copied
/// verbatim once the run fails to reach two.
pub open spec fn scan_step(st: ScanState, c: char, entry: Entry, feed: Feed) -> ScanState {
    if st.in_tag {
        if c == '}' {
            if st.close1 {
                ScanState {
                    in_tag: false,
                    open1: false,
                    close1: false,
                    buf: Seq::empty(),
                    out: st.out + spec_resolve(st.buf, entry, feed),
                }
            } else {
                ScanState { in_tag: true, open1: st.open1, close1: true, buf: st.buf, out: st.out }
            }
        } else if c == '{' {
            ScanState {
                in_tag: true,
                open1: st.open1,
                close1: false,
                buf: Seq::empty(),
                out: st.out,
            }
        } else {
            ScanState {
                in_tag: true,
                open1: st.open1,
                close1: false,
                buf: st.buf.push(c),
                out: st.out,
            }
        }
    } else if c == '{' {
        if st.open1 {
            ScanState {
                in_tag: true,
                open1: false,
                close1: false,
                buf: Seq::empty(),
                out: st.out,
            }
        } else {
            ScanState { in_tag: false, open1: true, close1: false, buf: st.buf, out: st.out }
        }
    } else {
        if st.open1 {
            ScanState {
                in_tag: false,
                open1: false,
                close1: false,
                buf: st.buf,
                out: st.out + seq!['{', c],
            }
        } else {
            ScanState {
                in_tag: false,
                open1: false,
                close1: false,
                buf: st.buf,
                out: st.out.push(c),
            }
        }
    }
}

/// The scanner run over a whole template.
pub open spec fn scan_run(st: ScanState, s: Seq<char>, entry: Entry, feed: Feed) -> ScanState
    decreases s.len(),
{
    if s.len() == 0 {
        st
    } else {
        scan_step(scan_run(st, s.drop_last(), entry, feed), s.last(), entry, feed)
    }
}

/// The pre-escape rendering of a template: the scanner's output at end of
/// input.  An unterminated tag is dropped; a pending single `{` is copied.
pub open spec fn spec_render(t: Seq<char>, entry: Entry, feed: Feed) -> Seq<char> {
    let st = scan_run(scan_init(), t, entry, feed);
    if st.in_tag {
        st.out
    } else if st.open1 {
        st.out.push('{')
    } else {
        st.out
    }
}

/// What `fill_template` returns: the rendered template, escaped once.
pub open spec fn spec_fill_template(t: Seq<char>, entry: Entry, feed: Feed) -> Seq<char> {
    escape_text(spec_render(t, entry, feed))
}

/// Renders a template against a feed/entry pair: placeholder tags are
/// resolved, everything else is copied, and the assembled text is passed
/// through the escaper exactly once.
pub fn fill_template(template_str: &str, entry: &Entry, feed: &Feed) -> (r: String)
    ensures
        r@ == spec_fill_template(template_str@, *entry, *feed),
{
    let n = template_str.unicode_len();
    let mut out = String::new();
    let mut buf = String::new();
    let mut in_tag = false;
    let mut open1 = false;
    let mut close1 = false;
    let mut i: usize = 0;
    while i < n
        invariant
            i <= n,
            n == template_str@.len(),
            scan_run(scan_init(), template_str@.take(i as int), *entry, *feed) == (ScanState {
                in_tag,
                open1,
                close1,
                buf: buf@,
                out: out@,
            }),
        decreases n - i,
    {
        let ghost st = scan_run(scan_init(), template_str@.take(i as int), *entry, *feed);
        let c = template_str.get_char(i);
        if in_tag {
            if c == '}' {
                if close1 {
                    let piece = fill_template_field(buf.as_str(), entry, feed);
                    out.append(piece.as_str());
                    buf = String::new();
                    in_tag = false;
                    open1 = false;
                    close1 = false;
                } else {
                    close1 = true;
                }
            } else if c == '{' {
                buf = String::new();
                close1 = false;
            } else {
                buf.push(c);
                close1 = false;
            }
        } else if c == '{' {
            if open1 {
                in_tag = true;
                open1 = false;
                close1 = false;
                buf = String::new();
            } else {
                open1 = true;
            }
        } else {
            if open1 {
                out.push('{');
                open1 = false;
            }
            out.push(c);
        }
        proof {
            assert(template_str@.take(i + 1).drop_last() =~= template_str@.take(i as int));
            assert(template_str@.take(i + 1).last() == template_str@[i as int]);
            let stepped = scan_step(st, template_str@[i as int], *entry, *feed);
            if !st.in_tag && st.open1 && template_str@[i as int] != '{' {
                assert(out@ =~= st.out + seq!['{', template_str@[i as int]]);
            }
            assert((ScanState { in_tag, open1, close1, buf: buf@, out: out@ }) == stepped);
        }
        i = i + 1;
    }
    proof {
        assert(template_str@.take(n as int) =~= template_str@);
    }
    if !in_tag && open1 {
        out.push('{');
    }
    escape(out)
}

/// A template with no doubled opening brace never enters a tag: the
/// scanner's output is the template itself, save for a pending final `{`.
proof fn lemma_scan_plain(t: Seq<char>, entry: Entry, feed: Feed)
    requires
        forall|i: int| 0 <= i && i + 1 < t.len() ==> !((#[trigger] t[i]) == '{' && t[i + 1] == '{'),
    ensures
        ({
            let st = scan_run(scan_init(), t, entry, feed);
            &&& !st.in_tag
            &&& st.open1 == (t.len() > 0 && t.last() == '{')
            &&& st.out == if t.len() > 0 && t.last() == '{' {
                t.drop_last()
            } else {
                t
            }
        }),
    decreases t.len(),
{
    if t.len() > 0 {
        let p = t.drop_last();
        assert(forall|i: int| 0 <= i && i + 1 < p.len() ==> !((#[trigger] p[i]) == '{' && p[i + 1] == '{'))
            by {
            assert(forall|i: int| 0 <= i < p.len() ==> p[i] == t[i]);
        }
        lemma_scan_plain(p, entry, feed);
        let prev = scan_run(scan_init(), p, entry, feed);
        let c = t.last();
        if c == '{' {
            if p.len() > 0 && p.last() == '{' {
                assert(t[t.len() - 2] == '{' && t[t.len() - 1] == '{');
                assert(false);
            }
            assert(scan_run(scan_init(), t, entry, feed).out == p);
        } else {
            if p.len() > 0 && p.last() == '{' {
                assert(prev.out + seq!['{', c] =~= t);
            } else {
                assert(prev.out.push(c) =~= t);
            }
        }
    }
}

/// A template containing no `{{` run is rendered verbatim: the result is
/// exactly the escaped input.
pub proof fn lemma_template_without_tags(t: Seq<char>, entry: Entry, feed: Feed)
    requires
        forall|i: int| 0 <= i && i + 1 < t.len() ==> !((#[trigger] t[i]) == '{' && t[i + 1] == '{'),
    ensures
        spec_fill_template(t, entry, feed) == escape_text(t),
{
    lemma_scan_plain(t, entry, feed);
    let st = scan_run(scan_init(), t, entry, feed);
    if t.len() > 0 && t.last() == '{' {
        assert(st.out.push('{') =~= t);
    }
}

} // verus!

