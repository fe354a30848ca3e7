//! Serialising a feed to an OPDS 1.2 Atom XML document.

use vstd::prelude::*;
use crate::error::AppError;
use crate::opds::entry::{
    entries_view, links_view, Entry, EntryView, Feed, FeedView, Link, LinkView,
};
use crate::text::{chars_of, dec_digits, has_prefix, push_decimal};

verus! {

pub const XML_DECLARATION: &'static str = "<?xml version=\"1.0\" encoding=\"UTF-8\"?>";
pub const FEED_OPEN: &'static str = "<feed xmlns=\"http://www.w3.org/2005/Atom\" xmlns:opds=\"http://opds-spec.org/2010/catalog\" xmlns:opensearch=\"http://a9.com/-/spec/opensearch/1.1/\">";

// ── Specifications ─────────────────────────────────────────────────────────

/// One character as XML text: `&`, `<`, `>`, `"` and `'` become entities.
pub open spec fn xml_escape_char(c: char) -> Seq<char> {
    if c == '&' {
        "&amp;"@
    } else if c == '<' {
        "&lt;"@
    } else if c == '>' {
        "&gt;"@
    } else if c == '"' {
        "&quot;"@
    } else if c == '\'' {
        "&apos;"@
    } else {
        seq![c]
    }
}

/// `s` as XML text, character by character.
pub open spec fn xml_escape(s: Seq<char>) -> Seq<char>
    decreases s.len(),
{
    if s.len() == 0 {
        seq![]
    } else {
        xml_escape(s.drop_last()) + xml_escape_char(s.last())
    }
}

/// XML text back to the characters it stands for: the five entities that escaping writes
/// are decoded, every other character kept.
pub open spec fn xml_unescape(s: Seq<char>) -> Seq<char>
    decreases s.len(),
{
    if s.len() == 0 {
        seq![]
    } else if has_prefix(s, seq!['&', 'a', 'm', 'p', ';']) {
        seq!['&'] + xml_unescape(s.skip(5))
    } else if has_prefix(s, seq!['&', 'l', 't', ';']) {
        seq!['<'] + xml_unescape(s.skip(4))
    } else if has_prefix(s, seq!['&', 'g', 't', ';']) {
        seq!['>'] + xml_unescape(s.skip(4))
    } else if has_prefix(s, seq!['&', 'q', 'u', 'o', 't', ';']) {
        seq!['"'] + xml_unescape(s.skip(6))
    } else if has_prefix(s, seq!['&', 'a', 'p', 'o', 's', ';']) {
        seq!['\''] + xml_unescape(s.skip(6))
    } else {
        seq![s[0]] + xml_unescape(s.drop_first())
    }
}

/// Escaping a concatenation escapes each part.
pub proof fn lemma_xml_escape_concat(a: Seq<char>, b: Seq<char>)
    ensures
        xml_escape(a + b) == xml_escape(a) + xml_escape(b),
    decreases b.len(),
{
    if b.len() == 0 {
        assert(a + b =~= a);
        assert(xml_escape(a) + xml_escape(b) =~= xml_escape(a));
    } else {
        lemma_xml_escape_concat(a, b.drop_last());
        assert((a + b).drop_last() =~= a + b.drop_last());
        assert(xml_escape(a) + xml_escape(b.drop_last()) + xml_escape_char(b.last()) =~= xml_escape(
            a,
        ) + xml_escape(b));
    }
}

proof fn lemma_not_prefix(s: Seq<char>, p: Seq<char>, k: int)
    requires
        0 <= k < p.len(),
        k < s.len(),
        s[k] != p[k],
    ensures
        !has_prefix(s, p),
{
    if has_prefix(s, p) {
        assert(s.take(p.len() as int)[k] == s[k]);
    }
}

proof fn lemma_unescape_after_escape_char(c: char, rest: Seq<char>)
    ensures
        xml_unescape(xml_escape_char(c) + rest) == seq![c] + xml_unescape(rest),
{
    reveal_strlit("&amp;");
    reveal_strlit("&lt;");
    reveal_strlit("&gt;");
    reveal_strlit("&quot;");
    reveal_strlit("&apos;");
    let s = xml_escape_char(c) + rest;
    let amp = seq!['&', 'a', 'm', 'p', ';'];
    let lt = seq!['&', 'l', 't', ';'];
    let gt = seq!['&', 'g', 't', ';'];
    let quot = seq!['&', 'q', 'u', 'o', 't', ';'];
    let apos = seq!['&', 'a', 'p', 'o', 's', ';'];
    if c == '&' {
        assert(s.take(5) =~= amp);
        assert(s.skip(5) =~= rest);
    } else if c == '<' {
        lemma_not_prefix(s, amp, 1);
        assert(s.take(4) =~= lt);
        assert(s.skip(4) =~= rest);
    } else if c == '>' {
        lemma_not_prefix(s, amp, 1);
        lemma_not_prefix(s, lt, 1);
        assert(s.take(4) =~= gt);
        assert(s.skip(4) =~= rest);
    } else if c == '"' {
        lemma_not_prefix(s, amp, 1);
        lemma_not_prefix(s, lt, 1);
        lemma_not_prefix(s, gt, 1);
        assert(s.take(6) =~= quot);
        assert(s.skip(6) =~= rest);
    } else if c == '\'' {
        lemma_not_prefix(s, amp, 2);
        lemma_not_prefix(s, lt, 1);
        lemma_not_prefix(s, gt, 1);
        lemma_not_prefix(s, quot, 1);
        assert(s.take(6) =~= apos);
        assert(s.skip(6) =~= rest);
    } else {
        assert(s[0] == c);
        lemma_not_prefix(s, amp, 0);
        lemma_not_prefix(s, lt, 0);
        lemma_not_prefix(s, gt, 0);
        lemma_not_prefix(s, quot, 0);
        lemma_not_prefix(s, apos, 0);
        assert(s.drop_first() =~= rest);
    }
}

/// Escaping loses nothing: decoding the escaped text gives back the original characters.
pub proof fn lemma_xml_escape_roundtrip(s: Seq<char>)
    ensures
        xml_unescape(xml_escape(s)) == s,
    decreases s.len(),
{
    if s.len() == 0 {
        assert(xml_escape(s) =~= Seq::<char>::empty());
    } else {
        let c = s[0];
        let rest = s.drop_first();
        lemma_xml_escape_roundtrip(rest);
        assert(s =~= seq![c] + rest);
        lemma_xml_escape_concat(seq![c], rest);
        assert(seq![c].drop_last() =~= Seq::<char>::empty());
        assert(xml_escape(Seq::<char>::empty()) == Seq::<char>::empty());
        assert(xml_escape(seq![c]) =~= xml_escape_char(c));
        lemma_unescape_after_escape_char(c, xml_escape(rest));
        assert(seq![c] + rest =~= s);
    }
}

/// Escaped text holds no markup: no `<`, `>`, `"` or `'`, so it cannot end an element or an
/// attribute value.
pub proof fn lemma_xml_escape_no_markup(s: Seq<char>)
    ensures
        forall|i: int|
            0 <= i < xml_escape(s).len() ==> {
                let c = #[trigger] xml_escape(s)[i];
                c != '<' && c != '>' && c != '"' && c != '\''
            },
    decreases s.len(),
{
    reveal_strlit("&amp;");
    reveal_strlit("&lt;");
    reveal_strlit("&gt;");
    reveal_strlit("&quot;");
    reveal_strlit("&apos;");
    if s.len() > 0 {
        lemma_xml_escape_no_markup(s.drop_last());
        let a = xml_escape(s.drop_last());
        let b = xml_escape_char(s.last());
        assert forall|i: int| 0 <= i < xml_escape(s).len() implies {
            let c = #[trigger] xml_escape(s)[i];
            c != '<' && c != '>' && c != '"' && c != '\''
        } by {
            if i < a.len() {
                assert(xml_escape(s)[i] == a[i]);
            } else {
                assert(xml_escape(s)[i] == b[i - a.len()]);
            }
        }
    }
}

/// A simple element on its own line: `  <tag>value</tag>`.
pub open spec fn elem_xml(tag: Seq<char>, value: Seq<char>) -> Seq<char> {
    "  <"@ + tag + ">"@ + xml_escape(value) + "</"@ + tag + ">\n"@
}

pub open spec fn link_title_xml(title: Option<Seq<char>>) -> Seq<char> {
    match title {
        Some(t) => " title=\""@ + xml_escape(t) + "\""@,
        None => seq![],
    }
}

pub open spec fn link_length_xml(length: Option<u64>) -> Seq<char> {
    match length {
        Some(n) => " length=\""@ + dec_digits(n as nat) + "\""@,
        None => seq![],
    }
}

/// A `<link/>` element.
pub open spec fn link_xml(l: LinkView) -> Seq<char> {
    "  <link rel=\""@ + xml_escape(l.rel) + "\" href=\""@ + xml_escape(l.href) + "\" type=\""@
        + xml_escape(l.mime_type) + "\""@ + link_title_xml(l.title) + link_length_xml(l.length)
        + "/>\n"@
}

/// The links in order, each after `indent`.
pub open spec fn links_xml(ls: Seq<LinkView>, indent: Seq<char>) -> Seq<char>
    decreases ls.len(),
{
    if ls.len() == 0 {
        seq![]
    } else {
        links_xml(ls.drop_last(), indent) + indent + link_xml(ls.last())
    }
}

pub open spec fn summary_xml(summary: Option<Seq<char>>) -> Seq<char> {
    match summary {
        Some(s) => "    <summary type=\"text\">"@ + xml_escape(s) + "</summary>"@ + "\n"@,
        None => seq![],
    }
}

/// An `<entry>` element. The timestamp is written as it is.
pub open spec fn entry_xml(e: EntryView) -> Seq<char> {
    "  <entry>\n"@ + "    <id>"@ + xml_escape(e.id) + "</id>\n"@ + "    <title>"@ + xml_escape(e.title)
        + "</title>\n"@ + "    <updated>"@ + e.updated + "</updated>\n"@ + summary_xml(e.summary)
        + links_xml(e.links, "  "@) + "  </entry>\n"@
}

/// The entries in order.
pub open spec fn entries_xml(es: Seq<EntryView>) -> Seq<char>
    decreases es.len(),
{
    if es.len() == 0 {
        seq![]
    } else {
        entries_xml(es.drop_last()) + entry_xml(es.last())
    }
}

/// The whole Atom document of a feed.
pub open spec fn feed_xml(f: FeedView) -> Seq<char> {
    XML_DECLARATION@ + "\n"@ + FEED_OPEN@ + "\n"@ + elem_xml("id"@, f.id) + elem_xml("title"@, f.title)
        + elem_xml("updated"@, f.updated) + links_xml(f.links, seq![]) + entries_xml(f.entries)
        + "</feed>\n"@
}

// ── Laws of the document ───────────────────────────────────────────────────

/// `t` occurs in `s`.
pub open spec fn occurs_in(t: Seq<char>, s: Seq<char>) -> bool {
    exists|k: int| 0 <= k && k + t.len() <= s.len() && #[trigger] s.subrange(k, k + t.len()) == t
}

/// The written form of a link's target: the escaped text between `href="` and `"`.
pub open spec fn href_attribute(href: Seq<char>) -> Seq<char> {
    "\" href=\""@ + xml_escape(href) + "\" type=\""@
}

proof fn lemma_occurs_in_middle(a: Seq<char>, t: Seq<char>, b: Seq<char>)
    ensures
        occurs_in(t, a + t + b),
{
    let s = a + t + b;
    assert(s.subrange(a.len() as int, a.len() + t.len() as int) =~= t);
}

proof fn lemma_occurs_in_wider(t: Seq<char>, s: Seq<char>, a: Seq<char>, b: Seq<char>)
    requires
        occurs_in(t, s),
    ensures
        occurs_in(t, a + s + b),
{
    let k = choose|k: int| 0 <= k && k + t.len() <= s.len() && #[trigger] s.subrange(k, k + t.len()) == t;
    let w = a + s + b;
    assert(w.subrange(a.len() + k, a.len() + k + t.len()) =~= s.subrange(k, k + t.len()));
}

/// Serialising a run of links serialises each one in turn.
pub proof fn lemma_links_xml_concat(a: Seq<LinkView>, b: Seq<LinkView>, indent: Seq<char>)
    ensures
        links_xml(a + b, indent) == links_xml(a, indent) + links_xml(b, indent),
    decreases b.len(),
{
    if b.len() == 0 {
        assert(a + b =~= a);
        assert(links_xml(a, indent) + links_xml(b, indent) =~= links_xml(a, indent));
    } else {
        lemma_links_xml_concat(a, b.drop_last(), indent);
        assert((a + b).drop_last() =~= a + b.drop_last());
        assert(links_xml(a, indent) + links_xml(b.drop_last(), indent) + indent + link_xml(b.last())
            =~= links_xml(a, indent) + links_xml(b, indent));
    }
}

proof fn lemma_link_href_in_links(ls: Seq<LinkView>, indent: Seq<char>, i: int)
    requires
        0 <= i < ls.len(),
    ensures
        occurs_in(href_attribute(ls[i].href), links_xml(ls, indent)),
{
    let l = ls[i];
    let front = ls.take(i);
    let back = ls.skip(i + 1);
    assert(ls =~= front + (seq![l] + back));
    lemma_links_xml_concat(front, seq![l] + back, indent);
    lemma_links_xml_concat(seq![l], back, indent);
    assert(seq![l].drop_last() =~= Seq::<LinkView>::empty());
    assert(links_xml(Seq::<LinkView>::empty(), indent) == Seq::<char>::empty());
    assert(links_xml(seq![l], indent) =~= indent + link_xml(l));
    let pre = "  <link rel=\""@ + xml_escape(l.rel);
    let post = xml_escape(l.mime_type) + "\""@ + link_title_xml(l.title) + link_length_xml(l.length)
        + "/>\n"@;
    assert(link_xml(l) =~= pre + href_attribute(l.href) + post);
    lemma_occurs_in_middle(pre, href_attribute(l.href), post);
    lemma_occurs_in_wider(
        href_attribute(l.href),
        link_xml(l),
        links_xml(front, indent) + indent,
        links_xml(back, indent),
    );
    assert(links_xml(ls, indent) =~= (links_xml(front, indent) + indent) + link_xml(l) + links_xml(
        back,
        indent,
    ));
}

/// Every feed-level link is written with its target as escaped attribute text, so the
/// written value unescapes to the link's target and holds no quote or markup.
pub proof fn law_feed_link_targets_escaped(f: FeedView, i: int)
    requires
        0 <= i < f.links.len(),
    ensures
        occurs_in(href_attribute(f.links[i].href), feed_xml(f)),
        xml_unescape(xml_escape(f.links[i].href)) == f.links[i].href,
{
    lemma_link_href_in_links(f.links, seq![], i);
    let head = XML_DECLARATION@ + "\n"@ + FEED_OPEN@ + "\n"@ + elem_xml("id"@, f.id) + elem_xml(
        "title"@,
        f.title,
    ) + elem_xml("updated"@, f.updated);
    let tail = entries_xml(f.entries) + "</feed>\n"@;
    lemma_occurs_in_wider(href_attribute(f.links[i].href), links_xml(f.links, seq![]), head, tail);
    assert(feed_xml(f) =~= head + links_xml(f.links, seq![]) + tail);
    lemma_xml_escape_roundtrip(f.links[i].href);
}

/// Every link of an entry is written with its target as escaped attribute text.
pub proof fn law_entry_link_targets_escaped(e: EntryView, j: int)
    requires
        0 <= j < e.links.len(),
    ensures
        occurs_in(href_attribute(e.links[j].href), entry_xml(e)),
        xml_unescape(xml_escape(e.links[j].href)) == e.links[j].href,
{
    lemma_link_href_in_links(e.links, "  "@, j);
    let head = "  <entry>\n"@ + "    <id>"@ + xml_escape(e.id) + "</id>\n"@ + "    <title>"@
        + xml_escape(e.title) + "</title>\n"@ + "    <updated>"@ + e.updated + "</updated>\n"@
        + summary_xml(e.summary);
    let tail = "  </entry>\n"@;
    lemma_occurs_in_wider(href_attribute(e.links[j].href), links_xml(e.links, "  "@), head, tail);
    assert(entry_xml(e) =~= head + links_xml(e.links, "  "@) + tail);
    lemma_xml_escape_roundtrip(e.links[j].href);
}

/// Adding an entry to a feed adds its `<entry>` element just before the closing tag and
/// changes nothing else: the document holds one element per entry, in order.
pub proof fn law_feed_xml_adds_entry_before_close(f: FeedView, e: EntryView)
    ensures
        feed_xml(FeedView { entries: f.entries.push(e), ..f }) == feed_xml(f).take(
            feed_xml(f).len() - "</feed>\n"@.len(),
        ) + entry_xml(e) + "</feed>\n"@,
{
    let g = FeedView { entries: f.entries.push(e), ..f };
    let head = XML_DECLARATION@ + "\n"@ + FEED_OPEN@ + "\n"@ + elem_xml("id"@, f.id) + elem_xml(
        "title"@,
        f.title,
    ) + elem_xml("updated"@, f.updated) + links_xml(f.links, seq![]);
    assert(g.entries.drop_last() =~= f.entries);
    assert(entries_xml(g.entries) == entries_xml(f.entries) + entry_xml(e));
    assert(feed_xml(f) =~= (head + entries_xml(f.entries)) + "</feed>\n"@);
    assert(feed_xml(f).take(feed_xml(f).len() - "</feed>\n"@.len()) =~= head + entries_xml(
        f.entries,
    ));
    assert(feed_xml(g) =~= head + entries_xml(f.entries) + entry_xml(e) + "</feed>\n"@);
}

/// A feed without entries holds no `<entry>` element: its document is the header, the
/// links and the closing tag.
pub proof fn law_feed_xml_without_entries(f: FeedView)
    requires
        f.entries.len() == 0,
    ensures
        feed_xml(f) == XML_DECLARATION@ + "\n"@ + FEED_OPEN@ + "\n"@ + elem_xml("id"@, f.id)
            + elem_xml("title"@, f.title) + elem_xml("updated"@, f.updated) + links_xml(
            f.links,
            seq![],
        ) + "</feed>\n"@,
{
    assert(entries_xml(f.entries) == Seq::<char>::empty());
    assert(feed_xml(f) =~= XML_DECLARATION@ + "\n"@ + FEED_OPEN@ + "\n"@ + elem_xml("id"@, f.id)
        + elem_xml("title"@, f.title) + elem_xml("updated"@, f.updated) + links_xml(
        f.links,
        seq![],
    ) + "</feed>\n"@);
}

// ── Serialisation ──────────────────────────────────────────────────────────

/// Serialise a `Feed` to an OPDS 1.2 Atom XML string. It always succeeds.
pub fn feed_to_xml(feed: &Feed) -> (r: Result<String, AppError>)
    ensures
        r is Ok,
        r matches Ok(s) ==> s@ == feed_xml(feed@),
{
    let mut out = String::new();

    out.append(XML_DECLARATION);
    out.push('\n');
    out.append(FEED_OPEN);
    out.push('\n');
    proof {
        reveal_strlit("\n");
    }
    let ghost head = out@;
    assert(head =~= XML_DECLARATION@ + "\n"@ + FEED_OPEN@ + "\n"@);

    write_elem(&mut out, "id", feed.id.as_str());
    write_elem(&mut out, "title", feed.title.as_str());
    write_elem(&mut out, "updated", feed.updated.as_str());

    let ghost before_links = out@;
    let mut i: usize = 0;
    while i < feed.links.len()
        invariant
            i <= feed.links.len(),
            out@ == before_links + links_xml(links_view(feed.links@).take(i as int), seq![]),
        decreases feed.links.len() - i,
    {
        let ghost prev = out@;
        write_link(&mut out, &feed.links[i]);
        proof {
            let ls = links_view(feed.links@);
            assert(ls.take(i + 1).drop_last() =~= ls.take(i as int));
            assert(ls.take(i + 1).last() == feed.links@[i as int]@);
            assert(out@ =~= before_links + links_xml(ls.take(i + 1), seq![]));
        }
        i = i + 1;
    }
    assert(links_view(feed.links@).take(feed.links.len() as int) =~= links_view(feed.links@));

    let ghost before_entries = out@;
    let mut j: usize = 0;
    while j < feed.entries.len()
        invariant
            j <= feed.entries.len(),
            out@ == before_entries + entries_xml(entries_view(feed.entries@).take(j as int)),
        decreases feed.entries.len() - j,
    {
        write_entry(&mut out, &feed.entries[j]);
        proof {
            let es = entries_view(feed.entries@);
            assert(es.take(j + 1).drop_last() =~= es.take(j as int));
            assert(es.take(j + 1).last() == feed.entries@[j as int]@);
        }
        j = j + 1;
    }
    assert(entries_view(feed.entries@).take(feed.entries.len() as int) =~= entries_view(
        feed.entries@,
    ));

    out.append("</feed>\n");
    assert(out@ =~= feed_xml(feed@));
    Ok(out)
}

/// Appends `  <tag>value</tag>` with the value escaped.
fn write_elem(out: &mut String, tag: &str, value: &str)
    ensures
        final(out)@ == old(out)@ + elem_xml(tag@, value@),
{
    out.append("  <");
    out.append(tag);
    out.append(">");
    push_escaped(out, value);
    out.append("</");
    out.append(tag);
    out.append(">\n");
    assert(out@ =~= old(out)@ + elem_xml(tag@, value@));
}

/// Appends a `<link/>` element with every attribute escaped.
fn write_link(out: &mut String, link: &Link)
    ensures
        final(out)@ == old(out)@ + link_xml(link@),
{
    out.append("  <link rel=\"");
    push_escaped(out, link.rel.as_str());
    out.append("\" href=\"");
    push_escaped(out, link.href.as_str());
    out.append("\" type=\"");
    push_escaped(out, link.mime_type.as_str());
    out.append("\"");
    let ghost mid = out@;
    match &link.title {
        Some(title) => {
            out.append(" title=\"");
            push_escaped(out, title.as_str());
            out.append("\"");
        },
        None => {},
    }
    assert(out@ =~= mid + link_title_xml(link@.title));
    let ghost mid2 = out@;
    match link.length {
        Some(len) => {
            out.append(" length=\"");
            push_decimal(out, len);
            out.append("\"");
        },
        None => {},
    }
    assert(out@ =~= mid2 + link_length_xml(link@.length));
    out.append("/>\n");
    assert(out@ =~= old(out)@ + link_xml(link@));
}

/// Appends an `<entry>` element with its links indented inside it.
#[verifier::rlimit(40)]
fn write_entry(out: &mut String, entry: &Entry)
    ensures
        final(out)@ == old(out)@ + entry_xml(entry@),
{
    out.append("  <entry>\n");
    out.append("    <id>");
    push_escaped(out, entry.id.as_str());
    out.append("</id>\n");
    out.append("    <title>");
    push_escaped(out, entry.title.as_str());
    out.append("</title>\n");
    out.append("    <updated>");
    out.append(entry.updated.as_str());
    out.append("</updated>\n");
    let ghost mid = out@;
    match &entry.summary {
        Some(summary) => {
            out.append("    <summary type=\"text\">");
            push_escaped(out, summary.as_str());
            out.append("</summary>");
            out.push('\n');
            proof {
                reveal_strlit("\n");
            }
        },
        None => {},
    }
    assert(out@ =~= mid + summary_xml(entry@.summary));
    let ghost before_links = out@;
    let mut i: usize = 0;
    while i < entry.links.len()
        invariant
            i <= entry.links.len(),
            out@ == before_links + links_xml(links_view(entry.links@).take(i as int), "  "@),
        decreases entry.links.len() - i,
    {
        out.append("  ");
        write_link(out, &entry.links[i]);
        proof {
            let ls = links_view(entry.links@);
            assert(ls.take(i + 1).drop_last() =~= ls.take(i as int));
            assert(ls.take(i + 1).last() == entry.links@[i as int]@);
            assert(out@ =~= before_links + links_xml(ls.take(i + 1), "  "@));
        }
        i = i + 1;
    }
    assert(links_view(entry.links@).take(entry.links.len() as int) =~= links_view(entry.links@));
    out.append("  </entry>\n");
    assert(out@ =~= old(out)@ + entry_xml(entry@));
}

/// Appends `s` as XML text.
pub fn push_escaped(out: &mut String, s: &str)
    ensures
        final(out)@ == old(out)@ + xml_escape(s@),
{
    let v = chars_of(s);
    let ghost start = out@;
    let mut i: usize = 0;
    while i < v.len()
        invariant
            v@ == s@,
            i <= v.len(),
            out@ == start + xml_escape(v@.take(i as int)),
        decreases v.len() - i,
    {
        let c = v[i];
        let ghost before = out@;
        if c == '&' {
            out.append("&amp;");
        } else if c == '<' {
            out.append("&lt;");
        } else if c == '>' {
            out.append("&gt;");
        } else if c == '"' {
            out.append("&quot;");
        } else if c == '\'' {
            out.append("&apos;");
        } else {
            out.push(c);
        }
        assert(out@ =~= before + xml_escape_char(c));
        assert(v@.take(i + 1).drop_last() =~= v@.take(i as int));
        i = i + 1;
    }
    assert(v@.take(v.len() as int) =~= v@);
}

/// Escape XML text content (& < > ' ").
pub fn escape_xml(s: &str) -> (r: String)
    ensures
        r@ == xml_escape(s@),
{
    let mut out = String::new();
    push_escaped(&mut out, s);
    out
}

/// Escape XML attribute values: the same five characters as text content.
pub fn escape_attr(s: &str) -> (r: String)
    ensures
        r@ == xml_escape(s@),
{
    escape_xml(s)
}

} // verus!
