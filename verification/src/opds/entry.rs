//! The OPDS feed data model, link relation constants, and file-type lookup.

use vstd::prelude::*;
use crate::text::{
    ascii_lower, ascii_lower_seq, chars_of, last_index_of, rfind_char, str_eq, string_of_range,
    to_ascii_lowercase,
};

verus! {

// ── File extensions ────────────────────────────────────────────────────────

/// What follows the last `.` of `name`, or all of `name` when it has none.
pub open spec fn extension_of(name: Seq<char>) -> Seq<char> {
    name.skip(last_index_of(name, '.') + 1)
}

/// The OPDS MIME type for a lower-case file extension.
pub open spec fn mime_for_lower_ext(ext: Seq<char>) -> Seq<char> {
    if ext == "epub"@ {
        "application/epub+zip"@
    } else if ext == "mobi"@ {
        "application/x-mobipocket-ebook"@
    } else if ext == "azw"@ || ext == "azw3"@ {
        "application/x-mobi8-ebook"@
    } else if ext == "pdf"@ {
        "application/pdf"@
    } else if ext == "cbz"@ {
        "application/vnd.comicbook+zip"@
    } else if ext == "cbr"@ {
        "application/vnd.comicbook-rar"@
    } else if ext == "fb2"@ {
        "application/x-fictionbook+xml"@
    } else if ext == "djvu"@ || ext == "djv"@ {
        "image/vnd.djvu"@
    } else if ext == "txt"@ {
        "text/plain"@
    } else if ext == "zip"@ {
        "application/zip"@
    } else {
        "application/octet-stream"@
    }
}

/// The OPDS MIME type of a file, by its extension compared without ASCII case.
pub open spec fn spec_mime_for_ext(name: Seq<char>) -> Seq<char> {
    mime_for_lower_ext(ascii_lower_seq(extension_of(name)))
}

proof fn lemma_last_dot_lower(s: Seq<char>)
    ensures
        last_index_of(ascii_lower_seq(s), '.') == last_index_of(s, '.'),
    decreases s.len(),
{
    if s.len() > 0 {
        lemma_last_dot_lower(s.drop_last());
        assert(ascii_lower_seq(s).drop_last() =~= ascii_lower_seq(s.drop_last()));
        assert(ascii_lower_seq(s).last() == ascii_lower(s.last()));
    }
}

/// The MIME type of a file does not depend on the ASCII case of its name.
pub proof fn law_mime_ignores_ascii_case(name: Seq<char>)
    ensures
        spec_mime_for_ext(ascii_lower_seq(name)) == spec_mime_for_ext(name),
{
    lemma_last_dot_lower(name);
    crate::text::lemma_last_index_facts(name, '.');
    assert(extension_of(ascii_lower_seq(name)) =~= ascii_lower_seq(extension_of(name)));
    assert(ascii_lower_seq(ascii_lower_seq(extension_of(name))) =~= ascii_lower_seq(
        extension_of(name),
    ));
}

/// Maps a file name's extension (after the last `.`, ASCII case ignored) to its OPDS MIME type.
pub fn mime_for_ext(filename: &str) -> (r: &'static str)
    ensures
        r@ == spec_mime_for_ext(filename@),
{
    let v = chars_of(filename);
    proof {
        crate::text::lemma_last_index_facts(v@, '.');
    }
    let start: usize = match rfind_char(&v, '.') {
        Some(i) => i + 1,
        None => 0,
    };
    proof {
        assert(v@.subrange(start as int, v.len() as int) =~= extension_of(filename@));
    }
    let ext_raw = string_of_range(&v, start, v.len());
    let ext = to_ascii_lowercase(ext_raw.as_str());
    let e = ext.as_str();
    if str_eq(e, "epub") {
        "application/epub+zip"
    } else if str_eq(e, "mobi") {
        "application/x-mobipocket-ebook"
    } else if str_eq(e, "azw") || str_eq(e, "azw3") {
        "application/x-mobi8-ebook"
    } else if str_eq(e, "pdf") {
        "application/pdf"
    } else if str_eq(e, "cbz") {
        "application/vnd.comicbook+zip"
    } else if str_eq(e, "cbr") {
        "application/vnd.comicbook-rar"
    } else if str_eq(e, "fb2") {
        "application/x-fictionbook+xml"
    } else if str_eq(e, "djvu") || str_eq(e, "djv") {
        "image/vnd.djvu"
    } else if str_eq(e, "txt") {
        "text/plain"
    } else if str_eq(e, "zip") {
        "application/zip"
    } else {
        "application/octet-stream"
    }
}

// ── Link relation constants ────────────────────────────────────────────────

pub const REL_ACQUISITION: &'static str = "http://opds-spec.org/acquisition";
pub const REL_IMAGE: &'static str = "http://opds-spec.org/image";
pub const REL_THUMBNAIL: &'static str = "http://opds-spec.org/image/thumbnail";

pub const TYPE_NAVIGATION: &'static str = "application/atom+xml;profile=opds-catalog;kind=navigation";
pub const TYPE_ACQUISITION: &'static str = "application/atom+xml;profile=opds-catalog;kind=acquisition";
pub const TYPE_OPENSEARCH: &'static str = "application/opensearchdescription+xml";

// ── Feed / Entry data model ────────────────────────────────────────────────

/// A single link element within a feed or entry.
#[derive(Debug, Clone)]
pub struct Link {
    pub rel: String,
    pub href: String,
    pub mime_type: String,
    /// Optional human-readable title.
    pub title: Option<String>,
    /// Byte length, used on acquisition links.
    pub length: Option<u64>,
}

/// The contents of a [`Link`].
pub struct LinkView {
    pub rel: Seq<char>,
    pub href: Seq<char>,
    pub mime_type: Seq<char>,
    pub title: Option<Seq<char>>,
    pub length: Option<u64>,
}

impl View for Link {
    type V = LinkView;

    open spec fn view(&self) -> LinkView {
        LinkView {
            rel: self.rel@,
            href: self.href@,
            mime_type: self.mime_type@,
            title: self.title.deep_view(),
            length: self.length,
        }
    }
}

/// A link with the given relation, target and type, and neither title nor length.
pub open spec fn plain_link(rel: Seq<char>, href: Seq<char>, mime_type: Seq<char>) -> LinkView {
    LinkView { rel, href, mime_type, title: None, length: None }
}

/// The contents of a list of links.
pub open spec fn links_view(links: Seq<Link>) -> Seq<LinkView> {
    links.map_values(|l: Link| l@)
}

impl Link {
    /// A link with the given relation, target and media type, and neither title nor length.
    pub fn new(rel: &str, href: &str, mime_type: &str) -> (l: Self)
        ensures
            l@ == plain_link(rel@, href@, mime_type@),
    {
        Link {
            rel: String::from_str(rel),
            href: String::from_str(href),
            mime_type: String::from_str(mime_type),
            title: None,
            length: None,
        }
    }

    /// The same link with byte length `length`.
    pub fn with_length(self, length: u64) -> (l: Self)
        ensures
            l@ == (LinkView { length: Some(length), ..self@ }),
    {
        let mut l = self;
        l.length = Some(length);
        l
    }

    /// The same link with title `title`.
    pub fn with_title(self, title: &str) -> (l: Self)
        ensures
            l@ == (LinkView { title: Some(title@), ..self@ }),
    {
        let mut l = self;
        l.title = Some(String::from_str(title));
        l
    }
}

/// An entry within a feed (either navigation or acquisition).
#[derive(Debug, Clone)]
pub struct Entry {
    /// Stable unique ID, e.g. `urn:oplist-opds:<hash>`.
    pub id: String,
    pub title: String,
    /// RFC 3339 last-updated timestamp.
    pub updated: String,
    pub links: Vec<Link>,
    /// Short human-readable description (plain text).
    pub summary: Option<String>,
}

/// The contents of an [`Entry`].
pub struct EntryView {
    pub id: Seq<char>,
    pub title: Seq<char>,
    pub updated: Seq<char>,
    pub links: Seq<LinkView>,
    pub summary: Option<Seq<char>>,
}

impl View for Entry {
    type V = EntryView;

    open spec fn view(&self) -> EntryView {
        EntryView {
            id: self.id@,
            title: self.title@,
            updated: self.updated@,
            links: links_view(self.links@),
            summary: self.summary.deep_view(),
        }
    }
}

/// The contents of a list of entries.
pub open spec fn entries_view(entries: Seq<Entry>) -> Seq<EntryView> {
    entries.map_values(|e: Entry| e@)
}

/// The top-level OPDS Atom feed.
#[derive(Debug)]
pub struct Feed {
    pub id: String,
    pub title: String,
    pub updated: String,
    /// `self` link and navigation links (start, up, search, …).
    pub links: Vec<Link>,
    pub entries: Vec<Entry>,
}

/// The contents of a [`Feed`].
pub struct FeedView {
    pub id: Seq<char>,
    pub title: Seq<char>,
    pub updated: Seq<char>,
    pub links: Seq<LinkView>,
    pub entries: Seq<EntryView>,
}

impl View for Feed {
    type V = FeedView;

    open spec fn view(&self) -> FeedView {
        FeedView {
            id: self.id@,
            title: self.title@,
            updated: self.updated@,
            links: links_view(self.links@),
            entries: entries_view(self.entries@),
        }
    }
}

} // verus!
