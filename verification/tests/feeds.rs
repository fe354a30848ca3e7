use oplist_opds::opds::entry::{
    Entry, Feed, Link, REL_ACQUISITION, REL_THUMBNAIL, TYPE_ACQUISITION, TYPE_NAVIGATION,
};
use oplist_opds::opds::feed::{
    browse_feed, fs_object_to_entry, root_listing_feed, search_feed, stable_id,
};
use oplist_opds::opds::xml::feed_to_xml;
use oplist_opds::openlist::types::FsObject;

fn obj(name: &str, is_dir: bool, modified: Option<&str>) -> FsObject {
    FsObject {
        name: name.to_string(),
        parent: None,
        size: 0,
        is_dir,
        modified: modified.map(|m| m.to_string()),
        created: None,
        sign: String::new(),
        thumb: String::new(),
        file_type: if is_dir { 1 } else { 0 },
        raw_url: String::new(),
    }
}

fn file(name: &str, size: u64, raw_url: &str, thumb: &str) -> FsObject {
    let mut o = obj(name, false, Some("2024-01-02T03:04:05Z"));
    o.size = size;
    o.raw_url = raw_url.to_string();
    o.thumb = thumb.to_string();
    o
}

fn is_rfc3339_shaped(s: &str) -> bool {
    let b: Vec<char> = s.chars().collect();
    b.len() >= 20 && b[4] == '-' && b[7] == '-' && b[10] == 'T' && b[13] == ':' && b[16] == ':'
}

#[test]
fn directory_entry_links_to_its_browse_route() {
    let e = fs_object_to_entry("http://h", "/books", "shelf", obj("scifi", true, Some("t1")), false)
        .unwrap();
    assert_eq!(e.title, "scifi");
    assert_eq!(e.updated, "t1");
    assert_eq!(e.id, format!("urn:oplist-opds:{}", stable_id("/books/scifi")));
    assert_eq!(e.links.len(), 1);
    assert_eq!(e.links[0].rel, "subsection");
    assert_eq!(e.links[0].href, "http://h/opds/browse/shelf/scifi");
    assert_eq!(e.links[0].mime_type, TYPE_NAVIGATION);
    assert!(e.summary.is_none());
}

#[test]
fn file_entry_without_proxy_uses_raw_url() {
    let e = fs_object_to_entry(
        "http://h",
        "/books/",
        "",
        file("a.EPUB", 1234, "https://files/raw/a.epub", ""),
        false,
    )
    .unwrap();
    assert_eq!(e.id, format!("urn:oplist-opds:{}", stable_id("/books/a.EPUB")));
    assert_eq!(e.links.len(), 1);
    assert_eq!(e.links[0].rel, REL_ACQUISITION);
    assert_eq!(e.links[0].href, "https://files/raw/a.epub");
    assert_eq!(e.links[0].mime_type, "application/epub+zip");
    assert_eq!(e.links[0].length, Some(1234));
    assert_eq!(e.updated, "2024-01-02T03:04:05Z");
}

#[test]
fn file_entry_with_proxy_hides_raw_url() {
    let e = fs_object_to_entry(
        "http://h",
        "/books",
        "/x/",
        file("b.pdf", 7, "https://files/raw/b.pdf?sign=secret", "https://files/thumb.jpg"),
        true,
    )
    .unwrap();
    assert_eq!(e.links.len(), 2);
    assert_eq!(e.links[0].href, "http://h/opds/raw/x/b.pdf");
    assert_eq!(e.links[0].mime_type, "application/pdf");
    assert_eq!(e.links[1].rel, REL_THUMBNAIL);
    assert_eq!(e.links[1].href, "https://files/thumb.jpg");
    assert_eq!(e.links[1].mime_type, "image/jpeg");
}

#[test]
fn file_entry_without_raw_url_falls_back_to_proxy() {
    let e = fs_object_to_entry("http://h", "/books", "", file("c.txt", 1, "", ""), false).unwrap();
    assert_eq!(e.links[0].href, "http://h/opds/raw/c.txt");
}

#[test]
fn undated_entry_is_stamped_with_the_clock() {
    let e = fs_object_to_entry("http://h", "/", "", obj("d", true, None), false).unwrap();
    assert!(is_rfc3339_shaped(&e.updated), "{}", e.updated);
}

#[test]
fn browse_feed_with_files_is_an_acquisition_feed() {
    let objects = vec![obj("sub", true, Some("t0")), file("a.epub", 10, "", "")];
    let f = browse_feed("http://h", "/books/shelf", "shelf", objects, "u", false).unwrap();
    assert_eq!(f.title, "shelf");
    assert_eq!(f.updated, "u");
    assert_eq!(f.id, format!("urn:oplist-opds:browse:{}", stable_id("/books/shelf")));
    assert_eq!(f.links.len(), 3);
    assert_eq!(f.links[0].rel, "self");
    assert_eq!(f.links[0].href, "http://h/opds/browse/shelf");
    assert_eq!(f.links[0].mime_type, TYPE_ACQUISITION);
    assert_eq!(f.links[1].rel, "start");
    assert_eq!(f.links[1].href, "http://h/opds");
    assert_eq!(f.links[1].mime_type, TYPE_NAVIGATION);
    assert_eq!(f.links[2].rel, "up");
    assert_eq!(f.links[2].href, "http://h/opds/browse/");
    assert_eq!(f.links[2].mime_type, TYPE_ACQUISITION);
    assert_eq!(f.entries.len(), 2);
    assert_eq!(f.entries[0].links[0].href, "http://h/opds/browse/shelf/sub");
    assert_eq!(f.entries[1].links[0].href, "http://h/opds/raw/shelf/a.epub");
}

#[test]
fn browse_feed_of_directories_only_is_a_navigation_feed() {
    let objects = vec![obj("a", true, Some("t")), obj("b", true, Some("t"))];
    let f = browse_feed("http://h", "/", "", objects, "u", false).unwrap();
    assert_eq!(f.title, "Root");
    assert_eq!(f.links.len(), 2);
    assert_eq!(f.links[0].mime_type, TYPE_NAVIGATION);
    assert_eq!(f.links[0].href, "http://h/opds/browse/");
}

#[test]
fn up_link_of_child_feed_is_parent_self_link() {
    let parent = browse_feed("http://h", "/b/x", "x", vec![], "u", false).unwrap();
    let child = browse_feed("http://h", "/b/x/y", "x/y", vec![], "u", false).unwrap();
    assert_eq!(child.links[2].rel, "up");
    assert_eq!(child.links[2].href, parent.links[0].href);
}

#[test]
fn root_listing_feed_links_to_catalog_root() {
    let f = root_listing_feed("http://h", "My Books", "/books", vec![file("a.cbz", 3, "", "")], "u", true)
        .unwrap();
    assert_eq!(f.title, "My Books");
    assert_eq!(f.links.len(), 2);
    assert_eq!(f.links[0].href, "http://h/opds");
    assert_eq!(f.links[0].mime_type, TYPE_ACQUISITION);
    assert_eq!(f.entries[0].links[0].href, "http://h/opds/raw/a.cbz");
    assert_eq!(f.entries[0].links[0].mime_type, "application/vnd.comicbook+zip");
}

#[test]
fn search_feed_places_results_by_parent() {
    let mut a = file("a.epub", 5, "", "");
    a.parent = Some("/books/x".to_string());
    let mut b = obj("dir", true, Some("t"));
    b.parent = None;
    let f = search_feed("http://h", "/books", "war & peace", vec![a, b], "u", true).unwrap();
    assert_eq!(f.title, "Search: war & peace");
    assert_eq!(f.id, format!("urn:oplist-opds:search:{}", stable_id("war & peace")));
    assert_eq!(f.links.len(), 2);
    assert_eq!(f.links[0].href, "http://h/opds/search?q=war%20%26%20peace");
    assert_eq!(f.links[0].mime_type, TYPE_ACQUISITION);
    assert_eq!(f.links[1].href, "http://h/opds");
    assert_eq!(f.entries[0].links[0].href, "http://h/opds/raw/x/a.epub");
    assert_eq!(f.entries[0].id, format!("urn:oplist-opds:{}", stable_id("/books/x/a.epub")));
    assert_eq!(f.entries[1].links[0].href, "http://h/opds/browse/dir");
    assert_eq!(f.entries[1].id, format!("urn:oplist-opds:{}", stable_id("/dir")));
}

#[test]
fn search_results_without_timestamps_are_stamped() {
    let f = search_feed("http://h", "/", "q", vec![obj("n", true, None)], "u", false).unwrap();
    assert!(is_rfc3339_shaped(&f.entries[0].updated));
}

#[test]
fn feed_to_xml_exact_document() {
    let feed = Feed {
        id: "i".to_string(),
        title: "T&".to_string(),
        updated: "u".to_string(),
        links: vec![Link::new("self", "http://h/opds", "t")],
        entries: vec![Entry {
            id: "e".to_string(),
            title: "x<y".to_string(),
            updated: "2020".to_string(),
            links: vec![Link::new(REL_ACQUISITION, "u", "m").with_length(12).with_title("t\"")],
            summary: Some("s".to_string()),
        }],
    };
    let expected = [
        "<?xml version=\"1.0\" encoding=\"UTF-8\"?>\n",
        "<feed xmlns=\"http://www.w3.org/2005/Atom\" xmlns:opds=\"http://opds-spec.org/2010/catalog\" xmlns:opensearch=\"http://a9.com/-/spec/opensearch/1.1/\">\n",
        "  <id>i</id>\n",
        "  <title>T&amp;</title>\n",
        "  <updated>u</updated>\n",
        "  <link rel=\"self\" href=\"http://h/opds\" type=\"t\"/>\n",
        "  <entry>\n",
        "    <id>e</id>\n",
        "    <title>x&lt;y</title>\n",
        "    <updated>2020</updated>\n",
        "    <summary type=\"text\">s</summary>\n",
        "    <link rel=\"http://opds-spec.org/acquisition\" href=\"u\" type=\"m\" title=\"t&quot;\" length=\"12\"/>\n",
        "  </entry>\n",
        "</feed>\n",
    ]
    .concat();
    assert_eq!(feed_to_xml(&feed).unwrap(), expected);
}

#[test]
fn feed_to_xml_of_empty_feed() {
    let feed = Feed {
        id: String::new(),
        title: String::new(),
        updated: String::new(),
        links: vec![],
        entries: vec![],
    };
    let xml = feed_to_xml(&feed).unwrap();
    assert!(xml.ends_with("  <id></id>\n  <title></title>\n  <updated></updated>\n</feed>\n"));
}

#[test]
fn link_builders() {
    let l = Link::new("r", "h", "m");
    assert_eq!(l.title, None);
    assert_eq!(l.length, None);
    let l = l.with_length(0).with_title("x");
    assert_eq!(l.length, Some(0));
    assert_eq!(l.title.as_deref(), Some("x"));
    assert_eq!(l.rel, "r");
    assert_eq!(l.href, "h");
    assert_eq!(l.mime_type, "m");
}

#[test]
fn opensearch_template_fills_to_search_link() {
    let doc = oplist_opds::handlers::opensearch::opensearch_xml("http://h", "Lib");
    let template = "http://h/opds/search?q={searchTerms}";
    assert!(doc.contains(template));
    let q = "dune 2";
    let f = search_feed("http://h", "/", q, vec![], "u", false).unwrap();
    assert_eq!(
        template.replace("{searchTerms}", &oplist_opds::opds::feed::urlencoded(q)),
        f.links[0].href
    );
}
