use oplist_opds::opds::entry::mime_for_ext;
use oplist_opds::opds::feed::{stable_id, urlencoded};
use oplist_opds::opds::xml::{escape_attr, escape_xml};
use oplist_opds::text::to_ascii_lowercase;

#[test]
fn urlencoded_keeps_unreserved() {
    assert_eq!(urlencoded("Az09-_.~"), "Az09-_.~");
    assert_eq!(urlencoded(""), "");
}

#[test]
fn urlencoded_writes_code_points_in_hex() {
    assert_eq!(urlencoded("a b&c"), "a%20b%26c");
    assert_eq!(urlencoded("\n"), "%0A");
    assert_eq!(urlencoded("é"), "%E9");
    assert_eq!(urlencoded("中"), "%4E2D");
    assert_eq!(urlencoded("😀"), "%1F600");
}

#[test]
fn urlencoded_collides_above_latin1() {
    // Codes of different widths are not separated, so these two differ yet encode alike.
    assert_eq!(urlencoded("\u{E2}D"), urlencoded("\u{E2D}"));
}

#[test]
fn urlencoded_output_is_url_safe() {
    let out = urlencoded("Grüße & <tags> / ? 中文");
    assert!(out
        .chars()
        .all(|c| c.is_ascii_alphanumeric() || "-_.~%".contains(c)));
}

#[test]
fn escape_xml_escapes_all_five() {
    assert_eq!(
        escape_xml("<a & 'b'>\""),
        "&lt;a &amp; &apos;b&apos;&gt;&quot;"
    );
    assert_eq!(escape_xml("plain"), "plain");
    assert_eq!(escape_xml("&amp;"), "&amp;amp;");
}

#[test]
fn escape_attr_matches_escape_xml() {
    for s in ["x\"y'z", "<&>", "", "ünïcode"] {
        assert_eq!(escape_attr(s), escape_xml(s));
    }
}

#[test]
fn escaped_text_has_no_markup() {
    let out = escape_xml("</title><script>alert('x')</script>\"");
    assert!(!out.contains('<') && !out.contains('>') && !out.contains('"') && !out.contains('\''));
}

#[test]
fn mime_for_ext_known_types() {
    assert_eq!(mime_for_ext("book.epub"), "application/epub+zip");
    assert_eq!(mime_for_ext("book.mobi"), "application/x-mobipocket-ebook");
    assert_eq!(mime_for_ext("book.azw"), "application/x-mobi8-ebook");
    assert_eq!(mime_for_ext("book.azw3"), "application/x-mobi8-ebook");
    assert_eq!(mime_for_ext("doc.pdf"), "application/pdf");
    assert_eq!(mime_for_ext("c.cbz"), "application/vnd.comicbook+zip");
    assert_eq!(mime_for_ext("c.cbr"), "application/vnd.comicbook-rar");
    assert_eq!(mime_for_ext("f.fb2"), "application/x-fictionbook+xml");
    assert_eq!(mime_for_ext("d.djvu"), "image/vnd.djvu");
    assert_eq!(mime_for_ext("d.djv"), "image/vnd.djvu");
    assert_eq!(mime_for_ext("t.txt"), "text/plain");
    assert_eq!(mime_for_ext("a.zip"), "application/zip");
}

#[test]
fn mime_for_ext_edge_cases() {
    assert_eq!(mime_for_ext("a.tar.gz"), "application/octet-stream");
    assert_eq!(mime_for_ext("noext"), "application/octet-stream");
    assert_eq!(mime_for_ext("epub"), "application/epub+zip");
    assert_eq!(mime_for_ext("archive.epub.zip"), "application/zip");
    assert_eq!(mime_for_ext("trailing."), "application/octet-stream");
    assert_eq!(mime_for_ext(""), "application/octet-stream");
}

#[test]
fn mime_for_ext_ignores_ascii_case() {
    for name in ["Book.EPUB", "x.PdF", "y.DjV", "z.Txt", "w.Unknown"] {
        assert_eq!(mime_for_ext(name), mime_for_ext(&to_ascii_lowercase(name)));
    }
    assert_eq!(mime_for_ext("BOOK.EPUB"), "application/epub+zip");
}

#[test]
fn stable_id_is_sixteen_hex_digits() {
    let a = stable_id("/books/a.epub");
    assert_eq!(a.len(), 16);
    assert!(a.chars().all(|c| c.is_ascii_digit() || ('a'..='f').contains(&c)));
    assert_eq!(a, stable_id("/books/a.epub"));
    assert_ne!(a, stable_id("/books/b.epub"));
    assert_ne!(stable_id(""), "");
}
