//! The OpenSearch description document that lets OPDS clients find the search endpoint.

use vstd::prelude::*;
use crate::opds::xml::{push_escaped, xml_escape};
use crate::text::concat2;

verus! {

/// The catalog's search URL template.
pub open spec fn spec_search_template(base_url: Seq<char>) -> Seq<char> {
    base_url + "/opds/search?q={searchTerms}"@
}

/// The OpenSearch description for a catalog titled `title` served at `base_url`. The title
/// and the search URL template are written as XML text, escaped as in the feeds.
pub open spec fn spec_opensearch_xml(base_url: Seq<char>, title: Seq<char>) -> Seq<char> {
    "<?xml version=\"1.0\" encoding=\"UTF-8\"?>\n<OpenSearchDescription xmlns=\"http://a9.com/-/spec/opensearch/1.1/\">\n  <ShortName>"@
        + xml_escape(title) + "</ShortName>\n  <Description>Search "@ + xml_escape(title)
        + "</Description>\n  <Url type=\"application/atom+xml;profile=opds-catalog;kind=acquisition\"\n       template=\""@
        + xml_escape(spec_search_template(base_url))
        + "\"/>\n  <Language>*</Language>\n  <InputEncoding>UTF-8</InputEncoding>\n  <OutputEncoding>UTF-8</OutputEncoding>\n</OpenSearchDescription>\n"@
}

/// Return an OpenSearch description document so OPDS clients can discover the
/// search endpoint automatically.
pub fn opensearch_xml(base_url: &str, title: &str) -> (r: String)
    ensures
        r@ == spec_opensearch_xml(base_url@, title@),
{
    let search_url = concat2(base_url, "/opds/search?q={searchTerms}");
    let mut out = String::from_str(
        "<?xml version=\"1.0\" encoding=\"UTF-8\"?>\n<OpenSearchDescription xmlns=\"http://a9.com/-/spec/opensearch/1.1/\">\n  <ShortName>",
    );
    push_escaped(&mut out, title);
    out.append("</ShortName>\n  <Description>Search ");
    push_escaped(&mut out, title);
    out.append(
        "</Description>\n  <Url type=\"application/atom+xml;profile=opds-catalog;kind=acquisition\"\n       template=\"",
    );
    push_escaped(&mut out, search_url.as_str());
    out.append(
        "\"/>\n  <Language>*</Language>\n  <InputEncoding>UTF-8</InputEncoding>\n  <OutputEncoding>UTF-8</OutputEncoding>\n</OpenSearchDescription>\n",
    );
    assert(out@ =~= spec_opensearch_xml(base_url@, title@));
    out
}

} // verus!
