use oplist_opds::clock::now_rfc3339;
use oplist_opds::config::{
    config_format, default_base_url, default_bind_addr, default_catalog_title, default_root_path,
    ConfigFormat,
};
use oplist_opds::error::AppError;
use oplist_opds::handlers::{
    listing_updated, LISTING_PAGE, LISTING_PER_PAGE, SEARCH_PAGE, SEARCH_PER_PAGE,
};
use oplist_opds::handlers::opensearch::opensearch_xml;
use oplist_opds::handlers::proxy::{download_source, forwarded_header, proxy_full_path};
use oplist_opds::handlers::search::{search_terms, SearchQuery};
use oplist_opds::openlist::client::{
    api_url, auth_header, get_request, get_result, list_request, list_result, search_request, search_result,
};
use oplist_opds::openlist::types::{ApiResponse, FsListData, FsObject, FsSearchData};

fn obj(name: &str, modified: Option<&str>, raw_url: &str) -> FsObject {
    FsObject {
        name: name.to_string(),
        parent: None,
        size: 0,
        is_dir: false,
        modified: modified.map(|m| m.to_string()),
        created: None,
        sign: String::new(),
        thumb: String::new(),
        file_type: 0,
        raw_url: raw_url.to_string(),
    }
}

#[test]
fn status_codes() {
    let p = || "p".to_string();
    assert_eq!(AppError::NotFound { path: p() }.status_code(), 404);
    assert_eq!(AppError::OpenListRequest { path: p(), message: p() }.status_code(), 502);
    assert_eq!(AppError::OpenListApi { path: p(), code: 403, message: p() }.status_code(), 403);
    assert_eq!(AppError::OpenListApi { path: p(), code: 500, message: p() }.status_code(), 502);
    assert_eq!(AppError::XmlSerialise { message: p() }.status_code(), 500);
    assert_eq!(AppError::Internal { message: p() }.status_code(), 500);
}

#[test]
fn api_url_joins_without_double_slash() {
    assert_eq!(api_url("http://h//", "/api/fs/list"), "http://h/api/fs/list");
    assert_eq!(api_url("http://h", "/api/fs/get"), "http://h/api/fs/get");
}

#[test]
fn request_bodies() {
    let l = list_request("/a", 1, 0);
    assert_eq!((l.path, l.password, l.page, l.per_page, l.refresh), ("/a", "", 1, 0, false));
    let s = search_request("/", "k", 1, 100);
    assert_eq!((s.parent, s.keywords, s.scope, s.page, s.per_page, s.password), ("/", "k", 0, 1, 100, ""));
    let g = get_request("/f");
    assert_eq!((g.path, g.password), ("/f", ""));
}

#[test]
fn list_result_cases() {
    let ok = ApiResponse { code: 200, message: String::new(), data: Some(FsListData { content: vec![], total: 0 }) };
    assert!(list_result("/a", ok).is_ok());
    let bad = ApiResponse::<FsListData> { code: 500, message: "boom".to_string(), data: None };
    assert_eq!(
        list_result("/a", bad).unwrap_err(),
        AppError::OpenListApi { path: "/a".to_string(), code: 500, message: "boom".to_string() }
    );
    let empty = ApiResponse::<FsListData> { code: 200, message: String::new(), data: None };
    assert_eq!(list_result("/a", empty).unwrap_err(), AppError::NotFound { path: "/a".to_string() });
}

#[test]
fn search_result_cases() {
    let ok = ApiResponse { code: 200, message: String::new(), data: Some(FsSearchData { content: vec![], total: 3 }) };
    assert_eq!(search_result("k", ok).unwrap().total, 3);
    let bad = ApiResponse::<FsSearchData> { code: 401, message: "no".to_string(), data: None };
    assert_eq!(
        search_result("k", bad).unwrap_err(),
        AppError::OpenListApi { path: "k".to_string(), code: 401, message: "no".to_string() }
    );
    let empty = ApiResponse::<FsSearchData> { code: 200, message: String::new(), data: None };
    assert_eq!(
        search_result("k", empty).unwrap_err(),
        AppError::Internal { message: "search returned no data".to_string() }
    );
}

#[test]
fn get_result_cases() {
    let ok = ApiResponse { code: 200, message: String::new(), data: Some(obj("f", None, "u")) };
    assert_eq!(get_result("/f", ok).unwrap().name, "f");
    let missing = ApiResponse { code: 404, message: "x".to_string(), data: Some(obj("f", None, "u")) };
    assert_eq!(get_result("/f", missing).unwrap_err(), AppError::NotFound { path: "/f".to_string() });
    let bad = ApiResponse::<FsObject> { code: 403, message: "denied".to_string(), data: None };
    assert_eq!(
        get_result("/f", bad).unwrap_err(),
        AppError::OpenListApi { path: "/f".to_string(), code: 403, message: "denied".to_string() }
    );
    let empty = ApiResponse::<FsObject> { code: 200, message: String::new(), data: None };
    assert_eq!(get_result("/f", empty).unwrap_err(), AppError::NotFound { path: "/f".to_string() });
}

#[test]
fn search_terms_cases() {
    let err = AppError::Internal { message: "search query `q` is required".to_string() };
    assert_eq!(search_terms(SearchQuery { q: None }).unwrap_err(), err);
    assert_eq!(search_terms(SearchQuery { q: Some(String::new()) }).unwrap_err(), err);
    assert_eq!(search_terms(SearchQuery { q: Some(" \t\n\u{3000}".to_string()) }).unwrap_err(), err);
    assert_eq!(search_terms(SearchQuery { q: Some(" x ".to_string()) }).unwrap(), " x ");
}

#[test]
fn listing_updated_cases() {
    assert_eq!(listing_updated(&vec![obj("a", Some("t1"), ""), obj("b", Some("t2"), "")]).unwrap(), "t1");
    let now = listing_updated(&vec![obj("a", None, "")]).unwrap();
    let c: Vec<char> = now.chars().collect();
    assert!(c.len() >= 20 && c[4] == '-' && c[10] == 'T');
    assert!(listing_updated(&vec![]).is_ok());
}

#[test]
fn clock_gives_rfc3339() {
    let s = now_rfc3339().unwrap();
    let c: Vec<char> = s.chars().collect();
    assert!(c.len() >= 20 && c[4] == '-' && c[7] == '-' && c[10] == 'T' && c[13] == ':' && c[16] == ':');
    assert!(s.ends_with('Z'));
}

#[test]
fn proxy_helpers() {
    assert_eq!(proxy_full_path("/books/", "/a/b.epub"), "/books/a/b.epub");
    assert_eq!(proxy_full_path("/", "a"), "/a");
    assert_eq!(download_source("/f".to_string(), obj("f", None, "http://raw")).unwrap(), "http://raw");
    assert_eq!(
        download_source("/f".to_string(), obj("f", None, "")).unwrap_err(),
        AppError::NotFound { path: "/f".to_string() }
    );
    for h in ["content-type", "content-length", "content-disposition", "last-modified", "etag"] {
        assert!(forwarded_header(h));
    }
    assert!(!forwarded_header("set-cookie"));
    assert!(!forwarded_header("Content-Type"));
}

#[test]
fn opensearch_document() {
    let expected = "<?xml version=\"1.0\" encoding=\"UTF-8\"?>\n<OpenSearchDescription xmlns=\"http://a9.com/-/spec/opensearch/1.1/\">\n  <ShortName>Lib</ShortName>\n  <Description>Search Lib</Description>\n  <Url type=\"application/atom+xml;profile=opds-catalog;kind=acquisition\"\n       template=\"http://h/opds/search?q={searchTerms}\"/>\n  <Language>*</Language>\n  <InputEncoding>UTF-8</InputEncoding>\n  <OutputEncoding>UTF-8</OutputEncoding>\n</OpenSearchDescription>\n";
    assert_eq!(opensearch_xml("http://h", "Lib"), expected);
}

#[test]
fn config_defaults_and_formats() {
    assert_eq!(default_bind_addr(), "0.0.0.0:3000");
    assert_eq!(default_base_url(), "http://localhost:3000");
    assert_eq!(default_catalog_title(), "OpenList OPDS");
    assert_eq!(default_root_path(), "/");
    assert_eq!(config_format(Some("toml")), Some(ConfigFormat::Toml));
    assert_eq!(config_format(Some("yaml")), Some(ConfigFormat::Yaml));
    assert_eq!(config_format(Some("yml")), Some(ConfigFormat::Yaml));
    assert_eq!(config_format(Some("json")), Some(ConfigFormat::Json));
    assert_eq!(config_format(Some("ini")), None);
    assert_eq!(config_format(Some("TOML")), None);
    assert_eq!(config_format(None), None);
}

#[test]
fn opensearch_document_escapes_title_and_url() {
    let doc = opensearch_xml("http://h?a=1&b=2", "A & B <x>");
    assert!(doc.contains("<ShortName>A &amp; B &lt;x&gt;</ShortName>"));
    assert!(doc.contains("<Description>Search A &amp; B &lt;x&gt;</Description>"));
    assert!(doc.contains("template=\"http://h?a=1&amp;b=2/opds/search?q={searchTerms}\"/>"));
    assert!(!doc.contains("A & B"));
}

#[test]
fn auth_header_only_for_a_token() {
    assert_eq!(auth_header(""), None);
    assert_eq!(auth_header("SECRET-REDACTED"), Some("SECRET-REDACTED"));
}

#[test]
fn paging_constants() {
    assert_eq!((LISTING_PAGE, LISTING_PER_PAGE, SEARCH_PAGE, SEARCH_PER_PAGE), (1, 0, 1, 100));
}
