use oplist_opds::handlers::browse::join_paths;
use oplist_opds::handlers::proxy::proxy_full_path;
use oplist_opds::opds::feed::{
    browse_url, join_route_path, last_segment, normalize_abs_path, parent_of,
    route_path_for_openlist_dir,
};
use oplist_opds::text::{trim_end_matches, trim_matches, trim_start_matches};

#[test]
fn trims_remove_runs_at_the_ends_only() {
    assert_eq!(trim_matches("//a//b//", '/'), "a//b");
    assert_eq!(trim_start_matches("//a/", '/'), "a/");
    assert_eq!(trim_end_matches("/a//", '/'), "/a");
    assert_eq!(trim_matches("////", '/'), "");
    assert_eq!(trim_matches("", '/'), "");
    assert_eq!(trim_matches("/ä/", '/'), "ä");
}

#[test]
fn parent_of_cases() {
    assert_eq!(parent_of("a/b/c"), "a/b");
    assert_eq!(parent_of("a/b/"), "a");
    assert_eq!(parent_of("/a"), "/");
    assert_eq!(parent_of("a"), "");
    assert_eq!(parent_of(""), "");
    assert_eq!(parent_of("///"), "");
}

#[test]
fn last_segment_cases() {
    assert_eq!(last_segment("/books/scifi/"), Some("scifi"));
    assert_eq!(last_segment("/books/scifi"), Some("scifi"));
    assert_eq!(last_segment("abc"), Some("abc"));
    assert_eq!(last_segment("/"), None);
    assert_eq!(last_segment(""), None);
}

#[test]
fn browse_url_cases() {
    assert_eq!(browse_url("http://h", ""), "http://h/opds/browse/");
    assert_eq!(browse_url("http://h", "/"), "http://h/opds/browse/");
    assert_eq!(browse_url("http://h", "/a/b/"), "http://h/opds/browse/a/b");
}

#[test]
fn join_route_path_cases() {
    assert_eq!(join_route_path("", "x"), "x");
    assert_eq!(join_route_path("/a/", "/b/"), "a/b");
    assert_eq!(join_route_path("a", "b c"), "a/b c");
}

#[test]
fn normalize_abs_path_cases() {
    assert_eq!(normalize_abs_path(""), "/");
    assert_eq!(normalize_abs_path("/"), "/");
    assert_eq!(normalize_abs_path("books/"), "/books");
    assert_eq!(normalize_abs_path("//a//b//"), "/a//b");
}

#[test]
fn normalize_abs_path_idempotent_on_values() {
    for p in ["", "/", "a", "//x/y//", "/already"] {
        let once = normalize_abs_path(p);
        assert_eq!(normalize_abs_path(&once), once);
        assert!(once.starts_with('/'));
    }
}

#[test]
fn route_path_for_openlist_dir_cases() {
    assert_eq!(route_path_for_openlist_dir("/books/a/b", "/books"), "a/b");
    assert_eq!(route_path_for_openlist_dir("/books", "/books/"), "");
    assert_eq!(route_path_for_openlist_dir("/other/x", "/books"), "other/x");
    assert_eq!(route_path_for_openlist_dir("/a/b/", "/"), "a/b");
    assert_eq!(route_path_for_openlist_dir("/booksx/a", "/books"), "booksx/a");
}

#[test]
fn join_paths_cases() {
    assert_eq!(join_paths("/books", "a"), "/books/a");
    assert_eq!(join_paths("/", ""), "/");
    assert_eq!(join_paths("", ""), "/");
    assert_eq!(join_paths("/books/", "/a"), "/books/a");
    assert_eq!(join_paths("/books", ""), "/books");
    assert_eq!(join_paths("/", "x/y"), "/x/y");
}

#[test]
fn up_link_returns_to_parent_on_values() {
    for (route, name) in [("a/b", "c"), ("", "top"), ("/a/", "x.epub"), ("///", "n")] {
        let child = join_route_path(route, name);
        assert_eq!(parent_of(&child), trim_matches(route, '/'));
        assert_eq!(browse_url("http://h", parent_of(&child)), browse_url("http://h", route));
    }
}

#[test]
fn search_route_matches_browse_route_on_values() {
    for (root, rel) in [("/books", "x/y/"), ("/", "a"), ("", ""), ("//b//", "/c"), ("/b", "")] {
        let dir = join_paths(root, rel);
        assert_eq!(route_path_for_openlist_dir(&dir, root), trim_matches(rel, '/'));
    }
}

#[test]
fn download_route_reaches_file_on_values() {
    // The directory listed at route "x" under "/books" is "/books/x"; the file's download
    // route is "x/f.epub"; the proxy resolves it to the file's path.
    let dir = join_paths("/books", "x");
    assert_eq!(dir, "/books/x");
    let route = join_route_path("x", "f.epub");
    assert_eq!(proxy_full_path("/books", &route), "/books/x/f.epub");
    // A route ending in a single slash works too.
    assert_eq!(proxy_full_path("/books", &join_route_path("x/", "f.epub")), "/books/x/f.epub");
    // The root "/" exposes the whole tree.
    assert_eq!(proxy_full_path("/", &join_route_path("", "f.epub")), "/f.epub");
}

#[test]
fn subsection_route_lists_directory_on_values() {
    assert_eq!(join_paths("/books", &join_route_path("x", "sub")), "/books/x/sub");
    assert_eq!(join_paths("/", &join_route_path("", "sub")), "/sub");
    assert_eq!(join_paths("/books/", &join_route_path("/x/", "sub")), "/books/x/sub");
}

#[test]
fn searched_directory_joins_back_on_values() {
    for (root, dir) in [("/books", "/books/a/b/"), ("/books//", "/books"), ("/", "//x/y"), ("", "/")] {
        let route = route_path_for_openlist_dir(dir, root);
        assert_eq!(join_paths(root, &route), normalize_abs_path(dir));
    }
    // A root written without its leading slash does not come back.
    let route = route_path_for_openlist_dir("/books/a", "books");
    assert_ne!(join_paths("books", &route), normalize_abs_path("/books/a"));
}
