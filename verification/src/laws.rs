//! Properties that span several of the catalog's functions: how routes, OpenList paths
//! and links built by different functions fit together.

use vstd::prelude::*;
use crate::handlers::browse::spec_join_paths;
use crate::handlers::opensearch::spec_search_template;
use crate::handlers::proxy::spec_proxy_full_path;
use crate::opds::entry::FeedView;
use crate::openlist::types::FsObjectView;
use crate::opds::feed::{
    is_search_feed, spec_browse_url, spec_full_path, url_encode, spec_join_route_path, spec_normalize_abs_path,
    spec_parent_of, spec_route_path_for_openlist_dir,
};
use crate::text::{
    has_prefix, lemma_last_index_absent, lemma_last_index_split,
    lemma_trim_commute, lemma_trim_end_concat, lemma_trim_end_tail, lemma_trim_ends,
    lemma_trim_idempotent, lemma_trim_start_concat, lemma_trim_start_head, lemma_trim_untouched,
    trim, trim_end, trim_start,
};

verus! {

/// A file or directory name as OpenList lists it: not empty, and without slashes.
pub open spec fn is_plain_name(name: Seq<char>) -> bool {
    &&& name.len() > 0
    &&& forall|j: int| 0 <= j < name.len() ==> name[j] != '/'
}

/// The `up` link of a child's feed leads back to its parent: the parent of a child route
/// is the parent route without surrounding slashes, so both browse URLs are the same.
pub proof fn law_up_link_returns_to_parent(base_url: Seq<char>, route_path: Seq<char>, name: Seq<
    char,
>)
    requires
        is_plain_name(name),
    ensures
        spec_parent_of(spec_join_route_path(route_path, name)) == trim(route_path, '/'),
        spec_browse_url(base_url, spec_parent_of(spec_join_route_path(route_path, name)))
            == spec_browse_url(base_url, route_path),
{
    reveal_strlit("/");
    let r = trim(route_path, '/');
    lemma_trim_untouched(name, '/');
    lemma_trim_idempotent(route_path, '/');
    let j = spec_join_route_path(route_path, name);
    if r.len() == 0 {
        assert(j == name);
        lemma_last_index_absent(name, '/');
        assert(spec_parent_of(j) =~= r);
    } else {
        assert(j =~= r + seq!['/'] + name);
        assert(j.last() == name.last());
        lemma_trim_untouched(j, '/');
        lemma_last_index_split(r, '/', name);
        assert(j.take(r.len() as int) =~= r);
    }
}

/// Normalising an absolute path twice changes nothing more.
pub proof fn law_normalize_abs_path_idempotent(path: Seq<char>)
    ensures
        spec_normalize_abs_path(spec_normalize_abs_path(path)) == spec_normalize_abs_path(path),
        spec_normalize_abs_path(path).len() > 0 && spec_normalize_abs_path(path)[0] == '/',
{
    reveal_strlit("/");
    let t = trim(path, '/');
    lemma_trim_ends(path, '/');
    if t.len() == 0 {
        let n = seq!['/'];
        assert(spec_normalize_abs_path(path) =~= n);
        assert(n.drop_first().len() == 0);
        assert(trim_start(n, '/') == trim_start(n.drop_first(), '/'));
        assert(trim(n, '/').len() == 0);
    } else {
        let n = seq!['/'] + t;
        assert(spec_normalize_abs_path(path) =~= n);
        assert(n.drop_first() =~= t);
        assert(trim_start(n, '/') == trim_start(t, '/'));
        lemma_trim_untouched(t, '/');
        assert(trim(n, '/') == t);
    }
}

/// `t` ends in two or more slashes.
pub open spec fn ends_in_double_slash(t: Seq<char>) -> bool {
    t.len() >= 2 && t.last() == '/' && t[t.len() - 2] == '/'
}

/// A file's proxied download leads back to that file. In the feed of the directory
/// browsed at route `rel` under `root`, a file's download route is the route joined with
/// its name; the proxy turns that route into the file's OpenList path in that directory.
/// It fails for routes that end in two or more slashes (the directory path keeps them,
/// the route does not), and for names with a slash at either end.
pub proof fn law_download_route_reaches_file(root: Seq<char>, rel: Seq<char>, name: Seq<char>)
    requires
        trim(name, '/') == name,
        !ends_in_double_slash(trim_start(rel, '/')),
    ensures
        spec_proxy_full_path(root, spec_join_route_path(rel, name)) == spec_full_path(
            spec_join_paths(root, rel),
            name,
        ),
{
    reveal_strlit("/");
    let t = trim_start(rel, '/');
    let rp = trim_end(root, '/');
    let r = trim(rel, '/');
    lemma_trim_start_head(rel, '/');
    lemma_trim_end_tail(root, '/');
    lemma_trim_ends(name, '/');
    crate::text::lemma_trim_end_is_prefix(t, '/');
    let j = spec_join_route_path(rel, name);
    // The joined route starts with no slash.
    if r.len() == 0 {
        assert(j == name);
    } else {
        assert(j =~= r + seq!['/'] + name);
        assert(j[0] == r[0]);
        assert(r[0] == t[0]);
    }
    lemma_trim_untouched(j, '/');
    let proxy = spec_proxy_full_path(root, j);
    assert(proxy =~= rp + seq!['/'] + j);
    if t.len() == 0 {
        assert(r.len() == 0);
        if rp.len() == 0 {
            assert(spec_join_paths(root, rel) =~= seq!['/']);
        }
        assert(proxy =~= spec_full_path(spec_join_paths(root, rel), name));
    } else {
        let dir = spec_join_paths(root, rel);
        assert(dir =~= rp + seq!['/'] + t);
        if t.last() != '/' {
            lemma_trim_untouched(t, '/');
            assert(r == t);
            assert(proxy =~= spec_full_path(dir, name));
        } else {
            assert(t.len() >= 2);
            let u = t.drop_last();
            assert(u.last() == t[t.len() - 2]);
            lemma_trim_untouched(u, '/');
            assert(trim_end(t, '/') == trim_end(u, '/'));
            assert(r == u);
            assert(dir.last() == '/');
            assert(t =~= u + seq!['/']);
            assert(proxy =~= spec_full_path(dir, name));
        }
    }
}

/// A search result lands on the route it is browsed at: the catalog route of the OpenList
/// directory that browsing route `rel` under `root` lists is `rel` without surrounding
/// slashes.
pub proof fn law_search_route_matches_browse_route(root: Seq<char>, rel: Seq<char>)
    ensures
        spec_route_path_for_openlist_dir(spec_join_paths(root, rel), root) == trim(rel, '/'),
{
    reveal_strlit("/");
    let t = trim_start(rel, '/');
    let rp = trim_end(root, '/');
    let rt = trim(root, '/');
    let g = trim(rel, '/');
    let dir = spec_join_paths(root, rel);
    lemma_trim_start_head(rel, '/');
    lemma_trim_end_tail(root, '/');
    lemma_trim_commute(root, '/');
    assert(rt == trim_start(rp, '/'));
    crate::text::lemma_trim_end_is_prefix(t, '/');
    lemma_trim_end_tail(t, '/');
    if t.len() > 0 {
        if g.len() == 0 {
            crate::text::lemma_trim_end_empty(t, '/');
        }
        assert(g.len() > 0);
        assert(g[0] == t[0]);
        lemma_trim_untouched(g, '/');
    }
    if rt.len() == 0 {
        if rp.len() > 0 {
            crate::text::lemma_trim_start_empty(rp, '/');
        }
        assert(rp.len() == 0);
        assert(spec_normalize_abs_path(root) =~= "/"@);
        if t.len() == 0 {
            assert(dir =~= seq!['/']);
            assert(seq!['/'].drop_first() =~= Seq::<char>::empty());
            assert(trim_start(seq!['/'], '/') == trim_start(Seq::<char>::empty(), '/'));
            assert(trim(dir, '/').len() == 0);
            assert(spec_normalize_abs_path(dir) =~= seq!['/']);
            assert(trim_start(seq!['/'], '/').len() == 0);
        } else {
            assert(dir =~= seq!['/'] + t);
            assert(dir.drop_first() =~= t);
            lemma_trim_untouched(t, '/');
            assert(trim_start(dir, '/') == t);
            assert(trim(dir, '/') == g);
            let dn = seq!['/'] + g;
            assert(spec_normalize_abs_path(dir) =~= dn);
            assert(dn.drop_first() =~= g);
            assert(trim_start(dn, '/') == g);
        }
    } else {
        let root_n = seq!['/'] + rt;
        assert(spec_normalize_abs_path(root) =~= root_n);
        assert(root_n != "/"@) by {
            assert(root_n.len() != "/"@.len());
        }
        assert(rp.len() > 0);
        crate::text::lemma_trim_start_is_suffix(rp, '/');
        assert(rt.last() == rp.last());
        lemma_trim_untouched(rt, '/');
        lemma_trim_start_head(rp, '/');
        if t.len() == 0 {
            assert(dir == rp);
            lemma_trim_untouched(rt, '/');
            assert(trim(rp, '/') == trim_end(rt, '/'));
            assert(spec_normalize_abs_path(dir) =~= root_n);
        } else {
            assert(dir =~= rp + (seq!['/'] + t));
            lemma_trim_start_concat(rp, seq!['/'] + t, '/');
            assert(trim_start(dir, '/') =~= (rt + seq!['/']) + t);
            lemma_trim_end_concat(rt + seq!['/'], t, '/');
            assert(trim(dir, '/') =~= rt + seq!['/'] + g);
            let dn = seq!['/'] + rt + seq!['/'] + g;
            assert(spec_normalize_abs_path(dir) =~= dn);
            assert(dn != root_n) by {
                assert(dn.len() != root_n.len());
            }
            assert(dn.take((root_n + seq!['/']).len() as int) =~= root_n + seq!['/']);
            assert("/"@ =~= seq!['/']);
            assert(has_prefix(dn, root_n + "/"@));
            assert(dn.skip(root_n.len() + 1int) =~= g);
        }
    }
}

/// Opening a subdirectory's entry lists that subdirectory: the route of a child named
/// `name` in the directory browsed at `rel` leads to the child's OpenList path. Like the
/// download route, it fails for routes that end in two or more slashes.
pub proof fn law_subsection_route_lists_directory(root: Seq<char>, rel: Seq<char>, name: Seq<char>)
    requires
        name.len() > 0,
        trim(name, '/') == name,
        !ends_in_double_slash(trim_start(rel, '/')),
    ensures
        spec_join_paths(root, spec_join_route_path(rel, name)) == spec_full_path(
            spec_join_paths(root, rel),
            name,
        ),
{
    reveal_strlit("/");
    law_download_route_reaches_file(root, rel, name);
    let j = spec_join_route_path(rel, name);
    let r = trim(rel, '/');
    lemma_trim_ends(name, '/');
    crate::text::lemma_trim_end_is_prefix(trim_start(rel, '/'), '/');
    lemma_trim_start_head(rel, '/');
    if r.len() == 0 {
        assert(j == name);
    } else {
        assert(j =~= r + seq!['/'] + name);
        assert(j[0] == r[0]);
    }
    assert(j.len() > 0 && j[0] != '/');
    lemma_trim_untouched(j, '/');
    assert(spec_join_paths(root, j) =~= spec_proxy_full_path(root, j));
}

/// The OpenSearch template and the search feed agree: the advertised template is a prefix
/// followed by `{searchTerms}`, and a search feed for `query` links to itself at that prefix
/// followed by the encoded query.
pub proof fn law_opensearch_template_fills_to_search_link(
    f: FeedView,
    base_url: Seq<char>,
    root_path: Seq<char>,
    query: Seq<char>,
    objs: Seq<FsObjectView>,
    updated: Seq<char>,
    proxy_enabled: bool,
)
    requires
        is_search_feed(f, base_url, root_path, query, objs, updated, proxy_enabled),
    ensures
        spec_search_template(base_url) == base_url + "/opds/search?q="@ + "{searchTerms}"@,
        f.links[0].rel == "self"@,
        f.links[0].href == base_url + "/opds/search?q="@ + url_encode(query),
{
    reveal_strlit("/opds/search?q={searchTerms}");
    reveal_strlit("/opds/search?q=");
    reveal_strlit("{searchTerms}");
    assert("/opds/search?q={searchTerms}"@ =~= "/opds/search?q="@ + "{searchTerms}"@);
}

/// `dir` (already normalised) lies at or under `root` (normalised): it is the root, or the
/// root, one slash and a part that does not start with a slash.
pub open spec fn lies_within(dir: Seq<char>, root: Seq<char>) -> bool {
    ||| dir == root
    ||| has_prefix(dir, root + "/"@) && dir.len() > root.len() + 1 && dir[root.len() + 1int] != '/'
}

/// A searched directory's route leads back to it: joining the catalog route of an OpenList
/// directory to the exposed root gives the directory's normalised path. It holds when the
/// root is `/`, or when the root is written with exactly one leading slash and the
/// directory lies within it; it fails for a root written without a leading slash
/// (`books`), and for directories outside the root or with a doubled slash right after it.
pub proof fn law_searched_directory_joins_back(root: Seq<char>, dir: Seq<char>)
    requires
        spec_normalize_abs_path(root) != "/"@ ==> trim_end(root, '/') == spec_normalize_abs_path(root)
            && lies_within(spec_normalize_abs_path(dir), spec_normalize_abs_path(root)),
    ensures
        spec_join_paths(root, spec_route_path_for_openlist_dir(dir, root))
            == spec_normalize_abs_path(dir),
{
    reveal_strlit("/");
    assert("/"@ =~= seq!['/']);
    let rn = spec_normalize_abs_path(root);
    let dn = spec_normalize_abs_path(dir);
    let t = trim(dir, '/');
    lemma_trim_ends(dir, '/');
    let route = spec_route_path_for_openlist_dir(dir, root);
    if rn == "/"@ {
        let rt = trim(root, '/');
        if rt.len() > 0 {
            assert(rn =~= seq!['/'] + rt);
            assert(rn.len() > 1);
        }
        assert(rt.len() == 0);
        lemma_trim_commute(root, '/');
        let rp = trim_end(root, '/');
        if rp.len() > 0 {
            crate::text::lemma_trim_start_empty(rp, '/');
            lemma_trim_end_tail(root, '/');
        }
        assert(rp.len() == 0);
        if t.len() == 0 {
            assert(dn =~= seq!['/']);
            assert(seq!['/'].drop_first() =~= Seq::<char>::empty());
            assert(trim_start(seq!['/'], '/') == trim_start(Seq::<char>::empty(), '/'));
            assert(route.len() == 0);
            assert(trim_start(route, '/').len() == 0);
        } else {
            let d = seq!['/'] + t;
            assert(dn =~= d);
            assert(d.drop_first() =~= t);
            lemma_trim_untouched(t, '/');
            assert(trim_start(d, '/') == t);
            assert(route == t);
            assert(spec_join_paths(root, route) =~= seq!['/'] + t);
        }
    } else {
        if dn == rn {
            assert(route.len() == 0);
            assert(trim_start(route, '/').len() == 0);
            assert(rn.len() > 0);
        } else {
            assert(dn.len() > rn.len() + 1);
            let k: int = rn.len() + 1int;
            let tail = dn.skip(k);
            assert(has_prefix(dn, rn + "/"@));
            assert(t.len() > 0);
            assert(dn =~= seq!['/'] + t);
            assert(tail.last() == dn.last());
            assert(tail[0] == dn[k]);
            lemma_trim_untouched(tail, '/');
            assert(route == tail);
            assert(dn.take(k) =~= rn + seq!['/']);
            assert(dn =~= rn + seq!['/'] + tail);
            assert(spec_join_paths(root, route) =~= rn + seq!['/'] + tail);
        }
    }
}

} // verus!
