//! The OpenList directory behind a browse route.

use vstd::prelude::*;
use crate::text::{concat3, owned, trim_end, trim_end_matches, trim_start, trim_start_matches};

verus! {

/// The OpenList path of route `rel` under root `root`: both joined by one slash; the root
/// itself (or `/` for an empty root) when the route is empty.
pub open spec fn spec_join_paths(root: Seq<char>, rel: Seq<char>) -> Seq<char> {
    let root = trim_end(root, '/');
    let rel = trim_start(rel, '/');
    if rel.len() == 0 {
        if root.len() == 0 {
            "/"@
        } else {
            root
        }
    } else {
        root + "/"@ + rel
    }
}

/// The OpenList path of a browse route under the configured root.
pub fn join_paths(root: &str, rel: &str) -> (r: String)
    ensures
        r@ == spec_join_paths(root@, rel@),
{
    let root = trim_end_matches(root, '/');
    let rel = trim_start_matches(rel, '/');
    if rel.is_empty() {
        if root.is_empty() {
            owned("/")
        } else {
            owned(root)
        }
    } else {
        concat3(root, "/", rel)
    }
}

} // verus!
