//! The proxied download of a file: its OpenList path, its source, and the response
//! headers passed on to the client.

use vstd::prelude::*;
use crate::error::AppError;
use crate::openlist::types::FsObject;
use crate::text::{concat3, str_eq, trim_end, trim_end_matches, trim_start, trim_start_matches};

verus! {

/// The OpenList path of a proxied file: the root without trailing slashes, one slash, and
/// the requested path without leading slashes.
pub open spec fn spec_proxy_full_path(root_path: Seq<char>, path: Seq<char>) -> Seq<char> {
    trim_end(root_path, '/') + "/"@ + trim_start(path, '/')
}

/// The OpenList path of `/opds/raw/{path}`.
pub fn proxy_full_path(root_path: &str, path: &str) -> (r: String)
    ensures
        r@ == spec_proxy_full_path(root_path@, path@),
{
    concat3(trim_end_matches(root_path, '/'), "/", trim_start_matches(path, '/'))
}

/// Where a proxied file is fetched from: OpenList's direct URL; not-found when it has none.
pub fn download_source(full_path: String, obj: FsObject) -> (r: Result<String, AppError>)
    ensures
        obj.raw_url@.len() == 0 ==> r is Err && crate::error::is_not_found(r->Err_0, full_path@),
        obj.raw_url@.len() > 0 ==> r is Ok && r->Ok_0@ == obj.raw_url@,
{
    if obj.raw_url.as_str().is_empty() {
        return Err(AppError::NotFound { path: full_path });
    }
    Ok(obj.raw_url)
}

/// The upstream response headers handed on to the client.
pub open spec fn is_forwarded_header(name: Seq<char>) -> bool {
    ||| name == "content-type"@
    ||| name == "content-length"@
    ||| name == "content-disposition"@
    ||| name == "last-modified"@
    ||| name == "etag"@
}

/// Whether an upstream header (by its lower-case name) is handed on to the client.
pub fn forwarded_header(name: &str) -> (r: bool)
    ensures
        r == is_forwarded_header(name@),
{
    str_eq(name, "content-type") || str_eq(name, "content-length") || str_eq(
        name,
        "content-disposition",
    ) || str_eq(name, "last-modified") || str_eq(name, "etag")
}

} // verus!
