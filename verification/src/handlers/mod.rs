//! What the HTTP handlers decide: the OpenList path behind each route, the timestamp of
//! a listing, the search terms, the proxied download and the OpenSearch document.

pub mod browse;
pub mod opensearch;
pub mod proxy;
pub mod search;

use vstd::prelude::*;
use crate::clock::{now_rfc3339, rfc3339_shaped};
use crate::error::AppError;
use crate::openlist::types::FsObject;

verus! {

/// The page a directory listing asks OpenList for.
pub const LISTING_PAGE: u32 = 1;
/// Entries per page of a directory listing: 0 asks OpenList for all of them.
pub const LISTING_PER_PAGE: u32 = 0;
/// The page a search asks OpenList for.
pub const SEARCH_PAGE: u32 = 1;
/// Results per page of a search.
pub const SEARCH_PER_PAGE: u32 = 100;

/// The timestamp of a listing: that of its first object, else the current time.
pub fn listing_updated(objects: &Vec<FsObject>) -> (r: Result<String, AppError>)
    ensures
        objects.len() > 0 && objects@[0].modified is Some ==> r is Ok && r->Ok_0@
            == objects@[0].modified->0@,
        !(objects.len() > 0 && objects@[0].modified is Some) ==> match r {
            Ok(s) => rfc3339_shaped(s@),
            Err(e) => e is Internal,
        },
{
    if objects.len() > 0 {
        match &objects[0].modified {
            Some(m) => {
                return Ok(String::from_str(m.as_str()));
            },
            None => {},
        }
    }
    now_rfc3339()
}

} // verus!
