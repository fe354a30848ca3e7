//! What the OpenList client computes: endpoint URLs, request bodies, and the
//! reading of each response envelope. Sending the requests is left to the caller.

use vstd::prelude::*;
use crate::error::{is_api_error, is_internal, is_not_found, AppError};
use crate::openlist::types::{
    ApiResponse, FsGetRequest, FsListData, FsListRequest, FsObject, FsSearchData, FsSearchRequest,
};
use crate::text::{trim_end, trim_end_matches};

verus! {

/// The full URL of an API endpoint: the base URL without trailing slashes, then the endpoint.
pub fn api_url(base_url: &str, endpoint: &str) -> (r: String)
    ensures
        r@ == trim_end(base_url@, '/') + endpoint@,
{
    let mut r = String::from_str(trim_end_matches(base_url, '/'));
    r.append(endpoint);
    r
}

/// The `Authorization` header value for a bearer token: none for an empty token, which
/// stands for a public OpenList instance.
pub fn auth_header(token: &str) -> (r: Option<&str>)
    ensures
        r is Some <==> token@.len() > 0,
        r matches Some(t) ==> t@ == token@,
{
    if token.is_empty() {
        None
    } else {
        Some(token)
    }
}

/// The body that lists directory `path`, page `page` of `per_page` entries.
pub fn list_request<'a>(path: &'a str, page: u32, per_page: u32) -> (r: FsListRequest<'a>)
    ensures
        r.path == path,
        r.password@ == ""@,
        r.page == page,
        r.per_page == per_page,
        !r.refresh,
{
    FsListRequest { path, password: "", page, per_page, refresh: false }
}

/// The body that searches `parent` for `keywords`, page `page` of `per_page` entries.
pub fn search_request<'a>(parent: &'a str, keywords: &'a str, page: u32, per_page: u32) -> (r:
    FsSearchRequest<'a>)
    ensures
        r.parent == parent,
        r.keywords == keywords,
        r.scope == 0,
        r.page == page,
        r.per_page == per_page,
        r.password@ == ""@,
{
    FsSearchRequest { parent, keywords, scope: 0, page, per_page, password: "" }
}

/// The body that asks for the metadata of `path`.
pub fn get_request<'a>(path: &'a str) -> (r: FsGetRequest<'a>)
    ensures
        r.path == path,
        r.password@ == ""@,
{
    FsGetRequest { path, password: "" }
}

/// The listing in a `/api/fs/list` reply for `path`: an API error unless the code is 200,
/// and not-found when the reply holds no data.
pub fn list_result(path: &str, resp: ApiResponse<FsListData>) -> (r: Result<FsListData, AppError>)
    ensures
        resp.code != 200 ==> r is Err && is_api_error(r->Err_0, path@, resp.code, resp.message@),
        resp.code == 200 && resp.data is None ==> r is Err && is_not_found(r->Err_0, path@),
        resp.code == 200 && resp.data is Some ==> r == Ok::<FsListData, AppError>(resp.data->0),
{
    if resp.code != 200 {
        return Err(AppError::OpenListApi {
            path: String::from_str(path),
            code: resp.code,
            message: resp.message,
        });
    }
    match resp.data {
        Some(d) => Ok(d),
        None => Err(AppError::NotFound { path: String::from_str(path) }),
    }
}

/// The results in a `/api/fs/search` reply for `keywords`: an API error unless the code is
/// 200, and an internal error when the reply holds no data.
pub fn search_result(keywords: &str, resp: ApiResponse<FsSearchData>) -> (r: Result<
    FsSearchData,
    AppError,
>)
    ensures
        resp.code != 200 ==> r is Err && is_api_error(r->Err_0, keywords@, resp.code, resp.message@),
        resp.code == 200 && resp.data is None ==> r is Err && is_internal(
            r->Err_0,
            "search returned no data"@,
        ),
        resp.code == 200 && resp.data is Some ==> r == Ok::<FsSearchData, AppError>(resp.data->0),
{
    if resp.code != 200 {
        return Err(AppError::OpenListApi {
            path: String::from_str(keywords),
            code: resp.code,
            message: resp.message,
        });
    }
    match resp.data {
        Some(d) => Ok(d),
        None => Err(AppError::Internal { message: String::from_str("search returned no data") }),
    }
}

/// The object in a `/api/fs/get` reply for `path`: not-found for code 404 or an empty
/// reply, an API error for any other code but 200.
pub fn get_result(path: &str, resp: ApiResponse<FsObject>) -> (r: Result<FsObject, AppError>)
    ensures
        resp.code == 404 ==> r is Err && is_not_found(r->Err_0, path@),
        resp.code != 404 && resp.code != 200 ==> r is Err && is_api_error(
            r->Err_0,
            path@,
            resp.code,
            resp.message@,
        ),
        resp.code == 200 && resp.data is None ==> r is Err && is_not_found(r->Err_0, path@),
        resp.code == 200 && resp.data is Some ==> r == Ok::<FsObject, AppError>(resp.data->0),
{
    if resp.code == 404 {
        return Err(AppError::NotFound { path: String::from_str(path) });
    }
    if resp.code != 200 {
        return Err(AppError::OpenListApi {
            path: String::from_str(path),
            code: resp.code,
            message: resp.message,
        });
    }
    match resp.data {
        Some(d) => Ok(d),
        None => Err(AppError::NotFound { path: String::from_str(path) }),
    }
}

} // verus!
