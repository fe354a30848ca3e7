//! Request and response bodies of the OpenList API, as plain data.

use vstd::prelude::*;

verus! {

// ── Request bodies ─────────────────────────────────────────────────────────

/// Body of `/api/fs/list`.
#[derive(Debug)]
pub struct FsListRequest<'a> {
    pub path: &'a str,
    pub password: &'a str,
    pub page: u32,
    pub per_page: u32,
    pub refresh: bool,
}

/// Body of `/api/fs/search`.
#[derive(Debug)]
pub struct FsSearchRequest<'a> {
    pub parent: &'a str,
    pub keywords: &'a str,
    pub scope: u8,
    pub page: u32,
    pub per_page: u32,
    pub password: &'a str,
}

/// Body of `/api/fs/get`.
#[derive(Debug)]
pub struct FsGetRequest<'a> {
    pub path: &'a str,
    pub password: &'a str,
}

// ── Shared data types ──────────────────────────────────────────────────────

/// A single file or directory entry as returned by OpenList.
#[derive(Debug, Clone)]
pub struct FsObject {
    pub name: String,
    /// Parent directory path; only present in search results.
    pub parent: Option<String>,
    /// File size in bytes; 0 for directories.
    pub size: u64,
    pub is_dir: bool,
    /// RFC 3339 modification timestamp; absent in search results.
    pub modified: Option<String>,
    /// RFC 3339 creation timestamp; absent in search results.
    pub created: Option<String>,
    /// Auth sign required for protected downloads; may be empty.
    pub sign: String,
    /// Thumbnail URL; may be empty.
    pub thumb: String,
    /// File type code: 1 = folder, others vary.
    pub file_type: u8,
    /// Direct download URL; populated for files, empty for directories.
    pub raw_url: String,
}

/// The contents of an [`FsObject`].
pub struct FsObjectView {
    pub name: Seq<char>,
    pub parent: Option<Seq<char>>,
    pub size: u64,
    pub is_dir: bool,
    pub modified: Option<Seq<char>>,
    pub created: Option<Seq<char>>,
    pub sign: Seq<char>,
    pub thumb: Seq<char>,
    pub file_type: u8,
    pub raw_url: Seq<char>,
}

impl View for FsObject {
    type V = FsObjectView;

    open spec fn view(&self) -> FsObjectView {
        FsObjectView {
            name: self.name@,
            parent: self.parent.deep_view(),
            size: self.size,
            is_dir: self.is_dir,
            modified: self.modified.deep_view(),
            created: self.created.deep_view(),
            sign: self.sign@,
            thumb: self.thumb@,
            file_type: self.file_type,
            raw_url: self.raw_url@,
        }
    }
}

/// The contents of a list of objects.
pub open spec fn objects_view(objs: Seq<FsObject>) -> Seq<FsObjectView> {
    objs.map_values(|o: FsObject| o@)
}

// ── Response envelopes ─────────────────────────────────────────────────────

/// Generic OpenList API envelope.
#[derive(Debug)]
pub struct ApiResponse<T> {
    pub code: i32,
    pub message: String,
    pub data: Option<T>,
}

/// `data` payload for `/api/fs/list`.
#[derive(Debug)]
pub struct FsListData {
    pub content: Vec<FsObject>,
    pub total: u64,
}

/// `data` payload for `/api/fs/search`.
#[derive(Debug)]
pub struct FsSearchData {
    pub content: Vec<FsObject>,
    pub total: u64,
}

/// Envelope of `/api/fs/list`.
pub type FsListResponse = ApiResponse<FsListData>;
/// Envelope of `/api/fs/search`.
pub type FsSearchResponse = ApiResponse<FsSearchData>;
/// Envelope of `/api/fs/get`.
pub type FsGetResponse = ApiResponse<FsObject>;

} // verus!
