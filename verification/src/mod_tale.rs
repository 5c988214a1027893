//! The record shapes of the ModTale catalog, as the application receives
//! them.

use vstd::prelude::*;

verus! {

/// One page of a search response.
pub struct PageResponse<T> {
    pub content: Vec<T>,
    pub total_pages: u32,
    pub total_elements: u64,
    pub last: bool,
    pub first: bool,
}

/// One catalog item.
pub struct ModTaleMod {
    pub id: String,
    pub name: String,
    pub slug: Option<String>,
    pub summary: Option<String>,
    pub author: String,
    pub icon_url: Option<String>,
    pub banner_url: Option<String>,
    pub download_count: u64,
    pub categories: Option<Vec<String>>,
    pub created_at: String,
    pub updated_at: String,
    pub versions: Option<Vec<ModTaleFile>>,
}

/// One downloadable version of a catalog item.
pub struct ModTaleFile {
    pub id: String,
    pub version_number: String,
    pub supported_versions: Vec<String>,
    pub download_url: Option<String>,
    pub created_at: String,
    pub download_count: u64,
    pub channel: Option<String>,
}

/// Paging information derived from a page response.
#[derive(Clone, Copy, Debug, PartialEq, Eq, Structural)]
pub struct Meta {
    pub current_page: u32,
    pub last_page: u32,
    pub total: u32,
    pub per_page: u32,
}

} // verus!
