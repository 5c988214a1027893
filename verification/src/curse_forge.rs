//! The record shapes of the CurseForge catalog, as the application receives
//! them.  The surrounding application parses catalog responses into these
//! values; the library maps them into its provider-neutral records.

use vstd::prelude::*;

verus! {

/// One downloadable file as listed by the files endpoint.
pub struct ApiFile {
    pub id: u32,
    pub display_name: String,
    pub file_name: String,
    pub file_date: String,
    pub file_length: u64,
    pub release_type: u8,
    pub download_url: Option<String>,
    pub game_versions: Vec<String>,
}

/// The envelope around catalog responses.
pub struct ApiResponse<T> {
    pub data: T,
    pub pagination: Option<Pagination>,
}

/// Paging information of a search response.
#[derive(Clone, Copy, Debug, PartialEq, Eq, Structural)]
pub struct Pagination {
    pub index: u32,
    pub page_size: u32,
    pub total_count: u32,
}

/// One catalog item.  The download counter is carried as an integer.
pub struct CurseForgeMod {
    pub id: u32,
    pub game_id: u32,
    pub name: String,
    pub slug: String,
    pub links: ModLinks,
    pub summary: String,
    pub status: i32,
    pub download_count: u64,
    pub is_featured: bool,
    pub primary_category_id: Option<u32>,
    pub categories: Vec<Category>,
    pub class_id: Option<u32>,
    pub authors: Vec<Author>,
    pub logo: Option<ModAsset>,
    pub screenshots: Vec<ModAsset>,
    pub main_file_id: u32,
    pub latest_files: Vec<ModFile>,
    pub date_created: String,
    pub date_modified: String,
    pub date_released: String,
    pub allow_mod_distribution: Option<bool>,
    pub game_popularity_rank: Option<u32>,
    pub is_available: Option<bool>,
    pub thumbs_up_count: Option<u32>,
}

/// The link block of a catalog item.
pub struct ModLinks {
    pub website_url: String,
    pub wiki_url: Option<String>,
    pub issues_url: Option<String>,
    pub source_url: Option<String>,
}

/// A category a catalog item belongs to.
pub struct Category {
    pub id: u32,
    pub game_id: u32,
    pub name: String,
    pub slug: String,
    pub url: String,
    pub icon_url: String,
    pub is_class: Option<bool>,
    pub class_id: Option<u32>,
    pub parent_category_id: Option<u32>,
}

/// An author of a catalog item.
pub struct Author {
    pub id: u32,
    pub name: String,
    pub url: String,
}

/// An image attached to a catalog item.
pub struct ModAsset {
    pub id: u32,
    pub mod_id: u32,
    pub title: String,
    pub description: String,
    pub thumbnail_url: String,
    pub url: String,
}

/// One downloadable file as embedded in a catalog item.
pub struct ModFile {
    pub id: u32,
    pub game_id: u32,
    pub mod_id: u32,
    pub is_available: bool,
    pub display_name: String,
    pub file_name: String,
    pub release_type: i32,
    pub file_status: i32,
    pub hashes: Vec<FileHash>,
    pub file_date: String,
    pub file_length: u64,
    pub download_count: u64,
    pub download_url: Option<String>,
    pub game_versions: Vec<String>,
    pub dependencies: Vec<FileDependency>,
}

/// A checksum of a downloadable file.
pub struct FileHash {
    pub value: String,
    pub algo: i32,
}

/// A dependency between catalog items.
#[derive(Clone, Copy, Debug, PartialEq, Eq, Structural)]
pub struct FileDependency {
    pub mod_id: u32,
    pub relation_type: i32,
}

/// One game as listed by the games endpoint.
pub struct GameData {
    pub id: u32,
    pub name: String,
}

} // verus!
