//! The request and response records of the ingest service.
//!
//! JSON documents that pass through unchanged (yt-dlp's raw metadata) are held as
//! [`JsonValue`]; percentages that the service reports as fractional numbers are held
//! as [`Progress`], from which the exact value is computed when a response is sent.
use vstd::prelude::*;
use crate::json::JsonValue;

verus! {

#[derive(Debug)]
pub struct OnlineMediaProvider {
    pub id: String,
    pub name: String,
    pub display_name: Option<String>,
    pub supported_content_types: Vec<String>,
    pub requires_auth: bool,
}

#[derive(Debug, Clone, Copy, PartialEq, Eq, Structural)]
pub struct OnlineMediaCapability {
    pub can_analyze: bool,
    pub can_download: bool,
    pub can_import_metadata: bool,
    pub supports_collections: bool,
}

#[derive(Debug)]
pub struct AnalyzeOnlineMediaRequest {
    pub url: String,
    pub target_library_id: Option<String>,
    pub preferred_provider: Option<String>,
}

#[derive(Debug)]
pub struct AnalyzeOnlineMediaResponse {
    pub is_supported: bool,
    pub provider: Option<OnlineMediaProvider>,
    pub capability: Option<OnlineMediaCapability>,
    pub source_site: Option<String>,
    pub source_id: Option<String>,
    pub normalized_url: Option<String>,
    pub title: Option<String>,
    pub description: Option<String>,
    pub thumbnail_url: Option<String>,
    pub duration_seconds: Option<u64>,
    pub uploader: Option<String>,
    pub artist: Option<String>,
    pub album_artist: Option<String>,
    pub album: Option<String>,
    pub track_title: Option<String>,
    pub track_number: Option<u32>,
    pub disc_number: Option<u32>,
    pub genre: Option<String>,
    pub release_date: Option<String>,
    pub external_id: Option<String>,
    pub content_type: Option<String>,
    pub requires_auth: bool,
    pub warnings: Vec<String>,
    pub raw_metadata: Option<JsonValue>,
}

#[derive(Debug)]
pub struct SubtitleSearchRequest {
    pub query: Option<String>,
    pub imdb_id: Option<String>,
    pub tmdb_id: Option<String>,
    pub languages: Option<Vec<String>>,
}

/// A subtitle found by a search. The rating is the number text the result page shows,
/// as it was found there.
#[derive(Debug)]
pub struct SubtitleSearchResult {
    pub id: String,
    pub name: String,
    pub language: String,
    pub language_name: String,
    pub format: String,
    pub provider: String,
    pub detail_path: Option<String>,
    pub download_path: Option<String>,
    pub download_count: Option<u64>,
    pub rating: Option<String>,
    pub movie_name: Option<String>,
    pub release_group: Option<String>,
}

#[derive(Debug)]
pub struct SubtitleDownloadRequest {
    pub subtitle_id: String,
    pub detail_path: Option<String>,
    pub download_path: Option<String>,
    pub language: String,
    pub format: String,
    pub name: Option<String>,
}

#[derive(Debug)]
pub struct SubtitleDownloadResponse {
    pub name: String,
    pub format: String,
    pub content_base64: String,
}

#[derive(Debug)]
pub struct CreateTaskRequest {
    pub record_id: String,
    pub url: String,
    pub normalized_url: Option<String>,
    pub provider_id: Option<String>,
    pub auth: Option<TaskAuthInput>,
    pub audio_only: Option<bool>,
    pub audio_container: Option<String>,
    pub target_library_id: String,
    pub target_folder_config_snapshot: TargetFolderConfigSnapshot,
    pub metadata: TaskMetadataInput,
}

#[derive(Debug)]
pub struct TaskAuthInput {
    pub cookie_header: Option<String>,
}

#[derive(Debug)]
pub struct TargetFolderConfigSnapshot {
    pub id: String,
    pub content_type: String,
    pub download_path: String,
    pub target_path: String,
    pub link_mode: String,
    pub organize_lang: Option<String>,
}

#[derive(Debug)]
pub struct TaskMetadataInput {
    pub title: Option<String>,
    pub media_title: Option<String>,
    pub media_year: Option<String>,
    pub thumbnail_url: Option<String>,
    pub duration_seconds: Option<u64>,
    pub uploader: Option<String>,
    pub artist: Option<String>,
    pub album_artist: Option<String>,
    pub album: Option<String>,
    pub track_title: Option<String>,
    pub track_number: Option<u32>,
    pub disc_number: Option<u32>,
    pub genre: Option<String>,
    pub release_date: Option<String>,
    pub source_id: Option<String>,
    pub external_id: Option<String>,
    pub source_site: Option<String>,
    pub generate_nfo: Option<bool>,
    pub raw_metadata: Option<JsonValue>,
}

#[derive(Debug)]
pub struct CreateTaskResponse {
    pub task_id: String,
}

#[derive(Debug)]
pub struct OutputFile {
    pub path: String,
    pub size_bytes: Option<u64>,
    pub mime_type: Option<String>,
}

impl Clone for OutputFile {
    fn clone(&self) -> (r: Self)
        ensures
            r == *self,
    {
        OutputFile {
            path: self.path.clone(),
            size_bytes: self.size_bytes,
            mime_type: match &self.mime_type {
                Some(m) => Some(m.clone()),
                None => None,
            },
        }
    }
}

#[derive(Debug)]
pub struct Manifest {
    pub source_url: String,
    pub provider_id: String,
    pub source_site: Option<String>,
    pub source_id: Option<String>,
    pub title: Option<String>,
    pub original_title: Option<String>,
    pub thumbnail_url: Option<String>,
    pub description: Option<String>,
    pub duration_seconds: Option<u64>,
    pub uploader: Option<String>,
    pub artist: Option<String>,
    pub album_artist: Option<String>,
    pub album: Option<String>,
    pub track_title: Option<String>,
    pub track_number: Option<u32>,
    pub disc_number: Option<u32>,
    pub genre: Option<String>,
    pub release_date: Option<String>,
    pub content_type: Option<String>,
    pub external_id: Option<String>,
    pub output_files: Vec<OutputFile>,
    pub artifacts: Vec<String>,
    pub raw_metadata: Option<JsonValue>,
}

#[derive(Debug, Clone, Copy, PartialEq, Eq, Structural)]
pub enum TaskState {
    Pending,
    Running,
    Completed,
    Failed,
    Cancelled,
}

/// A task's completion percentage: either a whole percentage (0 to 100) or the ratio
/// of downloaded to total bytes (total above zero), which is reported as
/// `downloaded / total * 100` capped at 100.
#[derive(Debug, Clone, Copy, PartialEq, Eq, Structural)]
pub enum Progress {
    Percent(u64),
    Ratio(u64, u64),
}

#[derive(Debug)]
pub struct TaskStatusResponse {
    pub task_id: String,
    pub status: TaskState,
    pub stage: Option<String>,
    pub progress: Option<Progress>,
    pub downloaded_bytes: Option<u64>,
    pub total_bytes: Option<u64>,
    pub speed_bytes: Option<u64>,
    pub eta_seconds: Option<u64>,
    pub manifest_path: Option<String>,
    pub target_path: Option<String>,
    pub output_files: Vec<OutputFile>,
    pub error: Option<String>,
}

#[derive(Debug, Clone, Copy, PartialEq, Eq, Structural)]
pub struct CancelTaskResponse {
    pub success: bool,
}

#[derive(Debug, Clone, Copy, PartialEq, Eq, Structural)]
pub struct HealthResponse {
    pub ok: bool,
}

#[derive(Debug)]
pub struct ResolveCollectionRequest {
    pub url: String,
    pub provider_id: Option<String>,
    pub auth: Option<TaskAuthInput>,
    pub limit: Option<usize>,
    pub cursor: Option<String>,
}

#[derive(Debug)]
pub struct CollectionItem {
    pub url: String,
    pub title: Option<String>,
    pub thumbnail_url: Option<String>,
    pub duration_seconds: Option<u64>,
    pub index: usize,
    pub source_id: Option<String>,
}

#[derive(Debug)]
pub struct ResolveCollectionResponse {
    pub provider_id: String,
    pub collection_title: Option<String>,
    pub collection_url: String,
    pub total_items: Option<usize>,
    pub items: Vec<CollectionItem>,
    pub next_cursor: Option<String>,
}

#[derive(Debug)]
pub struct BatchCreateTasksRequest {
    pub items: Vec<BatchTaskItem>,
    pub target_library_id: String,
    pub target_folder_config_snapshot: TargetFolderConfigSnapshot,
    pub auth: Option<TaskAuthInput>,
}

#[derive(Debug)]
pub struct BatchTaskItem {
    pub url: String,
    pub provider_id: Option<String>,
    pub metadata: TaskMetadataInput,
    pub record_id: String,
    pub audio_only: Option<bool>,
    pub audio_container: Option<String>,
}

#[derive(Debug)]
pub struct BatchCreateTasksResponse {
    pub task_ids: Vec<String>,
    pub total: usize,
}

#[derive(Debug)]
pub struct ProviderListEntry {
    pub id: String,
    pub name: String,
    pub display_name: String,
    pub source_site: String,
    pub supported_content_types: Vec<String>,
    pub requires_auth: bool,
    pub auth_configurable: bool,
    pub common_source_sites: Vec<String>,
    pub source_site_aliases: Vec<String>,
    pub host_suffixes: Vec<String>,
}

#[derive(Debug)]
pub struct ProviderListResponse {
    pub providers: Vec<ProviderListEntry>,
    pub ytdlp_available: bool,
}

#[derive(Debug)]
pub struct YtdlpStatusResponse {
    pub installed: bool,
    pub current_version: Option<String>,
    pub latest_version: Option<String>,
    pub needs_update: bool,
}

#[derive(Debug)]
pub struct YtdlpUpdateResponse {
    pub success: bool,
    pub version: Option<String>,
    pub message: String,
}

} // verus!
