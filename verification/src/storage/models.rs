//! The request and response bodies of the storage service.
use vstd::prelude::*;

verus! {

/// The body of `GET /health`.
pub struct HealthResponse {
    pub status: &'static str,
    pub service: &'static str,
}

/// The answer of `GET /health`: the service is up.
pub fn health() -> (r: HealthResponse)
    ensures
        r.status@ == "ok"@,
        r.service@ == "storage"@,
{
    HealthResponse { status: "ok", service: "storage" }
}

pub struct MessageResponse {
    pub message: String,
}

pub struct BucketResponse {
    pub id: String,
    pub name: String,
    pub public: bool,
    pub created_at: String,
    pub updated_at: String,
}

pub struct FolderResponse {
    pub id: String,
    pub bucket_id: String,
    pub parent_id: String,
    pub name: String,
    pub created_at: String,
    pub updated_at: String,
}

pub struct FileResponse {
    pub id: String,
    pub bucket_id: String,
    pub folder_id: String,
    pub name: String,
    pub size: i64,
    pub content_type: String,
    pub storage_path: String,
    pub created_at: String,
    pub updated_at: String,
}

pub struct CreateBucketBody {
    pub name: String,
    pub public: bool,
}

pub struct CreateFolderBody {
    pub name: String,
    /// UUID text; absent for the root.
    pub parent_id: Option<String>,
}

pub struct CreateFileBody {
    pub name: String,
    pub size: i64,
    pub content_type: String,
    pub storage_path: String,
    /// UUID text; absent for the root.
    pub folder_id: Option<String>,
}

pub struct FolderQuery {
    pub parent_id: Option<String>,
}

pub struct FileQuery {
    pub folder_id: Option<String>,
}

pub struct BucketPath {
    pub bucket_id: String,
}

pub struct BucketFolderPath {
    pub bucket_id: String,
    pub folder_id: String,
}

pub struct BucketFilePath {
    pub bucket_id: String,
    pub file_id: String,
}

} // verus!
