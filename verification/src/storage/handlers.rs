//! What the storage service's endpoints decide: the records they write and the answers they
//! give.
use vstd::prelude::*;
use crate::storage::error::{ApiError, ApiErrorView};
use crate::storage::helpers::{
    is_v4, new_uuid_v4, now_ts, optional_uuid_result, parse_optional_uuid, parse_uuid, rfc3339_at_millis,
    ts_to_iso, uuid_result, uuid_result_view, uuid_text, uuid_to_string,
};
use crate::storage::models::{
    BucketFilePath, BucketFolderPath, BucketPath, BucketResponse, CreateBucketBody,
    CreateFileBody, CreateFolderBody, FileResponse, FolderResponse, MessageResponse,
};
use crate::text::{
    chars_of, decimal, is_ascii_alphanumeric, is_ascii_alphanumeric_exec, owned_str,
    push_decimal, string_of, to_lowercase, trim, trim_chars, unicode_lowercase, ascii_lowercase,
    lemma_strip_ascii, Strip,
};

verus! {

/// The name of a new bucket: trimmed and lowercased, it must be non-empty and only ASCII
/// letters, digits and hyphens.
pub open spec fn bucket_name_result(name: Seq<char>) -> Result<Seq<char>, ApiErrorView> {
    let n = unicode_lowercase(trim(name));
    if n.len() == 0 {
        Err(ApiErrorView::BadRequest("name is required"@))
    } else if !(forall|i: int|
        0 <= i < n.len() ==> is_ascii_alphanumeric(#[trigger] n[i]) || n[i] == '-') {
        Err(ApiErrorView::BadRequest("name may only contain lowercase letters, numbers, and hyphens"@))
    } else {
        Ok(n)
    }
}

pub open spec fn text_result(r: Result<String, ApiError>) -> Result<Seq<char>, ApiErrorView> {
    match r {
        Ok(s) => Ok(s@),
        Err(e) => Err(e@),
    }
}

pub fn check_bucket_name(name: &str) -> (r: Result<String, ApiError>)
    ensures
        text_result(r) == bucket_name_result(name@),
        // An ASCII name is accepted in lowercase: no capital letter survives.
        vstd::utf8::is_ascii_chars(name@) ==> (r matches Ok(n) ==> n@ == ascii_lowercase(
            trim(name@),
        ) && forall|i: int| 0 <= i < n@.len() ==> !('A' <= #[trigger] n@[i] <= 'Z')),
{
    let t = string_of(&trim_chars(&chars_of(name)));
    proof {
        if vstd::utf8::is_ascii_chars(name@) {
            lemma_strip_ascii(Strip::Whitespace, name@);
        }
    }
    let n = to_lowercase(t.as_str());
    let v = chars_of(n.as_str());
    if v.len() == 0 {
        return Err(ApiError::BadRequest(owned_str("name is required")));
    }
    let len = v.len();
    let mut i: usize = 0;
    while i < len
        invariant
            i <= len == v@.len(),
            v@ == unicode_lowercase(trim(name@)),
            forall|j: int| 0 <= j < i ==> is_ascii_alphanumeric(#[trigger] v@[j]) || v@[j] == '-',
        decreases len - i,
    {
        if !(is_ascii_alphanumeric_exec(v[i]) || v[i] == '-') {
            assert(!(is_ascii_alphanumeric(v@[i as int]) || v@[i as int] == '-'));
            return Err(
                ApiError::BadRequest(
                    owned_str("name may only contain lowercase letters, numbers, and hyphens"),
                ),
            );
        }
        i = i + 1;
    }
    Ok(n)
}

/// The name of a new folder or file: trimmed, it must be non-empty.
pub open spec fn entry_name_result(name: Seq<char>) -> Result<Seq<char>, ApiErrorView> {
    let n = trim(name);
    if n.len() == 0 {
        Err(ApiErrorView::BadRequest("name is required"@))
    } else {
        Ok(n)
    }
}

pub fn check_entry_name(name: &str) -> (r: Result<String, ApiError>)
    ensures
        text_result(r) == entry_name_result(name@),
{
    let t = trim_chars(&chars_of(name));
    if t.len() == 0 {
        Err(ApiError::BadRequest(owned_str("name is required")))
    } else {
        Ok(string_of(&t))
    }
}

/// The answer for a bucket record.
pub fn bucket_response(id: u128, name: String, public: bool, created_at: i64, updated_at: i64) -> (r:
    BucketResponse)
    ensures
        r.id@ == uuid_text(id),
        r.name == name,
        r.public == public,
        r.created_at@ == rfc3339_at_millis(created_at),
        r.updated_at@ == rfc3339_at_millis(updated_at),
{
    BucketResponse {
        id: uuid_to_string(id),
        name,
        public,
        created_at: ts_to_iso(created_at),
        updated_at: ts_to_iso(updated_at),
    }
}

/// The answer for a folder record.
pub fn folder_response(
    id: u128,
    bucket_id: u128,
    parent_id: u128,
    name: String,
    created_at: i64,
    updated_at: i64,
) -> (r: FolderResponse)
    ensures
        r.id@ == uuid_text(id),
        r.bucket_id@ == uuid_text(bucket_id),
        r.parent_id@ == uuid_text(parent_id),
        r.name == name,
        r.created_at@ == rfc3339_at_millis(created_at),
        r.updated_at@ == rfc3339_at_millis(updated_at),
{
    FolderResponse {
        id: uuid_to_string(id),
        bucket_id: uuid_to_string(bucket_id),
        parent_id: uuid_to_string(parent_id),
        name,
        created_at: ts_to_iso(created_at),
        updated_at: ts_to_iso(updated_at),
    }
}

/// The answer for a file record; a missing size reads as 0, a missing content type or storage
/// path as empty.
pub fn file_response(
    id: u128,
    bucket_id: u128,
    folder_id: u128,
    name: String,
    size: Option<i64>,
    content_type: Option<String>,
    storage_path: Option<String>,
    created_at: i64,
    updated_at: i64,
) -> (r: FileResponse)
    ensures
        r.id@ == uuid_text(id),
        r.bucket_id@ == uuid_text(bucket_id),
        r.folder_id@ == uuid_text(folder_id),
        r.name == name,
        r.size == match size {
            Some(s) => s,
            None => 0,
        },
        r.content_type@ == match content_type {
            Some(c) => c@,
            None => Seq::<char>::empty(),
        },
        r.storage_path@ == match storage_path {
            Some(p) => p@,
            None => Seq::<char>::empty(),
        },
        r.created_at@ == rfc3339_at_millis(created_at),
        r.updated_at@ == rfc3339_at_millis(updated_at),
{
    FileResponse {
        id: uuid_to_string(id),
        bucket_id: uuid_to_string(bucket_id),
        folder_id: uuid_to_string(folder_id),
        name,
        size: match size {
            Some(s) => s,
            None => 0,
        },
        content_type: match content_type {
            Some(c) => c,
            None => String::new(),
        },
        storage_path: match storage_path {
            Some(p) => p,
            None => String::new(),
        },
        created_at: ts_to_iso(created_at),
        updated_at: ts_to_iso(updated_at),
    }
}

/// A bucket about to be written.
pub struct NewBucket {
    pub id: u128,
    pub name: String,
    pub public: bool,
    pub now: i64,
}

/// `POST /storage/buckets`: the checked name and a fresh id and time.
pub fn prepare_bucket(body: &CreateBucketBody) -> (r: Result<NewBucket, ApiError>)
    ensures
        match r {
            Ok(b) => bucket_name_result(body.name@) == Ok::<Seq<char>, ApiErrorView>(b.name@)
                && b.public == body.public && is_v4(b.id),
            Err(e) => bucket_name_result(body.name@) == Err::<Seq<char>, ApiErrorView>(e@),
        },
{
    let name = match check_bucket_name(body.name.as_str()) {
        Ok(n) => n,
        Err(e) => return Err(e),
    };
    let id = new_uuid_v4();
    let now = now_ts();
    Ok(NewBucket { id, name, public: body.public, now })
}

/// A folder about to be written.
pub struct NewFolder {
    pub bucket_id: u128,
    pub id: u128,
    pub parent_id: u128,
    pub name: String,
    pub now: i64,
}

/// `POST /storage/buckets/{bucket_id}/folders`: the bucket, then the name, then the parent
/// (the root where none is given) are checked, in that order.
pub open spec fn folder_check(path: BucketPath, body: CreateFolderBody) -> Result<
    (u128, Seq<char>, u128),
    ApiErrorView,
> {
    match uuid_result(path.bucket_id@, "bucket_id"@) {
        Err(e) => Err(e),
        Ok(b) => match entry_name_result(body.name@) {
            Err(e) => Err(e),
            Ok(n) => match optional_uuid_result(
                match body.parent_id {
                    Some(p) => Some(p@),
                    None => None,
                },
                "parent_id"@,
            ) {
                Err(e) => Err(e),
                Ok(p) => Ok((b, n, p)),
            },
        },
    }
}

pub fn prepare_folder(path: &BucketPath, body: &CreateFolderBody) -> (r: Result<NewFolder, ApiError>)
    ensures
        match r {
            Ok(f) => folder_check(*path, *body) == Ok::<(u128, Seq<char>, u128), ApiErrorView>(
                (f.bucket_id, f.name@, f.parent_id),
            ) && is_v4(f.id),
            Err(e) => folder_check(*path, *body) == Err::<(u128, Seq<char>, u128), ApiErrorView>(
                e@,
            ),
        },
{
    let bucket_id = match parse_uuid(path.bucket_id.as_str(), "bucket_id") {
        Ok(b) => b,
        Err(e) => return Err(e),
    };
    let name = match check_entry_name(body.name.as_str()) {
        Ok(n) => n,
        Err(e) => return Err(e),
    };
    let parent_id = match parse_optional_uuid(
        match &body.parent_id {
            Some(p) => Some(p.as_str()),
            None => None,
        },
        "parent_id",
    ) {
        Ok(p) => p,
        Err(e) => return Err(e),
    };
    let id = new_uuid_v4();
    let now = now_ts();
    Ok(NewFolder { bucket_id, id, parent_id, name, now })
}

/// A file about to be written.
pub struct NewFile {
    pub bucket_id: u128,
    pub id: u128,
    pub folder_id: u128,
    pub name: String,
    pub size: i64,
    pub content_type: String,
    pub storage_path: String,
    pub now: i64,
}

/// Where a file's bytes go: the path the body asks for, else `{bucket_id}/{id}`.
pub open spec fn storage_path_for(bucket_id: u128, id: u128, requested: Seq<char>) -> Seq<char> {
    if requested.len() == 0 {
        uuid_text(bucket_id) + seq!['/'] + uuid_text(id)
    } else {
        requested
    }
}

pub fn file_storage_path(bucket_id: u128, id: u128, requested: &str) -> (r: String)
    ensures
        r@ == storage_path_for(bucket_id, id, requested@),
{
    if requested.is_empty() {
        let mut p = uuid_to_string(bucket_id);
        p.append("/");
        p.append(uuid_to_string(id).as_str());
        proof {
            reveal_strlit("/");
        }
        p
    } else {
        owned_str(requested)
    }
}

/// `POST /storage/buckets/{bucket_id}/files`: the bucket, then the name, then the folder (the
/// root where none is given) are checked, in that order.
pub open spec fn file_check(path: BucketPath, body: CreateFileBody) -> Result<
    (u128, Seq<char>, u128),
    ApiErrorView,
> {
    match uuid_result(path.bucket_id@, "bucket_id"@) {
        Err(e) => Err(e),
        Ok(b) => match entry_name_result(body.name@) {
            Err(e) => Err(e),
            Ok(n) => match optional_uuid_result(
                match body.folder_id {
                    Some(p) => Some(p@),
                    None => None,
                },
                "folder_id"@,
            ) {
                Err(e) => Err(e),
                Ok(f) => Ok((b, n, f)),
            },
        },
    }
}

pub fn prepare_file(path: &BucketPath, body: &CreateFileBody) -> (r: Result<NewFile, ApiError>)
    ensures
        match r {
            Ok(f) => file_check(*path, *body) == Ok::<(u128, Seq<char>, u128), ApiErrorView>(
                (f.bucket_id, f.name@, f.folder_id),
            ) && f.size == body.size && f.content_type@ == body.content_type@ && f.storage_path@
                == storage_path_for(f.bucket_id, f.id, body.storage_path@) && is_v4(f.id),
            Err(e) => file_check(*path, *body) == Err::<(u128, Seq<char>, u128), ApiErrorView>(
                e@,
            ),
        },
{
    let bucket_id = match parse_uuid(path.bucket_id.as_str(), "bucket_id") {
        Ok(b) => b,
        Err(e) => return Err(e),
    };
    let name = match check_entry_name(body.name.as_str()) {
        Ok(n) => n,
        Err(e) => return Err(e),
    };
    let folder_id = match parse_optional_uuid(
        match &body.folder_id {
            Some(p) => Some(p.as_str()),
            None => None,
        },
        "folder_id",
    ) {
        Ok(f) => f,
        Err(e) => return Err(e),
    };
    let id = new_uuid_v4();
    let now = now_ts();
    let storage_path = file_storage_path(bucket_id, id, body.storage_path.as_str());
    Ok(
        NewFile {
            bucket_id,
            id,
            folder_id,
            name,
            size: body.size,
            content_type: body.content_type.clone(),
            storage_path,
            now,
        },
    )
}

/// The error for a bucket, folder or file that the database does not hold.
pub open spec fn not_found(what: Seq<char>, id: u128) -> ApiErrorView {
    ApiErrorView::NotFound(what + seq![' '] + uuid_text(id) + " not found"@)
}

/// The row a lookup found, or `NotFound` for the thing it looked for.
pub fn require_found<T>(row: Option<T>, what: &str, id: u128) -> (r: Result<T, ApiError>)
    ensures
        match row {
            Some(x) => r == Ok::<T, ApiError>(x),
            None => r matches Err(e) && e@ == not_found(what@, id),
        },
{
    match row {
        Some(x) => Ok(x),
        None => {
            let mut m = owned_str(what);
            m.append(" ");
            m.append(uuid_to_string(id).as_str());
            m.append(" not found");
            proof {
                reveal_strlit(" ");
                assert(" "@ =~= seq![' ']);
            }
            let e = ApiError::NotFound(m);
            assert(e@ == not_found(what@, id));
            Err(e)
        },
    }
}

/// The message after a deletion: `{What} {id} deleted`.
pub open spec fn deleted_text(what: Seq<char>, id: u128) -> Seq<char> {
    what + seq![' '] + uuid_text(id) + " deleted"@
}

pub fn deleted_message(what: &str, id: u128) -> (r: MessageResponse)
    ensures
        r.message@ == deleted_text(what@, id),
{
    let mut m = owned_str(what);
    m.append(" ");
    m.append(uuid_to_string(id).as_str());
    m.append(" deleted");
    proof {
        reveal_strlit(" ");
    }
    MessageResponse { message: m }
}

/// The content type of an upload: the request's header where it has one, else the stored one.
pub fn upload_content_type(header: Option<String>, stored: String) -> (r: String)
    ensures
        r == match header {
            Some(h) => h,
            None => stored,
        },
{
    match header {
        Some(h) => h,
        None => stored,
    }
}

/// Whether a deleted file's object is removed from the object store: only where it has a
/// storage path (an object that was never uploaded needs nothing).
pub fn should_delete_object(storage_path: &str) -> (b: bool)
    ensures
        b == (storage_path@.len() > 0),
{
    !storage_path.is_empty()
}

/// The message after an upload: `File {id} uploaded ({size} bytes)`.
pub open spec fn uploaded_text(id: u128, size: i64) -> Seq<char> {
    "File "@ + uuid_text(id) + " uploaded ("@ + decimal(size as int) + " bytes)"@
}

pub fn uploaded_message(id: u128, size: i64) -> (r: MessageResponse)
    ensures
        r.message@ == uploaded_text(id, size),
{
    let mut m = owned_str("File ");
    m.append(uuid_to_string(id).as_str());
    m.append(" uploaded (");
    push_decimal(&mut m, size);
    m.append(" bytes)");
    MessageResponse { message: m }
}

/// The size of an upload of `n` bytes, as the database stores it.
pub fn upload_size(n: usize) -> (r: i64)
    requires
        n <= i64::MAX,
    ensures
        r == n,
{
    n as i64
}

/// The ids of a bucket path.
pub fn parse_bucket_path(path: &BucketPath) -> (r: Result<u128, ApiError>)
    ensures
        uuid_result_view(r) == uuid_result(path.bucket_id@, "bucket_id"@),
{
    parse_uuid(path.bucket_id.as_str(), "bucket_id")
}

/// The ids of a folder path: the bucket's first.
pub fn parse_folder_path(path: &BucketFolderPath) -> (r: Result<(u128, u128), ApiError>)
    ensures
        match r {
            Ok((b, f)) => uuid_result(path.bucket_id@, "bucket_id"@) == Ok::<u128, ApiErrorView>(b)
                && uuid_result(path.folder_id@, "folder_id"@) == Ok::<u128, ApiErrorView>(f),
            Err(e) => match uuid_result(path.bucket_id@, "bucket_id"@) {
                Err(be) => e@ == be,
                Ok(_) => uuid_result(path.folder_id@, "folder_id"@) == Err::<u128, ApiErrorView>(
                    e@,
                ),
            },
        },
{
    let b = match parse_uuid(path.bucket_id.as_str(), "bucket_id") {
        Ok(b) => b,
        Err(e) => return Err(e),
    };
    let f = match parse_uuid(path.folder_id.as_str(), "folder_id") {
        Ok(f) => f,
        Err(e) => return Err(e),
    };
    Ok((b, f))
}

/// The ids of a file path: the bucket's first.
pub fn parse_file_path(path: &BucketFilePath) -> (r: Result<(u128, u128), ApiError>)
    ensures
        match r {
            Ok((b, f)) => uuid_result(path.bucket_id@, "bucket_id"@) == Ok::<u128, ApiErrorView>(b)
                && uuid_result(path.file_id@, "file_id"@) == Ok::<u128, ApiErrorView>(f),
            Err(e) => match uuid_result(path.bucket_id@, "bucket_id"@) {
                Err(be) => e@ == be,
                Ok(_) => uuid_result(path.file_id@, "file_id"@) == Err::<u128, ApiErrorView>(e@),
            },
        },
{
    let b = match parse_uuid(path.bucket_id.as_str(), "bucket_id") {
        Ok(b) => b,
        Err(e) => return Err(e),
    };
    let f = match parse_uuid(path.file_id.as_str(), "file_id") {
        Ok(f) => f,
        Err(e) => return Err(e),
    };
    Ok((b, f))
}

/// Every file that is created gets a storage path (the one asked for, else
/// `{bucket_id}/{id}`), so deleting a created file also deletes its object.
pub proof fn law_created_files_have_a_storage_path(bucket_id: u128, id: u128, requested: Seq<char>)
    ensures
        storage_path_for(bucket_id, id, requested).len() > 0,
{
    assert(uuid_text(bucket_id).len() == 36);
}

} // verus!
