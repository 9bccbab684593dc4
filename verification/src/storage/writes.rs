//! The statements the storage service's endpoints write, in order, and what they do to the
//! tables they write: buckets, folders (by id and by parent) and files (by id and by folder).
use vstd::prelude::*;
use crate::storage::handlers::{NewBucket, NewFile, NewFolder};
use crate::text::join;

verus! {

/// One write to the storage keyspace, with the values it binds.
pub enum StorageWrite {
    /// `INSERT INTO storage.buckets`.
    InsertBucket { id: u128, name: String, public: bool, now: i64 },
    /// `DELETE FROM storage.files WHERE bucket_id = ?`: every file row of a bucket.
    DeleteBucketFiles { bucket_id: u128 },
    /// `DELETE FROM storage.folders WHERE bucket_id = ?`: every folder row of a bucket.
    DeleteBucketFolders { bucket_id: u128 },
    /// `DELETE FROM storage.buckets WHERE id = ?`.
    DeleteBucket { id: u128 },
    /// `INSERT INTO storage.folders`.
    InsertFolder { bucket_id: u128, id: u128, parent_id: u128, name: String, now: i64 },
    /// `INSERT INTO storage.folders_by_parent`.
    InsertFolderByParent { bucket_id: u128, parent_id: u128, id: u128, name: String, now: i64 },
    /// `DELETE FROM storage.folders WHERE bucket_id = ? AND id = ?`.
    DeleteFolder { bucket_id: u128, id: u128 },
    /// `DELETE FROM storage.folders_by_parent WHERE bucket_id = ? AND parent_id = ? AND id = ?`.
    DeleteFolderByParent { bucket_id: u128, parent_id: u128, id: u128 },
    /// `INSERT INTO storage.files`.
    InsertFile {
        bucket_id: u128,
        id: u128,
        folder_id: u128,
        name: String,
        size: i64,
        content_type: String,
        storage_path: String,
        now: i64,
    },
    /// `INSERT INTO storage.files_by_folder`.
    InsertFileByFolder {
        bucket_id: u128,
        folder_id: u128,
        id: u128,
        name: String,
        size: i64,
        content_type: String,
        storage_path: String,
        now: i64,
    },
    /// `UPDATE storage.files SET size = ?, content_type = ?, updated_at = ? WHERE bucket_id = ?
    /// AND id = ?`.
    UpdateFileUpload { size: i64, content_type: String, now: i64, bucket_id: u128, id: u128 },
    /// `DELETE FROM storage.files WHERE bucket_id = ? AND id = ?`.
    DeleteFile { bucket_id: u128, id: u128 },
    /// `DELETE FROM storage.files_by_folder WHERE bucket_id = ? AND folder_id = ? AND id = ?`.
    DeleteFileByFolder { bucket_id: u128, folder_id: u128, id: u128 },
}

/// The CQL text of a write; its `?` markers take the write's values in the order the variant
/// lists them.
pub open spec fn write_cql(w: StorageWrite) -> Seq<char> {
    match w {
        StorageWrite::InsertBucket { .. } =>
            "INSERT INTO storage.buckets (id, name, public, created_at, updated_at) VALUES (?, ?, ?, ?, ?)"@,
        StorageWrite::DeleteBucketFiles { .. } => "DELETE FROM storage.files WHERE bucket_id = ?"@,
        StorageWrite::DeleteBucketFolders { .. } => "DELETE FROM storage.folders WHERE bucket_id = ?"@,
        StorageWrite::DeleteBucket { .. } => "DELETE FROM storage.buckets WHERE id = ?"@,
        StorageWrite::InsertFolder { .. } =>
            "INSERT INTO storage.folders (bucket_id, id, parent_id, name, created_at, updated_at) VALUES (?, ?, ?, ?, ?, ?)"@,
        StorageWrite::InsertFolderByParent { .. } =>
            "INSERT INTO storage.folders_by_parent (bucket_id, parent_id, id, name, created_at, updated_at) VALUES (?, ?, ?, ?, ?, ?)"@,
        StorageWrite::DeleteFolder { .. } =>
            "DELETE FROM storage.folders WHERE bucket_id = ? AND id = ?"@,
        StorageWrite::DeleteFolderByParent { .. } =>
            "DELETE FROM storage.folders_by_parent WHERE bucket_id = ? AND parent_id = ? AND id = ?"@,
        StorageWrite::InsertFile { .. } =>
            "INSERT INTO storage.files (bucket_id, id, folder_id, name, size, content_type, storage_path, created_at, updated_at) VALUES (?, ?, ?, ?, ?, ?, ?, ?, ?)"@,
        StorageWrite::InsertFileByFolder { .. } =>
            "INSERT INTO storage.files_by_folder (bucket_id, folder_id, id, name, size, content_type, storage_path, created_at, updated_at) VALUES (?, ?, ?, ?, ?, ?, ?, ?, ?)"@,
        StorageWrite::UpdateFileUpload { .. } =>
            "UPDATE storage.files SET size = ?, content_type = ?, updated_at = ? WHERE bucket_id = ? AND id = ?"@,
        StorageWrite::DeleteFile { .. } => "DELETE FROM storage.files WHERE bucket_id = ? AND id = ?"@,
        StorageWrite::DeleteFileByFolder { .. } =>
            "DELETE FROM storage.files_by_folder WHERE bucket_id = ? AND folder_id = ? AND id = ?"@,
    }
}

/// The table a write goes to.
pub open spec fn write_table(w: StorageWrite) -> Seq<char> {
    match w {
        StorageWrite::InsertBucket { .. } | StorageWrite::DeleteBucket { .. } => "storage.buckets"@,
        StorageWrite::DeleteBucketFolders { .. } | StorageWrite::InsertFolder { .. }
        | StorageWrite::DeleteFolder { .. } => "storage.folders"@,
        StorageWrite::InsertFolderByParent { .. } | StorageWrite::DeleteFolderByParent { .. } =>
            "storage.folders_by_parent"@,
        StorageWrite::DeleteBucketFiles { .. } | StorageWrite::InsertFile { .. }
        | StorageWrite::UpdateFileUpload { .. } | StorageWrite::DeleteFile { .. } => "storage.files"@,
        StorageWrite::InsertFileByFolder { .. } | StorageWrite::DeleteFileByFolder { .. } =>
            "storage.files_by_folder"@,
    }
}

/// The columns of the values a write binds, in the order it binds them: its fields, in the
/// order the variant declares them, each naming its column; `now` stands for `created_at` and
/// `updated_at` in an insert and for `updated_at` in the update.
pub open spec fn bound_columns(w: StorageWrite) -> Seq<Seq<char>> {
    match w {
        StorageWrite::InsertBucket { .. } => seq![
            "id"@,
            "name"@,
            "public"@,
            "created_at"@,
            "updated_at"@,
        ],
        StorageWrite::DeleteBucketFiles { .. } => seq!["bucket_id"@],
        StorageWrite::DeleteBucketFolders { .. } => seq!["bucket_id"@],
        StorageWrite::DeleteBucket { .. } => seq!["id"@],
        StorageWrite::InsertFolder { .. } => seq![
            "bucket_id"@,
            "id"@,
            "parent_id"@,
            "name"@,
            "created_at"@,
            "updated_at"@,
        ],
        StorageWrite::InsertFolderByParent { .. } => seq![
            "bucket_id"@,
            "parent_id"@,
            "id"@,
            "name"@,
            "created_at"@,
            "updated_at"@,
        ],
        StorageWrite::DeleteFolder { .. } => seq!["bucket_id"@, "id"@],
        StorageWrite::DeleteFolderByParent { .. } => seq!["bucket_id"@, "parent_id"@, "id"@],
        StorageWrite::InsertFile { .. } => seq![
            "bucket_id"@,
            "id"@,
            "folder_id"@,
            "name"@,
            "size"@,
            "content_type"@,
            "storage_path"@,
            "created_at"@,
            "updated_at"@,
        ],
        StorageWrite::InsertFileByFolder { .. } => seq![
            "bucket_id"@,
            "folder_id"@,
            "id"@,
            "name"@,
            "size"@,
            "content_type"@,
            "storage_path"@,
            "created_at"@,
            "updated_at"@,
        ],
        StorageWrite::UpdateFileUpload { .. } => seq![
            "size"@,
            "content_type"@,
            "updated_at"@,
            "bucket_id"@,
            "id"@,
        ],
        StorageWrite::DeleteFile { .. } => seq!["bucket_id"@, "id"@],
        StorageWrite::DeleteFileByFolder { .. } => seq!["bucket_id"@, "folder_id"@, "id"@],
    }
}

/// `col = ?` for each column.
pub open spec fn assigned(cols: Seq<Seq<char>>) -> Seq<Seq<char>> {
    cols.map_values(|c: Seq<char>| c + " = ?"@)
}

/// The shape of a write's statement over its table and bound columns: an insert lists the
/// columns and as many markers; a delete matches each column; the update sets its first three
/// columns and matches the others.
pub open spec fn statement_shape(w: StorageWrite) -> Seq<char> {
    let table = write_table(w);
    let cols = bound_columns(w);
    match w {
        StorageWrite::InsertBucket { .. } | StorageWrite::InsertFolder { .. }
        | StorageWrite::InsertFolderByParent { .. } | StorageWrite::InsertFile { .. }
        | StorageWrite::InsertFileByFolder { .. } => "INSERT INTO "@ + table + " ("@ + join(
            cols,
            ", "@,
        ) + ") VALUES ("@ + join(Seq::new(cols.len(), |i: int| "?"@), ", "@) + ")"@,
        StorageWrite::UpdateFileUpload { .. } => "UPDATE "@ + table + " SET "@ + join(
            assigned(cols.take(3)),
            ", "@,
        ) + " WHERE "@ + join(assigned(cols.skip(3)), " AND "@),
        _ => "DELETE FROM "@ + table + " WHERE "@ + join(assigned(cols), " AND "@),
    }
}

impl StorageWrite {
    /// The CQL text of the write.
    pub fn cql(&self) -> (r: &'static str)
        ensures
            r@ == write_cql(*self),
    {
        match self {
            StorageWrite::InsertBucket { .. } =>
                "INSERT INTO storage.buckets (id, name, public, created_at, updated_at) VALUES (?, ?, ?, ?, ?)",
            StorageWrite::DeleteBucketFiles { .. } => "DELETE FROM storage.files WHERE bucket_id = ?",
            StorageWrite::DeleteBucketFolders { .. } => "DELETE FROM storage.folders WHERE bucket_id = ?",
            StorageWrite::DeleteBucket { .. } => "DELETE FROM storage.buckets WHERE id = ?",
            StorageWrite::InsertFolder { .. } =>
                "INSERT INTO storage.folders (bucket_id, id, parent_id, name, created_at, updated_at) VALUES (?, ?, ?, ?, ?, ?)",
            StorageWrite::InsertFolderByParent { .. } =>
                "INSERT INTO storage.folders_by_parent (bucket_id, parent_id, id, name, created_at, updated_at) VALUES (?, ?, ?, ?, ?, ?)",
            StorageWrite::DeleteFolder { .. } =>
                "DELETE FROM storage.folders WHERE bucket_id = ? AND id = ?",
            StorageWrite::DeleteFolderByParent { .. } =>
                "DELETE FROM storage.folders_by_parent WHERE bucket_id = ? AND parent_id = ? AND id = ?",
            StorageWrite::InsertFile { .. } =>
                "INSERT INTO storage.files (bucket_id, id, folder_id, name, size, content_type, storage_path, created_at, updated_at) VALUES (?, ?, ?, ?, ?, ?, ?, ?, ?)",
            StorageWrite::InsertFileByFolder { .. } =>
                "INSERT INTO storage.files_by_folder (bucket_id, folder_id, id, name, size, content_type, storage_path, created_at, updated_at) VALUES (?, ?, ?, ?, ?, ?, ?, ?, ?)",
            StorageWrite::UpdateFileUpload { .. } =>
                "UPDATE storage.files SET size = ?, content_type = ?, updated_at = ? WHERE bucket_id = ? AND id = ?",
            StorageWrite::DeleteFile { .. } => "DELETE FROM storage.files WHERE bucket_id = ? AND id = ?",
            StorageWrite::DeleteFileByFolder { .. } =>
                "DELETE FROM storage.files_by_folder WHERE bucket_id = ? AND folder_id = ? AND id = ?",
        }
    }
}

/// A row of `storage.buckets`, by id.
pub struct BucketRow {
    pub name: Seq<char>,
    pub public: bool,
    pub created_at: i64,
    pub updated_at: i64,
}

/// A row of `storage.folders` (by bucket and id) or `storage.folders_by_parent` (by bucket,
/// parent and id).
pub struct FolderRow {
    pub parent_id: u128,
    pub name: Seq<char>,
    pub created_at: i64,
    pub updated_at: i64,
}

/// The cells of a row of `storage.files`, by bucket and id; a cell no write has set is `None`.
pub struct FileCells {
    pub folder_id: Option<u128>,
    pub name: Option<Seq<char>>,
    pub size: Option<i64>,
    pub content_type: Option<Seq<char>>,
    pub storage_path: Option<Seq<char>>,
    pub created_at: Option<i64>,
    pub updated_at: Option<i64>,
}

/// A row of `storage.files_by_folder`, by bucket, folder and id.
pub struct FileRow {
    pub name: Seq<char>,
    pub size: i64,
    pub content_type: Seq<char>,
    pub storage_path: Seq<char>,
    pub created_at: i64,
    pub updated_at: i64,
}

/// The tables of the storage keyspace.
pub struct StorageDb {
    pub buckets: Map<u128, BucketRow>,
    pub folders: Map<(u128, u128), FolderRow>,
    pub folders_by_parent: Map<(u128, u128, u128), FolderRow>,
    pub files: Map<(u128, u128), FileCells>,
    pub files_by_folder: Map<(u128, u128, u128), FileRow>,
}

/// What one write does to the tables: an INSERT sets every cell of its row, an UPDATE the
/// cells it names (making the row where there was none), a DELETE removes the rows its key
/// selects.
pub open spec fn apply(db: StorageDb, w: StorageWrite) -> StorageDb {
    match w {
        StorageWrite::InsertBucket { id, name, public, now } => StorageDb {
            buckets: db.buckets.insert(
                id,
                BucketRow { name: name@, public, created_at: now, updated_at: now },
            ),
            ..db
        },
        StorageWrite::DeleteBucketFiles { bucket_id } => StorageDb {
            files: Map::new(
                |k: (u128, u128)| db.files.contains_key(k) && k.0 != bucket_id,
                |k: (u128, u128)| db.files[k],
            ),
            ..db
        },
        StorageWrite::DeleteBucketFolders { bucket_id } => StorageDb {
            folders: Map::new(
                |k: (u128, u128)| db.folders.contains_key(k) && k.0 != bucket_id,
                |k: (u128, u128)| db.folders[k],
            ),
            ..db
        },
        StorageWrite::DeleteBucket { id } => StorageDb { buckets: db.buckets.remove(id), ..db },
        StorageWrite::InsertFolder { bucket_id, id, parent_id, name, now } => StorageDb {
            folders: db.folders.insert(
                (bucket_id, id),
                FolderRow { parent_id, name: name@, created_at: now, updated_at: now },
            ),
            ..db
        },
        StorageWrite::InsertFolderByParent { bucket_id, parent_id, id, name, now } => StorageDb {
            folders_by_parent: db.folders_by_parent.insert(
                (bucket_id, parent_id, id),
                FolderRow { parent_id, name: name@, created_at: now, updated_at: now },
            ),
            ..db
        },
        StorageWrite::DeleteFolder { bucket_id, id } => StorageDb {
            folders: db.folders.remove((bucket_id, id)),
            ..db
        },
        StorageWrite::DeleteFolderByParent { bucket_id, parent_id, id } => StorageDb {
            folders_by_parent: db.folders_by_parent.remove((bucket_id, parent_id, id)),
            ..db
        },
        StorageWrite::InsertFile {
            bucket_id,
            id,
            folder_id,
            name,
            size,
            content_type,
            storage_path,
            now,
        } => StorageDb {
            files: db.files.insert(
                (bucket_id, id),
                FileCells {
                    folder_id: Some(folder_id),
                    name: Some(name@),
                    size: Some(size),
                    content_type: Some(content_type@),
                    storage_path: Some(storage_path@),
                    created_at: Some(now),
                    updated_at: Some(now),
                },
            ),
            ..db
        },
        StorageWrite::InsertFileByFolder {
            bucket_id,
            folder_id,
            id,
            name,
            size,
            content_type,
            storage_path,
            now,
        } => StorageDb {
            files_by_folder: db.files_by_folder.insert(
                (bucket_id, folder_id, id),
                FileRow {
                    name: name@,
                    size,
                    content_type: content_type@,
                    storage_path: storage_path@,
                    created_at: now,
                    updated_at: now,
                },
            ),
            ..db
        },
        StorageWrite::UpdateFileUpload { size, content_type, now, bucket_id, id } => {
            let old = if db.files.contains_key((bucket_id, id)) {
                db.files[(bucket_id, id)]
            } else {
                FileCells {
                    folder_id: None,
                    name: None,
                    size: None,
                    content_type: None,
                    storage_path: None,
                    created_at: None,
                    updated_at: None,
                }
            };
            StorageDb {
                files: db.files.insert(
                    (bucket_id, id),
                    FileCells {
                        size: Some(size),
                        content_type: Some(content_type@),
                        updated_at: Some(now),
                        ..old
                    },
                ),
                ..db
            }
        },
        StorageWrite::DeleteFile { bucket_id, id } => StorageDb {
            files: db.files.remove((bucket_id, id)),
            ..db
        },
        StorageWrite::DeleteFileByFolder { bucket_id, folder_id, id } => StorageDb {
            files_by_folder: db.files_by_folder.remove((bucket_id, folder_id, id)),
            ..db
        },
    }
}

/// The tables after the writes, in order.
pub open spec fn apply_all(db: StorageDb, ws: Seq<StorageWrite>) -> StorageDb
    decreases ws.len(),
{
    if ws.len() == 0 {
        db
    } else {
        apply(apply_all(db, ws.drop_last()), ws.last())
    }
}

/// What `GET .../folders?parent_id=p` reads: the rows of `folders_by_parent` under the bucket
/// and the parent, by folder id.
pub open spec fn folder_listing(db: StorageDb, bucket_id: u128, parent_id: u128) -> Map<
    u128,
    FolderRow,
> {
    Map::new(
        |id: u128| db.folders_by_parent.contains_key((bucket_id, parent_id, id)),
        |id: u128| db.folders_by_parent[(bucket_id, parent_id, id)],
    )
}

/// What `GET .../files?folder_id=f` reads: the rows of `files_by_folder` under the bucket and
/// the folder, by file id.
pub open spec fn file_listing(db: StorageDb, bucket_id: u128, folder_id: u128) -> Map<
    u128,
    FileRow,
> {
    Map::new(
        |id: u128| db.files_by_folder.contains_key((bucket_id, folder_id, id)),
        |id: u128| db.files_by_folder[(bucket_id, folder_id, id)],
    )
}

/// `POST /storage/buckets`: the bucket's row.
pub open spec fn create_bucket_plan(b: NewBucket) -> Seq<StorageWrite> {
    seq![StorageWrite::InsertBucket { id: b.id, name: b.name, public: b.public, now: b.now }]
}

pub fn create_bucket_writes(b: &NewBucket) -> (r: Vec<StorageWrite>)
    ensures
        r@ == create_bucket_plan(*b),
{
    vec![StorageWrite::InsertBucket { id: b.id, name: b.name.clone(), public: b.public, now: b.now }]
}

/// `DELETE /storage/buckets/{bucket_id}`: its files, then its folders, then the bucket.
pub open spec fn delete_bucket_plan(bucket_id: u128) -> Seq<StorageWrite> {
    seq![
        StorageWrite::DeleteBucketFiles { bucket_id },
        StorageWrite::DeleteBucketFolders { bucket_id },
        StorageWrite::DeleteBucket { id: bucket_id },
    ]
}

pub fn delete_bucket_writes(bucket_id: u128) -> (r: Vec<StorageWrite>)
    ensures
        r@ == delete_bucket_plan(bucket_id),
{
    vec![
        StorageWrite::DeleteBucketFiles { bucket_id },
        StorageWrite::DeleteBucketFolders { bucket_id },
        StorageWrite::DeleteBucket { id: bucket_id },
    ]
}

/// `POST .../folders`: the folder's row by id, then by parent.
pub open spec fn create_folder_plan(f: NewFolder) -> Seq<StorageWrite> {
    seq![
        StorageWrite::InsertFolder {
            bucket_id: f.bucket_id,
            id: f.id,
            parent_id: f.parent_id,
            name: f.name,
            now: f.now,
        },
        StorageWrite::InsertFolderByParent {
            bucket_id: f.bucket_id,
            parent_id: f.parent_id,
            id: f.id,
            name: f.name,
            now: f.now,
        },
    ]
}

pub fn create_folder_writes(f: &NewFolder) -> (r: Vec<StorageWrite>)
    ensures
        r@ == create_folder_plan(*f),
{
    vec![
        StorageWrite::InsertFolder {
            bucket_id: f.bucket_id,
            id: f.id,
            parent_id: f.parent_id,
            name: f.name.clone(),
            now: f.now,
        },
        StorageWrite::InsertFolderByParent {
            bucket_id: f.bucket_id,
            parent_id: f.parent_id,
            id: f.id,
            name: f.name.clone(),
            now: f.now,
        },
    ]
}

/// `DELETE .../folders/{folder_id}`, with the parent its row gave: the row by id, then by
/// parent.
pub open spec fn delete_folder_plan(bucket_id: u128, folder_id: u128, parent_id: u128) -> Seq<
    StorageWrite,
> {
    seq![
        StorageWrite::DeleteFolder { bucket_id, id: folder_id },
        StorageWrite::DeleteFolderByParent { bucket_id, parent_id, id: folder_id },
    ]
}

pub fn delete_folder_writes(bucket_id: u128, folder_id: u128, parent_id: u128) -> (r: Vec<
    StorageWrite,
>)
    ensures
        r@ == delete_folder_plan(bucket_id, folder_id, parent_id),
{
    vec![
        StorageWrite::DeleteFolder { bucket_id, id: folder_id },
        StorageWrite::DeleteFolderByParent { bucket_id, parent_id, id: folder_id },
    ]
}

/// `POST .../files`: the file's row by id, then by folder.
pub open spec fn create_file_plan(f: NewFile) -> Seq<StorageWrite> {
    seq![
        StorageWrite::InsertFile {
            bucket_id: f.bucket_id,
            id: f.id,
            folder_id: f.folder_id,
            name: f.name,
            size: f.size,
            content_type: f.content_type,
            storage_path: f.storage_path,
            now: f.now,
        },
        StorageWrite::InsertFileByFolder {
            bucket_id: f.bucket_id,
            folder_id: f.folder_id,
            id: f.id,
            name: f.name,
            size: f.size,
            content_type: f.content_type,
            storage_path: f.storage_path,
            now: f.now,
        },
    ]
}

pub fn create_file_writes(f: &NewFile) -> (r: Vec<StorageWrite>)
    ensures
        r@ == create_file_plan(*f),
{
    vec![
        StorageWrite::InsertFile {
            bucket_id: f.bucket_id,
            id: f.id,
            folder_id: f.folder_id,
            name: f.name.clone(),
            size: f.size,
            content_type: f.content_type.clone(),
            storage_path: f.storage_path.clone(),
            now: f.now,
        },
        StorageWrite::InsertFileByFolder {
            bucket_id: f.bucket_id,
            folder_id: f.folder_id,
            id: f.id,
            name: f.name.clone(),
            size: f.size,
            content_type: f.content_type.clone(),
            storage_path: f.storage_path.clone(),
            now: f.now,
        },
    ]
}

/// `PUT .../files/{file_id}/upload`, once the object is stored: the file's size, content type
/// and update time in `storage.files`.
pub open spec fn upload_plan(
    bucket_id: u128,
    file_id: u128,
    size: i64,
    content_type: String,
    now: i64,
) -> Seq<StorageWrite> {
    seq![StorageWrite::UpdateFileUpload { bucket_id, id: file_id, size, content_type, now }]
}

pub fn upload_writes(bucket_id: u128, file_id: u128, size: i64, content_type: String, now: i64) -> (r:
    Vec<StorageWrite>)
    ensures
        r@ == upload_plan(bucket_id, file_id, size, content_type, now),
{
    vec![StorageWrite::UpdateFileUpload { bucket_id, id: file_id, size, content_type, now }]
}

/// `DELETE .../files/{file_id}`, with the folder its row gave: the row by id, then by folder.
pub open spec fn delete_file_plan(bucket_id: u128, file_id: u128, folder_id: u128) -> Seq<
    StorageWrite,
> {
    seq![
        StorageWrite::DeleteFile { bucket_id, id: file_id },
        StorageWrite::DeleteFileByFolder { bucket_id, folder_id, id: file_id },
    ]
}

pub fn delete_file_writes(bucket_id: u128, file_id: u128, folder_id: u128) -> (r: Vec<
    StorageWrite,
>)
    ensures
        r@ == delete_file_plan(bucket_id, file_id, folder_id),
{
    vec![
        StorageWrite::DeleteFile { bucket_id, id: file_id },
        StorageWrite::DeleteFileByFolder { bucket_id, folder_id, id: file_id },
    ]
}

/// A created bucket is read back: its row holds the name, visibility and creation time it was
/// created with.
pub proof fn law_create_bucket_then_list(db: StorageDb, b: NewBucket)
    ensures
        apply_all(db, create_bucket_plan(b)).buckets.contains_key(b.id),
        apply_all(db, create_bucket_plan(b)).buckets[b.id] == (BucketRow {
            name: b.name@,
            public: b.public,
            created_at: b.now,
            updated_at: b.now,
        }),
{
    reveal_with_fuel(apply_all, 2);
}

/// A created folder is listed under its bucket and parent, and found by its id, with the name
/// and time it was created with.
pub proof fn law_create_folder_then_list(db: StorageDb, f: NewFolder)
    ensures
        ({
            let after = apply_all(db, create_folder_plan(f));
            let row = FolderRow {
                parent_id: f.parent_id,
                name: f.name@,
                created_at: f.now,
                updated_at: f.now,
            };
            &&& folder_listing(after, f.bucket_id, f.parent_id).contains_key(f.id)
            &&& folder_listing(after, f.bucket_id, f.parent_id)[f.id] == row
            &&& after.folders.contains_key((f.bucket_id, f.id))
            &&& after.folders[(f.bucket_id, f.id)] == row
        }),
{
    reveal_with_fuel(apply_all, 3);
}

/// A created file is listed under its bucket and folder, and found by its id, with every
/// value it was created with.
pub proof fn law_create_file_then_list(db: StorageDb, f: NewFile)
    ensures
        ({
            let after = apply_all(db, create_file_plan(f));
            &&& file_listing(after, f.bucket_id, f.folder_id).contains_key(f.id)
            &&& file_listing(after, f.bucket_id, f.folder_id)[f.id] == (FileRow {
                name: f.name@,
                size: f.size,
                content_type: f.content_type@,
                storage_path: f.storage_path@,
                created_at: f.now,
                updated_at: f.now,
            })
            &&& after.files.contains_key((f.bucket_id, f.id))
            &&& after.files[(f.bucket_id, f.id)] == (FileCells {
                folder_id: Some(f.folder_id),
                name: Some(f.name@),
                size: Some(f.size),
                content_type: Some(f.content_type@),
                storage_path: Some(f.storage_path@),
                created_at: Some(f.now),
                updated_at: Some(f.now),
            })
        }),
{
    reveal_with_fuel(apply_all, 3);
}

/// Deleting a folder, with the parent its row names, removes it from both folder tables and
/// from its parent's listing; nothing else changes.
pub proof fn law_delete_folder_removes(
    db: StorageDb,
    bucket_id: u128,
    folder_id: u128,
    parent_id: u128,
)
    ensures
        ({
            let after = apply_all(db, delete_folder_plan(bucket_id, folder_id, parent_id));
            &&& !after.folders.contains_key((bucket_id, folder_id))
            &&& !folder_listing(after, bucket_id, parent_id).contains_key(folder_id)
            &&& after.folders == db.folders.remove((bucket_id, folder_id))
            &&& after.folders_by_parent == db.folders_by_parent.remove(
                (bucket_id, parent_id, folder_id),
            )
            &&& after.buckets == db.buckets
            &&& after.files == db.files
            &&& after.files_by_folder == db.files_by_folder
        }),
{
    reveal_with_fuel(apply_all, 3);
}

/// Deleting a file, with the folder its row names, removes it from both file tables and from
/// its folder's listing; nothing else changes.
pub proof fn law_delete_file_removes(db: StorageDb, bucket_id: u128, file_id: u128, folder_id: u128)
    ensures
        ({
            let after = apply_all(db, delete_file_plan(bucket_id, file_id, folder_id));
            &&& !after.files.contains_key((bucket_id, file_id))
            &&& !file_listing(after, bucket_id, folder_id).contains_key(file_id)
            &&& after.files == db.files.remove((bucket_id, file_id))
            &&& after.files_by_folder == db.files_by_folder.remove((bucket_id, folder_id, file_id))
            &&& after.buckets == db.buckets
            &&& after.folders == db.folders
            &&& after.folders_by_parent == db.folders_by_parent
        }),
{
    reveal_with_fuel(apply_all, 3);
}

/// Deleting a bucket removes the bucket and every row of `storage.files` and `storage.folders`
/// under it, and no other row; the two listing tables are left as they are.
pub proof fn law_delete_bucket_cascade(db: StorageDb, bucket_id: u128)
    ensures
        ({
            let after = apply_all(db, delete_bucket_plan(bucket_id));
            &&& after.buckets == db.buckets.remove(bucket_id)
            &&& forall|k: (u128, u128)| #[trigger]
                after.files.contains_key(k) <==> db.files.contains_key(k) && k.0 != bucket_id
            &&& forall|k: (u128, u128)| #[trigger] after.files.contains_key(k) ==> after.files[k]
                == db.files[k]
            &&& forall|k: (u128, u128)| #[trigger]
                after.folders.contains_key(k) <==> db.folders.contains_key(k) && k.0 != bucket_id
            &&& forall|k: (u128, u128)| #[trigger] after.folders.contains_key(k)
                ==> after.folders[k] == db.folders[k]
            &&& after.folders_by_parent == db.folders_by_parent
            &&& after.files_by_folder == db.files_by_folder
        }),
{
    reveal_with_fuel(apply_all, 4);
}

/// An upload records the file's size, content type and update time in `storage.files` and
/// keeps its other cells; nothing else changes.
pub proof fn law_upload_records(
    db: StorageDb,
    bucket_id: u128,
    file_id: u128,
    size: i64,
    content_type: String,
    now: i64,
)
    ensures
        ({
            let after = apply_all(db, upload_plan(bucket_id, file_id, size, content_type, now));
            let c = after.files[(bucket_id, file_id)];
            &&& after.files.contains_key((bucket_id, file_id))
            &&& c.size == Some(size)
            &&& c.content_type == Some(content_type@)
            &&& c.updated_at == Some(now)
            &&& db.files.contains_key((bucket_id, file_id)) ==> {
                let old = db.files[(bucket_id, file_id)];
                &&& c.folder_id == old.folder_id
                &&& c.name == old.name
                &&& c.storage_path == old.storage_path
                &&& c.created_at == old.created_at
            }
            &&& after.files.remove((bucket_id, file_id)) == db.files.remove((bucket_id, file_id))
            &&& after.files_by_folder == db.files_by_folder
            &&& after.buckets == db.buckets
            &&& after.folders == db.folders
            &&& after.folders_by_parent == db.folders_by_parent
        }),
{
    reveal_with_fuel(apply_all, 2);
    let after = apply_all(db, upload_plan(bucket_id, file_id, size, content_type, now));
    assert(after.files.remove((bucket_id, file_id)) =~= db.files.remove((bucket_id, file_id)));
}

/// Each write's statement goes to the write's table and names, in order, the columns of the
/// values the write binds, one marker each: so the row an insert writes, and the row a delete
/// or the update selects, is keyed by the values `apply` keys it by.
proof fn lemma_cql_insert_bucket(w: StorageWrite)
    requires
        w is InsertBucket,
    ensures
        write_cql(w) == statement_shape(w),
{
    reveal_with_fuel(join, 10);
    reveal_strlit("INSERT INTO storage.buckets (id, name, public, created_at, updated_at) VALUES (?, ?, ?, ?, ?)");
    reveal_strlit("storage.buckets");
    reveal_strlit("created_at");
    reveal_strlit("id");
    reveal_strlit("name");
    reveal_strlit("public");
    reveal_strlit("updated_at");
    reveal_strlit("INSERT INTO ");
    reveal_strlit(" (");
    reveal_strlit(") VALUES (");
    reveal_strlit("?");
    reveal_strlit(", ");
    reveal_strlit(")");
    assert(write_cql(w) =~= statement_shape(w));
}

proof fn lemma_cql_delete_bucket_files(w: StorageWrite)
    requires
        w is DeleteBucketFiles,
    ensures
        write_cql(w) == statement_shape(w),
{
    reveal_with_fuel(join, 10);
    reveal_strlit("DELETE FROM storage.files WHERE bucket_id = ?");
    reveal_strlit("storage.files");
    reveal_strlit("bucket_id");
    reveal_strlit("DELETE FROM ");
    reveal_strlit(" WHERE ");
    reveal_strlit(" AND ");
    reveal_strlit(" = ?");
    assert(write_cql(w) =~= statement_shape(w));
}

proof fn lemma_cql_delete_bucket_folders(w: StorageWrite)
    requires
        w is DeleteBucketFolders,
    ensures
        write_cql(w) == statement_shape(w),
{
    reveal_with_fuel(join, 10);
    reveal_strlit("DELETE FROM storage.folders WHERE bucket_id = ?");
    reveal_strlit("storage.folders");
    reveal_strlit("bucket_id");
    reveal_strlit("DELETE FROM ");
    reveal_strlit(" WHERE ");
    reveal_strlit(" AND ");
    reveal_strlit(" = ?");
    assert(write_cql(w) =~= statement_shape(w));
}

proof fn lemma_cql_delete_bucket(w: StorageWrite)
    requires
        w is DeleteBucket,
    ensures
        write_cql(w) == statement_shape(w),
{
    reveal_with_fuel(join, 10);
    reveal_strlit("DELETE FROM storage.buckets WHERE id = ?");
    reveal_strlit("storage.buckets");
    reveal_strlit("id");
    reveal_strlit("DELETE FROM ");
    reveal_strlit(" WHERE ");
    reveal_strlit(" AND ");
    reveal_strlit(" = ?");
    assert(write_cql(w) =~= statement_shape(w));
}

proof fn lemma_cql_insert_folder(w: StorageWrite)
    requires
        w is InsertFolder,
    ensures
        write_cql(w) == statement_shape(w),
{
    reveal_with_fuel(join, 10);
    reveal_strlit("INSERT INTO storage.folders (bucket_id, id, parent_id, name, created_at, updated_at) VALUES (?, ?, ?, ?, ?, ?)");
    reveal_strlit("storage.folders");
    reveal_strlit("bucket_id");
    reveal_strlit("created_at");
    reveal_strlit("id");
    reveal_strlit("name");
    reveal_strlit("parent_id");
    reveal_strlit("updated_at");
    reveal_strlit("INSERT INTO ");
    reveal_strlit(" (");
    reveal_strlit(") VALUES (");
    reveal_strlit("?");
    reveal_strlit(", ");
    reveal_strlit(")");
    assert(write_cql(w) =~= statement_shape(w));
}

proof fn lemma_cql_insert_folder_by_parent(w: StorageWrite)
    requires
        w is InsertFolderByParent,
    ensures
        write_cql(w) == statement_shape(w),
{
    reveal_with_fuel(join, 10);
    reveal_strlit("INSERT INTO storage.folders_by_parent (bucket_id, parent_id, id, name, created_at, updated_at) VALUES (?, ?, ?, ?, ?, ?)");
    reveal_strlit("storage.folders_by_parent");
    reveal_strlit("bucket_id");
    reveal_strlit("created_at");
    reveal_strlit("id");
    reveal_strlit("name");
    reveal_strlit("parent_id");
    reveal_strlit("updated_at");
    reveal_strlit("INSERT INTO ");
    reveal_strlit(" (");
    reveal_strlit(") VALUES (");
    reveal_strlit("?");
    reveal_strlit(", ");
    reveal_strlit(")");
    assert(write_cql(w) =~= statement_shape(w));
}

proof fn lemma_cql_delete_folder(w: StorageWrite)
    requires
        w is DeleteFolder,
    ensures
        write_cql(w) == statement_shape(w),
{
    reveal_with_fuel(join, 10);
    reveal_strlit("DELETE FROM storage.folders WHERE bucket_id = ? AND id = ?");
    reveal_strlit("storage.folders");
    reveal_strlit("bucket_id");
    reveal_strlit("id");
    reveal_strlit("DELETE FROM ");
    reveal_strlit(" WHERE ");
    reveal_strlit(" AND ");
    reveal_strlit(" = ?");
    assert(write_cql(w) =~= statement_shape(w));
}

proof fn lemma_cql_delete_folder_by_parent(w: StorageWrite)
    requires
        w is DeleteFolderByParent,
    ensures
        write_cql(w) == statement_shape(w),
{
    reveal_with_fuel(join, 10);
    reveal_strlit("DELETE FROM storage.folders_by_parent WHERE bucket_id = ? AND parent_id = ? AND id = ?");
    reveal_strlit("storage.folders_by_parent");
    reveal_strlit("bucket_id");
    reveal_strlit("id");
    reveal_strlit("parent_id");
    reveal_strlit("DELETE FROM ");
    reveal_strlit(" WHERE ");
    reveal_strlit(" AND ");
    reveal_strlit(" = ?");
    assert(write_cql(w) =~= statement_shape(w));
}

proof fn lemma_cql_insert_file(w: StorageWrite)
    requires
        w is InsertFile,
    ensures
        write_cql(w) == statement_shape(w),
{
    reveal_with_fuel(join, 10);
    reveal_strlit("INSERT INTO storage.files (bucket_id, id, folder_id, name, size, content_type, storage_path, created_at, updated_at) VALUES (?, ?, ?, ?, ?, ?, ?, ?, ?)");
    reveal_strlit("storage.files");
    reveal_strlit("bucket_id");
    reveal_strlit("content_type");
    reveal_strlit("created_at");
    reveal_strlit("folder_id");
    reveal_strlit("id");
    reveal_strlit("name");
    reveal_strlit("size");
    reveal_strlit("storage_path");
    reveal_strlit("updated_at");
    reveal_strlit("INSERT INTO ");
    reveal_strlit(" (");
    reveal_strlit(") VALUES (");
    reveal_strlit("?");
    reveal_strlit(", ");
    reveal_strlit(")");
    assert(write_cql(w) =~= statement_shape(w));
}

proof fn lemma_cql_insert_file_by_folder(w: StorageWrite)
    requires
        w is InsertFileByFolder,
    ensures
        write_cql(w) == statement_shape(w),
{
    reveal_with_fuel(join, 10);
    reveal_strlit("INSERT INTO storage.files_by_folder (bucket_id, folder_id, id, name, size, content_type, storage_path, created_at, updated_at) VALUES (?, ?, ?, ?, ?, ?, ?, ?, ?)");
    reveal_strlit("storage.files_by_folder");
    reveal_strlit("bucket_id");
    reveal_strlit("content_type");
    reveal_strlit("created_at");
    reveal_strlit("folder_id");
    reveal_strlit("id");
    reveal_strlit("name");
    reveal_strlit("size");
    reveal_strlit("storage_path");
    reveal_strlit("updated_at");
    reveal_strlit("INSERT INTO ");
    reveal_strlit(" (");
    reveal_strlit(") VALUES (");
    reveal_strlit("?");
    reveal_strlit(", ");
    reveal_strlit(")");
    assert(write_cql(w) =~= statement_shape(w));
}

proof fn lemma_cql_update_file_upload(w: StorageWrite)
    requires
        w is UpdateFileUpload,
    ensures
        write_cql(w) == statement_shape(w),
{
    reveal_with_fuel(join, 10);
    reveal_strlit("UPDATE storage.files SET size = ?, content_type = ?, updated_at = ? WHERE bucket_id = ? AND id = ?");
    reveal_strlit("storage.files");
    reveal_strlit("bucket_id");
    reveal_strlit("content_type");
    reveal_strlit("id");
    reveal_strlit("size");
    reveal_strlit("updated_at");
    reveal_strlit("UPDATE ");
    reveal_strlit(" SET ");
    reveal_strlit(" WHERE ");
    reveal_strlit(", ");
    reveal_strlit(" AND ");
    reveal_strlit(" = ?");
    assert(write_cql(w) =~= statement_shape(w));
}

proof fn lemma_cql_delete_file(w: StorageWrite)
    requires
        w is DeleteFile,
    ensures
        write_cql(w) == statement_shape(w),
{
    reveal_with_fuel(join, 10);
    reveal_strlit("DELETE FROM storage.files WHERE bucket_id = ? AND id = ?");
    reveal_strlit("storage.files");
    reveal_strlit("bucket_id");
    reveal_strlit("id");
    reveal_strlit("DELETE FROM ");
    reveal_strlit(" WHERE ");
    reveal_strlit(" AND ");
    reveal_strlit(" = ?");
    assert(write_cql(w) =~= statement_shape(w));
}

proof fn lemma_cql_delete_file_by_folder(w: StorageWrite)
    requires
        w is DeleteFileByFolder,
    ensures
        write_cql(w) == statement_shape(w),
{
    reveal_with_fuel(join, 10);
    reveal_strlit("DELETE FROM storage.files_by_folder WHERE bucket_id = ? AND folder_id = ? AND id = ?");
    reveal_strlit("storage.files_by_folder");
    reveal_strlit("bucket_id");
    reveal_strlit("folder_id");
    reveal_strlit("id");
    reveal_strlit("DELETE FROM ");
    reveal_strlit(" WHERE ");
    reveal_strlit(" AND ");
    reveal_strlit(" = ?");
    assert(write_cql(w) =~= statement_shape(w));
}

/// Each write's statement goes to the write's table and names, in order, the columns of the
/// values the write binds, one marker each: so the row an insert writes, and the row a delete
/// or the update selects, is keyed by the values `apply` keys it by.
pub proof fn law_write_cql_names_bound_columns(w: StorageWrite)
    ensures
        write_cql(w) == statement_shape(w),
{
    match w {
        StorageWrite::InsertBucket { .. } => lemma_cql_insert_bucket(w),
        StorageWrite::DeleteBucketFiles { .. } => lemma_cql_delete_bucket_files(w),
        StorageWrite::DeleteBucketFolders { .. } => lemma_cql_delete_bucket_folders(w),
        StorageWrite::DeleteBucket { .. } => lemma_cql_delete_bucket(w),
        StorageWrite::InsertFolder { .. } => lemma_cql_insert_folder(w),
        StorageWrite::InsertFolderByParent { .. } => lemma_cql_insert_folder_by_parent(w),
        StorageWrite::DeleteFolder { .. } => lemma_cql_delete_folder(w),
        StorageWrite::DeleteFolderByParent { .. } => lemma_cql_delete_folder_by_parent(w),
        StorageWrite::InsertFile { .. } => lemma_cql_insert_file(w),
        StorageWrite::InsertFileByFolder { .. } => lemma_cql_insert_file_by_folder(w),
        StorageWrite::UpdateFileUpload { .. } => lemma_cql_update_file_upload(w),
        StorageWrite::DeleteFile { .. } => lemma_cql_delete_file(w),
        StorageWrite::DeleteFileByFolder { .. } => lemma_cql_delete_file_by_folder(w),
    }
}


} // verus!
