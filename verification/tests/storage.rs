use localbase::storage::error::ApiError;
use localbase::storage::handlers::{
    bucket_response, check_bucket_name, NewBucket, NewFile, NewFolder, check_entry_name, deleted_message, file_response,
    file_storage_path, folder_response, parse_bucket_path, parse_file_path, parse_folder_path,
    prepare_bucket, prepare_file, prepare_folder, require_found, should_delete_object,
    upload_content_type, upload_size, uploaded_message,
};
use localbase::storage::helpers::{
    new_uuid_v4, now_ts, parse_optional_uuid, parse_uuid, ts_to_iso, uuid_to_string,
};
use localbase::storage::writes::{
    create_bucket_writes, create_file_writes, create_folder_writes, delete_bucket_writes,
    delete_file_writes, delete_folder_writes, upload_writes, StorageWrite,
};
use localbase::storage::models::{
    health, BucketFilePath, BucketFolderPath, BucketPath, CreateBucketBody, CreateFileBody,
    CreateFolderBody,
};

const ID: &str = "550e8400-e29b-41d4-a716-446655440000";
const ID_VALUE: u128 = 0x550e8400_e29b_41d4_a716_446655440000;
const OTHER: &str = "6ba7b810-9dad-11d1-80b4-00c04fd430c8";
const OTHER_VALUE: u128 = 0x6ba7b810_9dad_11d1_80b4_00c04fd430c8;

fn s(x: &str) -> String {
    x.to_string()
}

fn bad(e: ApiError) -> String {
    match e {
        ApiError::BadRequest(m) => m,
        _ => panic!("expected a bad request"),
    }
}

fn is_v4(id: u128) -> bool {
    (id >> 76) & 0xf == 4 && (id >> 62) & 0x3 == 2
}

#[test]
fn uuid_parses() {
    assert_eq!(parse_uuid(ID, "bucket_id").ok(), Some(ID_VALUE));
    assert_eq!(parse_uuid(&ID.to_uppercase(), "bucket_id").ok(), Some(ID_VALUE));
}

#[test]
fn uuid_error_names_the_parameter() {
    assert_eq!(bad(parse_uuid("xyz", "bucket_id").err().unwrap()), "invalid bucket_id UUID: xyz");
    assert_eq!(bad(parse_uuid("", "file_id").err().unwrap()), "invalid file_id UUID: ");
}

#[test]
fn uuid_text_reads_back() {
    assert_eq!(uuid_to_string(ID_VALUE), ID);
    assert_eq!(uuid_to_string(0), "00000000-0000-0000-0000-000000000000");
    let v = new_uuid_v4();
    assert_eq!(parse_uuid(&uuid_to_string(v), "id").ok(), Some(v));
}

#[test]
fn optional_uuid_defaults_to_the_root() {
    assert_eq!(parse_optional_uuid(None, "parent_id").ok(), Some(0));
    assert_eq!(parse_optional_uuid(Some(OTHER), "parent_id").ok(), Some(OTHER_VALUE));
    assert_eq!(
        bad(parse_optional_uuid(Some("nope"), "parent_id").err().unwrap()),
        "invalid parent_id UUID: nope"
    );
}

#[test]
fn new_ids_are_version_four() {
    for _ in 0..16 {
        assert!(is_v4(new_uuid_v4()));
    }
}

#[test]
fn timestamps_as_rfc3339() {
    assert_eq!(ts_to_iso(0), "1970-01-01T00:00:00+00:00");
    assert_eq!(ts_to_iso(1700000000123), "2023-11-14T22:13:20.123+00:00");
    assert_eq!(ts_to_iso(1700000000000), "2023-11-14T22:13:20+00:00");
    assert_eq!(ts_to_iso(i64::MAX), "1970-01-01T00:00:00+00:00");
    assert!(now_ts() > 1700000000000);
}

#[test]
fn bucket_names_are_lowercased() {
    assert_eq!(check_bucket_name("  My-Bucket2 ").ok(), Some(s("my-bucket2")));
}

#[test]
fn bucket_name_errors() {
    assert_eq!(bad(check_bucket_name("   ").err().unwrap()), "name is required");
    assert_eq!(
        bad(check_bucket_name("my bucket").err().unwrap()),
        "name may only contain lowercase letters, numbers, and hyphens"
    );
    assert_eq!(
        bad(check_bucket_name("my_bucket").err().unwrap()),
        "name may only contain lowercase letters, numbers, and hyphens"
    );
}

#[test]
fn entry_names_are_trimmed() {
    assert_eq!(check_entry_name(" My Docs ").ok(), Some(s("My Docs")));
    assert_eq!(bad(check_entry_name("\t").err().unwrap()), "name is required");
}

#[test]
fn bucket_is_prepared() {
    let b = prepare_bucket(&CreateBucketBody { name: s("Photos"), public: true }).ok().unwrap();
    assert_eq!(b.name, "photos");
    assert!(b.public);
    assert!(is_v4(b.id));
    assert!(b.now > 0);
    let e = prepare_bucket(&CreateBucketBody { name: s(""), public: false }).err().unwrap();
    assert_eq!(bad(e), "name is required");
}

#[test]
fn folder_is_prepared_at_the_root() {
    let path = BucketPath { bucket_id: s(ID) };
    let f = prepare_folder(&path, &CreateFolderBody { name: s(" docs "), parent_id: None }).ok().unwrap();
    assert_eq!(f.bucket_id, ID_VALUE);
    assert_eq!(f.parent_id, 0);
    assert_eq!(f.name, "docs");
    assert!(is_v4(f.id));
}

#[test]
fn folder_checks_come_in_order() {
    let good = BucketPath { bucket_id: s(ID) };
    let bad_path = BucketPath { bucket_id: s("b") };
    let body = CreateFolderBody { name: s(""), parent_id: Some(s("p")) };
    assert_eq!(bad(prepare_folder(&bad_path, &body).err().unwrap()), "invalid bucket_id UUID: b");
    assert_eq!(bad(prepare_folder(&good, &body).err().unwrap()), "name is required");
    let body = CreateFolderBody { name: s("x"), parent_id: Some(s("p")) };
    assert_eq!(bad(prepare_folder(&good, &body).err().unwrap()), "invalid parent_id UUID: p");
    let body = CreateFolderBody { name: s("x"), parent_id: Some(s(OTHER)) };
    assert_eq!(prepare_folder(&good, &body).ok().unwrap().parent_id, OTHER_VALUE);
}

#[test]
fn file_storage_path_defaults_to_bucket_and_id() {
    assert_eq!(file_storage_path(ID_VALUE, OTHER_VALUE, ""), format!("{}/{}", ID, OTHER));
    assert_eq!(file_storage_path(ID_VALUE, OTHER_VALUE, "custom/key.png"), "custom/key.png");
}

#[test]
fn file_is_prepared() {
    let path = BucketPath { bucket_id: s(ID) };
    let body = CreateFileBody {
        name: s("cat.png"),
        size: 1234,
        content_type: s("image/png"),
        storage_path: s(""),
        folder_id: Some(s(OTHER)),
    };
    let f = prepare_file(&path, &body).ok().unwrap();
    assert_eq!(f.bucket_id, ID_VALUE);
    assert_eq!(f.folder_id, OTHER_VALUE);
    assert_eq!(f.name, "cat.png");
    assert_eq!(f.size, 1234);
    assert_eq!(f.content_type, "image/png");
    assert_eq!(f.storage_path, format!("{}/{}", ID, uuid_to_string(f.id)));
}

#[test]
fn file_keeps_a_requested_path_and_checks_its_folder() {
    let path = BucketPath { bucket_id: s(ID) };
    let body = CreateFileBody {
        name: s("a"),
        size: 0,
        content_type: s(""),
        storage_path: s("x/y"),
        folder_id: None,
    };
    let f = prepare_file(&path, &body).ok().unwrap();
    assert_eq!(f.storage_path, "x/y");
    assert_eq!(f.folder_id, 0);
    let body = CreateFileBody { folder_id: Some(s("zz")), ..body };
    assert_eq!(bad(prepare_file(&path, &body).err().unwrap()), "invalid folder_id UUID: zz");
}

#[test]
fn missing_rows_are_not_found() {
    assert_eq!(require_found(Some(7), "bucket", ID_VALUE).ok(), Some(7));
    match require_found(None::<i32>, "file", ID_VALUE) {
        Err(ApiError::NotFound(m)) => assert_eq!(m, format!("file {} not found", ID)),
        _ => panic!("expected not found"),
    }
}

#[test]
fn messages_after_changes() {
    assert_eq!(deleted_message("Bucket", ID_VALUE).message, format!("Bucket {} deleted", ID));
    assert_eq!(deleted_message("Folder", ID_VALUE).message, format!("Folder {} deleted", ID));
    assert_eq!(
        uploaded_message(ID_VALUE, 42).message,
        format!("File {} uploaded (42 bytes)", ID)
    );
}

#[test]
fn upload_details() {
    assert_eq!(upload_size(42), 42);
    assert_eq!(upload_content_type(Some(s("image/png")), s("text/plain")), "image/png");
    assert_eq!(upload_content_type(None, s("text/plain")), "text/plain");
    assert!(!should_delete_object(""));
    assert!(should_delete_object("b/f"));
}

#[test]
fn responses_carry_text_ids_and_times() {
    let b = bucket_response(ID_VALUE, s("pics"), false, 0, 1700000000123);
    assert_eq!(b.id, ID);
    assert_eq!(b.created_at, "1970-01-01T00:00:00+00:00");
    assert_eq!(b.updated_at, "2023-11-14T22:13:20.123+00:00");
    let f = folder_response(OTHER_VALUE, ID_VALUE, 0, s("docs"), 0, 0);
    assert_eq!(f.parent_id, "00000000-0000-0000-0000-000000000000");
    assert_eq!(f.bucket_id, ID);
    let file = file_response(OTHER_VALUE, ID_VALUE, 0, s("a"), None, None, None, 0, 0);
    assert_eq!(file.size, 0);
    assert_eq!(file.content_type, "");
    assert_eq!(file.storage_path, "");
    assert_eq!(file.id, OTHER);
}

#[test]
fn paths_check_the_bucket_first() {
    assert_eq!(parse_bucket_path(&BucketPath { bucket_id: s(ID) }).ok(), Some(ID_VALUE));
    let p = BucketFolderPath { bucket_id: s("x"), folder_id: s("y") };
    assert_eq!(bad(parse_folder_path(&p).err().unwrap()), "invalid bucket_id UUID: x");
    let p = BucketFolderPath { bucket_id: s(ID), folder_id: s("y") };
    assert_eq!(bad(parse_folder_path(&p).err().unwrap()), "invalid folder_id UUID: y");
    let p = BucketFilePath { bucket_id: s(ID), file_id: s(OTHER) };
    assert_eq!(parse_file_path(&p).ok(), Some((ID_VALUE, OTHER_VALUE)));
    let p = BucketFilePath { bucket_id: s(ID), file_id: s("f") };
    assert_eq!(bad(parse_file_path(&p).err().unwrap()), "invalid file_id UUID: f");
}

#[test]
fn storage_errors() {
    let e = ApiError::Storage(s("denied"));
    assert_eq!(e.status_code(), 500);
    assert_eq!(e.message(), "storage error: denied");
    let e = ApiError::NotFound(s("bucket x not found"));
    assert_eq!(e.status_code(), 404);
    assert_eq!(e.message(), "not found: bucket x not found");
    assert_eq!(ApiError::Db(s("d")).message(), "database error: d");
    assert_eq!(ApiError::BadRequest(s("b")).status_code(), 400);
}

#[test]
fn storage_health() {
    let h = health();
    assert_eq!(h.status, "ok");
    assert_eq!(h.service, "storage");
}

#[test]
fn prepared_ids_are_version_four() {
    let path = BucketPath { bucket_id: s(ID) };
    let f = prepare_folder(&path, &CreateFolderBody { name: s("a"), parent_id: None }).ok().unwrap();
    assert!(is_v4(f.id));
    let body = CreateFileBody {
        name: s("a"),
        size: 1,
        content_type: s("text/plain"),
        storage_path: s(""),
        folder_id: None,
    };
    assert!(is_v4(prepare_file(&path, &body).ok().unwrap().id));
}

#[test]
fn created_files_always_have_an_object_to_delete() {
    assert!(should_delete_object(&file_storage_path(ID_VALUE, OTHER_VALUE, "")));
    assert!(should_delete_object(&file_storage_path(0, 0, "")));
    assert!(should_delete_object(&file_storage_path(0, 0, "k")));
}

fn new_folder() -> NewFolder {
    NewFolder { bucket_id: ID_VALUE, id: OTHER_VALUE, parent_id: 0, name: s("docs"), now: 5 }
}

#[test]
fn bucket_writes() {
    let b = NewBucket { id: ID_VALUE, name: s("pics"), public: true, now: 9 };
    let w = create_bucket_writes(&b);
    assert_eq!(w.len(), 1);
    assert!(matches!(&w[0], StorageWrite::InsertBucket { id, name, public: true, now: 9 } if *id == ID_VALUE && name == "pics"));
    assert_eq!(
        w[0].cql(),
        "INSERT INTO storage.buckets (id, name, public, created_at, updated_at) VALUES (?, ?, ?, ?, ?)"
    );
    let d = delete_bucket_writes(ID_VALUE);
    assert_eq!(
        d.iter().map(|w| w.cql()).collect::<Vec<_>>(),
        vec![
            "DELETE FROM storage.files WHERE bucket_id = ?",
            "DELETE FROM storage.folders WHERE bucket_id = ?",
            "DELETE FROM storage.buckets WHERE id = ?",
        ]
    );
}

#[test]
fn folder_writes_go_to_both_tables() {
    let w = create_folder_writes(&new_folder());
    assert_eq!(w.len(), 2);
    assert!(matches!(&w[0], StorageWrite::InsertFolder { parent_id: 0, now: 5, .. }));
    assert!(matches!(&w[1], StorageWrite::InsertFolderByParent { parent_id: 0, name, .. } if name == "docs"));
    assert!(w[1].cql().starts_with("INSERT INTO storage.folders_by_parent"));
    let d = delete_folder_writes(ID_VALUE, OTHER_VALUE, 7);
    assert!(matches!(&d[0], StorageWrite::DeleteFolder { id, .. } if *id == OTHER_VALUE));
    assert!(matches!(&d[1], StorageWrite::DeleteFolderByParent { parent_id: 7, .. }));
}

#[test]
fn file_writes_go_to_both_tables() {
    let f = NewFile {
        bucket_id: ID_VALUE,
        id: OTHER_VALUE,
        folder_id: 3,
        name: s("a.txt"),
        size: 12,
        content_type: s("text/plain"),
        storage_path: s("k"),
        now: 1,
    };
    let w = create_file_writes(&f);
    assert!(matches!(&w[0], StorageWrite::InsertFile { folder_id: 3, size: 12, storage_path, .. } if storage_path == "k"));
    assert!(matches!(&w[1], StorageWrite::InsertFileByFolder { folder_id: 3, content_type, .. } if content_type == "text/plain"));
    let d = delete_file_writes(ID_VALUE, OTHER_VALUE, 3);
    assert_eq!(d[1].cql(), "DELETE FROM storage.files_by_folder WHERE bucket_id = ? AND folder_id = ? AND id = ?");
    assert!(matches!(&d[1], StorageWrite::DeleteFileByFolder { folder_id: 3, .. }));
    let u = upload_writes(ID_VALUE, OTHER_VALUE, 42, s("image/png"), 8);
    assert!(matches!(&u[0], StorageWrite::UpdateFileUpload { size: 42, now: 8, content_type, .. } if content_type == "image/png"));
    assert_eq!(
        u[0].cql(),
        "UPDATE storage.files SET size = ?, content_type = ?, updated_at = ? WHERE bucket_id = ? AND id = ?"
    );
}
