use admin_files::errors::FileError;
use admin_files::files::FileStore;
use admin_files::files::MAX_FILE_SIZE;
use admin_files::files::delete_file;
use admin_files::files::finish_upload;
use admin_files::files::generate_storage_token;
use admin_files::files::get_extension_from_filename;
use admin_files::files::get_file_by_id;
use admin_files::files::get_user_files;
use admin_files::files::insert_file_record;
use admin_files::files::open_upload_field;
use admin_files::files::upload_chunk;

const NOW: u64 = 1_700_000_000;

fn upload(
    store: &mut FileStore,
    user_id: u64,
    name: &str,
    chunks: &[u64],
    now: u64,
) -> Result<admin_files::models::FileResponse, FileError> {
    let mut session = open_upload_field(
        user_id,
        Some(String::from(name)),
        None,
        generate_storage_token(),
    )?;
    for c in chunks {
        upload_chunk(&mut session, *c)?;
    }
    Ok(finish_upload(store, session, now))
}

#[test]
fn upload_records_metadata() {
    let mut store = FileStore::new();
    let resp = upload(&mut store, 1, "a.txt", &[10], NOW).unwrap();
    assert_eq!(resp.id, 1);
    assert_eq!(resp.original_filename, "a.txt");
    assert_eq!(resp.file_size, 10);
    assert_eq!(resp.file_type, "application/octet-stream");
    assert!(resp.filename.ends_with(".txt"));
    assert_eq!(store.files.len(), 1);
    assert_eq!(store.files[0].file_path, format!("uploads/{}", store.files[0].filename));
}

#[test]
fn upload_without_filename_fails() {
    let r = open_upload_field(1, None, None, generate_storage_token());
    assert_eq!(r.unwrap_err(), FileError::NoFileUploaded);
}

#[test]
fn upload_keeps_declared_media_type() {
    let mut store = FileStore::new();
    let session = open_upload_field(
        1,
        Some(String::from("photo.png")),
        Some(String::from("image/png")),
        generate_storage_token(),
    )
    .unwrap();
    let resp = finish_upload(&mut store, session, NOW);
    assert_eq!(resp.file_type, "image/png");
}

#[test]
fn oversized_upload_fails_and_leaves_no_record() {
    let mut store = FileStore::new();
    let r = upload(&mut store, 1, "big.bin", &[MAX_FILE_SIZE, 1], NOW);
    assert_eq!(r.unwrap_err(), FileError::FileTooLarge);
    assert_eq!(store.files.len(), 0);
}

#[test]
fn upload_exactly_at_ceiling_succeeds() {
    let mut store = FileStore::new();
    let resp = upload(&mut store, 1, "big.bin", &[MAX_FILE_SIZE - 5, 5], NOW).unwrap();
    assert_eq!(resp.file_size, MAX_FILE_SIZE);
}

#[test]
fn wrong_owner_lookup_is_file_not_found() {
    let mut store = FileStore::new();
    let resp = upload(&mut store, 1, "a.txt", &[10], NOW).unwrap();

    let wrong_owner = get_file_by_id(&store, resp.id, 2);
    assert_eq!(wrong_owner.unwrap_err(), FileError::FileNotFound);
    let missing_id = get_file_by_id(&store, 999, 1);
    assert_eq!(missing_id.unwrap_err(), FileError::FileNotFound);

    let wrong_owner_delete = delete_file(&mut store, resp.id, 2);
    assert_eq!(wrong_owner_delete.unwrap_err(), FileError::FileNotFound);
    assert_eq!(store.files.len(), 1);
}

#[test]
fn upload_list_download_delete_round_trip() {
    let mut store = FileStore::new();
    let resp = upload(&mut store, 1, "a.txt", &[10], NOW).unwrap();

    let listing = get_user_files(&store, 1);
    assert_eq!(listing.len(), 1);
    assert_eq!(listing[0].original_filename, "a.txt");
    assert_eq!(listing[0].file_size, 10);

    let fetched = get_file_by_id(&store, resp.id, 1).unwrap();
    assert_eq!(fetched.file_path, format!("uploads/{}", fetched.filename));
    assert_eq!(fetched.file_size, 10);

    delete_file(&mut store, resp.id, 1).unwrap();
    let gone = get_file_by_id(&store, resp.id, 1);
    assert_eq!(gone.unwrap_err(), FileError::FileNotFound);
    assert_eq!(get_user_files(&store, 1).len(), 0);
}

#[test]
fn listing_is_newest_first() {
    let mut store = FileStore::new();
    upload(&mut store, 1, "first.txt", &[1], NOW).unwrap();
    upload(&mut store, 1, "second.txt", &[2], NOW + 5).unwrap();
    let listing = get_user_files(&store, 1);
    assert_eq!(listing.len(), 2);
    assert_eq!(listing[0].original_filename, "second.txt");
    assert_eq!(listing[1].original_filename, "first.txt");
}

#[test]
fn users_see_only_their_own_files() {
    let mut store = FileStore::new();
    upload(&mut store, 1, "alice.txt", &[3], NOW).unwrap();
    upload(&mut store, 2, "bob.txt", &[4], NOW).unwrap();

    let alice = get_user_files(&store, 1);
    assert_eq!(alice.len(), 1);
    assert_eq!(alice[0].original_filename, "alice.txt");

    let bob = get_user_files(&store, 2);
    assert_eq!(bob.len(), 1);
    assert_eq!(bob[0].original_filename, "bob.txt");

    assert_eq!(get_user_files(&store, 3).len(), 0);
}

#[test]
fn insert_assigns_fresh_ids() {
    let mut store = FileStore::new();
    let a = insert_file_record(
        &mut store,
        1,
        &String::from("s1.bin"),
        &String::from("o1.bin"),
        &String::from("application/octet-stream"),
        1,
        &String::from("uploads/s1.bin"),
        NOW,
    );
    let b = insert_file_record(
        &mut store,
        1,
        &String::from("s2.bin"),
        &String::from("o2.bin"),
        &String::from("application/octet-stream"),
        2,
        &String::from("uploads/s2.bin"),
        NOW,
    );
    assert_eq!(a.id, 1);
    assert_eq!(b.id, 2);
    assert_eq!(store.next_id, 3);
}

#[test]
fn extension_derivation() {
    assert_eq!(get_extension_from_filename("a.txt"), ".txt");
    assert_eq!(get_extension_from_filename("archive.tar.gz"), ".gz");
    assert_eq!(get_extension_from_filename("noext"), "");
    assert_eq!(get_extension_from_filename(".gitignore"), "");
    assert_eq!(get_extension_from_filename("dir/inner.jpeg"), ".jpeg");
    assert_eq!(get_extension_from_filename("dir.d/plain"), "");
    assert_eq!(get_extension_from_filename(""), "");
}

#[test]
fn extension_derivation_edge_names() {
    assert_eq!(get_extension_from_filename("a.txt/"), ".txt");
    assert_eq!(get_extension_from_filename("a.txt//"), ".txt");
    assert_eq!(get_extension_from_filename(".."), "");
    assert_eq!(get_extension_from_filename("foo/.."), "");
    assert_eq!(get_extension_from_filename("../"), "");
    assert_eq!(get_extension_from_filename("foo."), ".");
    assert_eq!(get_extension_from_filename("a.."), ".");
    assert_eq!(get_extension_from_filename("/"), "");
    assert_eq!(get_extension_from_filename(".gitignore/"), "");
}

#[test]
fn storage_tokens_are_long_and_fresh() {
    let a = generate_storage_token();
    let b = generate_storage_token();
    assert_eq!(a.len(), 36);
    assert_eq!(b.len(), 36);
    assert_ne!(a, b);
}

#[test]
fn storage_tokens_are_hyphenated_hex() {
    let t = generate_storage_token();
    for c in t.chars() {
        assert!(c == '-' || c.is_ascii_digit() || ('a'..='f').contains(&c));
    }
}

#[test]
fn stored_name_never_holds_a_separator() {
    let session = open_upload_field(
        1,
        Some(String::from("../../etc/passwd.txt")),
        None,
        generate_storage_token(),
    )
    .unwrap();
    assert!(!session.stored_name.contains('/'));
    assert!(session.stored_name.ends_with(".txt"));
    assert_eq!(session.file_path, format!("uploads/{}", session.stored_name));
}

#[test]
fn stored_name_is_token_plus_extension() {
    let session = open_upload_field(
        1,
        Some(String::from("report.pdf")),
        None,
        String::from("fixed-token"),
    )
    .unwrap();
    assert_eq!(session.stored_name, "fixed-token.pdf");
    assert_eq!(session.file_path, "uploads/fixed-token.pdf");
    assert_eq!(session.size, 0);
}

#[test]
fn file_error_status_codes() {
    assert_eq!(FileError::FileNotFound.status_code(), 404);
    assert_eq!(FileError::Unauthorized.status_code(), 401);
    assert_eq!(FileError::InvalidFileType.status_code(), 400);
    assert_eq!(FileError::FileTooLarge.status_code(), 413);
    assert_eq!(FileError::NoFileUploaded.status_code(), 400);
}

#[test]
fn file_error_messages() {
    assert_eq!(FileError::FileNotFound.message(), "File not found");
    assert_eq!(FileError::Unauthorized.message(), "Unauthorized access");
    assert_eq!(FileError::InvalidFileType.message(), "Invalid file type");
    assert_eq!(FileError::FileTooLarge.message(), "File too large");
    assert_eq!(FileError::NoFileUploaded.message(), "No file uploaded");
}
