//! The file store and the upload pipeline: owner-scoped metadata records, a
//! size-enforcing byte counter for streamed uploads, extension derivation
//! from client-supplied names, and owner-scoped listing, retrieval and
//! deletion.

use vstd::prelude::*;

use crate::errors::FileError;
use crate::models::File;
use crate::models::FileResponse;
use crate::models::file_response_of;

verus! {

/// Ceiling on the cumulative size of one uploaded file, in bytes (100 MiB).
pub const MAX_FILE_SIZE: u64 = 100 * 1024 * 1024;

/// The file table: records are appended on successful uploads and removed on
/// deletion; ids are assigned from a counter and never reused.
#[derive(Debug)]
pub struct FileStore {
    pub files: Vec<File>,
    pub next_id: u64,
}

impl FileStore {
    /// Store invariant: ids were assigned from the counter and never repeat.
    pub open spec fn wf(self) -> bool {
        &&& 1 <= self.next_id
        &&& forall|i: int|
            0 <= i < self.files@.len() ==> 1 <= (#[trigger] self.files@[i].id) < self.next_id
        &&& forall|i: int, j: int|
            0 <= i < j < self.files@.len() ==> #[trigger] self.files@[i].id != #[trigger] self.files@[j].id
    }

    /// An empty file table.
    pub fn new() -> (s: Self)
        ensures
            s.wf(),
            s.files@.len() == 0,
            s.next_id == 1,
    {
        FileStore { files: Vec::new(), next_id: 1 }
    }
}

/// Index of the first record with this id and this owner, or -1 when there is
/// none. Under `FileStore::wf` at most one record has the id at all.
pub open spec fn lookup_file_index(files: Seq<File>, file_id: u64, owner: u64) -> int
    decreases files.len(),
{
    if files.len() == 0 {
        -1
    } else if files.first().id == file_id && files.first().user_id == owner {
        0
    } else {
        let r = lookup_file_index(files.drop_first(), file_id, owner);
        if r == -1 {
            -1
        } else {
            r + 1
        }
    }
}

/// The record with this id and this owner, if any.
pub open spec fn lookup_file(files: Seq<File>, file_id: u64, owner: u64) -> Option<File> {
    let i = lookup_file_index(files, file_id, owner);
    if i == -1 {
        None
    } else {
        Some(files[i])
    }
}

/// When no record in [0, k) matches and the record at k matches, k is what
/// the lookup finds.
pub proof fn lemma_lookup_file_index_at(files: Seq<File>, file_id: u64, owner: u64, k: int)
    requires
        0 <= k < files.len(),
        files[k].id == file_id,
        files[k].user_id == owner,
        forall|j: int|
            0 <= j < k ==> !((#[trigger] files[j]).id == file_id && files[j].user_id == owner),
    ensures
        lookup_file_index(files, file_id, owner) == k,
    decreases files.len(),
{
    if k > 0 {
        assert(!(files[0].id == file_id && files[0].user_id == owner));
        assert(forall|j: int|
            0 <= j < files.drop_first().len() ==> #[trigger] files.drop_first()[j] == files[j + 1]);
        lemma_lookup_file_index_at(files.drop_first(), file_id, owner, k - 1);
    }
}

/// When no record matches both id and owner, the lookup finds nothing.
pub proof fn lemma_lookup_file_index_none(files: Seq<File>, file_id: u64, owner: u64)
    requires
        forall|j: int|
            0 <= j < files.len() ==> !((#[trigger] files[j]).id == file_id && files[j].user_id
                == owner),
    ensures
        lookup_file_index(files, file_id, owner) == -1,
    decreases files.len(),
{
    if files.len() > 0 {
        assert(forall|j: int|
            0 <= j < files.drop_first().len() ==> #[trigger] files.drop_first()[j] == files[j + 1]);
        lemma_lookup_file_index_none(files.drop_first(), file_id, owner);
    }
}

/// A user's listing, newest first: the public projections of exactly the
/// records owned by `owner`, in reverse insertion order.
pub open spec fn user_listing(files: Seq<File>, owner: u64) -> Seq<FileResponse>
    decreases files.len(),
{
    if files.len() == 0 {
        Seq::empty()
    } else if files.last().user_id == owner {
        seq![file_response_of(files.last())] + user_listing(files.drop_last(), owner)
    } else {
        user_listing(files.drop_last(), owner)
    }
}

/// All records owned by `owner`, newest first, as public projections.
pub fn get_user_files(store: &FileStore, user_id: u64) -> (r: Vec<FileResponse>)
    requires
        store.wf(),
    ensures
        r@ == user_listing(store.files@, user_id),
{
    let n = store.files.len();
    let mut out: Vec<FileResponse> = Vec::new();
    let mut i: usize = n;
    proof {
        assert(store.files@.take(n as int) =~= store.files@);
        assert(out@ + user_listing(store.files@.take(n as int), user_id) =~= user_listing(
            store.files@,
            user_id,
        ));
    }
    while i > 0
        invariant
            0 <= i <= n,
            n == store.files@.len(),
            user_listing(store.files@, user_id) == out@ + user_listing(
                store.files@.take(i as int),
                user_id,
            ),
        decreases i,
    {
        let idx = i - 1;
        proof {
            assert(store.files@.take(i as int).drop_last() =~= store.files@.take(idx as int));
            assert(store.files@.take(i as int).last() == store.files@[idx as int]);
        }
        if store.files[idx].user_id == user_id {
            let ghost before = out@;
            out.push(FileResponse::from(store.files[idx].clone()));
            proof {
                assert(out@ + user_listing(store.files@.take(idx as int), user_id) =~= before
                    + user_listing(store.files@.take(i as int), user_id));
            }
        }
        i = idx;
    }
    proof {
        assert(store.files@.take(0) =~= Seq::<File>::empty());
        assert(out@ + user_listing(store.files@.take(0), user_id) =~= out@);
    }
    out
}

/// The record with this id owned by this user: a wrong-owner lookup and a
/// nonexistent id fail identically with `FileNotFound`.
pub fn get_file_by_id(store: &FileStore, file_id: u64, user_id: u64) -> (r: Result<
    File,
    FileError,
>)
    requires
        store.wf(),
    ensures
        match r {
            Ok(f) => lookup_file(store.files@, file_id, user_id) == Some(f),
            Err(e) => lookup_file(store.files@, file_id, user_id) is None && e
                == FileError::FileNotFound,
        },
{
    let n = store.files.len();
    let mut i: usize = 0;
    while i < n
        invariant
            0 <= i <= n,
            n == store.files@.len(),
            forall|j: int|
                0 <= j < i ==> !((#[trigger] store.files@[j]).id == file_id
                    && store.files@[j].user_id == user_id),
        decreases n - i,
    {
        if store.files[i].id == file_id && store.files[i].user_id == user_id {
            proof {
                lemma_lookup_file_index_at(store.files@, file_id, user_id, i as int);
            }
            return Ok(store.files[i].clone());
        }
        i = i + 1;
    }
    proof {
        lemma_lookup_file_index_none(store.files@, file_id, user_id);
    }
    Err(FileError::FileNotFound)
}

/// Removes the record with this id owned by this user, failing with
/// `FileNotFound` on a nonexistent id or a wrong owner; the rest of the table
/// is untouched.
pub fn delete_file(store: &mut FileStore, file_id: u64, user_id: u64) -> (r: Result<
    (),
    FileError,
>)
    requires
        old(store).wf(),
    ensures
        final(store).wf(),
        match r {
            Ok(_) => {
                &&& lookup_file_index(old(store).files@, file_id, user_id) >= 0
                &&& final(store).files@ == old(store).files@.remove(
                    lookup_file_index(old(store).files@, file_id, user_id),
                )
                &&& final(store).next_id == old(store).next_id
            },
            Err(e) => {
                &&& lookup_file(old(store).files@, file_id, user_id) is None
                &&& e == FileError::FileNotFound
                &&& *final(store) == *old(store)
            },
        },
{
    let n = store.files.len();
    let mut i: usize = 0;
    while i < n
        invariant
            0 <= i <= n,
            n == store.files@.len(),
            store.wf(),
            *store == *old(store),
            forall|j: int|
                0 <= j < i ==> !((#[trigger] store.files@[j]).id == file_id
                    && store.files@[j].user_id == user_id),
        decreases n - i,
    {
        if store.files[i].id == file_id && store.files[i].user_id == user_id {
            let ghost pre = store.files@;
            proof {
                lemma_lookup_file_index_at(pre, file_id, user_id, i as int);
            }
            store.files.remove(i);
            proof {
                pre.remove_ensures(i as int);
                assert forall|a: int|
                    0 <= a < store.files@.len() implies 1 <= (#[trigger] store.files@[a].id)
                    < store.next_id by {
                    if a < i {
                        assert(store.files@[a] == pre[a]);
                    } else {
                        assert(store.files@[a] == pre[a + 1]);
                    }
                }
                assert forall|a: int, b: int|
                    0 <= a < b < store.files@.len() implies #[trigger] store.files@[a].id
                    != #[trigger] store.files@[b].id by {
                    if a < i {
                        assert(store.files@[a] == pre[a]);
                    } else {
                        assert(store.files@[a] == pre[a + 1]);
                    }
                    if b < i {
                        assert(store.files@[b] == pre[b]);
                    } else {
                        assert(store.files@[b] == pre[b + 1]);
                    }
                }
            }
            return Ok(());
        }
        i = i + 1;
    }
    proof {
        lemma_lookup_file_index_none(store.files@, file_id, user_id);
    }
    Err(FileError::FileNotFound)
}

/// Appends a metadata row under a fresh id, returning the stored record.
pub fn insert_file_record(
    store: &mut FileStore,
    user_id: u64,
    filename: &String,
    original_filename: &String,
    file_type: &String,
    file_size: u64,
    file_path: &String,
    now: u64,
) -> (r: File)
    requires
        old(store).wf(),
        old(store).next_id < u64::MAX,
    ensures
        final(store).wf(),
        final(store).files@ == old(store).files@.push(r),
        final(store).next_id == old(store).next_id + 1,
        r == (File {
            id: old(store).next_id,
            user_id,
            filename: *filename,
            original_filename: *original_filename,
            file_type: *file_type,
            file_size,
            file_path: *file_path,
            created_at: now,
        }),
{
    let f = File {
        id: store.next_id,
        user_id,
        filename: filename.clone(),
        original_filename: original_filename.clone(),
        file_type: file_type.clone(),
        file_size,
        file_path: file_path.clone(),
        created_at: now,
    };
    let out = f.clone();
    store.files.push(f);
    store.next_id = store.next_id + 1;
    out
}

/// Index of the last occurrence of `c` in `s`, or -1 when there is none.
pub open spec fn last_index_of(s: Seq<char>, c: char) -> int
    decreases s.len(),
{
    if s.len() == 0 {
        -1
    } else if s.last() == c {
        s.len() - 1
    } else {
        last_index_of(s.drop_last(), c)
    }
}

/// The name with its trailing path separators removed.
pub open spec fn strip_trailing_slashes(s: Seq<char>) -> Seq<char>
    decreases s.len(),
{
    if s.len() > 0 && s.last() == '/' {
        strip_trailing_slashes(s.drop_last())
    } else {
        s
    }
}

/// The final '/'-separated component of a client-supplied name, trailing
/// separators removed first.
pub open spec fn file_component(s: Seq<char>) -> Seq<char> {
    let t = strip_trailing_slashes(s);
    t.skip(last_index_of(t, '/') + 1)
}

/// The extension of a client-supplied filename, with its leading dot: the
/// final component from its last '.' on. Empty when the component has no
/// '.', when its only '.' starts it (a dotfile has no extension), or when
/// the component is the parent-directory name "..".
pub open spec fn extension_of(s: Seq<char>) -> Seq<char> {
    let comp = file_component(s);
    let d = last_index_of(comp, '.');
    if comp.len() == 2 && comp[0] == '.' && comp[1] == '.' {
        Seq::empty()
    } else if d <= 0 {
        Seq::empty()
    } else {
        comp.skip(d)
    }
}

/// Position `k` holds `c` and nothing after it does, exactly when `k` is the
/// last index of `c` (with -1 for a string free of `c`).
proof fn lemma_last_index_of_at(s: Seq<char>, c: char, k: int)
    requires
        -1 <= k < s.len(),
        k >= 0 ==> s[k] == c,
        forall|j: int| k < j < s.len() ==> s[j] != c,
    ensures
        last_index_of(s, c) == k,
    decreases s.len(),
{
    if s.len() > 0 {
        if k == s.len() - 1 {
        } else {
            assert(s.last() != c);
            assert(forall|j: int| k < j < s.drop_last().len() ==> s.drop_last()[j] != c);
            lemma_last_index_of_at(s.drop_last(), c, k);
        }
    }
}

/// The last index of `c` lies in [-1, len).
proof fn lemma_last_index_of_bounds(s: Seq<char>, c: char)
    ensures
        -1 <= last_index_of(s, c) < s.len() || last_index_of(s, c) == -1,
    decreases s.len(),
{
    if s.len() > 0 && s.last() != c {
        lemma_last_index_of_bounds(s.drop_last(), c);
    }
}

/// When positions [e, len) all hold '/' and position e-1 (if any) does not,
/// stripping trailing separators keeps exactly the first e characters.
proof fn lemma_strip_trailing(s: Seq<char>, e: int)
    requires
        0 <= e <= s.len(),
        forall|j: int| e <= j < s.len() ==> s[j] == '/',
        e > 0 ==> s[e - 1] != '/',
    ensures
        strip_trailing_slashes(s) == s.take(e),
    decreases s.len(),
{
    if s.len() == 0 {
        assert(s.take(e) =~= s);
    } else if s.last() == '/' {
        assert(e < s.len());
        assert(forall|j: int| e <= j < s.drop_last().len() ==> s.drop_last()[j] == s[j]);
        lemma_strip_trailing(s.drop_last(), e);
        assert(s.drop_last().take(e) =~= s.take(e));
    } else {
        assert(e == s.len());
        assert(s.take(e) =~= s);
    }
}

/// Nothing after the last occurrence of `c` is `c`.
proof fn lemma_last_index_of_after(s: Seq<char>, c: char)
    ensures
        forall|j: int| last_index_of(s, c) < j < s.len() ==> s[j] != c,
    decreases s.len(),
{
    if s.len() > 0 && s.last() != c {
        lemma_last_index_of_bounds(s, c);
        lemma_last_index_of_after(s.drop_last(), c);
        assert forall|j: int| last_index_of(s, c) < j < s.len() implies s[j] != c by {
            if 0 <= j < s.len() - 1 {
                assert(s.drop_last()[j] == s[j]);
            }
        }
    }
}

/// The derived extension holds no path separator: every character of it
/// sits after the last '/' of the stripped client name.
pub proof fn lemma_extension_no_separator(s: Seq<char>)
    ensures
        forall|i: int|
            0 <= i < extension_of(s).len() ==> (#[trigger] extension_of(s)[i]) != '/',
{
    let t = strip_trailing_slashes(s);
    let sl = last_index_of(t, '/');
    let comp = file_component(s);
    let d = last_index_of(comp, '.');
    lemma_last_index_of_bounds(t, '/');
    lemma_last_index_of_bounds(comp, '.');
    lemma_last_index_of_after(t, '/');
    if extension_of(s).len() > 0 {
        assert forall|i: int|
            0 <= i < extension_of(s).len() implies (#[trigger] extension_of(s)[i]) != '/' by {
            assert(extension_of(s)[i] == comp[d + i]);
            assert(comp[d + i] == t[sl + 1 + d + i]);
        }
    }
}

/// Derives the extension from a client-supplied filename, as `extension_of`
/// describes it. Only this much of the client name survives into the stored
/// name.
pub fn get_extension_from_filename(filename: &str) -> (r: String)
    ensures
        r@ == extension_of(filename@),
{
    let n = filename.unicode_len();
    let mut end: usize = n;
    while end > 0 && filename.get_char(end - 1) == '/'
        invariant
            0 <= end <= n,
            n == filename@.len(),
            forall|j: int| end <= j < n ==> filename@[j] == '/',
        decreases end,
    {
        end = end - 1;
    }
    proof {
        lemma_strip_trailing(filename@, end as int);
    }
    let ghost t = strip_trailing_slashes(filename@);
    let mut start: usize = end;
    while start > 0 && filename.get_char(start - 1) != '/'
        invariant
            0 <= start <= end,
            end <= n,
            n == filename@.len(),
            forall|j: int| start <= j < end ==> filename@[j] != '/',
        decreases start,
    {
        start = start - 1;
    }
    proof {
        assert(forall|j: int| 0 <= j < t.len() ==> t[j] == filename@[j]);
        lemma_last_index_of_at(t, '/', start - 1);
        assert(file_component(filename@) == t.skip(start as int));
    }
    let ghost comp = file_component(filename@);
    let mut dot: usize = end;
    while dot > start && filename.get_char(dot - 1) != '.'
        invariant
            start <= dot <= end,
            end <= n,
            n == filename@.len(),
            forall|j: int| dot <= j < end ==> filename@[j] != '.',
        decreases dot,
    {
        dot = dot - 1;
    }
    proof {
        assert(forall|j: int| 0 <= j < comp.len() ==> comp[j] == filename@[start + j]);
        assert(forall|j: int| dot - start - 1 < j < comp.len() ==> comp[j] != '.');
        lemma_last_index_of_at(comp, '.', dot - start - 1);
    }
    if end - start == 2 && filename.get_char(start) == '.' && filename.get_char(start + 1) == '.' {
        proof {
            assert(comp.len() == 2 && comp[0] == '.' && comp[1] == '.');
            assert(extension_of(filename@) =~= Seq::<char>::empty());
        }
        return String::new();
    }
    if dot - start <= 1 {
        proof {
            assert(extension_of(filename@) =~= Seq::<char>::empty());
        }
        String::new()
    } else {
        let ext = filename.substring_char(dot - 1, end);
        proof {
            assert(ext@ =~= comp.skip(dot - start - 1));
        }
        ext.to_owned()
    }
}

/// A character of a hyphenated identifier: a lowercase hex digit or '-'.
pub open spec fn is_storage_token_char(c: char) -> bool {
    c == '-' || 48 <= c as u32 <= 57 || 97 <= c as u32 <= 102
}

/// Relies on `uuid::Uuid::new_v4`, rendered in the hyphenated form: a fresh
/// random 36-character name of lowercase hex digits and hyphens. Randomness
/// makes collisions improbable, not impossible, so uniqueness is not
/// assumed. The call panics only if the operating system's randomness
/// source fails.
#[verifier::external_body]
pub fn generate_storage_token() -> (s: String)
    ensures
        s@.len() == 36,
        forall|i: int| 0 <= i < s@.len() ==> is_storage_token_char(#[trigger] s@[i]),
{
    uuid::Uuid::new_v4().to_string()
}

/// A name of storage-token characters holds no path separator.
pub proof fn lemma_token_chars_no_separator(t: Seq<char>)
    requires
        forall|i: int| 0 <= i < t.len() ==> is_storage_token_char(#[trigger] t[i]),
    ensures
        forall|i: int| 0 <= i < t.len() ==> (#[trigger] t[i]) != '/',
{
}

/// Per-request upload state: the metadata fixed when the field is opened,
/// and the running byte counter while the stream is consumed.
#[derive(Debug)]
pub struct UploadSession {
    pub user_id: u64,
    pub original_filename: String,
    pub file_type: String,
    pub stored_name: String,
    pub file_path: String,
    pub size: u64,
}

impl UploadSession {
    /// The byte counter never passes the ceiling, and the storage path is
    /// derived deterministically from the stored name.
    pub open spec fn wf(self) -> bool {
        &&& self.size <= MAX_FILE_SIZE
        &&& self.file_path@ == "uploads/"@ + self.stored_name@
    }
}

/// Opens the upload for the first filename-bearing multipart field: the
/// stored name is the fresh storage token plus the extension derived from
/// the client name, the media type defaults to a generic octet stream, and
/// the byte counter starts at zero. A request whose fields carry no filename
/// fails with `NoFileUploaded`.
pub fn open_upload_field(
    user_id: u64,
    original_filename: Option<String>,
    content_type: Option<String>,
    storage_token: String,
) -> (r: Result<UploadSession, FileError>)
    ensures
        match (r, original_filename) {
            (Err(e), Option::None) => e == FileError::NoFileUploaded,
            (Ok(s), Option::Some(orig)) => {
                &&& s.wf()
                &&& s.user_id == user_id
                &&& s.original_filename == orig
                &&& s.stored_name@ == storage_token@ + extension_of(orig@)
                &&& (forall|i: int|
                    0 <= i < storage_token@.len() ==> (#[trigger] storage_token@[i]) != '/')
                    ==> (forall|i: int|
                    0 <= i < s.stored_name@.len() ==> (#[trigger] s.stored_name@[i]) != '/')
                &&& s.size == 0
                &&& s.file_type@ == (match content_type {
                    Option::Some(t) => t@,
                    Option::None => "application/octet-stream"@,
                })
            },
            _ => false,
        },
{
    let orig = match original_filename {
        Option::Some(name) => name,
        Option::None => {
            return Err(FileError::NoFileUploaded);
        },
    };
    let ext = get_extension_from_filename(orig.as_str());
    let stored_name = storage_token.concat(ext.as_str());
    proof {
        lemma_extension_no_separator(orig@);
        if forall|i: int|
            0 <= i < storage_token@.len() ==> (#[trigger] storage_token@[i]) != '/' {
            assert forall|i: int|
                0 <= i < stored_name@.len() implies (#[trigger] stored_name@[i]) != '/' by {
                if i < storage_token@.len() {
                    assert(stored_name@[i] == storage_token@[i]);
                } else {
                    assert(stored_name@[i] == extension_of(orig@)[i - storage_token@.len()]);
                }
            }
        }
    }
    let mut file_path = String::from_str("uploads/");
    file_path.append(stored_name.as_str());
    let file_type = match content_type {
        Option::Some(t) => t,
        Option::None => String::from_str("application/octet-stream"),
    };
    Ok(
        UploadSession {
            user_id,
            original_filename: orig,
            file_type,
            stored_name,
            file_path,
            size: 0,
        },
    )
}

/// Accounts one streamed chunk against the ceiling: on success the counter
/// grows by the chunk length; a chunk that would take the total past the
/// ceiling fails with `FileTooLarge` and leaves the session unchanged, so
/// the caller can delete the partial file and surface the error.
pub fn upload_chunk(session: &mut UploadSession, chunk_len: u64) -> (r: Result<(), FileError>)
    requires
        old(session).wf(),
    ensures
        final(session).wf(),
        match r {
            Ok(_) => old(session).size + chunk_len <= MAX_FILE_SIZE && *final(session) == (
            UploadSession { size: (old(session).size + chunk_len) as u64, ..*old(session) }),
            Err(e) => old(session).size + chunk_len > MAX_FILE_SIZE && e == FileError::FileTooLarge
                && *final(session) == *old(session),
        },
{
    if chunk_len > MAX_FILE_SIZE - session.size {
        return Err(FileError::FileTooLarge);
    }
    session.size = session.size + chunk_len;
    Ok(())
}

/// Records the fully streamed upload: only after the whole stream was
/// consumed without error is the metadata row inserted, under a fresh id,
/// and its public projection returned.
pub fn finish_upload(store: &mut FileStore, session: UploadSession, now: u64) -> (r: FileResponse)
    requires
        old(store).wf(),
        old(store).next_id < u64::MAX,
        session.wf(),
    ensures
        final(store).wf(),
        final(store).next_id == old(store).next_id + 1,
        final(store).files@.len() == old(store).files@.len() + 1,
        final(store).files@ == old(store).files@.push(final(store).files@.last()),
        final(store).files@.last() == (File {
            id: old(store).next_id,
            user_id: session.user_id,
            filename: session.stored_name,
            original_filename: session.original_filename,
            file_type: session.file_type,
            file_size: session.size,
            file_path: session.file_path,
            created_at: now,
        }),
        r == file_response_of(final(store).files@.last()),
{
    let record = insert_file_record(
        store,
        session.user_id,
        &session.stored_name,
        &session.original_filename,
        &session.file_type,
        session.size,
        &session.file_path,
        now,
    );
    FileResponse::from(record)
}

/// A file stored for one user never shows up for another: appending a record
/// with a different owner leaves a listing unchanged.
pub proof fn lemma_listing_isolation(files: Seq<File>, f: File, owner: u64)
    requires
        f.user_id != owner,
    ensures
        user_listing(files.push(f), owner) == user_listing(files, owner),
{
    assert(files.push(f).drop_last() =~= files);
}

/// A user sees their own upload: appending a record they own puts its
/// projection at the head of their listing.
pub proof fn lemma_listing_sees_own_upload(files: Seq<File>, f: File, owner: u64)
    requires
        f.user_id == owner,
    ensures
        user_listing(files.push(f), owner) == seq![file_response_of(f)] + user_listing(
            files,
            owner,
        ),
{
    assert(files.push(f).drop_last() =~= files);
}

/// A valid file id requested under the wrong owner is indistinguishable from
/// a nonexistent id: the lookup reports `FileNotFound` either way.
pub proof fn lemma_wrong_owner_hidden(store: FileStore, j: int, file_id: u64, owner: u64)
    requires
        store.wf(),
        0 <= j < store.files@.len(),
        store.files@[j].id == file_id,
        store.files@[j].user_id != owner,
    ensures
        lookup_file(store.files@, file_id, owner) is None,
{
    assert forall|k: int|
        0 <= k < store.files@.len() implies !((#[trigger] store.files@[k]).id == file_id
        && store.files@[k].user_id == owner) by {
        if store.files@[k].id == file_id && store.files@[k].user_id == owner {
            if k < j {
                assert(store.files@[k].id != store.files@[j].id);
            } else if j < k {
                assert(store.files@[j].id != store.files@[k].id);
            }
        }
    }
    lemma_lookup_file_index_none(store.files@, file_id, owner);
}

} // verus!
