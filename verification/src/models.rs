//! The data model: stored users and file records, the request and response
//! shapes of the wire surface, and the public projections of stored rows.

use vstd::prelude::*;

verus! {

/// A stored user row. The password field holds the bcrypt hash, never the
/// plaintext; timestamps are seconds since the Unix epoch.
#[derive(Debug)]
pub struct User {
    pub id: u64,
    pub username: String,
    pub email: String,
    pub password: String,
    pub created_at: u64,
    pub updated_at: u64,
}

impl Clone for User {
    fn clone(&self) -> (r: Self)
        ensures
            r == *self,
    {
        User {
            id: self.id,
            username: self.username.clone(),
            email: self.email.clone(),
            password: self.password.clone(),
            created_at: self.created_at,
            updated_at: self.updated_at,
        }
    }
}

/// The registration request body.
#[derive(Debug)]
pub struct CreateUserRequest {
    pub username: String,
    pub email: String,
    pub password: String,
}

/// The login request body.
#[derive(Debug)]
pub struct LoginRequest {
    pub email: String,
    pub password: String,
}

/// What a successful login returns: a session token and the public projection
/// of the user.
#[derive(Debug)]
pub struct LoginResponse {
    pub token: String,
    pub user: UserResponse,
}

/// The public projection of a user: the password hash never leaves the store.
#[derive(Debug)]
pub struct UserResponse {
    pub id: u64,
    pub username: String,
    pub email: String,
}

/// The public projection of a stored user.
pub open spec fn user_response_of(user: User) -> UserResponse {
    UserResponse { id: user.id, username: user.username, email: user.email }
}

impl From<User> for UserResponse {
    fn from(user: User) -> (r: Self) {
        UserResponse { id: user.id, username: user.username, email: user.email }
    }
}

impl vstd::std_specs::convert::FromSpecImpl<User> for UserResponse {
    open spec fn obeys_from_spec() -> bool {
        true
    }

    open spec fn from_spec(user: User) -> Self {
        user_response_of(user)
    }
}

/// A stored file record. `filename` is the generated stored name, unique on
/// disk; `original_filename` is what the client called it; `created_at` is
/// seconds since the Unix epoch.
#[derive(Debug)]
pub struct File {
    pub id: u64,
    pub user_id: u64,
    pub filename: String,
    pub original_filename: String,
    pub file_type: String,
    pub file_size: u64,
    pub file_path: String,
    pub created_at: u64,
}

impl Clone for File {
    fn clone(&self) -> (r: Self)
        ensures
            r == *self,
    {
        File {
            id: self.id,
            user_id: self.user_id,
            filename: self.filename.clone(),
            original_filename: self.original_filename.clone(),
            file_type: self.file_type.clone(),
            file_size: self.file_size,
            file_path: self.file_path.clone(),
            created_at: self.created_at,
        }
    }
}

/// The public projection of a file record: the owner id and storage path stay
/// inside the store.
#[derive(Debug)]
pub struct FileResponse {
    pub id: u64,
    pub filename: String,
    pub original_filename: String,
    pub file_type: String,
    pub file_size: u64,
    pub created_at: u64,
}

/// The public projection of a stored file record.
pub open spec fn file_response_of(file: File) -> FileResponse {
    FileResponse {
        id: file.id,
        filename: file.filename,
        original_filename: file.original_filename,
        file_type: file.file_type,
        file_size: file.file_size,
        created_at: file.created_at,
    }
}

impl From<File> for FileResponse {
    fn from(file: File) -> (r: Self) {
        FileResponse {
            id: file.id,
            filename: file.filename,
            original_filename: file.original_filename,
            file_type: file.file_type,
            file_size: file.file_size,
            created_at: file.created_at,
        }
    }
}

impl vstd::std_specs::convert::FromSpecImpl<File> for FileResponse {
    open spec fn obeys_from_spec() -> bool {
        true
    }

    open spec fn from_spec(file: File) -> Self {
        file_response_of(file)
    }
}

} // verus!
