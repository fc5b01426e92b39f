//! Error taxonomies for the authentication and file domains, each with its
//! mapping to an HTTP-style status code.

use vstd::prelude::*;

verus! {

/// Failures of registration, login, and bearer-token resolution.
#[derive(Clone, Copy, Debug, PartialEq, Eq, Structural)]
pub enum AuthError {
    /// Wrong password or unknown email; deliberately indistinguishable.
    InvalidCredentials,
    /// A user with the same username or email already exists.
    UserAlreadyExists,
    /// The id carried by a valid token no longer names a user.
    UserNotFound,
    /// No authorization header was supplied.
    MissingToken,
    /// The header is malformed, or the token fails signature or expiry checks.
    InvalidToken,
    /// Access denied for a reason other than the above.
    Unauthorized,
    /// The password hasher failed (for example, no randomness for the salt).
    BcryptError,
    /// Signing a token failed.
    JwtError,
    /// A token subject claim is not a decimal user id.
    ParseError,
}

/// The status code each authentication failure is surfaced as.
pub open spec fn auth_status_of(e: AuthError) -> u16 {
    match e {
        AuthError::InvalidCredentials => 401,
        AuthError::UserAlreadyExists => 400,
        AuthError::UserNotFound => 404,
        AuthError::MissingToken => 401,
        AuthError::InvalidToken => 401,
        AuthError::Unauthorized => 401,
        AuthError::BcryptError => 500,
        AuthError::JwtError => 500,
        AuthError::ParseError => 500,
    }
}

/// The wording each authentication failure is surfaced with.
pub open spec fn auth_message_of(e: AuthError) -> Seq<char> {
    match e {
        AuthError::InvalidCredentials => "Invalid credentials"@,
        AuthError::UserAlreadyExists => "User already exists"@,
        AuthError::UserNotFound => "User not found"@,
        AuthError::MissingToken => "Token is missing"@,
        AuthError::InvalidToken => "Invalid token"@,
        AuthError::Unauthorized => "Unauthorized"@,
        AuthError::BcryptError => "Password hashing error"@,
        AuthError::JwtError => "JWT error"@,
        AuthError::ParseError => "Parse error"@,
    }
}

impl AuthError {
    /// The message body this error is surfaced with.
    pub fn message(&self) -> (m: &'static str)
        ensures
            m@ == auth_message_of(*self),
    {
        match self {
            AuthError::InvalidCredentials => "Invalid credentials",
            AuthError::UserAlreadyExists => "User already exists",
            AuthError::UserNotFound => "User not found",
            AuthError::MissingToken => "Token is missing",
            AuthError::InvalidToken => "Invalid token",
            AuthError::Unauthorized => "Unauthorized",
            AuthError::BcryptError => "Password hashing error",
            AuthError::JwtError => "JWT error",
            AuthError::ParseError => "Parse error",
        }
    }

    /// The HTTP status this error maps to.
    pub fn status_code(&self) -> (code: u16)
        ensures
            code == auth_status_of(*self),
    {
        match self {
            AuthError::InvalidCredentials => 401,
            AuthError::UserAlreadyExists => 400,
            AuthError::UserNotFound => 404,
            AuthError::MissingToken => 401,
            AuthError::InvalidToken => 401,
            AuthError::Unauthorized => 401,
            AuthError::BcryptError => 500,
            AuthError::JwtError => 500,
            AuthError::ParseError => 500,
        }
    }
}

/// Failures of upload, listing, retrieval, and deletion.
#[derive(Clone, Copy, Debug, PartialEq, Eq, Structural)]
pub enum FileError {
    /// No file with the requested id is owned by the requesting user.
    FileNotFound,
    /// Access denied.
    Unauthorized,
    /// The declared media type is not acceptable.
    InvalidFileType,
    /// The cumulative upload size went past the ceiling.
    FileTooLarge,
    /// The multipart request carried no filename-bearing field.
    NoFileUploaded,
}

/// The status code each file-domain failure is surfaced as.
pub open spec fn file_status_of(e: FileError) -> u16 {
    match e {
        FileError::FileNotFound => 404,
        FileError::Unauthorized => 401,
        FileError::InvalidFileType => 400,
        FileError::FileTooLarge => 413,
        FileError::NoFileUploaded => 400,
    }
}

/// The wording each file-domain failure is surfaced with.
pub open spec fn file_message_of(e: FileError) -> Seq<char> {
    match e {
        FileError::FileNotFound => "File not found"@,
        FileError::Unauthorized => "Unauthorized access"@,
        FileError::InvalidFileType => "Invalid file type"@,
        FileError::FileTooLarge => "File too large"@,
        FileError::NoFileUploaded => "No file uploaded"@,
    }
}

impl FileError {
    /// The message body this error is surfaced with.
    pub fn message(&self) -> (m: &'static str)
        ensures
            m@ == file_message_of(*self),
    {
        match self {
            FileError::FileNotFound => "File not found",
            FileError::Unauthorized => "Unauthorized access",
            FileError::InvalidFileType => "Invalid file type",
            FileError::FileTooLarge => "File too large",
            FileError::NoFileUploaded => "No file uploaded",
        }
    }

    /// The HTTP status this error maps to.
    pub fn status_code(&self) -> (code: u16)
        ensures
            code == file_status_of(*self),
    {
        match self {
            FileError::FileNotFound => 404,
            FileError::Unauthorized => 401,
            FileError::InvalidFileType => 400,
            FileError::FileTooLarge => 413,
            FileError::NoFileUploaded => 400,
        }
    }
}

} // verus!
