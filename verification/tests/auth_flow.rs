use admin_files::auth::AuthHeader;
use admin_files::auth::UserStore;
use admin_files::auth::get_current_user;
use admin_files::auth::login_user;
use admin_files::auth::register_user;
use admin_files::config::Config;
use admin_files::errors::AuthError;
use admin_files::models::CreateUserRequest;
use admin_files::models::LoginRequest;

fn test_config(secret: &str) -> Config {
    Config {
        database_url: String::from("sqlite:admin_files.db"),
        jwt_secret: String::from(secret),
        jwt_expires_in: String::from("60m"),
        jwt_max_age: 60,
        host: String::from("127.0.0.1"),
        port: 8080,
    }
}

fn request(username: &str, email: &str, password: &str) -> CreateUserRequest {
    CreateUserRequest {
        username: String::from(username),
        email: String::from(email),
        password: String::from(password),
    }
}

const NOW: u64 = 1_700_000_000;

#[test]
fn register_then_login_succeeds() {
    let mut store = UserStore::new();
    let resp = register_user(&mut store, request("alice", "alice@example.com", "hunter2"), NOW)
        .expect("fresh registration succeeds");
    assert_eq!(resp.id, 1);
    assert_eq!(resp.username, "alice");
    assert_eq!(resp.email, "alice@example.com");

    let config = test_config("test-secret");
    let login = LoginRequest {
        email: String::from("alice@example.com"),
        password: String::from("hunter2"),
    };
    let out = login_user(&config, &store, login, NOW).expect("correct credentials log in");
    assert_eq!(out.user.id, 1);
    assert_eq!(out.user.username, "alice");
    assert!(!out.token.is_empty());
}

#[test]
fn register_two_distinct_users() {
    let mut store = UserStore::new();
    let a = register_user(&mut store, request("alice", "a@example.com", "pw-a"), NOW).unwrap();
    let b = register_user(&mut store, request("bob", "b@example.com", "pw-b"), NOW).unwrap();
    assert_eq!(a.id, 1);
    assert_eq!(b.id, 2);
    assert_eq!(store.users.len(), 2);
}

#[test]
fn duplicate_email_rejected() {
    let mut store = UserStore::new();
    register_user(&mut store, request("alice", "same@example.com", "pw"), NOW).unwrap();
    let r = register_user(&mut store, request("bob", "same@example.com", "pw2"), NOW);
    assert_eq!(r.unwrap_err(), AuthError::UserAlreadyExists);
    assert_eq!(store.users.len(), 1);
}

#[test]
fn duplicate_username_rejected() {
    let mut store = UserStore::new();
    register_user(&mut store, request("alice", "one@example.com", "pw"), NOW).unwrap();
    let r = register_user(&mut store, request("alice", "two@example.com", "pw2"), NOW);
    assert_eq!(r.unwrap_err(), AuthError::UserAlreadyExists);
}

#[test]
fn login_failures_are_indistinguishable() {
    let mut store = UserStore::new();
    register_user(&mut store, request("alice", "alice@example.com", "right"), NOW).unwrap();
    let config = test_config("test-secret");

    let wrong_password = login_user(
        &config,
        &store,
        LoginRequest {
            email: String::from("alice@example.com"),
            password: String::from("wrong"),
        },
        NOW,
    )
    .unwrap_err();
    let unknown_email = login_user(
        &config,
        &store,
        LoginRequest {
            email: String::from("nobody@example.com"),
            password: String::from("right"),
        },
        NOW,
    )
    .unwrap_err();
    assert_eq!(wrong_password, AuthError::InvalidCredentials);
    assert_eq!(unknown_email, AuthError::InvalidCredentials);
    assert_eq!(wrong_password, unknown_email);
}

#[test]
fn bearer_token_resolves_back_to_user() {
    let mut store = UserStore::new();
    register_user(&mut store, request("alice", "alice@example.com", "pw"), NOW).unwrap();
    let config = test_config("test-secret");
    let login = login_user(
        &config,
        &store,
        LoginRequest {
            email: String::from("alice@example.com"),
            password: String::from("pw"),
        },
        NOW,
    )
    .unwrap();

    let header = AuthHeader::Value(format!("Bearer {}", login.token));
    let user = get_current_user(&header, &config, &store, NOW + 10).unwrap();
    assert_eq!(user.id, 1);
    assert_eq!(user.email, "alice@example.com");
}

#[test]
fn missing_header_is_missing_token() {
    let store = UserStore::new();
    let config = test_config("test-secret");
    let r = get_current_user(&AuthHeader::Missing, &config, &store, NOW);
    assert_eq!(r.unwrap_err(), AuthError::MissingToken);
}

#[test]
fn non_text_header_is_invalid_token() {
    let store = UserStore::new();
    let config = test_config("test-secret");
    let r = get_current_user(&AuthHeader::NotText, &config, &store, NOW);
    assert_eq!(r.unwrap_err(), AuthError::InvalidToken);
}

#[test]
fn non_bearer_header_is_invalid_token() {
    let store = UserStore::new();
    let config = test_config("test-secret");
    let header = AuthHeader::Value(String::from("Token abc"));
    let r = get_current_user(&header, &config, &store, NOW);
    assert_eq!(r.unwrap_err(), AuthError::InvalidToken);
}

#[test]
fn garbage_bearer_token_is_invalid() {
    let store = UserStore::new();
    let config = test_config("test-secret");
    let header = AuthHeader::Value(String::from("Bearer not.a.token"));
    let r = get_current_user(&header, &config, &store, NOW);
    assert_eq!(r.unwrap_err(), AuthError::InvalidToken);
}

#[test]
fn token_for_deleted_user_is_user_not_found() {
    let mut store = UserStore::new();
    register_user(&mut store, request("alice", "alice@example.com", "pw"), NOW).unwrap();
    let config = test_config("test-secret");
    let login = login_user(
        &config,
        &store,
        LoginRequest {
            email: String::from("alice@example.com"),
            password: String::from("pw"),
        },
        NOW,
    )
    .unwrap();

    let empty = UserStore::new();
    let header = AuthHeader::Value(format!("Bearer {}", login.token));
    let r = get_current_user(&header, &config, &empty, NOW);
    assert_eq!(r.unwrap_err(), AuthError::UserNotFound);
}

#[test]
fn auth_error_messages() {
    assert_eq!(AuthError::InvalidCredentials.message(), "Invalid credentials");
    assert_eq!(AuthError::UserAlreadyExists.message(), "User already exists");
    assert_eq!(AuthError::UserNotFound.message(), "User not found");
    assert_eq!(AuthError::MissingToken.message(), "Token is missing");
    assert_eq!(AuthError::InvalidToken.message(), "Invalid token");
    assert_eq!(AuthError::Unauthorized.message(), "Unauthorized");
    assert_eq!(AuthError::BcryptError.message(), "Password hashing error");
    assert_eq!(AuthError::JwtError.message(), "JWT error");
    assert_eq!(AuthError::ParseError.message(), "Parse error");
}

#[test]
fn auth_error_status_codes() {
    assert_eq!(AuthError::InvalidCredentials.status_code(), 401);
    assert_eq!(AuthError::UserAlreadyExists.status_code(), 400);
    assert_eq!(AuthError::UserNotFound.status_code(), 404);
    assert_eq!(AuthError::MissingToken.status_code(), 401);
    assert_eq!(AuthError::InvalidToken.status_code(), 401);
    assert_eq!(AuthError::Unauthorized.status_code(), 401);
    assert_eq!(AuthError::BcryptError.status_code(), 500);
    assert_eq!(AuthError::JwtError.status_code(), 500);
    assert_eq!(AuthError::ParseError.status_code(), 500);
}
