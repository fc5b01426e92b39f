//! The credential store and the auth gate: registration with uniqueness
//! enforcement, credential verification, and resolution of bearer tokens to
//! stored users.

use vstd::prelude::*;

use crate::config::Config;
use crate::decimal::all_digits;
use crate::decimal::dec_digits;
use crate::decimal::dec_value;
use crate::decimal::parse_u64;
use crate::errors::AuthError;
use crate::hashing::bcrypt_check;
use crate::hashing::hash_password;
use crate::hashing::password_verifies;
use crate::hashing::verify_password;
use crate::models::CreateUserRequest;
use crate::models::LoginRequest;
use crate::models::LoginResponse;
use crate::models::User;
use crate::models::UserResponse;
use crate::models::user_response_of;
use crate::token::issue_token;
use crate::token::issued_token;
use crate::token::jwt_decode;
use crate::token::verify_token;

verus! {

/// The user table: rows are appended at registration and never modified or
/// removed; ids, usernames and emails are pairwise distinct.
#[derive(Debug)]
pub struct UserStore {
    pub users: Vec<User>,
    pub next_id: u64,
}

/// Whether some stored user already uses this email.
pub open spec fn email_taken(users: Seq<User>, email: Seq<char>) -> bool {
    exists|i: int| 0 <= i < users.len() && #[trigger] users[i].email@ == email
}

/// Whether some stored user already uses this username.
pub open spec fn username_taken(users: Seq<User>, username: Seq<char>) -> bool {
    exists|i: int| 0 <= i < users.len() && #[trigger] users[i].username@ == username
}

/// The first stored user with this email, if any. Under `UserStore::wf` it is
/// the only one.
pub open spec fn lookup_email(users: Seq<User>, email: Seq<char>) -> Option<User>
    decreases users.len(),
{
    if users.len() == 0 {
        None
    } else if users.first().email@ == email {
        Some(users.first())
    } else {
        lookup_email(users.drop_first(), email)
    }
}

/// The first stored user with this id, if any. Under `UserStore::wf` it is
/// the only one.
pub open spec fn lookup_user_id(users: Seq<User>, id: u64) -> Option<User>
    decreases users.len(),
{
    if users.len() == 0 {
        None
    } else if users.first().id == id {
        Some(users.first())
    } else {
        lookup_user_id(users.drop_first(), id)
    }
}

impl UserStore {
    /// Store invariant: ids were assigned from the counter and never repeat,
    /// and usernames and emails are unique.
    pub open spec fn wf(self) -> bool {
        &&& 1 <= self.next_id
        &&& forall|i: int|
            0 <= i < self.users@.len() ==> 1 <= (#[trigger] self.users@[i].id) < self.next_id
        &&& forall|i: int, j: int|
            0 <= i < j < self.users@.len() ==> #[trigger] self.users@[i].id != #[trigger] self.users@[j].id
        &&& forall|i: int, j: int|
            0 <= i < j < self.users@.len() ==> #[trigger] self.users@[i].email@ != #[trigger] self.users@[j].email@
        &&& forall|i: int, j: int|
            0 <= i < j < self.users@.len() ==> #[trigger] self.users@[i].username@
                != #[trigger] self.users@[j].username@
    }

    /// An empty user table.
    pub fn new() -> (s: Self)
        ensures
            s.wf(),
            s.users@.len() == 0,
            s.next_id == 1,
    {
        UserStore { users: Vec::new(), next_id: 1 }
    }
}

/// Whether a stored user matches this email and this password verifies
/// against their hash: exactly the acceptance condition of `login_user`.
pub open spec fn credentials_accepted(users: Seq<User>, email: Seq<char>, password: Seq<char>) -> bool {
    match lookup_email(users, email) {
        Some(u) => password_verifies(password, u.password@),
        None => false,
    }
}

/// How a login attempt fails, if it does: an unknown email and a
/// non-verifying password collapse into the same `InvalidCredentials`.
pub open spec fn login_failure(users: Seq<User>, email: Seq<char>, password: Seq<char>) -> Option<
    AuthError,
> {
    match lookup_email(users, email) {
        None => Some(AuthError::InvalidCredentials),
        Some(u) => match bcrypt_check(password, u.password@) {
            Some(true) => None,
            Some(false) => Some(AuthError::InvalidCredentials),
            None => Some(AuthError::BcryptError),
        },
    }
}

/// Whether some stored user uses this email or this username.
fn email_or_username_taken(users: &Vec<User>, email: &String, username: &String) -> (b: bool)
    ensures
        b == (email_taken(users@, email@) || username_taken(users@, username@)),
{
    let n = users.len();
    let mut i: usize = 0;
    while i < n
        invariant
            0 <= i <= n,
            n == users@.len(),
            forall|k: int| 0 <= k < i ==> (#[trigger] users@[k].email@) != email@,
            forall|k: int| 0 <= k < i ==> (#[trigger] users@[k].username@) != username@,
        decreases n - i,
    {
        if users[i].email == *email || users[i].username == *username {
            return true;
        }
        i = i + 1;
    }
    false
}

/// The first stored user with this email, cloned out of the table.
fn find_by_email(users: &Vec<User>, email: &String) -> (r: Option<User>)
    ensures
        match r {
            Some(u) => lookup_email(users@, email@) == Some(u),
            None => lookup_email(users@, email@) is None,
        },
{
    let n = users.len();
    let mut i: usize = 0;
    proof {
        assert(users@.skip(0) =~= users@);
    }
    while i < n
        invariant
            0 <= i <= n,
            n == users@.len(),
            lookup_email(users@, email@) == lookup_email(users@.skip(i as int), email@),
        decreases n - i,
    {
        proof {
            assert(users@.skip(i as int).first() == users@[i as int]);
            assert(users@.skip(i as int).drop_first() =~= users@.skip(i + 1));
        }
        if users[i].email == *email {
            return Some(users[i].clone());
        }
        i = i + 1;
    }
    proof {
        assert(users@.skip(n as int) =~= Seq::<User>::empty());
    }
    None
}

/// The first stored user with this id, cloned out of the table.
fn find_by_id(users: &Vec<User>, id: u64) -> (r: Option<User>)
    ensures
        match r {
            Some(u) => lookup_user_id(users@, id) == Some(u),
            None => lookup_user_id(users@, id) is None,
        },
{
    let n = users.len();
    let mut i: usize = 0;
    proof {
        assert(users@.skip(0) =~= users@);
    }
    while i < n
        invariant
            0 <= i <= n,
            n == users@.len(),
            lookup_user_id(users@, id) == lookup_user_id(users@.skip(i as int), id),
        decreases n - i,
    {
        proof {
            assert(users@.skip(i as int).first() == users@[i as int]);
            assert(users@.skip(i as int).drop_first() =~= users@.skip(i + 1));
        }
        if users[i].id == id {
            return Some(users[i].clone());
        }
        i = i + 1;
    }
    proof {
        assert(users@.skip(n as int) =~= Seq::<User>::empty());
    }
    None
}

/// Registers a new user: fails with `UserAlreadyExists` when a stored row
/// already has the same email or username; otherwise hashes the password with
/// a fresh random salt, appends the row under a fresh id, and returns the
/// public projection.
pub fn register_user(store: &mut UserStore, user_data: CreateUserRequest, now: u64) -> (r: Result<
    UserResponse,
    AuthError,
>)
    requires
        old(store).wf(),
        old(store).next_id < u64::MAX,
    ensures
        final(store).wf(),
        match r {
            Ok(resp) => {
                &&& !email_taken(old(store).users@, user_data.email@)
                &&& !username_taken(old(store).users@, user_data.username@)
                &&& final(store).users@.len() == old(store).users@.len() + 1
                &&& final(store).users@.drop_last() == old(store).users@
                &&& final(store).users@.last() == (User {
                    id: old(store).next_id,
                    username: user_data.username,
                    email: user_data.email,
                    password: final(store).users@.last().password,
                    created_at: now,
                    updated_at: now,
                })
                &&& password_verifies(user_data.password@, final(store).users@.last().password@)
                &&& final(store).next_id == old(store).next_id + 1
                &&& resp == user_response_of(final(store).users@.last())
            },
            Err(e) => {
                &&& *final(store) == *old(store)
                &&& (e == AuthError::UserAlreadyExists <==> (email_taken(
                    old(store).users@,
                    user_data.email@,
                ) || username_taken(old(store).users@, user_data.username@)))
                &&& (e == AuthError::UserAlreadyExists || e == AuthError::BcryptError)
            },
        },
{
    if email_or_username_taken(&store.users, &user_data.email, &user_data.username) {
        return Err(AuthError::UserAlreadyExists);
    }
    let hashed = match hash_password(user_data.password.as_str()) {
        Ok(h) => h,
        Err(e) => {
            return Err(e);
        },
    };
    let id = store.next_id;
    let user = User {
        id,
        username: user_data.username,
        email: user_data.email,
        password: hashed,
        created_at: now,
        updated_at: now,
    };
    let resp = UserResponse { id, username: user.username.clone(), email: user.email.clone() };
    store.users.push(user);
    store.next_id = id + 1;
    Ok(resp)
}

/// Verifies credentials and issues a session token: succeeds exactly when a
/// stored row matches the email and the password verifies against its hash;
/// an unknown email and a wrong password fail with the same
/// `InvalidCredentials`; on success the token carries the user's id as its
/// decimal subject, issued at `now` and expiring `jwt_max_age` minutes later.
pub fn login_user(config: &Config, store: &UserStore, login_data: LoginRequest, now: u64) -> (r:
    Result<LoginResponse, AuthError>)
    requires
        store.wf(),
        1 <= config.jwt_max_age,
        now + config.jwt_max_age * 60 <= u64::MAX,
    ensures
        r is Ok <==> login_failure(store.users@, login_data.email@, login_data.password@) is None,
        match r {
            Ok(resp) => {
                &&& credentials_accepted(store.users@, login_data.email@, login_data.password@)
                &&& resp.user == user_response_of(
                    lookup_email(store.users@, login_data.email@).unwrap(),
                )
                &&& issued_token(
                    resp.token@,
                    dec_digits(resp.user.id as int),
                    now,
                    (now + config.jwt_max_age * 60) as u64,
                    config.jwt_secret@,
                )
            },
            Err(e) => login_failure(store.users@, login_data.email@, login_data.password@) == Some(
                e,
            ),
        },
{
    let user = match find_by_email(&store.users, &login_data.email) {
        Some(u) => u,
        None => {
            return Err(AuthError::InvalidCredentials);
        },
    };
    let ok = match verify_password(login_data.password.as_str(), user.password.as_str()) {
        Ok(b) => b,
        Err(e) => {
            return Err(e);
        },
    };
    if !ok {
        return Err(AuthError::InvalidCredentials);
    }
    let token = match issue_token(config, user.id, now) {
        Ok(t) => t,
        Err(e) => {
            return Err(e);
        },
    };
    let resp_user = UserResponse::from(user);
    Ok(LoginResponse { token, user: resp_user })
}

/// The Authorization header of a request, as the transport hands it over:
/// absent, present but not valid text, or its textual value.
#[derive(Debug)]
pub enum AuthHeader {
    Missing,
    NotText,
    Value(String),
}

/// Whether `s` starts with the bearer scheme prefix.
pub open spec fn bearer_prefix(s: Seq<char>) -> bool {
    s.len() >= 7 && s.subrange(0, 7) == "Bearer "@
}

/// What token extraction yields for a header: the text after the scheme
/// prefix, `MissingToken` for an absent header, `InvalidToken` for one that
/// is not text or not bearer-shaped.
pub open spec fn extracted_token(h: AuthHeader) -> Result<Seq<char>, AuthError> {
    match h {
        AuthHeader::Missing => Err(AuthError::MissingToken),
        AuthHeader::NotText => Err(AuthError::InvalidToken),
        AuthHeader::Value(s) => if bearer_prefix(s@) {
            Ok(s@.skip(7))
        } else {
            Err(AuthError::InvalidToken)
        },
    }
}

/// Pulls the bearer token out of the Authorization header.
pub fn extract_token(header: &AuthHeader) -> (r: Result<String, AuthError>)
    ensures
        match (r, extracted_token(*header)) {
            (Ok(t), Ok(s)) => t@ == s,
            (Err(e1), Err(e2)) => e1 == e2,
            _ => false,
        },
{
    let s = match header {
        AuthHeader::Missing => {
            return Err(AuthError::MissingToken);
        },
        AuthHeader::NotText => {
            return Err(AuthError::InvalidToken);
        },
        AuthHeader::Value(s) => s,
    };
    proof {
        reveal_strlit("Bearer ");
    }
    let p = s.as_str();
    let n = p.unicode_len();
    if n < 7 {
        return Err(AuthError::InvalidToken);
    }
    let is_bearer = p.get_char(0) == 'B' && p.get_char(1) == 'e' && p.get_char(2) == 'a'
        && p.get_char(3) == 'r' && p.get_char(4) == 'e' && p.get_char(5) == 'r' && p.get_char(6)
        == ' ';
    proof {
        assert(s@.subrange(0, 7)[0] == s@[0]);
        assert(s@.subrange(0, 7)[1] == s@[1]);
        assert(s@.subrange(0, 7)[2] == s@[2]);
        assert(s@.subrange(0, 7)[3] == s@[3]);
        assert(s@.subrange(0, 7)[4] == s@[4]);
        assert(s@.subrange(0, 7)[5] == s@[5]);
        assert(s@.subrange(0, 7)[6] == s@[6]);
    }
    if !is_bearer {
        proof {
            assert(!bearer_prefix(s@));
        }
        return Err(AuthError::InvalidToken);
    }
    proof {
        assert(s@.subrange(0, 7) =~= "Bearer "@);
    }
    let tok = p.substring_char(7, n);
    proof {
        assert(tok@ =~= s@.skip(7));
    }
    Ok(tok.to_owned())
}

/// The outcome of resolving a bearer header against the user table at time
/// `now`: every protected operation calls this first, and the resolved user's
/// id is the sole authorization scope afterwards.
pub open spec fn resolve_outcome(
    users: Seq<User>,
    secret: Seq<char>,
    header: AuthHeader,
    now: u64,
) -> Result<User, AuthError> {
    match extracted_token(header) {
        Err(e) => Err(e),
        Ok(token) => match jwt_decode(token, secret) {
            None => Err(AuthError::InvalidToken),
            Some((sub, iat, exp)) => if now > exp {
                Err(AuthError::InvalidToken)
            } else if !(sub.len() > 0 && all_digits(sub) && dec_value(sub) <= u64::MAX) {
                Err(AuthError::ParseError)
            } else {
                match lookup_user_id(users, dec_value(sub) as u64) {
                    None => Err(AuthError::UserNotFound),
                    Some(u) => Ok(u),
                }
            },
        },
    }
}

/// Resolves the Authorization header to the stored user it names: extracts
/// the bearer token, verifies signature and expiry, parses the decimal
/// subject claim, and looks the id up in the user table.
pub fn get_current_user(header: &AuthHeader, config: &Config, store: &UserStore, now: u64) -> (r:
    Result<User, AuthError>)
    requires
        store.wf(),
    ensures
        r == resolve_outcome(store.users@, config.jwt_secret@, *header, now),
{
    let token = match extract_token(header) {
        Ok(t) => t,
        Err(e) => {
            return Err(e);
        },
    };
    let claims = match verify_token(config, token.as_str(), now) {
        Ok(c) => c,
        Err(e) => {
            return Err(e);
        },
    };
    let user_id = match parse_u64(claims.sub.as_str()) {
        Some(n) => n,
        None => {
            return Err(AuthError::ParseError);
        },
    };
    match find_by_id(&store.users, user_id) {
        Some(u) => Ok(u),
        None => Err(AuthError::UserNotFound),
    }
}

/// Carrier of the configuration for authenticated routes.
#[derive(Debug)]
pub struct AuthMiddleware {
    pub config: Config,
}

impl AuthMiddleware {
    pub fn new(config: Config) -> (s: Self)
        ensures
            s.config == config,
    {
        AuthMiddleware { config }
    }
}

/// There is a user with this email exactly when `lookup_email` finds one, and
/// what it finds carries that email.
pub proof fn lemma_lookup_email_taken(users: Seq<User>, email: Seq<char>)
    ensures
        lookup_email(users, email) is Some <==> email_taken(users, email),
        lookup_email(users, email) matches Some(u) ==> u.email@ == email,
    decreases users.len(),
{
    if users.len() > 0 {
        let rest = users.drop_first();
        lemma_lookup_email_taken(rest, email);
        if users.first().email@ == email {
            assert(users[0].email@ == email);
            assert(email_taken(users, email));
        } else {
            if lookup_email(rest, email) is Some {
                let j = choose|j: int| 0 <= j < rest.len() && #[trigger] rest[j].email@ == email;
                assert(users[j + 1].email@ == email);
                assert(email_taken(users, email));
            } else {
                if email_taken(users, email) {
                    let i = choose|i: int|
                        0 <= i < users.len() && #[trigger] users[i].email@ == email;
                    assert(i != 0);
                    assert(rest[i - 1] == users[i]);
                    assert(email_taken(rest, email));
                    assert(false);
                }
            }
        }
    }
}

/// Appending a row changes an email lookup only when the email was absent
/// before and the new row carries it.
pub proof fn lemma_lookup_email_push(users: Seq<User>, u: User, email: Seq<char>)
    ensures
        lookup_email(users.push(u), email) == (if lookup_email(users, email) is Some {
            lookup_email(users, email)
        } else if u.email@ == email {
            Some(u)
        } else {
            None::<User>
        }),
    decreases users.len(),
{
    let s = users.push(u);
    if users.len() == 0 {
        assert(s.first() == u);
        assert(s.drop_first() =~= Seq::<User>::empty());
    } else {
        assert(s.first() == users.first());
        assert(s.drop_first() =~= users.drop_first().push(u));
        lemma_lookup_email_push(users.drop_first(), u, email);
    }
}

/// Registering a fresh (username, email) pair and then logging in with the
/// same email and password succeeds: the appended row is the one found by
/// email, and its stored hash verifies the registered password.
pub proof fn lemma_register_then_login(
    old_users: Seq<User>,
    new_users: Seq<User>,
    data: CreateUserRequest,
)
    requires
        !email_taken(old_users, data.email@),
        new_users.len() == old_users.len() + 1,
        new_users.drop_last() == old_users,
        new_users.last().email == data.email,
        password_verifies(data.password@, new_users.last().password@),
    ensures
        credentials_accepted(new_users, data.email@, data.password@),
        login_failure(new_users, data.email@, data.password@) is None,
{
    assert(new_users =~= old_users.push(new_users.last()));
    lemma_lookup_email_taken(old_users, data.email@);
    lemma_lookup_email_push(old_users, new_users.last(), data.email@);
}

/// A second registration that reuses a stored email or username hits the
/// uniqueness check: the store reports the pair as taken, so `register_user`
/// fails with `UserAlreadyExists`.
pub proof fn lemma_reregistration_conflict(
    users: Seq<User>,
    j: int,
    email: Seq<char>,
    username: Seq<char>,
)
    requires
        0 <= j < users.len(),
        users[j].email@ == email || users[j].username@ == username,
    ensures
        email_taken(users, email) || username_taken(users, username),
{
    if users[j].email@ == email {
        assert(email_taken(users, email));
    } else {
        assert(username_taken(users, username));
    }
}

/// An unknown email and a known email with a non-verifying password fail the
/// same way: both login attempts report `InvalidCredentials`.
pub proof fn lemma_login_failures_indistinguishable(
    users: Seq<User>,
    email_a: Seq<char>,
    pw_a: Seq<char>,
    email_b: Seq<char>,
    pw_b: Seq<char>,
)
    requires
        lookup_email(users, email_a) is None,
        lookup_email(users, email_b) is Some,
        lookup_email(users, email_b) matches Some(u) ==> bcrypt_check(pw_b, u.password@) == Some(
            false,
        ),
    ensures
        login_failure(users, email_a, pw_a) == Some(AuthError::InvalidCredentials),
        login_failure(users, email_b, pw_b) == Some(AuthError::InvalidCredentials),
{
}

} // verus!
