use vstd::prelude::*;
use crate::session::SessionData;
use vstd::string::StringSliceAdditionalSpecFns;

verus! {

/// Usernames shorter than this many characters are refused.
pub const MIN_USERNAME_LEN: usize = 3;

/// Characters in a freshly drawn salt.
pub const SALT_LEN: usize = 16;

/// The longest password argon2 hashes, in bytes.
pub const MAX_PASSWORD_BYTES: usize = 0xFFFF_FFFF;

/// Where a client goes after signing up.
pub const HOME_PATH: &'static str = "/";

/// Where a client goes after logging in.
pub const MEAL_BUILDER_PATH: &'static str = "/meal_builder";

/// Shown for every failed login, whatever the reason.
pub const INVALID_LOGIN: &'static str = "Invalid username or password";

/// The PHC string that argon2 (default parameters) makes of a password and a salt.
pub uninterp spec fn phc_hash_of(password: Seq<char>, salt: Seq<char>) -> Seq<char>;

/// Whether argon2 accepts a password against a stored PHC string.
pub uninterp spec fn password_matches(password: Seq<char>, phc: Seq<char>) -> bool;

/// A salt as `prepare_sign_up` draws it: sixteen letters and digits.
pub open spec fn drawn_salt(salt: Seq<char>) -> bool {
    salt.len() == SALT_LEN && forall|i: int| 0 <= i < salt.len() ==> alphanumeric(#[trigger] salt[i])
}

/// Relies on argon2's `SaltString::from_b64` and `PasswordHasher::hash_password`
/// (with `Argon2::default()`): when both succeed, the PHC string of the hash,
/// which depends on the password and the salt alone, and against which
/// `verify_password` accepts that password. Sixteen letters and digits pass
/// the salt check and decode to twelve bytes (argon2 asks for at least
/// eight), so with such a salt hashing fails only for a password longer than
/// argon2's `MAX_PWD_LEN`.
#[verifier::external_body]
fn argon2_hash(password: &str, salt: &str) -> (r: Option<String>)
    ensures
        r is Some ==> r->0@ == phc_hash_of(password@, salt@),
        r is Some ==> password_matches(password@, r->0@),
        drawn_salt(salt@) && password.spec_bytes().len() <= MAX_PASSWORD_BYTES ==> r is Some,
{
    let salt = argon2::password_hash::SaltString::from_b64(salt).ok()?;
    let hasher = argon2::Argon2::default();
    argon2::PasswordHasher::hash_password(&hasher, password.as_bytes(), &salt)
        .ok()
        .map(|h| h.to_string())
}

/// Relies on argon2's `PasswordHash::new` and `PasswordVerifier::verify_password`
/// (with `Argon2::default()`): whether the password hashes to the stored PHC
/// string; a string that does not parse (the empty one among them) accepts none.
#[verifier::external_body]
fn argon2_verify(password: &str, phc: &str) -> (r: bool)
    ensures
        r == password_matches(password@, phc@),
        phc@.len() == 0 ==> !r,
{
    match argon2::PasswordHash::new(phc) {
        Ok(h) => argon2::PasswordVerifier::verify_password(
            &argon2::Argon2::default(),
            password.as_bytes(),
            &h,
        ).is_ok(),
        Err(_) => false,
    }
}

/// A letter A–Z, a–z or a digit.
pub open spec fn alphanumeric(c: char) -> bool {
    ('A' <= c && c <= 'Z') || ('a' <= c && c <= 'z') || ('0' <= c && c <= '9')
}

/// Relies on rand's `thread_rng` sampled through the `Alphanumeric`
/// distribution, which yields bytes of `A-Za-z0-9`: `len` random characters.
#[verifier::external_body]
fn random_alphanumeric(len: usize) -> (r: String)
    ensures
        r@.len() == len,
        forall|i: int| 0 <= i < r@.len() ==> alphanumeric(#[trigger] r@[i]),
{
    rand::Rng::sample_iter(rand::thread_rng(), &rand::distributions::Alphanumeric)
        .take(len)
        .map(char::from)
        .collect()
}

/// A stored user; its password is a PHC hash string.
#[derive(Clone, Debug)]
pub struct User {
    pub id: i32,
    pub username: String,
    pub password: String,
}

/// A user to be stored; the store assigns its identifier.
#[derive(Clone, Debug)]
pub struct NewUser {
    pub username: String,
    pub password: String,
}

/// Why a sign-up failed.
#[derive(Clone, Copy, Debug, PartialEq, Eq, Structural)]
pub enum SignUpError {
    /// The username has fewer than three characters; the store is not asked.
    UsernameTooShort,
    /// The store already holds a user of that name.
    UsernameTaken,
    /// The store failed otherwise.
    Database,
    /// Anything else, such as a password that could not be hashed.
    Unknown,
}

/// What the store answered to an insertion.
#[derive(Clone, Copy, Debug, PartialEq, Eq, Structural)]
pub enum StoreError {
    /// A uniqueness constraint refused the row.
    UniqueViolation,
    /// Another error reported by the database.
    OtherDatabase,
    /// An error that did not come from the database.
    Other,
}

pub open spec fn message_of(e: SignUpError) -> Seq<char> {
    match e {
        SignUpError::UsernameTooShort => "Username has to be at least 3 characters long"@,
        SignUpError::UsernameTaken => "Username already exists"@,
        SignUpError::Database => "An database error occured"@,
        SignUpError::Unknown => "An unknown error occured"@,
    }
}

impl SignUpError {
    /// The message shown under the sign-up form.
    pub fn message(&self) -> (r: &'static str)
        ensures
            r@ == message_of(*self),
    {
        match self {
            SignUpError::UsernameTooShort => "Username has to be at least 3 characters long",
            SignUpError::UsernameTaken => "Username already exists",
            SignUpError::Database => "An database error occured",
            SignUpError::Unknown => "An unknown error occured",
        }
    }
}

/// Refuses a username shorter than three characters.
pub fn check_username(username: &str) -> (r: Result<(), SignUpError>)
    ensures
        r is Err <==> username@.len() < MIN_USERNAME_LEN,
        r is Err ==> r->Err_0 == SignUpError::UsernameTooShort,
{
    if username.unicode_len() < MIN_USERNAME_LEN {
        Err(SignUpError::UsernameTooShort)
    } else {
        Ok(())
    }
}

/// The user that a sign-up stores once its password has been hashed (or
/// `None` when hashing failed).
pub fn user_from_hash(username: &str, hash: Option<String>) -> (r: Result<NewUser, SignUpError>)
    ensures
        username@.len() < MIN_USERNAME_LEN ==> r == Err::<NewUser, SignUpError>(
            SignUpError::UsernameTooShort,
        ),
        username@.len() >= MIN_USERNAME_LEN && hash is None ==> r == Err::<NewUser, SignUpError>(
            SignUpError::Unknown,
        ),
        username@.len() >= MIN_USERNAME_LEN && hash is Some ==> (r is Ok && r->Ok_0.username@
            == username@ && r->Ok_0.password == hash->0),
{
    check_username(username)?;
    match hash {
        Some(h) => Ok(NewUser { username: String::from_str(username), password: h }),
        None => Err(SignUpError::Unknown),
    }
}

/// Prepares a sign-up with a given salt: checks the username, then hashes the
/// password with argon2.
pub fn new_user_with_salt(username: &str, password: &str, salt: &str) -> (r: Result<
    NewUser,
    SignUpError,
>)
    ensures
        username@.len() < MIN_USERNAME_LEN ==> r == Err::<NewUser, SignUpError>(
            SignUpError::UsernameTooShort,
        ),
        username@.len() >= MIN_USERNAME_LEN ==> (r is Ok || r == Err::<NewUser, SignUpError>(
            SignUpError::Unknown,
        )),
        username@.len() >= MIN_USERNAME_LEN && drawn_salt(salt@) && password.spec_bytes().len()
            <= MAX_PASSWORD_BYTES ==> r is Ok,
        r is Ok ==> r->Ok_0.username@ == username@ && r->Ok_0.password@ == phc_hash_of(
            password@,
            salt@,
        ) && password_matches(password@, r->Ok_0.password@),
{
    if username.unicode_len() < MIN_USERNAME_LEN {
        return Err(SignUpError::UsernameTooShort);
    }
    user_from_hash(username, argon2_hash(password, salt))
}

/// Prepares a sign-up: a short username is refused before anything else is
/// done; otherwise a fresh random salt of sixteen letters and digits is drawn
/// and the password hashed with it.
pub fn prepare_sign_up(username: &str, password: &str) -> (r: Result<NewUser, SignUpError>)
    ensures
        username@.len() < MIN_USERNAME_LEN ==> r == Err::<NewUser, SignUpError>(
            SignUpError::UsernameTooShort,
        ),
        username@.len() >= MIN_USERNAME_LEN ==> (r is Ok || r == Err::<NewUser, SignUpError>(
            SignUpError::Unknown,
        )),
        username@.len() >= MIN_USERNAME_LEN && password.spec_bytes().len() <= MAX_PASSWORD_BYTES
            ==> r is Ok,
        r is Ok ==> r->Ok_0.username@ == username@ && password_matches(
            password@,
            r->Ok_0.password@,
        ) && exists|salt: Seq<char>|
            drawn_salt(salt) && r->Ok_0.password@ == phc_hash_of(password@, salt),
{
    if username.unicode_len() < MIN_USERNAME_LEN {
        return Err(SignUpError::UsernameTooShort);
    }
    let salt = random_alphanumeric(SALT_LEN);
    assert(drawn_salt(salt@));
    new_user_with_salt(username, password, salt.as_str())
}

/// What a sign-up answers once the store has been asked to insert the user.
pub fn sign_up_result(stored: Result<(), StoreError>) -> (r: Result<(), SignUpError>)
    ensures
        stored is Ok ==> r is Ok,
        stored == Err::<(), StoreError>(StoreError::UniqueViolation) ==> r == Err::<
            (),
            SignUpError,
        >(SignUpError::UsernameTaken),
        stored == Err::<(), StoreError>(StoreError::OtherDatabase) ==> r == Err::<(), SignUpError>(
            SignUpError::Database,
        ),
        stored == Err::<(), StoreError>(StoreError::Other) ==> r == Err::<(), SignUpError>(
            SignUpError::Unknown,
        ),
{
    match stored {
        Ok(()) => Ok(()),
        Err(StoreError::UniqueViolation) => Err(SignUpError::UsernameTaken),
        Err(StoreError::OtherDatabase) => Err(SignUpError::Database),
        Err(StoreError::Other) => Err(SignUpError::Unknown),
    }
}

/// What a login leads to.
#[derive(Clone, Copy, Debug, PartialEq, Eq, Structural)]
pub enum LoginOutcome {
    /// Store this session and send the client to the meal builder.
    LoggedIn(SessionData),
    /// Show the sign-in form again with the one generic message.
    Rejected,
}

/// The outcome of a login for the user found under the given name (if any),
/// given whether the password was accepted.
pub open spec fn login_value(user_id: Option<i32>, password_ok: bool) -> LoginOutcome {
    match user_id {
        Some(id) => if password_ok {
            LoginOutcome::LoggedIn(SessionData { authenticated: true, user_id: id })
        } else {
            LoginOutcome::Rejected
        },
        None => LoginOutcome::Rejected,
    }
}

pub open spec fn user_id_of(user: Option<&User>) -> Option<i32> {
    match user {
        Some(u) => Some(u.id),
        None => None,
    }
}

/// Decides a login once the password has been checked against the user found.
pub fn login_outcome(user: Option<&User>, password_ok: bool) -> (r: LoginOutcome)
    ensures
        r == login_value(user_id_of(user), password_ok),
{
    match user {
        Some(u) => if password_ok {
            LoginOutcome::LoggedIn(SessionData::new(true, u.id))
        } else {
            LoginOutcome::Rejected
        },
        None => LoginOutcome::Rejected,
    }
}

/// A login: the user found under the given name (if any) is logged in when
/// argon2 accepts the password against the stored hash.
pub fn login(user: Option<&User>, password: &str) -> (r: LoginOutcome)
    ensures
        r == login_value(
            user_id_of(user),
            user is Some && password_matches(password@, user->0.password@),
        ),
{
    match user {
        Some(u) => login_outcome(user, argon2_verify(password, u.password.as_str())),
        None => login_outcome(None, false),
    }
}

/// A wrong password and an unknown username give the same answer, so a
/// failed login does not tell whether the username exists; the right password
/// logs the user in with both session fields set.
pub proof fn lemma_login_gives_nothing_away(id: i32, any: bool)
    ensures
        login_value(Some(id), false) == login_value(None, any),
        login_value(Some(id), true) == LoginOutcome::LoggedIn(
            SessionData { authenticated: true, user_id: id },
        ),
{
}

/// A user stored by a sign-up logs in afterwards with the same password:
/// both session fields are set for that user.
pub proof fn lemma_sign_up_then_login(id: i32, password: Seq<char>, stored: Seq<char>)
    requires
        password_matches(password, stored),
    ensures
        login_value(Some(id), password_matches(password, stored)) == LoginOutcome::LoggedIn(
            SessionData { authenticated: true, user_id: id },
        ),
{
}

} // verus!
