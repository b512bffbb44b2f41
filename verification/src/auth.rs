//! Accounts and sessions: password hashing and checking, the decisions taken
//! at login and on every authenticated request, and the messages they give.
use vstd::prelude::*;

use crate::config::Config;
use crate::error::{is_bad_request, is_conflict, AppError};
use crate::models::{same_chars, user_is_admin, user_view_of, User, UserView};
use crate::number::dec;
use crate::text::{ends_with, owned, str_ends_with, trim, trim_str};

verus! {

/// The name of the cookie that carries the session token.
pub const COOKIE_NAME: &'static str = "session_token";

/// The credentials sent to log in.
#[derive(Debug, Clone)]
pub struct LoginRequest {
    pub student_id: String,
    pub password: String,
}

/// The answer to a login, or to a request for the current user.
#[derive(Debug, Clone)]
pub struct LoginResponse {
    pub user: UserView,
    pub min_password_length: usize,
}

/// A request to replace the current user's password.
#[derive(Debug, Clone)]
pub struct ChangePasswordRequest {
    pub new_password: String,
    pub confirm_password: String,
}

/// The user on whose behalf a request is handled.
#[derive(Debug, Clone)]
pub struct CurrentUser(pub User);

/// The PHC string that Argon2 with its default parameters gives for a
/// password and a base64 salt, or the text of the error it reports.
pub uninterp spec fn argon2_hash_of(password: Seq<char>, salt: Seq<char>) -> Result<Seq<char>, Seq<char>>;

/// Whether a password matches a stored PHC hash string under Argon2.
pub uninterp spec fn password_matches(hash: Seq<char>, password: Seq<char>) -> bool;

/// A fresh random salt in base64, drawn from the operating system.
///
/// Calls `SaltString::generate` with `OsRng`; nothing is claimed of the salt.
#[verifier::external_body]
fn random_salt() -> String {
    argon2::password_hash::SaltString::generate(&mut rand_core::OsRng).as_str().to_string()
}

/// Hashes a password with Argon2 (default parameters) and the given base64
/// salt, as `SaltString::from_b64` and `PasswordHasher::hash_password` do.
///
/// Claims that the result is a function of the password and the salt, and
/// that the hash it gives verifies the same password, as
/// `PasswordVerifier::verify_password` recomputes it with the parameters,
/// salt and version stored in the hash.
#[verifier::external_body]
fn argon2_hash(password: &str, salt: &str) -> (r: Result<String, String>)
    ensures
        match argon2_hash_of(password@, salt@) {
            Ok(h) => r matches Ok(s) && s@ == h,
            Err(m) => r matches Err(s) && s@ == m,
        },
        r matches Ok(h) ==> password_matches(h@, password@),
{
    let salt = match argon2::password_hash::SaltString::from_b64(salt) {
        Ok(salt) => salt,
        Err(error) => return Err(error.to_string()),
    };
    match argon2::password_hash::PasswordHasher::hash_password(&argon2::Argon2::default(), password.as_bytes(), &salt) {
        Ok(hash) => Ok(hash.to_string()),
        Err(error) => Err(error.to_string()),
    }
}

/// Checks a password against a stored hash: `PasswordHash::new` parses the
/// hash (a hash that does not parse matches nothing) and
/// `PasswordVerifier::verify_password` of `Argon2::default()` checks it.
#[verifier::external_body]
fn argon2_verify(hash: &str, password: &str) -> (b: bool)
    ensures
        b == password_matches(hash@, password@),
{
    match argon2::password_hash::PasswordHash::new(hash) {
        Ok(parsed) => argon2::password_hash::PasswordVerifier::verify_password(
            &argon2::Argon2::default(),
            password.as_bytes(),
            &parsed,
        ).is_ok(),
        Err(_) => false,
    }
}

/// Whether a result carries what Argon2 gave: the hash, or its error as a
/// password error.
pub open spec fn hash_outcome(r: Result<String, AppError>, given: Result<Seq<char>, Seq<char>>) -> bool {
    match given {
        Ok(h) => r matches Ok(s) && s@ == h,
        Err(m) => r matches Err(AppError::Password(s)) && s@ == m,
    }
}

/// Hashes a password with Argon2 and a fresh random salt. The hash it gives
/// verifies the same password.
pub fn hash_password(password: &str) -> (r: Result<String, AppError>)
    ensures
        exists|salt: Seq<char>| hash_outcome(r, #[trigger] argon2_hash_of(password@, salt)),
        r matches Ok(h) ==> password_matches(h@, password@),
{
    let salt = random_salt();
    let r = match argon2_hash(password, salt.as_str()) {
        Ok(hash) => Ok(hash),
        Err(message) => Err(AppError::Password(message)),
    };
    assert(hash_outcome(r, argon2_hash_of(password@, salt@)));
    r
}

/// Whether a password matches a stored hash.
pub fn verify_password(hash: &str, password: &str) -> (b: bool)
    ensures
        b == password_matches(hash@, password@),
{
    argon2_verify(hash, password)
}

/// Allows only administrators.
pub fn ensure_admin(user: &User) -> (r: Result<(), AppError>)
    ensures
        r is Ok <==> user_is_admin(*user),
        r matches Err(e) ==> e is Forbidden,
{
    if user.is_admin() {
        Ok(())
    } else {
        Err(AppError::Forbidden)
    }
}

/// Checks a login attempt for the user found under the given student id.
pub fn check_login(found: &Option<User>, password: &str) -> (r: Result<(), AppError>)
    ensures
        match *found {
            None => r matches Err(AppError::Unauthorized),
            Some(u) => if !password_matches(u.password_hash@, password@) {
                r matches Err(AppError::Unauthorized)
            } else if u.status@ == "banned"@ {
                r is Err && is_conflict(r->Err_0, "账号已被封禁，请联系管理员"@)
            } else {
                r is Ok
            },
        },
{
    match found {
        None => Err(AppError::Unauthorized),
        Some(user) => {
            if !verify_password(user.password_hash.as_str(), password) {
                Err(AppError::Unauthorized)
            } else if same_chars(user.status.as_str(), "banned") {
                Err(crate::error::conflict("账号已被封禁，请联系管理员"))
            } else {
                Ok(())
            }
        },
    }
}

/// The student id of the first administrator: the configured one, trimmed,
/// which must not be empty.
pub fn initial_admin_student_id(config: &Config) -> (r: Result<String, AppError>)
    ensures
        match r {
            Ok(id) => id@ == trim(config.initial_admin_student_id@) && id@.len() > 0,
            Err(e) => trim(config.initial_admin_student_id@).len() == 0
                && is_bad_request(e, "initial_admin_student_id cannot be empty"@),
        },
{
    let id = trim_str(config.initial_admin_student_id.as_str());
    if id.as_str().is_empty() {
        Err(crate::error::bad_request("initial_admin_student_id cannot be empty"))
    } else {
        Ok(id)
    }
}

/// The message given for a new password shorter than `min` characters.
pub open spec fn msg_password_too_short(min: usize) -> Seq<char> {
    "新密码至少需要 "@ + dec(min as nat) + " 个字符"@
}

/// Checks a new password: it has at least `min_length` characters, and the
/// confirmation repeats it.
pub fn validate_new_password(min_length: usize, new_password: &str, confirm_password: &str) -> (r: Result<(), AppError>)
    ensures
        new_password@.len() < min_length ==> r is Err && is_bad_request(r->Err_0, msg_password_too_short(min_length)),
        new_password@.len() >= min_length && new_password@ != confirm_password@ ==> r is Err
            && is_bad_request(r->Err_0, "两次输入的密码不一致"@),
        new_password@.len() >= min_length && new_password@ == confirm_password@ ==> r is Ok,
{
    let count = crate::text::chars_of(new_password).len();
    if count < min_length {
        let mut m = owned("新密码至少需要 ");
        let n = crate::number::dec_string(min_length as u64);
        m.append(n.as_str());
        m.append(" 个字符");
        return Err(AppError::BadRequest(m));
    }
    if !same_chars(new_password, confirm_password) {
        return Err(crate::error::bad_request("两次输入的密码不一致"));
    }
    Ok(())
}

/// Whether a request path is one that a user who must still change their
/// password may use: the current user, the password change and logout.
pub open spec fn allowed_before_password_change(path: Seq<char>) -> bool {
    ends_with(path, "/auth/me"@) || ends_with(path, "/auth/change-password"@) || ends_with(path, "/auth/logout"@)
}

/// Lets an authenticated user's request through, unless the user must first
/// change their password and the path is not one of those that allow it.
pub fn authorize_request(user: &User, path: &str) -> (r: Result<(), AppError>)
    ensures
        r is Ok <==> (!user.must_change_password || allowed_before_password_change(path@)),
        r matches Err(e) ==> is_conflict(e, "首次登录必须先修改密码"@),
{
    if user.must_change_password && !str_ends_with(path, "/auth/me") && !str_ends_with(path, "/auth/change-password")
        && !str_ends_with(path, "/auth/logout") {
        return Err(crate::error::conflict("首次登录必须先修改密码"));
    }
    Ok(())
}

/// A new random session token.
pub fn new_session_token() -> (t: String)
    ensures
        crate::paths::is_uuid_text(t@),
{
    crate::paths::new_uuid()
}

/// The answer that describes a user to the client, with the configured
/// minimum password length.
pub fn login_response(user: &User, config: &Config) -> (r: LoginResponse)
    ensures
        r.user == user_view_of(*user),
        r.min_password_length == config.min_password_length,
{
    LoginResponse { user: UserView::of_user(user), min_password_length: config.min_password_length }
}

} // verus!
