//! The decisions of the administrator API: who may sign in, which account
//! changes, user names, links and orderings are accepted, and how each
//! failure is answered.
use vstd::prelude::*;
use argon2::password_hash::{
    rand_core::OsRng, PasswordHash, PasswordHasher, PasswordVerifier, SaltString,
};
use argon2::Argon2;
use crate::text::{
    chars_contain, chars_of, contains_seq, has_prefix, push_chars, push_lit, starts_with, trim,
    trim_str,
};
use crate::utils::{is_valid_username, valid_username};

verus! {

#[verifier::external_type_specification]
#[verifier::external_body]
pub struct ExSqlxError(sqlx::Error);

/// What can go wrong while serving a request.
pub enum AppError {
    DbError(sqlx::Error),
    InternalError(String),
    BadRequest(String),
    Unauthorized,
    NotFound(String),
}

/// The text of a database error, as its `Display` writes it.  The error is
/// opaque here, so nothing is stated of the text.
#[verifier::external_body]
fn sqlx_error_text(e: &sqlx::Error) -> String {
    e.to_string()
}

impl AppError {
    /// The HTTP status that answers the error.
    pub fn status_code(&self) -> (r: u16)
        ensures
            r == (match self {
                AppError::DbError(_) | AppError::InternalError(_) => 500u16,
                AppError::BadRequest(_) => 400u16,
                AppError::Unauthorized => 401u16,
                AppError::NotFound(_) => 404u16,
            }),
    {
        match self {
            AppError::DbError(_) | AppError::InternalError(_) => 500,
            AppError::BadRequest(_) => 400,
            AppError::Unauthorized => 401,
            AppError::NotFound(_) => 404,
        }
    }

    /// The `error` field of the JSON body that answers the error: the
    /// message, `Unauthorized`, or the database error's own text.
    pub fn body_message(&self) -> (r: String)
        ensures
            match self {
                AppError::InternalError(m) | AppError::BadRequest(m) | AppError::NotFound(m) => r@
                    == m@,
                AppError::Unauthorized => r@ == "Unauthorized"@,
                AppError::DbError(_) => true,
            },
    {
        match self {
            AppError::DbError(e) => sqlx_error_text(e),
            AppError::InternalError(m) | AppError::BadRequest(m) | AppError::NotFound(m) => m.clone(),
            AppError::Unauthorized => "Unauthorized".to_string(),
        }
    }

    /// The error described for logs and humans.
    pub fn message(&self) -> (r: String)
        ensures
            match self {
                AppError::DbError(_) => starts_with(r@, "Database error: "@),
                AppError::InternalError(m) => r@ == "Internal server error: "@ + m@,
                AppError::BadRequest(m) => r@ == "Invalid input: "@ + m@,
                AppError::Unauthorized => r@ == "Unauthorized"@,
                AppError::NotFound(m) => r@ == "Not found: "@ + m@,
            },
    {
        let mut s = String::new();
        match self {
            AppError::DbError(e) => {
                push_lit(&mut s, "Database error: ");
                let detail = sqlx_error_text(e);
                let ghost head = s@;
                let d = chars_of(detail.as_str());
                push_chars(&mut s, d.as_slice());
                proof {
                    reveal_strlit("Database error: ");
                    assert(s@.subrange(0, head.len() as int) =~= head);
                }
            },
            AppError::InternalError(m) => {
                push_lit(&mut s, "Internal server error: ");
                push_lit(&mut s, m.as_str());
            },
            AppError::BadRequest(m) => {
                push_lit(&mut s, "Invalid input: ");
                push_lit(&mut s, m.as_str());
            },
            AppError::Unauthorized => {
                push_lit(&mut s, "Unauthorized");
            },
            AppError::NotFound(m) => {
                push_lit(&mut s, "Not found: ");
                push_lit(&mut s, m.as_str());
            },
        }
        s
    }

    /// The error a failed session operation gives, from the session
    /// error's text.
    pub fn session_failure(detail: &str) -> (r: AppError)
        ensures
            r matches AppError::InternalError(m) && m@ == "Session error: "@ + detail@,
    {
        let mut s = String::new();
        push_lit(&mut s, "Session error: ");
        push_lit(&mut s, detail);
        AppError::InternalError(s)
    }
}

impl From<sqlx::Error> for AppError {
    fn from(e: sqlx::Error) -> (r: AppError) {
        AppError::DbError(e)
    }
}

impl vstd::std_specs::convert::FromSpecImpl<sqlx::Error> for AppError {
    open spec fn obeys_from_spec() -> bool {
        true
    }

    open spec fn from_spec(v: sqlx::Error) -> AppError {
        AppError::DbError(v)
    }
}

/// Credentials sent to sign in.
pub struct LoginPayload {
    pub username: String,
    pub password: String,
}

/// New credentials for the signed-in administrator.
pub struct UpdateAccountPayload {
    pub new_username: String,
    pub new_password: String,
}

/// A user to create.
pub struct CreateUserPayload {
    pub username: String,
}

/// The links to store for a user.
pub struct LinksPayload {
    pub links: Vec<String>,
}

/// The users in their new order.
pub struct OrderPayload {
    pub order: Vec<String>,
}

/// What Argon2 (default parameters) answers for `password` against the
/// stored PHC text `phc`: `None` when `phc` is no PHC string, else whether
/// the password matches.
pub uninterp spec fn argon2_outcome(password: Seq<char>, phc: Seq<char>) -> Option<bool>;

/// Checks a password with `Argon2::verify_password` against the PHC string
/// `phc` (parsed by `PasswordHash::new`).  The contract names the outcome,
/// a function of the two texts alone.
#[verifier::external_body]
fn verify_argon2(password: &str, phc: &str) -> (r: Option<bool>)
    ensures
        r == argon2_outcome(password@, phc@),
{
    match PasswordHash::new(phc) {
        Ok(parsed) => Some(Argon2::default().verify_password(password.as_bytes(), &parsed).is_ok()),
        Err(_) => None,
    }
}

/// What `Argon2::default().hash_password` gives for `password` and the
/// B64 salt `salt`: the PHC string, or the error's text.
pub uninterp spec fn argon2_hash_result(password: Seq<char>, salt: Seq<char>) -> Result<
    Seq<char>,
    Seq<char>,
>;

/// The views of a result of texts.
pub open spec fn text_result(r: Result<String, String>) -> Result<Seq<char>, Seq<char>> {
    match r {
        Ok(s) => Ok(s@),
        Err(e) => Err(e@),
    }
}

/// Hashes `password` with Argon2 (default parameters) and the B64 salt
/// `salt` (read by `SaltString::from_b64`), giving the PHC string.  The
/// contract names the result and states what the crate documents: the PHC
/// string it gives verifies the same password.
#[verifier::external_body]
fn argon2_hash(password: &str, salt: &str) -> (r: Result<String, String>)
    ensures
        text_result(r) == argon2_hash_result(password@, salt@),
        r matches Ok(h) ==> argon2_outcome(password@, h@) == Some(true),
{
    let salt = SaltString::from_b64(salt).map_err(|e| e.to_string())?;
    Argon2::default().hash_password(password.as_bytes(), &salt).map(|h| h.to_string()).map_err(
        |e| e.to_string(),
    )
}

/// A fresh random salt from `SaltString::generate` with the operating
/// system's generator, in B64.  Nothing is stated of it.
#[verifier::external_body]
fn new_salt() -> String {
    SaltString::generate(&mut OsRng).as_str().to_string()
}

/// How a sign-in is answered, given what Argon2 said of the password:
/// a malformed stored hash is an internal error, a mismatch is refused.
pub open spec fn login_answer(outcome: Option<bool>) -> Result<(), Option<Seq<char>>> {
    match outcome {
        None => Err(Some("Auth error"@)),
        Some(true) => Ok(()),
        Some(false) => Err(None),
    }
}

/// The error that `login_answer` describes: `Some(m)` is an internal error
/// with message `m`, `None` is `Unauthorized`.
pub open spec fn is_answer(r: Result<(), AppError>, a: Result<(), Option<Seq<char>>>) -> bool {
    match a {
        Ok(()) => r is Ok,
        Err(None) => r matches Err(AppError::Unauthorized),
        Err(Some(m)) => r matches Err(AppError::InternalError(t)) && t@ == m,
    }
}

/// Answers a sign-in from what Argon2 said of the password.
pub fn login_verdict(outcome: Option<bool>) -> (r: Result<(), AppError>)
    ensures
        is_answer(r, login_answer(outcome)),
{
    match outcome {
        None => Err(AppError::InternalError("Auth error".to_string())),
        Some(true) => Ok(()),
        Some(false) => Err(AppError::Unauthorized),
    }
}

/// How a sign-in is answered for the stored hash of the named
/// administrator (`None` when there is no such administrator).
pub open spec fn sign_in_answer(stored_hash: Option<Seq<char>>, password: Seq<char>) -> Result<
    (),
    Option<Seq<char>>,
> {
    match stored_hash {
        None => Err(None),
        Some(h) => login_answer(argon2_outcome(password, h)),
    }
}

/// Checks a sign-in: an unknown administrator and a wrong password are
/// refused alike.
pub fn check_login(stored_hash: Option<&str>, password: &str) -> (r: Result<(), AppError>)
    ensures
        is_answer(
            r,
            sign_in_answer(
                match stored_hash {
                    Some(h) => Some(h@),
                    None => None,
                },
                password@,
            ),
        ),
{
    match stored_hash {
        None => Err(AppError::Unauthorized),
        Some(h) => {
            let outcome = verify_argon2(password, h);
            login_verdict(outcome)
        },
    }
}

/// The signed-in administrator, or `Unauthorized`.
pub fn signed_in(user: Option<String>) -> (r: Result<String, AppError>)
    ensures
        match user {
            Some(u) => r matches Ok(v) && v@ == u@,
            None => r matches Err(AppError::Unauthorized),
        },
{
    match user {
        Some(u) => Ok(u),
        None => Err(AppError::Unauthorized),
    }
}

/// The new name and password of an account update, trimmed; refused when
/// the name is not a valid user name or the password is blank.
pub open spec fn account_update_answer(new_username: Seq<char>, new_password: Seq<char>) -> Result<
    (Seq<char>, Seq<char>),
    Seq<char>,
> {
    let u = trim(new_username);
    let p = trim(new_password);
    if !valid_username(u) {
        Err("Invalid username format"@)
    } else if p.len() == 0 {
        Err("Password cannot be empty"@)
    } else {
        Ok((u, p))
    }
}

/// Checks an account update, giving the trimmed name and password.
pub fn account_update_input(payload: &UpdateAccountPayload) -> (r: Result<(String, String), AppError>)
    ensures
        match account_update_answer(payload.new_username@, payload.new_password@) {
            Ok((u, p)) => r matches Ok(v) && v.0@ == u && v.1@ == p,
            Err(m) => r matches Err(AppError::BadRequest(t)) && t@ == m,
        },
{
    let new_username = trim_str(payload.new_username.as_str());
    let new_password = trim_str(payload.new_password.as_str());
    if !is_valid_username(new_username.as_str()) {
        return Err(AppError::BadRequest("Invalid username format".to_string()));
    }
    if new_password.as_str().unicode_len() == 0 {
        return Err(AppError::BadRequest("Password cannot be empty".to_string()));
    }
    Ok((new_username, new_password))
}

/// What hashing `password` with `salt` answers: the PHC string the hash
/// gives, or an internal error with `Hash error: ` and the crate's message.
pub open spec fn hash_answer(password: Seq<char>, salt: Seq<char>, r: Result<String, AppError>) -> bool {
    match argon2_hash_result(password, salt) {
        Ok(h) => r matches Ok(s) && s@ == h,
        Err(t) => r matches Err(AppError::InternalError(m)) && m@ == "Hash error: "@ + t,
    }
}

/// Hashes a password with a given B64 salt (see `hash_answer`); a hash it
/// gives lets the same password sign in.
pub fn hash_password_with_salt(password: &str, salt: &str) -> (r: Result<String, AppError>)
    ensures
        hash_answer(password@, salt@, r),
        r matches Ok(h) ==> sign_in_answer(Some(h@), password@) == Ok::<(), Option<Seq<char>>>(()),
{
    match argon2_hash(password, salt) {
        Ok(h) => Ok(h),
        Err(t) => {
            let mut s = String::new();
            push_lit(&mut s, "Hash error: ");
            push_lit(&mut s, t.as_str());
            proof {
                reveal_strlit("Hash error: ");
            }
            Err(AppError::InternalError(s))
        },
    }
}

/// Hashes a new password with a fresh random salt: the answer is that of
/// `hash_password_with_salt` for the salt drawn, so a hash it gives lets the
/// same password sign in.
pub fn hash_new_password(password: &str) -> (r: Result<String, AppError>)
    ensures
        exists|salt: Seq<char>| hash_answer(password@, salt, r),
        r matches Ok(h) ==> sign_in_answer(Some(h@), password@) == Ok::<
            (),
            Option<Seq<char>>,
        >(()),
        r matches Err(e) ==> e matches AppError::InternalError(m) && starts_with(m@, "Hash error: "@),
{
    let salt = new_salt();
    let r = hash_password_with_salt(password, salt.as_str());
    proof {
        reveal_strlit("Hash error: ");
        if r is Err {
            if let Err(t) = argon2_hash_result(password@, salt@) {
                let m = r->Err_0->InternalError_0;
                assert(m@.subrange(0, "Hash error: "@.len() as int) =~= "Hash error: "@);
            }
        }
    }
    r
}

/// The user name to create: the trimmed name when it is valid.
pub fn new_user_name(payload: &CreateUserPayload) -> (r: Result<String, AppError>)
    ensures
        valid_username(trim(payload.username@)) ==> (r matches Ok(u) && u@ == trim(
            payload.username@,
        )),
        !valid_username(trim(payload.username@)) ==> (r matches Err(AppError::BadRequest(m)) && m@
            == "Invalid username"@),
{
    let username = trim_str(payload.username.as_str());
    if !is_valid_username(username.as_str()) {
        return Err(AppError::BadRequest("Invalid username".to_string()));
    }
    Ok(username)
}

/// The rank of a new user: one past the largest rank, or 1 when there is
/// none.
pub fn next_rank(max_rank: Option<i64>) -> (r: i64)
    requires
        match max_rank {
            Some(m) => m < i64::MAX,
            None => true,
        },
    ensures
        r == match max_rank {
            Some(m) => m + 1,
            None => 1,
        },
{
    match max_rank {
        Some(m) => m + 1,
        None => 1,
    }
}

/// What `str::to_lowercase` gives.
pub uninterp spec fn unicode_lowercase(s: Seq<char>) -> Seq<char>;

/// `str::to_lowercase`, whose result the contract names.
#[verifier::external_body]
fn lowercase(s: &str) -> (r: String)
    ensures
        r@ == unicode_lowercase(s@),
{
    s.to_lowercase()
}

/// Whether a database error's text tells of a user name taken already.
pub open spec fn names_duplicate(message: Seq<char>) -> bool {
    let m = unicode_lowercase(message);
    contains_seq(m, "duplicate key value"@) || contains_seq(m, "unique constraint"@)
}

/// Whether a database error's text tells of a user name taken already.
pub fn is_duplicate_failure(message: &str) -> (r: bool)
    ensures
        r == names_duplicate(message@),
{
    let m = chars_of(lowercase(message).as_str());
    let a = chars_of("duplicate key value");
    let b = chars_of("unique constraint");
    chars_contain(m.as_slice(), a.as_slice()) || chars_contain(m.as_slice(), b.as_slice())
}

/// Answers a failed insertion of a user from the error and its text: a
/// text that tells of a taken name gives the bad request `user exists`,
/// any other the database error itself.
pub fn insert_failure_for(e: sqlx::Error, text: &str) -> (r: AppError)
    ensures
        names_duplicate(text@) ==> (r matches AppError::BadRequest(m) && m@ == "user exists"@),
        !names_duplicate(text@) ==> r == AppError::DbError(e),
{
    if is_duplicate_failure(text) {
        AppError::BadRequest("user exists".to_string())
    } else {
        AppError::DbError(e)
    }
}

/// Answers a failed insertion of a user by the error's text (see
/// `insert_failure_for`).  The text is the error's `Display`, of which
/// nothing is stated here.
pub fn insert_failure(e: sqlx::Error) -> (r: AppError)
    ensures
        r matches AppError::BadRequest(m) && m@ == "user exists"@ || r == AppError::DbError(e),
{
    let text = sqlx_error_text(&e);
    insert_failure_for(e, text.as_str())
}

/// Answers a deletion by the number of rows it removed.
pub fn deletion_outcome(rows_affected: u64) -> (r: Result<&'static str, AppError>)
    ensures
        rows_affected > 0 ==> (r matches Ok(s) && s@ == "deleted"@),
        rows_affected == 0 ==> (r matches Err(AppError::NotFound(m)) && m@ == "not found"@),
{
    if rows_affected > 0 {
        proof {
            reveal_strlit("deleted");
        }
        Ok("deleted")
    } else {
        Err(AppError::NotFound("not found".to_string()))
    }
}

/// The stored value of a user, or `user not found`.
pub fn found_user<T>(row: Option<T>) -> (r: Result<T, AppError>)
    ensures
        match row {
            Some(v) => r == Ok::<T, AppError>(v),
            None => r matches Err(AppError::NotFound(m)) && m@ == "user not found"@,
        },
{
    match row {
        Some(v) => Ok(v),
        None => Err(AppError::NotFound("user not found".to_string())),
    }
}

/// A link the API accepts: it starts with `http://` or `https://`.
pub open spec fn http_link(link: Seq<char>) -> bool {
    starts_with(link, "http://"@) || starts_with(link, "https://"@)
}

/// Checks the links to store: the first one that is no HTTP(S) link is
/// refused by name.
pub fn validate_links(links: &[String]) -> (r: Result<(), AppError>)
    ensures
        (forall|i: int| 0 <= i < links@.len() ==> http_link(#[trigger] links@[i]@)) ==> r is Ok,
        r is Err ==> exists|i: int|
            0 <= i < links@.len() && !http_link(#[trigger] links@[i]@) && (forall|j: int|
                0 <= j < i ==> http_link(#[trigger] links@[j]@)) && (r matches Err(
                AppError::BadRequest(m),
            ) && m@ == "Invalid URL: "@ + links@[i]@),
        r is Ok ==> forall|i: int| 0 <= i < links@.len() ==> http_link(#[trigger] links@[i]@),
{
    let n = links.len();
    let mut i: usize = 0;
    while i < n
        invariant
            n == links@.len(),
            i <= n,
            forall|j: int| 0 <= j < i ==> http_link(#[trigger] links@[j]@),
        decreases n - i,
    {
        let cs = chars_of(links[i].as_str());
        if !has_prefix(cs.as_slice(), "http://") && !has_prefix(cs.as_slice(), "https://") {
            let mut m = String::new();
            push_lit(&mut m, "Invalid URL: ");
            push_lit(&mut m, links[i].as_str());
            let ghost k = i as int;
            assert(!http_link(links@[k]@));
            return Err(AppError::BadRequest(m));
        }
        i = i + 1;
    }
    Ok(())
}

/// Answers an update of a user's links by the number of rows it changed.
pub fn links_update_outcome(rows_affected: u64, links: Vec<String>) -> (r: Result<
    Vec<String>,
    AppError,
>)
    ensures
        rows_affected > 0 ==> r == Ok::<Vec<String>, AppError>(links),
        rows_affected == 0 ==> (r matches Err(AppError::NotFound(m)) && m@ == "user not found"@),
{
    if rows_affected > 0 {
        Ok(links)
    } else {
        Err(AppError::NotFound("user not found".to_string()))
    }
}

/// The rank each user gets from a new order: its position.  An empty order
/// is refused.
pub fn order_ranks(order: &[String]) -> (r: Result<Vec<(String, i64)>, AppError>)
    requires
        order@.len() <= i64::MAX,
    ensures
        order@.len() == 0 ==> (r matches Err(AppError::BadRequest(m)) && m@
            == "order must not be empty"@),
        order@.len() > 0 ==> (r matches Ok(v) && v@.len() == order@.len() && forall|i: int|
            0 <= i < v@.len() ==> (#[trigger] v@[i]).0@ == order@[i]@ && v@[i].1 == i),
{
    let n = order.len();
    if n == 0 {
        return Err(AppError::BadRequest("order must not be empty".to_string()));
    }
    let mut v: Vec<(String, i64)> = Vec::new();
    let mut i: usize = 0;
    while i < n
        invariant
            n == order@.len(),
            n <= i64::MAX,
            i <= n,
            v@.len() == i,
            forall|k: int| 0 <= k < i ==> (#[trigger] v@[k]).0@ == order@[k]@ && v@[k].1 == k,
        decreases n - i,
    {
        v.push((order[i].clone(), i as i64));
        i = i + 1;
    }
    Ok(v)
}

/// How loudly a finished request is logged.
#[derive(Clone, Copy, Debug, PartialEq, Eq)]
pub enum LogLevel {
    Debug,
    Info,
    Warn,
    Error,
}

/// The level for a finished request: server errors are errors, client
/// errors warnings, health checks debug output, the rest information.
pub fn request_log_level(status: u16, path: &str) -> (r: LogLevel)
    ensures
        r == (if 500 <= status <= 599 {
            LogLevel::Error
        } else if 400 <= status <= 499 {
            LogLevel::Warn
        } else if path@ == "/healthz"@ {
            LogLevel::Debug
        } else {
            LogLevel::Info
        }),
{
    if 500 <= status && status <= 599 {
        LogLevel::Error
    } else if 400 <= status && status <= 499 {
        LogLevel::Warn
    } else if crate::text::is_lit(chars_of(path).as_slice(), "/healthz") {
        LogLevel::Debug
    } else {
        LogLevel::Info
    }
}

/// The user agent to log: the header's text, else `-`.
pub fn user_agent_or_dash(header: Option<&str>) -> (r: String)
    ensures
        match header {
            Some(h) => r@ == h@,
            None => r@ == "-"@,
        },
{
    match header {
        Some(h) => h.to_string(),
        None => "-".to_string(),
    }
}

} // verus!
