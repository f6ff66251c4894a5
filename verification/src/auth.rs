//! Dashboard authentication: signed session tokens, the decision of the
//! authentication middleware, the bearer token of the event endpoint, and login.
use vstd::prelude::*;
use vstd::string::{StrSliceExecFns, StringExecFns};

use hmac::Mac;

use crate::clock::unix_time_reading;
use crate::text::{chars_of, decimal_string, decimal_text, lemma_decimal_has_no_dot, lemma_decimal_text_injective};

verus! {

broadcast use vstd::string::group_string_axioms;

/// The name of the session cookie.
pub const COOKIE_NAME: &'static str = "analytics_session";

/// The dashboard's credentials: a bcrypt hash of the password and the key
/// that signs session tokens.
#[derive(Debug, Clone)]
pub struct AuthConfig {
    pub password_hash: String,
    pub cookie_secret: Vec<u8>,
}

/// The login form.
#[derive(Debug, Clone)]
pub struct LoginForm {
    pub password: String,
}

/// The HMAC-SHA256 tag of `message` under `key`, as the `hmac` and `sha2`
/// crates compute it.
pub uninterp spec fn hmac_sha256(key: Seq<u8>, message: Seq<u8>) -> Seq<u8>;

/// Calls `Hmac::<Sha256>::new_from_slice(key)`, `update(message)` and
/// `finalize().into_bytes()`. Claimed: the tag is `hmac_sha256(key, message)`
/// and has 32 bytes (SHA-256's output size). HMAC takes a key of any length,
/// so the construction never fails.
#[verifier::external_body]
fn hmac_sha256_tag(key: &[u8], message: &[u8]) -> (tag: Vec<u8>)
    ensures
        tag@ == hmac_sha256(key@, message@),
        tag@.len() == 32,
{
    let mut mac = hmac::Hmac::<sha2::Sha256>::new_from_slice(key).expect("HMAC can take key of any size");
    mac.update(message);
    mac.finalize().into_bytes().to_vec()
}

/// The lowercase hex digit for `n` (0 to 15).
pub open spec fn hex_digit(n: int) -> char {
    if n < 10 {
        (('0' as int) + n) as char
    } else {
        (('a' as int) + n - 10) as char
    }
}

/// Lowercase hex of a byte string: two digits per byte, high half first.
pub open spec fn hex_lower(bytes: Seq<u8>) -> Seq<char>
    decreases bytes.len(),
{
    if bytes.len() == 0 {
        Seq::empty()
    } else {
        hex_lower(bytes.drop_last()) + seq![
            hex_digit((bytes.last() / 16) as int),
            hex_digit((bytes.last() % 16) as int),
        ]
    }
}

/// Calls `hex::encode`. Claimed: the lowercase hex of the bytes, two digits per
/// byte, high half first (as the hex crate's source writes it with
/// `b"0123456789abcdef"`).
#[verifier::external_body]
fn hex_encode(bytes: &[u8]) -> (s: String)
    ensures
        s@ == hex_lower(bytes@),
{
    hex::encode(bytes)
}

/// Calls `chrono::Utc::now().timestamp()`: the current Unix time in seconds.
/// Claimed only that the value is a reading of the clock; which time it is
/// depends on the clock.
#[verifier::external_body]
fn unix_now() -> (t: i64)
    ensures
        unix_time_reading(t as int),
{
    chrono::Utc::now().timestamp()
}

/// The signature of a session token's timestamp text.
pub open spec fn token_signature(timestamp_text: Seq<char>, secret: Seq<u8>) -> Seq<char> {
    hex_lower(hmac_sha256(secret, vstd::utf8::encode_utf8(timestamp_text)))
}

/// The session token issued at Unix time `timestamp`: its decimal text, a dot,
/// and the hex HMAC-SHA256 of that text under `secret`.
pub open spec fn session_token_text(timestamp: int, secret: Seq<u8>) -> Seq<char> {
    decimal_text(timestamp) + seq!['.'] + token_signature(decimal_text(timestamp), secret)
}

/// `i` is the position of the first dot in `s`.
pub open spec fn is_first_dot(s: Seq<char>, i: int) -> bool {
    &&& 0 <= i < s.len()
    &&& s[i] == '.'
    &&& forall|k: int| 0 <= k < i ==> s[k] != '.'
}

/// A token is accepted when it holds a dot and what follows the first dot is
/// the signature of what comes before it.
pub open spec fn token_accepted(token: Seq<char>, secret: Seq<u8>) -> bool {
    exists|i: int|
        #![trigger is_first_dot(token, i)]
        is_first_dot(token, i) && token.skip(i + 1) == token_signature(token.take(i), secret)
}

/// The session token for Unix time `timestamp`.
pub fn session_token_at(timestamp: i64, secret: &[u8]) -> (token: String)
    ensures
        token@ == session_token_text(timestamp as int, secret@),
{
    let ts = decimal_string(timestamp);
    let tag = hmac_sha256_tag(secret, ts.as_str().as_bytes());
    let signature = hex_encode(tag.as_slice());
    let mut token = ts.clone();
    token.append(".");
    token.append(signature.as_str());
    proof {
        reveal_strlit(".");
    }
    token
}

/// Creates an HMAC-signed session token for the current time: the token for
/// the Unix time that the clock reads in this call.
pub fn create_session_token(secret: &[u8]) -> (token: String)
    ensures
        exists|t: i64|
            #![trigger unix_time_reading(t as int)]
            unix_time_reading(t as int) && token@ == session_token_text(t as int, secret@),
{
    let now = unix_now();
    let token = session_token_at(now, secret);
    token
}

/// Verifies an HMAC-signed session token: the text after the first dot must be
/// the signature of the text before it.
pub fn verify_session_token(token: &str, secret: &[u8]) -> (ok: bool)
    ensures
        ok == token_accepted(token@, secret@),
{
    let cs = chars_of(token);
    let n = cs.len();
    let mut i: usize = 0;
    while i < n && cs[i] != '.'
        invariant
            n == cs@.len(),
            cs@ == token@,
            i <= n,
            forall|k: int| 0 <= k < i ==> cs@[k] != '.',
        decreases n - i,
    {
        i = i + 1;
    }
    if i == n {
        proof {
            assert forall|j: int| !is_first_dot(token@, j) by {
                if is_first_dot(token@, j) {
                    assert(cs@[j] == '.');
                }
            }
        }
        return false;
    }
    let timestamp = token.substring_char(0, i);
    let signature = token.substring_char(i + 1, n);
    let tag = hmac_sha256_tag(secret, timestamp.as_bytes());
    let expected = hex_encode(tag.as_slice());
    let given = String::from_str(signature);
    let ok = expected == given;
    proof {
        assert(is_first_dot(token@, i as int));
        assert(timestamp@ =~= token@.take(i as int));
        assert(signature@ =~= token@.skip(i + 1));
        assert forall|j: int| is_first_dot(token@, j) implies j == i by {
            if j < i {
                assert(cs@[j] != '.');
            } else if j > i {
                assert(token@[i as int] == '.');
            }
        }
    }
    ok
}

proof fn lemma_token_first_dot(timestamp: int, secret: Seq<u8>)
    ensures
        is_first_dot(session_token_text(timestamp, secret), decimal_text(timestamp).len() as int),
        session_token_text(timestamp, secret).take(decimal_text(timestamp).len() as int) == decimal_text(timestamp),
{
    let ts = decimal_text(timestamp);
    let token = session_token_text(timestamp, secret);
    let i = ts.len() as int;
    lemma_decimal_has_no_dot(timestamp);
    assert(token[i] == '.');
    assert forall|k: int| 0 <= k < i implies token[k] != '.' by {
        assert(token[k] == ts[k]);
        assert(ts.contains(ts[k]));
    }
    assert(token.take(i) =~= ts);
}

/// A token issued for any time verifies under the secret it was signed with.
pub proof fn lemma_session_token_roundtrip(timestamp: int, secret: Seq<u8>)
    ensures
        token_accepted(session_token_text(timestamp, secret), secret),
{
    let ts = decimal_text(timestamp);
    let token = session_token_text(timestamp, secret);
    let i = ts.len() as int;
    lemma_token_first_dot(timestamp, secret);
    assert(is_first_dot(token, i));
    assert(token.skip(i + 1) =~= token_signature(ts, secret));
}

/// A token names the second it was issued: what comes before its first dot is
/// the decimal text of its Unix time, so tokens issued at different times
/// differ, under any secrets.
pub proof fn lemma_token_times_distinct(t1: int, t2: int, secret1: Seq<u8>, secret2: Seq<u8>)
    ensures
        session_token_text(t1, secret1) == session_token_text(t2, secret2) ==> t1 == t2,
{
    let a = session_token_text(t1, secret1);
    let b = session_token_text(t2, secret2);
    if a == b {
        let i = decimal_text(t1).len() as int;
        let j = decimal_text(t2).len() as int;
        lemma_token_first_dot(t1, secret1);
        lemma_token_first_dot(t2, secret2);
        if i < j {
            assert(b[i] == '.');
        } else if j < i {
            assert(a[j] == '.');
        }
        assert(decimal_text(t1) == decimal_text(t2));
        lemma_decimal_text_injective(t1, t2);
    }
}

/// `prefix` begins `text`.
pub open spec fn starts_with(text: Seq<char>, prefix: Seq<char>) -> bool {
    prefix.len() <= text.len() && text.take(prefix.len() as int) == prefix
}

fn has_prefix(text: &Vec<char>, prefix: &str) -> (b: bool)
    ensures
        b == starts_with(text@, prefix@),
{
    let p = chars_of(prefix);
    if p.len() > text.len() {
        return false;
    }
    let n = p.len();
    for k in 0..n
        invariant
            n == p@.len(),
            n <= text@.len(),
            p@ == prefix@,
            forall|m: int| 0 <= m < k ==> text@[m] == p@[m],
    {
        if text[k] != p[k] {
            assert(text@.take(n as int)[k as int] != prefix@[k as int]);
            return false;
        }
    }
    assert(text@.take(n as int) =~= prefix@);
    true
}

/// What the authentication middleware does with a request.
#[derive(Debug, Clone, Copy, PartialEq, Eq, Structural)]
pub enum AuthDecision {
    /// The session is valid: the request goes on.
    Proceed,
    /// An API request without a valid session: `401 Unauthorized`.
    Unauthorized,
    /// A page request without a valid session: redirect to the login page.
    RedirectToLogin,
}

/// The middleware's decision: go on with a valid session cookie; otherwise
/// answer 401 for paths under `/api/` and redirect to the login page for the rest.
pub open spec fn auth_decision_for(cookie: Option<Seq<char>>, secret: Seq<u8>, path: Seq<char>) -> AuthDecision {
    if cookie matches Some(c) && token_accepted(c, secret) {
        AuthDecision::Proceed
    } else if starts_with(path, "/api/"@) {
        AuthDecision::Unauthorized
    } else {
        AuthDecision::RedirectToLogin
    }
}

/// Decides a request from its session cookie (if any) and its path.
pub fn auth_decision(session_cookie: Option<&str>, secret: &[u8], path: &str) -> (d: AuthDecision)
    ensures
        d == auth_decision_for(
            match session_cookie {
                Some(c) => Some(c@),
                None => None,
            },
            secret@,
            path@,
        ),
{
    match session_cookie {
        Some(c) => {
            if verify_session_token(c, secret) {
                return AuthDecision::Proceed;
            }
        },
        None => {},
    }
    let p = chars_of(path);
    if has_prefix(&p, "/api/") {
        AuthDecision::Unauthorized
    } else {
        AuthDecision::RedirectToLogin
    }
}

/// Why the event endpoint refused a request (all answered with 401).
#[derive(Debug, Clone, Copy, PartialEq, Eq, Structural)]
pub enum TokenError {
    MissingHeader,
    InvalidFormat,
    InvalidToken,
}

impl TokenError {
    /// The text of the 401 answer.
    pub fn message(&self) -> (m: &'static str)
        ensures
            m@ == match self {
                TokenError::MissingHeader => "Missing Authorization header"@,
                TokenError::InvalidFormat => "Invalid Authorization format"@,
                TokenError::InvalidToken => "Invalid token"@,
            },
    {
        match self {
            TokenError::MissingHeader => "Missing Authorization header",
            TokenError::InvalidFormat => "Invalid Authorization format",
            TokenError::InvalidToken => "Invalid token",
        }
    }
}

/// The event endpoint's check of its `Authorization` header: with no token
/// configured everything passes; otherwise the header must be `Bearer ` and the
/// token.
pub open spec fn bearer_check(header: Option<Seq<char>>, expected: Option<Seq<char>>) -> Result<(), TokenError> {
    match expected {
        None => Ok(()),
        Some(e) => match header {
            None => Err(TokenError::MissingHeader),
            Some(h) => if !starts_with(h, "Bearer "@) {
                Err(TokenError::InvalidFormat)
            } else if h.skip(7) != e {
                Err(TokenError::InvalidToken)
            } else {
                Ok(())
            },
        },
    }
}

/// Checks the `Authorization` header of an event (its text, where the header is
/// present and readable as text) against the configured token.
pub fn verify_token(authorization: Option<&str>, expected: &Option<String>) -> (r: Result<(), TokenError>)
    ensures
        r == bearer_check(
            match authorization {
                Some(h) => Some(h@),
                None => None,
            },
            match expected {
                Some(e) => Some(e@),
                None => None,
            },
        ),
{
    let expected = match expected {
        Some(t) => t,
        None => return Ok(()),
    };
    let header = match authorization {
        Some(h) => h,
        None => return Err(TokenError::MissingHeader),
    };
    let hc = chars_of(header);
    if !has_prefix(&hc, "Bearer ") {
        return Err(TokenError::InvalidFormat);
    }
    proof {
        reveal_strlit("Bearer ");
    }
    let token = String::from_str(header.substring_char(7, hc.len()));
    assert(token@ =~= header@.skip(7));
    if token != *expected {
        return Err(TokenError::InvalidToken);
    }
    Ok(())
}

/// What `bcrypt::verify(password, hash)` gives: `Some(true)` for the right
/// password, `Some(false)` for a wrong one, `None` where the hash is malformed.
pub uninterp spec fn bcrypt_verdict(password: Seq<char>, hash: Seq<char>) -> Option<bool>;

/// Calls `bcrypt::verify(password, hash)`. Claimed: the result is
/// `bcrypt_verdict(password, hash)`, its error turned into `None` (bcrypt reads
/// cost and salt off the hash and recomputes, so the outcome depends on the two
/// texts alone).
#[verifier::external_body]
fn bcrypt_check(password: &str, hash: &str) -> (r: Option<bool>)
    ensures
        r == bcrypt_verdict(password@, hash@),
{
    match bcrypt::verify(password, hash) {
        Ok(b) => Some(b),
        Err(_) => None,
    }
}

/// How a login attempt ends.
#[derive(Debug, Clone)]
pub enum LoginOutcome {
    /// The password is right: set this session token and go to the dashboard.
    SignedIn(String),
    /// Back to the login page with an error.
    Rejected,
}

impl LoginOutcome {
    /// Where the browser is sent next.
    pub fn location(&self) -> (l: &'static str)
        ensures
            l@ == match self {
                LoginOutcome::SignedIn(_) => "/dashboard"@,
                LoginOutcome::Rejected => "/dashboard/login?error=1"@,
            },
    {
        match self {
            LoginOutcome::SignedIn(_) => "/dashboard",
            LoginOutcome::Rejected => "/dashboard/login?error=1",
        }
    }
}

/// Decides a login from the password check: when the password is right, sign
/// in with the session token for Unix time `timestamp`; otherwise reject.
pub fn login_outcome(verdict: Option<bool>, timestamp: i64, secret: &[u8]) -> (r: LoginOutcome)
    ensures
        verdict == Some(true) ==> (r matches LoginOutcome::SignedIn(t) && t@ == session_token_text(timestamp as int, secret@)),
        verdict != Some(true) ==> r is Rejected,
{
    match verdict {
        Some(true) => LoginOutcome::SignedIn(session_token_at(timestamp, secret)),
        _ => LoginOutcome::Rejected,
    }
}

/// Handles a login form: checks the password against the configured bcrypt
/// hash and, when it matches, issues a session token for the current time.
pub fn check_login(form: &LoginForm, config: &AuthConfig) -> (r: LoginOutcome)
    ensures
        bcrypt_verdict(form.password@, config.password_hash@) == Some(true) ==> (r matches LoginOutcome::SignedIn(t)
            && exists|ts: i64|
            #![trigger unix_time_reading(ts as int)]
            unix_time_reading(ts as int) && t@ == session_token_text(ts as int, config.cookie_secret@)),
        bcrypt_verdict(form.password@, config.password_hash@) != Some(true) ==> r is Rejected,
{
    let verdict = bcrypt_check(form.password.as_str(), config.password_hash.as_str());
    match verdict {
        Some(true) => {
            let now = unix_now();
            let r = login_outcome(verdict, now, config.cookie_secret.as_slice());
            r
        },
        _ => LoginOutcome::Rejected,
    }
}

/// The error note on the login page, shown when the page is reached with an
/// `error` parameter.
pub fn login_error_html(error_requested: bool) -> (h: &'static str)
    ensures
        h@ == if error_requested {
            "<p style=\"color: #e74c3c; margin-bottom: 1rem;\">Invalid password. Please try again.</p>"@
        } else {
            ""@
        },
{
    if error_requested {
        "<p style=\"color: #e74c3c; margin-bottom: 1rem;\">Invalid password. Please try again.</p>"
    } else {
        ""
    }
}

/// A session token that the dashboard issued lets every request through the
/// middleware, whatever its path.
pub proof fn lemma_issued_token_passes(timestamp: int, secret: Seq<u8>, path: Seq<char>)
    ensures
        auth_decision_for(Some(session_token_text(timestamp, secret)), secret, path) == AuthDecision::Proceed,
{
    lemma_session_token_roundtrip(timestamp, secret);
}

/// A request without a session that the dashboard accepts, whether it carries
/// no cookie or one that does not verify (signed under another secret, forged
/// or malformed), is answered by its path alone: `401` under `/api/`, a
/// redirect to the login page everywhere else.
pub proof fn lemma_refused_session_answer(cookie: Option<Seq<char>>, secret: Seq<u8>, path: Seq<char>)
    requires
        cookie matches Some(c) ==> !token_accepted(c, secret),
    ensures
        auth_decision_for(cookie, secret, path) == auth_decision_for(None, secret, path),
        starts_with(path, "/api/"@) ==> auth_decision_for(cookie, secret, path) == AuthDecision::Unauthorized,
        !starts_with(path, "/api/"@) ==> auth_decision_for(cookie, secret, path) == AuthDecision::RedirectToLogin,
{
}

/// A dashboard page requested with a session cookie that does not verify is
/// redirected to the login page, never answered with a bare `401`.
pub proof fn lemma_stale_cookie_on_dashboard(cookie: Seq<char>, secret: Seq<u8>, rest: Seq<char>)
    requires
        !token_accepted(cookie, secret),
    ensures
        auth_decision_for(Some(cookie), secret, "/dashboard"@ + rest) == AuthDecision::RedirectToLogin,
{
    reveal_strlit("/dashboard");
    reveal_strlit("/api/");
    let path = "/dashboard"@ + rest;
    assert(path[1] == 'd');
    assert("/api/"@[1] == 'a');
    if starts_with(path, "/api/"@) {
        assert(path.take(5)[1] == path[1]);
    }
}

/// Where the dashboard password comes from at startup.
#[derive(Debug, Clone)]
pub enum PasswordSource {
    /// A plaintext password, to be hashed at startup.
    Plaintext(String),
    /// A ready bcrypt hash.
    Hash(String),
    /// Neither is configured: the development password `admin`, to be hashed.
    DevelopmentDefault,
}

/// The configured password source: a plaintext password wins over a hash,
/// and with neither the development default is used.
pub fn password_source(plaintext: Option<String>, hash: Option<String>) -> (s: PasswordSource)
    ensures
        plaintext matches Some(p) ==> s == PasswordSource::Plaintext(p),
        plaintext is None ==> (hash matches Some(h) ==> s == PasswordSource::Hash(h)),
        plaintext is None && hash is None ==> s is DevelopmentDefault,
{
    match plaintext {
        Some(p) => PasswordSource::Plaintext(p),
        None => match hash {
            Some(h) => PasswordSource::Hash(h),
            None => PasswordSource::DevelopmentDefault,
        },
    }
}

} // verus!
