//! Signing in to the organisers' site and signing up new users: the
//! anti-forgery check, the password check, the session token, the page a
//! user lands on, and the role gates of the pages.

use vstd::prelude::*;
use vstd::string::*;
use crate::text::same_text;
use crate::web::{SessionError, UserFormSignup, NewUser};

verus! {

#[verifier::external_type_specification]
#[verifier::external_body]
pub struct ExAesGcmCsrfProtection(csrf::AesGcmCsrfProtection);

#[verifier::external_type_specification]
#[verifier::external_body]
pub struct ExCsrfError(csrf::CsrfError);

#[verifier::external_type_specification]
#[verifier::external_body]
pub struct ExDecodeError(data_encoding::DecodeError);

#[verifier::external_type_specification]
#[verifier::external_body]
pub struct ExBcryptError(bcrypt::BcryptError);

/// What standard base64 decodes `s` to, if it is valid base64.
pub uninterp spec fn base64_decoded(s: Seq<char>) -> Option<Seq<u8>>;

/// Decodes `s` with `data_encoding::BASE64` (standard alphabet, padded);
/// the result depends on the text alone, and is named `base64_decoded`.
#[verifier::external_body]
fn base64_decode(s: &str) -> (r: Result<Vec<u8>, data_encoding::DecodeError>)
    ensures
        match r {
            Ok(v) => base64_decoded(s@) == Some(v@),
            Err(_) => base64_decoded(s@) is None,
        },
{
    data_encoding::BASE64.decode(s.as_bytes())
}

/// `csrf::AesGcmCsrfProtection::from_key`: the protection keyed by `key`.
/// Nothing is claimed of the value, which is opaque here.
#[verifier::external_body]
fn csrf_protection(key: [u8; 32]) -> csrf::AesGcmCsrfProtection {
    csrf::AesGcmCsrfProtection::from_key(key)
}

/// Whether `AesGcmCsrfProtection::parse_token`, under the key `key`,
/// decrypts the token bytes `bytes`.
pub uninterp spec fn csrf_token_parses(key: Seq<u8>, bytes: Seq<u8>) -> bool;

/// Whether `AesGcmCsrfProtection::parse_cookie`, under the key `key`,
/// decrypts the cookie bytes `bytes`.
pub uninterp spec fn csrf_cookie_parses(key: Seq<u8>, bytes: Seq<u8>) -> bool;

/// The token value that `parse_token`, under `key`, decrypts from the token
/// bytes `bytes`.
pub uninterp spec fn csrf_token_value(key: Seq<u8>, bytes: Seq<u8>) -> Seq<u8>;

/// The token value that `parse_cookie`, under `key`, decrypts from the
/// cookie bytes `bytes`.
pub uninterp spec fn csrf_cookie_value(key: Seq<u8>, bytes: Seq<u8>) -> Seq<u8>;

/// `CsrfProtection::parse_token` of the protection keyed by `key`
/// (`from_key` only stores the key), giving the decrypted token value
/// (`value`). AES-GCM decryption depends on the key and the bytes alone, so
/// whether it succeeds is named `csrf_token_parses`, and the value
/// `csrf_token_value`. A token that is not 124 bytes long is refused.
#[verifier::external_body]
fn parse_csrf_token(key: [u8; 32], bytes: &Vec<u8>) -> (r: Result<Vec<u8>, csrf::CsrfError>)
    ensures
        r is Ok <==> csrf_token_parses(key@, bytes@),
        r matches Ok(v) ==> v@ == csrf_token_value(key@, bytes@),
        bytes@.len() != 124 ==> r is Err,
{
    match csrf::CsrfProtection::parse_token(&csrf::AesGcmCsrfProtection::from_key(key), bytes.as_slice()) {
        Ok(t) => Ok(t.value().to_vec()),
        Err(e) => Err(e),
    }
}

/// `CsrfProtection::parse_cookie` of the protection keyed by `key`
/// (`from_key` only stores the key), giving the decrypted token value of
/// the cookie (`value`). AES-GCM decryption depends on the key and the bytes
/// alone, so whether it succeeds is named `csrf_cookie_parses`, and the
/// value `csrf_cookie_value`. A cookie that is not 132 bytes long is
/// refused.
#[verifier::external_body]
fn parse_csrf_cookie(key: [u8; 32], bytes: &Vec<u8>) -> (r: Result<Vec<u8>, csrf::CsrfError>)
    ensures
        r is Ok <==> csrf_cookie_parses(key@, bytes@),
        r matches Ok(v) ==> v@ == csrf_cookie_value(key@, bytes@),
        bytes@.len() != 132 ==> r is Err,
{
    match csrf::CsrfProtection::parse_cookie(&csrf::AesGcmCsrfProtection::from_key(key), bytes.as_slice()) {
        Ok(c) => Ok(c.value().to_vec()),
        Err(e) => Err(e),
    }
}

/// `CsrfProtection::verify_token_pair` on the token of value `token_value`
/// (`UnencryptedCsrfToken::new`) and the cookie that `parse_cookie`, under
/// `key`, decrypts from `cookie_bytes` (a cookie that does not decrypt
/// verifies nothing). It holds when the two token values are equal and the
/// cookie has not expired; expiry reads the clock, so the outcome is not
/// claimed, only that a pair that verifies has equal values.
#[verifier::external_body]
fn verify_csrf_pair(key: [u8; 32], token_value: &Vec<u8>, cookie_bytes: &Vec<u8>) -> (r: bool)
    ensures
        r ==> csrf_cookie_parses(key@, cookie_bytes@) && token_value@ == csrf_cookie_value(key@, cookie_bytes@),
{
    let p = csrf::AesGcmCsrfProtection::from_key(key);
    match csrf::CsrfProtection::parse_cookie(&p, cookie_bytes.as_slice()) {
        Ok(cookie) => csrf::CsrfProtection::verify_token_pair(
            &p,
            &csrf::UnencryptedCsrfToken::new(token_value.clone()),
            &cookie,
        ),
        Err(_) => false,
    }
}

/// `CsrfProtection::generate_token_pair(None, 300)`: a token of fresh
/// random bytes and the matching cookie, valid for 300 seconds, each given
/// as base64 text (`b64_string`, which is `data_encoding::BASE64.encode`).
/// Which pair comes out rests on chance and the clock and is not claimed.
/// That one comes out is: in the source no step returns an error (the
/// random bytes are drawn or the process panics, and encrypting the fixed
/// sizes does not fail). Both texts are base64 that decodes (encoding
/// followed by decoding gives the data back).
#[verifier::external_body]
fn generate_csrf_pair(p: &csrf::AesGcmCsrfProtection) -> (r: Result<(String, String), csrf::CsrfError>)
    ensures
        r is Ok,
        r matches Ok((token, cookie)) ==> base64_decoded(token@) is Some && base64_decoded(cookie@) is Some,
{
    match csrf::CsrfProtection::generate_token_pair(p, None, 300) {
        Ok((token, cookie)) => Ok((token.b64_string(), cookie.b64_string())),
        Err(e) => Err(e),
    }
}

/// A fresh anti-forgery token for a form, and the cookie that goes with the
/// page, as base64 text.
pub struct CsrfPair {
    pub token: String,
    pub cookie: String,
}

/// A fresh anti-forgery pair under `key`, both texts valid base64.
fn new_csrf_pair(key: [u8; 32]) -> (pair: CsrfPair)
    ensures
        base64_decoded(pair.token@) is Some && base64_decoded(pair.cookie@) is Some,
{
    let protect = csrf_protection(key);
    match generate_csrf_pair(&protect) {
        Ok((token, cookie)) => CsrfPair { token, cookie },
        Err(_) => {
            proof {
                assert(false);
            }
            CsrfPair { token: String::new(), cookie: String::new() }
        },
    }
}

/// What the sign-in page shows.
pub enum LogInPage {
    /// The user is signed in already: the organisers' page.
    LoggedIn,
    /// The sign-in form, with a fresh anti-forgery pair.
    Form(CsrfPair),
}

/// The sign-in page: a signed-in user goes on to the organisers' page;
/// anyone else gets the form with a fresh anti-forgery pair, under the
/// site's key.
pub fn go_to_log_in_page(user: Result<i64, SessionError>, key: [u8; 32]) -> (page: LogInPage)
    ensures
        user is Ok ==> page is LoggedIn,
        user is Err ==> page is Form,
        page matches LogInPage::Form(p) ==> base64_decoded(p.token@) is Some && base64_decoded(p.cookie@) is Some,
{
    match user {
        Ok(_) => LogInPage::LoggedIn,
        Err(_) => LogInPage::Form(new_csrf_pair(key)),
    }
}

/// The sign-up page: it always hands out a fresh anti-forgery pair, and
/// only the superadmin gets the form; anyone else gets the header of the
/// refusal.
pub fn go_to_sign_up_page(user: Result<i64, SessionError>, role: Option<&str>, key: [u8; 32]) -> (r: (
    CsrfPair,
    Result<i64, String>,
))
    ensures
        ({
            let spec_role = match role {
                Some(x) => Some(x@),
                None => None,
            };
            match page_access(
                user,
                spec_role,
                "superadmin"@,
                None,
                "Ваша ID не определен"@,
                "Ваша роль не определена"@,
                "Только для superadmin"@,
            ) {
                Ok(id) => r.1 == Ok::<i64, String>(id),
                Err(h) => r.1 matches Err(s) && s@ == h,
            }
        }),
        base64_decoded(r.0.token@) is Some && base64_decoded(r.0.cookie@) is Some,
{
    let pair = new_csrf_pair(key);
    let access = role_gate(
        user,
        role,
        "superadmin",
        None,
        "Ваша ID не определен",
        "Ваша роль не определена",
        "Только для superadmin",
    );
    (pair, access)
}

/// The outcome of the anti-forgery check of a form.
#[derive(Clone, Copy, PartialEq, Eq, Structural, Debug)]
pub enum CsrfCheck {
    /// The request carries no anti-forgery cookie.
    NoCookie,
    /// The token or the cookie is not valid base64, or does not decrypt.
    Malformed,
    /// Token and cookie do not match, or the cookie has expired.
    Failed,
    Passed,
}

/// Token and cookie, as the form and the request carry them, are base64
/// and decrypt under `key`.
pub open spec fn csrf_pair_parses(key: Seq<u8>, token: Seq<char>, cookie: Seq<char>) -> bool {
    match (base64_decoded(token), base64_decoded(cookie)) {
        (Some(t), Some(c)) => csrf_token_parses(key, t) && csrf_cookie_parses(key, c),
        _ => false,
    }
}

/// Token and cookie, as the form and the request carry them, decode and
/// decrypt under `key` to the same token value.
pub open spec fn csrf_pair_matches(key: Seq<u8>, token: Seq<char>, cookie: Seq<char>) -> bool {
    match (base64_decoded(token), base64_decoded(cookie)) {
        (Some(t), Some(c)) => csrf_token_parses(key, t) && csrf_cookie_parses(key, c) && csrf_token_value(key, t)
            == csrf_cookie_value(key, c),
        _ => false,
    }
}

/// Checks the anti-forgery token `form_token` of a form against the
/// cookie `cookie` set with the page, under the site's key: no cookie, a
/// token or cookie that does not decode or decrypt, a token that does not
/// match the cookie (`Failed`), or else the outcome of the expiry check
/// (which reads the clock): `Passed` only for a token that matches.
pub fn csrf_check(key: [u8; 32], form_token: &str, cookie: Option<&str>) -> (c: CsrfCheck)
    ensures
        c == CsrfCheck::NoCookie <==> cookie is None,
        cookie matches Some(k) ==> (c == CsrfCheck::Malformed <==> !csrf_pair_parses(key@, form_token@, k@)),
        cookie matches Some(k) ==> (c == CsrfCheck::Passed || c == CsrfCheck::Failed <==> csrf_pair_parses(
            key@,
            form_token@,
            k@,
        )),
        c == CsrfCheck::Passed ==> (cookie matches Some(k) && csrf_pair_matches(key@, form_token@, k@)),
        cookie matches Some(k) ==> (csrf_pair_parses(key@, form_token@, k@) && !csrf_pair_matches(
            key@,
            form_token@,
            k@,
        ) ==> c == CsrfCheck::Failed),
{
    let cookie = match cookie {
        Some(k) => k,
        None => {
            return CsrfCheck::NoCookie;
        },
    };
    let token_bytes = match base64_decode(form_token) {
        Ok(b) => b,
        Err(_) => {
            return CsrfCheck::Malformed;
        },
    };
    let cookie_bytes = match base64_decode(cookie) {
        Ok(b) => b,
        Err(_) => {
            return CsrfCheck::Malformed;
        },
    };
    let token = match parse_csrf_token(key, &token_bytes) {
        Ok(t) => t,
        Err(_) => {
            return CsrfCheck::Malformed;
        },
    };
    if parse_csrf_cookie(key, &cookie_bytes).is_err() {
        return CsrfCheck::Malformed;
    }
    if verify_csrf_pair(key, &token, &cookie_bytes) {
        CsrfCheck::Passed
    } else {
        CsrfCheck::Failed
    }
}

/// What `bcrypt::verify` gives for `password` against `hash`: whether the
/// password hashes (with the hash's salt and cost) to the hash, or `None`
/// when the hash is malformed.
pub uninterp spec fn bcrypt_verifies(password: Seq<char>, hash: Seq<char>) -> Option<bool>;

/// Calls `bcrypt::verify`, which depends on the password and the hash
/// alone; the result is named `bcrypt_verifies`.
#[verifier::external_body]
fn verify_password(password: &str, hash: &str) -> (r: Result<bool, bcrypt::BcryptError>)
    ensures
        match r {
            Ok(b) => bcrypt_verifies(password@, hash@) == Some(b),
            Err(_) => bcrypt_verifies(password@, hash@) is None,
        },
{
    bcrypt::verify(password, hash)
}

/// Calls `bcrypt::hash` with the default cost. The salt is random (and
/// drawing it may fail), so which hash comes out, and whether one does, is
/// not claimed; a hash that comes out verifies against the password, since
/// `bcrypt::verify` recomputes it with the salt and cost it holds.
#[verifier::external_body]
fn hash_password(password: &str) -> (r: Result<String, bcrypt::BcryptError>)
    ensures
        r matches Ok(h) ==> bcrypt_verifies(password@, h@) == Some(true),
{
    bcrypt::hash(password, bcrypt::DEFAULT_COST)
}

/// Why signing in failed.
#[derive(Clone, Copy, PartialEq, Eq, Structural, Debug)]
pub enum LoginRefusal {
    NoCsrfCookie,
    CsrfFailed,
    MalformedCsrf,
    UnknownUser,
    PasswordIncorrect,
    VerificationError,
    RoleUnknown,
}

pub open spec fn login_refusal_text(r: LoginRefusal) -> Seq<char> {
    match r {
        LoginRefusal::NoCsrfCookie => "Login failed"@,
        LoginRefusal::CsrfFailed => "CSRF failed"@,
        LoginRefusal::MalformedCsrf => "CSRF failed"@,
        LoginRefusal::UnknownUser => "Пользователь с таким логином не зарегистрирован"@,
        LoginRefusal::PasswordIncorrect => "Password incorrect"@,
        LoginRefusal::VerificationError => "An error occurred"@,
        LoginRefusal::RoleUnknown => "роль не определена"@,
    }
}

impl LoginRefusal {
    /// The header of the page that reports the refusal.
    pub fn header(&self) -> (h: String)
        ensures
            h@ == login_refusal_text(*self),
    {
        match self {
            LoginRefusal::NoCsrfCookie => String::from_str("Login failed"),
            LoginRefusal::CsrfFailed => String::from_str("CSRF failed"),
            LoginRefusal::MalformedCsrf => String::from_str("CSRF failed"),
            LoginRefusal::UnknownUser => String::from_str("Пользователь с таким логином не зарегистрирован"),
            LoginRefusal::PasswordIncorrect => String::from_str("Password incorrect"),
            LoginRefusal::VerificationError => String::from_str("An error occurred"),
            LoginRefusal::RoleUnknown => String::from_str("роль не определена"),
        }
    }
}

/// The sign-in checks up to the session: the anti-forgery check, then the
/// password of the user `password_hash` belongs to (`None`: no such user).
pub fn login(csrf: CsrfCheck, password_hash: Option<&str>, password: &str) -> (r: Result<(), LoginRefusal>)
    ensures
        csrf == CsrfCheck::NoCookie ==> r == Err::<(), LoginRefusal>(LoginRefusal::NoCsrfCookie),
        csrf == CsrfCheck::Failed ==> r == Err::<(), LoginRefusal>(LoginRefusal::CsrfFailed),
        csrf == CsrfCheck::Malformed ==> r == Err::<(), LoginRefusal>(LoginRefusal::MalformedCsrf),
        csrf == CsrfCheck::Passed ==> match password_hash {
            None => r == Err::<(), LoginRefusal>(LoginRefusal::UnknownUser),
            Some(h) => match bcrypt_verifies(password@, h@) {
                Some(true) => r == Ok::<(), LoginRefusal>(()),
                Some(false) => r == Err::<(), LoginRefusal>(LoginRefusal::PasswordIncorrect),
                None => r == Err::<(), LoginRefusal>(LoginRefusal::VerificationError),
            },
        },
{
    match csrf {
        CsrfCheck::NoCookie => Err(LoginRefusal::NoCsrfCookie),
        CsrfCheck::Failed => Err(LoginRefusal::CsrfFailed),
        CsrfCheck::Malformed => Err(LoginRefusal::MalformedCsrf),
        CsrfCheck::Passed => match password_hash {
            None => Err(LoginRefusal::UnknownUser),
            Some(h) => match verify_password(password, h) {
                Ok(true) => Ok(()),
                Ok(false) => Err(LoginRefusal::PasswordIncorrect),
                Err(_) => Err(LoginRefusal::VerificationError),
            },
        },
    }
}

/// The page a signed-in user lands on.
#[derive(Clone, Copy, PartialEq, Eq, Structural, Debug)]
pub enum LandingPage {
    Visitor,
    LoggedIn,
    Admin,
    Superadmin,
}

pub open spec fn landing(role: Seq<char>) -> Option<LandingPage> {
    if role == "visitor"@ {
        Some(LandingPage::Visitor)
    } else if role == "organiser"@ {
        Some(LandingPage::LoggedIn)
    } else if role == "admin"@ {
        Some(LandingPage::Admin)
    } else if role == "superadmin"@ {
        Some(LandingPage::Superadmin)
    } else {
        None
    }
}

/// Where a user with role `role` lands after signing in, with the page's
/// header; an unknown role is refused.
pub fn login_landing(role: &str) -> (r: Result<(LandingPage, String), LoginRefusal>)
    ensures
        match landing(role@) {
            Some(p) => r matches Ok((q, h)) && q == p && h@ == (if p == LandingPage::LoggedIn {
                "Вы вошли в систему"@
            } else {
                Seq::<char>::empty()
            }),
            None => r == Err::<(LandingPage, String), LoginRefusal>(LoginRefusal::RoleUnknown),
        },
{
    if same_text(role, "visitor") {
        Ok((LandingPage::Visitor, String::new()))
    } else if same_text(role, "organiser") {
        Ok((LandingPage::LoggedIn, String::from_str("Вы вошли в систему")))
    } else if same_text(role, "admin") {
        Ok((LandingPage::Admin, String::new()))
    } else if same_text(role, "superadmin") {
        Ok((LandingPage::Superadmin, String::new()))
    } else {
        Err(LoginRefusal::RoleUnknown)
    }
}

/// A user's role as the database gives it; a user it cannot find counts
/// as a visitor.
pub fn get_user_role(found: Option<String>) -> (role: String)
    ensures
        role@ == match found {
            Some(r) => r@,
            None => "visitor"@,
        },
{
    match found {
        Some(r) => r,
        None => String::from_str("visitor"),
    }
}

/// A uniformly random byte from `rand::random::<u8>()`; nothing is claimed
/// of its value.
#[verifier::external_body]
fn random_byte() -> u8 {
    rand::random::<u8>()
}

/// The upper-case hexadecimal digit of `d` (`0 <= d < 16`).
pub open spec fn hex_digit(d: int) -> char {
    if d < 10 {
        crate::text::digit_char(d)
    } else if d == 10 {
        'A'
    } else if d == 11 {
        'B'
    } else if d == 12 {
        'C'
    } else if d == 13 {
        'D'
    } else if d == 14 {
        'E'
    } else {
        'F'
    }
}

pub open spec fn is_hex_upper(c: char) -> bool {
    ('0' <= c && c <= '9') || ('A' <= c && c <= 'F')
}

fn hex_digit_of(d: u8) -> (c: char)
    requires
        d < 16,
    ensures
        c == hex_digit(d as int),
        is_hex_upper(c),
{
    if d == 0 {
        '0'
    } else if d == 1 {
        '1'
    } else if d == 2 {
        '2'
    } else if d == 3 {
        '3'
    } else if d == 4 {
        '4'
    } else if d == 5 {
        '5'
    } else if d == 6 {
        '6'
    } else if d == 7 {
        '7'
    } else if d == 8 {
        '8'
    } else if d == 9 {
        '9'
    } else if d == 10 {
        'A'
    } else if d == 11 {
        'B'
    } else if d == 12 {
        'C'
    } else if d == 13 {
        'D'
    } else if d == 14 {
        'E'
    } else {
        'F'
    }
}

/// The two upper-case hexadecimal digits of a byte, as `{:02X}` writes it.
pub open spec fn hex_byte(b: u8) -> Seq<char> {
    seq![hex_digit(b as int / 16), hex_digit(b as int % 16)]
}

/// A session token of `length` random bytes, each written as two
/// upper-case hexadecimal digits.
pub fn generate_session_token(length: u8) -> (token: String)
    ensures
        token@.len() == 2 * length,
        forall|k: int| 0 <= k < token@.len() ==> is_hex_upper(#[trigger] token@[k]),
        exists|bytes: Seq<u8>|
            bytes.len() == length && token@ == Seq::new(2 * length as nat, |k: int| hex_byte(bytes[k / 2])[k % 2]),
{
    let mut token = String::new();
    let mut bytes: Vec<u8> = Vec::new();
    let mut i: u8 = 0;
    while i < length
        invariant
            i <= length,
            bytes@.len() == i,
            token@.len() == 2 * i,
            forall|k: int| 0 <= k < token@.len() ==> is_hex_upper(#[trigger] token@[k]),
            token@ == Seq::new(2 * i as nat, |k: int| hex_byte(bytes@[k / 2])[k % 2]),
        decreases length - i,
    {
        let b = random_byte();
        let hi = hex_digit_of(b / 16);
        let lo = hex_digit_of(b % 16);
        crate::text::push_char(&mut token, hi);
        crate::text::push_char(&mut token, lo);
        bytes.push(b);
        i = i + 1;
        assert(token@ =~= Seq::new(2 * i as nat, |k: int| hex_byte(bytes@[k / 2])[k % 2]));
    }
    token
}

/// Who may open a page: the signed-in user (`user`) whose role is
/// `role` (`None`: not determined) must hold the role `allowed` (or
/// `also_allowed`). Each refusal has its own page header.
pub open spec fn page_access(
    user: Result<i64, SessionError>,
    role: Option<Seq<char>>,
    allowed: Seq<char>,
    also_allowed: Option<Seq<char>>,
    no_user: Seq<char>,
    no_role: Seq<char>,
    wrong_role: Seq<char>,
) -> Result<i64, Seq<char>> {
    match user {
        Err(_) => Err(no_user),
        Ok(id) => match role {
            None => Err(no_role),
            Some(r) => if r == allowed || also_allowed == Some(r) {
                Ok(id)
            } else {
                Err(wrong_role)
            },
        },
    }
}

pub fn role_gate(
    user: Result<i64, SessionError>,
    role: Option<&str>,
    allowed: &str,
    also_allowed: Option<&str>,
    no_user: &str,
    no_role: &str,
    wrong_role: &str,
) -> (r: Result<i64, String>)
    ensures
        ({
            let spec_role = match role {
                Some(x) => Some(x@),
                None => None,
            };
            let spec_also = match also_allowed {
                Some(x) => Some(x@),
                None => None,
            };
            match page_access(user, spec_role, allowed@, spec_also, no_user@, no_role@, wrong_role@) {
                Ok(id) => r == Ok::<i64, String>(id),
                Err(h) => r matches Err(s) && s@ == h,
            }
        }),
{
    match user {
        Err(_) => Err(String::from_str(no_user)),
        Ok(id) => match role {
            None => Err(String::from_str(no_role)),
            Some(r) => {
                let also = match also_allowed {
                    Some(a) => same_text(r, a),
                    None => false,
                };
                if same_text(r, allowed) || also {
                    Ok(id)
                } else {
                    Err(String::from_str(wrong_role))
                }
            },
        },
    }
}

/// Why a sign-up failed.
#[derive(Clone, Copy, PartialEq, Eq, Structural, Debug)]
pub enum SignupRefusal {
    /// Another user has this login.
    LoginTaken,
}

/// A new user needs a login no other user has.
pub fn create_new_user(usernames: &Vec<String>, username: &str) -> (r: Result<(), SignupRefusal>)
    ensures
        r is Ok <==> forall|k: int| 0 <= k < usernames@.len() ==> (#[trigger] usernames@[k])@ != username@,
{
    let mut i: usize = 0;
    while i < usernames.len()
        invariant
            i <= usernames@.len(),
            forall|k: int| 0 <= k < i ==> (#[trigger] usernames@[k])@ != username@,
        decreases usernames.len() - i,
    {
        if same_text(usernames[i].as_str(), username) {
            return Err(SignupRefusal::LoginTaken);
        }
        i = i + 1;
    }
    Ok(())
}

/// The header of the page that reports a refused sign-up, by the step
/// that refused it.
pub open spec fn signup_refusal(csrf: CsrfCheck, user: Result<i64, SessionError>, role: Option<Seq<char>>) -> Option<
    Seq<char>,
> {
    if csrf == CsrfCheck::NoCookie {
        Some("Login Failed!"@)
    } else if csrf != CsrfCheck::Passed {
        Some("CSRF Verification Failed!"@)
    } else if user is Err {
        Some("Ошибка при получении user_id из cookies"@)
    } else if !(role == Some("admin"@) || role == Some("superadmin"@)) {
        Some("роль не определена"@)
    } else {
        None
    }
}

/// Another user has the login `username`.
pub open spec fn login_taken(usernames: Seq<String>, username: Seq<char>) -> bool {
    exists|k: int| 0 <= k < usernames.len() && (#[trigger] usernames[k])@ == username
}

/// What a sign-up gives once the password's hash is made (`hashed`, `None`
/// when hashing failed): the user to insert as (login, password hash, city,
/// role), or the header of the refusal.
pub open spec fn signup_outcome(hashed: Option<Seq<char>>, usernames: Seq<String>, form: UserFormSignup) -> Result<
    (Seq<char>, Seq<char>, Seq<char>, Seq<char>),
    Seq<char>,
> {
    match hashed {
        None => Err("Registration Failed!"@),
        Some(h) => if login_taken(usernames, form.username_signup@) {
            Err("Логин уже занят!"@)
        } else {
            Ok((form.username_signup@, h, form.city_signup@, form.role_signup@))
        },
    }
}

/// A sign-up result as (login, password hash, city, role), or the header.
pub open spec fn new_user_view(r: Result<NewUser, String>) -> Result<(Seq<char>, Seq<char>, Seq<char>, Seq<char>), Seq<char>> {
    match r {
        Ok(u) => Ok((u.username_new_user@, u.password_new_user@, u.city_new_user@, u.role_new_user@)),
        Err(e) => Err(e@),
    }
}

/// The user to insert once the password's hash is made (`None` when hashing
/// failed: "Registration Failed!"): refused when the login is taken
/// ("Логин уже занят!"), otherwise the form's login, city and role with the
/// hash as the password.
pub fn new_user_from_hash(hashed: Option<String>, usernames: &Vec<String>, form: &UserFormSignup) -> (r: Result<
    NewUser,
    String,
>)
    ensures
        new_user_view(r) == signup_outcome(
            match hashed {
                Some(h) => Some(h@),
                None => None,
            },
            usernames@,
            *form,
        ),
{
    let hashed = match hashed {
        Some(h) => h,
        None => {
            return Err(String::from_str("Registration Failed!"));
        },
    };
    match create_new_user(usernames, form.username_signup.as_str()) {
        Err(_) => Err(String::from_str("Логин уже занят!")),
        Ok(()) => Ok(
            NewUser {
                username_new_user: form.username_signup.clone(),
                password_new_user: hashed,
                city_new_user: form.city_signup.clone(),
                role_new_user: form.role_signup.clone(),
            },
        ),
    }
}

/// Signing up a new user: only an admin or the superadmin may, after the
/// anti-forgery check. The password is then hashed (the salt is random, so
/// whether hashing succeeds is left open) and the outcome is that of
/// `new_user_from_hash` for the hash made, which verifies against the
/// password.
pub fn register_user(
    csrf: CsrfCheck,
    user: Result<i64, SessionError>,
    role: Option<&str>,
    usernames: &Vec<String>,
    form: &UserFormSignup,
) -> (r: Result<NewUser, String>)
    ensures
        ({
            let spec_role = match role {
                Some(x) => Some(x@),
                None => None,
            };
            match signup_refusal(csrf, user, spec_role) {
                Some(h) => r matches Err(e) && e@ == h,
                None => exists|hashed: Option<Seq<char>>|
                    #![trigger signup_outcome(hashed, usernames@, *form)]
                    (hashed matches Some(x) ==> bcrypt_verifies(form.password_signup@, x) == Some(true))
                        && new_user_view(r) == signup_outcome(hashed, usernames@, *form),
            }
        }),
{
    proof {
        reveal_strlit("admin");
        reveal_strlit("superadmin");
    }
    match csrf {
        CsrfCheck::NoCookie => {
            return Err(String::from_str("Login Failed!"));
        },
        CsrfCheck::Failed | CsrfCheck::Malformed => {
            return Err(String::from_str("CSRF Verification Failed!"));
        },
        CsrfCheck::Passed => {},
    }
    if user.is_err() {
        return Err(String::from_str("Ошибка при получении user_id из cookies"));
    }
    let allowed = match role {
        Some(x) => same_text(x, "admin") || same_text(x, "superadmin"),
        None => false,
    };
    if !allowed {
        return Err(String::from_str("роль не определена"));
    }
    let hashed = match hash_password(form.password_signup.as_str()) {
        Ok(h) => Some(h),
        Err(_) => None,
    };
    let ghost hv = match &hashed {
        Some(h) => Some(h@),
        None => None,
    };
    let r = new_user_from_hash(hashed, usernames, form);
    assert((hv matches Some(x) ==> bcrypt_verifies(form.password_signup@, x) == Some(true))
        && new_user_view(r) == signup_outcome(hv, usernames@, *form));
    r
}

} // verus!
