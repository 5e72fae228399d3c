//! Player identities: the claims of a token, the identity they stand for,
//! nicknames and the `Authorization` header.
//!
//! Tokens themselves are signed and read outside this library; it decides
//! what the claims hold, which nicknames are accepted and how a header yields
//! a token.

use vstd::prelude::*;
use vstd::string::StringExecFns;

verus! {

/// The number of seconds for which a token is valid from its issue.
pub const TOKEN_LIFETIME: i64 = 24 * 3600;

/// The largest number of bytes of a nickname that a player may choose.
pub const MAX_NICKNAME_BYTES: usize = 20;

/// The number of digits that end a nickname given by the server.
pub const NICKNAME_DIGITS: usize = 4;

/// The claims of a token.
#[derive(Clone, Debug)]
pub struct Claims {
    /// The user's id.
    pub sub: String,
    /// The user's nickname.
    pub nickname: String,
    /// When the identity was issued, in seconds since the Unix epoch.
    pub iat: i64,
    /// When the token expires, in seconds since the Unix epoch.
    pub exp: i64,
}

/// A user's identity.
#[derive(Clone, Debug)]
pub struct UserIdentity {
    pub user_id: String,
    pub nickname: String,
    /// When the identity was issued, in seconds since the Unix epoch.
    pub created_at: i64,
}

/// The answer to the creation of an identity.
#[derive(Debug)]
pub struct CreateRsp {
    pub jwt: String,
    pub identity: UserIdentity,
}

/// The request for another nickname.
#[derive(Debug)]
pub struct UpdateNicknameReq {
    pub nickname: String,
}

/// The answer to a request for another nickname.
#[derive(Debug)]
pub struct UpdateRsp {
    pub jwt: String,
    pub identity: UserIdentity,
}

/// The answer to the verification of a token.
#[derive(Debug)]
pub struct VerifyRsp {
    pub identity: UserIdentity,
}

/// What the server holds while it runs.
#[derive(Clone, Debug)]
pub struct AppState {
    jwt_secret: String,
}

impl AppState {
    /// The secret with which tokens are signed, as characters.
    pub closed spec fn secret(&self) -> Seq<char> {
        self.jwt_secret@
    }

    /// The state of a server that signs its tokens with `jwt_secret`.
    pub fn new(jwt_secret: String) -> (state: AppState)
        ensures
            state.secret() == jwt_secret@,
    {
        Self { jwt_secret }
    }

    /// The secret with which tokens are signed.
    pub fn jwt_secret(&self) -> (secret: &str)
        ensures
            secret@ == self.secret(),
    {
        self.jwt_secret.as_str()
    }
}

/// Why a request is refused.
#[derive(Clone, Copy, PartialEq, Eq, Structural, Debug)]
pub enum AuthError {
    /// The nickname is empty once the white space round it is taken off.
    EmptyNickname,
    /// The nickname is longer than [`MAX_NICKNAME_BYTES`] bytes.
    NicknameTooLong,
    /// The request has no `Authorization` header that is text.
    MissingHeader,
    /// The `Authorization` header does not begin with `Bearer `.
    MalformedHeader,
    /// The token is not one that this server signed, or it has expired.
    InvalidToken,
}

impl AuthError {
    /// The HTTP status with which the refusal is answered: 400 for a
    /// nickname, 401 for a header.
    pub fn status(&self) -> (code: u16)
        ensures
            code == match *self {
                AuthError::EmptyNickname | AuthError::NicknameTooLong => 400u16,
                AuthError::MissingHeader | AuthError::MalformedHeader | AuthError::InvalidToken => 401u16,
            },
    {
        match self {
            AuthError::EmptyNickname => 400,
            AuthError::NicknameTooLong => 400,
            AuthError::MissingHeader => 401,
            AuthError::MalformedHeader => 401,
            AuthError::InvalidToken => 401,
        }
    }

    /// The message with which the refusal is answered.
    pub fn message(&self) -> (text: &'static str)
        ensures
            text@ == match *self {
                AuthError::EmptyNickname => "昵称不能为空"@,
                AuthError::NicknameTooLong => "昵称不能超过20个字符"@,
                AuthError::MissingHeader => "缺少 Authorization header"@,
                AuthError::MalformedHeader => "Authorization header 格式错误"@,
                AuthError::InvalidToken => "JWT 验证失败"@,
            },
    {
        match self {
            AuthError::EmptyNickname => "昵称不能为空",
            AuthError::NicknameTooLong => "昵称不能超过20个字符",
            AuthError::MissingHeader => "缺少 Authorization header",
            AuthError::MalformedHeader => "Authorization header 格式错误",
            AuthError::InvalidToken => "JWT 验证失败",
        }
    }
}

/// The identity that `claims` stand for.
pub fn verify_identity(claims: Claims) -> (identity: UserIdentity)
    ensures
        identity.user_id@ == claims.sub@,
        identity.nickname@ == claims.nickname@,
        identity.created_at == claims.iat,
{
    UserIdentity { user_id: claims.sub, nickname: claims.nickname, created_at: claims.iat }
}

/// Whether `c` is white space: what `char::is_whitespace` tells of it, the
/// Unicode property `White_Space`.
pub uninterp spec fn is_white_space(c: char) -> bool;

/// The number of white-space characters with which `s` begins.
pub open spec fn leading_white_space(s: Seq<char>) -> nat
    decreases s.len(),
{
    if s.len() > 0 && is_white_space(s.first()) {
        1 + leading_white_space(s.drop_first())
    } else {
        0
    }
}

/// The number of white-space characters with which `s` ends.
pub open spec fn trailing_white_space(s: Seq<char>) -> nat
    decreases s.len(),
{
    if s.len() > 0 && is_white_space(s.last()) {
        1 + trailing_white_space(s.drop_last())
    } else {
        0
    }
}

/// `s` without the white space at its beginning and at its end.
pub open spec fn trimmed(s: Seq<char>) -> Seq<char> {
    let rest = s.skip(leading_white_space(s) as int);
    rest.take(rest.len() - trailing_white_space(rest))
}

/// `str::trim` of std: the slice of `s` without its leading and trailing
/// white space, where white space is what `char::is_whitespace` tells. The
/// contract states this over the characters of `s`; a result that is not
/// empty neither begins nor ends with white space.
#[verifier::external_body]
fn trim(s: &str) -> (inner: &str)
    ensures
        inner@ == trimmed(s@),
        inner@.len() > 0 ==> !is_white_space(inner@.first()) && !is_white_space(inner@.last()),
{
    s.trim()
}

/// `str::strip_prefix` of std with a string as the pattern: where `s` begins
/// with `prefix`, the rest of `s` behind it; `None` where it does not.
#[verifier::external_body]
fn strip_prefix<'a>(s: &'a str, prefix: &str) -> (rest: Option<&'a str>)
    ensures
        match rest {
            Some(tail) => s@ == prefix@ + tail@,
            None => !prefix@.is_prefix_of(s@),
        },
{
    s.strip_prefix(prefix)
}

/// `rand::random::<u8>()` of the crate rand: a byte from the thread's random
/// number generator. Nothing is claimed of the byte.
#[verifier::external_body]
fn random_byte() -> (byte: u8) {
    rand::random::<u8>()
}

/// `uuid::Uuid::new_v4().to_string()` of the crate uuid: a random version 4
/// UUID in its hyphenated form, which is 36 characters long.
#[verifier::external_body]
fn new_user_id() -> (id: String)
    ensures
        id@.len() == 36,
{
    uuid::Uuid::new_v4().to_string()
}

/// `chrono::Utc::now().timestamp()` of the crate chrono: the seconds since
/// the Unix epoch by the system clock. chrono computes a timestamp from a day
/// number that it holds in an `i32` and the seconds of the day, so its size
/// is bounded as stated. chrono panics where the system clock stands before
/// the Unix epoch.
#[verifier::external_body]
fn unix_now() -> (seconds: i64)
    ensures
        -CLOCK_RANGE <= seconds <= CLOCK_RANGE,
{
    chrono::Utc::now().timestamp()
}

/// No timestamp of the clock is further from the Unix epoch than this many
/// seconds: more than the days that an `i32` counts.
pub const CLOCK_RANGE: i64 = 186_000_000_000_000;

/// What a nickname given by the server begins with.
pub const NICKNAME_PREFIX: &'static str = "玩家_";

/// What an `Authorization` header begins with, before the token.
pub const BEARER: &'static str = "Bearer ";

/// The decimal digit `d`, for `d` below ten.
pub open spec fn digit_char(d: int) -> char {
    if d == 0 {
        '0'
    } else if d == 1 {
        '1'
    } else if d == 2 {
        '2'
    } else if d == 3 {
        '3'
    } else if d == 4 {
        '4'
    } else if d == 5 {
        '5'
    } else if d == 6 {
        '6'
    } else if d == 7 {
        '7'
    } else if d == 8 {
        '8'
    } else {
        '9'
    }
}

/// The nickname that the server gives from four bytes: the prefix, then the
/// last decimal digit of each byte.
pub open spec fn default_nickname_spec(bytes: Seq<u8>) -> Seq<char> {
    NICKNAME_PREFIX@ + Seq::new(NICKNAME_DIGITS as nat, |i: int| digit_char(bytes[i] as int % 10))
}

/// Whether `name` is a nickname that the server may have given: the prefix
/// and four decimal digits.
pub open spec fn is_default_nickname(name: Seq<char>) -> bool {
    exists|bytes: Seq<u8>| bytes.len() == NICKNAME_DIGITS && name == #[trigger] default_nickname_spec(bytes)
}

/// What becomes of a nickname that a player asks for: the name without the
/// white space round it, unless that is empty or longer than
/// [`MAX_NICKNAME_BYTES`] bytes in UTF-8.
pub open spec fn nickname_verdict(raw: Seq<char>) -> Result<Seq<char>, AuthError> {
    let name = trimmed(raw);
    if name.len() == 0 {
        Err(AuthError::EmptyNickname)
    } else if vstd::utf8::encode_utf8(name).len() > MAX_NICKNAME_BYTES {
        Err(AuthError::NicknameTooLong)
    } else {
        Ok(name)
    }
}

/// The decimal digit `d` as text.
fn digit_str(d: u8) -> (text: &'static str)
    requires
        d < 10,
    ensures
        text@ == seq![digit_char(d as int)],
{
    proof {
        reveal_strlit("0");
        reveal_strlit("1");
        reveal_strlit("2");
        reveal_strlit("3");
        reveal_strlit("4");
        reveal_strlit("5");
        reveal_strlit("6");
        reveal_strlit("7");
        reveal_strlit("8");
        reveal_strlit("9");
    }
    let text = match d {
        0 => "0",
        1 => "1",
        2 => "2",
        3 => "3",
        4 => "4",
        5 => "5",
        6 => "6",
        7 => "7",
        8 => "8",
        _ => "9",
    };
    text
}

/// The nickname that the server gives from four bytes: the prefix, then the
/// last decimal digit of each byte.
pub fn default_nickname(bytes: [u8; 4]) -> (name: String)
    ensures
        name@ == default_nickname_spec(bytes@),
        is_default_nickname(name@),
{
    let mut name = String::from_str(NICKNAME_PREFIX);
    let mut i: usize = 0;
    while i < NICKNAME_DIGITS
        invariant
            i <= NICKNAME_DIGITS,
            name@ == NICKNAME_PREFIX@ + Seq::new(i as nat, |k: int| digit_char(bytes@[k] as int % 10)),
        decreases NICKNAME_DIGITS - i,
    {
        name.append(digit_str(bytes[i] % 10));
        assert(name@ =~= NICKNAME_PREFIX@ + Seq::new(
            (i + 1) as nat,
            |k: int| digit_char(bytes@[k] as int % 10),
        ));
        i += 1;
    }
    name
}

/// A nickname that the server gives by chance.
pub fn random_nickname() -> (name: String)
    ensures
        is_default_nickname(name@),
{
    let bytes: [u8; 4] = [random_byte(), random_byte(), random_byte(), random_byte()];
    default_nickname(bytes)
}

/// The claims and the identity of the user `user_id` with the nickname
/// `nickname`, issued at `now`: the token expires [`TOKEN_LIFETIME`] seconds
/// later.
pub fn new_identity(user_id: String, nickname: String, now: i64) -> (issued: (Claims, UserIdentity))
    requires
        now + TOKEN_LIFETIME <= i64::MAX,
    ensures
        issued.0.sub@ == user_id@,
        issued.0.nickname@ == nickname@,
        issued.0.iat == now,
        issued.0.exp == now + TOKEN_LIFETIME,
        issued.1.user_id@ == user_id@,
        issued.1.nickname@ == nickname@,
        issued.1.created_at == now,
{
    let claims = Claims {
        sub: user_id.clone(),
        nickname: nickname.clone(),
        iat: now,
        exp: now + TOKEN_LIFETIME,
    };
    let identity = UserIdentity { user_id, nickname, created_at: now };
    (claims, identity)
}

/// The claims and the identity of a new user: a fresh id, a nickname given
/// by chance, issued now.
pub fn create_identity() -> (issued: (Claims, UserIdentity))
    ensures
        issued.0.sub@.len() == 36,
        is_default_nickname(issued.0.nickname@),
        -CLOCK_RANGE <= issued.0.iat <= CLOCK_RANGE,
        issued.0.exp == issued.0.iat + TOKEN_LIFETIME,
        issued.1.user_id@ == issued.0.sub@,
        issued.1.nickname@ == issued.0.nickname@,
        issued.1.created_at == issued.0.iat,
{
    let user_id = new_user_id();
    let now = unix_now();
    let nickname = random_nickname();
    new_identity(user_id, nickname, now)
}

/// The nickname that a player asks for with `raw`: `raw` without the white
/// space round it; refused where that is empty or longer than
/// [`MAX_NICKNAME_BYTES`] bytes.
pub fn validate_nickname(raw: &str) -> (verdict: Result<String, AuthError>)
    ensures
        match verdict {
            Ok(name) => nickname_verdict(raw@) == Ok::<Seq<char>, AuthError>(name@),
            Err(reason) => nickname_verdict(raw@) == Err::<Seq<char>, AuthError>(reason),
        },
{
    let name = trim(raw);
    if name.is_empty() {
        return Err(AuthError::EmptyNickname);
    }
    if name.as_bytes().len() > MAX_NICKNAME_BYTES {
        return Err(AuthError::NicknameTooLong);
    }
    Ok(name.to_owned())
}

/// The claims and the identity of the user of `old` under the nickname
/// `nickname`, renewed at `now`: the id and the time of issue stay, and the
/// token expires [`TOKEN_LIFETIME`] seconds after `now`.
pub fn renew_identity(old: &Claims, nickname: String, now: i64) -> (issued: (Claims, UserIdentity))
    requires
        now + TOKEN_LIFETIME <= i64::MAX,
    ensures
        issued.0.sub@ == old.sub@,
        issued.0.nickname@ == nickname@,
        issued.0.iat == old.iat,
        issued.0.exp == now + TOKEN_LIFETIME,
        issued.1.user_id@ == old.sub@,
        issued.1.nickname@ == nickname@,
        issued.1.created_at == old.iat,
{
    let claims = Claims {
        sub: old.sub.clone(),
        nickname: nickname.clone(),
        iat: old.iat,
        exp: now + TOKEN_LIFETIME,
    };
    let identity = UserIdentity { user_id: old.sub.clone(), nickname, created_at: old.iat };
    (claims, identity)
}

/// The answer to a request for the nickname `raw` by the user whose token
/// was read with the outcome `token`. The nickname is looked at first: where
/// it is refused, the token is not looked at. Then a token that was refused
/// refuses the request. Otherwise the user of the token gets the nickname,
/// `raw` without the white space round it, renewed now: the id and the time
/// of issue stay, and the new token expires [`TOKEN_LIFETIME`] seconds after
/// the time of the clock.
pub fn update_nickname(token: Result<Claims, AuthError>, raw: &str) -> (issued: Result<
    (Claims, UserIdentity),
    AuthError,
>)
    ensures
        match nickname_verdict(raw@) {
            Err(reason) => issued == Err::<(Claims, UserIdentity), AuthError>(reason),
            Ok(name) => match token {
                Err(reason) => issued == Err::<(Claims, UserIdentity), AuthError>(reason),
                Ok(old) => {
                    &&& issued matches Ok(pair)
                    &&& pair.0.sub@ == old.sub@
                    &&& pair.0.nickname@ == name
                    &&& pair.0.iat == old.iat
                    &&& TOKEN_LIFETIME - CLOCK_RANGE <= pair.0.exp <= TOKEN_LIFETIME + CLOCK_RANGE
                    &&& pair.1.user_id@ == old.sub@
                    &&& pair.1.nickname@ == name
                    &&& pair.1.created_at == old.iat
                },
            },
        },
{
    let nickname = match validate_nickname(raw) {
        Err(reason) => {
            return Err(reason);
        },
        Ok(nickname) => nickname,
    };
    let old = match token {
        Err(reason) => {
            return Err(reason);
        },
        Ok(old) => old,
    };
    let now = unix_now();
    Ok(renew_identity(&old, nickname, now))
}

/// The token that an `Authorization` header carries: what follows `Bearer `.
/// Refused where there is no header or where it begins otherwise.
pub fn bearer_token<'a>(header: Option<&'a str>) -> (token: Result<&'a str, AuthError>)
    ensures
        match header {
            None => token == Err::<&str, AuthError>(AuthError::MissingHeader),
            Some(text) => match token {
                Ok(jwt) => text@ == BEARER@ + jwt@,
                Err(reason) => reason == AuthError::MalformedHeader && !BEARER@.is_prefix_of(text@),
            },
        },
{
    match header {
        None => Err(AuthError::MissingHeader),
        Some(text) => match strip_prefix(text, BEARER) {
            Some(jwt) => Ok(jwt),
            None => Err(AuthError::MalformedHeader),
        },
    }
}

/// The `Authorization` header that carries `jwt`.
pub fn authorization_header(jwt: &str) -> (header: String)
    ensures
        header@ == BEARER@ + jwt@,
{
    String::from_str(BEARER).concat(jwt)
}

/// A header made for a token begins as a header must, and a token read
/// from it is the token for which it was made.
pub proof fn lemma_bearer_round_trip(jwt: Seq<char>, token: Seq<char>)
    requires
        BEARER@ + jwt == BEARER@ + token,
    ensures
        BEARER@.is_prefix_of(BEARER@ + jwt),
        jwt == token,
{
    let header = BEARER@ + jwt;
    assert(header.skip(BEARER@.len() as int) =~= jwt);
    assert(header.skip(BEARER@.len() as int) =~= token);
}

} // verus!
