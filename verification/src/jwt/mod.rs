//! Signed tokens with a time limit, and what a request must show to pass.
//!
//! A token carries a payload and the second at which it expires. The codec
//! signs and checks tokens with a secret. Whether a token has expired is
//! decided here, against a clock reading that the caller hands in, and
//! without any tolerance.

pub mod extractor;
pub mod middleware;

use crate::http::UNAUTHORIZED;
use crate::resp::Res;
use crate::text::same_folded;
use vstd::prelude::*;
use vstd::string::StringExecFns;

verus! {

/// The token that the codec makes of a payload and an expiry under a
/// secret, or the words in which it says why it makes none.
pub uninterp spec fn sealed(secret: Seq<char>, exp: u64, data: Seq<char>) -> Result<
    Seq<char>,
    Seq<char>,
>;

/// The expiry and the payload that the codec reads from a token under a
/// secret, each as far as the token's claims hold it, or the words in which
/// the codec says why it turns the token down.
pub uninterp spec fn unsealed(secret: Seq<char>, token: Seq<char>) -> Result<
    (Option<u64>, Option<Seq<char>>),
    Seq<char>,
>;

/// The characters of an optional string.
pub open spec fn opt_view(text: Option<String>) -> Option<Seq<char>> {
    match text {
        Some(t) => Some(t@),
        None => None,
    }
}

/// `jsonwebtoken::encode`, with the default header, the key that
/// `EncodingKey::from_secret` makes of the secret, and the claims `exp` and
/// `data`. An error comes back as the text that its `Display` gives. The
/// outcome depends on the three arguments alone. A token that comes out is
/// one that `unseal` accepts under the same secret, and it yields the same
/// expiry and the same payload.
#[verifier::external_body]
fn seal(secret: &str, exp: u64, data: &str) -> (res: Result<String, String>)
    ensures
        match res {
            Ok(token) => sealed(secret@, exp, data@) == Ok::<Seq<char>, Seq<char>>(token@)
                && unsealed(secret@, token@) == Ok::<(Option<u64>, Option<Seq<char>>), Seq<char>>(
                (Some(exp), Some(data@)),
            ),
            Err(words) => sealed(secret@, exp, data@) == Err::<Seq<char>, Seq<char>>(words@),
        },
{
    let mut claims = serde_json::Map::new();
    claims.insert("exp".to_string(), serde_json::Value::from(exp));
    claims.insert("data".to_string(), serde_json::Value::from(data));
    let key = jsonwebtoken::EncodingKey::from_secret(secret.as_bytes());
    jsonwebtoken::encode(&jsonwebtoken::Header::default(), &claims, &key).map_err(
        |e| e.to_string(),
    )
}

/// `jsonwebtoken::decode`, with the key that `DecodingKey::from_secret`
/// makes of the secret and the default validation, but for the expiry, which
/// the codec is told not to hold against its own clock. What comes back is
/// the claim `exp` where it is a whole number that is not negative, and the
/// claim `data` where it is a string. An error comes back as the text that
/// its `Display` gives. The outcome depends on the two arguments alone.
#[verifier::external_body]
fn unseal(secret: &str, token: &str) -> (res: Result<(Option<u64>, Option<String>), String>)
    ensures
        match res {
            Ok(claims) => unsealed(secret@, token@) == Ok::<
                (Option<u64>, Option<Seq<char>>),
                Seq<char>,
            >((claims.0, opt_view(claims.1))),
            Err(words) => unsealed(secret@, token@) == Err::<
                (Option<u64>, Option<Seq<char>>),
                Seq<char>,
            >(words@),
        },
{
    let mut rules = jsonwebtoken::Validation::default();
    rules.validate_exp = false;
    let key = jsonwebtoken::DecodingKey::from_secret(secret.as_bytes());
    let read = jsonwebtoken::decode::<serde_json::Value>(token, &key, &rules);
    let claims = read.map_err(|e| e.to_string())?.claims;
    let exp = claims.get("exp").and_then(|v| v.as_u64());
    let data = claims.get("data").and_then(|v| v.as_str()).map(|s| s.to_string());
    Ok((exp, data))
}

/// A character that a header value may hold as text: printable ASCII, or a
/// tab.
pub open spec fn visible(c: char) -> bool {
    (' ' <= c && c <= '~') || c == '\t'
}

/// `text` without the spaces and tabs it starts with.
pub open spec fn trimmed_start(text: Seq<char>) -> Seq<char>
    decreases text.len(),
{
    if text.len() > 0 && (text[0] == ' ' || text[0] == '\t') {
        trimmed_start(text.drop_first())
    } else {
        text
    }
}

/// The name of the scheme, in lower case.
pub open spec fn scheme() -> Seq<char> {
    "bearer"@
}

/// The token in the value of an authorization header. There is one where
/// the value is text, starts with the scheme `Bearer` in any case and has a
/// space behind it. The token is what follows, without leading blanks.
pub open spec fn bearer_of(value: Seq<char>) -> Option<Seq<char>> {
    if value.len() > 6 && value[6] == ' ' && same_folded(value.take(6), scheme()) && (forall|
        i: int,
    |
        0 <= i < value.len() ==> visible(#[trigger] value[i])) {
        Some(trimmed_start(value.skip(7)))
    } else {
        None
    }
}

/// `HeaderMapExt::typed_get` for `Authorization<Bearer>`, on a map that
/// holds `value` as its authorization header, and `Authorization::token` on
/// what it finds. A value that cannot stand in a header yields no token.
#[verifier::external_body]
fn bearer(value: &str) -> (token: Option<String>)
    ensures
        match token {
            Some(t) => bearer_of(value@) == Some(t@),
            None => bearer_of(value@) is None,
        },
{
    let held = axum_extra::headers::HeaderValue::from_str(value).ok()?;
    let mut map = axum::http::HeaderMap::new();
    map.insert(axum::http::header::AUTHORIZATION, held);
    let found: Option<axum_extra::headers::Authorization<axum_extra::headers::authorization::Bearer>> =
        axum_extra::headers::HeaderMapExt::typed_get(&map);
    found.map(|auth| auth.token().to_string())
}

/// The key that tokens are signed and checked with. It is made once and
/// handed to every call that needs it.
#[derive(Clone)]
pub struct Secret {
    key: String,
}

impl View for Secret {
    type V = Seq<char>;

    closed spec fn view(&self) -> Seq<char> {
        self.key@
    }
}

impl Secret {
    pub fn new(secret: &str) -> (made: Self)
        ensures
            made@ == secret@,
    {
        Secret { key: String::from_str(secret) }
    }
}

/// What a token states: the second at which it expires, and the payload.
#[derive(Debug, Clone, PartialEq, Eq)]
pub struct Claims<T> {
    pub exp: u64,
    pub data: T,
}

/// The lifetime of a token where none is given: fifteen days, in seconds.
pub const DURATION: u64 = 60 * 60 * 24 * 15;

/// Why a token was not made or not accepted.
#[derive(Debug, Clone, PartialEq, Eq)]
pub enum TokenError {
    /// The codec turned the token down, or made none. The text is the
    /// codec's own.
    Invalid(String),
    /// The token names no expiry that is a whole number.
    NoExpiry,
    /// The token's expiry has passed.
    Expired,
    /// The token holds no payload that is a string.
    NoPayload,
    /// The expiry of a new token would lie beyond the last second that can
    /// be written down.
    Lifetime,
}

/// A `TokenError` with the codec's words as characters.
pub enum Fault {
    Invalid(Seq<char>),
    NoExpiry,
    Expired,
    NoPayload,
    Lifetime,
}

impl Fault {
    /// What the error reads as.
    pub open spec fn text(self) -> Seq<char> {
        match self {
            Fault::Invalid(words) => words,
            Fault::NoExpiry => "Missing required claim: exp"@,
            Fault::Expired => "ExpiredSignature"@,
            Fault::NoPayload => "Missing required claim: data"@,
            Fault::Lifetime => "InvalidLifetime"@,
        }
    }
}

impl TokenError {
    pub open spec fn fault(self) -> Fault {
        match self {
            TokenError::Invalid(words) => Fault::Invalid(words@),
            TokenError::NoExpiry => Fault::NoExpiry,
            TokenError::Expired => Fault::Expired,
            TokenError::NoPayload => Fault::NoPayload,
            TokenError::Lifetime => Fault::Lifetime,
        }
    }

    /// What the error reads as.
    pub open spec fn text(self) -> Seq<char> {
        self.fault().text()
    }

    /// What the error reads as.
    pub fn to_text(&self) -> (text: String)
        ensures
            text@ == self.text(),
    {
        match self {
            TokenError::Invalid(words) => words.clone(),
            TokenError::NoExpiry => String::from_str("Missing required claim: exp"),
            TokenError::Expired => String::from_str("ExpiredSignature"),
            TokenError::NoPayload => String::from_str("Missing required claim: data"),
            TokenError::Lifetime => String::from_str("InvalidLifetime"),
        }
    }
}

/// The characters of a payload or of an error.
pub open spec fn outcome(res: Result<String, TokenError>) -> Result<Seq<char>, Fault> {
    match res {
        Ok(data) => Ok(data@),
        Err(e) => Err(e.fault()),
    }
}

/// What is made of the claims that the codec read from a token, at the
/// second `now`. A token is good up to and including the second of its
/// expiry. An expiry that has passed is reported before a missing payload.
pub open spec fn admitted(exp: Option<u64>, data: Option<Seq<char>>, now: u64) -> Result<
    Seq<char>,
    Fault,
> {
    match exp {
        None => Err(Fault::NoExpiry),
        Some(exp) => if exp < now {
            Err(Fault::Expired)
        } else {
            match data {
                None => Err(Fault::NoPayload),
                Some(data) => Ok(data),
            }
        },
    }
}

/// What decoding a token under a secret yields at the second `now`. A
/// token that the codec turns down is invalid, in the codec's words.
pub open spec fn decoded(secret: Seq<char>, token: Seq<char>, now: u64) -> Result<
    Seq<char>,
    Fault,
> {
    match unsealed(secret, token) {
        Err(words) => Err(Fault::Invalid(words)),
        Ok(claims) => admitted(claims.0, claims.1, now),
    }
}

/// What signing a payload under a secret yields, for a token that is
/// issued at the second `now` and lives for `duration` seconds. Where the
/// codec makes no token the payload is invalid, in the codec's words.
pub open spec fn encoded(secret: Seq<char>, data: Seq<char>, now: u64, duration: u64) -> Result<
    Seq<char>,
    Fault,
> {
    if now + duration > u64::MAX {
        Err(Fault::Lifetime)
    } else {
        match sealed(secret, (now + duration) as u64, data) {
            Ok(token) => Ok(token),
            Err(words) => Err(Fault::Invalid(words)),
        }
    }
}

/// Holds the claims of a token whose signature is good against the clock.
pub fn verify_claims(exp: Option<u64>, data: Option<String>, now: u64) -> (res: Result<String, TokenError>)
    ensures
        outcome(res) == admitted(exp, opt_view(data), now),
{
    match exp {
        None => Err(TokenError::NoExpiry),
        Some(exp) => {
            if exp < now {
                Err(TokenError::Expired)
            } else {
                match data {
                    None => Err(TokenError::NoPayload),
                    Some(data) => Ok(data),
                }
            }
        },
    }
}

/// Makes the claims of a payload that is issued at the second `now` and
/// lives for `duration` seconds.
pub fn claims_for<T>(data: T, now: u64, duration: u64) -> (res: Result<Claims<T>, TokenError>)
    ensures
        match res {
            Ok(claims) => now + duration <= u64::MAX && claims.exp == now + duration && claims.data
                == data,
            Err(e) => now + duration > u64::MAX && e == TokenError::Lifetime,
        },
{
    match now.checked_add(duration) {
        Some(exp) => Ok(Claims { exp, data }),
        None => Err(TokenError::Lifetime),
    }
}

/// Signs a payload into a token that expires `duration` seconds after
/// `now`.
///
/// The token is the codec's. Decoding it under the same secret, at any
/// second up to its expiry, gives the payload back as it was.
pub fn encode_for(secret: &Secret, data: &str, now: u64, duration: u64) -> (res: Result<
    String,
    TokenError,
>)
    ensures
        outcome(res) == encoded(secret@, data@, now, duration),
        res is Ok ==> forall|later: u64|
            later <= now + duration ==> #[trigger] decoded(secret@, res->Ok_0@, later) == Ok::<
                Seq<char>,
                Fault,
            >(data@),
        res is Ok ==> forall|later: u64|
            later > now + duration ==> #[trigger] decoded(secret@, res->Ok_0@, later) == Err::<
                Seq<char>,
                Fault,
            >(Fault::Expired),
{
    match claims_for(data, now, duration) {
        Err(e) => Err(e),
        Ok(claims) => match seal(secret.key.as_str(), claims.exp, claims.data) {
            Ok(token) => Ok(token),
            Err(words) => Err(TokenError::Invalid(words)),
        },
    }
}

/// Signs a payload into a token of the default lifetime.
pub fn encode(secret: &Secret, data: &str, now: u64) -> (res: Result<String, TokenError>)
    ensures
        outcome(res) == encoded(secret@, data@, now, DURATION),
        res is Ok ==> forall|later: u64|
            later <= now + DURATION ==> #[trigger] decoded(secret@, res->Ok_0@, later) == Ok::<
                Seq<char>,
                Fault,
            >(data@),
        res is Ok ==> forall|later: u64|
            later > now + DURATION ==> #[trigger] decoded(secret@, res->Ok_0@, later) == Err::<
                Seq<char>,
                Fault,
            >(Fault::Expired),
{
    encode_for(secret, data, now, DURATION)
}

/// Checks a token and gives its payload.
///
/// The codec answers for the token's form and its signature, and a token
/// that it turns down is invalid in the codec's own words. A token that it
/// accepts is then held against `now`: one whose expiry lies before `now`
/// is refused as expired.
pub fn decode(secret: &Secret, token: &str, now: u64) -> (res: Result<String, TokenError>)
    ensures
        outcome(res) == decoded(secret@, token@, now),
{
    match unseal(secret.key.as_str(), token) {
        Err(words) => Err(TokenError::Invalid(words)),
        Ok((exp, data)) => verify_claims(exp, data, now),
    }
}

/// An expired token is never accepted: whatever else it holds, it is
/// refused as expired once the codec has found its signature good.
pub proof fn lemma_expired_is_refused(secret: Seq<char>, token: Seq<char>, now: u64)
    requires
        unsealed(secret, token) matches Ok((Some(exp), _)) && exp < now,
    ensures
        decoded(secret, token, now) == Err::<Seq<char>, Fault>(Fault::Expired),
{
}

/// The message of a request without a token.
pub open spec fn no_token() -> Seq<char> {
    "身份认证失败: 请求未携带有效token"@
}

/// What the message of a request with a bad token starts with.
pub open spec fn bad_token() -> Seq<char> {
    "身份认证失败: "@
}

/// What a request's authorization header yields at the second `now`: the
/// payload of the token it carries, or the message it is rejected with.
/// The message of a token that does not decode is the opening words and
/// then the reason, which for a token that the codec turns down is the
/// codec's own.
pub open spec fn authorized(secret: Seq<char>, authorization: Option<Seq<char>>, now: u64) -> Result<
    Seq<char>,
    Seq<char>,
> {
    let token = match authorization {
        Some(value) => bearer_of(value),
        None => None,
    };
    match token {
        None => Err(no_token()),
        Some(token) => match decoded(secret, token, now) {
            Ok(data) => Ok(data),
            Err(fault) => Err(bad_token() + fault.text()),
        },
    }
}

/// `res` is what `authorized` describes.
pub open spec fn authorizes(
    res: Result<String, Res<()>>,
    secret: Seq<char>,
    authorization: Option<Seq<char>>,
    now: u64,
) -> bool {
    match authorized(secret, authorization, now) {
        Ok(data) => res is Ok && res->Ok_0@ == data,
        Err(message) => res is Err && res->Err_0.says(UNAUTHORIZED, message),
    }
}

/// Reads the bearer token of an authorization header and decodes it.
///
/// A request without the header, or with one that holds no bearer token, is
/// rejected as unauthorized, and so is one whose token does not decode; the
/// message then ends in the reason.
pub fn auth_token(secret: &Secret, authorization: Option<&str>, now: u64) -> (res: Result<
    String,
    Res<()>,
>)
    ensures
        authorizes(
            res,
            secret@,
            match authorization {
                Some(value) => Some(value@),
                None => None,
            },
            now,
        ),
{
    let token = match authorization {
        Some(value) => bearer(value),
        None => None,
    };
    match token {
        None => Err(Res::msg(UNAUTHORIZED, "身份认证失败: 请求未携带有效token")),
        Some(token) => match decode(secret, token.as_str(), now) {
            Ok(data) => Ok(data),
            Err(e) => {
                let mut message = String::from_str("身份认证失败: ");
                let detail = e.to_text();
                message.append(detail.as_str());
                Err(Res::msg(UNAUTHORIZED, message.as_str()))
            },
        },
    }
}

} // verus!
