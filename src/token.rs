//! Signed, time-bounded tokens: bearer and refresh tokens for users, tokens
//! that confirm a registration, and scoped sender tokens that authorize
//! publishing into one named channel. Signing and reading go through
//! jsonwebtoken; which claims a token carries, and whether it is still live at
//! the caller's clock, is decided here.
use jsonwebtoken::errors::Error as JwtError;
use jsonwebtoken::{Algorithm, DecodingKey, EncodingKey, Header, Validation};
use serde_json::{Map as JsonMap, Value};
use std::sync::Arc;
use vstd::prelude::*;
use vstd::string::*;

use crate::config::AppConfig;
use crate::error::BrokerError;

verus! {

/// Seconds a bearer token stays valid.
pub const BEARER_TOKEN_LIFETIME: u64 = 60;

/// Seconds a refresh token stays valid (one week).
pub const REFRESH_TOKEN_LIFETIME: u64 = 604800;

/// Seconds a registration-confirming token stays valid (one day).
pub const REGISTRATION_TOKEN_LIFETIME: u64 = 86400;

/// Seconds a sender token stays valid (366 days).
pub const SENDER_TOKEN_LIFETIME: u64 = 31622400;

#[verifier::external_type_specification]
#[verifier::external_body]
pub struct ExJwtError(jsonwebtoken::errors::Error);

/// The claims a token may carry. Absent claims are left out of the token.
pub struct ClaimFields {
    pub sub: Option<String>,
    pub user_id: Option<i64>,
    pub user_email: Option<String>,
    pub channel: Option<String>,
    pub email: Option<String>,
    pub permissions: Option<Vec<String>>,
    pub exp: Option<u64>,
}

/// Mathematical value of a claim set.
pub struct ClaimsView {
    pub sub: Option<Seq<char>>,
    pub user_id: Option<i64>,
    pub user_email: Option<Seq<char>>,
    pub channel: Option<Seq<char>>,
    pub email: Option<Seq<char>>,
    pub permissions: Option<Seq<Seq<char>>>,
    pub exp: Option<u64>,
}

pub open spec fn text_view(s: Option<String>) -> Option<Seq<char>> {
    match s {
        Some(t) => Some(t@),
        None => None,
    }
}

pub open spec fn texts_view(v: Seq<String>) -> Seq<Seq<char>> {
    v.map_values(|s: String| s@)
}

impl View for ClaimFields {
    type V = ClaimsView;

    open spec fn view(&self) -> ClaimsView {
        ClaimsView {
            sub: text_view(self.sub),
            user_id: self.user_id,
            user_email: text_view(self.user_email),
            channel: text_view(self.channel),
            email: text_view(self.email),
            permissions: match self.permissions {
                Some(p) => Some(texts_view(p@)),
                None => None,
            },
            exp: self.exp,
        }
    }
}

/// The compact HS256 token that jsonwebtoken writes for `claims` under `secret`.
pub uninterp spec fn signed_token(claims: ClaimsView, secret: Seq<char>) -> Seq<char>;

/// The claims jsonwebtoken reads from `token` under `secret`, when it accepts
/// the token's form, its HS256 signature and the presence of an `exp` claim.
pub uninterp spec fn token_claims(token: Seq<char>, secret: Seq<char>) -> Option<ClaimsView>;

/// Relies on `jsonwebtoken::encode` with the default HS256 header: the token
/// depends on the claims and the secret alone, and it cannot fail here, since
/// the header's algorithm matches a key made by `from_secret`, a map of strings,
/// integers and string lists always serializes, and HMAC signing always succeeds.
#[verifier::external_body]
fn sign_claims(claims: &ClaimFields, secret: &str) -> (r: Result<String, JwtError>)
    ensures
        r is Ok,
        r matches Ok(t) ==> t@ == signed_token(claims@, secret@),
{
    let text = |k: &str, v: &Option<String>| Some((k.to_string(), Value::from(v.clone()?)));
    let map: JsonMap<String, Value> = [
        text("sub", &claims.sub),
        claims.user_id.map(|v| ("user_id".to_string(), v.into())),
        text("user_email", &claims.user_email),
        text("channel", &claims.channel),
        text("email", &claims.email),
        claims.permissions.clone().map(|v| ("permissions".to_string(), v.into())),
        claims.exp.map(|v| ("exp".to_string(), v.into())),
    ].into_iter().flatten().collect();
    jsonwebtoken::encode(&Header::default(), &map, &EncodingKey::from_secret(secret.as_bytes()))
}

/// Relies on `jsonwebtoken::decode` with HS256, told not to look at the system
/// clock: expiry is judged by the caller against its own clock. The claims are
/// handed back as found, each one absent unless it has the expected JSON type.
/// A token that `jsonwebtoken::encode` wrote under the same secret, with an
/// `exp` claim, is accepted: decoding recomputes the HMAC that encoding
/// computed. Whatever secret a token was written under, the claims handed back
/// on success are the ones it was written from: they are parsed from the
/// token's own payload, which is the JSON that encoding wrote.
#[verifier::external_body]
fn read_claims(token: &str, secret: &str) -> (r: Result<ClaimFields, JwtError>)
    ensures
        match r {
            Ok(c) => token_claims(token@, secret@) == Some(c@),
            Err(_) => token_claims(token@, secret@) is None,
        },
        forall|c: ClaimsView| #[trigger] signed_token(c, secret@) == token@ ==> (c.exp is None || r is Ok),
        r matches Ok(x) ==> forall|c: ClaimsView, key: Seq<char>| #[trigger]
            signed_token(c, key) == token@ ==> x@ == c,
{
    let mut validation = Validation::new(Algorithm::HS256);
    validation.validate_exp = false;
    let key = &DecodingKey::from_secret(secret.as_bytes());
    let c: JsonMap<String, Value> = jsonwebtoken::decode(token, key, &validation)?.claims;
    let text = |k: &str| c.get(k).and_then(Value::as_str).map(str::to_string);
    Ok(ClaimFields {
        sub: text("sub"),
        user_id: c.get("user_id").and_then(Value::as_i64),
        user_email: text("user_email"),
        channel: text("channel"),
        email: text("email"),
        permissions: c.get("permissions").and_then(Value::as_array).and_then(|a| a.iter().map(|v| v.as_str().map(str::to_string)).collect()),
        exp: c.get("exp").and_then(Value::as_u64),
    })
}

/// A token is live at `now` when it carries an expiry that `now` has not passed.
pub open spec fn live(exp: Option<u64>, now: u64) -> bool {
    exp matches Some(x) && now <= x
}

/// Claims of a bearer token: its subject (the user's email), the user id, the
/// user's permissions, and its expiry.
pub struct BearerClaims {
    pub sub: String,
    pub user_id: i64,
    pub permissions: Vec<String>,
    pub exp: u64,
}

/// Claims of a refresh token.
pub struct RefreshClaims {
    pub user_id: i64,
    pub user_email: String,
    pub exp: u64,
}

/// What a sender token binds: the channel, the admin who may publish to it, and
/// the expiry in seconds since the Unix epoch.
#[derive(Debug)]
pub struct NotificationSenderClaim {
    pub channel: String,
    pub email: String,
    pub exp: u64,
}

/// A bearer token and the refresh token that renews it.
pub struct Tokens {
    pub bearer: String,
    pub refresh: String,
}

pub open spec fn bearer_accepts(c: ClaimsView, now: u64) -> bool {
    c.sub is Some && c.user_id is Some && c.permissions is Some && live(c.exp, now)
}

pub open spec fn refresh_accepts(c: ClaimsView, now: u64) -> bool {
    c.user_id is Some && c.user_email is Some && live(c.exp, now)
}

pub open spec fn registration_accepts(c: ClaimsView, now: u64) -> bool {
    c.user_id is Some && live(c.exp, now)
}

pub open spec fn sender_accepts(c: ClaimsView, now: u64) -> bool {
    c.channel is Some && c.email is Some && live(c.exp, now)
}

/// Reads bearer claims out of a claim set at time `now`.
pub fn check_bearer_claims(c: ClaimFields, now: u64) -> (r: Result<BearerClaims, BrokerError>)
    ensures
        bearer_accepts(c@, now) ==> (r matches Ok(b) && {
            &&& Some(b.sub@) == c@.sub
            &&& Some(b.user_id) == c@.user_id
            &&& Some(texts_view(b.permissions@)) == c@.permissions
            &&& Some(b.exp) == c@.exp
        }),
        !bearer_accepts(c@, now) ==> r == Err::<BearerClaims, BrokerError>(BrokerError::Unauthorized),
{
    match c {
        ClaimFields { sub: Some(sub), user_id: Some(user_id), permissions: Some(permissions), exp: Some(exp), .. } => {
            if exp < now {
                Err(BrokerError::Unauthorized)
            } else {
                Ok(BearerClaims { sub, user_id, permissions, exp })
            }
        },
        _ => Err(BrokerError::Unauthorized),
    }
}

/// Reads refresh claims out of a claim set at time `now`.
pub fn check_refresh_claims(c: ClaimFields, now: u64) -> (r: Result<RefreshClaims, BrokerError>)
    ensures
        refresh_accepts(c@, now) ==> (r matches Ok(f) && {
            &&& Some(f.user_id) == c@.user_id
            &&& Some(f.user_email@) == c@.user_email
            &&& Some(f.exp) == c@.exp
        }),
        !refresh_accepts(c@, now) ==> r == Err::<RefreshClaims, BrokerError>(BrokerError::Unauthorized),
{
    match c {
        ClaimFields { user_id: Some(user_id), user_email: Some(user_email), exp: Some(exp), .. } => {
            if exp < now {
                Err(BrokerError::Unauthorized)
            } else {
                Ok(RefreshClaims { user_id, user_email, exp })
            }
        },
        _ => Err(BrokerError::Unauthorized),
    }
}

/// Reads the user id a registration token confirms, at time `now`.
pub fn check_registration_claims(c: ClaimFields, now: u64) -> (r: Result<i64, BrokerError>)
    ensures
        registration_accepts(c@, now) ==> r == Ok::<i64, BrokerError>(c@.user_id->Some_0),
        !registration_accepts(c@, now) ==> r == Err::<i64, BrokerError>(BrokerError::Unauthorized),
{
    match c {
        ClaimFields { user_id: Some(user_id), exp: Some(exp), .. } => {
            if exp < now {
                Err(BrokerError::Unauthorized)
            } else {
                Ok(user_id)
            }
        },
        _ => Err(BrokerError::Unauthorized),
    }
}

/// Reads sender claims out of a claim set at time `now`: the channel and the
/// email must be present and the expiry must not have passed.
pub fn check_sender_claims(c: ClaimFields, now: u64) -> (r: Result<NotificationSenderClaim, BrokerError>)
    ensures
        sender_accepts(c@, now) ==> (r matches Ok(s) && {
            &&& Some(s.channel@) == c@.channel
            &&& Some(s.email@) == c@.email
            &&& Some(s.exp) == c@.exp
        }),
        !sender_accepts(c@, now) ==> r == Err::<NotificationSenderClaim, BrokerError>(BrokerError::Unauthorized),
{
    match c {
        ClaimFields { channel: Some(channel), email: Some(email), exp: Some(exp), .. } => {
            if exp < now {
                Err(BrokerError::Unauthorized)
            } else {
                Ok(NotificationSenderClaim { channel, email, exp })
            }
        },
        _ => Err(BrokerError::Unauthorized),
    }
}

/// Claims of a bearer token for a user.
pub open spec fn bearer_claims_of(user_id: i64, email: Seq<char>, permissions: Seq<Seq<char>>, exp: u64) -> ClaimsView {
    ClaimsView {
        sub: Some(email),
        user_id: Some(user_id),
        user_email: None,
        channel: None,
        email: None,
        permissions: Some(permissions),
        exp: Some(exp),
    }
}

/// Claims of a refresh token for a user.
pub open spec fn refresh_claims_of(user_id: i64, email: Seq<char>, exp: u64) -> ClaimsView {
    ClaimsView {
        sub: None,
        user_id: Some(user_id),
        user_email: Some(email),
        channel: None,
        email: None,
        permissions: None,
        exp: Some(exp),
    }
}

/// Claims of a registration-confirming token.
pub open spec fn registration_claims_of(user_id: i64, exp: u64) -> ClaimsView {
    ClaimsView {
        sub: None,
        user_id: Some(user_id),
        user_email: None,
        channel: None,
        email: None,
        permissions: None,
        exp: Some(exp),
    }
}

/// Claims of a sender token.
pub open spec fn sender_claims_of(channel: Seq<char>, email: Seq<char>, exp: u64) -> ClaimsView {
    ClaimsView {
        sub: None,
        user_id: None,
        user_email: None,
        channel: Some(channel),
        email: Some(email),
        permissions: None,
        exp: Some(exp),
    }
}

fn sign(claims: &ClaimFields, secret: &String) -> (r: Result<String, BrokerError>)
    ensures
        r matches Ok(t) && t@ == signed_token(claims@, secret@),
{
    match sign_claims(claims, secret.as_str()) {
        Ok(t) => Ok(t),
        Err(_) => Err(BrokerError::InternalError),
    }
}

fn read(token: &str, secret: &String) -> (r: Result<ClaimFields, BrokerError>)
    ensures
        match r {
            Ok(c) => token_claims(token@, secret@) == Some(c@),
            Err(e) => e == BrokerError::Unauthorized && token_claims(token@, secret@) is None,
        },
        forall|c: ClaimsView| #[trigger] signed_token(c, secret@) == token@ ==> (c.exp is None || r is Ok),
        forall|c: ClaimsView, key: Seq<char>|
            #[trigger] signed_token(c, key) == token@ ==> (r matches Ok(x) ==> x@ == c),
{
    match read_claims(token, secret.as_str()) {
        Ok(c) => Ok(c),
        Err(_) => Err(BrokerError::Unauthorized),
    }
}

/// Issues and checks tokens with the secrets of one configuration. Sender and
/// registration tokens share a secret that is kept apart from the bearer and
/// refresh secrets.
pub struct JwtService {
    config: Arc<AppConfig>,
}

impl JwtService {
    pub fn new(config: Arc<AppConfig>) -> (r: JwtService)
        ensures
            r.config() == config,
    {
        JwtService { config }
    }

    pub closed spec fn config(&self) -> Arc<AppConfig> {
        self.config
    }

    pub open spec fn bearer_secret(&self) -> Seq<char> {
        self.config().bearer_secret@
    }

    pub open spec fn refresh_secret(&self) -> Seq<char> {
        self.config().refresh_secret@
    }

    pub open spec fn sender_secret(&self) -> Seq<char> {
        self.config().verify_registration_secret@
    }

    /// Issues a bearer token and a refresh token for a user at time `now`.
    pub fn create_token(&self, user_id: i64, email: &str, permissions: Vec<String>, now: u64) -> (r:
        Result<Tokens, BrokerError>)
        requires
            now <= u64::MAX - REFRESH_TOKEN_LIFETIME,
        ensures
            r matches Ok(t) && {
                &&& t.bearer@ == signed_token(
                    bearer_claims_of(user_id, email@, texts_view(permissions@), (now + BEARER_TOKEN_LIFETIME) as u64),
                    self.bearer_secret(),
                )
                &&& t.refresh@ == signed_token(
                    refresh_claims_of(user_id, email@, (now + REFRESH_TOKEN_LIFETIME) as u64),
                    self.refresh_secret(),
                )
            },
    {
        let bearer_claims = ClaimFields {
            sub: Some(String::from_str(email)),
            user_id: Some(user_id),
            user_email: None,
            channel: None,
            email: None,
            permissions: Some(permissions),
            exp: Some(now + BEARER_TOKEN_LIFETIME),
        };
        let bearer = sign(&bearer_claims, &self.config.bearer_secret)?;
        let refresh_claims = ClaimFields {
            sub: None,
            user_id: Some(user_id),
            user_email: Some(String::from_str(email)),
            channel: None,
            email: None,
            permissions: None,
            exp: Some(now + REFRESH_TOKEN_LIFETIME),
        };
        let refresh = sign(&refresh_claims, &self.config.refresh_secret)?;
        Ok(Tokens { bearer, refresh })
    }

    /// Checks a bearer token at time `now`; every failure is `Unauthorized`.
    pub fn decode_bearer_token(&self, token: &str, now: u64) -> (r: Result<BearerClaims, BrokerError>)
        ensures
            match token_claims(token@, self.bearer_secret()) {
                Some(c) if bearer_accepts(c, now) => r matches Ok(b) && Some(b.user_id) == c.user_id
                    && Some(b.sub@) == c.sub && Some(texts_view(b.permissions@)) == c.permissions
                    && Some(b.exp) == c.exp,
                _ => r == Err::<BearerClaims, BrokerError>(BrokerError::Unauthorized),
            },
            forall|c: ClaimsView, key: Seq<char>|
                #[trigger] signed_token(c, key) == token@ && !bearer_accepts(c, now) ==> r
                    == Err::<BearerClaims, BrokerError>(BrokerError::Unauthorized),
            forall|c: ClaimsView|
                #[trigger] signed_token(c, self.bearer_secret()) == token@ && bearer_accepts(c, now)
                    ==> (r matches Ok(b) && Some(b.user_id) == c.user_id && Some(b.sub@) == c.sub
                    && Some(texts_view(b.permissions@)) == c.permissions && Some(b.exp) == c.exp),
    {
        let claims = read(token, &self.config.bearer_secret)?;
        check_bearer_claims(claims, now)
    }

    /// Checks a refresh token at time `now`; every failure is `Unauthorized`.
    pub fn decode_refresh_token(&self, token: &str, now: u64) -> (r: Result<RefreshClaims, BrokerError>)
        ensures
            match token_claims(token@, self.refresh_secret()) {
                Some(c) if refresh_accepts(c, now) => r matches Ok(f) && Some(f.user_id) == c.user_id
                    && Some(f.user_email@) == c.user_email && Some(f.exp) == c.exp,
                _ => r == Err::<RefreshClaims, BrokerError>(BrokerError::Unauthorized),
            },
            forall|c: ClaimsView, key: Seq<char>|
                #[trigger] signed_token(c, key) == token@ && !refresh_accepts(c, now) ==> r
                    == Err::<RefreshClaims, BrokerError>(BrokerError::Unauthorized),
            forall|c: ClaimsView|
                #[trigger] signed_token(c, self.refresh_secret()) == token@ && refresh_accepts(c, now)
                    ==> (r matches Ok(f) && Some(f.user_id) == c.user_id && Some(f.user_email@)
                    == c.user_email && Some(f.exp) == c.exp),
    {
        let claims = read(token, &self.config.refresh_secret)?;
        check_refresh_claims(claims, now)
    }

    /// Issues the token that confirms a user's registration at time `now`.
    pub fn create_verify_registration_token(&self, user_id: i64, now: u64) -> (r: Result<String, BrokerError>)
        requires
            now <= u64::MAX - REGISTRATION_TOKEN_LIFETIME,
        ensures
            r matches Ok(t) && t@ == signed_token(
                    registration_claims_of(user_id, (now + REGISTRATION_TOKEN_LIFETIME) as u64),
                    self.sender_secret(),
                ),
    {
        let claims = ClaimFields {
            sub: None,
            user_id: Some(user_id),
            user_email: None,
            channel: None,
            email: None,
            permissions: None,
            exp: Some(now + REGISTRATION_TOKEN_LIFETIME),
        };
        sign(&claims, &self.config.verify_registration_secret)
    }

    /// Reads the user id a registration token confirms, at time `now`.
    pub fn decode_verify_registration_token(&self, token: &str, now: u64) -> (r: Result<i64, BrokerError>)
        ensures
            match token_claims(token@, self.sender_secret()) {
                Some(c) if registration_accepts(c, now) => r == Ok::<i64, BrokerError>(c.user_id->Some_0),
                _ => r == Err::<i64, BrokerError>(BrokerError::Unauthorized),
            },
            forall|c: ClaimsView, key: Seq<char>|
                #[trigger] signed_token(c, key) == token@ && !registration_accepts(c, now) ==> r
                    == Err::<i64, BrokerError>(BrokerError::Unauthorized),
            forall|c: ClaimsView|
                #[trigger] signed_token(c, self.sender_secret()) == token@ && registration_accepts(c, now)
                    ==> r == Ok::<i64, BrokerError>(c.user_id->Some_0),
    {
        let claims = read(token, &self.config.verify_registration_secret)?;
        check_registration_claims(claims, now)
    }

    /// Issues the sender token for `channel` and `email` at time `now`.
    pub fn create_notification_sender_token(&self, channel: &str, email: &str, now: u64) -> (r:
        Result<String, BrokerError>)
        requires
            now <= u64::MAX - SENDER_TOKEN_LIFETIME,
        ensures
            r matches Ok(t) && t@ == signed_token(
                    sender_claims_of(channel@, email@, (now + SENDER_TOKEN_LIFETIME) as u64),
                    self.sender_secret(),
                ),
    {
        let claims = ClaimFields {
            sub: None,
            user_id: None,
            user_email: None,
            channel: Some(String::from_str(channel)),
            email: Some(String::from_str(email)),
            permissions: None,
            exp: Some(now + SENDER_TOKEN_LIFETIME),
        };
        sign(&claims, &self.config.verify_registration_secret)
    }

    /// Checks a sender token at time `now`: a bad signature, a missing claim or
    /// a passed expiry is `Unauthorized`.
    pub fn decode_notification_sender_token(&self, token: &str, now: u64) -> (r: Result<
        NotificationSenderClaim,
        BrokerError,
    >)
        ensures
            match token_claims(token@, self.sender_secret()) {
                Some(c) if sender_accepts(c, now) => r matches Ok(s) && Some(s.channel@) == c.channel
                    && Some(s.email@) == c.email && Some(s.exp) == c.exp,
                _ => r == Err::<NotificationSenderClaim, BrokerError>(BrokerError::Unauthorized),
            },
            forall|channel: Seq<char>, email: Seq<char>, exp: u64|
                #[trigger] signed_token(sender_claims_of(channel, email, exp), self.sender_secret())
                    == token@ ==> if now <= exp {
                    r matches Ok(s) && s.channel@ == channel && s.email@ == email && s.exp == exp
                } else {
                    r == Err::<NotificationSenderClaim, BrokerError>(BrokerError::Unauthorized)
                },
            forall|c: ClaimsView, key: Seq<char>|
                #[trigger] signed_token(c, key) == token@ && !sender_accepts(c, now) ==> r
                    == Err::<NotificationSenderClaim, BrokerError>(BrokerError::Unauthorized),
    {
        let claims = read(token, &self.config.verify_registration_secret)?;
        check_sender_claims(claims, now)
    }
}

/// The claims of a sender token issued at `issued` for `channel` and `email`
/// are accepted, and grant that pair, at every time up to the expiry `issued +
/// SENDER_TOKEN_LIFETIME`, and are refused at every later time.
pub proof fn lemma_sender_claim_lifetime(channel: Seq<char>, email: Seq<char>, issued: u64, now: u64)
    requires
        issued <= u64::MAX - SENDER_TOKEN_LIFETIME,
    ensures
        sender_accepts(sender_claims_of(channel, email, (issued + SENDER_TOKEN_LIFETIME) as u64), now)
            <==> now <= issued + SENDER_TOKEN_LIFETIME,
        sender_claims_of(channel, email, (issued + SENDER_TOKEN_LIFETIME) as u64).channel == Some(channel),
        sender_claims_of(channel, email, (issued + SENDER_TOKEN_LIFETIME) as u64).email == Some(email),
{
}

} // verus!
