use crate::error::TokenError;
use crate::secrets::pair_views;
use crate::settings::ClientConfig;
use vstd::prelude::*;

verus! {

#[verifier::external_type_specification]
#[verifier::external_body]
pub struct ExBiscuitError(biscuit::errors::Error);

/// The payload part of a compact signed token, base64url-decoded, or `None`
/// when the token has no payload part or it does not decode.
pub uninterp spec fn payload_of(token: Seq<char>) -> Option<Seq<u8>>;

/// The `exp` member of a JSON object given as bytes, when the bytes parse as
/// JSON and the member is an integer that fits in an `i64`.
pub uninterp spec fn exp_member_of(payload: Seq<u8>) -> Option<i64>;

/// The expiry claim of a token, read from its payload without checking the
/// signature, when the payload decodes and carries one.
pub open spec fn expiry_claim(token: Seq<char>) -> Option<i64> {
    match payload_of(token) {
        Some(p) => exp_member_of(p),
        None => None,
    }
}

/// Relies on biscuit's `Compact::decode` and `Compact::part`: the token is
/// split at its dots and the second part is base64url-decoded to bytes;
/// neither checks the signature.
#[verifier::external_body]
fn token_payload(token: &str) -> (r: Result<Vec<u8>, biscuit::errors::Error>)
    ensures
        r.is_ok() <==> payload_of(token@).is_some(),
        r matches Ok(p) ==> payload_of(token@) == Some(p@),
{
    biscuit::Compact::decode(token).part::<Vec<u8>>(1)
}

/// Relies on serde_json's `from_slice`, `Value::get` and `Value::as_i64`:
/// the bytes are parsed as JSON and the `exp` member is read as an integer.
#[verifier::external_body]
fn exp_member(payload: &[u8]) -> (r: Option<i64>)
    ensures
        r == exp_member_of(payload@),
{
    match serde_json::from_slice::<serde_json::Value>(payload) {
        Ok(v) => match v.get("exp") {
            Some(e) => e.as_i64(),
            None => None,
        },
        Err(_) => None,
    }
}

/// Relies on chrono's `Utc::now` and `DateTime::timestamp`: the current time,
/// in whole seconds since the Unix epoch. Nothing is promised of the value.
/// (`Utc::now` panics only when the system clock reads before the epoch.)
#[verifier::external_body]
fn now_timestamp() -> (r: i64) {
    chrono::Utc::now().timestamp()
}

/// A bearer token together with the time, in seconds since the Unix epoch,
/// at which it stops being valid.
pub struct BearerBearer {
    pub bearer_token_str: String,
    pub exp: i64,
}

/// A credential is valid at `now` exactly while `now` is before its expiry.
pub open spec fn valid_at_spec(b: BearerBearer, now: int) -> bool {
    now < b.exp
}

impl BearerBearer {
    /// Whether the credential is still valid at time `now`.
    pub fn valid_at(&self, now: i64) -> (r: bool)
        ensures
            r == valid_at_spec(*self, now as int),
    {
        now < self.exp
    }

    /// Whether the credential is still valid at the current time.
    pub fn valid(&self) -> (r: bool)
        ensures
            exists|now: i64| r == valid_at_spec(*self, now as int),
    {
        let now = now_timestamp();
        self.valid_at(now)
    }

    /// An identical copy of this credential.
    pub fn duplicate(&self) -> (r: BearerBearer)
        ensures
            r == *self,
    {
        BearerBearer { bearer_token_str: self.bearer_token_str.clone(), exp: self.exp }
    }
}

/// Builds a credential from a token and the expiry claim decoded from it.
pub fn bearer_from_expiry(token: String, expiry: Option<i64>) -> (r: Result<BearerBearer, TokenError>)
    ensures
        match expiry {
            Some(t) => r == Ok::<BearerBearer, TokenError>(BearerBearer { bearer_token_str: token, exp: t }),
            None => r == Err::<BearerBearer, TokenError>(TokenError::NoExpiry),
        },
{
    match expiry {
        Some(t) => Ok(BearerBearer { bearer_token_str: token, exp: t }),
        None => Err(TokenError::NoExpiry),
    }
}

/// The expiry of a token, read from its payload without verifying its
/// signature; a payload that does not decode counts as having no expiry.
pub fn get_expiration(token: &str) -> (r: Result<i64, TokenError>)
    ensures
        match expiry_claim(token@) {
            Some(t) => r == Ok::<i64, TokenError>(t),
            None => r == Err::<i64, TokenError>(TokenError::NoExpiry),
        },
{
    match token_payload(token) {
        Ok(payload) => match exp_member(payload.as_slice()) {
            Some(t) => Ok(t),
            None => Err(TokenError::NoExpiry),
        },
        Err(_) => Err(TokenError::NoExpiry),
    }
}

/// Turns the outcome of one token exchange into a credential: the transport
/// error message, or the `access_token` field of the answer if it had one.
pub fn credential_from_response(response: Result<Option<String>, String>) -> (r: Result<BearerBearer, TokenError>)
    ensures
        match response {
            Err(m) => r == Err::<BearerBearer, TokenError>(TokenError::FetchError(m)),
            Ok(None) => r == Err::<BearerBearer, TokenError>(TokenError::NoToken),
            Ok(Some(t)) => match expiry_claim(t@) {
                Some(e) => r == Ok::<BearerBearer, TokenError>(BearerBearer { bearer_token_str: t, exp: e }),
                None => r == Err::<BearerBearer, TokenError>(TokenError::NoExpiry),
            },
        },
{
    match response {
        Err(m) => Err(TokenError::FetchError(m)),
        Ok(None) => Err(TokenError::NoToken),
        Ok(Some(t)) => {
            let exp = get_expiration(t.as_str());
            match exp {
                Ok(e) => bearer_from_expiry(t, Some(e)),
                Err(_) => bearer_from_expiry(t, None),
            }
        },
    }
}

/// The token provider: client credentials for one token endpoint.
pub struct Auth0 {
    pub config: ClientConfig,
}

impl Auth0 {
    pub fn new(config: ClientConfig) -> (r: Self)
        ensures
            r.config == config,
    {
        Auth0 { config }
    }
}

/// The form fields of a client-credentials token request.
pub open spec fn token_form_spec(config: ClientConfig) -> Seq<(Seq<char>, Seq<char>)> {
    seq![
        ("client_id"@, config.client_id@),
        ("client_secret"@, config.client_secret@),
        ("audience"@, config.audience@),
        ("grant_type"@, "client_credentials"@),
        ("scope"@, config.scopes@),
    ]
}

/// The form fields posted to the token endpoint to obtain a token.
pub fn token_form(config: &ClientConfig) -> (r: Vec<(String, String)>)
    ensures
        pair_views(r@) == token_form_spec(*config),
{
    let mut form: Vec<(String, String)> = Vec::new();
    form.push(("client_id".to_owned(), config.client_id.clone()));
    form.push(("client_secret".to_owned(), config.client_secret.clone()));
    form.push(("audience".to_owned(), config.audience.clone()));
    form.push(("grant_type".to_owned(), "client_credentials".to_owned()));
    form.push(("scope".to_owned(), config.scopes.clone()));
    assert(pair_views(form@) =~= token_form_spec(*config));
    form
}

} // verus!
