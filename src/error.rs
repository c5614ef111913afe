use vstd::prelude::*;

verus! {

/// Failures while obtaining a bearer credential.
#[derive(Debug)]
pub enum TokenError {
    /// The token carries no decodable expiry claim.
    NoExpiry,
    /// The token endpoint answered without an access token.
    NoToken,
    /// The token was already expired when it was received.
    Expired,
    /// The exchange with the token endpoint failed.
    FetchError(String),
}

/// Domain-level failures about profiles.
#[derive(Debug)]
pub enum ProfileError {
    ProfileDoesNotExist,
    InvalidIterState,
}

/// Invalid key-source configuration.
#[derive(Debug)]
pub enum SecretsError {
    UseNoneFileSsm,
    UseNoneFileSsmWellKnonw,
    FileReadError,
}

/// Every failure a client operation can report.
#[derive(Debug)]
pub enum CisClientError {
    SecretsError(SecretsError),
    TokenError(TokenError),
    ProfileError(ProfileError),
    RequestError(String),
    UrlParseError(String),
    InvalidNextPage(String),
}

impl TokenError {
    /// An identical copy of this error.
    pub fn duplicate(&self) -> (r: TokenError)
        ensures
            r == *self,
    {
        match self {
            TokenError::NoExpiry => TokenError::NoExpiry,
            TokenError::NoToken => TokenError::NoToken,
            TokenError::Expired => TokenError::Expired,
            TokenError::FetchError(m) => TokenError::FetchError(m.clone()),
        }
    }
}

} // verus!
