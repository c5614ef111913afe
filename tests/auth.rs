use cis_client::auth::bearer_from_expiry;
use cis_client::auth::credential_from_response;
use cis_client::auth::get_expiration;
use cis_client::auth::token_form;
use cis_client::auth::Auth0;
use cis_client::auth::BearerBearer;
use cis_client::error::TokenError;
use cis_client::settings::ClientConfig;

const WITH_EXP: &str =
    "eyJhbGciOiJIUzI1NiIsInR5cCI6IkpXVCJ9.eyJleHAiOjE3MDAwMDAwMDAsInN1YiI6IngifQ.c2ln";
const WITHOUT_EXP: &str = "eyJhbGciOiJIUzI1NiIsInR5cCI6IkpXVCJ9.eyJzdWIiOiJ4In0.c2ln";

#[test]
fn expiration_is_read_from_the_payload() {
    assert_eq!(get_expiration(WITH_EXP).unwrap(), 1700000000);
}

#[test]
fn token_without_exp_has_no_expiry() {
    assert!(matches!(get_expiration(WITHOUT_EXP), Err(TokenError::NoExpiry)));
}

#[test]
fn undecodable_token_has_no_expiry() {
    assert!(matches!(get_expiration("not a token"), Err(TokenError::NoExpiry)));
    assert!(matches!(get_expiration("a.%%%.c"), Err(TokenError::NoExpiry)));
}

#[test]
fn response_with_token_gives_credential() {
    let b = credential_from_response(Ok(Some(WITH_EXP.to_string()))).unwrap();
    assert_eq!(b.bearer_token_str, WITH_EXP);
    assert_eq!(b.exp, 1700000000);
}

#[test]
fn response_errors() {
    assert!(matches!(
        credential_from_response(Err("timeout".to_string())),
        Err(TokenError::FetchError(m)) if m == "timeout"
    ));
    assert!(matches!(credential_from_response(Ok(None)), Err(TokenError::NoToken)));
    assert!(matches!(
        credential_from_response(Ok(Some(WITHOUT_EXP.to_string()))),
        Err(TokenError::NoExpiry)
    ));
}

#[test]
fn bearer_from_expiry_cases() {
    let b = bearer_from_expiry("t".to_string(), Some(5)).unwrap();
    assert_eq!(b.exp, 5);
    assert!(matches!(bearer_from_expiry("t".to_string(), None), Err(TokenError::NoExpiry)));
}

#[test]
fn validity_is_strictly_before_expiry() {
    let b = BearerBearer { bearer_token_str: "t".to_string(), exp: 100 };
    assert!(b.valid_at(99));
    assert!(!b.valid_at(100));
    assert!(!b.valid_at(101));
    let far = BearerBearer { bearer_token_str: "t".to_string(), exp: i64::MAX };
    assert!(far.valid());
    let past = BearerBearer { bearer_token_str: "t".to_string(), exp: 0 };
    assert!(!past.valid());
}

#[test]
fn token_request_form() {
    let config = ClientConfig {
        client_id: "id".to_string(),
        client_secret: "secret".to_string(),
        audience: "aud".to_string(),
        token_endpoint: "https://example.org/token".to_string(),
        scopes: "read write".to_string(),
    };
    let auth = Auth0::new(config);
    let form = token_form(&auth.config);
    let expected: Vec<(String, String)> = vec![
        ("client_id", "id"),
        ("client_secret", "secret"),
        ("audience", "aud"),
        ("grant_type", "client_credentials"),
        ("scope", "read write"),
    ]
    .into_iter()
    .map(|(k, v)| (k.to_string(), v.to_string()))
    .collect();
    assert_eq!(form, expected);
}

#[test]
fn far_future_expiry_is_read_as_is() {
    let t = "eyJhbGciOiJIUzI1NiIsInR5cCI6IkpXVCJ9.eyJleHAiOjkwMDAwMDAwMDAwMDAwMDB9.c2ln";
    assert_eq!(get_expiration(t).unwrap(), 9000000000000000);
}

#[test]
fn non_integer_expiry_or_payload_is_no_expiry() {
    let text_exp = "eyJhbGciOiJIUzI1NiIsInR5cCI6IkpXVCJ9.eyJleHAiOiJzb29uIn0.c2ln";
    let not_json = "eyJhbGciOiJIUzI1NiIsInR5cCI6IkpXVCJ9.bm90IGpzb24.c2ln";
    assert!(matches!(get_expiration(text_exp), Err(TokenError::NoExpiry)));
    assert!(matches!(get_expiration(not_json), Err(TokenError::NoExpiry)));
}
