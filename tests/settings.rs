use cis_client::error::SecretsError;
use cis_client::getby::GetBy;
use cis_client::secrets::get_key_tuples;
use cis_client::secrets::sign_key_load;
use cis_client::secrets::verify_key_load;
use cis_client::secrets::KeyLoad;
use cis_client::settings::CisSettings;
use cis_client::settings::ClientConfig;
use cis_client::settings::KeySource;
use cis_client::settings::Keys;

#[test]
fn keys_default() {
    Keys::default();
}

#[test]
fn cis_settings_default() {
    CisSettings::default();
}

#[test]
fn client_config_default() {
    ClientConfig::default();
}

#[test]
fn default_values() {
    let s = CisSettings::default();
    assert_eq!(s.person_api_user_endpoint, "https://person.api.sso.mozilla.com/v2/user");
    assert_eq!(s.change_api_users_endpoint, "https://change.api.sso.mozilla.com/v2/users");
    assert_eq!(s.client_config.token_endpoint, "https://auth.mozilla.auth0.com/oauth/token");
    assert_eq!(s.sign_keys.source, KeySource::Disabled);
    assert_eq!(KeySource::default(), KeySource::Disabled);
}

#[test]
fn get_by_segments() {
    assert_eq!(GetBy::Uuid.as_str(), "uuid/");
    assert_eq!(GetBy::UserId.as_str(), "user_id/");
    assert_eq!(GetBy::PrimaryEmail.as_str(), "primary_email/");
    assert_eq!(GetBy::PrimaryUsername.as_str(), "primary_username/");
}

#[test]
fn key_tuples_keep_configured_keys_in_order() {
    let mut keys = Keys::default();
    assert!(get_key_tuples(&keys).is_empty());
    keys.hris_key = Some("h.json".to_string());
    keys.mozilliansorg_key = Some("m.json".to_string());
    keys.access_provider_key = Some("a.json".to_string());
    let t = get_key_tuples(&keys);
    assert_eq!(
        t,
        vec![
            ("mozilliansorg".to_string(), "m.json".to_string()),
            ("hris".to_string(), "h.json".to_string()),
            ("access_provider".to_string(), "a.json".to_string()),
        ]
    );
}

#[test]
fn key_sources() {
    let mut keys = Keys::default();
    assert!(matches!(sign_key_load(&keys), Ok(KeyLoad::Skip)));
    keys.source = KeySource::File;
    assert!(matches!(sign_key_load(&keys), Ok(KeyLoad::Files)));
    assert!(matches!(verify_key_load(&keys), Ok(KeyLoad::Files)));
    keys.source = KeySource::Ssm;
    assert!(matches!(verify_key_load(&keys), Ok(KeyLoad::Ssm)));
    keys.source = KeySource::WellKnown;
    assert!(matches!(sign_key_load(&keys), Err(SecretsError::UseNoneFileSsm)));
    assert!(matches!(verify_key_load(&keys), Err(SecretsError::UseNoneFileSsmWellKnonw)));
    keys.well_known_iam_endpoint = Some("https://example.org/.well-known".to_string());
    assert!(matches!(verify_key_load(&keys), Ok(KeyLoad::WellKnown(u)) if u == "https://example.org/.well-known"));
}
