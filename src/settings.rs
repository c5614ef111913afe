use vstd::prelude::*;

verus! {

/// Where signing or verification keys come from.
#[derive(Clone, Copy, Debug, PartialEq, Eq, Structural)]
pub enum KeySource {
    Disabled,
    File,
    Ssm,
    WellKnown,
}

impl Default for KeySource {
    fn default() -> (r: Self)
        ensures
            r == KeySource::Disabled,
    {
        KeySource::Disabled
    }
}

/// Client credentials for the token endpoint.
#[derive(Debug)]
pub struct ClientConfig {
    pub client_id: String,
    pub client_secret: String,
    pub audience: String,
    pub token_endpoint: String,
    pub scopes: String,
}

impl Default for ClientConfig {
    fn default() -> (r: Self)
        ensures
            r.client_id@ == Seq::<char>::empty(),
            r.client_secret@ == Seq::<char>::empty(),
            r.audience@ == Seq::<char>::empty(),
            r.token_endpoint@ == "https://auth.mozilla.auth0.com/oauth/token"@,
            r.scopes@ == Seq::<char>::empty(),
    {
        ClientConfig {
            client_id: String::new(),
            client_secret: String::new(),
            audience: String::new(),
            token_endpoint: "https://auth.mozilla.auth0.com/oauth/token".to_owned(),
            scopes: String::new(),
        }
    }
}

/// Key configuration: the source, the discovery endpoint for well-known
/// keys, and the key of each publisher, where configured.
#[derive(Debug)]
pub struct Keys {
    pub source: KeySource,
    pub well_known_iam_endpoint: Option<String>,
    pub mozilliansorg_key: Option<String>,
    pub hris_key: Option<String>,
    pub ldap_key: Option<String>,
    pub cis_key: Option<String>,
    pub access_provider_key: Option<String>,
}

impl Default for Keys {
    fn default() -> (r: Self)
        ensures
            r.source == KeySource::Disabled,
            r.well_known_iam_endpoint is None,
            r.mozilliansorg_key is None,
            r.hris_key is None,
            r.ldap_key is None,
            r.cis_key is None,
            r.access_provider_key is None,
    {
        Keys {
            source: KeySource::Disabled,
            well_known_iam_endpoint: None,
            mozilliansorg_key: None,
            hris_key: None,
            ldap_key: None,
            cis_key: None,
            access_provider_key: None,
        }
    }
}

/// Endpoints, client credentials and key configuration of a client.
#[derive(Debug)]
pub struct CisSettings {
    pub person_api_user_endpoint: String,
    pub person_api_users_endpoint: String,
    pub change_api_user_endpoint: String,
    pub change_api_users_endpoint: String,
    pub client_config: ClientConfig,
    pub sign_keys: Keys,
    pub verify_keys: Keys,
}

impl Default for CisSettings {
    fn default() -> (r: Self)
        ensures
            r.person_api_user_endpoint@ == "https://person.api.sso.mozilla.com/v2/user"@,
            r.person_api_users_endpoint@ == "https://person.api.sso.mozilla.com/v2/users"@,
            r.change_api_user_endpoint@ == "https://change.api.sso.mozilla.com/v2/user"@,
            r.change_api_users_endpoint@ == "https://change.api.sso.mozilla.com/v2/users"@,
            r.client_config.token_endpoint@ == "https://auth.mozilla.auth0.com/oauth/token"@,
            r.sign_keys.source == KeySource::Disabled,
            r.verify_keys.source == KeySource::Disabled,
    {
        CisSettings {
            person_api_user_endpoint: "https://person.api.sso.mozilla.com/v2/user".to_owned(),
            person_api_users_endpoint: "https://person.api.sso.mozilla.com/v2/users".to_owned(),
            change_api_user_endpoint: "https://change.api.sso.mozilla.com/v2/user".to_owned(),
            change_api_users_endpoint: "https://change.api.sso.mozilla.com/v2/users".to_owned(),
            client_config: ClientConfig::default(),
            sign_keys: Keys::default(),
            verify_keys: Keys::default(),
        }
    }
}

} // verus!
