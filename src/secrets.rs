use crate::error::SecretsError;
use crate::settings::KeySource;
use crate::settings::Keys;
use vstd::prelude::*;

verus! {

/// How one set of keys is to be loaded into the secret store.
#[derive(Debug)]
pub enum KeyLoad {
    /// No keys of this kind.
    Skip,
    /// Read each configured key from the file it names.
    Files,
    /// Fetch each configured key from the parameter store.
    Ssm,
    /// Discover the keys at this endpoint.
    WellKnown(String),
}

/// The present entry `(name, value)` of one configured key.
pub open spec fn key_entry(name: Seq<char>, value: Option<String>) -> Seq<(Seq<char>, Seq<char>)> {
    match value {
        Some(v) => seq![(name, v@)],
        None => Seq::empty(),
    }
}

/// The configured keys, by publisher name, in a fixed publisher order.
pub open spec fn key_tuples(keys: Keys) -> Seq<(Seq<char>, Seq<char>)> {
    key_entry("mozilliansorg"@, keys.mozilliansorg_key) + key_entry("hris"@, keys.hris_key)
        + key_entry("ldap"@, keys.ldap_key) + key_entry("cis"@, keys.cis_key) + key_entry(
        "access_provider"@,
        keys.access_provider_key,
    )
}

pub open spec fn pair_views(v: Seq<(String, String)>) -> Seq<(Seq<char>, Seq<char>)> {
    v.map_values(|p: (String, String)| (p.0@, p.1@))
}

fn push_key(out: &mut Vec<(String, String)>, name: &str, value: &Option<String>)
    ensures
        pair_views(final(out)@) == pair_views(old(out)@) + key_entry(name@, *value),
{
    match value {
        Some(v) => {
            out.push((name.to_owned(), v.clone()));
            assert(pair_views(final(out)@) =~= pair_views(old(out)@) + key_entry(name@, *value));
        },
        None => {
            assert(pair_views(final(out)@) =~= pair_views(old(out)@) + key_entry(name@, *value));
        },
    }
}

/// The configured keys as `(publisher, value)` pairs.
pub fn get_key_tuples(keys: &Keys) -> (r: Vec<(String, String)>)
    ensures
        pair_views(r@) == key_tuples(*keys),
{
    let mut out: Vec<(String, String)> = Vec::new();
    assert(pair_views(out@) =~= Seq::empty());
    push_key(&mut out, "mozilliansorg", &keys.mozilliansorg_key);
    push_key(&mut out, "hris", &keys.hris_key);
    push_key(&mut out, "ldap", &keys.ldap_key);
    push_key(&mut out, "cis", &keys.cis_key);
    push_key(&mut out, "access_provider", &keys.access_provider_key);
    assert(pair_views(out@) =~= key_tuples(*keys));
    out
}

/// How signing keys are loaded: they cannot be discovered at an endpoint.
pub fn sign_key_load(keys: &Keys) -> (r: Result<KeyLoad, SecretsError>)
    ensures
        match keys.source {
            KeySource::Disabled => r matches Ok(KeyLoad::Skip),
            KeySource::File => r matches Ok(KeyLoad::Files),
            KeySource::Ssm => r matches Ok(KeyLoad::Ssm),
            KeySource::WellKnown => r matches Err(SecretsError::UseNoneFileSsm),
        },
{
    match keys.source {
        KeySource::Disabled => Ok(KeyLoad::Skip),
        KeySource::File => Ok(KeyLoad::Files),
        KeySource::Ssm => Ok(KeyLoad::Ssm),
        KeySource::WellKnown => Err(SecretsError::UseNoneFileSsm),
    }
}

/// How verification keys are loaded: discovery needs a configured endpoint.
pub fn verify_key_load(keys: &Keys) -> (r: Result<KeyLoad, SecretsError>)
    ensures
        match keys.source {
            KeySource::Disabled => r matches Ok(KeyLoad::Skip),
            KeySource::File => r matches Ok(KeyLoad::Files),
            KeySource::Ssm => r matches Ok(KeyLoad::Ssm),
            KeySource::WellKnown => match keys.well_known_iam_endpoint {
                Some(u) => r matches Ok(KeyLoad::WellKnown(e)) && e@ == u@,
                None => r matches Err(SecretsError::UseNoneFileSsmWellKnonw),
            },
        },
{
    match keys.source {
        KeySource::Disabled => Ok(KeyLoad::Skip),
        KeySource::File => Ok(KeyLoad::Files),
        KeySource::Ssm => Ok(KeyLoad::Ssm),
        KeySource::WellKnown => match &keys.well_known_iam_endpoint {
            Some(u) => Ok(KeyLoad::WellKnown(u.clone())),
            None => Err(SecretsError::UseNoneFileSsmWellKnonw),
        },
    }
}

} // verus!
