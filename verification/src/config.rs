//! Configuration of the telemetry pipeline.
//!
//! The host process supplies an API credential and the ingestion endpoint's
//! URL, typically from its environment. Resolution fails fast when either is
//! absent; reading the environment itself is the host's business.

use vstd::prelude::*;

verus! {

/// The static credential and the endpoint a delivery is sent to.
#[derive(Debug)]
pub struct TelemetryConfig {
    pub api_key: String,
    pub url: String,
}

/// Which required setting is absent.
#[derive(Clone, Copy, Debug, PartialEq, Eq, Structural)]
pub enum ConfigError {
    MissingApiKey,
    MissingUrl,
}

/// Resolves the pipeline's configuration from the two settings the host
/// found: both must be present, and the credential is checked first.
pub fn resolve_config(api_key: Option<String>, url: Option<String>) -> (r: Result<
    TelemetryConfig,
    ConfigError,
>)
    ensures
        (r is Ok <==> api_key is Some && url is Some),
        (match r {
            Ok(c) => {
                &&& api_key matches Some(k) && c.api_key == k
                &&& url matches Some(u) && c.url == u
            },
            Err(e) => {
                &&& (e == ConfigError::MissingApiKey <==> api_key is None)
                &&& (e == ConfigError::MissingUrl <==> api_key is Some && url is None)
            },
        }),
{
    match api_key {
        None => Err(ConfigError::MissingApiKey),
        Some(k) => match url {
            None => Err(ConfigError::MissingUrl),
            Some(u) => Ok(TelemetryConfig { api_key: k, url: u }),
        },
    }
}

} // verus!
