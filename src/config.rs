use vstd::prelude::*;

verus! {

/// Default base URL of the service's API methods.
pub const LASTFM_API_BASE_URL: &'static str = "https://ws.audioscrobbler.com/2.0/";

/// Default base URL of the service's desktop authentication.
pub const LASTFM_API_AUTH_URL: &'static str = "https://www.last.fm/api/auth/";

/// Whether the text parses as an absolute URL.
pub uninterp spec fn parses_as_url(s: Seq<char>) -> bool;

/// Relies on `url::Url::parse`: whether `s` parses as an absolute URL; the
/// answer depends on the text alone.
#[verifier::external_body]
fn url_parses(s: &str) -> (r: bool)
    ensures
        r == parses_as_url(s@),
{
    url::Url::parse(s).is_ok()
}

/// Why a client configuration was refused.
#[derive(Debug, PartialEq, Eq, Structural)]
pub enum ConfigError {
    InvalidBaseUrl,
    InvalidAuthUrl,
    MissingApiKey,
    /// Submitting scrobbles needs the shared secret.
    MissingSecret,
}

/// Client settings, as given; checked by `build`.
pub struct Builder {
    pub base_url: String,
    pub auth_url: String,
    pub api_key: Option<String>,
    pub secret: Option<String>,
}

/// Client settings that passed the checks.
pub struct ClientConfig {
    pub base_url: String,
    pub auth_url: String,
    pub api_key: String,
    pub secret: Option<String>,
}

pub open spec fn config_of(b: Builder) -> Result<ClientConfig, ConfigError> {
    if !parses_as_url(b.base_url@) {
        Err(ConfigError::InvalidBaseUrl)
    } else if !parses_as_url(b.auth_url@) {
        Err(ConfigError::InvalidAuthUrl)
    } else {
        match b.api_key {
            None => Err(ConfigError::MissingApiKey),
            Some(key) => Ok(
                ClientConfig { base_url: b.base_url, auth_url: b.auth_url, api_key: key, secret: b.secret },
            ),
        }
    }
}

impl Builder {
    /// Default URLs, no key and no secret.
    pub fn new() -> (r: Builder)
        ensures
            r.base_url@ == LASTFM_API_BASE_URL@,
            r.auth_url@ == LASTFM_API_AUTH_URL@,
            r.api_key is None,
            r.secret is None,
    {
        Builder {
            base_url: LASTFM_API_BASE_URL.to_owned(),
            auth_url: LASTFM_API_AUTH_URL.to_owned(),
            api_key: None,
            secret: None,
        }
    }

    /// Checks the settings: both URLs must parse and the key must be set.
    pub fn build(self) -> (r: Result<ClientConfig, ConfigError>)
        ensures
            r == config_of(self),
    {
        if !url_parses(self.base_url.as_str()) {
            return Err(ConfigError::InvalidBaseUrl);
        }
        if !url_parses(self.auth_url.as_str()) {
            return Err(ConfigError::InvalidAuthUrl);
        }
        match self.api_key {
            None => Err(ConfigError::MissingApiKey),
            Some(key) => Ok(
                ClientConfig { base_url: self.base_url, auth_url: self.auth_url, api_key: key, secret: self.secret },
            ),
        }
    }

    /// Checks the settings for a client that submits scrobbles: as `build`,
    /// and the shared secret must be set as well.
    pub fn build_for_scrobbling(self) -> (r: Result<ClientConfig, ConfigError>)
        ensures
            r == match config_of(self) {
                Ok(c) => if c.secret is Some {
                    Ok(c)
                } else {
                    Err(ConfigError::MissingSecret)
                },
                Err(e) => Err(e),
            },
    {
        match self.build() {
            Ok(c) => if c.secret.is_some() {
                Ok(c)
            } else {
                Err(ConfigError::MissingSecret)
            },
            Err(e) => Err(e),
        }
    }

    /// Sets the base API URL.
    pub fn base_url(self, url: &str) -> (r: Builder)
        ensures
            r.base_url@ == url@,
            r.auth_url == self.auth_url,
            r.api_key == self.api_key,
            r.secret == self.secret,
    {
        Builder { base_url: url.to_owned(), ..self }
    }

    /// Sets the base desktop authentication URL.
    pub fn auth_url(self, url: &str) -> (r: Builder)
        ensures
            r.auth_url@ == url@,
            r.base_url == self.base_url,
            r.api_key == self.api_key,
            r.secret == self.secret,
    {
        Builder { auth_url: url.to_owned(), ..self }
    }

    /// Sets the API key.
    pub fn api_key(self, api_key: &str) -> (r: Builder)
        ensures
            r.api_key matches Some(k) && k@ == api_key@,
            r.base_url == self.base_url,
            r.auth_url == self.auth_url,
            r.secret == self.secret,
    {
        Builder { api_key: Some(api_key.to_owned()), ..self }
    }

    /// Sets the shared secret.
    pub fn secret(self, secret: &str) -> (r: Builder)
        ensures
            r.secret matches Some(s) && s@ == secret@,
            r.base_url == self.base_url,
            r.auth_url == self.auth_url,
            r.api_key == self.api_key,
    {
        Builder { secret: Some(secret.to_owned()), ..self }
    }
}

impl ClientConfig {
    /// Whether the configuration allows calls that need a signature.
    pub fn can_sign(&self) -> (r: bool)
        ensures
            r == self.secret is Some,
    {
        self.secret.is_some()
    }
}

} // verus!
