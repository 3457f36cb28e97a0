use first_fm::{Builder, ConfigError, LASTFM_API_AUTH_URL, LASTFM_API_BASE_URL};

#[test]
fn defaults_and_key_build() {
    let b = Builder::new();
    assert_eq!(b.base_url, LASTFM_API_BASE_URL);
    assert_eq!(b.auth_url, LASTFM_API_AUTH_URL);
    let c = b.api_key("api_key").build().unwrap();
    assert_eq!(c.api_key, "api_key");
    assert_eq!(c.base_url, "https://ws.audioscrobbler.com/2.0/");
    assert!(!c.can_sign());
}

#[test]
fn missing_key_is_refused() {
    assert_eq!(Builder::new().build().err(), Some(ConfigError::MissingApiKey));
}

#[test]
fn invalid_base_url_is_refused() {
    let r = Builder::new().base_url("not a url").api_key("k").build();
    assert_eq!(r.err(), Some(ConfigError::InvalidBaseUrl));
    let r = Builder::new().base_url("").api_key("k").build();
    assert_eq!(r.err(), Some(ConfigError::InvalidBaseUrl));
}

#[test]
fn invalid_auth_url_is_refused() {
    let r = Builder::new().auth_url("/api/auth/").api_key("k").build();
    assert_eq!(r.err(), Some(ConfigError::InvalidAuthUrl));
}

#[test]
fn http_base_url_is_accepted() {
    let c = Builder::new()
        .base_url("http://ws.audioscrobbler.com/2.0/")
        .api_key("k")
        .build()
        .unwrap();
    assert_eq!(c.base_url, "http://ws.audioscrobbler.com/2.0/");
}

#[test]
fn scrobbling_needs_the_secret() {
    let r = Builder::new().api_key("k").build_for_scrobbling();
    assert_eq!(r.err(), Some(ConfigError::MissingSecret));
    let c = Builder::new().api_key("k").secret("secret").build_for_scrobbling().unwrap();
    assert!(c.can_sign());
    assert_eq!(c.secret.as_deref(), Some("secret"));
    let r = Builder::new().base_url("nope").secret("secret").build_for_scrobbling();
    assert_eq!(r.err(), Some(ConfigError::InvalidBaseUrl));
}
