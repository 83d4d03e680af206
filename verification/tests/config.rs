use s2_mcp::config::{
    environment_value, parse_bool_setting, parse_compression, CloudEnvironment, ConnectionEnvironment, EnvValue,
    S2Compression, S2Configuration,
};
use s2_mcp::errors::{ConfigError, Error};
use s2_mcp::launch::{interactive_guidance, launch_intent, should_show_interactive_guidance, DevSource, HelpStyles, LaunchIntent};

fn text(value: &str) -> EnvValue {
    EnvValue::Text(value.to_owned())
}

fn no_environment() -> CloudEnvironment {
    CloudEnvironment {
        access_token: EnvValue::Absent,
        encryption_key: EnvValue::Absent,
        ssl_no_verify: EnvValue::Absent,
        compression: EnvValue::Absent,
    }
}

fn invalid(result: Result<S2Configuration, Error>) -> String {
    match result {
        Err(Error::Config(ConfigError::Invalid(message))) => message,
        _ => panic!("expected an invalid configuration"),
    }
}

#[test]
fn environment_overrides_the_file() {
    let file = S2Configuration::new("from-file").with_compression(S2Compression::Gzip).with_endpoints("a", "b");
    let env = CloudEnvironment {
        access_token: text("from-env"),
        encryption_key: EnvValue::Absent,
        ssl_no_verify: text("true"),
        compression: EnvValue::Absent,
    };
    let config = S2Configuration::load(Some(file), env).unwrap_or_else(|_| panic!("valid"));
    assert_eq!(config.access_token.as_deref(), Some("from-env"));
    assert_eq!(config.ssl_no_verify, Some(true));
    assert!(config.compression == Some(S2Compression::Gzip));
    assert!(config.account_endpoint.is_none());
    assert!(config.basin_endpoint.is_none());
    assert!(config.environment == ConnectionEnvironment::Cloud);
    assert_eq!(config.environment_label(), "cloud");
    assert_eq!(config.account_endpoint_label(), "S2 Cloud default");
}

#[test]
fn without_a_file_everything_starts_unset() {
    let config = S2Configuration::load(None, no_environment()).unwrap_or_else(|_| panic!("valid"));
    assert!(config.access_token.is_none());
    assert!(config.compression.is_none());
    let env = CloudEnvironment { compression: text("ZSTD"), ..no_environment() };
    let config = S2Configuration::load(None, env).unwrap_or_else(|_| panic!("valid"));
    assert!(config.compression == Some(S2Compression::Zstd));
}

#[test]
fn bad_environment_values_are_refused() {
    let env = CloudEnvironment { ssl_no_verify: text("yes"), ..no_environment() };
    assert_eq!(
        invalid(S2Configuration::load(None, env)),
        "S2_SSL_NO_VERIFY must be either true or false; received `yes`"
    );
    let env = CloudEnvironment { compression: text("brotli"), ..no_environment() };
    assert_eq!(
        invalid(S2Configuration::load(None, env)),
        "S2_COMPRESSION must be one of none, gzip, or zstd; received `brotli`"
    );
    let env = CloudEnvironment { encryption_key: EnvValue::NotUnicode, ..no_environment() };
    match S2Configuration::load(None, env) {
        Err(Error::Config(ConfigError::InvalidEnvironment { name })) => assert_eq!(name, "S2_ENCRYPTION_KEY"),
        _ => panic!("expected an invalid environment error"),
    }
}

#[test]
fn settings_parse_exactly() {
    assert_eq!(parse_bool_setting("X", "true").ok(), Some(true));
    assert_eq!(parse_bool_setting("X", "false").ok(), Some(false));
    assert!(parse_bool_setting("X", "True").is_err());
    assert!(parse_compression("None").ok() == Some(S2Compression::NoCompression));
    assert!(parse_compression("gzip").ok() == Some(S2Compression::Gzip));
    assert!(parse_compression("").is_err());
    assert!(matches!(environment_value("V", EnvValue::Absent), Ok(None)));
    assert_eq!(environment_value("V", text("x")).ok(), Some(Some("x".to_owned())));
}

#[test]
fn builders_keep_the_other_settings() {
    let config = S2Configuration::new("token")
        .with_endpoints("http://127.0.0.1:8080", "http://127.0.0.1:8080")
        .with_encryption_key("key")
        .with_ssl_no_verify(false)
        .with_compression(S2Compression::Zstd);
    assert_eq!(config.access_token.as_deref(), Some("token"));
    assert_eq!(config.encryption_key.as_deref(), Some("key"));
    assert_eq!(config.ssl_no_verify, Some(false));
    assert!(config.environment == ConnectionEnvironment::CustomEndpoint);
    assert_eq!(config.account_endpoint_label(), "http://127.0.0.1:8080");
    assert_eq!(config.basin_endpoint_label(), "http://127.0.0.1:8080");
    assert_eq!(config.environment_label(), "custom_endpoint");
    let default = S2Configuration::default();
    assert!(default.access_token.is_none());
    assert_eq!(default.environment_label(), "cloud");
}

#[test]
fn shared_endpoints_are_validated_by_the_client() {
    let config = S2Configuration::for_shared_endpoint("http://127.0.0.1:8080", "ignored", ConnectionEnvironment::ManagedLite)
        .unwrap_or_else(|_| panic!("a valid endpoint"));
    assert_eq!(config.account_endpoint.as_deref(), Some("http://127.0.0.1:8080"));
    assert_eq!(config.basin_endpoint.as_deref(), Some("http://127.0.0.1:8080"));
    assert!(config.environment == ConnectionEnvironment::ManagedLite);
    assert_eq!(invalid(S2Configuration::load_shared_endpoint("a b://127.0.0.1:8080", EnvValue::Absent)), "invalid account endpoint scheme");
    let config = S2Configuration::load_shared_endpoint("http://localhost:4243", EnvValue::Absent)
        .unwrap_or_else(|_| panic!("valid"));
    assert_eq!(config.access_token.as_deref(), Some("ignored"));
}

#[test]
fn from_env_rejects_a_partial_endpoint_pair() {
    assert_eq!(
        invalid(S2Configuration::load_development_environment(
            EnvValue::Absent,
            text("http://127.0.0.1:8080"),
            EnvValue::Absent,
        )),
        "--from-env requires S2_ACCOUNT_ENDPOINT and S2_BASIN_ENDPOINT"
    );
    assert_eq!(
        invalid(S2Configuration::load_development_environment(
            text("http://127.0.0.1:8080"),
            EnvValue::Absent,
            EnvValue::Absent,
        )),
        "--from-env requires S2_ACCOUNT_ENDPOINT and S2_BASIN_ENDPOINT"
    );
    let config = S2Configuration::load_development_environment(
        text("http://127.0.0.1:8080"),
        text("http://127.0.0.1:8080"),
        text("secret"),
    )
    .unwrap_or_else(|_| panic!("valid"));
    assert_eq!(config.access_token.as_deref(), Some("secret"));
    assert!(config.environment == ConnectionEnvironment::CustomEndpoint);
    assert_eq!(
        invalid(S2Configuration::load_development_environment(
            text("http://127.0.0.1:8080"),
            text("https://127.0.0.1:8080"),
            EnvValue::Absent,
        )),
        "account and basin endpoints must have the same scheme"
    );
}

#[test]
fn client_settings_need_a_token_and_use_endpoints_only_in_pairs() {
    assert!(matches!(
        S2Configuration::default().sdk_settings(),
        Err(Error::Config(ConfigError::MissingAccessToken))
    ));
    let lone = S2Configuration { account_endpoint: Some("http://a:1".to_owned()), ..S2Configuration::new("t") };
    let settings = lone.sdk_settings().unwrap_or_else(|_| panic!("a lone endpoint is ignored"));
    assert!(settings.endpoints.is_none());
    assert_eq!(settings.access_token, "t");
    assert_eq!(settings.request_timeout_seconds, 30);
    assert!(settings.compression == S2Compression::NoCompression);
    assert!(!settings.skip_cert_verification);

    let paired = S2Configuration::new("t")
        .with_endpoints("http://127.0.0.1:8080", "http://127.0.0.1:8080")
        .with_ssl_no_verify(true);
    let settings = paired.sdk_settings().unwrap_or_else(|_| panic!("valid endpoints"));
    assert!(settings.endpoints.is_some());
    assert!(settings.skip_cert_verification);
}

#[test]
fn encryption_keys_are_checked() {
    assert!(matches!(S2Configuration::new("t").encryption_key(), Ok(None)));
    let config = S2Configuration::new("t").with_encryption_key("  c2VjcmV0  ");
    assert!(matches!(config.encryption_key(), Ok(Some(_))));
    let blank = S2Configuration::new("t").with_encryption_key("   ");
    match blank.encryption_key() {
        Err(Error::Config(ConfigError::Invalid(message))) => assert_eq!(
            message,
            "S2_ENCRYPTION_KEY is invalid: invalid encryption key: key material length 0 is out of range"
        ),
        _ => panic!("expected an invalid key"),
    }
    let long = S2Configuration::new("t").with_encryption_key(&"k".repeat(45));
    assert!(long.encryption_key().is_err());
}

#[test]
fn launch_intent_follows_the_flags() {
    assert!(matches!(launch_intent(false, Some("x".to_owned()), true), LaunchIntent::Cloud));
    assert!(matches!(
        launch_intent(true, Some("http://localhost".to_owned()), true),
        LaunchIntent::Dev(DevSource::Endpoint(ref e)) if e == "http://localhost"
    ));
    assert!(matches!(launch_intent(true, None, true), LaunchIntent::Dev(DevSource::Environment)));
    assert!(matches!(launch_intent(true, None, false), LaunchIntent::Dev(DevSource::Managed)));
    assert!(should_show_interactive_guidance(false, true));
    assert!(!should_show_interactive_guidance(true, true));
    assert!(!should_show_interactive_guidance(false, false));
}

#[test]
fn help_describes_connection_modes_in_user_facing_language() {
    let plain = HelpStyles {
        heading: String::new(),
        heading_reset: String::new(),
        literal: String::new(),
        literal_reset: String::new(),
        placeholder: String::new(),
        placeholder_reset: String::new(),
    };
    let guide = interactive_guidance(&plain);
    assert!(guide.contains("Start a temporary S2 Lite container when needed"));
    assert!(guide.contains("Use an existing S2 development server"));
    assert!(guide.contains("Read endpoints from environment variables"));
    assert!(guide.contains("Running it directly in a terminal shows this help."));
    assert!(guide.contains("  s2-mcp --dev --endpoint <URL>     Use an existing S2 development server\n"));
}
