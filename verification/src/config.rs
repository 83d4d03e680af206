use vstd::prelude::*;

use crate::errors::{ConfigError, Error};
use crate::text::{
    concat2, concat3, copy_str, decimal, eq_ignore_ascii_case, push_str, str_eq, str_eq_ignore_ascii_case, trim_spec, utf8_size,
};

verus! {

/// Where the server's S2 connection points.
#[derive(Clone, Copy, PartialEq, Eq, Structural)]
pub enum ConnectionEnvironment {
    Cloud,
    ManagedLite,
    CustomEndpoint,
}

pub open spec fn environment_text(e: ConnectionEnvironment) -> Seq<char> {
    match e {
        ConnectionEnvironment::Cloud => "cloud"@,
        ConnectionEnvironment::ManagedLite => "managed_lite"@,
        ConnectionEnvironment::CustomEndpoint => "custom_endpoint"@,
    }
}

impl ConnectionEnvironment {
    pub fn label(self) -> (s: &'static str)
        ensures
            s@ == environment_text(self),
    {
        match self {
            ConnectionEnvironment::Cloud => "cloud",
            ConnectionEnvironment::ManagedLite => "managed_lite",
            ConnectionEnvironment::CustomEndpoint => "custom_endpoint",
        }
    }
}

/// Compression of S2 requests.
#[derive(Clone, Copy, PartialEq, Eq, Structural)]
pub enum S2Compression {
    NoCompression,
    Gzip,
    Zstd,
}

impl Default for S2Compression {
    fn default() -> (c: Self)
        ensures
            c == S2Compression::NoCompression,
    {
        S2Compression::NoCompression
    }
}

/// The S2 connection settings.
#[derive(Clone)]
pub struct S2Configuration {
    pub access_token: Option<String>,
    pub account_endpoint: Option<String>,
    pub basin_endpoint: Option<String>,
    pub encryption_key: Option<String>,
    pub compression: Option<S2Compression>,
    pub ssl_no_verify: Option<bool>,
    pub environment: ConnectionEnvironment,
}

/// Every setting unset, S2 Cloud.
pub open spec fn unset(c: S2Configuration) -> bool {
    &&& c.access_token is None
    &&& c.account_endpoint is None
    &&& c.basin_endpoint is None
    &&& c.encryption_key is None
    &&& c.compression is None
    &&& c.ssl_no_verify is None
    &&& c.environment == ConnectionEnvironment::Cloud
}

impl Default for S2Configuration {
    fn default() -> (c: Self)
        ensures
            unset(c),
    {
        S2Configuration {
            access_token: None,
            account_endpoint: None,
            basin_endpoint: None,
            encryption_key: None,
            compression: None,
            ssl_no_verify: None,
            environment: ConnectionEnvironment::Cloud,
        }
    }
}

/// Same settings but for the named ones.
pub open spec fn same_endpoints(a: S2Configuration, b: S2Configuration) -> bool {
    &&& a.account_endpoint == b.account_endpoint
    &&& a.basin_endpoint == b.basin_endpoint
}

impl S2Configuration {
    /// S2 Cloud with the given access token.
    pub fn new(access_token: &str) -> (c: Self)
        ensures
            c.access_token matches Some(t) && t@ == access_token@,
            c.account_endpoint is None,
            c.basin_endpoint is None,
            c.encryption_key is None,
            c.compression is None,
            c.ssl_no_verify is None,
            c.environment == ConnectionEnvironment::Cloud,
    {
        S2Configuration { access_token: Some(copy_str(access_token)), ..S2Configuration::default() }
    }

    /// Custom account and basin endpoints.
    pub fn with_endpoints(self, account_endpoint: &str, basin_endpoint: &str) -> (c: Self)
        ensures
            c.account_endpoint matches Some(a) && a@ == account_endpoint@,
            c.basin_endpoint matches Some(b) && b@ == basin_endpoint@,
            c.environment == ConnectionEnvironment::CustomEndpoint,
            c.access_token == self.access_token,
            c.encryption_key == self.encryption_key,
            c.compression == self.compression,
            c.ssl_no_verify == self.ssl_no_verify,
    {
        S2Configuration {
            account_endpoint: Some(copy_str(account_endpoint)),
            basin_endpoint: Some(copy_str(basin_endpoint)),
            environment: ConnectionEnvironment::CustomEndpoint,
            ..self
        }
    }

    pub fn with_compression(self, compression: S2Compression) -> (c: Self)
        ensures
            c.compression == Some(compression),
            c.access_token == self.access_token,
            same_endpoints(c, self),
            c.encryption_key == self.encryption_key,
            c.ssl_no_verify == self.ssl_no_verify,
            c.environment == self.environment,
    {
        S2Configuration { compression: Some(compression), ..self }
    }

    pub fn with_encryption_key(self, encryption_key: &str) -> (c: Self)
        ensures
            c.encryption_key matches Some(k) && k@ == encryption_key@,
            c.access_token == self.access_token,
            same_endpoints(c, self),
            c.compression == self.compression,
            c.ssl_no_verify == self.ssl_no_verify,
            c.environment == self.environment,
    {
        S2Configuration { encryption_key: Some(copy_str(encryption_key)), ..self }
    }

    pub fn with_ssl_no_verify(self, ssl_no_verify: bool) -> (c: Self)
        ensures
            c.ssl_no_verify == Some(ssl_no_verify),
            c.access_token == self.access_token,
            same_endpoints(c, self),
            c.encryption_key == self.encryption_key,
            c.compression == self.compression,
            c.environment == self.environment,
    {
        S2Configuration { ssl_no_verify: Some(ssl_no_verify), ..self }
    }

    fn with_environment(self, environment: ConnectionEnvironment) -> (c: Self)
        ensures
            c.environment == environment,
            c.access_token == self.access_token,
            same_endpoints(c, self),
            c.encryption_key == self.encryption_key,
            c.compression == self.compression,
            c.ssl_no_verify == self.ssl_no_verify,
    {
        S2Configuration { environment, ..self }
    }

    /// The account endpoint in use, for display.
    pub fn account_endpoint_label(&self) -> (s: &str)
        ensures
            (self.account_endpoint is Some && self.basin_endpoint is Some) ==> s@ == self.account_endpoint->0@,
            !(self.account_endpoint is Some && self.basin_endpoint is Some) ==> s@ == "S2 Cloud default"@,
    {
        match (&self.account_endpoint, &self.basin_endpoint) {
            (Some(account), Some(_)) => account.as_str(),
            _ => "S2 Cloud default",
        }
    }

    /// The basin endpoint in use, for display.
    pub fn basin_endpoint_label(&self) -> (s: &str)
        ensures
            (self.account_endpoint is Some && self.basin_endpoint is Some) ==> s@ == self.basin_endpoint->0@,
            !(self.account_endpoint is Some && self.basin_endpoint is Some) ==> s@ == "S2 Cloud default"@,
    {
        match (&self.account_endpoint, &self.basin_endpoint) {
            (Some(_), Some(basin)) => basin.as_str(),
            _ => "S2 Cloud default",
        }
    }

    pub fn environment_label(&self) -> (s: &'static str)
        ensures
            s@ == environment_text(self.environment),
    {
        self.environment.label()
    }
}

/// An environment variable as the process sees it.
pub enum EnvValue {
    Absent,
    Text(String),
    NotUnicode,
}

/// The error for an environment variable that is not valid Unicode.
pub open spec fn invalid_environment(name: Seq<char>, e: Error) -> bool {
    e matches Error::Config(ConfigError::InvalidEnvironment { name: n }) && n@ == name
}

/// Reads an environment variable: its text, nothing when it is unset, an
/// error when it is not valid Unicode.
pub fn environment_value(name: &str, value: EnvValue) -> (r: Result<Option<String>, Error>)
    ensures
        value is Absent ==> r matches Ok(None),
        value matches EnvValue::Text(t) ==> (r matches Ok(Some(s)) && s@ == t@),
        value is NotUnicode ==> (r matches Err(e) && invalid_environment(name@, e)),
{
    match value {
        EnvValue::Absent => Ok(None),
        EnvValue::Text(t) => Ok(Some(t)),
        EnvValue::NotUnicode => Err(Error::Config(ConfigError::InvalidEnvironment { name: copy_str(name) })),
    }
}

/// The variables that override the configuration file.
pub struct CloudEnvironment {
    pub access_token: EnvValue,
    pub encryption_key: EnvValue,
    pub ssl_no_verify: EnvValue,
    pub compression: EnvValue,
}

/// The error text for a setting that is neither `true` nor `false`.
pub open spec fn not_a_bool(name: Seq<char>, value: Seq<char>) -> Seq<char> {
    name + " must be either true or false; received `"@ + value + "`"@
}

pub open spec fn not_a_compression(value: Seq<char>) -> Seq<char> {
    "S2_COMPRESSION must be one of none, gzip, or zstd; received `"@ + value + "`"@
}

/// The compression that `value` names, in any letter case.
pub open spec fn compression_named(value: Seq<char>) -> Option<S2Compression> {
    if eq_ignore_ascii_case(value, "none"@) {
        Some(S2Compression::NoCompression)
    } else if eq_ignore_ascii_case(value, "gzip"@) {
        Some(S2Compression::Gzip)
    } else if eq_ignore_ascii_case(value, "zstd"@) {
        Some(S2Compression::Zstd)
    } else {
        None
    }
}

pub fn parse_bool_setting(name: &str, value: &str) -> (r: Result<bool, Error>)
    ensures
        value@ == "true"@ ==> r == Ok::<bool, Error>(true),
        value@ == "false"@ ==> r == Ok::<bool, Error>(false),
        value@ != "true"@ && value@ != "false"@ ==> (r matches Err(Error::Config(ConfigError::Invalid(m))) && m@ == not_a_bool(name@, value@)),
{
    proof {
        reveal_strlit("true");
        reveal_strlit("false");
        assert("true"@.len() != "false"@.len());
    }
    if str_eq(value, "true") {
        Ok(true)
    } else if str_eq(value, "false") {
        Ok(false)
    } else {
        let mut m = concat3(name, " must be either true or false; received `", value);
        push_str(&mut m, "`");
        Err(Error::Config(ConfigError::Invalid(m)))
    }
}

pub fn parse_compression(value: &str) -> (r: Result<S2Compression, Error>)
    ensures
        compression_named(value@) matches Some(c) ==> r == Ok::<S2Compression, Error>(c),
        compression_named(value@) is None ==> (r matches Err(Error::Config(ConfigError::Invalid(m))) && m@ == not_a_compression(value@)),
{
    if str_eq_ignore_ascii_case(value, "none") {
        Ok(S2Compression::NoCompression)
    } else if str_eq_ignore_ascii_case(value, "gzip") {
        Ok(S2Compression::Gzip)
    } else if str_eq_ignore_ascii_case(value, "zstd") {
        Ok(S2Compression::Zstd)
    } else {
        Err(Error::Config(ConfigError::Invalid(concat3("S2_COMPRESSION must be one of none, gzip, or zstd; received `", value, "`"))))
    }
}

/// The setting after an environment override: the variable's text when it
/// is set, the file's setting otherwise.
pub open spec fn overridden(base: Option<String>, v: EnvValue, result: Option<String>) -> bool {
    match v {
        EnvValue::Text(t) => result matches Some(s) && s@ == t@,
        _ => result == base,
    }
}

/// The environment variable that first fails to read or parse, with its error.
pub open spec fn cloud_environment_error(env: CloudEnvironment, e: Error) -> bool {
    if env.access_token is NotUnicode {
        invalid_environment("S2_ACCESS_TOKEN"@, e)
    } else if env.encryption_key is NotUnicode {
        invalid_environment("S2_ENCRYPTION_KEY"@, e)
    } else if env.ssl_no_verify is NotUnicode {
        invalid_environment("S2_SSL_NO_VERIFY"@, e)
    } else if env.ssl_no_verify is Text && env.ssl_no_verify->Text_0@ != "true"@ && env.ssl_no_verify->Text_0@ != "false"@ {
        e matches Error::Config(ConfigError::Invalid(m)) && m@ == not_a_bool("S2_SSL_NO_VERIFY"@, env.ssl_no_verify->Text_0@)
    } else if env.compression is NotUnicode {
        invalid_environment("S2_COMPRESSION"@, e)
    } else if env.compression is Text && compression_named(env.compression->Text_0@) is None {
        e matches Error::Config(ConfigError::Invalid(m)) && m@ == not_a_compression(env.compression->Text_0@)
    } else {
        false
    }
}

/// The environment holds a variable that fails to read or parse.
pub open spec fn cloud_environment_invalid(env: CloudEnvironment) -> bool {
    ||| env.access_token is NotUnicode
    ||| env.encryption_key is NotUnicode
    ||| env.ssl_no_verify is NotUnicode
    ||| (env.ssl_no_verify matches EnvValue::Text(t) && t@ != "true"@ && t@ != "false"@)
    ||| env.compression is NotUnicode
    ||| (env.compression matches EnvValue::Text(t) && compression_named(t@) is None)
}

impl S2Configuration {
    /// The S2 Cloud configuration: the configuration file's settings (all
    /// unset without a file), overridden by the environment; endpoints are
    /// always the cloud defaults.
    pub fn load(file: Option<S2Configuration>, env: CloudEnvironment) -> (r: Result<S2Configuration, Error>)
        ensures
            cloud_environment_invalid(env) <==> r is Err,
            r matches Err(e) ==> cloud_environment_error(env, e),
            r matches Ok(c) ==> {
                let base_token = match file { Some(f) => f.access_token, None => None };
                let base_key = match file { Some(f) => f.encryption_key, None => None };
                let base_ssl = match file { Some(f) => f.ssl_no_verify, None => None };
                let base_compression = match file { Some(f) => f.compression, None => None };
                &&& overridden(base_token, env.access_token, c.access_token)
                &&& overridden(base_key, env.encryption_key, c.encryption_key)
                &&& c.account_endpoint is None
                &&& c.basin_endpoint is None
                &&& c.environment == ConnectionEnvironment::Cloud
                &&& c.ssl_no_verify == (match env.ssl_no_verify {
                    EnvValue::Text(t) => Some(t@ == "true"@),
                    _ => base_ssl,
                })
                &&& c.compression == (match env.compression {
                    EnvValue::Text(t) => compression_named(t@),
                    _ => base_compression,
                })
            },
    {
        let mut config = match file {
            Some(f) => f,
            None => S2Configuration::default(),
        };
        let CloudEnvironment { access_token, encryption_key, ssl_no_verify, compression } = env;
        if let Some(t) = environment_value("S2_ACCESS_TOKEN", access_token)? {
            config.access_token = Some(t);
        }
        config.account_endpoint = None;
        config.basin_endpoint = None;
        config.environment = ConnectionEnvironment::Cloud;
        if let Some(k) = environment_value("S2_ENCRYPTION_KEY", encryption_key)? {
            config.encryption_key = Some(k);
        }
        if let Some(v) = environment_value("S2_SSL_NO_VERIFY", ssl_no_verify)? {
            config.ssl_no_verify = Some(parse_bool_setting("S2_SSL_NO_VERIFY", v.as_str())?);
        }
        if let Some(v) = environment_value("S2_COMPRESSION", compression)? {
            config.compression = Some(parse_compression(v.as_str())?);
        }
        Ok(config)
    }

    /// Settings for one endpoint that serves both the account and the basin
    /// API, after it passes the S2 client's validation.
    pub fn for_shared_endpoint(endpoint: &str, access_token: &str, environment: ConnectionEnvironment) -> (r: Result<S2Configuration, Error>)
        ensures
            r is Ok <==> endpoint_pair_error(endpoint@, endpoint@) is None,
            r matches Err(e) ==> (e matches Error::Config(ConfigError::Invalid(m)) && Some(m@) == endpoint_pair_error(endpoint@, endpoint@)),
            r matches Ok(c) ==> {
                &&& c.access_token matches Some(t) && t@ == access_token@
                &&& c.account_endpoint matches Some(a) && a@ == endpoint@
                &&& c.basin_endpoint matches Some(b) && b@ == endpoint@
                &&& c.encryption_key is None
                &&& c.compression is None
                &&& c.ssl_no_verify is None
                &&& c.environment == environment
            },
    {
        if let Err(m) = parse_endpoint_pair(endpoint, endpoint) {
            return Err(Error::Config(ConfigError::Invalid(m)));
        }
        Ok(S2Configuration::new(access_token).with_endpoints(endpoint, endpoint).with_environment(environment))
    }

    /// A development configuration for an existing endpoint; the access
    /// token comes from `S2_ACCESS_TOKEN`, or is a placeholder.
    pub fn load_shared_endpoint(endpoint: &str, access_token: EnvValue) -> (r: Result<S2Configuration, Error>)
        ensures
            access_token is NotUnicode ==> (r matches Err(e) && invalid_environment("S2_ACCESS_TOKEN"@, e)),
            !(access_token is NotUnicode) ==> {
                &&& r is Ok <==> endpoint_pair_error(endpoint@, endpoint@) is None
                &&& r matches Err(e) ==> (e matches Error::Config(ConfigError::Invalid(m)) && Some(m@) == endpoint_pair_error(endpoint@, endpoint@))
                &&& r matches Ok(c) ==> {
                    &&& c.access_token matches Some(t) && t@ == (match access_token {
                        EnvValue::Text(v) => v@,
                        _ => "ignored"@,
                    })
                    &&& c.account_endpoint matches Some(a) && a@ == endpoint@
                    &&& c.basin_endpoint matches Some(b) && b@ == endpoint@
                    &&& c.encryption_key is None
                    &&& c.compression is None
                    &&& c.ssl_no_verify is None
                    &&& c.environment == ConnectionEnvironment::CustomEndpoint
                }
            },
    {
        let token = match environment_value("S2_ACCESS_TOKEN", access_token)? {
            Some(t) => t,
            None => copy_str("ignored"),
        };
        S2Configuration::for_shared_endpoint(endpoint, token.as_str(), ConnectionEnvironment::CustomEndpoint)
    }

    /// A development configuration from `S2_ACCOUNT_ENDPOINT`,
    /// `S2_BASIN_ENDPOINT` and `S2_ACCESS_TOKEN` (a placeholder token when it
    /// is unset).
    pub fn load_development_environment(account: EnvValue, basin: EnvValue, access_token: EnvValue) -> (r: Result<S2Configuration, Error>)
        ensures
            account is NotUnicode ==> (r matches Err(e) && invalid_environment("S2_ACCOUNT_ENDPOINT"@, e)),
            account is Absent ==> (r matches Err(Error::Config(ConfigError::Invalid(m))) && m@ == missing_endpoints()),
            account is Text && basin is NotUnicode ==> (r matches Err(e) && invalid_environment("S2_BASIN_ENDPOINT"@, e)),
            account is Text && basin is Absent ==> (r matches Err(Error::Config(ConfigError::Invalid(m))) && m@ == missing_endpoints()),
            account is Text && basin is Text && access_token is NotUnicode ==> (r matches Err(e) && invalid_environment("S2_ACCESS_TOKEN"@, e)),
            account is Text && basin is Text && !(access_token is NotUnicode) ==> match endpoint_pair_error(
                account->Text_0@,
                basin->Text_0@,
            ) {
                Some(m) => r matches Err(Error::Config(ConfigError::Invalid(x))) && x@ == m,
                None => (r matches Ok(c) && {
                    &&& c.access_token matches Some(t) && t@ == (match access_token {
                        EnvValue::Text(v) => v@,
                        _ => "ignored"@,
                    })
                    &&& c.account_endpoint matches Some(a) && a@ == account->Text_0@
                    &&& c.basin_endpoint matches Some(b) && b@ == basin->Text_0@
                    &&& c.encryption_key is None
                    &&& c.compression is None
                    &&& c.ssl_no_verify is None
                    &&& c.environment == ConnectionEnvironment::CustomEndpoint
                }),
            },
    {
        let account = match environment_value("S2_ACCOUNT_ENDPOINT", account)? {
            Some(a) => a,
            None => {
                return Err(Error::Config(ConfigError::Invalid(copy_str("--from-env requires S2_ACCOUNT_ENDPOINT and S2_BASIN_ENDPOINT"))));
            },
        };
        let basin = match environment_value("S2_BASIN_ENDPOINT", basin)? {
            Some(b) => b,
            None => {
                return Err(Error::Config(ConfigError::Invalid(copy_str("--from-env requires S2_ACCOUNT_ENDPOINT and S2_BASIN_ENDPOINT"))));
            },
        };
        let token = match environment_value("S2_ACCESS_TOKEN", access_token)? {
            Some(t) => t,
            None => copy_str("ignored"),
        };
        let configuration = S2Configuration::new(token.as_str()).with_endpoints(account.as_str(), basin.as_str()).with_environment(
            ConnectionEnvironment::CustomEndpoint,
        );
        configuration.sdk_settings()?;
        Ok(configuration)
    }
}

#[verifier::external_type_specification]
#[verifier::external_body]
pub struct ExS2Endpoints(s2_sdk::types::S2Endpoints);

#[verifier::external_type_specification]
#[verifier::external_body]
pub struct ExEncryptionKey(s2_sdk::types::EncryptionKey);

/// The error text with which the S2 client refuses an account and a basin
/// endpoint given as texts (parsing each with `AccountEndpoint::new` and
/// `BasinEndpoint::new`, then pairing them with `S2Endpoints::new`), or none
/// when it accepts them.
pub uninterp spec fn endpoint_pair_error(account: Seq<char>, basin: Seq<char>) -> Option<Seq<char>>;

/// Builds the client's endpoints from an account and a basin endpoint text
/// with `s2_sdk::types::AccountEndpoint::new`, `BasinEndpoint::new` and
/// `S2Endpoints::new`, as `S2Endpoints::for_endpoint` does for one text. The
/// contract claims that acceptance and the error's display text are a
/// function of the two texts; it does not state the URL grammar.
#[verifier::external_body]
fn parse_endpoint_pair(account: &str, basin: &str) -> (r: Result<s2_sdk::types::S2Endpoints, String>)
    ensures
        r is Ok <==> endpoint_pair_error(account@, basin@) is None,
        r matches Err(m) ==> endpoint_pair_error(account@, basin@) == Some(m@),
{
    let account = s2_sdk::types::AccountEndpoint::new(account).map_err(|error| error.to_string())?;
    let basin = s2_sdk::types::BasinEndpoint::new(basin).map_err(|error| error.to_string())?;
    s2_sdk::types::S2Endpoints::new(account, basin).map_err(|error| error.to_string())
}

/// The longest encryption key the client sends, in bytes.
pub const MAX_ENCRYPTION_KEY_BYTES: usize = 44;

/// The encryption key is accepted: its trimmed text is 1 to 44 bytes long.
pub open spec fn encryption_key_accepted(key: Seq<char>) -> bool {
    1 <= utf8_size(trim_spec(key)) <= MAX_ENCRYPTION_KEY_BYTES
}

pub open spec fn encryption_key_length_error(key: Seq<char>) -> Seq<char> {
    "invalid encryption key: key material length "@ + decimal(utf8_size(trim_spec(key))) + " is out of range"@
}

/// Parses an encryption key with `FromStr` of
/// `s2_sdk::types::EncryptionKey`, which trims the text and accepts it when
/// its length in bytes is between 1 and 44, and otherwise fails with the
/// length of the trimmed text.
#[verifier::external_body]
fn parse_encryption_key(key: &str) -> (r: Result<s2_sdk::types::EncryptionKey, String>)
    ensures
        r is Ok <==> encryption_key_accepted(key@),
        r matches Err(m) ==> m@ == encryption_key_length_error(key@),
{
    match key.parse::<s2_sdk::types::EncryptionKey>() {
        Ok(parsed) => Ok(parsed),
        Err(error) => Err(error.to_string()),
    }
}

/// Seconds a request to S2 may take.
pub const REQUEST_TIMEOUT_SECONDS: u64 = 30;

/// What the S2 client is built with.
pub struct SdkSettings {
    pub access_token: String,
    pub request_timeout_seconds: u64,
    pub compression: S2Compression,
    /// Custom endpoints; the S2 Cloud defaults where there are none.
    pub endpoints: Option<s2_sdk::types::S2Endpoints>,
    pub skip_cert_verification: bool,
}

/// Why the S2 client refuses the configuration's custom endpoints, when
/// both are set.
pub open spec fn endpoint_failure(c: S2Configuration) -> Option<Seq<char>> {
    match (c.account_endpoint, c.basin_endpoint) {
        (Some(a), Some(b)) => endpoint_pair_error(a@, b@),
        _ => None,
    }
}

/// The settings agree with the configuration they come from.
pub open spec fn settings_of(c: S2Configuration, s: SdkSettings) -> bool {
    &&& c.access_token matches Some(t) && s.access_token@ == t@
    &&& s.request_timeout_seconds == REQUEST_TIMEOUT_SECONDS
    &&& s.compression == match c.compression {
        Some(x) => x,
        None => S2Compression::NoCompression,
    }
    &&& s.skip_cert_verification == (c.ssl_no_verify == Some(true))
    &&& (s.endpoints is Some <==> (c.account_endpoint is Some && c.basin_endpoint is Some))
}

impl S2Configuration {
    /// The settings of the S2 client: the access token is required, custom
    /// endpoints are used only as a pair and must parse, and a lone endpoint
    /// leaves the S2 Cloud defaults.
    pub fn sdk_settings(&self) -> (r: Result<SdkSettings, Error>)
        ensures
            self.access_token is None ==> (r matches Err(Error::Config(ConfigError::MissingAccessToken))),
            self.access_token is Some ==> match endpoint_failure(*self) {
                Some(m) => r matches Err(Error::Config(ConfigError::Invalid(x))) && x@ == m,
                None => r matches Ok(s) && settings_of(*self, s),
            },
    {
        let access_token = match &self.access_token {
            Some(t) => copy_str(t.as_str()),
            None => {
                return Err(Error::Config(ConfigError::MissingAccessToken));
            },
        };
        let endpoints = match (&self.account_endpoint, &self.basin_endpoint) {
            (Some(account), Some(basin)) => match parse_endpoint_pair(account.as_str(), basin.as_str()) {
                Ok(e) => Some(e),
                Err(m) => {
                    return Err(Error::Config(ConfigError::Invalid(m)));
                },
            },
            _ => None,
        };
        let compression = match self.compression {
            Some(c) => c,
            None => S2Compression::default(),
        };
        let skip_cert_verification = match self.ssl_no_verify {
            Some(true) => true,
            _ => false,
        };
        Ok(SdkSettings {
            access_token,
            request_timeout_seconds: REQUEST_TIMEOUT_SECONDS,
            compression,
            endpoints,
            skip_cert_verification,
        })
    }

    /// The configured encryption key, parsed.
    pub fn encryption_key(&self) -> (r: Result<Option<s2_sdk::types::EncryptionKey>, Error>)
        ensures
            self.encryption_key is None ==> (r matches Ok(None)),
            self.encryption_key matches Some(k) ==> (r is Ok <==> encryption_key_accepted(k@)),
            self.encryption_key matches Some(k) ==> (r matches Ok(v) ==> v is Some),
            self.encryption_key matches Some(k) ==> (r matches Err(e) ==> e matches Error::Config(
                ConfigError::Invalid(m),
            ) && m@ == "S2_ENCRYPTION_KEY is invalid: "@ + encryption_key_length_error(k@)),
    {
        match &self.encryption_key {
            None => Ok(None),
            Some(key) => match parse_encryption_key(key.as_str()) {
                Ok(parsed) => Ok(Some(parsed)),
                Err(m) => Err(Error::Config(ConfigError::Invalid(concat2("S2_ENCRYPTION_KEY is invalid: ", m.as_str())))),
            },
        }
    }
}

pub open spec fn missing_endpoints() -> Seq<char> {
    "--from-env requires S2_ACCOUNT_ENDPOINT and S2_BASIN_ENDPOINT"@
}

} // verus!
