//! Settings of the service process: server, database, security, transport,
//! submission and tracing.

use vstd::prelude::*;

use crate::text::{
    append_chars, chars_of, has_prefix, starts_with, string_of, trim_chars, trimmed,
};

verus! {

/// TLS settings of the server.
#[derive(Debug, Clone)]
pub struct TlsConfig {
    pub enabled: bool,
    pub min_version: String,
    pub certificate_path: String,
    pub private_key_path: String,
}

/// Where the server listens.
#[derive(Debug, Clone)]
pub struct ServerConfig {
    pub host: String,
    pub port: u16,
    pub tls: TlsConfig,
}

/// Where messages are persisted, and whether the store is encrypted.
#[derive(Debug, Clone)]
pub struct DatabaseConfig {
    pub url: String,
    pub use_sqlcipher: bool,
    pub sqlcipher_key_ref: Option<String>,
}

/// Where S/MIME material lies.
#[derive(Debug, Clone)]
pub struct SmimeConfig {
    pub enabled: bool,
    pub certificates_dir: String,
    pub default_signing_certificate: Option<String>,
    pub default_encryption_certificate: Option<String>,
}

impl SmimeConfig {
    /// The directory that a configuration without one is read with.
    pub fn default_cert_dir() -> (dir: String)
        ensures
            dir@ == "profiles/certs"@,
    {
        String::from_str("profiles/certs")
    }
}

impl Default for SmimeConfig {
    fn default() -> (out: Self)
        ensures
            !out.enabled,
            out.certificates_dir@ == Seq::<char>::empty(),
            out.default_signing_certificate is None,
            out.default_encryption_certificate is None,
    {
        SmimeConfig {
            enabled: false,
            certificates_dir: String::new(),
            default_signing_certificate: None,
            default_encryption_certificate: None,
        }
    }
}

/// The TLS policy that the security layer enforces.
#[derive(Debug, Clone)]
pub struct SecurityTlsPolicy {
    pub min_version: String,
    pub tls_verify: bool,
}

impl SecurityTlsPolicy {
    /// The version that a configuration without one is read with.
    pub fn default_min_version() -> (version: String)
        ensures
            version@ == "TLS1_3"@,
    {
        String::from_str("TLS1_3")
    }

    /// Whether a configuration that does not say so verifies certificates.
    pub fn default_verify() -> (verify: bool)
        ensures
            verify,
    {
        true
    }
}

impl Default for SecurityTlsPolicy {
    fn default() -> (out: Self)
        ensures
            out.min_version@ == Seq::<char>::empty(),
            !out.tls_verify,
    {
        SecurityTlsPolicy { min_version: String::new(), tls_verify: false }
    }
}

/// Where the key of the encrypted store is kept.
#[derive(Debug, Clone)]
pub struct KeychainConfig {
    pub enabled: bool,
    pub service_name: Option<String>,
    pub account_name: Option<String>,
    pub fallback_env: Option<String>,
}

impl Default for KeychainConfig {
    fn default() -> (out: Self)
        ensures
            !out.enabled,
            out.service_name is None,
            out.account_name is None,
            out.fallback_env is None,
    {
        KeychainConfig { enabled: false, service_name: None, account_name: None, fallback_env: None }
    }
}

/// Authentication and the security services.
#[derive(Debug, Clone)]
pub struct SecurityConfig {
    pub require_auth: bool,
    pub api_key: String,
    pub smime: SmimeConfig,
    pub tls: SecurityTlsPolicy,
    pub keychain: KeychainConfig,
}

impl Default for SecurityConfig {
    fn default() -> (out: Self)
        ensures
            !out.require_auth,
            out.api_key@ == Seq::<char>::empty(),
            !out.smime.enabled,
            !out.tls.tls_verify,
            !out.keychain.enabled,
    {
        SecurityConfig {
            require_auth: false,
            api_key: String::new(),
            smime: SmimeConfig::default(),
            tls: SecurityTlsPolicy::default(),
            keychain: KeychainConfig::default(),
        }
    }
}

/// Which transport carries the mail.
#[derive(Debug, Clone, Copy, PartialEq, Eq, Structural)]
pub enum TransportMode {
    Mock,
    Sdk,
}

impl Default for TransportMode {
    fn default() -> (out: Self)
        ensures
            out == TransportMode::Mock,
    {
        TransportMode::Mock
    }
}

/// How the vendor SDK is found and how long it may take.
#[derive(Debug, Clone)]
pub struct TransportSdkConfig {
    pub library_path: Option<String>,
    pub preferred_profile: Option<String>,
    pub connect_timeout_ms: u64,
    pub operation_timeout_ms: u64,
}

impl TransportSdkConfig {
    /// Ten seconds.
    pub fn default_connect_timeout() -> (ms: u64)
        ensures
            ms == 10_000,
    {
        10_000
    }

    /// Thirty seconds.
    pub fn default_operation_timeout() -> (ms: u64)
        ensures
            ms == 30_000,
    {
        30_000
    }
}

impl Default for TransportSdkConfig {
    fn default() -> (out: Self)
        ensures
            out.library_path is None,
            out.preferred_profile is None,
            out.connect_timeout_ms == 10_000,
            out.operation_timeout_ms == 30_000,
    {
        TransportSdkConfig {
            library_path: None,
            preferred_profile: None,
            connect_timeout_ms: Self::default_connect_timeout(),
            operation_timeout_ms: Self::default_operation_timeout(),
        }
    }
}

/// TLS settings of the transport.
#[derive(Debug, Clone)]
pub struct TransportTlsConfig {
    pub enabled: bool,
    pub min_version: String,
    pub ca_bundle: String,
    pub client_certificate: Option<String>,
    pub client_key: Option<String>,
    pub ocsp_responder: Option<String>,
    pub enforce_pinset: bool,
}

impl TransportTlsConfig {
    /// Whether a configuration that does not say so has TLS on.
    pub fn default_enabled() -> (enabled: bool)
        ensures
            enabled,
    {
        true
    }

    /// The version that a configuration without one is read with.
    pub fn default_min_version() -> (version: String)
        ensures
            version@ == "TLS1_3"@,
    {
        String::from_str("TLS1_3")
    }

    /// The CA bundle that a configuration without one is read with.
    pub fn default_ca_bundle() -> (path: String)
        ensures
            path@ == "profiles/certs/ca.pem"@,
    {
        String::from_str("profiles/certs/ca.pem")
    }

    /// The client certificate of a configuration that names none: none.
    pub fn default_client_cert() -> (path: Option<String>)
        ensures
            path is None,
    {
        None
    }

    /// The client key of a configuration that names none: none.
    pub fn default_client_key() -> (path: Option<String>)
        ensures
            path is None,
    {
        None
    }
}

impl Default for TransportTlsConfig {
    fn default() -> (out: Self)
        ensures
            out.enabled,
            out.min_version@ == "TLS1_3"@,
            out.ca_bundle@ == "profiles/certs/ca.pem"@,
            out.client_certificate is None,
            out.client_key is None,
            out.ocsp_responder is None,
            !out.enforce_pinset,
    {
        TransportTlsConfig {
            enabled: Self::default_enabled(),
            min_version: Self::default_min_version(),
            ca_bundle: Self::default_ca_bundle(),
            client_certificate: Self::default_client_cert(),
            client_key: Self::default_client_key(),
            ocsp_responder: None,
            enforce_pinset: false,
        }
    }
}

/// The transport: its mode, its profiles and its TLS settings.
#[derive(Debug, Clone)]
pub struct TransportConfig {
    pub mode: TransportMode,
    pub profiles_dir: String,
    pub tls: TransportTlsConfig,
    pub fingerprints: Vec<String>,
    pub sdk: TransportSdkConfig,
}

impl TransportConfig {
    /// The directory that a configuration without one is read with.
    pub fn default_profiles_dir() -> (dir: String)
        ensures
            dir@ == "profiles"@,
    {
        String::from_str("profiles")
    }
}

impl Default for TransportConfig {
    fn default() -> (out: Self)
        ensures
            out.mode == TransportMode::Mock,
            out.profiles_dir@ == "profiles"@,
            out.tls.enabled,
            out.tls.min_version@ == "TLS1_3"@,
            out.fingerprints@.len() == 0,
            out.sdk.connect_timeout_ms == 10_000,
            out.sdk.operation_timeout_ms == 30_000,
    {
        TransportConfig {
            mode: TransportMode::Mock,
            profiles_dir: Self::default_profiles_dir(),
            tls: TransportTlsConfig::default(),
            fingerprints: Vec::new(),
            sdk: TransportSdkConfig::default(),
        }
    }
}

/// How messages are submitted.
#[derive(Debug, Clone)]
pub struct SubmitConfig {
    pub default_strategy: u8,
}

/// What is logged, and where trace bundles go.
#[derive(Debug, Clone)]
pub struct TracingConfig {
    pub log_level: String,
    pub trace_bundle_path: String,
}

/// The settings of the whole process.
#[derive(Debug, Clone)]
pub struct AppConfig {
    pub server: ServerConfig,
    pub database: DatabaseConfig,
    pub security: SecurityConfig,
    pub submit: SubmitConfig,
    pub tracing: TracingConfig,
    pub transport: TransportConfig,
}

/// The store URL for a path: the path without the white space around it,
/// with `sqlite://` in front unless it begins with that.
pub open spec fn sqlite_url(path: Seq<char>) -> Seq<char> {
    if starts_with(trimmed(path), "sqlite://"@) {
        trimmed(path)
    } else {
        "sqlite://"@ + trimmed(path)
    }
}

/// Computes `sqlite_url`.
pub fn normalize_sqlite_url(path: &str) -> (url: String)
    ensures
        url@ == sqlite_url(path@),
{
    let scheme = chars_of("sqlite://");
    let bare = trim_chars(&chars_of(path));
    if has_prefix(&bare, &scheme) {
        string_of(&bare)
    } else {
        let mut url = scheme;
        append_chars(&mut url, &bare);
        string_of(&url)
    }
}

} // verus!
