//! Configuration values of the service, with their defaults.

pub mod file;

use vstd::prelude::*;

use crate::text::{one_text, texts_of};

verus! {

/// Why a configuration could not be loaded.
#[derive(Debug, PartialEq, Eq)]
pub enum ConfigError {
    MissingFile,
    InvalidFormat,
}

/// TLS settings of the server, kept for compatibility.
#[derive(Clone, Debug, PartialEq, Eq)]
pub struct TlsConfig {
    pub enabled: bool,
    pub certificate_path: String,
    pub private_key_path: String,
}

impl TlsConfig {
    /// TLS off and no paths.
    pub open spec fn is_default(&self) -> bool {
        &&& !self.enabled
        &&& self.certificate_path@ == Seq::<char>::empty()
        &&& self.private_key_path@ == Seq::<char>::empty()
    }
}

impl Default for TlsConfig {
    fn default() -> (out: Self)
        ensures
            out.is_default(),
    {
        TlsConfig { enabled: false, certificate_path: String::new(), private_key_path: String::new() }
    }
}

/// Where the server listens.
#[derive(Clone, Debug, PartialEq, Eq)]
pub struct ServerConfig {
    pub host: String,
    pub port: u16,
    pub tls: TlsConfig,
}

impl ServerConfig {
    /// `127.0.0.1`, port 3333, TLS off.
    pub open spec fn is_default(&self) -> bool {
        &&& self.host@ == "127.0.0.1"@
        &&& self.port == 3333
        &&& self.tls.is_default()
    }
}

impl Default for ServerConfig {
    fn default() -> (out: Self)
        ensures
            out.is_default(),
    {
        ServerConfig { host: String::from_str("127.0.0.1"), port: 3333, tls: TlsConfig::default() }
    }
}

/// Where messages are persisted.
#[derive(Clone, Debug, PartialEq, Eq)]
pub struct DatabaseConfig {
    pub path: String,
}

impl DatabaseConfig {
    /// `data/messages.db`.
    pub open spec fn is_default(&self) -> bool {
        self.path@ == "data/messages.db"@
    }
}

impl Default for DatabaseConfig {
    fn default() -> (out: Self)
        ensures
            out.is_default(),
    {
        DatabaseConfig { path: String::from_str("data/messages.db") }
    }
}

/// Settings of the legacy importer.
#[derive(Clone, Debug, PartialEq, Eq)]
pub struct MigrationConfig {
    pub workspace: String,
    pub quarantine: String,
    pub charset_fallback: String,
    pub parallelism: usize,
}

impl MigrationConfig {
    /// The workspace directories, `utf-8` and four workers.
    pub open spec fn is_default(&self) -> bool {
        &&& self.workspace@ == "workspace/migration"@
        &&& self.quarantine@ == "workspace/quarantine"@
        &&& self.charset_fallback@ == "utf-8"@
        &&& self.parallelism == 4
    }
}

impl Default for MigrationConfig {
    fn default() -> (out: Self)
        ensures
            out.is_default(),
    {
        MigrationConfig {
            workspace: String::from_str("workspace/migration"),
            quarantine: String::from_str("workspace/quarantine"),
            charset_fallback: String::from_str("utf-8"),
            parallelism: 4,
        }
    }
}

/// SMTP relay settings of the gateway.
#[derive(Clone, Debug, PartialEq, Eq)]
pub struct GatewaySmtpConfig {
    pub host: String,
    pub port: u16,
    pub tls: bool,
    pub username: Option<String>,
    pub password: Option<String>,
    pub rate_limit_per_minute: u32,
}

impl GatewaySmtpConfig {
    /// `smtp.example.com`, port 587, TLS on, no credentials, 120 per minute.
    pub open spec fn is_default(&self) -> bool {
        &&& self.host@ == "smtp.example.com"@
        &&& self.port == 587
        &&& self.tls
        &&& self.username is None
        &&& self.password is None
        &&& self.rate_limit_per_minute == 120
    }
}

impl Default for GatewaySmtpConfig {
    fn default() -> (out: Self)
        ensures
            out.is_default(),
    {
        GatewaySmtpConfig {
            host: String::from_str("smtp.example.com"),
            port: 587,
            tls: true,
            username: None,
            password: None,
            rate_limit_per_minute: 120,
        }
    }
}

/// IMAP mailbox settings of the gateway.
#[derive(Clone, Debug, PartialEq, Eq)]
pub struct GatewayImapConfig {
    pub host: String,
    pub port: u16,
    pub tls: bool,
    pub mailbox: String,
}

impl GatewayImapConfig {
    /// `imap.example.com`, port 993, TLS on, mailbox `Inbox`.
    pub open spec fn is_default(&self) -> bool {
        &&& self.host@ == "imap.example.com"@
        &&& self.port == 993
        &&& self.tls
        &&& self.mailbox@ == "Inbox"@
    }
}

impl Default for GatewayImapConfig {
    fn default() -> (out: Self)
        ensures
            out.is_default(),
    {
        GatewayImapConfig {
            host: String::from_str("imap.example.com"),
            port: 993,
            tls: true,
            mailbox: String::from_str("Inbox"),
        }
    }
}

/// The mapping rules of the gateway.
#[derive(Clone, Debug, PartialEq, Eq)]
pub struct GatewayMappingConfig {
    pub rules: Vec<String>,
    pub allow_list_domains: Vec<String>,
}

impl GatewayMappingConfig {
    /// One rule, `{G}.{S}@{O}.{C}.example`, and the domain `example.com`.
    pub open spec fn is_default(&self) -> bool {
        &&& texts_of(self.rules@) == seq!["{G}.{S}@{O}.{C}.example"@]
        &&& texts_of(self.allow_list_domains@) == seq!["example.com"@]
    }
}

impl Default for GatewayMappingConfig {
    fn default() -> (out: Self)
        ensures
            out.is_default(),
    {
        GatewayMappingConfig {
            rules: one_text("{G}.{S}@{O}.{C}.example"),
            allow_list_domains: one_text("example.com"),
        }
    }
}

/// The policy of the gateway.
#[derive(Clone, Debug, PartialEq, Eq)]
pub struct GatewaySecurityConfig {
    pub enforce_tls: bool,
    pub domain_allow_list: Vec<String>,
}

impl GatewaySecurityConfig {
    /// TLS enforced, and the domain `example.com` allowed.
    pub open spec fn is_default(&self) -> bool {
        &&& self.enforce_tls
        &&& texts_of(self.domain_allow_list@) == seq!["example.com"@]
    }
}

impl Default for GatewaySecurityConfig {
    fn default() -> (out: Self)
        ensures
            out.is_default(),
    {
        GatewaySecurityConfig { enforce_tls: true, domain_allow_list: one_text("example.com") }
    }
}

/// How the gateway relays, fetches, maps and polices mail.
#[derive(Clone, Debug, PartialEq, Eq)]
pub struct GatewayConfig {
    pub smtp: GatewaySmtpConfig,
    pub imap: GatewayImapConfig,
    pub mapping: GatewayMappingConfig,
    pub security: GatewaySecurityConfig,
}

impl GatewayConfig {
    /// Every part at its default.
    pub open spec fn is_default(&self) -> bool {
        &&& self.smtp.is_default()
        &&& self.imap.is_default()
        &&& self.mapping.is_default()
        &&& self.security.is_default()
    }
}

impl Default for GatewayConfig {
    fn default() -> (out: Self)
        ensures
            out.is_default(),
    {
        GatewayConfig {
            smtp: GatewaySmtpConfig::default(),
            imap: GatewayImapConfig::default(),
            mapping: GatewayMappingConfig::default(),
            security: GatewaySecurityConfig::default(),
        }
    }
}

/// How the directory server is reached.
#[derive(Clone, Debug, PartialEq, Eq)]
pub struct LdapConfig {
    pub url: String,
    pub base_dn: String,
    pub bind_dn: Option<String>,
    pub bind_password: Option<String>,
    pub filter_person: String,
    pub tls_verify: bool,
}

impl LdapConfig {
    /// The example server over LDAPS, anonymous, persons with a mail
    /// address, certificates verified.
    pub open spec fn is_default(&self) -> bool {
        &&& self.url@ == "ldaps://ldap.example.com"@
        &&& self.base_dn@ == "dc=example,dc=com"@
        &&& self.bind_dn is None
        &&& self.bind_password is None
        &&& self.filter_person@ == "(&(objectClass=person)(mail=*))"@
        &&& self.tls_verify
    }
}

impl Default for LdapConfig {
    fn default() -> (out: Self)
        ensures
            out.is_default(),
    {
        LdapConfig {
            url: String::from_str("ldaps://ldap.example.com"),
            base_dn: String::from_str("dc=example,dc=com"),
            bind_dn: None,
            bind_password: None,
            filter_person: String::from_str("(&(objectClass=person)(mail=*))"),
            tls_verify: true,
        }
    }
}

/// How long and how many directory entries are cached.
#[derive(Clone, Debug, PartialEq, Eq)]
pub struct DirectoryCacheConfig {
    pub ttl_seconds: u64,
    pub capacity: usize,
}

impl DirectoryCacheConfig {
    /// Five minutes and 512 entries.
    pub open spec fn is_default(&self) -> bool {
        &&& self.ttl_seconds == 300
        &&& self.capacity == 512
    }
}

impl Default for DirectoryCacheConfig {
    fn default() -> (out: Self)
        ensures
            out.is_default(),
    {
        DirectoryCacheConfig { ttl_seconds: 300, capacity: 512 }
    }
}

/// The directory: its server and its cache.
#[derive(Clone, Debug, PartialEq, Eq)]
pub struct DirectoryConfig {
    pub ldap: LdapConfig,
    pub cache: DirectoryCacheConfig,
}

impl DirectoryConfig {
    /// Both parts at their defaults.
    pub open spec fn is_default(&self) -> bool {
        &&& self.ldap.is_default()
        &&& self.cache.is_default()
    }
}

impl Default for DirectoryConfig {
    fn default() -> (out: Self)
        ensures
            out.is_default(),
    {
        DirectoryConfig { ldap: LdapConfig::default(), cache: DirectoryCacheConfig::default() }
    }
}

/// The configuration of the whole service.
#[derive(Clone, Debug, PartialEq, Eq)]
pub struct AppConfig {
    pub server: ServerConfig,
    pub database: DatabaseConfig,
    pub migration: MigrationConfig,
    pub gateway: GatewayConfig,
    pub directory: DirectoryConfig,
}

impl AppConfig {
    /// Every part at its default.
    pub open spec fn is_default(&self) -> bool {
        &&& self.server.is_default()
        &&& self.database.is_default()
        &&& self.migration.is_default()
        &&& self.gateway.is_default()
        &&& self.directory.is_default()
    }
}

impl Default for AppConfig {
    fn default() -> (out: Self)
        ensures
            out.is_default(),
    {
        AppConfig {
            server: ServerConfig::default(),
            database: DatabaseConfig::default(),
            migration: MigrationConfig::default(),
            gateway: GatewayConfig::default(),
            directory: DirectoryConfig::default(),
        }
    }
}

} // verus!
