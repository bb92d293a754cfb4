use core_service::config::file::{recognize, ConfigKey};
use core_service::config::{
    AppConfig, ConfigError, DirectoryCacheConfig, GatewayImapConfig, GatewayMappingConfig,
    GatewaySecurityConfig, GatewaySmtpConfig, LdapConfig, MigrationConfig, ServerConfig,
    TlsConfig,
};

#[test]
fn loads_default_configuration() {
    let config = AppConfig::from_source(false, None).expect("configuration loads");
    assert_eq!(config.server.port, 3333);
    assert_eq!(config.server.host, "127.0.0.1");
    assert_eq!(config.migration.workspace, "workspace/migration");
}

#[test]
fn loads_configuration_from_file() {
    let contents = "server.port=4444\nserver.host=0.0.0.0\ndatabase.path=/tmp/messages.db\nmigration.workspace=/data/work\nmigration.quarantine=/data/quarantine\nmigration.parallelism=8\n";
    let config = AppConfig::from_source(true, Some(contents)).expect("configuration loads from file");
    assert_eq!(config.server.port, 4444);
    assert_eq!(config.server.host, "0.0.0.0");
    assert_eq!(config.database.path, "/tmp/messages.db");
    assert_eq!(config.migration.workspace, "/data/work");
    assert_eq!(config.migration.quarantine, "/data/quarantine");
    assert_eq!(config.migration.parallelism, 8);
}

#[test]
fn rejects_invalid_configuration() {
    let err = AppConfig::from_source(true, Some("not-valid-line")).unwrap_err();
    assert_eq!(err, ConfigError::InvalidFormat);
}

#[test]
fn missing_file_returns_error() {
    let err = AppConfig::from_source(true, None).unwrap_err();
    assert_eq!(err, ConfigError::MissingFile);
}

#[test]
fn defaults_are_as_documented() {
    let config = AppConfig::default();
    assert_eq!(
        config.server,
        ServerConfig {
            host: "127.0.0.1".into(),
            port: 3333,
            tls: TlsConfig {
                enabled: false,
                certificate_path: String::new(),
                private_key_path: String::new(),
            },
        }
    );
    assert_eq!(config.database.path, "data/messages.db");
    assert_eq!(
        config.migration,
        MigrationConfig {
            workspace: "workspace/migration".into(),
            quarantine: "workspace/quarantine".into(),
            charset_fallback: "utf-8".into(),
            parallelism: 4,
        }
    );
    assert_eq!(
        config.gateway.smtp,
        GatewaySmtpConfig {
            host: "smtp.example.com".into(),
            port: 587,
            tls: true,
            username: None,
            password: None,
            rate_limit_per_minute: 120,
        }
    );
    assert_eq!(
        config.gateway.imap,
        GatewayImapConfig {
            host: "imap.example.com".into(),
            port: 993,
            tls: true,
            mailbox: "Inbox".into(),
        }
    );
    assert_eq!(
        config.gateway.mapping,
        GatewayMappingConfig {
            rules: vec!["{G}.{S}@{O}.{C}.example".into()],
            allow_list_domains: vec!["example.com".into()],
        }
    );
    assert_eq!(
        config.gateway.security,
        GatewaySecurityConfig {
            enforce_tls: true,
            domain_allow_list: vec!["example.com".into()],
        }
    );
    assert_eq!(
        config.directory.ldap,
        LdapConfig {
            url: "ldaps://ldap.example.com".into(),
            base_dn: "dc=example,dc=com".into(),
            bind_dn: None,
            bind_password: None,
            filter_person: "(&(objectClass=person)(mail=*))".into(),
            tls_verify: true,
        }
    );
    assert_eq!(
        config.directory.cache,
        DirectoryCacheConfig {
            ttl_seconds: 300,
            capacity: 512,
        }
    );
}

#[test]
fn empty_text_is_the_default_configuration() {
    assert_eq!(AppConfig::from_contents(""), Ok(AppConfig::default()));
    assert_eq!(
        AppConfig::from_contents("# only a comment\n\n   \n"),
        Ok(AppConfig::default())
    );
}

#[test]
fn every_key_sets_its_field() {
    let text = "\
server.port = 8080
server.host = \"example.org\"
database.path = db.sqlite
migration.workspace = w
migration.quarantine = q
migration.charsetFallback = cp1252
migration.parallelism = +2
gateway.smtp.host = relay
gateway.smtp.port = 25
gateway.smtp.tls = false
gateway.imap.host = mailbox
gateway.imap.port = 143
gateway.imap.mailbox = Archive
gateway.mapping.rules = {S}@a.example , ,{G}@b.example,
gateway.security.allow = a.example, b.example
directory.ldap.url = ldap://localhost
directory.ldap.baseDN = dc=test
directory.ldap.filterPerson = (uid=*)
directory.cache.ttlSeconds = 18446744073709551615
directory.cache.capacity = 0
unknown.key = whatever
";
    let config = AppConfig::from_contents(text).unwrap();
    assert_eq!(config.server.port, 8080);
    assert_eq!(config.server.host, "example.org");
    assert_eq!(config.database.path, "db.sqlite");
    assert_eq!(config.migration.workspace, "w");
    assert_eq!(config.migration.quarantine, "q");
    assert_eq!(config.migration.charset_fallback, "cp1252");
    assert_eq!(config.migration.parallelism, 2);
    assert_eq!(config.gateway.smtp.host, "relay");
    assert_eq!(config.gateway.smtp.port, 25);
    assert!(!config.gateway.smtp.tls);
    assert_eq!(config.gateway.imap.host, "mailbox");
    assert_eq!(config.gateway.imap.port, 143);
    assert_eq!(config.gateway.imap.mailbox, "Archive");
    assert_eq!(config.gateway.mapping.rules, vec!["{S}@a.example", "{G}@b.example"]);
    assert_eq!(config.gateway.mapping.allow_list_domains, vec!["example.com"]);
    assert_eq!(config.gateway.security.domain_allow_list, vec!["a.example", "b.example"]);
    assert_eq!(config.directory.ldap.url, "ldap://localhost");
    assert_eq!(config.directory.ldap.base_dn, "dc=test");
    assert_eq!(config.directory.ldap.filter_person, "(uid=*)");
    assert_eq!(config.directory.cache.ttl_seconds, u64::MAX);
    assert_eq!(config.directory.cache.capacity, 0);
}

#[test]
fn the_last_setting_of_a_key_counts() {
    let config = AppConfig::from_contents("server.port=1\r\nserver.port=2\r\nserver.host=a=b\n").unwrap();
    assert_eq!(config.server.port, 2);
    assert_eq!(config.server.host, "a=b");
}

#[test]
fn quotation_marks_are_stripped_after_white_space() {
    let config = AppConfig::from_contents("server.host = \"\" spaced \"\"\"  ").unwrap();
    assert_eq!(config.server.host, " spaced ");
}

#[test]
fn numbers_must_be_decimal_and_fit() {
    let bad = [
        "server.port=65536",
        "server.port=-1",
        "server.port=",
        "server.port=+",
        "server.port=0x10",
        "server.port=1 2",
        "gateway.smtp.port=99999",
        "gateway.imap.port=abc",
        "migration.parallelism=1.5",
        "directory.cache.ttlSeconds=18446744073709551616",
        "directory.cache.capacity=many",
        "gateway.smtp.tls=yes",
        "gateway.smtp.tls=True",
        "server.host",
    ];
    for text in bad {
        assert_eq!(
            AppConfig::from_contents(text),
            Err(ConfigError::InvalidFormat),
            "{}",
            text
        );
    }
    assert_eq!(AppConfig::from_contents("server.port=65535").unwrap().server.port, 65535);
    assert_eq!(AppConfig::from_contents("server.port=+007").unwrap().server.port, 7);
    assert!(AppConfig::from_contents("gateway.smtp.tls=true").unwrap().gateway.smtp.tls);
}

#[test]
fn a_fault_after_good_lines_fails_the_whole() {
    assert_eq!(
        AppConfig::from_contents("server.port=1\nserver.host=h\nbroken\nserver.port=2"),
        Err(ConfigError::InvalidFormat)
    );
}

#[test]
fn keys_are_recognized_exactly() {
    let key = |text: &str| recognize(&text.chars().collect());
    assert_eq!(key("server.port"), ConfigKey::ServerPort);
    assert_eq!(key("directory.ldap.baseDN"), ConfigKey::LdapBaseDn);
    assert_eq!(key("directory.ldap.basedn"), ConfigKey::Other);
    assert_eq!(key("Server.Port"), ConfigKey::Other);
    assert_eq!(key(""), ConfigKey::Other);
}
