use core_service::security::keychain::{
    choose_key, parse_reference, plan_key_lookup, resolve_source, KeyPlan, ReferenceError,
    SqlCipherKeySource,
};
use core_service::security::smime::{
    MaterialFile, MaterialState, SmimeMaterial, SmimeOperation, SmimeResult, SmimeService,
};
use core_service::settings::{DatabaseConfig, KeychainConfig, SecurityConfig, SmimeConfig};

fn keychain(service: Option<&str>, account: Option<&str>) -> KeychainConfig {
    KeychainConfig {
        enabled: true,
        service_name: service.map(|s| s.to_string()),
        account_name: account.map(|s| s.to_string()),
        fallback_env: None,
    }
}

fn source(service: &str, account: &str) -> SqlCipherKeySource {
    SqlCipherKeySource {
        service: service.into(),
        account: account.into(),
    }
}

#[test]
fn parse_reference_handles_defaults() {
    let parsed = parse_reference("svc").unwrap();
    assert_eq!(parsed.0, "svc");
    assert_eq!(parsed.1, "default");
}

#[test]
fn parse_reference_splits_at_the_first_slash() {
    assert_eq!(
        parse_reference(" svc / acct/extra "),
        Ok(("svc".to_string(), "acct/extra".to_string()))
    );
    assert_eq!(parse_reference("svc/"), Ok(("svc".to_string(), "default".to_string())));
    assert_eq!(parse_reference("svc/  "), Ok(("svc".to_string(), "default".to_string())));
    assert_eq!(parse_reference(""), Err(ReferenceError::Empty));
    assert_eq!(parse_reference("   "), Err(ReferenceError::Empty));
    assert_eq!(parse_reference("/acct"), Err(ReferenceError::MissingService));
    assert_eq!(parse_reference(" /acct"), Err(ReferenceError::MissingService));
}

#[test]
fn configured_names_come_before_the_reference() {
    let reference = Some("ref-svc/ref-acct".to_string());
    assert_eq!(
        resolve_source(&reference, &keychain(Some("cfg-svc"), Some("cfg-acct"))),
        source("cfg-svc", "cfg-acct")
    );
    assert_eq!(
        resolve_source(&reference, &keychain(None, None)),
        source("ref-svc", "ref-acct")
    );
    assert_eq!(
        resolve_source(&reference, &keychain(Some("  "), None)),
        source("x400-core", "ref-acct")
    );
    assert_eq!(
        resolve_source(&None, &keychain(None, Some("me"))),
        source("x400-core", "me")
    );
    assert_eq!(
        resolve_source(&Some("/broken".to_string()), &keychain(None, None)),
        source("x400-core", "default")
    );
}

#[test]
fn smime_results_are_built() {
    let done = SmimeResult::completed(SmimeOperation::Sign, vec![1, 2, 3]);
    assert_eq!(done.operation, SmimeOperation::Sign);
    assert!(done.success);
    assert_eq!(done.payload, Some(vec![1, 2, 3]));
    assert_eq!(done.message, None);
    let skipped = SmimeResult::skipped(SmimeOperation::Encrypt, "off");
    assert_eq!(skipped.operation, SmimeOperation::Encrypt);
    assert!(!skipped.success);
    assert_eq!(skipped.payload, None);
    assert_eq!(skipped.message.as_deref(), Some("off"));
    let failed = SmimeResult::failed(SmimeOperation::Verify, "bad");
    assert_eq!(failed.operation, SmimeOperation::Verify);
    assert!(!failed.success);
    assert_eq!(failed.message.as_deref(), Some("bad"));
}

#[test]
fn disabled_service_skips_every_operation() {
    let service = SmimeService::new(SmimeConfig::default());
    assert!(!service.enabled());
    let skipped = service.skip_when_disabled(SmimeOperation::Sign).unwrap();
    assert!(!skipped.success);
    assert_eq!(skipped.message.as_deref(), Some("S/MIME disabled in configuration"));
    let mut config = SmimeConfig::default();
    config.enabled = true;
    assert!(SmimeService::new(config).skip_when_disabled(SmimeOperation::Verify).is_none());
}

#[test]
fn material_lies_in_the_certificate_directory() {
    let mut config = SmimeConfig::default();
    config.certificates_dir = SmimeConfig::default_cert_dir();
    let service = SmimeService::new(config.clone());
    let (certificate, key) = service.signing_material_paths();
    assert_eq!(certificate, "profiles/certs/signing.pem");
    assert_eq!(key, "profiles/certs/signing.key");
    assert_eq!(service.default_encryption_cert_path(), "profiles/certs/encryption.pem");
    config.default_signing_certificate = Some("/etc/sign.pem".into());
    config.default_encryption_certificate = Some("enc.pem".into());
    let service = SmimeService::new(config);
    assert_eq!(service.signing_material_paths().0, "/etc/sign.pem");
    assert_eq!(service.signing_material_paths().1, "profiles/certs/signing.key");
    assert_eq!(service.default_encryption_cert_path(), "enc.pem");
}

fn sample_db() -> DatabaseConfig {
    DatabaseConfig {
        url: "sqlite://memory".to_string(),
        use_sqlcipher: true,
        sqlcipher_key_ref: Some("service/account".to_string()),
    }
}

fn disabled_security() -> SecurityConfig {
    SecurityConfig {
        require_auth: false,
        api_key: "test".to_string(),
        smime: Default::default(),
        tls: Default::default(),
        keychain: KeychainConfig {
            enabled: false,
            service_name: None,
            account_name: None,
            fallback_env: None,
        },
    }
}

#[test]
fn returns_none_when_sqlcipher_disabled() {
    let db = DatabaseConfig {
        url: "sqlite://memory".to_string(),
        use_sqlcipher: false,
        sqlcipher_key_ref: None,
    };
    let security = disabled_security();
    let result = plan_key_lookup(&db, &security);
    assert!(result.is_none());
}

#[test]
fn uses_environment_fallback_when_set() {
    let db = sample_db();
    let mut security = disabled_security();
    security.keychain.fallback_env = Some("SQLCIPHER_ENV_TEST".to_string());
    let plan = plan_key_lookup(&db, &security).unwrap();
    assert_eq!(
        plan,
        KeyPlan { source: None, fallback_env: Some("SQLCIPHER_ENV_TEST".to_string()) }
    );
    let result = choose_key(None, Some("secret".to_string()));
    assert_eq!(result.as_deref(), Some("secret"));
}

#[test]
fn key_lookup_asks_the_keychain_first() {
    let mut security = disabled_security();
    security.keychain.enabled = true;
    security.keychain.fallback_env = Some("  ".to_string());
    let plan = plan_key_lookup(&sample_db(), &security).unwrap();
    assert_eq!(plan.source, Some(source("service", "account")));
    assert_eq!(plan.fallback_env, None);
    security.keychain.fallback_env = Some(" NAME ".to_string());
    assert_eq!(
        plan_key_lookup(&sample_db(), &security).unwrap().fallback_env.as_deref(),
        Some("NAME")
    );
    assert_eq!(
        choose_key(Some("from keychain".into()), Some("from env".into())).as_deref(),
        Some("from keychain")
    );
    assert_eq!(choose_key(None, Some("  ".into())), None);
    assert_eq!(choose_key(None, Some(" padded ".into())).as_deref(), Some(" padded "));
    assert_eq!(choose_key(None, None), None);
}

fn file(path: &str, state: MaterialState) -> MaterialFile {
    MaterialFile { path: path.into(), state }
}

fn material(certificate: MaterialState, key: MaterialState, encryption: Option<MaterialState>) -> SmimeMaterial {
    SmimeMaterial {
        signing_certificate: file("certs/signing.pem", certificate),
        signing_key: file("certs/signing.key", key),
        encryption_certificate: encryption.map(|state| file("certs/encryption.pem", state)),
    }
}

#[test]
fn warmup_judges_the_material_in_order() {
    let (unreadable, invalid, valid) =
        (MaterialState::Unreadable, MaterialState::Invalid, MaterialState::Valid);
    let mut config = SmimeConfig::default();
    let off = SmimeService::new(config.clone());
    assert_eq!(off.warmup(&material(unreadable, invalid, Some(invalid))), Ok(()));
    config.enabled = true;
    let on = SmimeService::new(config);
    assert_eq!(on.warmup(&material(valid, valid, Some(valid))), Ok(()));
    assert_eq!(on.warmup(&material(valid, valid, None)), Ok(()));
    assert_eq!(
        on.warmup(&material(unreadable, invalid, Some(invalid))),
        Err("unable to read certificate: certs/signing.pem".to_string())
    );
    assert_eq!(
        on.warmup(&material(invalid, valid, None)),
        Err("invalid certificate at certs/signing.pem".to_string())
    );
    assert_eq!(
        on.warmup(&material(valid, unreadable, Some(invalid))),
        Err("unable to read private key: certs/signing.key".to_string())
    );
    assert_eq!(
        on.warmup(&material(valid, invalid, None)),
        Err("invalid private key at certs/signing.key".to_string())
    );
    assert_eq!(
        on.warmup(&material(valid, valid, Some(invalid))),
        Err("invalid certificate at certs/encryption.pem".to_string())
    );
    assert_eq!(
        on.warmup(&material(valid, valid, Some(unreadable))),
        Err("unable to read certificate: certs/encryption.pem".to_string())
    );
}
