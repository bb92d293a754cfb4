use core_service::settings::{
    SecurityConfig, TransportConfig, TransportMode, TransportSdkConfig, TransportTlsConfig,
};
use core_service::transport::p7_driver::{
    current_session, ensure_sdk_mode, map_diagnostic_description, map_reason_description,
    map_sdk_result, registration_profile, resolve_profile, target_folder, translate_reports,
    P7Driver, P7DriverConfig, RawReport, RawReportKind, ReportType, SdkSession,
};
use core_service::transport::tls::{
    assess, format_bytes, format_hash, normalize, normalize_tls_version, CaBundle,
    CertificateExpiry, ClientCertificate, Expiry, TlsFindings, TransportTlsState,
    TransportTlsSummary,
};

fn base_transport() -> TransportConfig {
    TransportConfig {
        mode: TransportMode::Sdk,
        profiles_dir: "profiles".into(),
        tls: TransportTlsConfig {
            enabled: false,
            ..Default::default()
        },
        fingerprints: vec![],
        sdk: TransportSdkConfig {
            library_path: Some("/tmp/libmock.so".to_string()),
            preferred_profile: Some("primary".to_string()),
            connect_timeout_ms: 1_000,
            operation_timeout_ms: 1_000,
        },
    }
}

fn nothing_found() -> TlsFindings {
    TlsFindings {
        ca_bundle: CaBundle::Unreadable("No such file or directory (os error 2)".into()),
        client_certificate: ClientCertificate::Unreadable("No such file or directory (os error 2)".into()),
        client_key_exists: false,
        now: 1_700_000_000,
    }
}

fn expiry(epoch_seconds: i64, text: &str) -> Expiry {
    Expiry { epoch_seconds, text: text.into() }
}

fn driver() -> P7Driver {
    P7Driver::new(
        P7DriverConfig { transport: base_transport(), security: SecurityConfig::default() },
        TransportTlsState::default(),
    )
    .expect("driver")
}

const NIL: &str = "00000000-0000-0000-0000-000000000000";

#[test]
fn translate_reports_maps_reason_and_diagnostic() {
    let report = RawReport {
        id: NIL.into(),
        message_id: NIL.into(),
        kind: RawReportKind::NonDelivery,
        timestamp: 1704067200,
        reason_code: Some(2),
        diagnostic_code: Some(44),
        supplemental_info: None,
    };
    let reports = translate_reports(vec![report]);
    assert_eq!(reports.len(), 1);
    let mapped = &reports[0];
    assert_eq!(mapped.supplemental_info.as_deref(), Some("Recipient unknown"));
    assert_eq!(mapped.diagnostic_code.as_deref(), Some("Content too large"));
}

#[test]
fn translated_report_keeps_what_the_sdk_added() {
    let raw = |reason: Option<i32>, added: Option<&str>| RawReport {
        id: "r".into(),
        message_id: "m".into(),
        kind: RawReportKind::Read,
        timestamp: -5,
        reason_code: reason,
        diagnostic_code: None,
        supplemental_info: added.map(|a| a.to_string()),
    };
    let reports = translate_reports(vec![
        raw(Some(0), Some("at noon")),
        raw(None, Some("as is")),
        raw(None, None),
    ]);
    assert_eq!(
        reports[0].supplemental_info.as_deref(),
        Some("Recipient displayed message; at noon")
    );
    assert_eq!(reports[0].report_type, ReportType::Read);
    assert_eq!(reports[0].id, "r");
    assert_eq!(reports[0].message_id, "m");
    assert_eq!(reports[0].timestamp, -5);
    assert_eq!(reports[0].diagnostic_code, None);
    assert_eq!(reports[1].supplemental_info.as_deref(), Some("as is"));
    assert_eq!(reports[2].supplemental_info, None);
}

#[test]
fn reason_codes_have_wordings() {
    let text = |kind, code| map_reason_description(kind, Some(code)).unwrap();
    assert_eq!(text(ReportType::Delivery, 0), "Delivered to recipient");
    assert_eq!(text(ReportType::Delivery, 1), "Relayed to downstream MTA");
    assert_eq!(text(ReportType::Delivery, 2), "Delivery deferred by recipient");
    assert_eq!(text(ReportType::Delivery, 3), "Converted to alternate representation");
    assert_eq!(text(ReportType::Delivery, 4), "Delivery report reason 4");
    assert_eq!(text(ReportType::NonDelivery, 0), "Unable to transfer to recipient");
    assert_eq!(text(ReportType::NonDelivery, 1), "Incompatible content type");
    assert_eq!(text(ReportType::NonDelivery, 3), "Security policy rejected");
    assert_eq!(text(ReportType::NonDelivery, -7), "Non-delivery reason -7");
    assert_eq!(text(ReportType::Read, 1), "Recipient deleted without reading");
    assert_eq!(text(ReportType::Read, 2), "Recipient printed message");
    assert_eq!(text(ReportType::Read, 3), "Read report reason 3");
    assert_eq!(
        text(ReportType::Read, i32::MIN),
        "Read report reason -2147483648"
    );
    assert_eq!(map_reason_description(ReportType::Read, None), None);
}

#[test]
fn diagnostic_codes_have_wordings() {
    let text = |code| map_diagnostic_description(Some(code)).unwrap();
    assert_eq!(text(0), "No diagnostic provided");
    assert_eq!(text(4), "Transfer failure");
    assert_eq!(text(32), "Encoded information types not supported");
    assert_eq!(text(68), "Security labels required");
    assert_eq!(text(224), "Physical rendition not supported");
    assert_eq!(text(2147483647), "Diagnostic code 2147483647");
    assert_eq!(map_diagnostic_description(None), None);
}

#[test]
fn sdk_codes_turn_into_complaints() {
    assert_eq!(map_sdk_result(0, "bind"), Ok(()));
    assert_eq!(map_sdk_result(-1, "bind"), Err("bind timed out".to_string()));
    assert_eq!(map_sdk_result(1, "bind"), Err("bind failed: invalid profile".to_string()));
    assert_eq!(
        map_sdk_result(2, "submit"),
        Err("submit failed: transport unreachable".to_string())
    );
    assert_eq!(
        map_sdk_result(3, "submit"),
        Err("submit failed: authentication rejected".to_string())
    );
    assert_eq!(
        map_sdk_result(4, "fetch"),
        Err("fetch failed: TLS handshake failure".to_string())
    );
    assert_eq!(
        map_sdk_result(-2, "fetch"),
        Err("Vendor SDK returned error code -2 during fetch".to_string())
    );
    assert_eq!(ensure_sdk_mode(TransportMode::Sdk), Ok(()));
    assert_eq!(
        ensure_sdk_mode(TransportMode::Mock),
        Err("P7 driver requires transport mode 'sdk'; current mode is 'Mock'".to_string())
    );
}

#[test]
fn tls_versions_are_normalized() {
    assert_eq!(normalize_tls_version(" tls1.3 "), "TLS1_3");
    assert_eq!(normalize_tls_version("TLS1_3"), "TLS1_3");
    assert_eq!(normalize_tls_version("tls13"), "TLS1_3");
    assert_eq!(normalize_tls_version("tls1.2"), "TLS1.2");
    assert_eq!(normalize_tls_version(""), "");
}

#[test]
fn fingerprints_are_normalized() {
    assert_eq!(normalize("ab:cd ef\t01"), "ABCDEF01");
    assert_eq!(normalize("stra\u{df}e"), "STRASSE");
    assert_eq!(normalize(" : "), "");
}

#[test]
fn hashes_are_written_in_hexadecimal() {
    assert_eq!(format_bytes(&vec![]), "");
    assert_eq!(format_bytes(&vec![0x0a]), "0A");
    assert_eq!(format_bytes(&vec![0x00, 0x9f, 0xff, 0x10]), "00:9F:FF:10");
    assert_eq!(
        format_hash(b"abc"),
        "BA:78:16:BF:8F:01:CF:EA:41:41:40:DE:5D:AE:22:23:B0:03:61:A3:96:17:7A:9C:B4:10:FF:61:F2:00:15:AD"
    );
}

#[test]
fn bind_uses_preferred_profile_when_empty() {
    let driver = driver();
    assert_eq!(driver.bind_profile(""), Ok("primary".to_string()));
}

#[test]
fn disabled_tls_returns_default() {
    let config = TransportConfig {
        mode: TransportMode::Mock,
        profiles_dir: "profiles".to_string(),
        tls: TransportTlsConfig {
            enabled: false,
            ..Default::default()
        },
        fingerprints: vec![],
        sdk: Default::default(),
    };
    let state = assess(&config, &nothing_found());
    assert!(!state.enabled);
    assert!(!state.ca_loaded);
}

#[test]
fn ocsp_configuration_sets_warning() {
    let config = TransportConfig {
        mode: TransportMode::Mock,
        profiles_dir: "profiles".to_string(),
        tls: TransportTlsConfig {
            enabled: true,
            ocsp_responder: Some("http://ocsp.local".to_string()),
            ..Default::default()
        },
        fingerprints: vec![],
        sdk: Default::default(),
    };

    let state = assess(&config, &nothing_found());
    assert!(state.ocsp_responder_configured);
    assert!(!state.revocation_checked);
    assert!(!state.warnings.is_empty());
}

#[test]
fn disabled_tls_is_the_default_state_with_the_version() {
    let mut config = TransportConfig::default();
    config.tls.enabled = false;
    config.tls.min_version = " tls1.2 ".into();
    config.tls.ocsp_responder = Some("http://ocsp.local".into());
    let mut expected = TransportTlsState::default();
    expected.min_version = "TLS1.2".into();
    assert_eq!(assess(&config, &nothing_found()), expected);
}

#[test]
fn assessment_collects_every_complaint_in_order() {
    let mut config = TransportConfig::default();
    config.tls.min_version = "tls1.2".into();
    config.tls.ca_bundle = "ca.pem".into();
    config.tls.client_certificate = Some("client.pem".into());
    config.tls.client_key = Some("client.key".into());
    config.tls.enforce_pinset = true;
    let state = assess(&config, &nothing_found());
    assert!(state.enabled);
    assert_eq!(state.min_version, "TLS1.2");
    assert!(!state.ca_loaded);
    assert!(!state.client_certificate_loaded);
    assert_eq!(state.fingerprint, None);
    assert!(state.fingerprint_matches);
    assert_eq!(state.expires_at, None);
    assert_eq!(
        state.error.as_deref(),
        Some("TLS minimum version must be TLS1_3 (got 'tls1.2'), Unable to read CA bundle at ca.pem: No such file or directory (os error 2), Unable to read client certificate client.pem: No such file or directory (os error 2), Client key not found at client.key")
    );
    assert_eq!(
        state.warnings,
        vec!["Fingerprint pinning is enforced but no fingerprints are configured"]
    );
}

#[test]
fn assessment_of_good_material_has_no_error() {
    let mut config = TransportConfig::default();
    config.tls.client_certificate = Some("client.pem".into());
    config.tls.client_key = Some("client.key".into());
    config.tls.enforce_pinset = true;
    config.fingerprints = vec!["00:11".into(), "aa bb:cc".into()];
    let findings = TlsFindings {
        ca_bundle: CaBundle::First {
            fingerprint: Some("AA:BB:CC".into()),
            expiry: CertificateExpiry::Known(expiry(1_800_000_000, "2027-01-15T08:00:00+00:00")),
        },
        client_certificate: ClientCertificate::Loaded { expiry: Some(expiry(1, "1970-01-01T00:00:01+00:00")) },
        client_key_exists: true,
        now: 1_700_000_000,
    };
    let state = assess(&config, &findings);
    assert!(state.ca_loaded);
    assert!(state.client_certificate_loaded);
    assert_eq!(state.fingerprint.as_deref(), Some("AA:BB:CC"));
    assert!(state.fingerprint_matches);
    assert_eq!(state.expires_at, Some(expiry(1_800_000_000, "2027-01-15T08:00:00+00:00")));
    assert_eq!(state.error, None);
    assert!(state.warnings.is_empty());
    let summary = TransportTlsSummary::from_state(&state);
    assert_eq!(summary.expires_at.as_deref(), Some("2027-01-15T08:00:00+00:00"));
    assert_eq!(summary.fingerprint.as_deref(), Some("AA:BB:CC"));
    assert!(summary.enabled);
    assert_eq!(summary.min_version, "TLS1_3");
    assert_eq!(summary.error, None);
}

#[test]
fn assessment_complains_about_the_first_certificate() {
    let mut config = TransportConfig::default();
    config.tls.enforce_pinset = true;
    config.fingerprints = vec!["00:11".into()];
    let mut findings = nothing_found();
    findings.ca_bundle = CaBundle::First {
        fingerprint: Some("AA:BB".into()),
        expiry: CertificateExpiry::Known(expiry(1_600_000_000, "2020-09-13T12:26:40+00:00")),
    };
    let state = assess(&config, &findings);
    assert!(!state.fingerprint_matches);
    assert_eq!(
        state.error.as_deref(),
        Some("TLS fingerprint does not match configured pinset, TLS certificate expired")
    );
    findings.ca_bundle = CaBundle::First {
        fingerprint: None,
        expiry: CertificateExpiry::Unparsable("bad time".into()),
    };
    findings.client_certificate = ClientCertificate::Loaded { expiry: Some(expiry(5, "later")) };
    config.tls.client_certificate = Some("client.pem".into());
    let state = assess(&config, &findings);
    assert!(state.fingerprint_matches);
    assert_eq!(state.expires_at, Some(expiry(5, "later")));
    assert_eq!(state.error.as_deref(), Some("Failed to parse certificate expiry: bad time"));
    findings.ca_bundle = CaBundle::Empty;
    findings.client_certificate = ClientCertificate::Invalid("no PEM".into());
    let state = assess(&config, &findings);
    assert!(state.ca_loaded);
    assert_eq!(
        state.error.as_deref(),
        Some("CA bundle does not contain certificates, Invalid client certificate client.pem: no PEM")
    );
    findings.ca_bundle = CaBundle::Invalid("broken".into());
    config.tls.client_certificate = None;
    assert_eq!(assess(&config, &findings).error.as_deref(), Some("Invalid CA bundle: broken"));
}

#[test]
fn driver_needs_the_sdk_mode() {
    let mut transport = base_transport();
    transport.mode = TransportMode::Mock;
    let refused = P7Driver::new(
        P7DriverConfig { transport, security: SecurityConfig::default() },
        TransportTlsState::default(),
    );
    assert_eq!(
        refused.err().as_deref(),
        Some("SDK mode is disabled. Launch the core service with transport.mode='sdk' to activate the driver.")
    );
}

#[test]
fn driver_keeps_its_session() {
    let mut driver = driver();
    assert!(!driver.status().session_active);
    assert_eq!(driver.status().mode, TransportMode::Sdk);
    assert_eq!(driver.status().preferred_profile.as_deref(), Some("primary"));
    assert_eq!(
        driver.active_session(),
        Err("No active SDK session. Call bind first.".to_string())
    );
    assert_eq!(driver.unbind(), Ok(None));
    let profile = driver.bind_profile(" integration ").unwrap();
    driver.bound(7, profile);
    assert!(driver.status().session_active);
    assert_eq!(
        driver.active_session(),
        Ok(SdkSession { handle: 7, profile: "integration".into() })
    );
    assert_eq!(
        driver.unbind(),
        Ok(Some(SdkSession { handle: 7, profile: "integration".into() }))
    );
    assert!(!driver.status().session_active);
    assert_eq!(driver.tls_state(), &TransportTlsState::default());
    assert!(!driver.security_config().require_auth);
}

#[test]
fn profiles_are_resolved() {
    let preferred = Some("primary".to_string());
    assert_eq!(resolve_profile("", &preferred), Ok("primary".to_string()));
    assert_eq!(resolve_profile("   ", &preferred), Ok("primary".to_string()));
    assert_eq!(resolve_profile(" other ", &preferred), Ok("other".to_string()));
    assert_eq!(
        resolve_profile(" ", &None),
        Err("No profile specified and transport.sdk.preferred_profile is unset".to_string())
    );
}

#[test]
fn driver_defaults_follow_the_session() {
    let session = SdkSession { handle: 7, profile: "primary".into() };
    assert_eq!(registration_profile(" ", &session), "primary");
    assert_eq!(registration_profile(" store ", &session), "store");
    assert_eq!(target_folder(""), "inbox");
    assert_eq!(target_folder(" sent "), "sent");
    assert_eq!(current_session(&Some(session.clone())), Ok(session));
    assert_eq!(
        current_session(&None),
        Err("No active SDK session. Call bind first.".to_string())
    );
}
