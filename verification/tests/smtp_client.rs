use core_service::config::GatewaySmtpConfig;
use core_service::gateway::smtp_client::{
    GatewaySmtpClient, SmtpError, SmtpMessage, HISTORY_CAPACITY,
};

fn config() -> GatewaySmtpConfig {
    GatewaySmtpConfig {
        host: "smtp.example.com".into(),
        port: 587,
        tls: true,
        username: None,
        password: None,
        rate_limit_per_minute: 10,
    }
}

fn message(id: &str, to: &[&str]) -> SmtpMessage {
    SmtpMessage {
        id: id.into(),
        to: to.iter().map(|r| r.to_string()).collect(),
        subject: "Test".into(),
        body: "Hello".into(),
    }
}

#[test]
fn rejects_disallowed_domains() {
    let mut client = GatewaySmtpClient::new(config(), vec!["example.com".into()]);
    let err = client
        .send(SmtpMessage {
            id: "1".into(),
            to: vec!["user@forbidden.com".into()],
            subject: "Test".into(),
            body: "Hello".into(),
        })
        .unwrap_err();
    assert!(matches!(err, SmtpError::DomainNotAllowed(_)));
}

#[test]
fn stores_delivered_messages() {
    let mut client = GatewaySmtpClient::new(config(), vec!["example.com".into()]);
    let result = client
        .send(SmtpMessage {
            id: "42".into(),
            to: vec!["user@example.com".into()],
            subject: "Test".into(),
            body: "Hello".into(),
        })
        .unwrap();
    assert!(result.accepted);
    let stored = client.delivered();
    assert_eq!(stored.len(), 1);
    assert_eq!(stored[0].id, "42");
}

#[test]
fn tls_is_checked_before_recipients() {
    let mut settings = config();
    settings.tls = false;
    let mut client = GatewaySmtpClient::new(settings, vec!["example.com".into()]);
    assert_eq!(
        client.send(message("1", &["user@forbidden.com"])),
        Err(SmtpError::TlsRequired)
    );
    assert_eq!(
        client.send(message("2", &["user@example.com"])),
        Err(SmtpError::TlsRequired)
    );
    assert_eq!(client.send(message("3", &[])), Err(SmtpError::TlsRequired));
    assert!(client.delivered().is_empty());
}

#[test]
fn refusal_names_the_first_bad_domain_and_records_nothing() {
    let mut client = GatewaySmtpClient::new(config(), vec!["example.com".into()]);
    let refused = client.send(message(
        "1",
        &["a@example.com", "b@one.org", "c@two.org"],
    ));
    assert_eq!(refused, Err(SmtpError::DomainNotAllowed("one.org".into())));
    assert!(client.delivered().is_empty());
}

#[test]
fn domains_match_without_case() {
    let mut client = GatewaySmtpClient::new(config(), vec!["Example.COM".into()]);
    assert!(client.send(message("1", &["user@eXample.com"])).is_ok());
    assert_eq!(client.check_domain("user@example.com"), Ok(()));
    assert_eq!(
        client.check_domain("user@example.org"),
        Err(SmtpError::DomainNotAllowed("example.org".into()))
    );
}

#[test]
fn domain_is_what_follows_the_first_at_sign() {
    let client = GatewaySmtpClient::new(config(), vec!["example.com".into()]);
    assert_eq!(client.check_domain("no-at-sign"), Ok(()));
    assert_eq!(client.check_domain("a@example.com@other.org"), Ok(()));
    assert_eq!(
        client.check_domain("a@@example.com"),
        Err(SmtpError::DomainNotAllowed("".into()))
    );
}

#[test]
fn full_history_limits_the_rate() {
    let mut client = GatewaySmtpClient::new(config(), vec!["example.com".into()]);
    for n in 0..HISTORY_CAPACITY {
        assert!(!client.rate_limited());
        let sent = client.send(message(&format!("m{}", n), &["user@example.com"]));
        assert_eq!(sent.unwrap().message_id, format!("m{}", n));
    }
    assert!(client.rate_limited());
    assert_eq!(
        client.send(message("late", &["user@example.com"])),
        Err(SmtpError::RateLimited)
    );
    let stored = client.delivered();
    assert_eq!(stored.len(), 256);
    assert_eq!(stored[0].id, "m0");
    assert_eq!(stored[255].id, "m255");
}

#[test]
fn accepted_outcome_has_no_warnings() {
    let mut client = GatewaySmtpClient::new(config(), vec!["example.com".into()]);
    let outcome = client.send(message("7", &["user@example.com"])).unwrap();
    assert!(outcome.accepted);
    assert_eq!(outcome.message_id, "7");
    assert!(outcome.warnings.is_empty());
    assert_eq!(client.delivered(), vec![message("7", &["user@example.com"])]);
}
