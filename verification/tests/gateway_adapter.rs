use core_service::config::{GatewayImapConfig, GatewaySmtpConfig};
use core_service::gateway::address_map::{AddressMapper, AddressMappingRule, MappingError};
use core_service::gateway::gateway_adapter::{GatewayAdapter, GatewayError, GatewayEvent};
use core_service::gateway::imap_client::GatewayImapClient;
use core_service::gateway::report_map::ReportMapper;
use core_service::gateway::smtp_client::{GatewaySmtpClient, SmtpError};
use core_service::models::Address;

fn mapper() -> AddressMapper {
    AddressMapper::new(vec![AddressMappingRule::new("{S}@example.com")], Default::default())
}

fn smtp() -> GatewaySmtpClient {
    GatewaySmtpClient::new(
        GatewaySmtpConfig {
            host: "smtp.example.com".into(),
            port: 587,
            tls: true,
            username: None,
            password: None,
            rate_limit_per_minute: 10,
        },
        vec!["example.com".into()],
    )
}

fn imap() -> GatewayImapClient {
    GatewayImapClient::new(GatewayImapConfig {
        host: "imap.example.com".into(),
        port: 993,
        tls: true,
        mailbox: "Inbox".into(),
    })
}

fn address(surname: &str) -> Address {
    Address {
        country: "DE".into(),
        organization: "Org".into(),
        surname: surname.into(),
    }
}

#[test]
fn sends_outbound_messages() {
    let mut adapter = GatewayAdapter::new(mapper(), smtp(), imap(), ReportMapper::default());
    let originator = Address {
        country: "DE".into(),
        organization: "Org".into(),
        surname: "Sender".into(),
    };
    let recipient = Address {
        country: "DE".into(),
        organization: "Org".into(),
        surname: "Receiver".into(),
    };
    let result = adapter
        .outbound(&originator, &[recipient], "Hello", "Body")
        .expect("should send");
    assert!(result.accepted);
    assert_eq!(result.recipients[0], "receiver@example.com");
}

#[test]
fn maps_inbound_sender() {
    let adapter = GatewayAdapter::new(mapper(), smtp(), imap(), ReportMapper::default());
    let address = adapter.map_sender("receiver@example.com").unwrap();
    assert_eq!(address.surname, "Receiver");
}

#[test]
fn outbound_id_is_the_subject_length_in_bytes() {
    let mut adapter = GatewayAdapter::new(mapper(), smtp(), imap(), ReportMapper::default());
    let result = adapter
        .outbound(&address("Sender"), &[address("A"), address("B")], "Gr\u{fc}\u{df}e, Welt", "Body")
        .unwrap();
    assert_eq!(result.message_id, "gw-13");
    assert_eq!(result.recipients, vec!["a@example.com", "b@example.com"]);
    assert!(result.warnings.is_empty());
    let result = adapter.outbound(&address("Sender"), &[], "", "").unwrap();
    assert_eq!(result.message_id, "gw-0");
}

#[test]
fn outbound_stops_at_the_first_unmapped_recipient() {
    let strict = AddressMapper::new(vec![AddressMappingRule::new("{S}@{X}")], Vec::new());
    let mut adapter = GatewayAdapter::new(strict, smtp(), imap(), ReportMapper::default());
    let failed = adapter.outbound(&address("Sender"), &[address("A")], "Hello", "Body");
    assert_eq!(failed, Err(GatewayError::Mapping(MappingError::NoMatch)));
}

#[test]
fn outbound_passes_the_relay_refusal_on() {
    let elsewhere = AddressMapper::new(vec![AddressMappingRule::new("{S}@other.org")], Vec::new());
    let mut adapter = GatewayAdapter::new(elsewhere, smtp(), imap(), ReportMapper::default());
    let failed = adapter.outbound(&address("Sender"), &[address("A")], "Hello", "Body");
    assert_eq!(
        failed,
        Err(GatewayError::Smtp(SmtpError::DomainNotAllowed("other.org".into())))
    );
}

#[test]
fn map_sender_reports_no_match() {
    let adapter = GatewayAdapter::new(mapper(), smtp(), imap(), ReportMapper::default());
    assert_eq!(
        adapter.map_sender("someone@elsewhere.org"),
        Err(GatewayError::Mapping(MappingError::NoMatch))
    );
}

#[test]
fn inbound_fetches_from_the_mailbox() {
    let mut mailbox = imap();
    mailbox.enqueue(core_service::gateway::imap_client::InboundMessage {
        uid: "1".into(),
        subject: "First".into(),
        from: "user@example.com".into(),
        raw: "raw1".into(),
    });
    let mut adapter = GatewayAdapter::new(mapper(), smtp(), mailbox, ReportMapper::default());
    match adapter.inbound(5) {
        GatewayEvent::InboundReady(messages) => {
            assert_eq!(messages.len(), 1);
            assert_eq!(messages[0].uid, "1");
        }
        _ => panic!("expected inbound messages"),
    }
    assert_eq!(adapter.inbound(5), GatewayEvent::InboundReady(vec![]));
}

#[test]
fn reports_are_mapped() {
    let adapter = GatewayAdapter::new(mapper(), smtp(), imap(), ReportMapper::default());
    match adapter.handle_dsn("Status: 5.1.1", "c1") {
        GatewayEvent::ReportMapped(report) => {
            assert_eq!(report.status, "5.1.1");
            assert_eq!(report.correlation_id, "c1");
        }
        _ => panic!("expected a report"),
    }
    match adapter.handle_mdn("displayed", "c2") {
        GatewayEvent::ReportMapped(report) => assert_eq!(report.status, "read"),
        _ => panic!("expected a report"),
    }
}

#[test]
fn errors_convert_from_their_causes() {
    assert_eq!(
        GatewayError::from(MappingError::AliasMissing),
        GatewayError::Mapping(MappingError::AliasMissing)
    );
    assert_eq!(
        GatewayError::from(SmtpError::RateLimited),
        GatewayError::Smtp(SmtpError::RateLimited)
    );
}

#[test]
fn adapter_hands_its_collaborators_on() {
    let mut adapter = GatewayAdapter::new(mapper(), smtp(), imap(), ReportMapper::default());
    assert!(adapter.delivered().is_empty());
    adapter
        .outbound(&address("Sender"), &[address("A")], "Hello", "Body")
        .unwrap();
    let delivered = adapter.delivered();
    assert_eq!(delivered.len(), 1);
    assert_eq!(delivered[0].id, "gw-5");
    assert_eq!(delivered[0].to, vec!["a@example.com"]);
    assert_eq!(delivered[0].subject, "Hello");
    assert_eq!(delivered[0].body, "Body");
    for uid in ["1", "2", "3"] {
        adapter.enqueue(core_service::gateway::imap_client::InboundMessage {
            uid: uid.into(),
            subject: "s".into(),
            from: "user@example.com".into(),
            raw: "r".into(),
        });
    }
    let uids = |event: GatewayEvent| match event {
        GatewayEvent::InboundReady(messages) => {
            messages.into_iter().map(|m| m.uid).collect::<Vec<_>>()
        }
        _ => panic!("expected inbound messages"),
    };
    assert_eq!(uids(adapter.inbound(1)), vec!["3"]);
    assert_eq!(uids(adapter.inbound(usize::MAX)), vec!["2", "1"]);
    assert!(uids(adapter.inbound(usize::MAX)).is_empty());
}
