use core_service::config::GatewayImapConfig;
use core_service::gateway::imap_client::{GatewayImapClient, InboundMessage};

fn client() -> GatewayImapClient {
    GatewayImapClient::new(GatewayImapConfig {
        host: "imap.example.com".into(),
        port: 993,
        tls: true,
        mailbox: "Inbox".into(),
    })
}

fn inbound(uid: &str) -> InboundMessage {
    InboundMessage {
        uid: uid.into(),
        subject: format!("Subject {}", uid),
        from: "user@example.com".into(),
        raw: format!("raw{}", uid),
    }
}

#[test]
fn fetches_messages_in_fifo_order() {
    let mut client = GatewayImapClient::new(GatewayImapConfig {
        host: "imap.example.com".into(),
        port: 993,
        tls: true,
        mailbox: "Inbox".into(),
    });
    client.enqueue(InboundMessage {
        uid: "1".into(),
        subject: "First".into(),
        from: "user@example.com".into(),
        raw: "raw1".into(),
    });
    client.enqueue(InboundMessage {
        uid: "2".into(),
        subject: "Second".into(),
        from: "user@example.com".into(),
        raw: "raw2".into(),
    });

    let fetched = client.fetch(1);
    assert_eq!(fetched.len(), 1);
    assert_eq!(fetched[0].uid, "2");
}

#[test]
fn fetch_returns_each_message_once() {
    let mut client = client();
    for n in 1..=5 {
        client.enqueue(inbound(&n.to_string()));
    }
    let first = client.fetch(2);
    assert_eq!(first, vec![inbound("5"), inbound("4")]);
    let second = client.fetch(2);
    assert_eq!(second, vec![inbound("3"), inbound("2")]);
    let third = client.fetch(2);
    assert_eq!(third, vec![inbound("1")]);
    assert!(client.fetch(2).is_empty());
}

#[test]
fn fetch_with_zero_limit_takes_nothing() {
    let mut client = client();
    client.enqueue(inbound("1"));
    assert!(client.fetch(0).is_empty());
    assert_eq!(client.fetch(usize::MAX), vec![inbound("1")]);
}

#[test]
fn config_is_kept() {
    let client = client();
    assert_eq!(client.config().host, "imap.example.com");
    assert_eq!(client.config().port, 993);
    assert_eq!(client.config().mailbox, "Inbox");
}

#[test]
fn fetch_with_the_largest_limit_drains_what_is_left() {
    let mut client = client();
    for n in 1..=4 {
        client.enqueue(inbound(&n.to_string()));
    }
    let first = client.fetch(1);
    assert_eq!(first, vec![inbound("4")]);
    let rest = client.fetch(usize::MAX);
    assert_eq!(rest, vec![inbound("3"), inbound("2"), inbound("1")]);
    assert!(client.fetch(usize::MAX).is_empty());
}
