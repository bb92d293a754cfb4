use core_service::migration::{
    document_from_text, infer_mode, is_duplicate, message_from_document, mode_for_extension,
    parse_address, parse_fwm, read_fwz, too_old, AttachmentSummary, FwmDocument, ImportOutcome,
    ImportTally, MigrationError, MigrationErrorRecord, MigrationMode, MigrationStatus,
};
use core_service::models::{
    Address, MessageId, MessagePriority, MessageSensitivity, MessageStatus,
};
use encoding_rs::WINDOWS_1252;
use std::io::{Cursor, Write};
use zip::write::FileOptions;
use zip::CompressionMethod;

fn write_fwz(entries: &[(&str, &[u8])]) -> Vec<u8> {
    let mut writer = zip::ZipWriter::new(Cursor::new(Vec::new()));
    for (name, data) in entries {
        writer
            .start_file(*name, FileOptions::default().compression_method(CompressionMethod::Stored))
            .expect("start file");
        writer.write_all(data).expect("write entry");
    }
    writer.finish().expect("finish archive").into_inner()
}

fn address(country: &str, organization: &str, surname: &str) -> Address {
    Address {
        country: country.into(),
        organization: organization.into(),
        surname: surname.into(),
    }
}

fn document(values: &[(&str, &str)]) -> FwmDocument {
    FwmDocument {
        source: None,
        values: values
            .iter()
            .map(|(k, v)| (k.to_string(), v.to_string()))
            .collect(),
        attachments: Vec::new(),
    }
}

#[test]
fn parse_fwm_handles_basic_documents() {
    let data = b"SUBJECT=Test\nBODY=Hello\nTO=C=DE;O=Org;S=Recipient\n";
    let document = parse_fwm(data).expect("parse");
    assert_eq!(document.subject(), "Test");
    assert_eq!(document.body(), "Hello");
    assert_eq!(document.recipients().len(), 1);
}

#[test]
fn parse_fwm_decodes_cp1252_payloads() {
    let (encoded, _, _) = WINDOWS_1252.encode("SUBJECT=\u{dc}bertragung\nBODY=Gr\u{fc}\u{df}e\n");
    let document = parse_fwm(&encoded).expect("decode");
    assert_eq!(document.subject(), "\u{dc}bertragung");
    assert_eq!(document.body(), "Gr\u{fc}\u{df}e");
}

#[test]
fn read_fwz_extracts_documents_and_attachments() {
    let bytes = write_fwz(&[
        ("META/message.fwm", b"SUBJECT=Archive\nBODY=Attached\n"),
        ("ATTACH/file.txt", b"sample"),
    ]);

    let archive = read_fwz(&bytes).expect("read archive");
    assert_eq!(archive.documents.len(), 1);
    assert_eq!(archive.attachments.len(), 1);
    assert!(archive.checksum_ok);
}

#[test]
fn read_fwz_tells_entries_apart() {
    let bytes = write_fwz(&[
        ("trace/log.txt", b"ignored"),
        ("attach/Empty.BIN", b""),
        ("ATTACH/b.FWM", b"SUBJECT=Inner\n"),
        ("Doc.Fwm", b"BODY=x\n"),
        ("ATTACH/file.txt", b"abc"),
    ]);
    let archive = read_fwz(&bytes).unwrap();
    let sources: Vec<Option<String>> = archive.documents.iter().map(|d| d.source.clone()).collect();
    assert_eq!(sources, vec![Some("ATTACH/b.FWM".to_string()), Some("Doc.Fwm".to_string())]);
    assert_eq!(archive.documents[0].subject(), "Inner");
    assert_eq!(
        archive.attachments,
        vec![
            AttachmentSummary {
                name: "attach/Empty.BIN".into(),
                size: 0,
                sha256: "e3b0c44298fc1c149afbf4c8996fb92427ae41e4649b934ca495991b7852b855".into(),
            },
            AttachmentSummary {
                name: "ATTACH/file.txt".into(),
                size: 3,
                sha256: "ba7816bf8f01cfea414140de5dae2223b00361a396177a9cb410ff61f20015ad".into(),
            },
        ]
    );
    assert!(archive.checksum_ok);
}

#[test]
fn read_fwz_without_documents_is_unsound() {
    let archive = read_fwz(&write_fwz(&[("ATTACH/a", b"1")])).unwrap();
    assert!(archive.documents.is_empty());
    assert!(!archive.checksum_ok);
    let archive = read_fwz(&write_fwz(&[])).unwrap();
    assert!(!archive.checksum_ok);
}

#[test]
fn read_fwz_fails_with_the_first_fault() {
    assert!(matches!(read_fwz(b"no archive"), Err(MigrationError::Archive(_))));
    let bytes = write_fwz(&[("a.fwm", b"SUBJECT=ok\n"), ("b.fwm", b"# empty\n"), ("c.fwm", b"")]);
    assert!(matches!(read_fwz(&bytes), Err(MigrationError::EmptyDocument)));
}

#[test]
fn empty_documents_are_refused() {
    assert!(matches!(parse_fwm(b""), Err(MigrationError::EmptyDocument)));
    assert!(matches!(parse_fwm(b"# nothing\n// here\n\n"), Err(MigrationError::EmptyDocument)));
    assert!(matches!(parse_fwm(b"ATTACH1=file.txt\n"), Err(MigrationError::EmptyDocument)));
    assert!(matches!(document_from_text("no separator"), Err(MigrationError::EmptyDocument)));
}

#[test]
fn undecodable_documents_are_invalid() {
    match parse_fwm(b"SUBJECT=\xff\xfe\xfd\x80\x81\n\x1b$B\x80") {
        Ok(document) => assert!(!document.values.is_empty()),
        Err(MigrationError::InvalidRecord(text)) => assert_eq!(text, "encoding error"),
        Err(other) => panic!("unexpected fault {:?}", other),
    }
}

#[test]
fn tally_counts_outcomes() {
    let mut tally = ImportTally::new();
    assert!(tally.has_room(None));
    assert!(tally.has_room(Some(1)));
    assert!(!tally.has_room(Some(0)));
    assert_eq!(tally.status(), MigrationStatus::Completed);
    tally.record("a.fwm", ImportOutcome::Imported { is_duplicate: false });
    tally.record("b.fwm", ImportOutcome::Imported { is_duplicate: true });
    assert_eq!(tally.status(), MigrationStatus::Completed);
    tally.record("c.fwm", ImportOutcome::Failed { message: "broken".into() });
    assert_eq!(
        tally,
        ImportTally {
            processed: 3,
            imported: 2,
            failed: 1,
            duplicates: 1,
            errors: vec![MigrationErrorRecord { path: "c.fwm".into(), message: "broken".into() }],
        }
    );
    assert_eq!(tally.status(), MigrationStatus::Failed);
    assert!(!tally.has_room(Some(3)));
    assert!(tally.has_room(Some(4)));
}

#[test]
fn documents_older_than_the_request_are_passed_over() {
    assert!(too_old(Some(9), Some(10)));
    assert!(!too_old(Some(10), Some(10)));
    assert!(!too_old(None, Some(10)));
    assert!(!too_old(Some(9), None));
    assert!(!too_old(None, None));
}

#[test]
fn documents_become_messages() {
    let doc = document(&[
        ("SUBJECT", "Hello"),
        ("BODY", "Text"),
        ("FOLDER", "archive"),
        ("STATUS", "read"),
        ("FROM", "C=AT;O=Post;S=Huber"),
        ("TO", "S=One|S=Two"),
    ]);
    let message = message_from_document(&doc, MessageId::new(5));
    assert_eq!(message.envelope.id, MessageId("msg-5".into()));
    assert_eq!(message.envelope.subject, "Hello");
    assert_eq!(message.envelope.sender, address("AT", "Post", "Huber"));
    assert_eq!(message.envelope.recipients.len(), 2);
    assert_eq!(message.envelope.folder, "archive");
    assert_eq!(message.envelope.status, MessageStatus::Read);
    assert_eq!(message.envelope.priority, MessagePriority::Normal);
    assert_eq!(message.envelope.sensitivity, MessageSensitivity::Normal);
    assert_eq!(message.content.body, "Text");
    let other = message_from_document(&document(&[("SUBJECT", "Hello"), ("BODY", "Text")]), MessageId::new(6));
    let different = message_from_document(&document(&[("SUBJECT", "Hello"), ("BODY", "Other")]), MessageId::new(7));
    assert!(is_duplicate(&vec![different.clone(), message.clone()], &other));
    assert!(!is_duplicate(&vec![different], &other));
    assert!(!is_duplicate(&vec![], &other));
}

#[test]
fn document_text_is_read_line_by_line() {
    let text = " Subject = \"Quoted\" \n#SUBJECT=no\n//BODY=no\nattachment = \"a.txt\"\nAttach2=b.txt\nBODY=one\nBODY=two\nstray line\nKEY==v\n";
    let document = document_from_text(text).unwrap();
    assert_eq!(
        document.values,
        vec![
            ("Subject".to_string(), "Quoted".to_string()),
            ("BODY".to_string(), "one".to_string()),
            ("BODY".to_string(), "two".to_string()),
            ("KEY".to_string(), "=v".to_string()),
        ]
    );
    assert_eq!(document.attachments, vec!["a.txt", "b.txt"]);
    assert_eq!(document.source, None);
    assert_eq!(document.subject(), "Quoted");
    assert_eq!(document.body(), "two");
}

#[test]
fn getters_fall_back() {
    let empty = document(&[]);
    assert_eq!(empty.subject(), "Legacy message");
    assert_eq!(empty.body(), "");
    assert_eq!(empty.folder(), "inbox");
    assert_eq!(empty.status(), MessageStatus::Unknown);
    assert_eq!(empty.sender(), Address::sample());
    assert_eq!(empty.recipients(), vec![Address::sample()]);
    let mixed = document(&[("Subject", "s"), ("Body", "b"), ("Folder", "f"), ("SUBJECT", "S")]);
    assert_eq!(mixed.subject(), "S");
    assert_eq!(mixed.body(), "b");
    assert_eq!(mixed.folder(), "f");
}

#[test]
fn status_words_are_read_without_case() {
    let status = |word: &str| document(&[("STATUS", word)]).status();
    assert_eq!(status("sent"), MessageStatus::Sent);
    assert_eq!(status("Delivered"), MessageStatus::Delivered);
    assert_eq!(status("READ"), MessageStatus::Read);
    assert_eq!(status("opened"), MessageStatus::Read);
    assert_eq!(status("failed"), MessageStatus::Failed);
    assert_eq!(status("NDR"), MessageStatus::Failed);
    assert_eq!(status("queued"), MessageStatus::Queued);
    assert_eq!(status("pending"), MessageStatus::Unknown);
    assert_eq!(status(" sent"), MessageStatus::Unknown);
    assert_eq!(document(&[("Status", "sent")]).status(), MessageStatus::Sent);
}

#[test]
fn addresses_are_read_with_fallbacks() {
    assert_eq!(
        parse_address("C=DE;O=Org;S=Recipient"),
        Some(address("DE", "Org", "Recipient"))
    );
    assert_eq!(
        parse_address(" c = FR ; ou = Unit ; cn = Name "),
        Some(address("FR", "Unit", "Name"))
    );
    assert_eq!(
        parse_address("O=A;OU=B;S=;CN=C"),
        Some(address("DE", "A", ""))
    );
    assert_eq!(
        parse_address(""),
        Some(address("DE", "Modernization", "Recipient"))
    );
    assert_eq!(
        parse_address("C=DE;C=AT;junk"),
        Some(address("AT", "Modernization", "Recipient"))
    );
}

#[test]
fn recipients_are_split_on_three_separators() {
    let listed = document(&[("RECIPIENTS", "S=A | S=B,S=C\n \n,S=D")]);
    let surnames: Vec<String> = listed.recipients().into_iter().map(|a| a.surname).collect();
    assert_eq!(surnames, vec!["A", "B", "C", "D"]);
    let to = document(&[("TO", "S=Only")]);
    assert_eq!(to.recipients(), vec![address("DE", "Modernization", "Only")]);
    let blank = document(&[("TO", " , | ")]);
    assert_eq!(blank.recipients(), vec![Address::sample()]);
    let sender = document(&[("FROM", "S=From"), ("SENDER", "S=Sender")]);
    assert_eq!(sender.sender().surname, "Sender");
}

#[test]
fn mode_follows_the_extension() {
    assert_eq!(infer_mode("archive.fwz"), MigrationMode::Fwz);
    assert_eq!(infer_mode("dir.d/ARCHIVE.FwZ"), MigrationMode::Fwz);
    assert_eq!(infer_mode("message.fwm"), MigrationMode::Fwm);
    assert_eq!(infer_mode("fwz"), MigrationMode::Fwm);
    assert_eq!(infer_mode(".fwz"), MigrationMode::Fwm);
    assert_eq!(infer_mode("a.fwz/b"), MigrationMode::Fwm);
    assert_eq!(mode_for_extension(&Some("FWZ".into())), MigrationMode::Fwz);
    assert_eq!(mode_for_extension(&Some("fwzz".into())), MigrationMode::Fwm);
    assert_eq!(mode_for_extension(&None), MigrationMode::Fwm);
    assert_eq!(MigrationMode::default(), MigrationMode::Auto);
    assert_eq!(MigrationStatus::default(), MigrationStatus::Pending);
}

#[test]
fn defaults_are_empty() {
    let document = FwmDocument::default();
    assert_eq!(document.source, None);
    assert!(document.values.is_empty());
    assert!(document.attachments.is_empty());
    assert_eq!(
        AttachmentSummary::default(),
        AttachmentSummary { name: "".into(), size: 0, sha256: "".into() }
    );
    let archive = core_service::migration::FwzArchive::default();
    assert!(archive.documents.is_empty());
    assert!(archive.attachments.is_empty());
    assert!(!archive.checksum_ok);
    assert_eq!(
        MigrationErrorRecord::default(),
        MigrationErrorRecord { path: "".into(), message: "".into() }
    );
}
