use core_service::parsers::{
    parse_fwm, unsafe_name, validate_entry_names, validate_fwz_archive, FwmParseError,
    FwzValidationError,
};
use std::io::{Cursor, Write};
use zip::write::FileOptions;

fn write_archive(entries: &[(String, Vec<u8>)]) -> Cursor<Vec<u8>> {
    let mut buffer = Cursor::new(Vec::new());
    {
        let mut writer = zip::ZipWriter::new(&mut buffer);
        let options = FileOptions::default();
        for (name, data) in entries {
            writer.start_file(name, options).unwrap();
            writer.write_all(data).unwrap();
        }
        writer.finish().unwrap();
    }
    buffer.set_position(0);
    buffer
}

#[test]
fn parse_fwm_rejects_duplicates() {
    let data = "KEY=value\nKEY=other";
    let err = parse_fwm(data).unwrap_err();
    assert!(matches!(err, FwmParseError::DuplicateKey(_)));
}

#[test]
fn validate_fwz_rejects_traversal() {
    let buffer = write_archive(&[("../evil".into(), vec![1, 2, 3])]);
    let err = validate_fwz_archive(&buffer.into_inner()).unwrap_err();
    match err {
        FwzValidationError::PathTraversal(name) => assert_eq!(name, "../evil"),
        _ => panic!("unexpected error"),
    }
}

#[test]
fn validate_fwz_accepts_safe_names_in_order() {
    let buffer = write_archive(&[
        ("META/message.fwm".into(), vec![0u8; 4]),
        ("ATTACH/file.txt".into(), vec![1u8; 2]),
        ("a.b/c_d-e".into(), Vec::new()),
    ]);
    let names = validate_fwz_archive(&buffer.into_inner()).unwrap();
    assert_eq!(names, vec!["META/message.fwm", "ATTACH/file.txt", "a.b/c_d-e"]);
}

#[test]
fn validate_fwz_refuses_what_is_no_archive() {
    assert!(matches!(
        validate_fwz_archive(b"not a zip archive"),
        Err(FwzValidationError::Zip(_))
    ));
    assert!(matches!(validate_fwz_archive(b""), Err(FwzValidationError::Zip(_))));
}

#[test]
fn unsafe_names_are_told_apart() {
    assert!(unsafe_name("/etc/passwd"));
    assert!(unsafe_name("a/../b"));
    assert!(unsafe_name(".."));
    assert!(unsafe_name("a\0b"));
    assert!(unsafe_name("C:file"));
    assert!(unsafe_name("a\rb"));
    assert!(!unsafe_name("a/b.c"));
    assert!(!unsafe_name("a/.b/c."));
    assert!(!unsafe_name(""));
}

#[test]
fn the_first_unsafe_name_is_reported() {
    let names = vec!["ok".to_string(), "a:b".to_string(), "../c".to_string()];
    match validate_entry_names(names) {
        Err(FwzValidationError::PathTraversal(name)) => assert_eq!(name, "a:b"),
        _ => panic!("expected a refusal"),
    }
    let names = vec!["ok".to_string(), "fine/too".to_string()];
    assert_eq!(validate_entry_names(names.clone()).unwrap(), names);
}

#[test]
fn parse_fwm_reads_entries_in_order() {
    let parsed = parse_fwm("# head\n subject = Hello World \n\nBody=a=b\r\nempty=\n").unwrap();
    assert_eq!(
        parsed,
        vec![
            ("SUBJECT".to_string(), "Hello World".to_string()),
            ("BODY".to_string(), "a=b".to_string()),
            ("EMPTY".to_string(), "".to_string()),
        ]
    );
    assert_eq!(parse_fwm(""), Ok(vec![]));
}

#[test]
fn parse_fwm_reports_the_first_fault() {
    assert_eq!(
        parse_fwm("A=1\n\n# c\nno separator\nA=2"),
        Err(FwmParseError::InvalidLine { line: 4 })
    );
    assert_eq!(
        parse_fwm("key=1\nKey = 2\nbroken"),
        Err(FwmParseError::DuplicateKey("KEY".to_string()))
    );
    assert_eq!(parse_fwm("=v\n =w"), Err(FwmParseError::DuplicateKey("".to_string())));
}

struct RawEntry<'a> {
    name: &'a str,
    method: u16,
    flags: u16,
    extra: &'a [u8],
}

fn plain(name: &str) -> RawEntry<'_> {
    RawEntry { name, method: 0, flags: 0, extra: &[] }
}

/// An archive of empty entries, written out byte by byte.
fn raw_archive(entries: &[RawEntry]) -> Vec<u8> {
    let mut bytes: Vec<u8> = Vec::new();
    let mut directory: Vec<u8> = Vec::new();
    for entry in entries {
        let offset = bytes.len() as u32;
        bytes.extend_from_slice(&0x04034b50u32.to_le_bytes());
        bytes.extend_from_slice(&20u16.to_le_bytes());
        bytes.extend_from_slice(&entry.flags.to_le_bytes());
        bytes.extend_from_slice(&entry.method.to_le_bytes());
        bytes.extend_from_slice(&[0u8; 16]);
        bytes.extend_from_slice(&(entry.name.len() as u16).to_le_bytes());
        bytes.extend_from_slice(&(entry.extra.len() as u16).to_le_bytes());
        bytes.extend_from_slice(entry.name.as_bytes());
        bytes.extend_from_slice(entry.extra);
        directory.extend_from_slice(&0x02014b50u32.to_le_bytes());
        directory.extend_from_slice(&20u16.to_le_bytes());
        directory.extend_from_slice(&20u16.to_le_bytes());
        directory.extend_from_slice(&entry.flags.to_le_bytes());
        directory.extend_from_slice(&entry.method.to_le_bytes());
        directory.extend_from_slice(&[0u8; 16]);
        directory.extend_from_slice(&(entry.name.len() as u16).to_le_bytes());
        directory.extend_from_slice(&(entry.extra.len() as u16).to_le_bytes());
        directory.extend_from_slice(&[0u8; 10]);
        directory.extend_from_slice(&offset.to_le_bytes());
        directory.extend_from_slice(entry.name.as_bytes());
        directory.extend_from_slice(entry.extra);
    }
    let start = bytes.len() as u32;
    bytes.extend_from_slice(&directory);
    bytes.extend_from_slice(&0x06054b50u32.to_le_bytes());
    bytes.extend_from_slice(&[0u8; 4]);
    bytes.extend_from_slice(&(entries.len() as u16).to_le_bytes());
    bytes.extend_from_slice(&(entries.len() as u16).to_le_bytes());
    bytes.extend_from_slice(&(directory.len() as u32).to_le_bytes());
    bytes.extend_from_slice(&start.to_le_bytes());
    bytes.extend_from_slice(&0u16.to_le_bytes());
    bytes
}

const AES_FIELD: [u8; 11] = [0x01, 0x99, 7, 0, 2, 0, 0x41, 0x45, 3, 0, 0];

#[test]
fn raw_archives_are_read() {
    let bytes = raw_archive(&[plain("a.txt"), plain("dir/b.txt")]);
    assert_eq!(validate_fwz_archive(&bytes).unwrap(), vec!["a.txt", "dir/b.txt"]);
}

#[test]
fn an_entry_marked_for_aes_without_the_flag_is_a_fault() {
    let marked = RawEntry { name: "a.fwm", method: 0, flags: 0, extra: &AES_FIELD };
    let bytes = raw_archive(&[plain("first.txt"), marked]);
    assert!(matches!(validate_fwz_archive(&bytes), Err(FwzValidationError::Zip(_))));
    assert!(matches!(
        core_service::migration::read_fwz(&bytes),
        Err(core_service::migration::MigrationError::Archive(_))
    ));
}

#[test]
fn an_encrypted_entry_is_a_fault() {
    let locked = RawEntry { name: "a.txt", method: 0, flags: 1, extra: &[] };
    let bytes = raw_archive(&[locked]);
    assert!(matches!(validate_fwz_archive(&bytes), Err(FwzValidationError::Zip(_))));
}

#[test]
fn the_first_fault_in_the_order_of_the_entries_wins() {
    let unsupported = RawEntry { name: "later.txt", method: 12345, flags: 0, extra: &[] };
    let bytes = raw_archive(&[plain("ok.txt"), plain("../evil"), unsupported]);
    match validate_fwz_archive(&bytes) {
        Err(FwzValidationError::PathTraversal(name)) => assert_eq!(name, "../evil"),
        other => panic!("unexpected answer {:?}", other),
    }
    let unsupported = RawEntry { name: "early.txt", method: 12345, flags: 0, extra: &[] };
    let bytes = raw_archive(&[plain("ok.txt"), unsupported, plain("../evil")]);
    assert!(matches!(validate_fwz_archive(&bytes), Err(FwzValidationError::Zip(_))));
}
