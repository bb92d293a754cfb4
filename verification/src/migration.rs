//! Legacy metadata documents and what the importer reads from them.

use vstd::prelude::*;

use crate::models::{
    addresses_of, Address, AddressView, Message, MessageContent, MessageEnvelope, MessageId,
    MessagePriority, MessageSensitivity, MessageStatus,
};
use crate::parsers::{entry_count, entry_count_of, entry_name, entry_name_of};
use crate::text::{
    after_first, ascii_lowercase, ascii_uppercase, before_first, chars_of, cut_at_first,
    ends_with, eq_ignoring_ascii_case, find_value, has_prefix, has_suffix, hex_lower,
    hex_lower_chars, is_text, lines_of, pairs_of, same_ignoring_ascii_case, split_chars,
    split_lines, split_on, starts_with, string_of, strip_chars, stripped, texts_of,
    to_ascii_lower, to_ascii_upper, trim_chars, trimmed, value_of, view_of, views_of, Pair,
};
use crate::transport::tls::{sha256, sha256_of};
use zip::result::ZipError;

verus! {

/// Why a document or a job could not be handled.
#[derive(Debug)]
pub enum MigrationError {
    /// The archive could not be read.
    Archive(ZipError),
    /// The file holds no metadata.
    EmptyDocument,
    /// The document holds a record that cannot be read.
    InvalidRecord(String),
    /// No job has the requested id.
    UnknownJob,
}

/// A `MigrationError` without what an outside fault holds, and with its
/// text as a sequence of characters.
pub enum MigrationErrorView {
    Archive,
    EmptyDocument,
    InvalidRecord(Seq<char>),
    UnknownJob,
}

impl View for MigrationError {
    type V = MigrationErrorView;

    open spec fn view(&self) -> MigrationErrorView {
        match self {
            MigrationError::Archive(_) => MigrationErrorView::Archive,
            MigrationError::EmptyDocument => MigrationErrorView::EmptyDocument,
            MigrationError::InvalidRecord(text) => MigrationErrorView::InvalidRecord(text@),
            MigrationError::UnknownJob => MigrationErrorView::UnknownJob,
        }
    }
}

/// A legacy metadata document: its values, in the order in which they were
/// read, and the attachments that it names. Of two values with one key the
/// later one counts.
#[derive(Clone, Debug, PartialEq, Eq)]
pub struct FwmDocument {
    pub source: Option<String>,
    pub values: Vec<(String, String)>,
    pub attachments: Vec<String>,
}

/// An `FwmDocument` as sequences of characters.
pub struct FwmDocumentView {
    pub source: Option<Seq<char>>,
    pub values: Seq<Pair>,
    pub attachments: Seq<Seq<char>>,
}

impl View for FwmDocument {
    type V = FwmDocumentView;

    open spec fn view(&self) -> FwmDocumentView {
        FwmDocumentView {
            source: view_of(self.source),
            values: pairs_of(self.values@),
            attachments: texts_of(self.attachments@),
        }
    }
}

impl Default for FwmDocument {
    /// A document without source, values and attachments.
    fn default() -> (out: Self)
        ensures
            out@ == (FwmDocumentView {
                source: None,
                values: Seq::empty(),
                attachments: Seq::empty(),
            }),
    {
        let out = FwmDocument { source: None, values: Vec::new(), attachments: Vec::new() };
        assert(out@.values =~= Seq::<Pair>::empty());
        assert(out@.attachments =~= Seq::<Seq<char>>::empty());
        out
    }
}

/// The value of the key `first`, else that of the key `second`.
pub open spec fn either_value(values: Seq<Pair>, first: Seq<char>, second: Seq<char>) -> Option<
    Seq<char>,
> {
    match value_of(values, first) {
        Some(v) => Some(v),
        None => value_of(values, second),
    }
}

/// The status that a status word, in capitals, stands for.
pub open spec fn status_of(word: Seq<char>) -> MessageStatus {
    if word == "SENT"@ {
        MessageStatus::Sent
    } else if word == "DELIVERED"@ {
        MessageStatus::Delivered
    } else if word == "READ"@ || word == "OPENED"@ {
        MessageStatus::Read
    } else if word == "FAILED"@ || word == "NDR"@ {
        MessageStatus::Failed
    } else if word == "QUEUED"@ {
        MessageStatus::Queued
    } else {
        MessageStatus::Unknown
    }
}

/// The key and the value of one segment `key=value` of an address: the key
/// in capitals, both without the white space around them, and an empty
/// value where the segment has no `=`.
pub open spec fn segment_pair(segment: Seq<char>) -> Pair {
    (
        to_ascii_upper(trimmed(before_first(segment, '='))),
        match after_first(segment, '=') {
            Some(value) => trimmed(value),
            None => Seq::empty(),
        },
    )
}

/// The address that an O/R string `key=value;...` names. The country is
/// `C`, else `DE`; the organization `O`, else `OU`, else `Modernization`;
/// the surname `S`, else `CN`, else `Recipient`.
pub open spec fn address_of(input: Seq<char>) -> AddressView {
    let parts = split_on(input, ';').map_values(|s: Seq<char>| segment_pair(s));
    AddressView {
        country: match value_of(parts, seq!['C']) {
            Some(v) => v,
            None => "DE"@,
        },
        organization: match either_value(parts, seq!['O'], seq!['O', 'U']) {
            Some(v) => v,
            None => "Modernization"@,
        },
        surname: match either_value(parts, seq!['S'], seq!['C', 'N']) {
            Some(v) => v,
            None => "Recipient"@,
        },
    }
}

/// Computes `address_of`.
pub fn parse_address(input: &str) -> (address: Option<Address>)
    ensures
        address matches Some(a) && a@ == address_of(input@),
{
    let segments = split_chars(&chars_of(input), ';');
    let mut parts: Vec<(String, String)> = Vec::new();
    let mut i: usize = 0;
    while i < segments.len()
        invariant
            i <= segments.len(),
            parts@.len() == i,
            forall|k: int|
                0 <= k < i ==> (parts@[k].0@, parts@[k].1@) == segment_pair(
                    #[trigger] segments@[k]@,
                ),
        decreases segments.len() - i,
    {
        let (head, tail) = cut_at_first(&segments[i], '=');
        let key = ascii_uppercase(&trim_chars(&head));
        let value = match tail {
            Some(rest) => trim_chars(&rest),
            None => Vec::new(),
        };
        parts.push((string_of(&key), string_of(&value)));
        i = i + 1;
    }
    assert(pairs_of(parts@) =~= views_of(segments@).map_values(|s: Seq<char>| segment_pair(s)));
    let c = vec!['C'];
    let o = vec!['O'];
    let ou = vec!['O', 'U'];
    let s = vec!['S'];
    let cn = vec!['C', 'N'];
    assert(c@ =~= seq!['C'] && o@ =~= seq!['O'] && ou@ =~= seq!['O', 'U']);
    assert(s@ =~= seq!['S'] && cn@ =~= seq!['C', 'N']);
    assert(views_of(segments@) == split_on(input@, ';'));
    let country = match find_value(&parts, string_of(&c).as_str()) {
        Some(v) => v,
        None => String::from_str("DE"),
    };
    let organization = match find_value(&parts, string_of(&o).as_str()) {
        Some(v) => v,
        None => match find_value(&parts, string_of(&ou).as_str()) {
            Some(v) => v,
            None => String::from_str("Modernization"),
        },
    };
    let surname = match find_value(&parts, string_of(&s).as_str()) {
        Some(v) => v,
        None => match find_value(&parts, string_of(&cn).as_str()) {
            Some(v) => v,
            None => String::from_str("Recipient"),
        },
    };
    Some(Address { country, organization, surname })
}

/// `list` with `|` and `,` turned into line feeds, so that the three
/// separators of a recipient list are one.
pub open spec fn unified(list: Seq<char>) -> Seq<char> {
    list.map_values(
        |c: char|
            if c == '|' || c == ',' {
                '\n'
            } else {
                c
            },
    )
}

/// The entries of a recipient list: what stands between line feeds, `|`
/// and `,`, without the white space around it, blank entries left out.
pub open spec fn list_entries(list: Seq<char>) -> Seq<Seq<char>> {
    split_on(unified(list), '\n').map_values(|e: Seq<char>| trimmed(e)).filter(
        |e: Seq<char>| e.len() > 0,
    )
}

/// The address that a document without sender or recipients is given:
/// country `DE`, organization `Modern`, surname `Operator`.
pub open spec fn sample_address() -> AddressView {
    AddressView { country: "DE"@, organization: "Modern"@, surname: "Operator"@ }
}

/// The recipients that a list names, or the sample address where it names
/// none.
pub open spec fn recipients_of(list: Seq<char>) -> Seq<AddressView> {
    let entries = list_entries(list);
    if entries.len() == 0 {
        seq![sample_address()]
    } else {
        entries.map_values(|e: Seq<char>| address_of(e))
    }
}

impl FwmDocument {
    /// `SUBJECT`, else `Subject`, else `Legacy message`.
    pub fn subject(&self) -> (text: String)
        ensures
            text@ == match either_value(self@.values, "SUBJECT"@, "Subject"@) {
                Some(v) => v,
                None => "Legacy message"@,
            },
    {
        match self.either("SUBJECT", "Subject") {
            Some(v) => v,
            None => String::from_str("Legacy message"),
        }
    }

    /// `BODY`, else `Body`, else nothing.
    pub fn body(&self) -> (text: String)
        ensures
            text@ == match either_value(self@.values, "BODY"@, "Body"@) {
                Some(v) => v,
                None => Seq::empty(),
            },
    {
        match self.either("BODY", "Body") {
            Some(v) => v,
            None => String::new(),
        }
    }

    /// `FOLDER`, else `Folder`, else `inbox`.
    pub fn folder(&self) -> (text: String)
        ensures
            text@ == match either_value(self@.values, "FOLDER"@, "Folder"@) {
                Some(v) => v,
                None => "inbox"@,
            },
    {
        match self.either("FOLDER", "Folder") {
            Some(v) => v,
            None => String::from_str("inbox"),
        }
    }

    /// The status that `STATUS`, else `Status`, names, in either case;
    /// `Unknown` where there is neither or the word is none of the known.
    pub fn status(&self) -> (status: MessageStatus)
        ensures
            status == match either_value(self@.values, "STATUS"@, "Status"@) {
                Some(v) => status_of(to_ascii_upper(v)),
                None => MessageStatus::Unknown,
            },
    {
        let word = match self.either("STATUS", "Status") {
            Some(v) => ascii_uppercase(&chars_of(v.as_str())),
            None => {
                return MessageStatus::Unknown;
            },
        };
        if is_text(&word, "SENT") {
            MessageStatus::Sent
        } else if is_text(&word, "DELIVERED") {
            MessageStatus::Delivered
        } else if is_text(&word, "READ") || is_text(&word, "OPENED") {
            MessageStatus::Read
        } else if is_text(&word, "FAILED") || is_text(&word, "NDR") {
            MessageStatus::Failed
        } else if is_text(&word, "QUEUED") {
            MessageStatus::Queued
        } else {
            MessageStatus::Unknown
        }
    }

    /// The address that `SENDER`, else `FROM`, names; the sample address
    /// where there is neither.
    pub fn sender(&self) -> (address: Address)
        ensures
            address@ == match either_value(self@.values, "SENDER"@, "FROM"@) {
                Some(v) => address_of(v),
                None => sample_address(),
            },
    {
        match self.either("SENDER", "FROM") {
            Some(v) => match parse_address(v.as_str()) {
                Some(address) => address,
                None => Address::sample(),
            },
            None => Address::sample(),
        }
    }

    /// The addresses that `RECIPIENTS`, else `TO`, lists, or the sample
    /// address where that names none.
    pub fn recipients(&self) -> (addresses: Vec<Address>)
        ensures
            addresses_of(addresses@) == recipients_of(
                match either_value(self@.values, "RECIPIENTS"@, "TO"@) {
                    Some(v) => v,
                    None => Seq::empty(),
                },
            ),
    {
        let list = match self.either("RECIPIENTS", "TO") {
            Some(v) => v,
            None => String::new(),
        };
        let chars = chars_of(list.as_str());
        let mut plain: Vec<char> = Vec::new();
        let mut k: usize = 0;
        while k < chars.len()
            invariant
                k <= chars.len(),
                plain@ == unified(chars@.take(k as int)),
            decreases chars.len() - k,
        {
            let c = chars[k];
            plain.push(
                if c == '|' || c == ',' {
                    '\n'
                } else {
                    c
                },
            );
            k = k + 1;
            assert(plain@ =~= unified(chars@.take(k as int)));
        }
        assert(chars@.take(chars.len() as int) =~= chars@);
        let pieces = split_chars(&plain, '\n');
        let ghost keep = |e: Seq<char>| e.len() > 0;
        let ghost trims = views_of(pieces@).map_values(|e: Seq<char>| trimmed(e));
        let mut addresses: Vec<Address> = Vec::new();
        let mut i: usize = 0;
        assert(trims.take(0).filter(keep) =~= Seq::<Seq<char>>::empty()) by {
            reveal(Seq::filter);
        }
        while i < pieces.len()
            invariant
                i <= pieces.len(),
                trims == views_of(pieces@).map_values(|e: Seq<char>| trimmed(e)),
                keep == (|e: Seq<char>| e.len() > 0),
                addresses_of(addresses@) == trims.take(i as int).filter(keep).map_values(
                    |e: Seq<char>| address_of(e),
                ),
            decreases pieces.len() - i,
        {
            let ghost before = trims.take(i as int);
            let ghost shown = addresses_of(addresses@);
            let entry = trim_chars(&pieces[i]);
            assert(entry@ == trims[i as int]);
            if entry.len() > 0 {
                match parse_address(string_of(&entry).as_str()) {
                    Some(address) => {
                        addresses.push(address);
                        assert(addresses_of(addresses@) =~= shown.push(address_of(entry@)));
                    },
                    None => {},
                }
            }
            i = i + 1;
            proof {
                let now = trims.take(i as int);
                assert(now.drop_last() =~= before);
                assert(now.last() == entry@);
                reveal(Seq::filter);
                assert(now.filter(keep) =~= if keep(entry@) {
                    before.filter(keep).push(entry@)
                } else {
                    before.filter(keep)
                });
                assert(addresses_of(addresses@) =~= now.filter(keep).map_values(
                    |e: Seq<char>| address_of(e),
                ));
            }
        }
        assert(trims.take(pieces.len() as int) =~= trims);
        if addresses.len() == 0 {
            addresses.push(Address::sample());
            assert(addresses_of(addresses@) =~= seq![sample_address()]);
        }
        addresses
    }

    /// The value of the key `first`, else that of the key `second`.
    fn either(&self, first: &str, second: &str) -> (found: Option<String>)
        ensures
            view_of(found) == either_value(self@.values, first@, second@),
    {
        match find_value(&self.values, first) {
            Some(v) => Some(v),
            None => find_value(&self.values, second),
        }
    }
}

/// Whether a line of a document is passed over: it is blank, or begins
/// with `#` or `//`, white space around it aside.
pub open spec fn is_comment(line: Seq<char>) -> bool {
    let text = trimmed(line);
    text.len() == 0 || text[0] == '#' || starts_with(text, seq!['/', '/'])
}

/// The values and the attachments that the lines of a document hold. A
/// line that counts is `key=value`, both without the white space around
/// them and the value without the quotation marks around it; a key that
/// begins with `ATTACH`, in either case, names an attachment. Lines without
/// `=` are passed over.
pub open spec fn document_parts(lines: Seq<Seq<char>>) -> (Seq<Pair>, Seq<Seq<char>>)
    decreases lines.len(),
{
    if lines.len() == 0 {
        (Seq::empty(), Seq::empty())
    } else {
        let parts = document_parts(lines.drop_last());
        let text = trimmed(lines.last());
        let key = trimmed(before_first(text, '='));
        match after_first(text, '=') {
            Some(rest) => if is_comment(lines.last()) {
                parts
            } else if starts_with(to_ascii_upper(key), "ATTACH"@) {
                (parts.0, parts.1.push(stripped(trimmed(rest), '"')))
            } else {
                (parts.0.push((key, stripped(trimmed(rest), '"'))), parts.1)
            },
            None => parts,
        }
    }
}

/// The document that a text holds, or `EmptyDocument` where it holds no
/// value.
pub open spec fn document_of(text: Seq<char>) -> Result<FwmDocumentView, MigrationErrorView> {
    let parts = document_parts(lines_of(text));
    if parts.0.len() == 0 {
        Err(MigrationErrorView::EmptyDocument)
    } else {
        Ok(FwmDocumentView { source: None, values: parts.0, attachments: parts.1 })
    }
}

/// Reads the text of a document.
pub fn document_from_text(text: &str) -> (document: Result<FwmDocument, MigrationError>)
    ensures
        match (document, document_of(text@)) {
            (Ok(d), Ok(wanted)) => d@ == wanted,
            (Err(e), Err(wanted)) => e@ == wanted,
            _ => false,
        },
{
    let lines = split_lines(&chars_of(text));
    let mut values: Vec<(String, String)> = Vec::new();
    let mut attachments: Vec<String> = Vec::new();
    let marker = chars_of("ATTACH");
    let slashes = vec!['/', '/'];
    let mut i: usize = 0;
    assert(views_of(lines@).take(0) =~= Seq::<Seq<char>>::empty());
    assert(pairs_of(values@) =~= Seq::<Pair>::empty());
    assert(texts_of(attachments@) =~= Seq::<Seq<char>>::empty());
    while i < lines.len()
        invariant
            i <= lines.len(),
            marker@ == "ATTACH"@,
            slashes@ == seq!['/', '/'],
            document_parts(views_of(lines@).take(i as int)) == (
                pairs_of(values@),
                texts_of(attachments@),
            ),
        decreases lines.len() - i,
    {
        let ghost shown = views_of(lines@).take(i + 1);
        let ghost values_before = pairs_of(values@);
        let ghost attachments_before = texts_of(attachments@);
        assert(shown.drop_last() =~= views_of(lines@).take(i as int));
        assert(shown.last() == lines@[i as int]@);
        let text = trim_chars(&lines[i]);
        let skip = text.len() == 0 || text[0] == '#' || has_prefix(&text, &slashes);
        let (head, tail) = cut_at_first(&text, '=');
        if !skip {
            match tail {
                Some(rest) => {
                    let key = trim_chars(&head);
                    let value = strip_chars(&trim_chars(&rest), '"');
                    if has_prefix(&ascii_uppercase(&key), &marker) {
                        attachments.push(string_of(&value));
                        assert(texts_of(attachments@) =~= attachments_before.push(value@));
                    } else {
                        values.push((string_of(&key), string_of(&value)));
                        assert(pairs_of(values@) =~= values_before.push((key@, value@)));
                    }
                },
                None => {},
            }
        }
        i = i + 1;
    }
    assert(views_of(lines@).take(lines.len() as int) =~= views_of(lines@));
    if values.len() == 0 {
        return Err(MigrationError::EmptyDocument);
    }
    Ok(FwmDocument { source: None, values, attachments })
}

/// The text that the bytes of a legacy file decode to, in the encoding
/// that detection guesses for them; `None` where they hold a sequence that
/// is malformed in that encoding.
pub uninterp spec fn decoded_text(bytes: Seq<u8>) -> Option<Seq<char>>;

/// `chardetng::EncodingDetector` fed with all the bytes at once, its guess
/// with UTF-8 allowed and no domain hint, and `Encoding::decode` of
/// `encoding_rs` with that guess. The result is a function of the bytes
/// alone; the contract only names it. The bound keeps the size of the
/// decoder's buffer, a small multiple of the input, within `usize`.
#[verifier::external_body]
fn decode_legacy(bytes: &[u8]) -> (text: Option<String>)
    requires
        bytes@.len() <= usize::MAX / 8,
    ensures
        view_of(text) == decoded_text(bytes@),
{
    let mut detector = chardetng::EncodingDetector::new();
    detector.feed(bytes, true);
    let (text, _, had_errors) = detector.guess(None, true).decode(bytes);
    if had_errors {
        None
    } else {
        Some(text.into_owned())
    }
}

/// The document that the bytes of a legacy file hold: `EmptyDocument` for
/// no bytes, `InvalidRecord` where they do not decode, else what their
/// text holds.
pub open spec fn fwm_document(bytes: Seq<u8>) -> Result<FwmDocumentView, MigrationErrorView> {
    if bytes.len() == 0 {
        Err(MigrationErrorView::EmptyDocument)
    } else {
        match decoded_text(bytes) {
            None => Err(MigrationErrorView::InvalidRecord("encoding error"@)),
            Some(text) => document_of(text),
        }
    }
}

/// Decodes and reads a legacy metadata document.
pub fn parse_fwm(bytes: &[u8]) -> (document: Result<FwmDocument, MigrationError>)
    requires
        bytes@.len() <= usize::MAX / 8,
    ensures
        match (document, fwm_document(bytes@)) {
            (Ok(d), Ok(wanted)) => d@ == wanted,
            (Err(e), Err(wanted)) => e@ == wanted,
            _ => false,
        },
{
    if bytes.len() == 0 {
        return Err(MigrationError::EmptyDocument);
    }
    match decode_legacy(bytes) {
        None => Err(MigrationError::InvalidRecord(String::from_str("encoding error"))),
        Some(text) => document_from_text(text.as_str()),
    }
}

/// What was found about an attachment of an archive.
#[derive(Clone, Debug, PartialEq, Eq)]
pub struct AttachmentSummary {
    pub name: String,
    pub size: u64,
    pub sha256: String,
}

/// An `AttachmentSummary` as sequences of characters.
pub struct AttachmentView {
    pub name: Seq<char>,
    pub size: u64,
    pub sha256: Seq<char>,
}

impl View for AttachmentSummary {
    type V = AttachmentView;

    open spec fn view(&self) -> AttachmentView {
        AttachmentView { name: self.name@, size: self.size, sha256: self.sha256@ }
    }
}

impl Default for AttachmentSummary {
    /// An attachment without name and digest, of no size.
    fn default() -> (out: Self)
        ensures
            out@ == (AttachmentView { name: Seq::empty(), size: 0, sha256: Seq::empty() }),
    {
        AttachmentSummary { name: String::new(), size: 0, sha256: String::new() }
    }
}

/// What an archive holds.
#[derive(Clone, Debug, PartialEq, Eq)]
pub struct FwzArchive {
    pub documents: Vec<FwmDocument>,
    pub attachments: Vec<AttachmentSummary>,
    pub checksum_ok: bool,
}

impl Default for FwzArchive {
    /// An archive without documents and attachments, which is not sound.
    fn default() -> (out: Self)
        ensures
            out.documents@.len() == 0,
            out.attachments@.len() == 0,
            !out.checksum_ok,
    {
        FwzArchive { documents: Vec::new(), attachments: Vec::new(), checksum_ok: false }
    }
}

/// The documents and the attachments of an archive as views.
pub struct ArchiveParts {
    pub documents: Seq<FwmDocumentView>,
    pub attachments: Seq<AttachmentView>,
}

/// The views of the documents in `documents`.
pub open spec fn documents_of(documents: Seq<FwmDocument>) -> Seq<FwmDocumentView> {
    documents.map_values(|d: FwmDocument| d@)
}

/// The views of the attachments in `attachments`.
pub open spec fn attachments_of(attachments: Seq<AttachmentSummary>) -> Seq<AttachmentView> {
    attachments.map_values(|a: AttachmentSummary| a@)
}

/// The bytes of the entry with this index in the archive that `bytes`
/// hold; `None` where there is no such archive or entry, the entry cannot
/// be opened, or its content cannot be read.
pub uninterp spec fn entry_content_of(bytes: Seq<u8>, index: nat) -> Option<Seq<u8>>;

/// `zip::ZipArchive::new` on the bytes, `by_index_decrypt` with the empty
/// password, which hands a refused password back as a value, and
/// `Read::read_to_end` on the entry. A refused password becomes the fault
/// that the archive needs a password. The content is a function of the
/// bytes and the index alone; the contract only names it.
#[verifier::external_body]
fn entry_content(bytes: &[u8], index: usize) -> (content: Result<Vec<u8>, ZipError>)
    ensures
        match (content, entry_content_of(bytes@, index as nat)) {
            (Ok(c), Some(wanted)) => c@ == wanted,
            (Err(_), None) => true,
            _ => false,
        },
{
    let mut archive = zip::ZipArchive::new(std::io::Cursor::new(bytes))?;
    let mut entry = archive.by_index_decrypt(index, b"")?.map_err(
        |_| ZipError::UnsupportedArchive(ZipError::PASSWORD_REQUIRED),
    )?;
    let mut content = Vec::new();
    std::io::Read::read_to_end(&mut entry, &mut content)?;
    Ok(content)
}

/// Whether an entry with this name is a document: the name ends with
/// `.fwm`, in either case.
pub open spec fn is_document_name(name: Seq<char>) -> bool {
    ends_with(to_ascii_lower(name), ".fwm"@)
}

/// Whether an entry with this name is an attachment: it is no document,
/// and the name begins with `ATTACH/`, in either case.
pub open spec fn is_attachment_name(name: Seq<char>) -> bool {
    !is_document_name(name) && starts_with(to_ascii_upper(name), "ATTACH/"@)
}

/// The largest document that is decoded.
pub open spec fn document_limit() -> nat {
    (usize::MAX / 8) as nat
}

/// What the first `n` entries of an archive hold, or the first fault among
/// them. A document is decoded and read, and its name becomes its source;
/// of an attachment the name, the size and the digest are kept; any other
/// entry is opened and passed over.
pub open spec fn archive_parts(bytes: Seq<u8>, n: nat) -> Result<ArchiveParts, MigrationErrorView>
    decreases n,
{
    if n == 0 {
        Ok(ArchiveParts { documents: Seq::empty(), attachments: Seq::empty() })
    } else {
        match (archive_parts(bytes, (n - 1) as nat), entry_name_of(bytes, (n - 1) as nat)) {
            (Err(fault), _) => Err(fault),
            (Ok(parts), None) => Err(MigrationErrorView::Archive),
            (Ok(parts), Some(name)) => if is_document_name(name) {
                match entry_content_of(bytes, (n - 1) as nat) {
                    None => Err(MigrationErrorView::Archive),
                    Some(content) => if content.len() > document_limit() {
                        Err(MigrationErrorView::InvalidRecord("document too large"@))
                    } else {
                        match fwm_document(content) {
                            Err(fault) => Err(fault),
                            Ok(document) => Ok(
                                ArchiveParts {
                                    documents: parts.documents.push(
                                        FwmDocumentView { source: Some(name), ..document },
                                    ),
                                    ..parts
                                },
                            ),
                        }
                    },
                }
            } else if is_attachment_name(name) {
                match entry_content_of(bytes, (n - 1) as nat) {
                    None => Err(MigrationErrorView::Archive),
                    Some(content) => Ok(
                        ArchiveParts {
                            attachments: parts.attachments.push(
                                AttachmentView {
                                    name,
                                    size: content.len() as u64,
                                    sha256: hex_lower(sha256_of(content)),
                                },
                            ),
                            ..parts
                        },
                    ),
                }
            } else {
                Ok(parts)
            },
        }
    }
}

/// What the archive that the bytes hold is read as: `Archive` where the
/// bytes are no archive that can be read, else what its entries hold.
pub open spec fn archive_of(bytes: Seq<u8>) -> Result<ArchiveParts, MigrationErrorView> {
    match entry_count_of(bytes) {
        None => Err(MigrationErrorView::Archive),
        Some(count) => archive_parts(bytes, count),
    }
}

/// Once the first `n` entries have a fault, the whole archive has it.
proof fn lemma_archive_fault(bytes: Seq<u8>, n: nat, count: nat)
    requires
        n <= count,
        archive_parts(bytes, n) is Err,
    ensures
        archive_parts(bytes, count) == archive_parts(bytes, n),
    decreases count - n,
{
    if n < count {
        lemma_archive_fault(bytes, n + 1, count);
    }
}

/// Reads an archive: its documents and what is known of its attachments.
/// The archive counts as sound where it holds a document.
pub fn read_fwz(bytes: &[u8]) -> (archive: Result<FwzArchive, MigrationError>)
    ensures
        match (archive, archive_of(bytes@)) {
            (Ok(a), Ok(parts)) => {
                &&& documents_of(a.documents@) == parts.documents
                &&& attachments_of(a.attachments@) == parts.attachments
                &&& a.checksum_ok == (parts.documents.len() > 0)
            },
            (Err(fault), Err(wanted)) => fault@ == wanted,
            _ => false,
        },
{
    let count = match entry_count(bytes) {
        Ok(count) => count,
        Err(fault) => {
            return Err(MigrationError::Archive(fault));
        },
    };
    let mut documents: Vec<FwmDocument> = Vec::new();
    let mut attachments: Vec<AttachmentSummary> = Vec::new();
    let suffix = chars_of(".fwm");
    let prefix = chars_of("ATTACH/");
    let mut index: usize = 0;
    assert(documents_of(documents@) =~= Seq::<FwmDocumentView>::empty());
    assert(attachments_of(attachments@) =~= Seq::<AttachmentView>::empty());
    while index < count
        invariant
            index <= count,
            suffix@ == ".fwm"@,
            prefix@ == "ATTACH/"@,
            entry_count_of(bytes@) == Some(count as nat),
            archive_parts(bytes@, index as nat) == Ok::<ArchiveParts, MigrationErrorView>(
                ArchiveParts {
                    documents: documents_of(documents@),
                    attachments: attachments_of(attachments@),
                },
            ),
        decreases count - index,
    {
        let ghost documents_before = documents_of(documents@);
        let ghost attachments_before = attachments_of(attachments@);
        let name = match entry_name(bytes, index) {
            Ok(name) => name,
            Err(fault) => {
                proof {
                    lemma_archive_fault(bytes@, (index + 1) as nat, count as nat);
                }
                return Err(MigrationError::Archive(fault));
            },
        };
        let chars = chars_of(name.as_str());
        if has_suffix(&ascii_lowercase(&chars), &suffix) {
            let content = match entry_content(bytes, index) {
                Ok(content) => content,
                Err(fault) => {
                    proof {
                        lemma_archive_fault(bytes@, (index + 1) as nat, count as nat);
                    }
                    return Err(MigrationError::Archive(fault));
                },
            };
            if content.len() > usize::MAX / 8 {
                proof {
                    lemma_archive_fault(bytes@, (index + 1) as nat, count as nat);
                }
                return Err(MigrationError::InvalidRecord(String::from_str("document too large")));
            }
            let mut document = match parse_fwm(content.as_slice()) {
                Ok(document) => document,
                Err(fault) => {
                    proof {
                        lemma_archive_fault(bytes@, (index + 1) as nat, count as nat);
                    }
                    return Err(fault);
                },
            };
            document.source = Some(name);
            documents.push(document);
            assert(documents_of(documents@) =~= documents_before.push(document@));
        } else if has_prefix(&ascii_uppercase(&chars), &prefix) {
            let content = match entry_content(bytes, index) {
                Ok(content) => content,
                Err(fault) => {
                    proof {
                        lemma_archive_fault(bytes@, (index + 1) as nat, count as nat);
                    }
                    return Err(MigrationError::Archive(fault));
                },
            };
            let digest = sha256(content.as_slice());
            let summary = AttachmentSummary {
                name,
                size: content.len() as u64,
                sha256: string_of(&hex_lower_chars(&digest)),
            };
            attachments.push(summary);
            assert(attachments_of(attachments@) =~= attachments_before.push(summary@));
        }
        index = index + 1;
    }
    let checksum_ok = documents.len() > 0;
    Ok(FwzArchive { documents, attachments, checksum_ok })
}

/// The counters of an import run.
#[derive(Clone, Debug, PartialEq, Eq)]
pub struct ImportTally {
    pub processed: usize,
    pub imported: usize,
    pub failed: usize,
    pub duplicates: usize,
    pub errors: Vec<MigrationErrorRecord>,
}

/// What became of one document of an import run.
#[derive(Clone, Debug, PartialEq, Eq)]
pub enum ImportOutcome {
    /// The document was imported; it may have been there already.
    Imported { is_duplicate: bool },
    /// The document could not be imported, for this reason.
    Failed { message: String },
}

/// Whether a document is passed over as too old: it has a creation time,
/// the request names a time, and the first lies before the second.
pub open spec fn is_too_old(created_at: Option<i64>, since: Option<i64>) -> bool {
    match (created_at, since) {
        (Some(created), Some(limit)) => created < limit,
        _ => false,
    }
}

/// Decides `is_too_old`.
pub fn too_old(created_at: Option<i64>, since: Option<i64>) -> (old: bool)
    ensures
        old == is_too_old(created_at, since),
{
    match (created_at, since) {
        (Some(created), Some(limit)) => created < limit,
        _ => false,
    }
}

impl ImportTally {
    /// A run in which nothing has happened yet.
    pub fn new() -> (tally: Self)
        ensures
            tally.processed == 0,
            tally.imported == 0,
            tally.failed == 0,
            tally.duplicates == 0,
            tally.errors@.len() == 0,
    {
        ImportTally { processed: 0, imported: 0, failed: 0, duplicates: 0, errors: Vec::new() }
    }

    /// Whether the counters agree: every processed document was imported
    /// or failed, a duplicate is an imported one, and each failure has its
    /// record.
    pub open spec fn consistent(&self) -> bool {
        &&& self.processed == self.imported + self.failed
        &&& self.duplicates <= self.imported
        &&& self.errors@.len() == self.failed
    }

    /// Whether the run may take another document: fewer than `limit` were
    /// processed, where there is a limit.
    pub fn has_room(&self, limit: Option<usize>) -> (room: bool)
        ensures
            room == match limit {
                Some(most) => self.processed < most,
                None => self.processed < usize::MAX,
            },
    {
        match limit {
            Some(most) => self.processed < most,
            None => self.processed < usize::MAX,
        }
    }

    /// Counts one document with its outcome. A failure is recorded with
    /// the path of the document.
    pub fn record(&mut self, path: &str, outcome: ImportOutcome)
        requires
            old(self).consistent(),
            old(self).processed < usize::MAX,
        ensures
            final(self).consistent(),
            final(self).processed == old(self).processed + 1,
            match outcome {
                ImportOutcome::Imported { is_duplicate } => {
                    &&& final(self).imported == old(self).imported + 1
                    &&& final(self).failed == old(self).failed
                    &&& final(self).duplicates == old(self).duplicates + if is_duplicate {
                        1int
                    } else {
                        0int
                    }
                    &&& final(self).errors == old(self).errors
                },
                ImportOutcome::Failed { message } => {
                    &&& final(self).imported == old(self).imported
                    &&& final(self).failed == old(self).failed + 1
                    &&& final(self).duplicates == old(self).duplicates
                    &&& final(self).errors@.len() == old(self).errors@.len() + 1
                    &&& final(self).errors@.take(old(self).errors@.len() as int) == old(
                        self,
                    ).errors@
                    &&& final(self).errors@.last().path@ == path@
                    &&& final(self).errors@.last().message@ == message@
                },
            },
    {
        self.processed = self.processed + 1;
        match outcome {
            ImportOutcome::Imported { is_duplicate } => {
                self.imported = self.imported + 1;
                if is_duplicate {
                    self.duplicates = self.duplicates + 1;
                }
            },
            ImportOutcome::Failed { message } => {
                self.failed = self.failed + 1;
                self.errors.push(MigrationErrorRecord { path: String::from_str(path), message });
                assert(self.errors@.take(old(self).errors@.len() as int) =~= old(self).errors@);
            },
        }
    }

    /// How the run ended: failed where a document failed, else completed.
    pub fn status(&self) -> (status: MigrationStatus)
        ensures
            status == if self.failed > 0 {
                MigrationStatus::Failed
            } else {
                MigrationStatus::Completed
            },
    {
        if self.failed > 0 {
            MigrationStatus::Failed
        } else {
            MigrationStatus::Completed
        }
    }
}

/// The message that a document is imported as: subject, sender,
/// recipients, folder, status and body are those of the document, and
/// priority and sensitivity are normal.
pub fn message_from_document(document: &FwmDocument, id: MessageId) -> (message: Message)
    ensures
        message.envelope.id == id,
        message.envelope.subject@ == match either_value(
            document@.values,
            "SUBJECT"@,
            "Subject"@,
        ) {
            Some(v) => v,
            None => "Legacy message"@,
        },
        message.envelope.sender@ == match either_value(document@.values, "SENDER"@, "FROM"@) {
            Some(v) => address_of(v),
            None => sample_address(),
        },
        addresses_of(message.envelope.recipients@) == recipients_of(
            match either_value(document@.values, "RECIPIENTS"@, "TO"@) {
                Some(v) => v,
                None => Seq::empty(),
            },
        ),
        message.envelope.folder@ == match either_value(document@.values, "FOLDER"@, "Folder"@) {
            Some(v) => v,
            None => "inbox"@,
        },
        message.envelope.status == match either_value(document@.values, "STATUS"@, "Status"@) {
            Some(v) => status_of(to_ascii_upper(v)),
            None => MessageStatus::Unknown,
        },
        message.envelope.priority == MessagePriority::Normal,
        message.envelope.sensitivity == MessageSensitivity::Normal,
        message.content.body@ == match either_value(document@.values, "BODY"@, "Body"@) {
            Some(v) => v,
            None => Seq::empty(),
        },
{
    let subject = document.subject();
    let mut envelope = MessageEnvelope::new(
        id,
        subject.as_str(),
        document.sender(),
        document.recipients(),
    );
    envelope.folder = document.folder();
    envelope.status = document.status();
    envelope.priority = MessagePriority::Normal;
    envelope.sensitivity = MessageSensitivity::Normal;
    Message { envelope, content: MessageContent { body: document.body() } }
}

/// Whether `existing` holds a message with the subject and the body of
/// `message`.
pub open spec fn has_duplicate(existing: Seq<Message>, message: Message) -> bool {
    exists|i: int|
        0 <= i < existing.len() && (#[trigger] existing[i]).envelope.subject@
            == message.envelope.subject@ && existing[i].content.body@ == message.content.body@
}

/// Decides `has_duplicate`.
pub fn is_duplicate(existing: &Vec<Message>, message: &Message) -> (found: bool)
    ensures
        found == has_duplicate(existing@, *message),
{
    let mut i: usize = 0;
    while i < existing.len()
        invariant
            i <= existing.len(),
            forall|k: int|
                0 <= k < i ==> !((#[trigger] existing@[k]).envelope.subject@
                    == message.envelope.subject@ && existing@[k].content.body@
                    == message.content.body@),
        decreases existing.len() - i,
    {
        if existing[i].envelope.subject == message.envelope.subject && existing[i].content.body
            == message.content.body {
            return true;
        }
        i = i + 1;
    }
    false
}

/// How the input of an import is read.
#[derive(Clone, Copy, Debug, PartialEq, Eq, Structural)]
pub enum MigrationMode {
    Auto,
    Fwm,
    Fwz,
}

impl Default for MigrationMode {
    fn default() -> (out: Self)
        ensures
            out == MigrationMode::Auto,
    {
        MigrationMode::Auto
    }
}

/// A fault that was met while one artifact was handled.
#[derive(Clone, Debug, PartialEq, Eq)]
pub struct MigrationErrorRecord {
    pub path: String,
    pub message: String,
}

impl Default for MigrationErrorRecord {
    /// A record without path and message.
    fn default() -> (out: Self)
        ensures
            out.path@ == Seq::<char>::empty(),
            out.message@ == Seq::<char>::empty(),
    {
        MigrationErrorRecord { path: String::new(), message: String::new() }
    }
}

/// How far an import job has come.
#[derive(Clone, Copy, Debug, PartialEq, Eq, Structural)]
pub enum MigrationStatus {
    Pending,
    Running,
    Completed,
    Failed,
}

impl Default for MigrationStatus {
    fn default() -> (out: Self)
        ensures
            out == MigrationStatus::Pending,
    {
        MigrationStatus::Pending
    }
}

/// `std::path::Path::extension`, on a path given as text: what follows the
/// last dot of the file name. What counts as the file name depends on the
/// platform's separators, so nothing is promised of the result.
#[verifier::external_body]
fn path_extension(path: &str) -> (extension: Option<String>) {
    std::path::Path::new(path).extension().map(|e| e.to_string_lossy().into_owned())
}

/// The mode for a file with this extension: `Fwz` for `fwz` in either
/// case, else `Fwm`.
pub open spec fn mode_for(extension: Option<Seq<char>>) -> MigrationMode {
    match extension {
        Some(e) => if eq_ignoring_ascii_case(e, "fwz"@) {
            MigrationMode::Fwz
        } else {
            MigrationMode::Fwm
        },
        None => MigrationMode::Fwm,
    }
}

/// Computes `mode_for`.
pub fn mode_for_extension(extension: &Option<String>) -> (mode: MigrationMode)
    ensures
        mode == mode_for(view_of(*extension)),
{
    match extension {
        Some(e) => {
            if same_ignoring_ascii_case(&chars_of(e.as_str()), &chars_of("fwz")) {
                MigrationMode::Fwz
            } else {
                MigrationMode::Fwm
            }
        },
        None => MigrationMode::Fwm,
    }
}

/// The mode in which the file at `path` is read: the mode for the
/// extension that the platform sees in the path.
pub fn infer_mode(path: &str) -> (mode: MigrationMode)
    ensures
        mode == MigrationMode::Fwz || mode == MigrationMode::Fwm,
{
    mode_for_extension(&path_extension(path))
}

} // verus!
