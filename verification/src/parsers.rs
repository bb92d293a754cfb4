//! The key-value format of legacy metadata files.

use vstd::prelude::*;

use crate::text::{
    after_first, ascii_uppercase, before_first, chars_of, contains_token, cut_at_first, has_char,
    has_token, lines_of, pairs_of, same_chars, split_lines, string_of, texts_of, to_ascii_upper,
    trim_chars, trimmed, views_of, Pair,
};
use zip::result::ZipError;

verus! {

/// Why a metadata file was refused.
#[derive(Debug, PartialEq, Eq)]
pub enum FwmParseError {
    /// The line with this number, counted from one, has no `=`.
    InvalidLine { line: usize },
    /// This key, in capitals, stands on two lines.
    DuplicateKey(String),
}

/// An `FwmParseError` with its key as a sequence of characters.
pub enum FwmParseErrorView {
    InvalidLine { line: nat },
    DuplicateKey(Seq<char>),
}

impl View for FwmParseError {
    type V = FwmParseErrorView;

    open spec fn view(&self) -> FwmParseErrorView {
        match self {
            FwmParseError::InvalidLine { line } => FwmParseErrorView::InvalidLine {
                line: *line as nat,
            },
            FwmParseError::DuplicateKey(key) => FwmParseErrorView::DuplicateKey(key@),
        }
    }
}

/// Whether a pair of `entries` has this key.
pub open spec fn has_key(entries: Seq<Pair>, key: Seq<char>) -> bool {
    exists|i: int| 0 <= i < entries.len() && (#[trigger] entries[i]).0 == key
}

/// Whether a line is skipped: it is blank or begins with `#`, white space
/// around it aside.
pub open spec fn is_skipped(line: Seq<char>) -> bool {
    trimmed(line).len() == 0 || trimmed(line)[0] == '#'
}

/// The entries that the lines hold, in their order, or the first fault.
/// A line that counts is `key=value`; key and value lose the white space
/// around them, and the key is put in capitals.
pub open spec fn fwm_entries(lines: Seq<Seq<char>>) -> Result<Seq<Pair>, FwmParseErrorView>
    decreases lines.len(),
{
    if lines.len() == 0 {
        Ok(Seq::empty())
    } else {
        let line = trimmed(lines.last());
        let key = to_ascii_upper(trimmed(before_first(line, '=')));
        match fwm_entries(lines.drop_last()) {
            Err(fault) => Err(fault),
            Ok(entries) => if is_skipped(lines.last()) {
                Ok(entries)
            } else {
                match after_first(line, '=') {
                    None => Err(FwmParseErrorView::InvalidLine { line: lines.len() }),
                    Some(value) => if has_key(entries, key) {
                        Err(FwmParseErrorView::DuplicateKey(key))
                    } else {
                        Ok(entries.push((key, trimmed(value))))
                    },
                }
            },
        }
    }
}

/// Once a prefix of the lines has a fault, the whole text has it.
proof fn lemma_fault_stays(lines: Seq<Seq<char>>, n: int)
    requires
        0 <= n <= lines.len(),
        fwm_entries(lines.take(n)) is Err,
    ensures
        fwm_entries(lines) == fwm_entries(lines.take(n)),
    decreases lines.len() - n,
{
    if n < lines.len() {
        assert(lines.take(n + 1).drop_last() =~= lines.take(n));
        lemma_fault_stays(lines, n + 1);
    } else {
        assert(lines.take(n) =~= lines);
    }
}

/// Whether a pair of `entries` has this key.
fn holds_key(entries: &Vec<(String, String)>, key: &Vec<char>) -> (found: bool)
    ensures
        found == has_key(pairs_of(entries@), key@),
{
    let mut i: usize = 0;
    while i < entries.len()
        invariant
            i <= entries.len(),
            forall|k: int| 0 <= k < i ==> (#[trigger] pairs_of(entries@)[k]).0 != key@,
        decreases entries.len() - i,
    {
        if same_chars(&chars_of(entries[i].0.as_str()), key) {
            assert(pairs_of(entries@)[i as int].0 == key@);
            return true;
        }
        i = i + 1;
    }
    false
}

/// Reads a metadata file: one `key=value` per line, blank lines and lines
/// that begin with `#` aside. The entries come in the order of their lines,
/// keys in capitals. The first line without `=` or with a key that came
/// before fails the whole.
pub fn parse_fwm(input: &str) -> (parsed: Result<Vec<(String, String)>, FwmParseError>)
    ensures
        match (parsed, fwm_entries(lines_of(input@))) {
            (Ok(entries), Ok(wanted)) => pairs_of(entries@) == wanted,
            (Err(fault), Err(wanted)) => fault@ == wanted,
            _ => false,
        },
{
    let chars = chars_of(input);
    let lines = split_lines(&chars);
    let mut entries: Vec<(String, String)> = Vec::new();
    let mut index: usize = 0;
    assert(views_of(lines@).take(0) =~= Seq::<Seq<char>>::empty());
    assert(pairs_of(entries@) =~= Seq::<Pair>::empty());
    while index < lines.len()
        invariant
            index <= lines.len(),
            views_of(lines@) == lines_of(input@),
            fwm_entries(views_of(lines@).take(index as int)) == Ok::<
                Seq<Pair>,
                FwmParseErrorView,
            >(pairs_of(entries@)),
        decreases lines.len() - index,
    {
        let ghost shown = views_of(lines@).take(index + 1);
        let ghost before = pairs_of(entries@);
        assert(shown.drop_last() =~= views_of(lines@).take(index as int));
        assert(shown.last() == lines@[index as int]@);
        let line = trim_chars(&lines[index]);
        if !(line.len() == 0 || line[0] == '#') {
            let (head, tail) = cut_at_first(&line, '=');
            match tail {
                None => {
                    proof {
                        lemma_fault_stays(views_of(lines@), index + 1);
                    }
                    return Err(FwmParseError::InvalidLine { line: index + 1 });
                },
                Some(value) => {
                    let key = ascii_uppercase(&trim_chars(&head));
                    if holds_key(&entries, &key) {
                        proof {
                            lemma_fault_stays(views_of(lines@), index + 1);
                        }
                        return Err(FwmParseError::DuplicateKey(string_of(&key)));
                    }
                    let value = trim_chars(&value);
                    entries.push((string_of(&key), string_of(&value)));
                    assert(pairs_of(entries@) =~= before.push((key@, value@)));
                },
            }
        }
        index = index + 1;
    }
    assert(views_of(lines@).take(lines.len() as int) =~= views_of(lines@));
    Ok(entries)
}

/// `zip::result::ZipError`: why an archive could not be read. It is passed
/// on as it is.
#[verifier::external_type_specification]
#[verifier::external_body]
pub struct ExZipError(ZipError);

/// Why an archive was refused.
#[derive(Debug)]
pub enum FwzValidationError {
    /// The archive could not be read.
    Zip(ZipError),
    /// An entry has this name, which could lead out of the place where the
    /// archive is unpacked.
    PathTraversal(String),
}

/// An `FwzValidationError` without what the outside fault holds, and
/// with its name as a sequence of characters.
pub enum FwzFaultView {
    Zip,
    PathTraversal(Seq<char>),
}

impl View for FwzValidationError {
    type V = FwzFaultView;

    open spec fn view(&self) -> FwzFaultView {
        match self {
            FwzValidationError::Zip(_) => FwzFaultView::Zip,
            FwzValidationError::PathTraversal(name) => FwzFaultView::PathTraversal(name@),
        }
    }
}

/// The number of entries in the directory of the archive that the bytes
/// hold; `None` where the bytes are no archive that can be read.
pub uninterp spec fn entry_count_of(bytes: Seq<u8>) -> Option<nat>;

/// `zip::ZipArchive::new` on the bytes, and `ZipArchive::len`. The number
/// is a function of the bytes alone; the contract only names it.
#[verifier::external_body]
pub(crate) fn entry_count(bytes: &[u8]) -> (count: Result<usize, ZipError>)
    ensures
        match (count, entry_count_of(bytes@)) {
            (Ok(n), Some(wanted)) => n == wanted,
            (Err(_), None) => true,
            _ => false,
        },
{
    Ok(zip::ZipArchive::new(std::io::Cursor::new(bytes))?.len())
}

/// The name of the entry with this index in the archive that the bytes
/// hold; `None` where there is no such archive or entry, or the entry
/// cannot be opened: its method is not supported, or it is encrypted and
/// the empty password does not open it.
pub uninterp spec fn entry_name_of(bytes: Seq<u8>, index: nat) -> Option<Seq<char>>;

/// `zip::ZipArchive::new` on the bytes, `by_index_decrypt` with the empty
/// password, which hands a refused password back as a value, and
/// `ZipFile::name`. A refused password becomes the fault that the archive
/// needs a password. The name is a function of the bytes and the index
/// alone; the contract only names it.
#[verifier::external_body]
pub(crate) fn entry_name(bytes: &[u8], index: usize) -> (name: Result<String, ZipError>)
    ensures
        match (name, entry_name_of(bytes@, index as nat)) {
            (Ok(n), Some(wanted)) => n@ == wanted,
            (Err(_), None) => true,
            _ => false,
        },
{
    let mut archive = zip::ZipArchive::new(std::io::Cursor::new(bytes))?;
    let entry = archive.by_index_decrypt(index, b"")?.map_err(
        |_| ZipError::UnsupportedArchive(ZipError::PASSWORD_REQUIRED),
    )?;
    Ok(entry.name().to_string())
}

/// Whether the name of an entry is unsafe: it begins with `/`, or holds
/// `..`, a NUL, a colon or a carriage return.
pub open spec fn is_unsafe_name(name: Seq<char>) -> bool {
    ||| (name.len() > 0 && name[0] == '/')
    ||| contains_token(name, seq!['.', '.'])
    ||| name.contains('\0')
    ||| name.contains(':')
    ||| name.contains('\r')
}

/// The first unsafe name among `names`.
pub open spec fn first_unsafe(names: Seq<Seq<char>>) -> Option<Seq<char>>
    decreases names.len(),
{
    if names.len() == 0 {
        None
    } else if is_unsafe_name(names[0]) {
        Some(names[0])
    } else {
        first_unsafe(names.skip(1))
    }
}

/// Decides `is_unsafe_name`.
pub fn unsafe_name(name: &str) -> (bad: bool)
    ensures
        bad == is_unsafe_name(name@),
{
    let chars = chars_of(name);
    let dots = vec!['.', '.'];
    assert(dots@ =~= seq!['.', '.']);
    (chars.len() > 0 && chars[0] == '/') || has_token(&chars, &dots) || has_char(&chars, '\0')
        || has_char(&chars, ':') || has_char(&chars, '\r')
}

/// Accepts the names of the entries of an archive, or refuses them with
/// the first that is unsafe.
pub fn validate_entry_names(names: Vec<String>) -> (checked: Result<Vec<String>, FwzValidationError>)
    ensures
        match first_unsafe(texts_of(names@)) {
            Some(bad) => checked matches Err(FwzValidationError::PathTraversal(name)) && name@
                == bad,
            None => checked matches Ok(accepted) && accepted == names,
        },
{
    let mut i: usize = 0;
    assert(texts_of(names@).skip(0) =~= texts_of(names@));
    while i < names.len()
        invariant
            i <= names.len(),
            first_unsafe(texts_of(names@).skip(i as int)) == first_unsafe(texts_of(names@)),
        decreases names.len() - i,
    {
        assert(texts_of(names@).skip(i as int).skip(1) =~= texts_of(names@).skip(i + 1));
        assert(texts_of(names@).skip(i as int)[0] == names@[i as int]@);
        if unsafe_name(names[i].as_str()) {
            return Err(FwzValidationError::PathTraversal(names[i].clone()));
        }
        i = i + 1;
    }
    Ok(names)
}

/// The names of the first `n` entries of an archive, or the first fault
/// among them: an entry that cannot be opened, or one with an unsafe name.
/// Each entry is opened and its name checked before the next is looked at.
pub open spec fn checked_names(bytes: Seq<u8>, n: nat) -> Result<Seq<Seq<char>>, FwzFaultView>
    decreases n,
{
    if n == 0 {
        Ok(Seq::empty())
    } else {
        match checked_names(bytes, (n - 1) as nat) {
            Err(fault) => Err(fault),
            Ok(names) => match entry_name_of(bytes, (n - 1) as nat) {
                None => Err(FwzFaultView::Zip),
                Some(name) => if is_unsafe_name(name) {
                    Err(FwzFaultView::PathTraversal(name))
                } else {
                    Ok(names.push(name))
                },
            },
        }
    }
}

/// What validating the archive that the bytes hold gives: `Zip` where the
/// bytes are no archive that can be read, else what its entries give.
pub open spec fn validated(bytes: Seq<u8>) -> Result<Seq<Seq<char>>, FwzFaultView> {
    match entry_count_of(bytes) {
        None => Err(FwzFaultView::Zip),
        Some(count) => checked_names(bytes, count),
    }
}

/// Once the first `n` entries have a fault, the whole archive has it.
proof fn lemma_names_fault(bytes: Seq<u8>, n: nat, count: nat)
    requires
        n <= count,
        checked_names(bytes, n) is Err,
    ensures
        checked_names(bytes, count) == checked_names(bytes, n),
    decreases count - n,
{
    if n < count {
        lemma_names_fault(bytes, n + 1, count);
    }
}

/// Goes through the entries of an archive in the order of its directory
/// and accepts their names. The first entry that cannot be opened fails
/// with `Zip`, the first unsafe name with `PathTraversal`, whichever comes
/// first; else the names come back in their order.
pub fn validate_fwz_archive(bytes: &[u8]) -> (checked: Result<Vec<String>, FwzValidationError>)
    ensures
        match (checked, validated(bytes@)) {
            (Ok(names), Ok(wanted)) => texts_of(names@) == wanted,
            (Err(fault), Err(wanted)) => fault@ == wanted,
            _ => false,
        },
{
    let count = match entry_count(bytes) {
        Ok(count) => count,
        Err(fault) => {
            return Err(FwzValidationError::Zip(fault));
        },
    };
    let mut names: Vec<String> = Vec::new();
    let mut index: usize = 0;
    assert(texts_of(names@) =~= Seq::<Seq<char>>::empty());
    while index < count
        invariant
            index <= count,
            entry_count_of(bytes@) == Some(count as nat),
            checked_names(bytes@, index as nat) == Ok::<Seq<Seq<char>>, FwzFaultView>(
                texts_of(names@),
            ),
        decreases count - index,
    {
        let ghost before = texts_of(names@);
        let name = match entry_name(bytes, index) {
            Ok(name) => name,
            Err(fault) => {
                proof {
                    lemma_names_fault(bytes@, (index + 1) as nat, count as nat);
                }
                return Err(FwzValidationError::Zip(fault));
            },
        };
        if unsafe_name(name.as_str()) {
            proof {
                lemma_names_fault(bytes@, (index + 1) as nat, count as nat);
            }
            return Err(FwzValidationError::PathTraversal(name));
        }
        names.push(name);
        assert(texts_of(names@) =~= before.push(name@));
        index = index + 1;
    }
    Ok(names)
}

} // verus!
