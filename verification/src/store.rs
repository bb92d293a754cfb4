//! What the encrypted store is opened with.

use vstd::prelude::*;

use crate::text::{
    append_chars, chars_of, has_prefix, is_blank, replace_all, replace_token, slice_of,
    starts_with, string_of, trim_chars, trimmed, view_of,
};

verus! {

/// The key to open the store with: the given one without the white space
/// around it; none where it is blank.
pub open spec fn usable(key: Option<Seq<char>>) -> Option<Seq<char>> {
    match key {
        Some(k) => if is_blank(k) {
            None
        } else {
            Some(trimmed(k))
        },
        None => None,
    }
}

/// Computes `usable`.
pub fn usable_key(key: Option<&str>) -> (out: Option<String>)
    ensures
        view_of(out) == usable(
            match key {
                Some(k) => Some(k@),
                None => None,
            },
        ),
{
    match key {
        Some(k) => {
            let bare = trim_chars(&chars_of(k));
            if bare.len() == 0 {
                None
            } else {
                Some(string_of(&bare))
            }
        },
        None => None,
    }
}

/// The statement that hands the key to the store: the key stands between
/// apostrophes, and each apostrophe in it is doubled.
pub open spec fn pragma_text(key: Seq<char>) -> Seq<char> {
    "PRAGMA key = '"@ + replace_all(key, seq!['\''], seq!['\'', '\'']) + seq!['\'', ';']
}

/// Computes `pragma_text`.
pub fn key_pragma(key: &str) -> (statement: String)
    ensures
        statement@ == pragma_text(key@),
{
    let apostrophe = vec!['\''];
    let doubled = vec!['\'', '\''];
    assert(apostrophe@ =~= seq!['\'']);
    assert(doubled@ =~= seq!['\'', '\'']);
    let escaped = replace_token(&chars_of(key), &apostrophe, &doubled);
    let mut statement = chars_of("PRAGMA key = '");
    append_chars(&mut statement, &escaped);
    statement.push('\'');
    statement.push(';');
    assert(statement@ =~= pragma_text(key@));
    string_of(&statement)
}

/// The file that a store URL names: what follows `sqlite://`, unless that
/// begins with a colon, as the name of a store in memory does.
pub open spec fn store_file(url: Seq<char>) -> Option<Seq<char>> {
    if starts_with(url, "sqlite://"@) {
        let path = url.skip("sqlite://"@.len() as int);
        if path.len() > 0 && path[0] == ':' {
            None
        } else {
            Some(path)
        }
    } else {
        None
    }
}

/// Computes `store_file`.
pub fn database_file(url: &str) -> (file: Option<String>)
    ensures
        view_of(file) == store_file(url@),
{
    let chars = chars_of(url);
    let scheme = chars_of("sqlite://");
    if !has_prefix(&chars, &scheme) {
        return None;
    }
    let path = slice_of(&chars, scheme.len(), chars.len());
    assert(chars@.subrange(scheme.len() as int, chars.len() as int) =~= chars@.skip(
        scheme.len() as int,
    ));
    if path.len() > 0 && path[0] == ':' {
        None
    } else {
        Some(string_of(&path))
    }
}

} // verus!
