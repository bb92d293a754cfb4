//! What holds of rendering an address and inverting the result.
//!
//! Inversion is lossy: it does not give back the address that was rendered.
//! What it keeps is the token of each field, provided the token is a chain of
//! words, so that rendering the inverted address gives the same mailbox
//! address again.

use vstd::prelude::*;

use crate::gateway::address_map::{
    address_of_captures, capitalized, capitalized_words, inversion_of, placeholder_match,
    rendered, rendering_of, restored, rule_pattern, sanitized, sanitized_char, sanitized_chars,
    CapturesView,
};
use crate::models::AddressView;
use crate::text::{
    all_ascii, first_index, is_ascii_char, joined, lemma_first_index_bounds, split_on,
};

verus! {

/// Whether `c` is an ASCII lower-case letter or a digit.
pub open spec fn is_word_char(c: char) -> bool {
    ('a' <= c && c <= 'z') || ('0' <= c && c <= '9')
}

/// Whether `w` is a word: one or more lower-case letters and digits.
pub open spec fn is_word(w: Seq<char>) -> bool {
    &&& w.len() > 0
    &&& forall|i: int| 0 <= i < w.len() ==> is_word_char(#[trigger] w[i])
}

/// Whether `token` is a chain of words: words with one hyphen between
/// neighbours, and no hyphen at either end.
pub open spec fn is_word_chain(token: Seq<char>) -> bool {
    forall|k: int| 0 <= k < split_on(token, '-').len() ==> is_word(#[trigger] split_on(token, '-')[k])
}

/// Whether `field` is plain: one or more ASCII letters, digits and spaces,
/// with no space at either end and no two spaces in a row.
pub open spec fn is_plain_field(field: Seq<char>) -> bool {
    &&& field.len() > 0
    &&& forall|i: int|
        0 <= i < field.len() ==> is_ascii_char(#[trigger] field[i]) && (field[i] == ' '
            || is_word_char(sanitized_char(field[i])))
    &&& field[0] != ' '
    &&& field.last() != ' '
    &&& forall|i: int| 0 <= i < field.len() - 1 ==> !(#[trigger] field[i] == ' ' && field[i + 1] == ' ')
}

proof fn lemma_filter_keeps_all<A>(s: Seq<A>, pred: spec_fn(A) -> bool)
    requires
        forall|i: int| 0 <= i < s.len() ==> pred(#[trigger] s[i]),
    ensures
        s.filter(pred) == s,
    decreases s.len(),
{
    reveal(Seq::filter);
    if s.len() > 0 {
        lemma_filter_keeps_all(s.drop_last(), pred);
        assert(s.drop_last().push(s.last()) =~= s);
    }
}

proof fn lemma_sanitized_chars_add(a: Seq<char>, b: Seq<char>)
    ensures
        sanitized_chars(a + b) == sanitized_chars(a) + sanitized_chars(b),
{
    let keep = |c: char| is_ascii_char(c);
    Seq::filter_distributes_over_add(a, b, keep);
    assert(sanitized_chars(a + b) =~= sanitized_chars(a) + sanitized_chars(b));
}

proof fn lemma_sanitized_chars_ascii(s: Seq<char>)
    requires
        all_ascii(s),
    ensures
        sanitized_chars(s) == s.map_values(|c: char| sanitized_char(c)),
        sanitized(s) == sanitized_chars(s),
{
    lemma_filter_keeps_all(s, |c: char| is_ascii_char(c));
}

proof fn lemma_joined_front(first: Seq<char>, rest: Seq<Seq<char>>, sep: Seq<char>)
    requires
        rest.len() > 0,
    ensures
        joined(seq![first] + rest, sep) == first + sep + joined(rest, sep),
    decreases rest.len(),
{
    let all = seq![first] + rest;
    assert(all.last() == rest.last());
    assert(all.drop_last() =~= seq![first] + rest.drop_last());
    if rest.len() == 1 {
        assert(all.drop_last() =~= seq![first]);
        assert(joined(all.drop_last(), sep) == first);
        assert(joined(rest, sep) == rest[0]);
    } else {
        lemma_joined_front(first, rest.drop_last(), sep);
        assert(joined(all, sep) =~= first + sep + joined(rest, sep));
    }
}

/// Joining the pieces of a split with the separator gives the text back.
pub proof fn lemma_join_split(s: Seq<char>, sep: char)
    ensures
        split_on(s, sep).len() > 0,
        joined(split_on(s, sep), seq![sep]) == s,
    decreases s.len(),
{
    lemma_first_index_bounds(s, sep);
    let i = first_index(s, sep);
    if i < s.len() {
        lemma_join_split(s.skip(i + 1), sep);
        lemma_joined_front(s.take(i), split_on(s.skip(i + 1), sep), seq![sep]);
        assert(s.take(i) + seq![sep] + s.skip(i + 1) =~= s);
    }
}

proof fn lemma_sanitized_chars_joined(pieces: Seq<Seq<char>>, sep: Seq<char>)
    ensures
        sanitized_chars(joined(pieces, sep)) == joined(
            pieces.map_values(|p: Seq<char>| sanitized_chars(p)),
            sanitized_chars(sep),
        ),
    decreases pieces.len(),
{
    let clean = pieces.map_values(|p: Seq<char>| sanitized_chars(p));
    if pieces.len() == 0 {
        reveal(Seq::filter);
        assert(sanitized_chars(Seq::<char>::empty()) =~= Seq::<char>::empty());
    } else if pieces.len() == 1 {
    } else {
        lemma_sanitized_chars_joined(pieces.drop_last(), sep);
        assert(clean.drop_last() =~= pieces.drop_last().map_values(
            |p: Seq<char>| sanitized_chars(p),
        ));
        lemma_sanitized_chars_add(joined(pieces.drop_last(), sep) + sep, pieces.last());
        lemma_sanitized_chars_add(joined(pieces.drop_last(), sep), sep);
    }
}

proof fn lemma_word_survives(w: Seq<char>)
    requires
        is_word(w),
    ensures
        all_ascii(capitalized(w)),
        sanitized_chars(capitalized(w)) == w,
{
    let cap = capitalized(w);
    assert forall|i: int| 0 <= i < cap.len() implies is_ascii_char(#[trigger] cap[i]) by {
        if i > 0 {
            assert(cap[i] == w[i]);
        } else {
            assert(is_word_char(w[0]));
        }
    }
    lemma_sanitized_chars_ascii(cap);
    assert forall|i: int| 0 <= i < w.len() implies sanitized_char(cap[i]) == w[i] by {
        assert(is_word_char(w[i]));
        if i > 0 {
            assert(cap[i] == w[i]);
        }
    }
    assert(sanitized_chars(cap) =~= w);
}

proof fn lemma_joined_ascii(pieces: Seq<Seq<char>>, sep: Seq<char>)
    requires
        all_ascii(sep),
        forall|k: int| 0 <= k < pieces.len() ==> all_ascii(#[trigger] pieces[k]),
    ensures
        all_ascii(joined(pieces, sep)),
    decreases pieces.len(),
{
    if pieces.len() > 1 {
        lemma_joined_ascii(pieces.drop_last(), sep);
        assert(all_ascii(pieces.last()));
    } else if pieces.len() == 1 {
        assert(all_ascii(pieces[0]));
    }
}

/// Restoring a chain of words and sanitizing the result gives the chain
/// back.
pub proof fn lemma_sanitize_restored(token: Seq<char>)
    requires
        is_word_chain(token),
    ensures
        all_ascii(restored(token)),
        sanitized(restored(token)) == token,
{
    let words = split_on(token, '-');
    let keep = |w: Seq<char>| w.len() > 0;
    assert forall|k: int| 0 <= k < words.len() implies keep(#[trigger] words[k]) by {
        assert(is_word(words[k]));
    }
    lemma_filter_keeps_all(words, keep);
    let capitals = words.map_values(|w: Seq<char>| capitalized(w));
    assert(capitalized_words(words) == capitals);
    let space = seq![' '];
    assert(is_ascii_char(space[0]));
    assert forall|k: int| 0 <= k < capitals.len() implies all_ascii(#[trigger] capitals[k]) by {
        assert(is_word(words[k]));
        lemma_word_survives(words[k]);
    }
    lemma_joined_ascii(capitals, space);
    lemma_sanitized_chars_ascii(restored(token));
    lemma_sanitized_chars_joined(capitals, space);
    lemma_sanitized_chars_ascii(space);
    assert(sanitized_chars(space) =~= seq!['-']);
    let clean = capitals.map_values(|p: Seq<char>| sanitized_chars(p));
    assert(clean =~= words) by {
        assert forall|k: int| 0 <= k < words.len() implies clean[k] == words[k] by {
            assert(is_word(words[k]));
            lemma_word_survives(words[k]);
        }
    }
    lemma_join_split(token, '-');
}

proof fn lemma_split_into_words(s: Seq<char>)
    requires
        s.len() > 0,
        s[0] != '-',
        s.last() != '-',
        forall|i: int| 0 <= i < s.len() ==> #[trigger] s[i] == '-' || is_word_char(s[i]),
        forall|i: int| 0 <= i < s.len() - 1 ==> !(#[trigger] s[i] == '-' && s[i + 1] == '-'),
    ensures
        is_word_chain(s),
    decreases s.len(),
{
    lemma_first_index_bounds(s, '-');
    let i = first_index(s, '-');
    let words = split_on(s, '-');
    if i < s.len() {
        let rest = s.skip(i + 1);
        assert(i < s.len() - 1);
        assert(rest[0] == s[i + 1]);
        assert(!(s[i] == '-' && s[i + 1] == '-'));
        assert(rest.last() == s.last());
        assert forall|j: int| 0 <= j < rest.len() implies #[trigger] rest[j] == '-' || is_word_char(
            rest[j],
        ) by {
            assert(rest[j] == s[j + i + 1]);
        }
        assert forall|j: int| 0 <= j < rest.len() - 1 implies !(#[trigger] rest[j] == '-' && rest[j
            + 1] == '-') by {
            assert(rest[j] == s[j + i + 1]);
            assert(rest[j + 1] == s[j + i + 1 + 1]);
        }
        lemma_split_into_words(rest);
        let head = s.take(i);
        assert(is_word(head)) by {
            assert forall|j: int| 0 <= j < head.len() implies is_word_char(#[trigger] head[j]) by {
                assert(head[j] == s[j]);
            }
        }
        assert forall|k: int| 0 <= k < words.len() implies is_word(#[trigger] words[k]) by {
            if k > 0 {
                assert(words[k] == split_on(rest, '-')[k - 1]);
            }
        }
    } else {
        assert(is_word(s)) by {
            assert forall|j: int| 0 <= j < s.len() implies is_word_char(#[trigger] s[j]) by {
                assert(s[j] == '-' || is_word_char(s[j]));
            }
        }
    }
}

/// The token of a plain field is a chain of words.
pub proof fn lemma_plain_field_token(field: Seq<char>)
    requires
        is_plain_field(field),
    ensures
        is_word_chain(sanitized(field)),
{
    assert(all_ascii(field));
    lemma_sanitized_chars_ascii(field);
    let token = sanitized(field);
    assert forall|i: int| 0 <= i < token.len() implies #[trigger] token[i] == '-' || is_word_char(
        token[i],
    ) by {
        assert(is_ascii_char(field[i]));
    }
    assert forall|i: int| 0 <= i < token.len() implies (#[trigger] token[i] == '-' <==> field[i]
        == ' ') by {
        assert(is_ascii_char(field[i]));
    }
    assert forall|i: int| 0 <= i < token.len() - 1 implies !(#[trigger] token[i] == '-' && token[i
        + 1] == '-') by {
        assert(token[i + 1] == '-' <==> field[i + 1] == ' ');
        assert(!(field[i] == ' ' && field[i + 1] == ' '));
    }
    assert(token.last() == token[token.len() - 1]);
    lemma_split_into_words(token);
}

/// Rendering an address that was rebuilt from captures gives back the
/// mailbox address that the captures were taken from, where the template
/// has all four placeholders, every capture is a chain of words, `{G}` and
/// `{S}` captured the same, and the mailbox address is the template filled
/// with the captures.
pub proof fn lemma_render_inverted(template: Seq<char>, captures: CapturesView, email: Seq<char>)
    requires
        captures.given is Some,
        captures.surname is Some,
        captures.organization is Some,
        captures.country is Some,
        captures.given == captures.surname,
        is_word_chain(captures.surname->0),
        is_word_chain(captures.organization->0),
        is_word_chain(captures.country->0),
        rendered(
            template,
            captures.given->0,
            captures.surname->0,
            captures.organization->0,
            captures.country->0,
        ) == Some(email),
    ensures
        rendering_of(template, address_of_captures(captures)) == Some(email),
{
    lemma_sanitize_restored(captures.surname->0);
    lemma_sanitize_restored(captures.organization->0);
    lemma_sanitize_restored(captures.country->0);
}

/// Invert, then apply. Where the match of a rule's pattern on a mailbox
/// address captures all four placeholders, the captures are chains of
/// words that fill the template to that mailbox address, and `{G}` and
/// `{S}` captured the same, the rule inverts the mailbox address, and
/// renders the address that it gave as the same mailbox address.
pub proof fn lemma_invert_then_apply(template: Seq<char>, email: Seq<char>, captures: CapturesView)
    requires
        placeholder_match(rule_pattern(template), email) == Some(captures),
        captures.given is Some,
        captures.surname is Some,
        captures.organization is Some,
        captures.country is Some,
        captures.given == captures.surname,
        is_word_chain(captures.surname->0),
        is_word_chain(captures.organization->0),
        is_word_chain(captures.country->0),
        rendered(
            template,
            captures.given->0,
            captures.surname->0,
            captures.organization->0,
            captures.country->0,
        ) == Some(email),
    ensures
        inversion_of(template, email) matches Some(back) && rendering_of(template, back) == Some(
            email,
        ),
{
    lemma_render_inverted(template, captures, email);
}

/// Apply, invert, apply. Where a rule renders an address whose fields have
/// chains of words as their tokens, and the match of the rule's pattern on
/// the rendered mailbox address captures these tokens, inverting gives an
/// address with the same tokens (the fields agree but for case and the
/// splitting into words), and rendering that address gives the same mailbox
/// address again.
pub proof fn lemma_apply_invert_apply(template: Seq<char>, address: AddressView, email: Seq<char>)
    requires
        rendering_of(template, address) == Some(email),
        is_word_chain(sanitized(address.country)),
        is_word_chain(sanitized(address.organization)),
        is_word_chain(sanitized(address.surname)),
        placeholder_match(rule_pattern(template), email) == Some(
            CapturesView {
                given: Some(sanitized(address.surname)),
                surname: Some(sanitized(address.surname)),
                organization: Some(sanitized(address.organization)),
                country: Some(sanitized(address.country)),
            },
        ),
    ensures
        inversion_of(template, email) matches Some(back) && {
            &&& sanitized(back.country) == sanitized(address.country)
            &&& sanitized(back.organization) == sanitized(address.organization)
            &&& sanitized(back.surname) == sanitized(address.surname)
            &&& rendering_of(template, back) == Some(email)
        },
{
    lemma_sanitize_restored(sanitized(address.surname));
    lemma_sanitize_restored(sanitized(address.organization));
    lemma_sanitize_restored(sanitized(address.country));
}

/// Apply, invert, apply for plain fields. Where every field of the address
/// is made of ASCII letters, digits and single spaces between them, and the
/// match of the rule's pattern on the rendered mailbox address captures the
/// tokens of the fields, inverting gives an address with the same tokens,
/// and rendering it gives the same mailbox address again.
pub proof fn lemma_plain_fields_round_trip(
    template: Seq<char>,
    address: AddressView,
    email: Seq<char>,
)
    requires
        rendering_of(template, address) == Some(email),
        is_plain_field(address.country),
        is_plain_field(address.organization),
        is_plain_field(address.surname),
        placeholder_match(rule_pattern(template), email) == Some(
            CapturesView {
                given: Some(sanitized(address.surname)),
                surname: Some(sanitized(address.surname)),
                organization: Some(sanitized(address.organization)),
                country: Some(sanitized(address.country)),
            },
        ),
    ensures
        inversion_of(template, email) matches Some(back) && {
            &&& sanitized(back.country) == sanitized(address.country)
            &&& sanitized(back.organization) == sanitized(address.organization)
            &&& sanitized(back.surname) == sanitized(address.surname)
            &&& rendering_of(template, back) == Some(email)
        },
{
    lemma_plain_field_token(address.country);
    lemma_plain_field_token(address.organization);
    lemma_plain_field_token(address.surname);
    lemma_apply_invert_apply(template, address, email);
}

} // verus!
