//! Translation between O/R addresses and RFC822 mailbox addresses.
//!
//! A rule is a template with the placeholders `{G}`, `{S}`, `{O}` and `{C}`.
//! Rendering fills the placeholders with sanitized address fields; inversion
//! matches a mailbox address against the template and rebuilds the fields.

use unicode_normalization::UnicodeNormalization;
use vstd::prelude::*;

use crate::models::{Address, AddressView};
use crate::text::{
    all_ascii, append_chars, ascii_lower, ascii_upper, ascii_uppercase, chars_of, contains_token, find_char,
    first_index, has_char, has_token, is_ascii_char, join_chars, joined, lower_char, lowercase_of, replace_all,
    replace_token, slice_of, split_chars, split_on, string_of, to_ascii_upper, to_lowercase,
    trim_chars, trimmed, upper_char, view_of, views_of,
};

verus! {

/// Why an address could not be translated.
#[derive(Debug, PartialEq, Eq)]
pub enum MappingError {
    /// No alias and no rule translates the address.
    NoMatch,
    /// An alias names an O/R string that lacks a country or a surname.
    AliasMissing,
}

/// The compatibility decomposition (NFKD) of a text that is not all ASCII.
pub uninterp spec fn nfkd_of(s: Seq<char>) -> Seq<char>;

/// The compatibility decomposition of `s`: an ASCII text is its own
/// decomposition, and any other text has the one named by `nfkd_of`.
pub open spec fn decomposed(s: Seq<char>) -> Seq<char> {
    if all_ascii(s) {
        s
    } else {
        nfkd_of(s)
    }
}

/// `UnicodeNormalization::nfkd` of the crate `unicode-normalization`,
/// collected into a string. The decomposition never changes a 7-bit ASCII
/// character and such characters have combining class zero, so an ASCII text
/// comes back unchanged; for any other text the contract only names the
/// result.
#[verifier::external_body]
fn nfkd(value: &str) -> (out: String)
    ensures
        all_ascii(value@) ==> out@ == value@,
        !all_ascii(value@) ==> out@ == nfkd_of(value@),
{
    value.nfkd().collect::<String>()
}

/// What sanitizing makes of one ASCII character: letters in lower case and
/// digits stay, anything else becomes a hyphen.
pub open spec fn sanitized_char(c: char) -> char {
    let lower = ascii_lower(c);
    if ('a' <= lower && lower <= 'z') || ('0' <= lower && lower <= '9') {
        lower
    } else {
        '-'
    }
}

/// What sanitizing makes of a decomposed text: the non-ASCII characters are
/// dropped and each remaining one is replaced by its `sanitized_char`.
pub open spec fn sanitized_chars(d: Seq<char>) -> Seq<char> {
    d.filter(|c: char| is_ascii_char(c)).map_values(|c: char| sanitized_char(c))
}

/// The token that an address field turns into inside a mailbox address.
pub open spec fn sanitized(value: Seq<char>) -> Seq<char> {
    sanitized_chars(decomposed(value))
}

/// The text of the placeholder named `p`: `{p}`.
pub open spec fn token_of(p: char) -> Seq<char> {
    seq!['{', p, '}']
}

/// The address field that the placeholder `p` stands for.
pub open spec fn field_of(p: char, address: AddressView) -> Option<Seq<char>> {
    if p == 'C' {
        Some(address.country)
    } else if p == 'O' {
        Some(address.organization)
    } else if p == 'S' || p == 'G' {
        Some(address.surname)
    } else {
        None
    }
}

/// `s` with the placeholder `p`, where it appears, replaced by `value`.
pub open spec fn substituted(s: Seq<char>, p: char, value: Seq<char>) -> Seq<char> {
    if contains_token(s, token_of(p)) {
        replace_all(s, token_of(p), value)
    } else {
        s
    }
}

/// The template with `{G}`, `{S}`, `{O}` and `{C}` replaced, in this order,
/// by the given values.
pub open spec fn filled(
    template: Seq<char>,
    given: Seq<char>,
    surname: Seq<char>,
    organization: Seq<char>,
    country: Seq<char>,
) -> Seq<char> {
    substituted(
        substituted(substituted(substituted(template, 'G', given), 'S', surname), 'O', organization),
        'C',
        country,
    )
}

/// The filled template, unless an opening brace is left in it.
pub open spec fn rendered(
    template: Seq<char>,
    given: Seq<char>,
    surname: Seq<char>,
    organization: Seq<char>,
    country: Seq<char>,
) -> Option<Seq<char>> {
    let text = filled(template, given, surname, organization, country);
    if text.contains('{') {
        None
    } else {
        Some(text)
    }
}

/// What a rule with this template renders the address to.
pub open spec fn rendering_of(template: Seq<char>, address: AddressView) -> Option<Seq<char>> {
    rendered(
        template,
        sanitized(address.surname),
        sanitized(address.surname),
        sanitized(address.organization),
        sanitized(address.country),
    )
}

/// A reversible template that renders one O/R address shape as one RFC822
/// address shape.
#[derive(Clone, Debug, PartialEq, Eq)]
pub struct AddressMappingRule {
    template: String,
}

impl View for AddressMappingRule {
    type V = Seq<char>;

    /// The template text.
    closed spec fn view(&self) -> Seq<char> {
        self.template@
    }
}

impl AddressMappingRule {
    /// The rule with this template.
    pub fn new(template: &str) -> (rule: Self)
        ensures
            rule@ == template@,
    {
        AddressMappingRule { template: String::from_str(template) }
    }

    /// The template text.
    pub fn template(&self) -> (text: &str)
        ensures
            text@ == self@,
    {
        self.template.as_str()
    }

    /// The field of `address` that `placeholder` stands for.
    pub fn placeholder_value(&self, placeholder: char, address: &Address) -> (value: Option<String>)
        ensures
            match (value, field_of(placeholder, address@)) {
                (Some(v), Some(f)) => v@ == f,
                (None, None) => true,
                _ => false,
            },
    {
        if placeholder == 'C' {
            Some(address.country.clone())
        } else if placeholder == 'O' {
            Some(address.organization.clone())
        } else if placeholder == 'S' || placeholder == 'G' {
            Some(address.surname.clone())
        } else {
            None
        }
    }

    /// Turns an address field into a mailbox token: decompose (NFKD), drop
    /// what is not ASCII, lower the case, and put a hyphen for every
    /// character that is neither a letter nor a digit.
    pub fn sanitize(value: &str) -> (token: String)
        ensures
            token@ == sanitized(value@),
    {
        let decomposition = nfkd(value);
        let chars = chars_of(decomposition.as_str());
        let mut out: Vec<char> = Vec::new();
        let mut i: usize = 0;
        while i < chars.len()
            invariant
                i <= chars.len(),
                out@ == sanitized_chars(chars@.take(i as int)),
            decreases chars.len() - i,
        {
            let c = chars[i];
            let ghost before = chars@.take(i as int);
            if c <= '\x7f' {
                let lower = lower_char(c);
                if (lower >= 'a' && lower <= 'z') || (lower >= '0' && lower <= '9') {
                    out.push(lower);
                } else {
                    out.push('-');
                }
            }
            i = i + 1;
            proof {
                let now = chars@.take(i as int);
                assert(now.drop_last() =~= before);
                reveal(Seq::filter);
                let keep = |c: char| is_ascii_char(c);
                assert(now.filter(keep) =~= if keep(c) {
                    before.filter(keep).push(c)
                } else {
                    before.filter(keep)
                });
                assert(out@ =~= sanitized_chars(now));
            }
        }
        assert(chars@.take(chars.len() as int) =~= chars@);
        string_of(&out)
    }

    /// `text` with `placeholder`, where it appears, replaced by the sanitized
    /// field that it stands for.
    fn substitute(&self, text: Vec<char>, placeholder: char, address: &Address) -> (out: Vec<char>)
        requires
            field_of(placeholder, address@) is Some,
        ensures
            out@ == substituted(text@, placeholder, sanitized(field_of(placeholder, address@)->0)),
    {
        let token = vec!['{', placeholder, '}'];
        assert(token@ =~= token_of(placeholder));
        if !has_token(&text, &token) {
            return text;
        }
        match self.placeholder_value(placeholder, address) {
            Some(value) => {
                let clean = Self::sanitize(value.as_str());
                let filling = chars_of(clean.as_str());
                replace_token(&text, &token, &filling)
            },
            None => text,
        }
    }

    /// Renders `address` with this rule: `{G}`, `{S}`, `{O}` and `{C}` are
    /// replaced in this order, each by its sanitized field. `None` where an
    /// opening brace is left after that.
    pub fn apply(&self, address: &Address) -> (email: Option<String>)
        ensures
            match (email, rendering_of(self@, address@)) {
                (Some(e), Some(wanted)) => e@ == wanted,
                (None, None) => true,
                _ => false,
            },
    {
        let text = chars_of(self.template.as_str());
        let text = self.substitute(text, 'G', address);
        let text = self.substitute(text, 'S', address);
        let text = self.substitute(text, 'O', address);
        let text = self.substitute(text, 'C', address);
        if has_char(&text, '{') {
            return None;
        }
        Some(string_of(&text))
    }

    /// The pattern that mailbox addresses of this rule match: the template
    /// with its meta characters escaped, each placeholder replaced by a named
    /// group of one or more of `a-z`, `0-9` and `-`, anchored at both ends.
    pub fn as_regex(&self) -> (pattern: String)
        ensures
            pattern@ == rule_pattern(self@),
    {
        let quoted = regex_escape(self.template.as_str());
        let text = chars_of(quoted.as_str());
        let text = group_placeholder(text, 'G');
        let text = group_placeholder(text, 'S');
        let text = group_placeholder(text, 'O');
        let text = group_placeholder(text, 'C');
        let mut pattern: Vec<char> = Vec::new();
        pattern.push('^');
        append_chars(&mut pattern, &text);
        pattern.push('$');
        assert(pattern@ =~= rule_pattern(self@));
        string_of(&pattern)
    }

    /// Matches `email` against this rule and rebuilds the address from what
    /// the placeholders matched. `None` where the pattern does not compile
    /// or `email` does not match it.
    pub fn invert(&self, email: &str) -> (address: Option<Address>)
        ensures
            match (address, inversion_of(self@, email@)) {
                (Some(a), Some(wanted)) => a@ == wanted,
                (None, None) => true,
                _ => false,
            },
    {
        let pattern = self.as_regex();
        match match_placeholders(pattern.as_str(), email) {
            Some(captures) => Some(address_from_captures(&captures)),
            None => None,
        }
    }
}

/// Whether the pattern syntax gives `c` a meaning of its own.
pub open spec fn is_meta_char(c: char) -> bool {
    c == '\\' || c == '.' || c == '+' || c == '*' || c == '?' || c == '(' || c == ')' || c == '|'
        || c == '[' || c == ']' || c == '{' || c == '}' || c == '^' || c == '$' || c == '#' || c
        == '&' || c == '-' || c == '~'
}

/// `s` with a backslash before each meta character.
pub open spec fn escaped(s: Seq<char>) -> Seq<char>
    decreases s.len(),
{
    if s.len() == 0 {
        s
    } else if is_meta_char(s.last()) {
        escaped(s.drop_last()).push('\\').push(s.last())
    } else {
        escaped(s.drop_last()).push(s.last())
    }
}

/// `regex::escape`: walks the text once and writes a backslash before each
/// character that `regex_syntax::is_meta_character` accepts, which are the
/// ones of `is_meta_char`. It leaves every other character as it is.
#[verifier::external_body]
fn regex_escape(text: &str) -> (out: String)
    ensures
        out@ == escaped(text@),
{
    regex::escape(text)
}

/// The escaped form of the placeholder named `p`.
pub open spec fn escaped_token(p: char) -> Seq<char> {
    seq!['\\', '{', p, '\\', '}']
}

/// The named group that stands for the placeholder `p` in a pattern.
pub open spec fn group_of(p: char) -> Seq<char> {
    seq!['(', '?', 'P', '<', p, '>', '[', 'a', '-', 'z', '0', '-', '9', '-', ']', '+', ')']
}

/// `s` with the escaped placeholder `p`, where it appears, replaced by its
/// named group.
pub open spec fn grouped(s: Seq<char>, p: char) -> Seq<char> {
    if contains_token(s, escaped_token(p)) {
        replace_all(s, escaped_token(p), group_of(p))
    } else {
        s
    }
}

/// The pattern of the rule with this template.
pub open spec fn rule_pattern(template: Seq<char>) -> Seq<char> {
    seq!['^'] + grouped(grouped(grouped(grouped(escaped(template), 'G'), 'S'), 'O'), 'C') + seq![
        '$',
    ]
}

/// Computes `grouped`.
fn group_placeholder(text: Vec<char>, p: char) -> (out: Vec<char>)
    ensures
        out@ == grouped(text@, p),
{
    let token = vec!['\\', '{', p, '\\', '}'];
    assert(token@ =~= escaped_token(p));
    if !has_token(&text, &token) {
        return text;
    }
    let group = vec![
        '(', '?', 'P', '<', p, '>', '[', 'a', '-', 'z', '0', '-', '9', '-', ']', '+', ')',
    ];
    assert(group@ =~= group_of(p));
    replace_token(&text, &token, &group)
}

/// What each placeholder matched in a mailbox address; `None` for a
/// placeholder that the rule does not have.
#[derive(Clone, Debug, PartialEq, Eq)]
pub struct PlaceholderCaptures {
    pub given: Option<String>,
    pub surname: Option<String>,
    pub organization: Option<String>,
    pub country: Option<String>,
}

/// `PlaceholderCaptures` as sequences of characters.
pub struct CapturesView {
    pub given: Option<Seq<char>>,
    pub surname: Option<Seq<char>>,
    pub organization: Option<Seq<char>>,
    pub country: Option<Seq<char>>,
}

impl View for PlaceholderCaptures {
    type V = CapturesView;

    open spec fn view(&self) -> CapturesView {
        CapturesView {
            given: view_of(self.given),
            surname: view_of(self.surname),
            organization: view_of(self.organization),
            country: view_of(self.country),
        }
    }
}

/// What the group named `name` captures in the first match of `pattern`
/// in `text`. `None` where `pattern` is no valid pattern or matches nowhere
/// in `text`; `Some(None)` where it matches and no group of that name took
/// part.
pub uninterp spec fn group_match(pattern: Seq<char>, text: Seq<char>, name: Seq<char>) -> Option<
    Option<Seq<char>>,
>;

/// `regex::Regex::new` followed by `Regex::captures` and `Captures::name`.
/// The match is a function of the pattern, the text and the name alone;
/// the contract only names it.
#[verifier::external_body]
fn match_group(pattern: &str, text: &str, name: &str) -> (found: Option<Option<String>>)
    ensures
        match (found, group_match(pattern@, text@, name@)) {
            (Some(f), Some(m)) => view_of(f) == m,
            (None, None) => true,
            _ => false,
        },
{
    let regex = regex::Regex::new(pattern).ok()?;
    let captures = regex.captures(text)?;
    Some(captures.name(name).map(|m| m.as_str().to_string()))
}

/// What the groups `G`, `S`, `O` and `C` of `pattern` capture in the first
/// match of `pattern` in `text`; `None` where `pattern` is no valid pattern
/// or matches nowhere in `text`.
pub open spec fn placeholder_match(pattern: Seq<char>, text: Seq<char>) -> Option<CapturesView> {
    match (
        group_match(pattern, text, "G"@),
        group_match(pattern, text, "S"@),
        group_match(pattern, text, "O"@),
        group_match(pattern, text, "C"@),
    ) {
        (Some(given), Some(surname), Some(organization), Some(country)) => Some(
            CapturesView { given, surname, organization, country },
        ),
        _ => None,
    }
}

/// Computes `placeholder_match`.
pub fn match_placeholders(pattern: &str, text: &str) -> (found: Option<PlaceholderCaptures>)
    ensures
        match (found, placeholder_match(pattern@, text@)) {
            (Some(f), Some(m)) => f@ == m,
            (None, None) => true,
            _ => false,
        },
{
    let given = match match_group(pattern, text, "G") {
        Some(capture) => capture,
        None => {
            return None;
        },
    };
    let surname = match match_group(pattern, text, "S") {
        Some(capture) => capture,
        None => {
            return None;
        },
    };
    let organization = match match_group(pattern, text, "O") {
        Some(capture) => capture,
        None => {
            return None;
        },
    };
    let country = match match_group(pattern, text, "C") {
        Some(capture) => capture,
        None => {
            return None;
        },
    };
    Some(PlaceholderCaptures { given, surname, organization, country })
}

/// `word` with its first character made an ASCII capital.
pub open spec fn capitalized(word: Seq<char>) -> Seq<char> {
    if word.len() == 0 {
        word
    } else {
        seq![ascii_upper(word[0])] + word.skip(1)
    }
}

/// The non-empty pieces of `pieces`, each capitalized.
pub open spec fn capitalized_words(pieces: Seq<Seq<char>>) -> Seq<Seq<char>> {
    pieces.filter(|w: Seq<char>| w.len() > 0).map_values(|w: Seq<char>| capitalized(w))
}

/// The address field that a captured token stands for: its words, which
/// hyphens separate, each capitalized, with one space between neighbours.
pub open spec fn restored(capture: Seq<char>) -> Seq<char> {
    joined(capitalized_words(split_on(capture, '-')), seq![' '])
}

/// Computes `restored`.
pub fn restore(capture: &str) -> (field: String)
    ensures
        field@ == restored(capture@),
{
    let chars = chars_of(capture);
    let pieces = split_chars(&chars, '-');
    let mut words: Vec<Vec<char>> = Vec::new();
    let mut i: usize = 0;
    while i < pieces.len()
        invariant
            i <= pieces.len(),
            views_of(words@) == capitalized_words(views_of(pieces@).take(i as int)),
        decreases pieces.len() - i,
    {
        let ghost before = views_of(pieces@).take(i as int);
        let ghost words_before = views_of(words@);
        let piece = &pieces[i];
        if piece.len() > 0 {
            let mut word: Vec<char> = Vec::new();
            word.push(upper_char(piece[0]));
            let mut k: usize = 1;
            while k < piece.len()
                invariant
                    1 <= k <= piece.len(),
                    word@ == seq![ascii_upper(piece@[0])] + piece@.subrange(1, k as int),
                decreases piece.len() - k,
            {
                word.push(piece[k]);
                k = k + 1;
            }
            assert(piece@.subrange(1, piece.len() as int) =~= piece@.skip(1));
            words.push(word);
            assert(views_of(words@) =~= words_before.push(capitalized(piece@)));
        }
        i = i + 1;
        proof {
            let now = views_of(pieces@).take(i as int);
            let keep = |w: Seq<char>| w.len() > 0;
            assert(now.drop_last() =~= before);
            assert(now.last() == piece@);
            reveal(Seq::filter);
            assert(now.filter(keep) =~= if keep(piece@) {
                before.filter(keep).push(piece@)
            } else {
                before.filter(keep)
            });
            assert(views_of(words@) =~= capitalized_words(now));
        }
    }
    assert(views_of(pieces@).take(pieces.len() as int) =~= views_of(pieces@));
    let space = vec![' '];
    assert(space@ =~= seq![' ']);
    let field = join_chars(&words, &space);
    string_of(&field)
}

/// The address that captures stand for. A missing country is `XX`, a
/// missing organization `UNKNOWN`; the surname comes from `{S}`, else from
/// `{G}`, and is `User` where both are missing.
pub open spec fn address_of_captures(captures: CapturesView) -> AddressView {
    AddressView {
        country: match captures.country {
            Some(c) => restored(c),
            None => "XX"@,
        },
        organization: match captures.organization {
            Some(o) => restored(o),
            None => "UNKNOWN"@,
        },
        surname: match captures.surname {
            Some(s) => restored(s),
            None => match captures.given {
                Some(g) => restored(g),
                None => "User"@,
            },
        },
    }
}

/// Computes `address_of_captures`.
pub fn address_from_captures(captures: &PlaceholderCaptures) -> (address: Address)
    ensures
        address@ == address_of_captures(captures@),
{
    let country = match &captures.country {
        Some(c) => restore(c.as_str()),
        None => String::from_str("XX"),
    };
    let organization = match &captures.organization {
        Some(o) => restore(o.as_str()),
        None => String::from_str("UNKNOWN"),
    };
    let surname = match &captures.surname {
        Some(s) => restore(s.as_str()),
        None => match &captures.given {
            Some(g) => restore(g.as_str()),
            None => String::from_str("User"),
        },
    };
    Address { country, organization, surname }
}

/// What a rule with this template inverts the mailbox address to.
pub open spec fn inversion_of(template: Seq<char>, email: Seq<char>) -> Option<AddressView> {
    match placeholder_match(rule_pattern(template), email) {
        Some(captures) => Some(address_of_captures(captures)),
        None => None,
    }
}

/// The canonical O/R string of an address:
/// `C=<country>;O=<organization>;S=<surname>`.
pub open spec fn or_string(address: AddressView) -> Seq<char> {
    seq!['C', '='] + address.country + seq![';', 'O', '='] + address.organization + seq![
        ';',
        'S',
        '=',
    ] + address.surname
}

/// One alias: an O/R string and the mailbox address that stands for it.
pub type Alias = (Seq<char>, Seq<char>);

/// The mailbox address of the last alias whose O/R string is `key`.
pub open spec fn alias_of(aliases: Seq<Alias>, key: Seq<char>) -> Option<Seq<char>>
    decreases aliases.len(),
{
    if aliases.len() == 0 {
        None
    } else if aliases.last().0 == key {
        Some(aliases.last().1)
    } else {
        alias_of(aliases.drop_last(), key)
    }
}

/// The O/R string of the last alias whose mailbox address, in lower case,
/// is `key`.
pub open spec fn alias_source(aliases: Seq<Alias>, key: Seq<char>) -> Option<Seq<char>>
    decreases aliases.len(),
{
    if aliases.len() == 0 {
        None
    } else if lowercase_of(aliases.last().1) == key {
        Some(aliases.last().0)
    } else {
        alias_source(aliases.drop_last(), key)
    }
}

/// The fields `(country, organization, surname)` that the parts of an O/R
/// string set, each part being `key=value`; `None` where a part has no `=`.
/// Keys count without case, and a later part overrides an earlier one.
pub open spec fn alias_fields(parts: Seq<Seq<char>>) -> Option<(Seq<char>, Seq<char>, Seq<char>)>
    decreases parts.len(),
{
    if parts.len() == 0 {
        Some((Seq::empty(), Seq::empty(), Seq::empty()))
    } else {
        let part = parts.last();
        let at = first_index(part, '=');
        match alias_fields(parts.drop_last()) {
            None => None,
            Some(fields) => if at >= part.len() {
                None
            } else {
                let key = to_ascii_upper(trimmed(part.take(at)));
                let value = trimmed(part.skip(at + 1));
                if key == seq!['C'] {
                    Some((value, fields.1, fields.2))
                } else if key == seq!['O'] {
                    Some((fields.0, value, fields.2))
                } else if key == seq!['S'] {
                    Some((fields.0, fields.1, value))
                } else {
                    Some(fields)
                }
            },
        }
    }
}

/// The address that an O/R string of an alias stands for; `None` where a
/// part has no `=` or the country or the surname is missing. A missing
/// organization is `UNKNOWN`.
pub open spec fn alias_address(value: Seq<char>) -> Option<AddressView> {
    match alias_fields(split_on(value, ';')) {
        None => None,
        Some(fields) => if fields.0.len() == 0 || fields.2.len() == 0 {
            None
        } else {
            Some(
                AddressView {
                    country: fields.0,
                    organization: if fields.1.len() == 0 {
                        "UNKNOWN"@
                    } else {
                        fields.1
                    },
                    surname: fields.2,
                },
            )
        },
    }
}

/// What the first rule that renders the address makes of it.
pub open spec fn first_applied(rules: Seq<Seq<char>>, address: AddressView) -> Option<Seq<char>>
    decreases rules.len(),
{
    if rules.len() == 0 {
        None
    } else {
        match rendering_of(rules[0], address) {
            Some(email) => Some(email),
            None => first_applied(rules.skip(1), address),
        }
    }
}

/// What the first rule that matches the mailbox address makes of it.
pub open spec fn first_inverted(rules: Seq<Seq<char>>, email: Seq<char>) -> Option<AddressView>
    decreases rules.len(),
{
    if rules.len() == 0 {
        None
    } else {
        match inversion_of(rules[0], email) {
            Some(address) => Some(address),
            None => first_inverted(rules.skip(1), email),
        }
    }
}

/// The mailbox address of an O/R address: its alias where it has one, else
/// what the first rule that renders it gives.
pub open spec fn or_to_rfc822(mapper: MapperView, address: AddressView) -> Result<
    Seq<char>,
    MappingError,
> {
    match alias_of(mapper.aliases, or_string(address)) {
        Some(email) => Ok(email),
        None => match first_applied(mapper.rules, address) {
            Some(email) => Ok(email),
            None => Err(MappingError::NoMatch),
        },
    }
}

/// The O/R address of a mailbox address: the one its alias names where it
/// has an alias, else what the first rule that matches it gives.
pub open spec fn rfc822_to_or(mapper: MapperView, email: Seq<char>) -> Result<
    AddressView,
    MappingError,
> {
    match alias_source(mapper.aliases, lowercase_of(email)) {
        Some(source) => match alias_address(source) {
            Some(address) => Ok(address),
            None => Err(MappingError::AliasMissing),
        },
        None => match first_inverted(mapper.rules, email) {
            Some(address) => Ok(address),
            None => Err(MappingError::NoMatch),
        },
    }
}

/// An `AddressMapper` as its rule templates, in order, and its aliases, in
/// the order in which they were given.
pub struct MapperView {
    pub rules: Seq<Seq<char>>,
    pub aliases: Seq<Alias>,
}

/// The templates of `rules`.
pub open spec fn templates_of(rules: Seq<AddressMappingRule>) -> Seq<Seq<char>> {
    rules.map_values(|r: AddressMappingRule| r@)
}

/// The aliases of `entries` as sequences of characters.
pub open spec fn aliases_of(entries: Seq<(String, String)>) -> Seq<Alias> {
    entries.map_values(|e: (String, String)| (e.0@, e.1@))
}

/// Translates addresses between the X.400 and the SMTP world: aliases first,
/// then the rules in their order.
#[derive(Debug)]
pub struct AddressMapper {
    rules: Vec<AddressMappingRule>,
    aliases: Vec<(String, String)>,
    alias_reverse: Vec<(String, String)>,
}

impl View for AddressMapper {
    type V = MapperView;

    closed spec fn view(&self) -> MapperView {
        MapperView { rules: templates_of(self.rules@), aliases: aliases_of(self.aliases@) }
    }
}

impl Default for AddressMapper {
    /// A mapper without rules and aliases.
    fn default() -> (mapper: Self)
        ensures
            mapper@.rules == Seq::<Seq<char>>::empty(),
            mapper@.aliases == Seq::<Alias>::empty(),
    {
        let mapper = AddressMapper {
            rules: Vec::new(),
            aliases: Vec::new(),
            alias_reverse: Vec::new(),
        };
        assert(mapper@.rules =~= Seq::<Seq<char>>::empty());
        assert(mapper@.aliases =~= Seq::<Alias>::empty());
        mapper
    }
}

impl AddressMapper {
    /// The reverse table holds, for each alias and in the same order, the
    /// mailbox address in lower case and the O/R string.
    #[verifier::type_invariant]
    closed spec fn reverse_is_derived(&self) -> bool {
        &&& self.alias_reverse@.len() == self.aliases@.len()
        &&& forall|i: int|
            0 <= i < self.aliases@.len() ==> {
                &&& (#[trigger] self.alias_reverse@[i]).0@ == lowercase_of(self.aliases@[i].1@)
                &&& self.alias_reverse@[i].1@ == self.aliases@[i].0@
            }
    }

    /// A mapper with these rules and these aliases, each alias an O/R string
    /// and its mailbox address. Where two aliases share an O/R string, or a
    /// mailbox address but for case, the later one counts.
    pub fn new(rules: Vec<AddressMappingRule>, aliases: Vec<(String, String)>) -> (mapper: Self)
        ensures
            mapper@.rules == templates_of(rules@),
            mapper@.aliases == aliases_of(aliases@),
    {
        let mut alias_reverse: Vec<(String, String)> = Vec::new();
        let mut i: usize = 0;
        while i < aliases.len()
            invariant
                i <= aliases.len(),
                alias_reverse@.len() == i,
                forall|k: int|
                    0 <= k < i ==> {
                        &&& (#[trigger] alias_reverse@[k]).0@ == lowercase_of(aliases@[k].1@)
                        &&& alias_reverse@[k].1@ == aliases@[k].0@
                    },
            decreases aliases.len() - i,
        {
            let entry = &aliases[i];
            alias_reverse.push((to_lowercase(entry.1.as_str()), entry.0.clone()));
            i = i + 1;
        }
        AddressMapper { rules, aliases, alias_reverse }
    }

    /// The mailbox address of `address`: `Ok` with its alias where the O/R
    /// string has one, else with what the first rule that renders it gives;
    /// `NoMatch` where there is neither.
    pub fn map_or_to_rfc822(&self, address: &Address) -> (email: Result<String, MappingError>)
        ensures
            match (email, or_to_rfc822(self@, address@)) {
                (Ok(e), Ok(wanted)) => e@ == wanted,
                (Err(e), Err(wanted)) => e == wanted,
                _ => false,
            },
    {
        let mut key: Vec<char> = vec!['C', '='];
        append_chars(&mut key, &chars_of(address.country.as_str()));
        append_chars(&mut key, &vec![';', 'O', '=']);
        append_chars(&mut key, &chars_of(address.organization.as_str()));
        append_chars(&mut key, &vec![';', 'S', '=']);
        append_chars(&mut key, &chars_of(address.surname.as_str()));
        assert(key@ =~= or_string(address@));
        let key = string_of(&key);

        let mut i: usize = self.aliases.len();
        assert(aliases_of(self.aliases@).take(i as int) =~= aliases_of(self.aliases@));
        while i > 0
            invariant
                i <= self.aliases.len(),
                key@ == or_string(address@),
                alias_of(aliases_of(self.aliases@).take(i as int), key@) == alias_of(
                    aliases_of(self.aliases@),
                    key@,
                ),
            decreases i,
        {
            let ghost shown = aliases_of(self.aliases@).take(i as int);
            assert(shown.drop_last() =~= aliases_of(self.aliases@).take(i - 1));
            assert(shown.last() == (self.aliases@[i - 1].0@, self.aliases@[i - 1].1@));
            i = i - 1;
            if self.aliases[i].0 == key {
                return Ok(self.aliases[i].1.clone());
            }
        }

        let mut k: usize = 0;
        assert(templates_of(self.rules@).skip(0) =~= templates_of(self.rules@));
        while k < self.rules.len()
            invariant
                k <= self.rules.len(),
                alias_of(aliases_of(self.aliases@), or_string(address@)) is None,
                first_applied(templates_of(self.rules@).skip(k as int), address@) == first_applied(
                    templates_of(self.rules@),
                    address@,
                ),
            decreases self.rules.len() - k,
        {
            assert(templates_of(self.rules@).skip(k as int).skip(1) =~= templates_of(
                self.rules@,
            ).skip(k + 1));
            assert(templates_of(self.rules@).skip(k as int)[0] == self.rules@[k as int]@);
            if let Some(email) = self.rules[k].apply(address) {
                return Ok(email);
            }
            k = k + 1;
        }
        Err(MappingError::NoMatch)
    }

    /// The O/R address of `email`: where `email`, without regard to case, is
    /// the mailbox address of an alias, the address that the alias names,
    /// or `AliasMissing` where its O/R string lacks a country or a surname;
    /// else what the first rule that matches gives, or `NoMatch`.
    pub fn map_rfc822_to_or(&self, email: &str) -> (address: Result<Address, MappingError>)
        ensures
            match (address, rfc822_to_or(self@, email@)) {
                (Ok(a), Ok(wanted)) => a@ == wanted,
                (Err(e), Err(wanted)) => e == wanted,
                _ => false,
            },
    {
        proof {
            use_type_invariant(self);
        }
        let key = to_lowercase(email);
        let mut i: usize = self.alias_reverse.len();
        assert(aliases_of(self.aliases@).take(i as int) =~= aliases_of(self.aliases@));
        while i > 0
            invariant
                i <= self.aliases.len(),
                self.reverse_is_derived(),
                key@ == lowercase_of(email@),
                alias_source(aliases_of(self.aliases@).take(i as int), key@) == alias_source(
                    aliases_of(self.aliases@),
                    key@,
                ),
            decreases i,
        {
            let ghost shown = aliases_of(self.aliases@).take(i as int);
            assert(shown.drop_last() =~= aliases_of(self.aliases@).take(i - 1));
            assert(shown.last() == (self.aliases@[i - 1].0@, self.aliases@[i - 1].1@));
            i = i - 1;
            if self.alias_reverse[i].0 == key {
                return match Self::parse_alias(self.alias_reverse[i].1.as_str()) {
                    Some(address) => Ok(address),
                    None => Err(MappingError::AliasMissing),
                };
            }
        }

        let mut k: usize = 0;
        assert(templates_of(self.rules@).skip(0) =~= templates_of(self.rules@));
        while k < self.rules.len()
            invariant
                k <= self.rules.len(),
                alias_source(aliases_of(self.aliases@), lowercase_of(email@)) is None,
                first_inverted(templates_of(self.rules@).skip(k as int), email@) == first_inverted(
                    templates_of(self.rules@),
                    email@,
                ),
            decreases self.rules.len() - k,
        {
            assert(templates_of(self.rules@).skip(k as int).skip(1) =~= templates_of(
                self.rules@,
            ).skip(k + 1));
            assert(templates_of(self.rules@).skip(k as int)[0] == self.rules@[k as int]@);
            if let Some(address) = self.rules[k].invert(email) {
                return Ok(address);
            }
            k = k + 1;
        }
        Err(MappingError::NoMatch)
    }

    /// Reads the O/R string of an alias: parts `key=value` with `;` between
    /// them, of which `C`, `O` and `S` count, in either case.
    pub fn parse_alias(value: &str) -> (address: Option<Address>)
        ensures
            match (address, alias_address(value@)) {
                (Some(a), Some(wanted)) => a@ == wanted,
                (None, None) => true,
                _ => false,
            },
    {
        let chars = chars_of(value);
        let parts = split_chars(&chars, ';');
        let mut country: Vec<char> = Vec::new();
        let mut organization: Vec<char> = Vec::new();
        let mut surname: Vec<char> = Vec::new();
        let mut i: usize = 0;
        assert(views_of(parts@).take(0) =~= Seq::<Seq<char>>::empty());
        while i < parts.len()
            invariant
                i <= parts.len(),
                views_of(parts@) == split_on(value@, ';'),
                alias_fields(views_of(parts@).take(i as int)) == Some(
                    (country@, organization@, surname@),
                ),
            decreases parts.len() - i,
        {
            let part = &parts[i];
            let ghost shown = views_of(parts@).take(i + 1);
            assert(shown.drop_last() =~= views_of(parts@).take(i as int));
            assert(shown.last() == part@);
            assert(part@.skip(0) =~= part@);
            let at = find_char(part, 0, '=');
            if at >= part.len() {
                proof {
                    assert(alias_fields(shown) is None);
                    lemma_alias_fields_fail(views_of(parts@), i + 1);
                }
                return None;
            }
            let key = ascii_uppercase(&trim_chars(&slice_of(part, 0, at)));
            let val = trim_chars(&slice_of(part, at + 1, part.len()));
            assert(part@.subrange(0, at as int) =~= part@.take(at as int));
            assert(part@.subrange(at + 1, part.len() as int) =~= part@.skip(at + 1));
            if key.len() == 1 {
                assert(key@ =~= seq![key@[0]]);
                if key[0] == 'C' {
                    country = val;
                } else if key[0] == 'O' {
                    organization = val;
                } else if key[0] == 'S' {
                    surname = val;
                }
            } else {
                assert(key@ != seq!['C'] && key@ != seq!['O'] && key@ != seq!['S']);
            }
            i = i + 1;
        }
        assert(views_of(parts@).take(parts.len() as int) =~= views_of(parts@));
        if country.len() == 0 || surname.len() == 0 {
            return None;
        }
        let organization = if organization.len() == 0 {
            String::from_str("UNKNOWN")
        } else {
            string_of(&organization)
        };
        Some(Address { country: string_of(&country), organization, surname: string_of(&surname) })
    }
}

/// Once a prefix of the parts has failed, the whole has.
proof fn lemma_alias_fields_fail(parts: Seq<Seq<char>>, n: int)
    requires
        0 <= n <= parts.len(),
        alias_fields(parts.take(n)) is None,
    ensures
        alias_fields(parts) is None,
    decreases parts.len() - n,
{
    if n < parts.len() {
        assert(parts.take(n + 1).drop_last() =~= parts.take(n));
        lemma_alias_fields_fail(parts, n + 1);
    } else {
        assert(parts.take(n) =~= parts);
    }
}

} // verus!
