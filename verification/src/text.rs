//! Character-level text operations with exact specifications.
//!
//! Every string in this crate is modelled by its sequence of characters
//! (`Seq<char>`, the view of `str` and `String`). The functions here work on
//! `Vec<char>`, and the contract of each one is stated over `Seq<char>`.

use vstd::prelude::*;

verus! {

/// `String::push` appends one character to the end of the string.
pub assume_specification[ String::push ](s: &mut String, c: char)
    ensures
        final(s)@ == old(s)@.push(c),
;

/// The characters of `s`, in order.
pub fn chars_of(s: &str) -> (out: Vec<char>)
    ensures
        out@ == s@,
{
    let mut out: Vec<char> = Vec::new();
    for c in it: s.chars()
        invariant
            out@ == it.seq().take(it.index()),
            it.seq() == s@,
    {
        out.push(c);
    }
    out
}

/// The string made of the characters of `v`, in order.
pub fn string_of(v: &Vec<char>) -> (out: String)
    ensures
        out@ == v@,
{
    let mut out = String::new();
    let mut i: usize = 0;
    while i < v.len()
        invariant
            i <= v.len(),
            out@ == v@.take(i as int),
        decreases v.len() - i,
    {
        out.push(v[i]);
        i = i + 1;
        assert(v@.take(i as int) == v@.take(i - 1).push(v@[i - 1]));
    }
    assert(v@.take(v.len() as int) == v@);
    out
}

/// The characters of `v` from index `from` up to, not including, `to`.
pub fn slice_of(v: &Vec<char>, from: usize, to: usize) -> (out: Vec<char>)
    requires
        from <= to <= v.len(),
    ensures
        out@ == v@.subrange(from as int, to as int),
{
    let mut out: Vec<char> = Vec::new();
    let mut i: usize = from;
    while i < to
        invariant
            from <= i <= to <= v.len(),
            out@ == v@.subrange(from as int, i as int),
        decreases to - i,
    {
        out.push(v[i]);
        i = i + 1;
        assert(v@.subrange(from as int, i as int) == v@.subrange(from as int, i - 1).push(
            v@[i - 1],
        ));
    }
    out
}

/// Appends the characters of `tail` to `out`.
pub fn append_chars(out: &mut Vec<char>, tail: &Vec<char>)
    ensures
        final(out)@ == old(out)@ + tail@,
{
    let mut i: usize = 0;
    while i < tail.len()
        invariant
            i <= tail.len(),
            out@ == old(out)@ + tail@.take(i as int),
        decreases tail.len() - i,
    {
        out.push(tail[i]);
        i = i + 1;
        assert(tail@.take(i as int) == tail@.take(i - 1).push(tail@[i - 1]));
    }
    assert(tail@.take(tail.len() as int) == tail@);
}

/// Whether `token` stands in `s` at index `i`.
pub open spec fn occurs_at(s: Seq<char>, i: int, token: Seq<char>) -> bool {
    &&& 0 <= i
    &&& i + token.len() <= s.len()
    &&& s.subrange(i, i + token.len()) == token
}

/// Whether `token` stands somewhere in `s`.
pub open spec fn contains_token(s: Seq<char>, token: Seq<char>) -> bool {
    exists|i: int| occurs_at(s, i, token)
}

/// Whether `s` begins with `prefix`.
pub open spec fn starts_with(s: Seq<char>, prefix: Seq<char>) -> bool {
    occurs_at(s, 0, prefix)
}

/// Decides `occurs_at`.
pub fn token_at(s: &Vec<char>, i: usize, token: &Vec<char>) -> (found: bool)
    requires
        i <= s.len(),
    ensures
        found == occurs_at(s@, i as int, token@),
{
    if token.len() > s.len() - i {
        return false;
    }
    let mut k: usize = 0;
    while k < token.len()
        invariant
            k <= token.len(),
            i + token.len() <= s.len(),
            forall|j: int| 0 <= j < k ==> s@[i + j] == token@[j],
        decreases token.len() - k,
    {
        if s[i + k] != token[k] {
            assert(s@.subrange(i as int, i + token.len())[k as int] != token@[k as int]);
            return false;
        }
        k = k + 1;
    }
    assert(s@.subrange(i as int, i + token.len()) =~= token@);
    true
}

/// Decides `starts_with`.
pub fn has_prefix(s: &Vec<char>, prefix: &Vec<char>) -> (found: bool)
    ensures
        found == starts_with(s@, prefix@),
{
    token_at(s, 0, prefix)
}

/// Decides `contains_token`.
pub fn has_token(s: &Vec<char>, token: &Vec<char>) -> (found: bool)
    ensures
        found == contains_token(s@, token@),
{
    let mut i: usize = 0;
    while i < s.len()
        invariant
            i <= s.len(),
            forall|j: int| 0 <= j < i ==> !occurs_at(s@, j, token@),
        decreases s.len() - i,
    {
        if token_at(s, i, token) {
            return true;
        }
        i = i + 1;
    }
    token_at(s, i, token)
}

/// Whether the character `c` stands somewhere in `s`.
pub fn has_char(s: &Vec<char>, c: char) -> (found: bool)
    ensures
        found == s@.contains(c),
{
    let mut i: usize = 0;
    while i < s.len()
        invariant
            i <= s.len(),
            forall|j: int| 0 <= j < i ==> s@[j] != c,
        decreases s.len() - i,
    {
        if s[i] == c {
            return true;
        }
        i = i + 1;
    }
    false
}

/// `s` with every occurrence of `token` replaced by `value`, scanning from the
/// left and resuming after each replaced occurrence. With an empty `token`
/// nothing is replaced.
pub open spec fn replace_all(s: Seq<char>, token: Seq<char>, value: Seq<char>) -> Seq<char>
    decreases s.len(),
{
    if token.len() == 0 || s.len() == 0 {
        s
    } else if occurs_at(s, 0, token) {
        value + replace_all(s.skip(token.len() as int), token, value)
    } else {
        seq![s[0]] + replace_all(s.skip(1), token, value)
    }
}

/// Computes `replace_all`.
pub fn replace_token(s: &Vec<char>, token: &Vec<char>, value: &Vec<char>) -> (out: Vec<char>)
    ensures
        out@ == replace_all(s@, token@, value@),
{
    if token.len() == 0 {
        return slice_of(s, 0, s.len());
    }
    let mut out: Vec<char> = Vec::new();
    let mut i: usize = 0;
    assert(s@.skip(0) =~= s@);
    assert(out@ + replace_all(s@, token@, value@) =~= replace_all(s@, token@, value@));
    while i < s.len()
        invariant
            i <= s.len(),
            token.len() > 0,
            out@ + replace_all(s@.skip(i as int), token@, value@) == replace_all(
                s@,
                token@,
                value@,
            ),
        decreases s.len() - i,
    {
        let ghost rest = s@.skip(i as int);
        let ghost before = out@;
        assert(occurs_at(rest, 0, token@) == occurs_at(s@, i as int, token@)) by {
            if i + token.len() <= s.len() {
                assert(rest.subrange(0, token.len() as int) =~= s@.subrange(
                    i as int,
                    i + token.len(),
                ));
            }
        }
        if token_at(s, i, token) {
            append_chars(&mut out, value);
            i = i + token.len();
            assert(rest.skip(token.len() as int) =~= s@.skip(i as int));
            assert(out@ + replace_all(s@.skip(i as int), token@, value@) =~= before + (value@
                + replace_all(rest.skip(token.len() as int), token@, value@)));
        } else {
            out.push(s[i]);
            i = i + 1;
            assert(rest.skip(1) =~= s@.skip(i as int));
            assert(out@ + replace_all(s@.skip(i as int), token@, value@) =~= before + (seq![
                rest[0],
            ] + replace_all(rest.skip(1), token@, value@)));
        }
    }
    assert(s@.skip(s.len() as int) =~= Seq::<char>::empty());
    assert(out@ + Seq::<char>::empty() =~= out@);
    out
}

/// The index of the first `c` in `s`, or `s.len()` where `s` holds no `c`.
pub open spec fn first_index(s: Seq<char>, c: char) -> int
    decreases s.len(),
{
    if s.len() == 0 || s[0] == c {
        0
    } else {
        1 + first_index(s.skip(1), c)
    }
}

/// `first_index` is the one index that holds `c` with no `c` before it.
pub proof fn lemma_first_index(s: Seq<char>, c: char, i: int)
    requires
        0 <= i <= s.len(),
        forall|k: int| 0 <= k < i ==> s[k] != c,
        i < s.len() ==> s[i] == c,
    ensures
        first_index(s, c) == i,
    decreases s.len(),
{
    if s.len() > 0 && i > 0 {
        lemma_first_index(s.skip(1), c, i - 1);
    }
}

/// `first_index` lies within `0..=s.len()`, nothing before it is `c`, and it
/// holds `c` where it is an index of `s`.
pub proof fn lemma_first_index_bounds(s: Seq<char>, c: char)
    ensures
        0 <= first_index(s, c) <= s.len(),
        forall|k: int| 0 <= k < first_index(s, c) ==> s[k] != c,
        first_index(s, c) < s.len() ==> s[first_index(s, c)] == c,
    decreases s.len(),
{
    if s.len() > 0 && s[0] != c {
        lemma_first_index_bounds(s.skip(1), c);
        assert forall|k: int| 0 <= k < first_index(s, c) implies s[k] != c by {
            if k > 0 {
                assert(s.skip(1)[k - 1] == s[k]);
            }
        }
    }
}

/// The index in `s` of the first `c` at or after `from`, or `s.len()`.
pub fn find_char(s: &Vec<char>, from: usize, c: char) -> (at: usize)
    requires
        from <= s.len(),
    ensures
        from <= at <= s.len(),
        at - from == first_index(s@.skip(from as int), c),
{
    let mut at: usize = from;
    while at < s.len() && s[at] != c
        invariant
            from <= at <= s.len(),
            forall|k: int| from <= k < at ==> s@[k] != c,
        decreases s.len() - at,
    {
        at = at + 1;
    }
    proof {
        lemma_first_index(s@.skip(from as int), c, at - from);
    }
    at
}

/// The pieces of `s` between occurrences of `sep`: at least one piece, and
/// one more than there are separators.
pub open spec fn split_on(s: Seq<char>, sep: char) -> Seq<Seq<char>>
    decreases s.len(),
{
    let i = first_index(s, sep);
    if 0 <= i < s.len() {
        seq![s.take(i)] + split_on(s.skip(i + 1), sep)
    } else {
        seq![s]
    }
}

/// The views of the pieces in `pieces`.
pub open spec fn views_of(pieces: Seq<Vec<char>>) -> Seq<Seq<char>> {
    pieces.map_values(|p: Vec<char>| p@)
}

/// Computes `split_on`.
pub fn split_chars(s: &Vec<char>, sep: char) -> (pieces: Vec<Vec<char>>)
    ensures
        views_of(pieces@) == split_on(s@, sep),
{
    let mut pieces: Vec<Vec<char>> = Vec::new();
    let mut start: usize = 0;
    assert(s@.skip(0) =~= s@);
    assert(views_of(pieces@) + split_on(s@, sep) =~= split_on(s@, sep));
    loop
        invariant_except_break
            start <= s.len(),
            views_of(pieces@) + split_on(s@.skip(start as int), sep) == split_on(s@, sep),
        ensures
            views_of(pieces@) == split_on(s@, sep),
        decreases s.len() - start,
    {
        let ghost rest = s@.skip(start as int);
        let ghost before = views_of(pieces@);
        let at = find_char(s, start, sep);
        let piece = slice_of(s, start, at);
        pieces.push(piece);
        assert(views_of(pieces@) =~= before.push(piece@));
        if at < s.len() {
            assert(rest.take(at - start) =~= piece@);
            assert(rest.skip(at - start + 1) =~= s@.skip(at + 1));
            start = at + 1;
            assert(views_of(pieces@) + split_on(s@.skip(start as int), sep) =~= before + (seq![
                piece@,
            ] + split_on(s@.skip(start as int), sep)));
        } else {
            assert(piece@ =~= rest);
            assert(views_of(pieces@) =~= before + seq![rest]);
            break;
        }
    }
    pieces
}

/// Whether `c` is one of the first 128 code points.
pub open spec fn is_ascii_char(c: char) -> bool {
    c <= '\x7f'
}

/// Whether every character of `s` is ASCII.
pub open spec fn all_ascii(s: Seq<char>) -> bool {
    forall|i: int| 0 <= i < s.len() ==> is_ascii_char(#[trigger] s[i])
}

/// The white space among the ASCII characters: the space, and the
/// controls from the horizontal tab to the carriage return.
pub open spec fn is_ascii_whitespace(c: char) -> bool {
    c == ' ' || ('\t' <= c && c <= '\r')
}

/// Whether a character beyond ASCII has Unicode's property `White_Space`.
pub uninterp spec fn unicode_whitespace(c: char) -> bool;

/// Whether `c` is white space in the sense of Unicode's `White_Space`
/// property, as `char::is_whitespace` reports it.
pub open spec fn is_whitespace_char(c: char) -> bool {
    if is_ascii_char(c) {
        is_ascii_whitespace(c)
    } else {
        unicode_whitespace(c)
    }
}

/// `char::is_whitespace`: whether `c` has the Unicode property `White_Space`.
/// Below U+0080 the property holds of U+0009 to U+000D and of U+0020 and
/// of nothing else; for any other character the contract only names the
/// answer.
#[verifier::external_body]
pub(crate) fn char_is_whitespace(c: char) -> (b: bool)
    ensures
        is_ascii_char(c) ==> b == is_ascii_whitespace(c),
        !is_ascii_char(c) ==> b == unicode_whitespace(c),
{
    c.is_whitespace()
}

/// `s` without its leading white space.
pub open spec fn trim_start(s: Seq<char>) -> Seq<char>
    decreases s.len(),
{
    if s.len() > 0 && is_whitespace_char(s[0]) {
        trim_start(s.skip(1))
    } else {
        s
    }
}

/// `s` without its trailing white space.
pub open spec fn trim_end(s: Seq<char>) -> Seq<char>
    decreases s.len(),
{
    if s.len() > 0 && is_whitespace_char(s.last()) {
        trim_end(s.drop_last())
    } else {
        s
    }
}

/// `s` without leading and trailing white space.
pub open spec fn trimmed(s: Seq<char>) -> Seq<char> {
    trim_end(trim_start(s))
}

/// Computes `trimmed`.
pub fn trim_chars(s: &Vec<char>) -> (out: Vec<char>)
    ensures
        out@ == trimmed(s@),
{
    let mut from: usize = 0;
    assert(s@.skip(0) =~= s@);
    while from < s.len() && char_is_whitespace(s[from])
        invariant
            from <= s.len(),
            trim_start(s@.skip(from as int)) == trim_start(s@),
        decreases s.len() - from,
    {
        assert(s@.skip(from as int).skip(1) =~= s@.skip(from + 1));
        from = from + 1;
    }
    let mut to: usize = s.len();
    assert(s@.subrange(from as int, to as int) =~= s@.skip(from as int));
    while to > from && char_is_whitespace(s[to - 1])
        invariant
            from <= to <= s.len(),
            trim_end(s@.subrange(from as int, to as int)) == trim_end(s@.skip(from as int)),
        decreases to - from,
    {
        assert(s@.subrange(from as int, to as int).drop_last() =~= s@.subrange(
            from as int,
            to - 1,
        ));
        to = to - 1;
    }
    slice_of(s, from, to)
}

/// `line` without one trailing carriage return.
pub open spec fn strip_cr(line: Seq<char>) -> Seq<char> {
    if line.len() > 0 && line.last() == '\r' {
        line.drop_last()
    } else {
        line
    }
}

/// The lines of `s`. A line ends at a line feed, and a carriage return
/// directly before that line feed belongs to the line ending. The last line
/// needs no line ending, and an empty text has no line.
pub open spec fn lines_of(s: Seq<char>) -> Seq<Seq<char>>
    decreases s.len(),
{
    let i = first_index(s, '\n');
    if s.len() == 0 {
        Seq::empty()
    } else if 0 <= i < s.len() {
        seq![strip_cr(s.take(i))] + lines_of(s.skip(i + 1))
    } else {
        seq![s]
    }
}

/// Computes `lines_of`.
pub fn split_lines(s: &Vec<char>) -> (lines: Vec<Vec<char>>)
    ensures
        views_of(lines@) == lines_of(s@),
{
    let mut lines: Vec<Vec<char>> = Vec::new();
    let mut start: usize = 0;
    assert(s@.skip(0) =~= s@);
    assert(views_of(lines@) + lines_of(s@) =~= lines_of(s@));
    while start < s.len()
        invariant
            start <= s.len(),
            views_of(lines@) + lines_of(s@.skip(start as int)) == lines_of(s@),
        decreases s.len() - start,
    {
        let ghost rest = s@.skip(start as int);
        let ghost before = views_of(lines@);
        let at = find_char(s, start, '\n');
        if at < s.len() {
            let end = if at > start && s[at - 1] == '\r' {
                at - 1
            } else {
                at
            };
            let line = slice_of(s, start, end);
            assert(rest.take(at - start) =~= s@.subrange(start as int, at as int));
            assert(line@ =~= strip_cr(rest.take(at - start)));
            lines.push(line);
            assert(views_of(lines@) =~= before.push(line@));
            assert(rest.skip(at - start + 1) =~= s@.skip(at + 1));
            start = at + 1;
            assert(views_of(lines@) + lines_of(s@.skip(start as int)) =~= before + (seq![line@]
                + lines_of(s@.skip(start as int))));
        } else {
            let line = slice_of(s, start, at);
            assert(line@ =~= rest);
            lines.push(line);
            assert(views_of(lines@) =~= before + seq![rest]);
            start = at;
            assert(lines_of(s@.skip(start as int)) =~= Seq::<Seq<char>>::empty());
        }
    }
    assert(lines_of(s@.skip(start as int)) =~= Seq::<Seq<char>>::empty());
    assert(views_of(lines@) + Seq::<Seq<char>>::empty() =~= views_of(lines@));
    lines
}

/// The lower-case form of an ASCII capital letter; any other character
/// unchanged.
pub open spec fn ascii_lower(c: char) -> char {
    if 'A' <= c && c <= 'Z' {
        ((c as u8) + 32) as char
    } else {
        c
    }
}

/// The capital form of an ASCII lower-case letter; any other character
/// unchanged.
pub open spec fn ascii_upper(c: char) -> char {
    if 'a' <= c && c <= 'z' {
        ((c as u8) - 32) as char
    } else {
        c
    }
}

/// Computes `ascii_lower`.
pub fn lower_char(c: char) -> (r: char)
    ensures
        r == ascii_lower(c),
{
    if c >= 'A' && c <= 'Z' {
        ((c as u8) + 32) as char
    } else {
        c
    }
}

/// Computes `ascii_upper`.
pub fn upper_char(c: char) -> (r: char)
    ensures
        r == ascii_upper(c),
{
    if c >= 'a' && c <= 'z' {
        ((c as u8) - 32) as char
    } else {
        c
    }
}

/// `s` with each ASCII lower-case letter made a capital.
pub open spec fn to_ascii_upper(s: Seq<char>) -> Seq<char> {
    s.map_values(|c: char| ascii_upper(c))
}

/// `s` with each ASCII capital made a lower-case letter.
pub open spec fn to_ascii_lower(s: Seq<char>) -> Seq<char> {
    s.map_values(|c: char| ascii_lower(c))
}

/// Whether `a` and `b` are equal once ASCII letters are taken without case.
pub open spec fn eq_ignoring_ascii_case(a: Seq<char>, b: Seq<char>) -> bool {
    to_ascii_lower(a) == to_ascii_lower(b)
}

/// Computes `to_ascii_upper`.
pub fn ascii_uppercase(s: &Vec<char>) -> (out: Vec<char>)
    ensures
        out@ == to_ascii_upper(s@),
{
    let mut out: Vec<char> = Vec::new();
    let mut i: usize = 0;
    while i < s.len()
        invariant
            i <= s.len(),
            out@ == to_ascii_upper(s@.take(i as int)),
        decreases s.len() - i,
    {
        out.push(upper_char(s[i]));
        i = i + 1;
        assert(to_ascii_upper(s@.take(i as int)) =~= to_ascii_upper(s@.take(i - 1)).push(
            ascii_upper(s@[i - 1]),
        ));
    }
    assert(s@.take(s.len() as int) =~= s@);
    out
}

/// Decides `eq_ignoring_ascii_case`.
pub fn same_ignoring_ascii_case(a: &Vec<char>, b: &Vec<char>) -> (same: bool)
    ensures
        same == eq_ignoring_ascii_case(a@, b@),
{
    if a.len() != b.len() {
        assert(to_ascii_lower(a@).len() != to_ascii_lower(b@).len());
        return false;
    }
    let mut i: usize = 0;
    while i < a.len()
        invariant
            i <= a.len(),
            a.len() == b.len(),
            forall|k: int| 0 <= k < i ==> ascii_lower(a@[k]) == ascii_lower(b@[k]),
        decreases a.len() - i,
    {
        if lower_char(a[i]) != lower_char(b[i]) {
            assert(to_ascii_lower(a@)[i as int] != to_ascii_lower(b@)[i as int]);
            return false;
        }
        i = i + 1;
    }
    assert(to_ascii_lower(a@) =~= to_ascii_lower(b@));
    true
}

/// Whether `a` and `b` hold the same characters.
pub fn same_chars(a: &Vec<char>, b: &Vec<char>) -> (same: bool)
    ensures
        same == (a@ == b@),
{
    if a.len() != b.len() {
        return false;
    }
    let mut i: usize = 0;
    while i < a.len()
        invariant
            i <= a.len(),
            a.len() == b.len(),
            forall|k: int| 0 <= k < i ==> a@[k] == b@[k],
        decreases a.len() - i,
    {
        if a[i] != b[i] {
            return false;
        }
        i = i + 1;
    }
    assert(a@ =~= b@);
    true
}

/// The lower-case form, by Unicode's rules, of a text that is not all
/// ASCII.
pub uninterp spec fn unicode_lowercase(s: Seq<char>) -> Seq<char>;

/// The lower-case form of `s` by Unicode's rules, as `str::to_lowercase`
/// gives it: in an ASCII text each capital becomes its lower-case letter.
pub open spec fn lowercase_of(s: Seq<char>) -> Seq<char> {
    if all_ascii(s) {
        to_ascii_lower(s)
    } else {
        unicode_lowercase(s)
    }
}

/// `str::to_lowercase`: the lower-case equivalent of `s` as a new string.
/// Unicode gives the ASCII capitals their ASCII lower-case letters and
/// leaves the other ASCII characters as they are; for a text with other
/// characters the contract only names the result.
#[verifier::external_body]
pub(crate) fn to_lowercase(s: &str) -> (out: String)
    ensures
        all_ascii(s@) ==> out@ == to_ascii_lower(s@),
        !all_ascii(s@) ==> out@ == unicode_lowercase(s@),
{
    s.to_lowercase()
}

/// The decimal digit for `d`, where `d` is below ten.
pub open spec fn digit_char(d: nat) -> char {
    (('0' as u8) + (d as u8)) as char
}

/// `n` written in decimal, without leading zeros.
pub open spec fn decimal(n: nat) -> Seq<char>
    decreases n,
{
    if n < 10 {
        seq![digit_char(n)]
    } else {
        decimal(n / 10).push(digit_char(n % 10))
    }
}

/// Computes `decimal`.
pub fn decimal_chars(n: usize) -> (out: Vec<char>)
    ensures
        out@ == decimal(n as nat),
    decreases n,
{
    if n < 10 {
        let mut out: Vec<char> = Vec::new();
        out.push((('0' as u8) + (n as u8)) as char);
        assert(out@ =~= seq![digit_char(n as nat)]);
        out
    } else {
        let mut out = decimal_chars(n / 10);
        out.push((('0' as u8) + ((n % 10) as u8)) as char);
        out
    }
}

/// The pieces of `pieces` in order, with `sep` between neighbours.
pub open spec fn joined(pieces: Seq<Seq<char>>, sep: Seq<char>) -> Seq<char>
    decreases pieces.len(),
{
    if pieces.len() == 0 {
        Seq::empty()
    } else if pieces.len() == 1 {
        pieces[0]
    } else {
        joined(pieces.drop_last(), sep) + sep + pieces.last()
    }
}

/// Computes `joined`.
pub fn join_chars(pieces: &Vec<Vec<char>>, sep: &Vec<char>) -> (out: Vec<char>)
    ensures
        out@ == joined(views_of(pieces@), sep@),
{
    let mut out: Vec<char> = Vec::new();
    let mut i: usize = 0;
    while i < pieces.len()
        invariant
            i <= pieces.len(),
            out@ == joined(views_of(pieces@).take(i as int), sep@),
        decreases pieces.len() - i,
    {
        let ghost before = views_of(pieces@).take(i as int);
        if i > 0 {
            append_chars(&mut out, sep);
        }
        append_chars(&mut out, &pieces[i]);
        i = i + 1;
        proof {
            let now = views_of(pieces@).take(i as int);
            assert(now.drop_last() =~= before);
            assert(now.last() == pieces@[i - 1]@);
            if i == 1 {
                assert(out@ =~= now[0]);
            }
        }
    }
    assert(views_of(pieces@).take(pieces.len() as int) =~= views_of(pieces@));
    out
}

/// The views of the strings in `texts`.
pub open spec fn texts_of(texts: Seq<String>) -> Seq<Seq<char>> {
    texts.map_values(|t: String| t@)
}

/// A copy of `texts`.
pub fn copy_texts(texts: &Vec<String>) -> (out: Vec<String>)
    ensures
        texts_of(out@) == texts_of(texts@),
{
    let mut out: Vec<String> = Vec::new();
    let mut i: usize = 0;
    while i < texts.len()
        invariant
            i <= texts.len(),
            out@.len() == i,
            forall|k: int| 0 <= k < i ==> out@[k]@ == texts@[k]@,
        decreases texts.len() - i,
    {
        out.push(texts[i].clone());
        i = i + 1;
    }
    assert(texts_of(out@) =~= texts_of(texts@));
    out
}

/// A list that holds `text` and nothing else.
pub fn one_text(text: &str) -> (out: Vec<String>)
    ensures
        texts_of(out@) == seq![text@],
{
    let mut out: Vec<String> = Vec::new();
    out.push(String::from_str(text));
    assert(texts_of(out@) =~= seq![text@]);
    out
}

/// The characters of an optional string.
pub open spec fn view_of(text: Option<String>) -> Option<Seq<char>> {
    match text {
        Some(t) => Some(t@),
        None => None,
    }
}

/// A copy of an optional string.
pub fn copy_option(text: &Option<String>) -> (out: Option<String>)
    ensures
        view_of(out) == view_of(*text),
{
    match text {
        Some(t) => Some(t.clone()),
        None => None,
    }
}

/// Whether `s` holds nothing but white space.
pub open spec fn is_blank(s: Seq<char>) -> bool {
    trimmed(s).len() == 0
}

/// What stands before the first `sep` in `s`, or all of `s`.
pub open spec fn before_first(s: Seq<char>, sep: char) -> Seq<char> {
    s.take(first_index(s, sep))
}

/// What stands after the first `sep` in `s`; `None` where `s` holds no
/// `sep`.
pub open spec fn after_first(s: Seq<char>, sep: char) -> Option<Seq<char>> {
    if first_index(s, sep) < s.len() {
        Some(s.skip(first_index(s, sep) + 1))
    } else {
        None
    }
}

/// Cuts `s` at its first `sep`: what stands before it, and what stands
/// after it where there is one.
pub fn cut_at_first(s: &Vec<char>, sep: char) -> (parts: (Vec<char>, Option<Vec<char>>))
    ensures
        parts.0@ == before_first(s@, sep),
        match (parts.1, after_first(s@, sep)) {
            (Some(rest), Some(wanted)) => rest@ == wanted,
            (None, None) => true,
            _ => false,
        },
{
    assert(s@.skip(0) =~= s@);
    let at = find_char(s, 0, sep);
    let head = slice_of(s, 0, at);
    assert(s@.subrange(0, at as int) =~= s@.take(at as int));
    if at < s.len() {
        let rest = slice_of(s, at + 1, s.len());
        assert(s@.subrange(at + 1, s.len() as int) =~= s@.skip(at + 1));
        (head, Some(rest))
    } else {
        (head, None)
    }
}

/// `n` written in decimal, with a minus sign where it is negative.
pub open spec fn signed_decimal(n: int) -> Seq<char> {
    if n < 0 {
        seq!['-'] + decimal((-n) as nat)
    } else {
        decimal(n as nat)
    }
}

/// Computes `signed_decimal`.
pub fn signed_decimal_chars(n: i32) -> (out: Vec<char>)
    ensures
        out@ == signed_decimal(n as int),
{
    if n < 0 {
        let magnitude: usize = if n == i32::MIN {
            2147483648
        } else {
            (-n) as usize
        };
        let mut out: Vec<char> = vec!['-'];
        append_chars(&mut out, &decimal_chars(magnitude));
        assert(out@ =~= signed_decimal(n as int));
        out
    } else {
        decimal_chars(n as usize)
    }
}

/// The upper-case form, by Unicode's rules, of a text that is not all
/// ASCII.
pub uninterp spec fn unicode_uppercase(s: Seq<char>) -> Seq<char>;

/// The upper-case form of `s` by Unicode's rules, as `str::to_uppercase`
/// gives it: in an ASCII text each lower-case letter becomes its capital.
pub open spec fn uppercase_of(s: Seq<char>) -> Seq<char> {
    if all_ascii(s) {
        to_ascii_upper(s)
    } else {
        unicode_uppercase(s)
    }
}

/// `str::to_uppercase`: the upper-case equivalent of `s` as a new string.
/// Unicode gives the ASCII lower-case letters their ASCII capitals and
/// leaves the other ASCII characters as they are; for a text with other
/// characters the contract only names the result.
#[verifier::external_body]
pub(crate) fn to_uppercase(s: &str) -> (out: String)
    ensures
        all_ascii(s@) ==> out@ == to_ascii_upper(s@),
        !all_ascii(s@) ==> out@ == unicode_uppercase(s@),
{
    s.to_uppercase()
}

/// The upper-case form, by Unicode's rules, of a character beyond ASCII,
/// which may be more than one character.
pub uninterp spec fn unicode_char_uppercase(c: char) -> Seq<char>;

/// The upper-case form of `c` by Unicode's rules, as `char::to_uppercase`
/// gives it: an ASCII character has the one that `ascii_upper` gives.
pub open spec fn char_uppercase_of(c: char) -> Seq<char> {
    if is_ascii_char(c) {
        seq![ascii_upper(c)]
    } else {
        unicode_char_uppercase(c)
    }
}

/// `char::to_uppercase`, its characters collected. An ASCII lower-case
/// letter gives its capital and any other ASCII character itself; for any
/// other character the contract only names the result.
#[verifier::external_body]
pub(crate) fn char_to_uppercase(c: char) -> (out: Vec<char>)
    ensures
        is_ascii_char(c) ==> out@ == seq![ascii_upper(c)],
        !is_ascii_char(c) ==> out@ == unicode_char_uppercase(c),
{
    c.to_uppercase().collect()
}

/// `s` without the `c`s at its start.
pub open spec fn strip_start(s: Seq<char>, c: char) -> Seq<char>
    decreases s.len(),
{
    if s.len() > 0 && s[0] == c {
        strip_start(s.skip(1), c)
    } else {
        s
    }
}

/// `s` without the `c`s at its end.
pub open spec fn strip_end(s: Seq<char>, c: char) -> Seq<char>
    decreases s.len(),
{
    if s.len() > 0 && s.last() == c {
        strip_end(s.drop_last(), c)
    } else {
        s
    }
}

/// `s` without the `c`s at its start and at its end.
pub open spec fn stripped(s: Seq<char>, c: char) -> Seq<char> {
    strip_end(strip_start(s, c), c)
}

/// Computes `stripped`.
pub fn strip_chars(s: &Vec<char>, c: char) -> (out: Vec<char>)
    ensures
        out@ == stripped(s@, c),
{
    let mut from: usize = 0;
    assert(s@.skip(0) =~= s@);
    while from < s.len() && s[from] == c
        invariant
            from <= s.len(),
            strip_start(s@.skip(from as int), c) == strip_start(s@, c),
        decreases s.len() - from,
    {
        assert(s@.skip(from as int).skip(1) =~= s@.skip(from + 1));
        from = from + 1;
    }
    let mut to: usize = s.len();
    assert(s@.subrange(from as int, to as int) =~= s@.skip(from as int));
    while to > from && s[to - 1] == c
        invariant
            from <= to <= s.len(),
            strip_end(s@.subrange(from as int, to as int), c) == strip_end(
                s@.skip(from as int),
                c,
            ),
        decreases to - from,
    {
        assert(s@.subrange(from as int, to as int).drop_last() =~= s@.subrange(
            from as int,
            to - 1,
        ));
        to = to - 1;
    }
    slice_of(s, from, to)
}

/// One key and its value.
pub type Pair = (Seq<char>, Seq<char>);

/// The views of the pairs in `pairs`.
pub open spec fn pairs_of(pairs: Seq<(String, String)>) -> Seq<Pair> {
    pairs.map_values(|p: (String, String)| (p.0@, p.1@))
}

/// The value of the last pair with this key.
pub open spec fn value_of(pairs: Seq<Pair>, key: Seq<char>) -> Option<Seq<char>>
    decreases pairs.len(),
{
    if pairs.len() == 0 {
        None
    } else if pairs.last().0 == key {
        Some(pairs.last().1)
    } else {
        value_of(pairs.drop_last(), key)
    }
}

/// Computes `value_of`.
pub fn find_value(pairs: &Vec<(String, String)>, key: &str) -> (found: Option<String>)
    ensures
        view_of(found) == value_of(pairs_of(pairs@), key@),
{
    let wanted = String::from_str(key);
    let mut i: usize = pairs.len();
    assert(pairs_of(pairs@).take(i as int) =~= pairs_of(pairs@));
    while i > 0
        invariant
            i <= pairs.len(),
            wanted@ == key@,
            value_of(pairs_of(pairs@).take(i as int), key@) == value_of(pairs_of(pairs@), key@),
        decreases i,
    {
        let ghost shown = pairs_of(pairs@).take(i as int);
        assert(shown.drop_last() =~= pairs_of(pairs@).take(i - 1));
        assert(shown.last() == (pairs@[i - 1].0@, pairs@[i - 1].1@));
        i = i - 1;
        if pairs[i].0 == wanted {
            return Some(pairs[i].1.clone());
        }
    }
    None
}

/// Whether `s` is the text of `literal`.
pub fn is_text(s: &Vec<char>, literal: &str) -> (same: bool)
    ensures
        same == (s@ == literal@),
{
    same_chars(s, &chars_of(literal))
}

/// Whether `c` is a decimal digit.
pub open spec fn is_digit(c: char) -> bool {
    '0' <= c && c <= '9'
}

/// The number that a sequence of decimal digits stands for.
pub open spec fn digits_value(digits: Seq<char>) -> nat
    decreases digits.len(),
{
    if digits.len() == 0 {
        0
    } else {
        digits_value(digits.drop_last()) * 10 + ((digits.last() as u8) - ('0' as u8)) as nat
    }
}

/// Whether `s` is made of decimal digits only.
pub open spec fn all_digits(s: Seq<char>) -> bool {
    forall|i: int| 0 <= i < s.len() ==> is_digit(#[trigger] s[i])
}

/// The number up to `max` that `s` is the decimal notation of: one or more
/// digits, with a plus sign before them or without. `None` for any other
/// text and for a number above `max`.
pub open spec fn unsigned_of(s: Seq<char>, max: nat) -> Option<nat> {
    let digits = if s.len() > 0 && s[0] == '+' {
        s.skip(1)
    } else {
        s
    };
    if digits.len() > 0 && all_digits(digits) && digits_value(digits) <= max {
        Some(digits_value(digits))
    } else {
        None
    }
}

/// A longer sequence of digits stands for no smaller a number.
proof fn lemma_digits_grow(digits: Seq<char>, n: int)
    requires
        0 <= n <= digits.len(),
        all_digits(digits),
    ensures
        digits_value(digits.take(n)) <= digits_value(digits),
    decreases digits.len() - n,
{
    if n < digits.len() {
        assert(digits.take(n + 1).drop_last() =~= digits.take(n));
        lemma_digits_grow(digits, n + 1);
    } else {
        assert(digits.take(n) =~= digits);
    }
}

/// Computes `unsigned_of`.
pub fn parse_unsigned(s: &Vec<char>, max: u64) -> (number: Option<u64>)
    ensures
        match (number, unsigned_of(s@, max as nat)) {
            (Some(n), Some(wanted)) => n == wanted,
            (None, None) => true,
            _ => false,
        },
{
    let from: usize = if s.len() > 0 && s[0] == '+' {
        1
    } else {
        0
    };
    let ghost digits = s@.skip(from as int);
    assert(s@.skip(0) =~= s@);
    assert(digits == if s@.len() > 0 && s@[0] == '+' {
        s@.skip(1)
    } else {
        s@
    });
    if from == s.len() {
        return None;
    }
    let mut value: u64 = 0;
    let mut i: usize = from;
    assert(digits.take(0) =~= Seq::<char>::empty());
    while i < s.len()
        invariant
            from <= i <= s.len(),
            digits == s@.skip(from as int),
            digits == if s@.len() > 0 && s@[0] == '+' {
                s@.skip(1)
            } else {
                s@
            },
            all_digits(digits.take(i - from)),
            value == digits_value(digits.take(i - from)),
            value <= max,
        decreases s.len() - i,
    {
        let c = s[i];
        let ghost shown = digits.take(i - from + 1);
        assert(shown.drop_last() =~= digits.take(i - from));
        assert(shown.last() == c);
        if !(c >= '0' && c <= '9') {
            assert(!is_digit(digits[i - from]));
            return None;
        }
        let d: u64 = ((c as u8) - ('0' as u8)) as u64;
        if d > max || value > (max - d) / 10 {
            proof {
                assert(digits_value(shown) > max) by (nonlinear_arith)
                    requires
                        digits_value(shown) == value * 10 + d,
                        d > max || value > (max - d) / 10,
                        d <= 9,
                ;
                if all_digits(digits) {
                    lemma_digits_grow(digits, i - from + 1);
                }
            }
            return None;
        }
        assert(value * 10 + d <= max) by (nonlinear_arith)
            requires
                value <= (max - d) / 10,
                d <= max,
        ;
        value = value * 10 + d;
        i = i + 1;
        assert(all_digits(shown)) by {
            assert forall|k: int| 0 <= k < shown.len() implies is_digit(#[trigger] shown[k]) by {
                if k < shown.len() - 1 {
                    assert(shown[k] == digits.take(i - 1 - from)[k]);
                }
            }
        }
    }
    assert(digits.take(s.len() - from) =~= digits);
    Some(value)
}

/// Whether `s` ends with `suffix`.
pub open spec fn ends_with(s: Seq<char>, suffix: Seq<char>) -> bool {
    occurs_at(s, s.len() - suffix.len(), suffix)
}

/// Decides `ends_with`.
pub fn has_suffix(s: &Vec<char>, suffix: &Vec<char>) -> (found: bool)
    ensures
        found == ends_with(s@, suffix@),
{
    if suffix.len() > s.len() {
        return false;
    }
    token_at(s, s.len() - suffix.len(), suffix)
}

/// Computes `to_ascii_lower`.
pub fn ascii_lowercase(s: &Vec<char>) -> (out: Vec<char>)
    ensures
        out@ == to_ascii_lower(s@),
{
    let mut out: Vec<char> = Vec::new();
    let mut i: usize = 0;
    while i < s.len()
        invariant
            i <= s.len(),
            out@ == to_ascii_lower(s@.take(i as int)),
        decreases s.len() - i,
    {
        out.push(lower_char(s[i]));
        i = i + 1;
        assert(to_ascii_lower(s@.take(i as int)) =~= to_ascii_lower(s@.take(i - 1)).push(
            ascii_lower(s@[i - 1]),
        ));
    }
    assert(s@.take(s.len() as int) =~= s@);
    out
}

/// The hexadecimal digit for `d`, where `d` is below 16, with capitals for
/// the digits above nine where `upper` says so.
pub open spec fn hex_digit(d: nat, upper: bool) -> char {
    if d < 10 {
        (('0' as u8) + (d as u8)) as char
    } else if upper {
        (('A' as u8) + ((d - 10) as u8)) as char
    } else {
        (('a' as u8) + ((d - 10) as u8)) as char
    }
}

/// A byte as two hexadecimal digits.
pub open spec fn hex_pair(b: u8, upper: bool) -> Seq<char> {
    seq![hex_digit((b / 16) as nat, upper), hex_digit((b % 16) as nat, upper)]
}

/// Computes `hex_digit`.
pub fn hex_char(d: u8, upper: bool) -> (c: char)
    requires
        d < 16,
    ensures
        c == hex_digit(d as nat, upper),
{
    if d < 10 {
        (('0' as u8) + d) as char
    } else if upper {
        (('A' as u8) + (d - 10)) as char
    } else {
        (('a' as u8) + (d - 10)) as char
    }
}

/// Bytes as hexadecimal digits in lower case, two for each byte.
pub open spec fn hex_lower(bytes: Seq<u8>) -> Seq<char>
    decreases bytes.len(),
{
    if bytes.len() == 0 {
        Seq::empty()
    } else {
        hex_lower(bytes.drop_last()) + hex_pair(bytes.last(), false)
    }
}

/// Computes `hex_lower`.
pub fn hex_lower_chars(bytes: &Vec<u8>) -> (out: Vec<char>)
    ensures
        out@ == hex_lower(bytes@),
{
    let mut out: Vec<char> = Vec::new();
    let mut i: usize = 0;
    assert(bytes@.take(0) =~= Seq::<u8>::empty());
    while i < bytes.len()
        invariant
            i <= bytes.len(),
            out@ == hex_lower(bytes@.take(i as int)),
        decreases bytes.len() - i,
    {
        let b = bytes[i];
        let ghost before = out@;
        out.push(hex_char(b / 16, false));
        out.push(hex_char(b % 16, false));
        i = i + 1;
        assert(bytes@.take(i as int).drop_last() =~= bytes@.take(i - 1));
        assert(out@ =~= before + hex_pair(b, false));
    }
    assert(bytes@.take(bytes.len() as int) =~= bytes@);
    out
}

} // verus!
