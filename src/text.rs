use vstd::prelude::*;

verus! {

/// The result of `char::is_alphabetic`: whether a character has the
/// Unicode `Alphabetic` property.
pub uninterp spec fn alphabetic(c: char) -> bool;

/// The result of `char::is_alphanumeric`: whether a character is
/// alphabetic or numeric in the Unicode sense.
pub uninterp spec fn alphanumeric(c: char) -> bool;

/// The result of `char::is_whitespace`: whether a character has the
/// Unicode `White_Space` property.
pub uninterp spec fn whitespace(c: char) -> bool;

/// Relies on `char::is_alphabetic`, which reports the `Alphabetic` property.
#[verifier::external_body]
fn is_alphabetic(c: char) -> (r: bool)
    ensures
        r == alphabetic(c),
{
    c.is_alphabetic()
}

/// Relies on `char::is_alphanumeric`, which reports whether a character is
/// alphabetic or numeric.
#[verifier::external_body]
fn is_alphanumeric(c: char) -> (r: bool)
    ensures
        r == alphanumeric(c),
{
    c.is_alphanumeric()
}

/// Relies on `char::is_whitespace`, which reports the `White_Space` property.
#[verifier::external_body]
fn is_whitespace(c: char) -> (r: bool)
    ensures
        r == whitespace(c),
{
    c.is_whitespace()
}

/// An ASCII decimal digit.
pub open spec fn ascii_digit(c: char) -> bool {
    '0' <= c && c <= '9'
}

/// The character classes that the lexer scans runs of.
#[derive(Clone, Copy, Debug, PartialEq, Eq)]
pub enum CharClass {
    /// Letters, digits and `_`: identifiers, keywords, lifetime names.
    Word,
    /// Letters, digits and `-`: style property and selector names.
    StyleName,
    /// ASCII decimal digits.
    Digit,
    /// Alphabetic characters: style units such as `px`.
    Alpha,
    /// White space.
    Space,
    /// Anything but `<`, `{` and `}`, which end a markup text run.
    MarkupText,
    /// Anything but `{` and a newline, which end a raw style selector.
    Selector,
    /// Anything but `;` and `}`, which end a raw style value.
    StyleValue,
    /// Anything but a newline, which ends a line comment.
    LineRest,
}

/// Whether `c` belongs to class `k`.
pub open spec fn in_class(k: CharClass, c: char) -> bool {
    match k {
        CharClass::Word => alphanumeric(c) || c == '_',
        CharClass::StyleName => alphanumeric(c) || c == '-',
        CharClass::Digit => ascii_digit(c),
        CharClass::Alpha => alphabetic(c),
        CharClass::Space => whitespace(c),
        CharClass::MarkupText => c != '<' && c != '{' && c != '}',
        CharClass::Selector => c != '{' && c != '\n',
        CharClass::StyleValue => c != ';' && c != '}',
        CharClass::LineRest => c != '\n',
    }
}

/// Decides `in_class`.
pub fn class_contains(k: CharClass, c: char) -> (r: bool)
    ensures
        r == in_class(k, c),
{
    match k {
        CharClass::Word => is_alphanumeric(c) || c == '_',
        CharClass::StyleName => is_alphanumeric(c) || c == '-',
        CharClass::Digit => '0' <= c && c <= '9',
        CharClass::Alpha => is_alphabetic(c),
        CharClass::Space => is_whitespace(c),
        CharClass::MarkupText => c != '<' && c != '{' && c != '}',
        CharClass::Selector => c != '{' && c != '\n',
        CharClass::StyleValue => c != ';' && c != '}',
        CharClass::LineRest => c != '\n',
    }
}

/// `s` without its leading white space.
pub open spec fn trim_start(s: Seq<char>) -> Seq<char>
    decreases s.len(),
{
    if s.len() > 0 && whitespace(s[0]) {
        trim_start(s.drop_first())
    } else {
        s
    }
}

/// `s` without its trailing white space.
pub open spec fn trim_end(s: Seq<char>) -> Seq<char>
    decreases s.len(),
{
    if s.len() > 0 && whitespace(s.last()) {
        trim_end(s.drop_last())
    } else {
        s
    }
}

/// `s` without its leading and trailing white space.
pub open spec fn trimmed(s: Seq<char>) -> Seq<char> {
    trim_end(trim_start(s))
}

/// The first index in `from..to` from which `cs[.. to]` holds no leading
/// white space.
pub fn trim_start_bound(cs: &[char], from: usize, to: usize) -> (a: usize)
    requires
        from <= to <= cs@.len(),
    ensures
        from <= a <= to,
        cs@.subrange(a as int, to as int) == trim_start(cs@.subrange(from as int, to as int)),
{
    let mut a = from;
    while a < to && is_whitespace(cs[a])
        invariant
            from <= a <= to <= cs@.len(),
            trim_start(cs@.subrange(a as int, to as int)) == trim_start(
                cs@.subrange(from as int, to as int),
            ),
        decreases to - a,
    {
        assert(cs@.subrange(a as int, to as int).drop_first() =~= cs@.subrange(
            a + 1,
            to as int,
        ));
        a += 1;
    }
    a
}

/// The end of `cs[from .. to]` once its trailing white space is dropped.
pub fn trim_end_bound(cs: &[char], from: usize, to: usize) -> (b: usize)
    requires
        from <= to <= cs@.len(),
    ensures
        from <= b <= to,
        cs@.subrange(from as int, b as int) == trim_end(cs@.subrange(from as int, to as int)),
{
    let mut b = to;
    while b > from && is_whitespace(cs[b - 1])
        invariant
            from <= b <= to <= cs@.len(),
            trim_end(cs@.subrange(from as int, b as int)) == trim_end(
                cs@.subrange(from as int, to as int),
            ),
        decreases b,
    {
        assert(cs@.subrange(from as int, b as int).drop_last() =~= cs@.subrange(
            from as int,
            b - 1,
        ));
        b -= 1;
    }
    b
}

/// The bounds of `cs[from .. to]` once its outer white space is dropped.
pub fn trim_bounds(cs: &[char], from: usize, to: usize) -> (r: (usize, usize))
    requires
        from <= to <= cs@.len(),
    ensures
        from <= r.0 <= r.1 <= to,
        cs@.subrange(r.0 as int, r.1 as int) == trimmed(cs@.subrange(from as int, to as int)),
{
    let a = trim_start_bound(cs, from, to);
    let b = trim_end_bound(cs, a, to);
    (a, b)
}

/// Relies on `FromIterator<&char> for String`: the string holds the
/// characters of `cs` in order.
#[verifier::external_body]
fn collect_string(cs: &[char]) -> (r: String)
    ensures
        r@ == cs@,
{
    cs.iter().collect()
}

/// The string made of `cs[from .. to]`.
pub fn string_of(cs: &[char], from: usize, to: usize) -> (r: String)
    requires
        from <= to <= cs@.len(),
    ensures
        r@ == cs@.subrange(from as int, to as int),
{
    collect_string(&cs[from..to])
}

/// The one-character string `c`.
pub fn char_string(c: char) -> (r: String)
    ensures
        r@ == seq![c],
{
    let mut v: Vec<char> = Vec::new();
    v.push(c);
    assert(v@ =~= seq![c]);
    string_of(v.as_slice(), 0, 1)
}

/// Whether `cs[from .. to]` spells `word`.
pub fn spells(cs: &[char], from: usize, to: usize, word: &str) -> (r: bool)
    requires
        from <= to <= cs@.len(),
    ensures
        r == (cs@.subrange(from as int, to as int) == word@),
{
    let n = word.unicode_len();
    if to - from != n {
        return false;
    }
    let mut i: usize = 0;
    while i < n
        invariant
            from <= to <= cs@.len(),
            to - from == n == word@.len(),
            i <= n,
            forall|j: int| 0 <= j < i ==> cs@[from + j] == word@[j],
        decreases n - i,
    {
        if cs[from + i] != word.get_char(i) {
            assert(cs@.subrange(from as int, to as int)[i as int] != word@[i as int]);
            return false;
        }
        i += 1;
    }
    assert(cs@.subrange(from as int, to as int) =~= word@);
    true
}

/// The characters of `s`, in order.
pub fn chars_of(s: &str) -> (r: Vec<char>)
    ensures
        r@ == s@,
{
    broadcast use vstd::string::axiom_spec_iter;

    let mut out: Vec<char> = Vec::new();
    for c in it: s.chars()
        invariant
            out@ == it.seq().take(it.index() as int),
    {
        out.push(c);
    }
    assert(out@ =~= s@);
    out
}

} // verus!
