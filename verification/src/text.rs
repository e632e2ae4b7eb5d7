//! Text as a sequence of characters: classes of characters, searching,
//! trimming and lower-casing.

use vstd::prelude::*;
use vstd::slice::slice_subrange;

verus! {

/// What `char::is_whitespace` of std says of `c`: whether `c` has the
/// Unicode property `White_Space`.
pub uninterp spec fn unicode_whitespace(c: char) -> bool;

/// What `char::is_alphabetic` of std says of `c`: whether `c` has the Unicode
/// property `Alphabetic`.
pub uninterp spec fn unicode_alphabetic(c: char) -> bool;

/// What `char::is_alphanumeric` of std says of `c`: whether `c` is alphabetic
/// or numeric in Unicode's sense.
pub uninterp spec fn unicode_alphanumeric(c: char) -> bool;

/// Whether `c` is one of the 128 characters of ASCII.
pub open spec fn is_ascii(c: char) -> bool {
    c <= '\u{7f}'
}

/// Whether `c` is white space: in ASCII the space and the characters from
/// the tabulator to the carriage return, elsewhere what Unicode says.
pub open spec fn whitespace(c: char) -> bool {
    if is_ascii(c) {
        c == ' ' || ('\t' <= c && c <= '\r')
    } else {
        unicode_whitespace(c)
    }
}

/// Whether `c` is a letter: in ASCII `a` to `z` and `A` to `Z`, elsewhere
/// what Unicode says.
pub open spec fn alphabetic(c: char) -> bool {
    if is_ascii(c) {
        ('a' <= c && c <= 'z') || ('A' <= c && c <= 'Z')
    } else {
        unicode_alphabetic(c)
    }
}

/// Whether `c` is a letter or a digit: in ASCII a letter or `0` to `9`,
/// elsewhere what Unicode says.
pub open spec fn alphanumeric(c: char) -> bool {
    if is_ascii(c) {
        alphabetic(c) || ('0' <= c && c <= '9')
    } else {
        unicode_alphanumeric(c)
    }
}

/// `char::is_whitespace` of std. The result is the Unicode property
/// `White_Space` of `c`, a function of `c` alone. Of the characters of ASCII
/// the space and those from U+0009 to U+000D have the property, in every
/// version of Unicode's property list.
#[verifier::external_body]
fn char_is_whitespace(c: char) -> (b: bool)
    ensures
        b == unicode_whitespace(c),
        is_ascii(c) ==> b == (c == ' ' || ('\t' <= c && c <= '\r')),
{
    c.is_whitespace()
}

/// `char::is_alphabetic` of std. The result is the Unicode property
/// `Alphabetic` of `c`, a function of `c` alone. Of the characters of ASCII
/// the letters `a` to `z` and `A` to `Z` have the property.
#[verifier::external_body]
fn char_is_alphabetic(c: char) -> (b: bool)
    ensures
        b == unicode_alphabetic(c),
        is_ascii(c) ==> b == (('a' <= c && c <= 'z') || ('A' <= c && c <= 'Z')),
{
    c.is_alphabetic()
}

/// `char::is_alphanumeric` of std. The result says whether `c` is alphabetic
/// or numeric in Unicode's sense, a function of `c` alone; so it holds of
/// every alphabetic character. Of the characters of ASCII it holds of the
/// letters and of the digits `0` to `9`.
#[verifier::external_body]
fn char_is_alphanumeric(c: char) -> (b: bool)
    ensures
        b == unicode_alphanumeric(c),
        unicode_alphabetic(c) ==> b,
        is_ascii(c) ==> b == (('a' <= c && c <= 'z') || ('A' <= c && c <= 'Z') || ('0' <= c && c
            <= '9')),
{
    c.is_alphanumeric()
}

/// Tests whether `c` is white space.
pub fn is_whitespace(c: char) -> (b: bool)
    ensures
        b == whitespace(c),
{
    char_is_whitespace(c)
}

/// Tests whether `c` is a letter.
pub fn is_alphabetic(c: char) -> (b: bool)
    ensures
        b == alphabetic(c),
{
    char_is_alphabetic(c)
}

/// Tests whether `c` is a letter or a digit.
pub fn is_alphanumeric(c: char) -> (b: bool)
    ensures
        b == alphanumeric(c),
{
    char_is_alphanumeric(c)
}

/// A set of characters that a search looks for.
#[derive(Clone, Copy, Debug)]
pub enum Class {
    /// The one character.
    Exactly(char),
    /// White space.
    Space,
    /// Anything but white space.
    NonSpace,
    /// White space or a comma.
    SpaceOrComma,
    /// Anything but a letter or a digit.
    NonAlphanumeric,
    /// A letter or a dot.
    LetterOrDot,
    /// A letter, a digit or an underscore.
    Identifier,
}

impl Class {
    /// Whether `c` belongs to the class.
    pub open spec fn holds(self, c: char) -> bool {
        match self {
            Class::Exactly(x) => c == x,
            Class::Space => whitespace(c),
            Class::NonSpace => !whitespace(c),
            Class::SpaceOrComma => whitespace(c) || c == ',',
            Class::NonAlphanumeric => !alphanumeric(c),
            Class::LetterOrDot => alphabetic(c) || c == '.',
            Class::Identifier => alphanumeric(c) || c == '_',
        }
    }

    /// Tests whether `c` belongs to the class.
    pub fn contains(&self, c: char) -> (b: bool)
        ensures
            b == self.holds(c),
    {
        match self {
            Class::Exactly(x) => c == *x,
            Class::Space => is_whitespace(c),
            Class::NonSpace => !is_whitespace(c),
            Class::SpaceOrComma => is_whitespace(c) || c == ',',
            Class::NonAlphanumeric => !is_alphanumeric(c),
            Class::LetterOrDot => is_alphabetic(c) || c == '.',
            Class::Identifier => is_alphanumeric(c) || c == '_',
        }
    }
}

/// The first position at or after `from` whose character belongs to `class`,
/// or the length of `s` where there is none.
pub open spec fn first_from(s: Seq<char>, class: Class, from: int) -> int
    decreases s.len() - from,
{
    if from >= s.len() {
        s.len() as int
    } else if class.holds(s[from]) {
        from
    } else {
        first_from(s, class, from + 1)
    }
}

/// The first position whose character belongs to `class`, or the length of
/// `s` where there is none.
pub open spec fn first(s: Seq<char>, class: Class) -> int {
    first_from(s, class, 0)
}

/// Whether every character of `s` belongs to `class`.
pub open spec fn all(s: Seq<char>, class: Class) -> bool {
    forall|i: int| 0 <= i < s.len() ==> class.holds(#[trigger] s[i])
}

/// The position that nothing of the class precedes and that belongs to the
/// class, or is the length, is `first_from`.
pub proof fn lemma_first_from_is(s: Seq<char>, class: Class, from: int, at: int)
    requires
        0 <= from <= at <= s.len(),
        forall|i: int| from <= i < at ==> !class.holds(#[trigger] s[i]),
        at < s.len() ==> class.holds(s[at]),
    ensures
        first_from(s, class, from) == at,
    decreases at - from,
{
    if from < at {
        lemma_first_from_is(s, class, from + 1, at);
    }
}

/// Finds the first character of `s` that belongs to `class`.
pub fn find(s: &[char], class: Class) -> (at: usize)
    ensures
        at == first(s@, class),
        at <= s@.len(),
        forall|i: int| 0 <= i < at ==> !class.holds(#[trigger] s@[i]),
        at < s@.len() ==> class.holds(s@[at as int]),
{
    let mut i: usize = 0;
    while i < s.len()
        invariant
            i <= s@.len(),
            forall|j: int| 0 <= j < i ==> !class.holds(#[trigger] s@[j]),
        decreases s@.len() - i,
    {
        if class.contains(s[i]) {
            proof {
                lemma_first_from_is(s@, class, 0, i as int);
            }
            return i;
        }
        i += 1;
    }
    proof {
        lemma_first_from_is(s@, class, 0, i as int);
    }
    i
}

/// Tests whether every character of `s` belongs to `class`.
pub fn every(s: &[char], class: Class) -> (b: bool)
    ensures
        b == all(s@, class),
{
    let mut i: usize = 0;
    while i < s.len()
        invariant
            i <= s@.len(),
            forall|j: int| 0 <= j < i ==> class.holds(#[trigger] s@[j]),
        decreases s@.len() - i,
    {
        if !class.contains(s[i]) {
            return false;
        }
        i += 1;
    }
    true
}

/// `s` without the white space at its start.
pub open spec fn trimmed_start(s: Seq<char>) -> Seq<char> {
    s.skip(first(s, Class::NonSpace))
}

/// The length of `s` without the white space at its end.
pub open spec fn trimmed_len(s: Seq<char>) -> int
    decreases s.len(),
{
    if s.len() > 0 && whitespace(s.last()) {
        trimmed_len(s.drop_last())
    } else {
        s.len() as int
    }
}

/// `s` without the white space at its end.
pub open spec fn trimmed_end(s: Seq<char>) -> Seq<char> {
    s.take(trimmed_len(s))
}

/// `s` without the white space at its start and at its end.
pub open spec fn trimmed(s: Seq<char>) -> Seq<char> {
    trimmed_end(trimmed_start(s))
}

/// Removes the white space at the start of `s`.
pub fn trim_start(s: &[char]) -> (r: &[char])
    ensures
        r@ == trimmed_start(s@),
{
    let at = find(s, Class::NonSpace);
    slice_subrange(s, at, s.len())
}

/// Removes the white space at the end of `s`.
pub fn trim_end(s: &[char]) -> (r: &[char])
    ensures
        r@ == trimmed_end(s@),
{
    let mut n: usize = s.len();
    assert(s@.take(n as int) =~= s@);
    while n > 0 && is_whitespace(s[n - 1])
        invariant
            n <= s@.len(),
            trimmed_len(s@) == trimmed_len(s@.take(n as int)),
        decreases n,
    {
        assert(s@.take(n as int).drop_last() =~= s@.take(n - 1));
        n -= 1;
    }
    slice_subrange(s, 0, n)
}

/// Removes the white space at both ends of `s`.
pub fn trim(s: &[char]) -> (r: &[char])
    ensures
        r@ == trimmed(s@),
{
    trim_end(trim_start(s))
}

/// The characters of `s` before position `at`.
pub fn before(s: &[char], at: usize) -> (r: &[char])
    requires
        at <= s@.len(),
    ensures
        r@ == s@.take(at as int),
{
    slice_subrange(s, 0, at)
}

/// The characters of `s` from position `at` on.
pub fn after(s: &[char], at: usize) -> (r: &[char])
    requires
        at <= s@.len(),
    ensures
        r@ == s@.skip(at as int),
{
    slice_subrange(s, at, s.len())
}

/// `c` with the capital letters `A` to `Z` turned into small ones.
pub open spec fn ascii_lower(c: char) -> char {
    if 'A' <= c && c <= 'Z' {
        ((c as u8) + 32) as char
    } else {
        c
    }
}

/// `s` with the capital letters `A` to `Z` turned into small ones.
pub open spec fn lowered(s: Seq<char>) -> Seq<char> {
    Seq::new(s.len(), |i: int| ascii_lower(s[i]))
}

/// Turns the capital letters `A` to `Z` into small ones.
pub fn lower(s: &[char]) -> (r: Vec<char>)
    ensures
        r@ == lowered(s@),
{
    let mut r: Vec<char> = Vec::new();
    let mut i: usize = 0;
    while i < s.len()
        invariant
            i <= s@.len(),
            r@.len() == i,
            forall|j: int| 0 <= j < i ==> r@[j] == ascii_lower(s@[j]),
        decreases s@.len() - i,
    {
        let c = s[i];
        let l = if 'A' <= c && c <= 'Z' {
            ((c as u8) + 32) as char
        } else {
            c
        };
        r.push(l);
        i += 1;
    }
    assert(r@ =~= lowered(s@));
    r
}

/// Whether `s` starts with the characters of `prefix`.
pub open spec fn starts_with(s: Seq<char>, prefix: Seq<char>) -> bool {
    prefix.len() <= s.len() && s.take(prefix.len() as int) == prefix
}

/// Tests whether `s` starts with `prefix`.
pub fn has_prefix(s: &[char], prefix: &str) -> (b: bool)
    ensures
        b == starts_with(s@, prefix@),
{
    let n = prefix.unicode_len();
    if s.len() < n {
        return false;
    }
    let mut i: usize = 0;
    while i < n
        invariant
            i <= n,
            n <= s@.len(),
            n == prefix@.len(),
            forall|j: int| 0 <= j < i ==> s@[j] == prefix@[j],
        decreases n - i,
    {
        if s[i] != prefix.get_char(i) {
            assert(s@.take(n as int)[i as int] != prefix@[i as int]);
            return false;
        }
        i += 1;
    }
    assert(s@.take(n as int) =~= prefix@);
    true
}

/// Tests whether `s` is the text `word`.
pub fn is_word(s: &[char], word: &str) -> (b: bool)
    ensures
        b == (s@ == word@),
{
    let n = word.unicode_len();
    if s.len() != n {
        return false;
    }
    let b = has_prefix(s, word);
    assert(s@.take(n as int) =~= s@);
    b
}

/// The characters of `s`.
pub fn chars_of(s: &str) -> (v: Vec<char>)
    ensures
        v@ == s@,
{
    let mut v: Vec<char> = Vec::new();
    for c in it: s.chars()
        invariant
            v@ == it.seq().take(it.index() as int),
            it.seq() == s@,
    {
        v.push(c);
    }
    v
}

/// A copy of the characters of `s`.
pub fn copy_of(s: &[char]) -> (v: Vec<char>)
    ensures
        v@ == s@,
{
    vstd::slice::slice_to_vec(s)
}

} // verus!
