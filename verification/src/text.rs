//! Text as a sequence of characters: the operations on strings that the rest of
//! the library is written with, each with its meaning as a function on
//! `Seq<char>`.

use vstd::prelude::*;

pub mod laws;

verus! {

/// Appends one character to a string: `String::push`. The string afterwards
/// holds what it held before, followed by the character.
pub assume_specification[ String::push ](s: &mut String, c: char)
    ensures
        final(s)@ == old(s)@.push(c),
;

/// The views of a sequence of strings.
pub open spec fn views(v: Seq<String>) -> Seq<Seq<char>> {
    Seq::new(v.len(), |i: int| v[i]@)
}

/// The views of a sequence of string slices.
pub open spec fn slice_views(v: Seq<&str>) -> Seq<Seq<char>> {
    Seq::new(v.len(), |i: int| v[i]@)
}

/// The view of an optional string.
pub open spec fn opt_view(o: Option<String>) -> Option<Seq<char>> {
    match o {
        Some(s) => Some(s@),
        None => None,
    }
}

/// The view of an optional string slice.
pub open spec fn opt_str_view(o: Option<&str>) -> Option<Seq<char>> {
    match o {
        Some(s) => Some(s@),
        None => None,
    }
}

// ---------------------------------------------------------------------------
// Characters
// ---------------------------------------------------------------------------

/// The Unicode `White_Space` property.
pub open spec fn is_white(c: char) -> bool {
    ||| '\u{9}' <= c <= '\u{d}'
    ||| c == ' '
    ||| c == '\u{85}'
    ||| c == '\u{a0}'
    ||| c == '\u{1680}'
    ||| '\u{2000}' <= c <= '\u{200a}'
    ||| c == '\u{2028}'
    ||| c == '\u{2029}'
    ||| c == '\u{202f}'
    ||| c == '\u{205f}'
    ||| c == '\u{3000}'
}

/// The classes of characters that are trimmed somewhere.
#[derive(Clone, Copy, PartialEq, Eq, Structural)]
pub enum CharClass {
    /// Unicode white space.
    White,
    /// Carriage return and line feed.
    LineEnd,
    /// The punctuation that may end a sentence: `.!?,;:`.
    Punctuation,
    /// One character.
    One(char),
}

impl CharClass {
    pub open spec fn holds(self, c: char) -> bool {
        match self {
            CharClass::White => is_white(c),
            CharClass::LineEnd => c == '\r' || c == '\n',
            CharClass::Punctuation => c == '.' || c == '!' || c == '?' || c == ',' || c == ';'
                || c == ':',
            CharClass::One(d) => c == d,
        }
    }

    /// Whether `c` belongs to the class.
    pub fn has(self, c: char) -> (r: bool)
        ensures
            r == self.holds(c),
    {
        match self {
            CharClass::White => is_whitespace(c),
            CharClass::LineEnd => c == '\r' || c == '\n',
            CharClass::Punctuation => c == '.' || c == '!' || c == '?' || c == ',' || c == ';'
                || c == ':',
            CharClass::One(d) => c == d,
        }
    }
}

/// Whether `c` is Unicode white space.
pub fn is_whitespace(c: char) -> (r: bool)
    ensures
        r == is_white(c),
{
    ('\u{9}' <= c && c <= '\u{d}') || c == ' ' || c == '\u{85}' || c == '\u{a0}' || c == '\u{1680}'
        || ('\u{2000}' <= c && c <= '\u{200a}') || c == '\u{2028}' || c == '\u{2029}' || c
        == '\u{202f}' || c == '\u{205f}' || c == '\u{3000}'
}

/// The lower-case form of an ASCII letter; any other character itself.
pub open spec fn ascii_lower_char(c: char) -> char {
    if 'A' <= c <= 'Z' {
        ((c as u32 + 32) as u32) as char
    } else {
        c
    }
}

/// `s` with its ASCII letters in lower case.
pub open spec fn ascii_lower(s: Seq<char>) -> Seq<char> {
    Seq::new(s.len(), |i: int| ascii_lower_char(s[i]))
}

pub open spec fn all_ascii(s: Seq<char>) -> bool {
    forall|i: int| 0 <= i < s.len() ==> (#[trigger] s[i]) <= '\u{7f}'
}

/// The lower-case form of an ASCII letter; any other character itself.
pub fn lower_char(c: char) -> (r: char)
    ensures
        r == ascii_lower_char(c),
{
    if 'A' <= c && c <= 'Z' {
        let n: u8 = c as u8;
        let m: u8 = n + 32;
        m as char
    } else {
        c
    }
}

// ---------------------------------------------------------------------------
// Strings and their characters
// ---------------------------------------------------------------------------

/// The characters of `s`, in order.
pub fn chars_of(s: &str) -> (r: Vec<char>)
    ensures
        r@ == s@,
{
    let mut r: Vec<char> = Vec::new();
    for c in it: s.chars()
        invariant
            it.seq() == s@,
            r@ == s@.take(it.index() as int),
    {
        r.push(c);
    }
    r
}

/// The string that holds the characters of `v`, in order.
pub fn string_of(v: &[char]) -> (r: String)
    ensures
        r@ == v@,
{
    let mut r = String::new();
    let mut i: usize = 0;
    while i < v.len()
        invariant
            i <= v.len(),
            r@ == v@.take(i as int),
        decreases v.len() - i,
    {
        r.push(v[i]);
        i += 1;
    }
    assert(v@.take(v.len() as int) == v@);
    r
}

/// Whether two strings hold the same characters.
pub fn same(a: &str, b: &str) -> (r: bool)
    ensures
        r == (a@ == b@),
{
    let x = chars_of(a);
    let y = chars_of(b);
    same_chars(x.as_slice(), y.as_slice())
}

/// Whether two slices hold the same characters.
pub fn same_chars(x: &[char], y: &[char]) -> (r: bool)
    ensures
        r == (x@ == y@),
{
    if x.len() != y.len() {
        return false;
    }
    let mut i: usize = 0;
    while i < x.len()
        invariant
            i <= x.len(),
            x.len() == y.len(),
            x@.take(i as int) == y@.take(i as int),
        decreases x.len() - i,
    {
        if x[i] != y[i] {
            assert(x@[i as int] != y@[i as int]);
            return false;
        }
        assert(x@.take(i + 1) =~= x@.take(i as int).push(x@[i as int]));
        assert(y@.take(i + 1) =~= y@.take(i as int).push(y@[i as int]));
        i += 1;
    }
    assert(x@.take(x.len() as int) =~= x@);
    assert(y@.take(y.len() as int) =~= y@);
    true
}

/// Whether two optional strings are both absent, or both there and the same.
pub fn same_opt(a: Option<&str>, b: Option<&str>) -> (r: bool)
    ensures
        r == (opt_str_view(a) == opt_str_view(b)),
{
    match (a, b) {
        (Some(x), Some(y)) => same(x, y),
        (None, None) => true,
        _ => false,
    }
}

/// A slice of an optional string.
pub fn opt_str(o: &Option<String>) -> (r: Option<&str>)
    ensures
        opt_str_view(r) == opt_view(*o),
{
    match o {
        Some(s) => Some(s.as_str()),
        None => None,
    }
}

/// An owned copy of an optional string slice.
pub fn opt_owned(o: Option<&str>) -> (r: Option<String>)
    ensures
        opt_view(r) == opt_str_view(o),
{
    match o {
        Some(s) => Some(s.to_owned()),
        None => None,
    }
}

/// Copies of strings, in order.
pub fn clone_strings(v: &Vec<String>) -> (r: Vec<String>)
    ensures
        r@ == v@,
{
    let mut r: Vec<String> = Vec::new();
    let mut i: usize = 0;
    while i < v.len()
        invariant
            i <= v.len(),
            r@ == v@.take(i as int),
        decreases v.len() - i,
    {
        let s = v[i].clone();
        assert(s == v@[i as int]);
        r.push(s);
        i += 1;
    }
    assert(v@.take(v.len() as int) == v@);
    r
}

/// `s` with its ASCII letters in lower case.
pub fn to_ascii_lower(s: &str) -> (r: String)
    ensures
        r@ == ascii_lower(s@),
{
    let v = chars_of(s);
    let mut r = String::new();
    let mut i: usize = 0;
    while i < v.len()
        invariant
            i <= v.len(),
            r@ == ascii_lower(v@).take(i as int),
        decreases v.len() - i,
    {
        r.push(lower_char(v[i]));
        i += 1;
    }
    assert(ascii_lower(v@).take(v.len() as int) == ascii_lower(v@));
    r
}

pub uninterp spec fn lowercased(s: Seq<char>) -> Seq<char>;

/// Lower case by Unicode's rules: `str::to_lowercase`. What it gives is a
/// function of the text; on ASCII text it is `ascii_lower`.
#[verifier::external_body]
pub(crate) fn to_lowercase(s: &str) -> (r: String)
    ensures
        r@ == lowercased(s@),
        all_ascii(s@) ==> r@ == ascii_lower(s@),
{
    s.to_lowercase()
}

// ---------------------------------------------------------------------------
// Trimming
// ---------------------------------------------------------------------------

/// What is left of `s` once every character of the class is taken from its front.
pub open spec fn drop_leading(s: Seq<char>, k: CharClass) -> Seq<char>
    decreases s.len(),
{
    if s.len() > 0 && k.holds(s[0]) {
        drop_leading(s.drop_first(), k)
    } else {
        s
    }
}

/// What is left of `s` once every character of the class is taken from its end.
pub open spec fn drop_trailing(s: Seq<char>, k: CharClass) -> Seq<char>
    decreases s.len(),
{
    if s.len() > 0 && k.holds(s.last()) {
        drop_trailing(s.drop_last(), k)
    } else {
        s
    }
}

/// `s` without white space at either end.
pub open spec fn trimmed(s: Seq<char>) -> Seq<char> {
    drop_trailing(drop_leading(s, CharClass::White), CharClass::White)
}

pub proof fn lemma_drop_leading_skips(s: Seq<char>, k: CharClass, n: int)
    requires
        0 <= n <= s.len(),
        forall|i: int| 0 <= i < n ==> k.holds(#[trigger] s[i]),
        n < s.len() ==> !k.holds(s[n]),
    ensures
        drop_leading(s, k) == s.skip(n),
    decreases n,
{
    if n == 0 {
        assert(s.skip(0) =~= s);
    } else {
        assert(k.holds(s[0]));
        assert forall|i: int| 0 <= i < n - 1 implies k.holds(#[trigger] s.drop_first()[i]) by {
            assert(s.drop_first()[i] == s[i + 1]);
        }
        lemma_drop_leading_skips(s.drop_first(), k, n - 1);
        assert(s.drop_first().skip(n - 1) =~= s.skip(n));
    }
}

pub proof fn lemma_drop_trailing_takes(s: Seq<char>, k: CharClass, n: int)
    requires
        0 <= n <= s.len(),
        forall|i: int| n <= i < s.len() ==> k.holds(#[trigger] s[i]),
        n > 0 ==> !k.holds(s[n - 1]),
    ensures
        drop_trailing(s, k) == s.take(n),
    decreases s.len() - n,
{
    if n == s.len() {
        assert(s.take(n) =~= s);
    } else {
        assert(k.holds(s[s.len() - 1]));
        lemma_drop_trailing_takes(s.drop_last(), k, n);
        assert(s.drop_last().take(n) =~= s.take(n));
    }
}

/// `s` without the characters of the class at its front.
pub fn trim_start<'a>(s: &'a str, k: CharClass) -> (r: &'a str)
    ensures
        r@ == drop_leading(s@, k),
{
    let v = chars_of(s);
    let mut n: usize = 0;
    while n < v.len() && k.has(v[n])
        invariant
            n <= v.len(),
            forall|i: int| 0 <= i < n ==> k.holds(#[trigger] v@[i]),
        decreases v.len() - n,
    {
        n += 1;
    }
    proof {
        lemma_drop_leading_skips(v@, k, n as int);
    }
    s.substring_char(n, v.len())
}

/// `s` without the characters of the class at its end.
pub fn trim_end<'a>(s: &'a str, k: CharClass) -> (r: &'a str)
    ensures
        r@ == drop_trailing(s@, k),
{
    let v = chars_of(s);
    let mut n: usize = v.len();
    while n > 0 && k.has(v[n - 1])
        invariant
            n <= v.len(),
            forall|i: int| n <= i < v.len() ==> k.holds(#[trigger] v@[i]),
        decreases n,
    {
        n -= 1;
    }
    proof {
        lemma_drop_trailing_takes(v@, k, n as int);
    }
    s.substring_char(0, n)
}

/// `s` without white space at either end.
pub fn trim<'a>(s: &'a str) -> (r: &'a str)
    ensures
        r@ == trimmed(s@),
{
    trim_end(trim_start(s, CharClass::White), CharClass::White)
}

// ---------------------------------------------------------------------------
// Searching
// ---------------------------------------------------------------------------

/// `p` stands in `s` at position `i`.
pub open spec fn occurs_at(s: Seq<char>, p: Seq<char>, i: int) -> bool {
    0 <= i && i + p.len() <= s.len() && s.subrange(i, i + p.len()) == p
}

/// The first position at or after `from` where `p` stands in `s`.
pub open spec fn find_from(s: Seq<char>, p: Seq<char>, from: int) -> Option<int>
    decreases s.len() - from + 1,
{
    if from < 0 || from + p.len() > s.len() {
        None
    } else if occurs_at(s, p, from) {
        Some(from)
    } else {
        find_from(s, p, from + 1)
    }
}

/// The first position where `p` stands in `s`.
pub open spec fn find_first(s: Seq<char>, p: Seq<char>) -> Option<int> {
    find_from(s, p, 0)
}

/// The last position at or before `from` where `p` stands in `s`.
pub open spec fn rfind_from(s: Seq<char>, p: Seq<char>, from: int) -> Option<int>
    decreases from + 1,
{
    if from < 0 {
        None
    } else if occurs_at(s, p, from) {
        Some(from)
    } else {
        rfind_from(s, p, from - 1)
    }
}

/// The last position where `p` stands in `s`.
pub open spec fn find_last(s: Seq<char>, p: Seq<char>) -> Option<int> {
    rfind_from(s, p, s.len() - p.len())
}

pub open spec fn has_prefix(s: Seq<char>, p: Seq<char>) -> bool {
    p.len() <= s.len() && s.take(p.len() as int) == p
}

pub open spec fn has_suffix(s: Seq<char>, p: Seq<char>) -> bool {
    p.len() <= s.len() && s.skip(s.len() - p.len()) == p
}

/// `find_from` is what its name says.
pub proof fn lemma_find_from(s: Seq<char>, p: Seq<char>, from: int)
    requires
        0 <= from,
    ensures
        match find_from(s, p, from) {
            Some(i) => from <= i && occurs_at(s, p, i) && (forall|j: int|
                from <= j < i ==> !#[trigger] occurs_at(s, p, j)),
            None => forall|j: int| from <= j ==> !#[trigger] occurs_at(s, p, j),
        },
    decreases s.len() - from + 1,
{
    if from + p.len() > s.len() {
    } else if occurs_at(s, p, from) {
    } else {
        lemma_find_from(s, p, from + 1);
    }
}

/// A position that is the first is what `find_from` gives.
pub proof fn lemma_find_from_is(s: Seq<char>, p: Seq<char>, from: int, i: int)
    requires
        0 <= from <= i,
        occurs_at(s, p, i),
        forall|j: int| from <= j < i ==> !#[trigger] occurs_at(s, p, j),
    ensures
        find_from(s, p, from) == Some(i),
    decreases i - from,
{
    if from < i {
        assert(!occurs_at(s, p, from));
        lemma_find_from_is(s, p, from + 1, i);
    }
}

/// Whether `p` stands in `v` at position `i`.
pub fn stands_at(v: &[char], p: &[char], i: usize) -> (r: bool)
    ensures
        r == occurs_at(v@, p@, i as int),
{
    if i > v.len() || p.len() > v.len() - i {
        return false;
    }
    let mut k: usize = 0;
    while k < p.len()
        invariant
            k <= p.len(),
            i + p.len() <= v.len(),
            forall|j: int| 0 <= j < k ==> v@[i + j] == #[trigger] p@[j],
        decreases p.len() - k,
    {
        if v[i + k] != p[k] {
            assert(v@.subrange(i as int, i + p.len())[k as int] == v@[i + k]);
            return false;
        }
        k += 1;
    }
    assert(v@.subrange(i as int, i + p.len()) =~= p@);
    true
}

/// The first position at or after `from` where `p` stands in `v`.
pub fn find_chars_from(v: &[char], p: &[char], from: usize) -> (r: Option<usize>)
    ensures
        match r {
            Some(i) => find_from(v@, p@, from as int) == Some(i as int) && i + p.len() <= v.len(),
            None => find_from(v@, p@, from as int) is None,
        },
{
    let mut i: usize = from;
    while i <= v.len() && p.len() <= v.len() - i
        invariant
            from <= i,
            find_from(v@, p@, from as int) == find_from(v@, p@, i as int),
        decreases v.len() - i + 1,
    {
        if stands_at(v, p, i) {
            return Some(i);
        }
        assert(i < v.len()) by {
            if i == v.len() {
                assert(v@.subrange(i as int, i as int) =~= p@);
            }
        }
        i += 1;
    }
    None
}

/// The first position, in characters, where `p` stands in `s`.
pub fn find(s: &str, p: &str) -> (r: Option<usize>)
    ensures
        match r {
            Some(i) => find_first(s@, p@) == Some(i as int) && i + p@.len() <= s@.len(),
            None => find_first(s@, p@) is None,
        },
{
    let v = chars_of(s);
    let q = chars_of(p);
    find_chars_from(v.as_slice(), q.as_slice(), 0)
}

/// The last position, in characters, where `p` stands in `s`.
pub fn rfind(s: &str, p: &str) -> (r: Option<usize>)
    ensures
        match r {
            Some(i) => find_last(s@, p@) == Some(i as int) && i + p@.len() <= s@.len(),
            None => find_last(s@, p@) is None,
        },
{
    let v = chars_of(s);
    let q = chars_of(p);
    if q.len() > v.len() {
        return None;
    }
    let mut i: usize = v.len() - q.len();
    loop
        invariant
            v@ == s@,
            q@ == p@,
            i + q.len() <= v.len(),
            find_last(s@, p@) == rfind_from(s@, p@, i as int),
        decreases i,
    {
        if stands_at(v.as_slice(), q.as_slice(), i) {
            return Some(i);
        }
        if i == 0 {
            assert(rfind_from(s@, p@, -1) is None);
            return None;
        }
        i -= 1;
    }
}

/// Whether `p` stands somewhere in `s`.
pub fn contains(s: &str, p: &str) -> (r: bool)
    ensures
        r == (find_first(s@, p@) is Some),
{
    find(s, p).is_some()
}

/// Whether `s` starts with `p`.
pub fn starts_with(s: &str, p: &str) -> (r: bool)
    ensures
        r == has_prefix(s@, p@),
{
    let v = chars_of(s);
    let q = chars_of(p);
    let r = stands_at(v.as_slice(), q.as_slice(), 0);
    assert(p@.len() <= s@.len() ==> s@.subrange(0, p@.len() as int) =~= s@.take(p@.len() as int));
    r
}

/// Whether `s` ends with `p`.
pub fn ends_with(s: &str, p: &str) -> (r: bool)
    ensures
        r == has_suffix(s@, p@),
{
    let v = chars_of(s);
    let q = chars_of(p);
    if q.len() > v.len() {
        return false;
    }
    let r = stands_at(v.as_slice(), q.as_slice(), v.len() - q.len());
    assert(s@.subrange(s@.len() - p@.len(), s@.len() as int) =~= s@.skip(s@.len() - p@.len()));
    r
}

/// What follows `p` in `s`, where `s` starts with it.
pub open spec fn without_prefix(s: Seq<char>, p: Seq<char>) -> Option<Seq<char>> {
    if has_prefix(s, p) {
        Some(s.skip(p.len() as int))
    } else {
        None
    }
}

/// What precedes `p` in `s`, where `s` ends with it.
pub open spec fn without_suffix(s: Seq<char>, p: Seq<char>) -> Option<Seq<char>> {
    if has_suffix(s, p) {
        Some(s.take(s.len() - p.len()))
    } else {
        None
    }
}

/// What follows `p` in `s`, where `s` starts with it.
pub fn strip_prefix<'a>(s: &'a str, p: &str) -> (r: Option<&'a str>)
    ensures
        opt_str_view(r) == without_prefix(s@, p@),
{
    if starts_with(s, p) {
        Some(s.substring_char(p.unicode_len(), s.unicode_len()))
    } else {
        None
    }
}

/// What precedes `p` in `s`, where `s` ends with it.
pub fn strip_suffix<'a>(s: &'a str, p: &str) -> (r: Option<&'a str>)
    ensures
        opt_str_view(r) == without_suffix(s@, p@),
{
    if ends_with(s, p) {
        Some(s.substring_char(0, s.unicode_len() - p.unicode_len()))
    } else {
        None
    }
}

/// The text before and after the first place where `p` stands in `s`.
pub open spec fn cut_first(s: Seq<char>, p: Seq<char>) -> Option<(Seq<char>, Seq<char>)> {
    match find_first(s, p) {
        Some(i) => Some((s.take(i), s.skip(i + p.len()))),
        None => None,
    }
}

/// The text before and after the last place where `p` stands in `s`.
pub open spec fn cut_last(s: Seq<char>, p: Seq<char>) -> Option<(Seq<char>, Seq<char>)> {
    match find_last(s, p) {
        Some(i) => Some((s.take(i), s.skip(i + p.len()))),
        None => None,
    }
}

/// The views of an optional pair of string slices.
pub open spec fn opt_pair_view(o: Option<(&str, &str)>) -> Option<(Seq<char>, Seq<char>)> {
    match o {
        Some((a, b)) => Some((a@, b@)),
        None => None,
    }
}

/// The text before and after the first place where `p` stands in `s`.
pub fn split_once<'a>(s: &'a str, p: &str) -> (r: Option<(&'a str, &'a str)>)
    ensures
        opt_pair_view(r) == cut_first(s@, p@),
{
    let n: usize = s.unicode_len();
    match find(s, p) {
        Some(i) => Some((s.substring_char(0, i), s.substring_char(i + p.unicode_len(), n))),
        None => None,
    }
}

/// The text before and after the last place where `p` stands in `s`.
pub fn rsplit_once<'a>(s: &'a str, p: &str) -> (r: Option<(&'a str, &'a str)>)
    ensures
        opt_pair_view(r) == cut_last(s@, p@),
{
    let n: usize = s.unicode_len();
    match rfind(s, p) {
        Some(i) => Some((s.substring_char(0, i), s.substring_char(i + p.unicode_len(), n))),
        None => None,
    }
}

// ---------------------------------------------------------------------------
// Pieces
// ---------------------------------------------------------------------------

/// `s` cut at every place where `p` stands, from the left.
pub open spec fn pieces(s: Seq<char>, p: Seq<char>) -> Seq<Seq<char>>
    decreases s.len(),
{
    if p.len() == 0 {
        seq![s]
    } else {
        match find_first(s, p) {
            Some(i) => {
                proof {
                    lemma_find_from(s, p, 0);
                }
                seq![s.take(i)] + pieces(s.skip(i + p.len()), p)
            },
            None => seq![s],
        }
    }
}

/// `s` cut at every place where `p` stands, from the left.
pub fn split<'a>(s: &'a str, p: &str) -> (r: Vec<&'a str>)
    requires
        p@.len() > 0,
    ensures
        slice_views(r@) == pieces(s@, p@),
{
    let mut r: Vec<&'a str> = Vec::new();
    let mut rest: &'a str = s;
    loop
        invariant
            p@.len() > 0,
            pieces(s@, p@) == slice_views(r@) + pieces(rest@, p@),
        decreases rest@.len(),
    {
        match split_once(rest, p) {
            Some((a, b)) => {
                proof {
                    lemma_find_from(rest@, p@, 0);
                }
                let ghost before = slice_views(r@);
                let ghost whole = pieces(rest@, p@);
                r.push(a);
                assert(slice_views(r@) =~= before.push(a@));
                assert(before + whole =~= before.push(a@) + pieces(b@, p@));
                rest = b;
            },
            None => {
                let ghost before = slice_views(r@);
                r.push(rest);
                assert(slice_views(r@) =~= before.push(rest@));
                assert(before + seq![rest@] =~= before.push(rest@));
                return r;
            },
        }
    }
}

pub open spec fn newline() -> Seq<char> {
    seq!['\n']
}

/// A line without the carriage return that ends it.
pub open spec fn without_cr(s: Seq<char>) -> Seq<char> {
    if s.len() > 0 && s.last() == '\r' {
        s.drop_last()
    } else {
        s
    }
}

/// The lines of `s`: what stands before each line feed, without a carriage
/// return before it, and what follows the last line feed unless it is empty.
pub open spec fn lines_of(s: Seq<char>) -> Seq<Seq<char>>
    decreases s.len(),
{
    if s.len() == 0 {
        seq![]
    } else {
        match find_first(s, newline()) {
            Some(i) => {
                proof {
                    lemma_find_from(s, newline(), 0);
                }
                seq![without_cr(s.take(i))] + lines_of(s.skip(i + 1))
            },
            None => seq![s],
        }
    }
}

/// The lines of `s`.
pub fn lines<'a>(s: &'a str) -> (r: Vec<&'a str>)
    ensures
        slice_views(r@) == lines_of(s@),
{
    let mut r: Vec<&'a str> = Vec::new();
    let mut rest: &'a str = s;
    proof {
        reveal_strlit("\n");
        assert("\n"@ =~= newline());
    }
    while !rest.is_empty()
        invariant
            "\n"@ == newline(),
            lines_of(s@) == slice_views(r@) + lines_of(rest@),
        decreases rest@.len(),
    {
        let ghost before = slice_views(r@);
        let ghost whole = lines_of(rest@);
        match split_once(rest, "\n") {
            Some((a, b)) => {
                proof {
                    lemma_find_from(rest@, newline(), 0);
                }
                let line = drop_cr(a);
                r.push(line);
                assert(slice_views(r@) =~= before.push(without_cr(a@)));
                assert(before + whole =~= before.push(without_cr(a@)) + lines_of(b@));
                rest = b;
            },
            None => {
                r.push(rest);
                assert(slice_views(r@) =~= before.push(rest@));
                assert(before + whole =~= before.push(rest@));
                return r;
            },
        }
    }
    r
}

/// A line without the carriage return that ends it.
pub fn drop_cr<'a>(s: &'a str) -> (r: &'a str)
    ensures
        r@ == without_cr(s@),
{
    let n: usize = s.unicode_len();
    if n > 0 && s.get_char(n - 1) == '\r' {
        s.substring_char(0, n - 1)
    } else {
        s
    }
}

/// The parts with `sep` between each two of them.
pub open spec fn joined(parts: Seq<Seq<char>>, sep: Seq<char>) -> Seq<char>
    decreases parts.len(),
{
    if parts.len() == 0 {
        Seq::empty()
    } else if parts.len() == 1 {
        parts[0]
    } else {
        joined(parts.drop_last(), sep) + sep + parts.last()
    }
}

/// The parts with `sep` between each two of them.
pub fn join(parts: &[&str], sep: &str) -> (r: String)
    ensures
        r@ == joined(slice_views(parts@), sep@),
{
    let ghost all = slice_views(parts@);
    let mut r = String::new();
    let mut i: usize = 0;
    while i < parts.len()
        invariant
            i <= parts.len(),
            all == slice_views(parts@),
            r@ == joined(all.take(i as int), sep@),
        decreases parts.len() - i,
    {
        if i > 0 {
            r.append(sep);
        }
        r.append(parts[i]);
        assert(all.take(i + 1).drop_last() =~= all.take(i as int));
        assert(all.take(i + 1).last() == parts@[i as int]@);
        assert(r@ =~= joined(all.take(i + 1), sep@));
        i += 1;
    }
    assert(all.take(all.len() as int) =~= all);
    r
}

/// The slices of a vector of strings.
pub fn slices(v: &Vec<String>) -> (r: Vec<&str>)
    ensures
        slice_views(r@) == views(v@),
{
    let mut r: Vec<&str> = Vec::new();
    let mut i: usize = 0;
    while i < v.len()
        invariant
            i <= v.len(),
            r.len() == i,
            forall|j: int| 0 <= j < i ==> (#[trigger] r@[j])@ == v@[j]@,
        decreases v.len() - i,
    {
        r.push(v[i].as_str());
        i += 1;
    }
    assert(slice_views(r@) =~= views(v@));
    r
}

/// Owned copies of string slices.
pub fn owned(v: &Vec<&str>) -> (r: Vec<String>)
    ensures
        views(r@) == slice_views(v@),
{
    let mut r: Vec<String> = Vec::new();
    let mut i: usize = 0;
    while i < v.len()
        invariant
            i <= v.len(),
            r.len() == i,
            forall|j: int| 0 <= j < i ==> (#[trigger] r@[j])@ == v@[j]@,
        decreases v.len() - i,
    {
        r.push(v[i].to_owned());
        i += 1;
    }
    assert(views(r@) =~= slice_views(v@));
    r
}

/// The strings with `sep` between each two of them.
pub fn join_strings(parts: &Vec<String>, sep: &str) -> (r: String)
    ensures
        r@ == joined(views(parts@), sep@),
{
    let v = slices(parts);
    join(v.as_slice(), sep)
}

/// `s` with every `a` replaced by `b`.
pub open spec fn replaced(s: Seq<char>, a: char, b: char) -> Seq<char> {
    Seq::new(s.len(), |i: int| if s[i] == a { b } else { s[i] })
}

/// `s` with every `a` replaced by `b`.
pub fn replace_char(s: &str, a: char, b: char) -> (r: String)
    ensures
        r@ == replaced(s@, a, b),
{
    let v = chars_of(s);
    let mut r = String::new();
    let mut i: usize = 0;
    while i < v.len()
        invariant
            i <= v.len(),
            r@ == replaced(v@, a, b).take(i as int),
        decreases v.len() - i,
    {
        if v[i] == a {
            r.push(b);
        } else {
            r.push(v[i]);
        }
        i += 1;
    }
    assert(replaced(v@, a, b).take(v.len() as int) =~= replaced(v@, a, b));
    r
}

/// The first `n` characters of `s`, or all of them.
pub open spec fn head(s: Seq<char>, n: int) -> Seq<char> {
    if s.len() <= n {
        s
    } else {
        s.take(n)
    }
}

/// The first `n` characters of `s`, or all of them.
pub fn take_chars<'a>(s: &'a str, n: usize) -> (r: &'a str)
    ensures
        r@ == head(s@, n as int),
{
    if s.unicode_len() <= n {
        s
    } else {
        s.substring_char(0, n)
    }
}

/// `s` where it has at most `n` characters; else its start and an ellipsis,
/// `n` characters in all (one where `n` is zero).
pub open spec fn ellipsized(s: Seq<char>, n: int) -> Seq<char> {
    if s.len() <= n {
        s
    } else if n == 0 {
        seq!['\u{2026}']
    } else {
        s.take(n - 1).push('\u{2026}')
    }
}

/// `s` where it has at most `n` characters; else its start and an ellipsis.
pub fn truncate(s: &str, n: usize) -> (r: String)
    ensures
        r@ == ellipsized(s@, n as int),
{
    if s.unicode_len() <= n {
        s.to_owned()
    } else {
        let mut r = if n == 0 {
            String::new()
        } else {
            s.substring_char(0, n - 1).to_owned()
        };
        r.push('\u{2026}');
        assert(r@ =~= ellipsized(s@, n as int));
        r
    }
}

pub open spec fn spaces(n: int) -> Seq<char> {
    Seq::new(if n > 0 { n as nat } else { 0 }, |i: int| ' ')
}

/// `s` filled up with spaces behind it to `n` characters.
pub open spec fn padded_right(s: Seq<char>, n: int) -> Seq<char> {
    s + spaces(n - s.len())
}

/// `s` filled up with spaces before it to `n` characters.
pub open spec fn padded_left(s: Seq<char>, n: int) -> Seq<char> {
    spaces(n - s.len()) + s
}

/// `n` spaces.
pub fn blanks(n: usize) -> (r: String)
    ensures
        r@ == spaces(n as int),
{
    let mut r = String::new();
    let mut i: usize = 0;
    while i < n
        invariant
            i <= n,
            r@ == spaces(i as int),
        decreases n - i,
    {
        r.push(' ');
        i += 1;
        assert(r@ =~= spaces(i as int));
    }
    r
}

/// `s` filled up with spaces behind it to `n` characters.
pub fn pad_right(s: &str, n: usize) -> (r: String)
    ensures
        r@ == padded_right(s@, n as int),
{
    let len: usize = s.unicode_len();
    let mut r = s.to_owned();
    if len < n {
        let b = blanks(n - len);
        r.append(b.as_str());
    }
    assert(r@ =~= padded_right(s@, n as int));
    r
}

/// `s` filled up with spaces before it to `n` characters.
pub fn pad_left(s: &str, n: usize) -> (r: String)
    ensures
        r@ == padded_left(s@, n as int),
{
    let len: usize = s.unicode_len();
    let mut r = if len < n {
        blanks(n - len)
    } else {
        String::new()
    };
    r.append(s);
    assert(r@ =~= padded_left(s@, n as int));
    r
}

// ---------------------------------------------------------------------------
// Cutting and joining
// ---------------------------------------------------------------------------

proof fn lemma_joined_head(a: Seq<char>, rest: Seq<Seq<char>>, sep: Seq<char>)
    requires
        rest.len() > 0,
    ensures
        joined(seq![a] + rest, sep) == a + sep + joined(rest, sep),
    decreases rest.len(),
{
    let all = seq![a] + rest;
    assert(all.drop_last() =~= seq![a] + rest.drop_last());
    assert(all.last() == rest.last());
    if rest.len() == 1 {
        assert(all.drop_last() =~= seq![a]);
        assert(joined(all.drop_last(), sep) == a);
    } else {
        lemma_joined_head(a, rest.drop_last(), sep);
        assert(joined(all, sep) =~= a + sep + joined(rest, sep));
    }
}

pub proof fn lemma_pieces_nonempty(s: Seq<char>, p: Seq<char>)
    ensures
        pieces(s, p).len() > 0,
    decreases s.len(),
{
}

/// Cutting at a separator and joining with it gives the text back.
pub proof fn law_joining_pieces_gives_back(s: Seq<char>, p: Seq<char>)
    requires
        p.len() > 0,
    ensures
        joined(pieces(s, p), p) == s,
    decreases s.len(),
{
    match find_first(s, p) {
        Some(i) => {
            lemma_find_from(s, p, 0);
            let rest = s.skip(i + p.len());
            law_joining_pieces_gives_back(rest, p);
            lemma_pieces_nonempty(rest, p);
            lemma_joined_head(s.take(i), pieces(rest, p), p);
            assert(s =~= s.take(i) + s.subrange(i, i + p.len()) + rest);
        },
        None => {},
    }
}

pub uninterp spec fn debug_form(s: Seq<char>) -> Seq<char>;

/// Text in quotes, with escapes: `{:?}` of a string. It is a function of the text.
#[verifier::external_body]
pub(crate) fn debug_text(s: &str) -> (r: String)
    ensures
        r@ == debug_form(s@),
{
    format!("{:?}", s)
}

/// Texts in quotes, with a comma and a space between them, in brackets.
pub open spec fn debug_list(s: Seq<Seq<char>>) -> Seq<char> {
    "["@ + joined(Seq::new(s.len(), |i: int| debug_form(s[i])), ", "@) + "]"@
}

/// Texts in quotes, with a comma and a space between them, in brackets.
pub fn debug_texts(v: &Vec<String>) -> (r: String)
    ensures
        r@ == debug_list(views(v@)),
{
    let mut quoted: Vec<String> = Vec::new();
    let mut i: usize = 0;
    while i < v.len()
        invariant
            i <= v.len(),
            quoted.len() == i,
            forall|j: int| 0 <= j < i ==> (#[trigger] quoted@[j])@ == debug_form(v@[j]@),
        decreases v.len() - i,
    {
        quoted.push(debug_text(v[i].as_str()));
        i += 1;
    }
    let mut r = "[".to_owned();
    let list = join_strings(&quoted, ", ");
    proof {
        let all = views(v@);
        assert(views(quoted@) =~= Seq::new(all.len(), |i: int| debug_form(all[i])));
    }
    r.append(list.as_str());
    r.append("]");
    r
}

// ---------------------------------------------------------------------------
// Marks within text: patterns without a line feed
// ---------------------------------------------------------------------------

/// The pattern has no line feed in it.
pub open spec fn one_line(p: Seq<char>) -> bool {
    forall|i: int| 0 <= i < p.len() ==> #[trigger] p[i] != '\n'
}

/// The pattern stands nowhere in the text.
pub open spec fn absent(s: Seq<char>, p: Seq<char>) -> bool {
    forall|i: int| !#[trigger] occurs_at(s, p, i)
}

pub proof fn lemma_absent(s: Seq<char>, p: Seq<char>)
    ensures
        absent(s, p) <==> find_first(s, p) is None,
{
    lemma_find_from(s, p, 0);
    if find_first(s, p) is None {
        assert forall|i: int| !#[trigger] occurs_at(s, p, i) by {
            if occurs_at(s, p, i) {
                assert(0 <= i);
            }
        }
    }
}

/// Where a mark is found first depends on the text up to its end alone.
pub proof fn lemma_find_same_start(s: Seq<char>, t: Seq<char>, p: Seq<char>, i: int)
    requires
        find_first(s, p) == Some(i),
        i + p.len() <= t.len(),
        s.take(i + p.len()) == t.take(i + p.len()),
    ensures
        find_first(t, p) == Some(i),
{
    lemma_find_from(s, p, 0);
    let n = i + p.len();
    assert(t.subrange(i, n) =~= t.take(n).subrange(i, n));
    assert(s.subrange(i, n) =~= s.take(n).subrange(i, n));
    assert forall|j: int| 0 <= j < i implies !#[trigger] occurs_at(t, p, j) by {
        if occurs_at(t, p, j) {
            assert(t.subrange(j, j + p.len()) =~= t.take(n).subrange(j, j + p.len()));
            assert(s.subrange(j, j + p.len()) =~= s.take(n).subrange(j, j + p.len()));
            assert(occurs_at(s, p, j));
        }
    }
    lemma_find_from_is(t, p, 0, i);
}

pub proof fn lemma_absent_in_part(s: Seq<char>, p: Seq<char>, from: int, to: int)
    requires
        absent(s, p),
        0 <= from <= to <= s.len(),
    ensures
        absent(s.subrange(from, to), p),
{
    let t = s.subrange(from, to);
    assert forall|i: int| !#[trigger] occurs_at(t, p, i) by {
        if occurs_at(t, p, i) {
            assert(s.subrange(from + i, from + i + p.len()) =~= t.subrange(i, i + p.len()));
            assert(occurs_at(s, p, from + i));
        }
    }
}

/// What is left after dropping from the end is a start of the text.
pub proof fn lemma_drop_trailing_is_take(s: Seq<char>, k: CharClass)
    ensures
        drop_trailing(s, k).len() <= s.len(),
        drop_trailing(s, k) == s.take(drop_trailing(s, k).len() as int),
        drop_trailing(s, k).len() > 0 ==> !k.holds(drop_trailing(s, k).last()),
    decreases s.len(),
{
    if s.len() > 0 && k.holds(s.last()) {
        lemma_drop_trailing_is_take(s.drop_last(), k);
        let n = drop_trailing(s, k).len() as int;
        assert(s.drop_last().take(n) =~= s.take(n));
    } else {
        assert(s.take(s.len() as int) =~= s);
    }
}

/// What is left after dropping from the front is an end of the text.
pub proof fn lemma_drop_leading_is_skip(s: Seq<char>, k: CharClass)
    ensures
        drop_leading(s, k).len() <= s.len(),
        drop_leading(s, k) == s.skip(s.len() - drop_leading(s, k).len()),
        drop_leading(s, k).len() > 0 ==> !k.holds(drop_leading(s, k)[0]),
    decreases s.len(),
{
    if s.len() > 0 && k.holds(s[0]) {
        lemma_drop_leading_is_skip(s.drop_first(), k);
        let n = drop_leading(s, k).len() as int;
        assert(s.drop_first().skip(s.len() - 1 - n) =~= s.skip(s.len() - n));
    } else {
        assert(s.skip(0) =~= s);
    }
}

/// The lines of a text that goes on behind a line.
pub proof fn lemma_first_line(a: Seq<char>, b: Seq<char>)
    requires
        one_line(a),
    ensures
        lines_of(a.push('\n') + b) == seq![without_cr(a)] + lines_of(b),
{
    let s = a.push('\n') + b;
    let n = a.len() as int;
    assert(s.subrange(n, n + 1) =~= newline());
    assert forall|j: int| 0 <= j < n implies !#[trigger] occurs_at(s, newline(), j) by {
        if occurs_at(s, newline(), j) {
            assert(s.subrange(j, j + 1)[0] == s[j]);
            assert(s[j] == a[j]);
        }
    }
    lemma_find_from_is(s, newline(), 0, n);
    assert(s.take(n) =~= a);
    assert(s.skip(n + 1) =~= b);
}

/// A line behind whole lines is one more line.
pub proof fn lemma_line_added(day: Seq<char>, line: Seq<char>)
    requires
        day.len() == 0 || day.last() == '\n',
        one_line(line),
        without_cr(line) == line,
    ensures
        lines_of(day + line.push('\n')) == lines_of(day).push(line),
    decreases day.len(),
{
    let none = Seq::<char>::empty();
    if day.len() == 0 {
        lemma_first_line(line, none);
        assert(day + line.push('\n') =~= line.push('\n') + none);
        assert(lines_of(none) =~= seq![]);
        assert(seq![line] + lines_of(none) =~= lines_of(day).push(line));
    } else {
        lemma_find_from(day, newline(), 0);
        if find_first(day, newline()) is None {
            assert(day.subrange(day.len() - 1, day.len() as int) =~= newline());
            assert(occurs_at(day, newline(), day.len() - 1));
        }
        let i = find_first(day, newline())->0;
        assert(day.subrange(i, i + 1)[0] == day[i]);
        let first = day.take(i);
        let rest = day.skip(i + 1);
        assert(one_line(first)) by {
            assert forall|j: int| 0 <= j < first.len() implies #[trigger] first[j] != '\n' by {
                if first[j] == '\n' {
                    assert(day.subrange(j, j + 1) =~= newline());
                    assert(occurs_at(day, newline(), j));
                }
            }
        }
        lemma_line_added(rest, line);
        lemma_first_line(first, rest);
        lemma_first_line(first, rest + line.push('\n'));
        assert(day =~= first.push('\n') + rest);
        assert(day + line.push('\n') =~= first.push('\n') + (rest + line.push('\n')));
        assert(seq![without_cr(first)] + lines_of(rest).push(line) =~= lines_of(day).push(line));
    }
}

// ---------------------------------------------------------------------------
// Upper case, and lines with their line feeds
// ---------------------------------------------------------------------------

/// The upper-case form of an ASCII letter; any other character itself.
pub open spec fn ascii_upper_char(c: char) -> char {
    if 'a' <= c <= 'z' {
        ((c as u32 - 32) as u32) as char
    } else {
        c
    }
}

/// `s` with its ASCII letters in upper case.
pub open spec fn ascii_upper(s: Seq<char>) -> Seq<char> {
    Seq::new(s.len(), |i: int| ascii_upper_char(s[i]))
}

/// `s` with its ASCII letters in upper case.
pub fn to_ascii_upper(s: &str) -> (r: String)
    ensures
        r@ == ascii_upper(s@),
{
    let v = chars_of(s);
    let mut r = String::new();
    let mut i: usize = 0;
    while i < v.len()
        invariant
            i <= v.len(),
            r@ == ascii_upper(v@).take(i as int),
        decreases v.len() - i,
    {
        let c: char = v[i];
        if 'a' <= c && c <= 'z' {
            let n: u8 = c as u8;
            let m: u8 = n - 32;
            r.push(m as char);
        } else {
            r.push(c);
        }
        i += 1;
    }
    assert(ascii_upper(v@).take(v.len() as int) == ascii_upper(v@));
    r
}

/// Whether two strings are the same but for the case of ASCII letters.
pub fn same_ignoring_case(a: &str, b: &str) -> (r: bool)
    ensures
        r == (ascii_lower(a@) == ascii_lower(b@)),
{
    let x = to_ascii_lower(a);
    let y = to_ascii_lower(b);
    same(x.as_str(), y.as_str())
}

/// The lines of `s`, each with its line feed; the last one may have none.
pub open spec fn full_lines(s: Seq<char>) -> Seq<Seq<char>>
    decreases s.len(),
{
    if s.len() == 0 {
        seq![]
    } else {
        match find_first(s, newline()) {
            Some(i) => {
                proof {
                    lemma_find_from(s, newline(), 0);
                }
                seq![s.take(i + 1)] + full_lines(s.skip(i + 1))
            },
            None => seq![s],
        }
    }
}

/// The texts one behind the other, the first `n` of them.
pub open spec fn strung(s: Seq<Seq<char>>, n: int) -> Seq<char>
    decreases n,
{
    if n <= 0 {
        seq![]
    } else {
        strung(s, n - 1) + s[n - 1]
    }
}

pub proof fn lemma_strung_head(a: Seq<char>, s: Seq<Seq<char>>, n: int)
    requires
        0 <= n <= s.len(),
    ensures
        strung(seq![a] + s, n + 1) == a + strung(s, n),
    decreases n,
{
    let t = seq![a] + s;
    if n > 0 {
        lemma_strung_head(a, s, n - 1);
        assert(t[n] == s[n - 1]);
        assert(strung(t, n + 1) =~= a + strung(s, n));
    } else {
        assert(strung(t, 0) =~= seq![]);
        assert(strung(t, 1) =~= a + strung(s, 0));
    }
}

/// The lines with their line feeds, one behind the other, are the text.
pub proof fn law_lines_make_the_text(s: Seq<char>)
    ensures
        strung(full_lines(s), full_lines(s).len() as int) == s,
    decreases s.len(),
{
    if s.len() == 0 {
        assert(s =~= seq![]);
    } else {
        match find_first(s, newline()) {
            Some(i) => {
                lemma_find_from(s, newline(), 0);
                let rest = full_lines(s.skip(i + 1));
                law_lines_make_the_text(s.skip(i + 1));
                lemma_strung_head(s.take(i + 1), rest, rest.len() as int);
                assert(s =~= s.take(i + 1) + s.skip(i + 1));
            },
            None => {
                assert(strung(seq![s], 0) =~= seq![]);
                assert(strung(seq![s], 1) =~= s);
            },
        }
    }
}

/// The lines of `s`, each with its line feed.
pub fn split_lines<'a>(s: &'a str) -> (r: Vec<&'a str>)
    ensures
        slice_views(r@) == full_lines(s@),
{
    let mut r: Vec<&'a str> = Vec::new();
    let mut rest: &'a str = s;
    proof {
        reveal_strlit("\n");
        assert("\n"@ =~= newline());
        assert(slice_views(r@) + full_lines(rest@) =~= full_lines(s@));
    }
    while !rest.is_empty()
        invariant
            "\n"@ == newline(),
            full_lines(s@) == slice_views(r@) + full_lines(rest@),
        decreases rest@.len(),
    {
        let ghost before = slice_views(r@);
        let ghost whole = full_lines(rest@);
        let n: usize = rest.unicode_len();
        match find(rest, "\n") {
            Some(i) => {
                let line = rest.substring_char(0, i + 1);
                let tail = rest.substring_char(i + 1, n);
                assert(line@ =~= rest@.take(i + 1));
                assert(tail@ =~= rest@.skip(i + 1));
                r.push(line);
                assert(slice_views(r@) =~= before.push(line@));
                assert(before + whole =~= before.push(line@) + full_lines(tail@));
                rest = tail;
            },
            None => {
                r.push(rest);
                assert(slice_views(r@) =~= before.push(rest@));
                assert(before + whole =~= before.push(rest@));
                return r;
            },
        }
    }
    r
}

/// Three texts, one behind the other.
pub fn concat3(a: &str, b: &str, c: &str) -> (r: String)
    ensures
        r@ == a@ + b@ + c@,
{
    let mut r = a.to_owned();
    r.append(b);
    r.append(c);
    r
}

/// Four texts, one behind the other.
pub fn concat4(a: &str, b: &str, c: &str, d: &str) -> (r: String)
    ensures
        r@ == a@ + b@ + c@ + d@,
{
    let mut r = a.to_owned();
    r.append(b);
    r.append(c);
    r.append(d);
    r
}

/// Five texts, one behind the other.
pub fn concat5(a: &str, b: &str, c: &str, d: &str, e: &str) -> (r: String)
    ensures
        r@ == a@ + b@ + c@ + d@ + e@,
{
    let mut r = a.to_owned();
    r.append(b);
    r.append(c);
    r.append(d);
    r.append(e);
    r
}

/// Six texts, one behind the other.
pub fn concat6(a: &str, b: &str, c: &str, d: &str, e: &str, f: &str) -> (r: String)
    ensures
        r@ == a@ + b@ + c@ + d@ + e@ + f@,
{
    let mut r = a.to_owned();
    r.append(b);
    r.append(c);
    r.append(d);
    r.append(e);
    r.append(f);
    r
}

/// Seven texts, one behind the other.
pub fn concat7(a: &str, b: &str, c: &str, d: &str, e: &str, f: &str, g: &str) -> (r: String)
    ensures
        r@ == a@ + b@ + c@ + d@ + e@ + f@ + g@,
{
    let mut r = a.to_owned();
    r.append(b);
    r.append(c);
    r.append(d);
    r.append(e);
    r.append(f);
    r.append(g);
    r
}

/// Adds a line to others.
pub fn push_line(out: &mut Vec<String>, line: String)
    ensures
        views(final(out)@) == views(old(out)@).push(line@),
{
    let ghost was = views(out@);
    out.push(line);
    assert(views(out@) =~= was.push(line@));
}

/// Each text with another one before it.
pub open spec fn each_prefixed(prefix: Seq<char>, s: Seq<Seq<char>>) -> Seq<Seq<char>> {
    Seq::new(s.len(), |i: int| prefix + s[i])
}

/// Adds lines to others, each with a text before it.
pub fn push_prefixed(out: &mut Vec<String>, prefix: &str, lines: &Vec<&str>)
    ensures
        views(final(out)@) == views(old(out)@) + each_prefixed(prefix@, slice_views(lines@)),
{
    let ghost was = views(out@);
    let ghost s = slice_views(lines@);
    let mut i: usize = 0;
    assert(was =~= was + each_prefixed(prefix@, s.take(0)));
    while i < lines.len()
        invariant
            i <= lines.len(),
            s == slice_views(lines@),
            views(out@) == was + each_prefixed(prefix@, s.take(i as int)),
        decreases lines.len() - i,
    {
        let mut line = prefix.to_owned();
        line.append(lines[i]);
        let ghost before = views(out@);
        push_line(out, line);
        assert(s[i as int] == lines@[i as int]@);
        assert(views(out@) =~= was + each_prefixed(prefix@, s.take(i + 1)));
        i += 1;
    }
    assert(s.take(i as int) =~= s);
}

} // verus!
