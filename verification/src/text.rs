//! Character-sequence helpers shared by the script parsers.
//!
//! Every string is handled as its sequence of `char`s.  The spec functions
//! here state what std's `str` methods of the same name compute, and the
//! executable functions are proved against them.
use vstd::prelude::*;
use vstd::std_specs::iter::IteratorSpec;

verus! {

// ------------------------------------------------------------------
// Specifications
// ------------------------------------------------------------------

/// Unicode `White_Space`, the set that `char::is_whitespace` tests.
pub open spec fn is_ws_spec(c: char) -> bool {
    ||| c == '\t' || c == '\n' || c == '\u{0B}' || c == '\u{0C}' || c == '\r' || c == ' '
    ||| c == '\u{85}' || c == '\u{A0}' || c == '\u{1680}'
    ||| ('\u{2000}' <= c && c <= '\u{200A}')
    ||| c == '\u{2028}' || c == '\u{2029}' || c == '\u{202F}' || c == '\u{205F}' || c == '\u{3000}'
}

pub open spec fn starts_with_spec(s: Seq<char>, p: Seq<char>) -> bool {
    p.len() <= s.len() && s.subrange(0, p.len() as int) == p
}

pub open spec fn ends_with_spec(s: Seq<char>, p: Seq<char>) -> bool {
    p.len() <= s.len() && s.subrange(s.len() - p.len(), s.len() as int) == p
}

/// The first index at or after `i` that does not hold whitespace.
pub open spec fn ws_skip(s: Seq<char>, i: int) -> int
    decreases s.len() - i,
{
    if 0 <= i < s.len() && is_ws_spec(s[i]) {
        ws_skip(s, i + 1)
    } else {
        i
    }
}

/// The end of `s.take(j)` once trailing whitespace is dropped.
pub open spec fn ws_back(s: Seq<char>, j: int) -> int
    decreases j,
{
    if 0 < j <= s.len() && is_ws_spec(s[j - 1]) {
        ws_back(s, j - 1)
    } else {
        j
    }
}

pub open spec fn trim_start_spec(s: Seq<char>) -> Seq<char> {
    s.subrange(ws_skip(s, 0), s.len() as int)
}

pub open spec fn trim_end_spec(s: Seq<char>) -> Seq<char> {
    s.subrange(0, ws_back(s, s.len() as int))
}

/// `str::trim`: leading and trailing whitespace removed.
pub open spec fn trim_spec(s: Seq<char>) -> Seq<char> {
    trim_end_spec(trim_start_spec(s))
}

/// The first index at or after `i` holding `c`, if any.
pub open spec fn find_char_from(s: Seq<char>, c: char, i: int) -> Option<int>
    decreases s.len() - i,
{
    if i < 0 || i >= s.len() {
        None
    } else if s[i] == c {
        Some(i)
    } else {
        find_char_from(s, c, i + 1)
    }
}

/// `str::find` with a `char` pattern.
pub open spec fn find_char_spec(s: Seq<char>, c: char) -> Option<int> {
    find_char_from(s, c, 0)
}

pub open spec fn occurs_at(s: Seq<char>, p: Seq<char>, i: int) -> bool {
    0 <= i && i + p.len() <= s.len() && s.subrange(i, i + p.len()) == p
}

/// The first index at or after `i` where `p` occurs, if any.
pub open spec fn find_from(s: Seq<char>, p: Seq<char>, i: int) -> Option<int>
    decreases s.len() + 1 - i,
{
    if i < 0 || i + p.len() > s.len() {
        None
    } else if occurs_at(s, p, i) {
        Some(i)
    } else {
        find_from(s, p, i + 1)
    }
}

/// `str::find` with a string pattern.
pub open spec fn find_spec(s: Seq<char>, p: Seq<char>) -> Option<int> {
    find_from(s, p, 0)
}

/// `str::contains` with a string pattern.
pub open spec fn contains_spec(s: Seq<char>, p: Seq<char>) -> bool {
    find_spec(s, p) is Some
}

/// `str::strip_prefix`.
pub open spec fn strip_prefix_spec(s: Seq<char>, p: Seq<char>) -> Option<Seq<char>> {
    if starts_with_spec(s, p) {
        Some(s.subrange(p.len() as int, s.len() as int))
    } else {
        None
    }
}

/// `str::split_once` with a string pattern.
pub open spec fn split_once_spec(s: Seq<char>, p: Seq<char>) -> Option<(Seq<char>, Seq<char>)> {
    match find_spec(s, p) {
        Some(i) => Some((s.subrange(0, i), s.subrange(i + p.len(), s.len() as int))),
        None => None,
    }
}

/// `str::trim_start_matches` with a string pattern.
pub open spec fn trim_start_matches_spec(s: Seq<char>, p: Seq<char>) -> Seq<char>
    decreases s.len(),
{
    if p.len() > 0 && starts_with_spec(s, p) {
        trim_start_matches_spec(s.subrange(p.len() as int, s.len() as int), p)
    } else {
        s
    }
}

/// `str::trim_end_matches` with a string pattern.
pub open spec fn trim_end_matches_spec(s: Seq<char>, p: Seq<char>) -> Seq<char>
    decreases s.len(),
{
    if p.len() > 0 && ends_with_spec(s, p) {
        trim_end_matches_spec(s.subrange(0, s.len() - p.len()), p)
    } else {
        s
    }
}

/// `str::trim_matches` with a `char` pattern.
pub open spec fn trim_matches_char_spec(s: Seq<char>, c: char) -> Seq<char> {
    trim_end_matches_spec(trim_start_matches_spec(s, seq![c]), seq![c])
}

/// `str::replace` with a non-empty string pattern: every occurrence, found
/// left to right without overlap, is replaced.
pub open spec fn replace_spec(s: Seq<char>, from: Seq<char>, to: Seq<char>) -> Seq<char>
    decreases s.len(),
{
    if from.len() == 0 {
        s
    } else {
        match find_spec(s, from) {
            Some(i) => if 0 <= i && i + from.len() <= s.len() {
                s.subrange(0, i) + to + replace_spec(s.subrange(i + from.len(), s.len() as int), from, to)
            } else {
                s
            },
            None => s,
        }
    }
}

/// The first index at or after `i` that holds whitespace, or the length.
pub open spec fn word_end(s: Seq<char>, i: int) -> int
    decreases s.len() - i,
{
    if 0 <= i < s.len() && !is_ws_spec(s[i]) {
        word_end(s, i + 1)
    } else {
        i
    }
}

/// `str::split_whitespace` of `s[i..]`.
pub open spec fn split_ws_from(s: Seq<char>, i: int) -> Seq<Seq<char>>
    decreases s.len() - i,
{
    let j = ws_skip(s, i);
    let k = word_end(s, j);
    if i < 0 || j >= s.len() || j < i || k <= j || k > s.len() {
        seq![]
    } else {
        seq![s.subrange(j, k)] + split_ws_from(s, k)
    }
}

/// `str::split_whitespace`: the maximal runs of non-whitespace characters.
pub open spec fn split_ws_spec(s: Seq<char>) -> Seq<Seq<char>> {
    split_ws_from(s, 0)
}

pub open spec fn strip_cr(l: Seq<char>) -> Seq<char> {
    if l.len() > 0 && l.last() == '\r' {
        l.drop_last()
    } else {
        l
    }
}

/// `str::lines`: split at `\n`; a `\r` right before a `\n` is dropped; a
/// final line ending does not start another line.
pub open spec fn lines_spec(s: Seq<char>) -> Seq<Seq<char>>
    decreases s.len(),
{
    if s.len() == 0 {
        seq![]
    } else {
        match find_char_spec(s, '\n') {
            Some(i) => if 0 <= i < s.len() {
                seq![strip_cr(s.subrange(0, i))] + lines_spec(s.subrange(i + 1, s.len() as int))
            } else {
                seq![s]
            },
            None => seq![s],
        }
    }
}

pub open spec fn is_digit_spec(c: char) -> bool {
    '0' <= c && c <= '9'
}

pub open spec fn digit_val(c: char) -> int {
    c as int - '0' as int
}

pub open spec fn all_digits(s: Seq<char>) -> bool {
    forall|i: int| 0 <= i < s.len() ==> is_digit_spec(#[trigger] s[i])
}

/// The decimal value of a run of digits.
pub open spec fn digits_val(s: Seq<char>) -> int
    decreases s.len(),
{
    if s.len() == 0 {
        0
    } else {
        digits_val(s.drop_last()) * 10 + digit_val(s.last())
    }
}

/// A non-empty run of decimal digits whose value is at most `max`.
pub open spec fn parse_digits_spec(s: Seq<char>, max: int) -> Option<int> {
    if s.len() > 0 && all_digits(s) && digits_val(s) <= max {
        Some(digits_val(s))
    } else {
        None
    }
}

/// `str::parse` for an unsigned integer type whose largest value is `max`:
/// an optional `+`, then decimal digits.
pub open spec fn parse_uint_spec(s: Seq<char>, max: int) -> Option<int> {
    if s.len() > 0 && s[0] == '+' {
        parse_digits_spec(s.drop_first(), max)
    } else {
        parse_digits_spec(s, max)
    }
}

/// `str::parse` for a signed integer type with range `min..=max`: an
/// optional `+` or `-`, then decimal digits.
pub open spec fn parse_int_spec(s: Seq<char>, min: int, max: int) -> Option<int> {
    if s.len() > 0 && s[0] == '-' {
        match parse_digits_spec(s.drop_first(), -min) {
            Some(v) => Some(-v),
            None => None,
        }
    } else {
        parse_uint_spec(s, max)
    }
}

pub open spec fn parse_u8_spec(s: Seq<char>) -> Option<int> {
    parse_uint_spec(s, u8::MAX as int)
}

pub open spec fn parse_u32_spec(s: Seq<char>) -> Option<int> {
    parse_uint_spec(s, u32::MAX as int)
}

pub open spec fn parse_u64_spec(s: Seq<char>) -> Option<int> {
    parse_uint_spec(s, u64::MAX as int)
}

pub open spec fn parse_i32_spec(s: Seq<char>) -> Option<int> {
    parse_int_spec(s, i32::MIN as int, i32::MAX as int)
}

// ------------------------------------------------------------------
// Conversions
// ------------------------------------------------------------------

/// Decodes UTF-8 bytes (std's `str::from_utf8`, then `to_string`): `Some`
/// exactly when the bytes are valid UTF-8, holding the characters they
/// encode.
#[verifier::external_body]
pub(crate) fn utf8_to_string(bytes: &[u8]) -> (r: Option<String>)
    ensures
        r is Some <==> vstd::utf8::valid_utf8(bytes@),
        r matches Some(s) ==> s@ == vstd::utf8::decode_utf8(bytes@),
{
    std::str::from_utf8(bytes).ok().map(|s| s.to_string())
}

/// Appends one character to a `String` (std's `String::push`).
#[verifier::external_body]
pub(crate) fn push_char(s: &mut String, c: char)
    ensures
        final(s)@ == old(s)@.push(c),
{
    s.push(c);
}

/// The characters of a string slice, in order.
pub fn chars_of(s: &str) -> (v: Vec<char>)
    ensures
        v@ == s@,
{
    let mut v: Vec<char> = Vec::new();
    for c in it: s.chars()
        invariant
            v@ == it.seq().take(it.index()),
            it.seq() == s@,
    {
        v.push(c);
    }
    v
}

/// A `String` holding the given characters.
pub fn string_of(v: &[char]) -> (s: String)
    ensures
        s@ == v@,
{
    let mut s = String::new();
    let mut i: usize = 0;
    while i < v.len()
        invariant
            i <= v@.len(),
            s@ == v@.subrange(0, i as int),
        decreases v@.len() - i,
    {
        push_char(&mut s, v[i]);
        i = i + 1;
        assert(s@ =~= v@.subrange(0, i as int));
    }
    assert(s@ =~= v@);
    s
}

/// The characters `v[lo..hi]` as a new vector.
pub fn slice_of(v: &[char], lo: usize, hi: usize) -> (r: Vec<char>)
    requires
        lo <= hi <= v@.len(),
    ensures
        r@ == v@.subrange(lo as int, hi as int),
{
    let mut r: Vec<char> = Vec::new();
    let mut i = lo;
    while i < hi
        invariant
            lo <= i <= hi <= v@.len(),
            r@ == v@.subrange(lo as int, i as int),
        decreases hi - i,
    {
        r.push(v[i]);
        i = i + 1;
        assert(r@ =~= v@.subrange(lo as int, i as int));
    }
    r
}

/// `v[lo..]` as a new vector.
pub fn tail(v: &[char], lo: usize) -> (r: Vec<char>)
    requires
        lo <= v@.len(),
    ensures
        r@ == v@.subrange(lo as int, v@.len() as int),
{
    slice_of(v, lo, v.len())
}

/// A copy of the characters.
pub fn copy(v: &[char]) -> (r: Vec<char>)
    ensures
        r@ == v@,
{
    let r = slice_of(v, 0, v.len());
    assert(r@ =~= v@);
    r
}

/// The concatenation of two character vectors.
pub fn concat(a: &[char], b: &[char]) -> (r: Vec<char>)
    ensures
        r@ == a@ + b@,
{
    let mut r = copy(a);
    let mut i: usize = 0;
    while i < b.len()
        invariant
            i <= b@.len(),
            r@ == a@ + b@.subrange(0, i as int),
        decreases b@.len() - i,
    {
        r.push(b[i]);
        i = i + 1;
        assert(r@ =~= a@ + b@.subrange(0, i as int));
    }
    assert(b@.subrange(0, b@.len() as int) =~= b@);
    r
}

// ------------------------------------------------------------------
// Predicates and searches
// ------------------------------------------------------------------

/// `char::is_whitespace`.
pub fn is_ws(c: char) -> (b: bool)
    ensures
        b == is_ws_spec(c),
{
    c == '\t' || c == '\n' || c == '\u{0B}' || c == '\u{0C}' || c == '\r' || c == ' '
        || c == '\u{85}' || c == '\u{A0}' || c == '\u{1680}'
        || ('\u{2000}' <= c && c <= '\u{200A}')
        || c == '\u{2028}' || c == '\u{2029}' || c == '\u{202F}' || c == '\u{205F}'
        || c == '\u{3000}'
}

/// Whether `v[i..]` begins with `p`.
pub fn occurs(v: &[char], p: &[char], i: usize) -> (b: bool)
    ensures
        b == occurs_at(v@, p@, i as int),
{
    let n = v.len();
    if i > n || p.len() > n - i {
        return false;
    }
    let mut k: usize = 0;
    while k < p.len()
        invariant
            n == v@.len(),
            i + p@.len() <= v@.len(),
            k <= p@.len(),
            i + k <= v@.len(),
            forall|j: int| 0 <= j < k ==> v@[i + j] == p@[j],
        decreases p@.len() - k,
    {
        if v[i + k] != p[k] {
            assert(v@.subrange(i as int, i + p@.len())[k as int] != p@[k as int]);
            return false;
        }
        k = k + 1;
    }
    assert(v@.subrange(i as int, i + p@.len()) =~= p@);
    true
}

/// Character-wise equality.
pub fn eq(a: &[char], b: &[char]) -> (r: bool)
    ensures
        r == (a@ == b@),
{
    if a.len() != b.len() {
        return false;
    }
    let r = occurs(a, b, 0);
    proof {
        assert(r ==> a@.subrange(0, b@.len() as int) == b@);
        assert(a@.subrange(0, a@.len() as int) =~= a@);
    }
    r
}

/// Whether the characters equal the string literal `lit`.
pub fn eq_str(a: &[char], lit: &str) -> (r: bool)
    ensures
        r == (a@ == lit@),
{
    let l = chars_of(lit);
    eq(a, &l)
}

/// `str::starts_with`.
pub fn starts_with(v: &[char], p: &[char]) -> (b: bool)
    ensures
        b == starts_with_spec(v@, p@),
{
    occurs(v, p, 0)
}

/// `str::starts_with` with a literal pattern.
pub fn starts_with_str(v: &[char], lit: &str) -> (b: bool)
    ensures
        b == starts_with_spec(v@, lit@),
{
    let p = chars_of(lit);
    starts_with(v, &p)
}

/// `str::ends_with`.
pub fn ends_with(v: &[char], p: &[char]) -> (b: bool)
    ensures
        b == ends_with_spec(v@, p@),
{
    if p.len() > v.len() {
        return false;
    }
    occurs(v, p, v.len() - p.len())
}

/// `str::ends_with` with a literal pattern.
pub fn ends_with_str(v: &[char], lit: &str) -> (b: bool)
    ensures
        b == ends_with_spec(v@, lit@),
{
    let p = chars_of(lit);
    ends_with(v, &p)
}

/// `str::find` with a `char` pattern.
pub fn find_char(v: &[char], c: char) -> (r: Option<usize>)
    ensures
        r matches Some(i) ==> find_char_spec(v@, c) == Some(i as int),
        r is None ==> find_char_spec(v@, c) is None,
{
    let mut i: usize = 0;
    while i < v.len()
        invariant
            i <= v@.len(),
            find_char_from(v@, c, 0) == find_char_from(v@, c, i as int),
        decreases v@.len() - i,
    {
        if v[i] == c {
            return Some(i);
        }
        i = i + 1;
    }
    None
}

/// `str::find` with a string pattern.
pub fn find(v: &[char], p: &[char]) -> (r: Option<usize>)
    ensures
        r matches Some(i) ==> find_spec(v@, p@) == Some(i as int),
        r is None ==> find_spec(v@, p@) is None,
{
    if p.len() > v.len() {
        return None;
    }
    let last = v.len() - p.len();
    let mut i: usize = 0;
    loop
        invariant
            p@.len() <= v@.len(),
            last == v@.len() - p@.len(),
            i <= last,
            find_from(v@, p@, 0) == find_from(v@, p@, i as int),
        decreases last - i,
    {
        if occurs(v, p, i) {
            return Some(i);
        }
        if i == last {
            assert(find_from(v@, p@, i + 1) is None);
            return None;
        }
        i = i + 1;
    }
}

/// `str::find` with a literal pattern.
pub fn find_str(v: &[char], lit: &str) -> (r: Option<usize>)
    ensures
        r matches Some(i) ==> find_spec(v@, lit@) == Some(i as int),
        r is None ==> find_spec(v@, lit@) is None,
{
    let p = chars_of(lit);
    find(v, &p)
}

/// `str::contains` with a literal pattern.
pub fn contains_str(v: &[char], lit: &str) -> (b: bool)
    ensures
        b == contains_spec(v@, lit@),
{
    find_str(v, lit).is_some()
}

/// `str::contains` with a `char` pattern.
pub fn contains_char(v: &[char], c: char) -> (b: bool)
    ensures
        b == (find_char_spec(v@, c) is Some),
{
    find_char(v, c).is_some()
}

/// `str::strip_prefix` with a literal pattern.
pub fn strip_prefix_str(v: &[char], lit: &str) -> (r: Option<Vec<char>>)
    ensures
        r matches Some(t) ==> strip_prefix_spec(v@, lit@) == Some(t@),
        r is None ==> strip_prefix_spec(v@, lit@) is None,
{
    let p = chars_of(lit);
    if starts_with(v, &p) {
        Some(tail(v, p.len()))
    } else {
        None
    }
}

/// `str::split_once` with a literal pattern.
pub fn split_once_str(v: &[char], lit: &str) -> (r: Option<(Vec<char>, Vec<char>)>)
    ensures
        r matches Some(t) ==> split_once_spec(v@, lit@) == Some((t.0@, t.1@)),
        r is None ==> split_once_spec(v@, lit@) is None,
{
    let p = chars_of(lit);
    let n = v.len();
    match find(v, &p) {
        Some(i) => {
            proof {
                lemma_find_from_bound(v@, p@, 0);
            }
            Some((slice_of(v, 0, i), tail(v, i + p.len())))
        },
        None => None,
    }
}

/// A found pattern occurs where it was found, at or after the start.
pub proof fn lemma_find_from_bound(s: Seq<char>, p: Seq<char>, i: int)
    ensures
        find_from(s, p, i) matches Some(k) ==> i <= k && occurs_at(s, p, k),
    decreases s.len() + 1 - i,
{
    if !(i < 0 || i + p.len() > s.len()) && !occurs_at(s, p, i) {
        lemma_find_from_bound(s, p, i + 1);
    }
}

/// A found character is where it was found, at or after the start.
pub proof fn lemma_find_char_from_bound(s: Seq<char>, c: char, i: int)
    ensures
        find_char_from(s, c, i) matches Some(k) ==> i <= k < s.len() && s[k] == c,
    decreases s.len() - i,
{
    if !(i < 0 || i >= s.len()) && s[i] != c {
        lemma_find_char_from_bound(s, c, i + 1);
    }
}

// ------------------------------------------------------------------
// Trimming
// ------------------------------------------------------------------

/// `str::trim_start`.
pub fn trim_start(v: &[char]) -> (r: Vec<char>)
    ensures
        r@ == trim_start_spec(v@),
        r@.len() <= v@.len(),
        byte_len(r@) <= byte_len(v@),
{
    let mut i: usize = 0;
    while i < v.len() && is_ws(v[i])
        invariant
            i <= v@.len(),
            ws_skip(v@, 0) == ws_skip(v@, i as int),
        decreases v@.len() - i,
    {
        i = i + 1;
    }
    proof {
        lemma_byte_len_subrange(v@, i as int, v@.len() as int);
    }
    tail(v, i)
}

/// `str::trim_end`.
pub fn trim_end(v: &[char]) -> (r: Vec<char>)
    ensures
        r@ == trim_end_spec(v@),
        r@.len() <= v@.len(),
        byte_len(r@) <= byte_len(v@),
{
    let mut j: usize = v.len();
    while j > 0 && is_ws(v[j - 1])
        invariant
            j <= v@.len(),
            ws_back(v@, v@.len() as int) == ws_back(v@, j as int),
        decreases j,
    {
        j = j - 1;
    }
    proof {
        lemma_byte_len_subrange(v@, 0, j as int);
    }
    slice_of(v, 0, j)
}

/// `str::trim`.
pub fn trim(v: &[char]) -> (r: Vec<char>)
    ensures
        r@ == trim_spec(v@),
        r@.len() <= v@.len(),
        byte_len(r@) <= byte_len(v@),
{
    let t = trim_start(v);
    trim_end(&t)
}

/// `str::trim` of a string slice, as characters.
pub fn trim_str(s: &str) -> (r: Vec<char>)
    ensures
        r@ == trim_spec(s@),
{
    let v = chars_of(s);
    trim(&v)
}

/// `str::trim_start_matches` with a literal pattern.
pub fn trim_start_matches_str(v: &[char], lit: &str) -> (r: Vec<char>)
    ensures
        r@ == trim_start_matches_spec(v@, lit@),
{
    let p = chars_of(lit);
    let mut r = copy(v);
    if p.len() == 0 {
        return r;
    }
    while starts_with(&r, &p)
        invariant
            p@ == lit@,
            p@.len() > 0,
            trim_start_matches_spec(r@, p@) == trim_start_matches_spec(v@, p@),
        decreases r@.len(),
    {
        r = tail(&r, p.len());
    }
    r
}

/// `str::trim_end_matches` with a literal pattern.
pub fn trim_end_matches_str(v: &[char], lit: &str) -> (r: Vec<char>)
    ensures
        r@ == trim_end_matches_spec(v@, lit@),
{
    let p = chars_of(lit);
    let mut r = copy(v);
    if p.len() == 0 {
        return r;
    }
    while ends_with(&r, &p)
        invariant
            p@ == lit@,
            p@.len() > 0,
            trim_end_matches_spec(r@, p@) == trim_end_matches_spec(v@, p@),
        decreases r@.len(),
    {
        r = slice_of(&r, 0, r.len() - p.len());
    }
    r
}

/// `str::trim_matches` with a `char` pattern.
pub fn trim_matches_char(v: &[char], c: char) -> (r: Vec<char>)
    ensures
        r@ == trim_matches_char_spec(v@, c),
{
    let mut p: Vec<char> = Vec::new();
    p.push(c);
    assert(p@ =~= seq![c]);
    let mut r = copy(v);
    while starts_with(&r, &p)
        invariant
            p@ == seq![c],
            trim_start_matches_spec(r@, p@) == trim_start_matches_spec(v@, p@),
        decreases r@.len(),
    {
        r = tail(&r, 1);
    }
    while ends_with(&r, &p)
        invariant
            p@ == seq![c],
            trim_end_matches_spec(r@, p@) == trim_matches_char_spec(v@, c),
        decreases r@.len(),
    {
        r = slice_of(&r, 0, r.len() - 1);
    }
    r
}

/// Appends `b` to `a`.
pub fn append_chars(a: &mut Vec<char>, b: &[char])
    ensures
        final(a)@ == old(a)@ + b@,
{
    let mut i: usize = 0;
    while i < b.len()
        invariant
            i <= b@.len(),
            a@ == old(a)@ + b@.subrange(0, i as int),
        decreases b@.len() - i,
    {
        a.push(b[i]);
        i = i + 1;
        assert(a@ =~= old(a)@ + b@.subrange(0, i as int));
    }
    assert(b@.subrange(0, b@.len() as int) =~= b@);
}

/// `str::replace` with literal patterns; `from` must not be empty.
pub fn replace_str(v: &[char], from: &str, to: &str) -> (r: Vec<char>)
    requires
        from@.len() > 0,
    ensures
        r@ == replace_spec(v@, from@, to@),
{
    let f = chars_of(from);
    let t = chars_of(to);
    let mut out: Vec<char> = Vec::new();
    let mut rest = copy(v);
    loop
        invariant
            f@ == from@,
            t@ == to@,
            f@.len() > 0,
            replace_spec(v@, f@, t@) == out@ + replace_spec(rest@, f@, t@),
        decreases rest@.len(),
    {
        let n = rest.len();
        match find(&rest, &f) {
            Some(i) => {
                proof {
                    lemma_find_from_bound(rest@, f@, 0);
                }
                let pre = slice_of(&rest, 0, i);
                let ghost old_out = out@;
                append_chars(&mut out, &pre);
                append_chars(&mut out, &t);
                proof {
                    assert(out@ =~= old_out + (rest@.subrange(0, i as int) + t@));
                }
                rest = tail(&rest, i + f.len());
            },
            None => {
                let ghost old_out = out@;
                append_chars(&mut out, &rest);
                return out;
            },
        }
    }
}

proof fn lemma_ws_skip(s: Seq<char>, i: int)
    requires
        0 <= i,
    ensures
        i <= ws_skip(s, i),
        ws_skip(s, i) < s.len() ==> !is_ws_spec(s[ws_skip(s, i)]),
    decreases s.len() - i,
{
    if 0 <= i < s.len() && is_ws_spec(s[i]) {
        lemma_ws_skip(s, i + 1);
    }
}

/// The index of the first whitespace at or after `i`, or the length.
fn word_end_exec(v: &[char], i: usize) -> (k: usize)
    requires
        i <= v@.len(),
    ensures
        k == word_end(v@, i as int),
        i <= k <= v@.len(),
{
    let mut k = i;
    while k < v.len() && !is_ws(v[k])
        invariant
            i <= k <= v@.len(),
            word_end(v@, i as int) == word_end(v@, k as int),
        decreases v@.len() - k,
    {
        k = k + 1;
    }
    k
}

/// The index of the first non-whitespace at or after `i`, or the length.
fn ws_skip_exec(v: &[char], i: usize) -> (j: usize)
    requires
        i <= v@.len(),
    ensures
        j == ws_skip(v@, i as int),
        i <= j <= v@.len(),
{
    let mut j = i;
    while j < v.len() && is_ws(v[j])
        invariant
            i <= j <= v@.len(),
            ws_skip(v@, i as int) == ws_skip(v@, j as int),
        decreases v@.len() - j,
    {
        j = j + 1;
    }
    j
}

/// The views of a vector of character vectors.
pub open spec fn views(v: Seq<Vec<char>>) -> Seq<Seq<char>> {
    v.map_values(|x: Vec<char>| x@)
}

/// `str::split_whitespace`.
pub fn split_whitespace(v: &[char]) -> (r: Vec<Vec<char>>)
    ensures
        views(r@) == split_ws_spec(v@),
{
    let mut r: Vec<Vec<char>> = Vec::new();
    let mut i: usize = 0;
    loop
        invariant
            i <= v@.len(),
            split_ws_spec(v@) == views(r@) + split_ws_from(v@, i as int),
        decreases v@.len() - i,
    {
        let j = ws_skip_exec(v, i);
        if j >= v.len() {
            assert(split_ws_from(v@, i as int) =~= Seq::<Seq<char>>::empty());
            assert(views(r@) + Seq::<Seq<char>>::empty() =~= views(r@));
            return r;
        }
        proof {
            lemma_ws_skip(v@, i as int);
        }
        assert(!is_ws_spec(v@[j as int]));
        assert(word_end(v@, j as int) == word_end(v@, j + 1));
        let k = word_end_exec(v, j + 1);
        assert(k > j);
        let w = slice_of(v, j, k);
        let ghost old_r = r@;
        r.push(w);
        assert(views(r@) =~= views(old_r) + seq![v@.subrange(j as int, k as int)]);
        i = k;
    }
}

/// `str::lines`.
pub fn lines(v: &[char]) -> (r: Vec<Vec<char>>)
    ensures
        views(r@) == lines_spec(v@),
{
    let mut r: Vec<Vec<char>> = Vec::new();
    let mut rest = copy(v);
    loop
        invariant
            lines_spec(v@) == views(r@) + lines_spec(rest@),
        decreases rest@.len(),
    {
        if rest.len() == 0 {
            assert(views(r@) + lines_spec(rest@) =~= views(r@));
            return r;
        }
        match find_char(&rest, '\n') {
            Some(i) => {
                proof {
                    lemma_find_char_from_bound(rest@, '\n', 0);
                }
                let mut line = slice_of(&rest, 0, i);
                if line.len() > 0 && line[line.len() - 1] == '\r' {
                    line = slice_of(&line, 0, line.len() - 1);
                }
                assert(line@ == strip_cr(rest@.subrange(0, i as int)));
                let ghost old_r = r@;
                r.push(line);
                assert(views(r@) =~= views(old_r) + seq![line@]);
                rest = tail(&rest, i + 1);
            },
            None => {
                let ghost old_r = r@;
                let last = copy(&rest);
                r.push(last);
                assert(views(r@) =~= views(old_r) + seq![rest@]);
                return r;
            },
        }
    }
}

/// `char::is_ascii_digit`.
pub fn is_digit(c: char) -> (b: bool)
    ensures
        b == is_digit_spec(c),
{
    '0' <= c && c <= '9'
}

proof fn lemma_digits_prefix_le(s: Seq<char>, i: int)
    requires
        0 <= i <= s.len(),
        all_digits(s),
    ensures
        digits_val(s.subrange(0, i)) <= digits_val(s),
        0 <= digits_val(s),
    decreases s.len(),
{
    if s.len() > 0 {
        let t = s.drop_last();
        assert(all_digits(t));
        assert(is_digit_spec(s[s.len() - 1]));
        if i == s.len() {
            assert(s.subrange(0, i) =~= s);
            lemma_digits_prefix_le(t, 0);
        } else {
            assert(s.subrange(0, i) =~= t.subrange(0, i));
            lemma_digits_prefix_le(t, i);
        }
    } else {
        assert(s.subrange(0, i) =~= s);
    }
}

/// Decimal digits, with no sign, valued at most `max`.
pub fn parse_digits(v: &[char], max: u64) -> (r: Option<u64>)
    ensures
        r matches Some(x) ==> parse_digits_spec(v@, max as int) == Some(x as int),
        r is None ==> parse_digits_spec(v@, max as int) is None,
{
    let n = v.len();
    if n == 0 {
        return None;
    }
    let mut acc: u64 = 0;
    let mut i: usize = 0;
    while i < n
        invariant
            n == v@.len(),
            i <= n,
            acc <= max,
            all_digits(v@.subrange(0, i as int)),
            acc as int == digits_val(v@.subrange(0, i as int)),
        decreases n - i,
    {
        let c = v[i];
        if !is_digit(c) {
            assert(!all_digits(v@));
            return None;
        }
        let d = (c as u32 - '0' as u32) as u64;
        let next: u128 = (acc as u128) * 10 + (d as u128);
        assert(v@.subrange(0, i + 1).drop_last() =~= v@.subrange(0, i as int));
        assert(all_digits(v@.subrange(0, i + 1)));
        if next > max as u128 {
            proof {
                if all_digits(v@) {
                    lemma_digits_prefix_le(v@, i + 1);
                }
            }
            return None;
        }
        acc = next as u64;
        i = i + 1;
    }
    assert(v@.subrange(0, n as int) =~= v@);
    Some(acc)
}

/// `str::parse` for an unsigned type whose largest value is `max`.
pub fn parse_uint(v: &[char], max: u64) -> (r: Option<u64>)
    ensures
        r matches Some(x) ==> parse_uint_spec(v@, max as int) == Some(x as int),
        r is None ==> parse_uint_spec(v@, max as int) is None,
{
    if v.len() > 0 && v[0] == '+' {
        let body = tail(v, 1);
        assert(body@ =~= v@.drop_first());
        parse_digits(&body, max)
    } else {
        parse_digits(v, max)
    }
}

/// `str::parse::<u8>`.
pub fn parse_u8(v: &[char]) -> (r: Option<u8>)
    ensures
        r matches Some(x) ==> parse_u8_spec(v@) == Some(x as int),
        r is None ==> parse_u8_spec(v@) is None,
{
    match parse_uint(v, 255) {
        Some(x) => Some(x as u8),
        None => None,
    }
}

/// `str::parse::<u32>`.
pub fn parse_u32(v: &[char]) -> (r: Option<u32>)
    ensures
        r matches Some(x) ==> parse_u32_spec(v@) == Some(x as int),
        r is None ==> parse_u32_spec(v@) is None,
{
    match parse_uint(v, 0xFFFF_FFFF) {
        Some(x) => Some(x as u32),
        None => None,
    }
}

/// `str::parse::<u64>`.
pub fn parse_u64(v: &[char]) -> (r: Option<u64>)
    ensures
        r matches Some(x) ==> parse_u64_spec(v@) == Some(x as int),
        r is None ==> parse_u64_spec(v@) is None,
{
    parse_uint(v, 0xFFFF_FFFF_FFFF_FFFF)
}

/// `str::parse::<i32>`.
pub fn parse_i32(v: &[char]) -> (r: Option<i32>)
    ensures
        r matches Some(x) ==> parse_i32_spec(v@) == Some(x as int),
        r is None ==> parse_i32_spec(v@) is None,
{
    if v.len() > 0 && v[0] == '-' {
        let body = tail(v, 1);
        assert(body@ =~= v@.drop_first());
        match parse_digits(&body, 0x8000_0000) {
            Some(x) => Some((0 - (x as i64)) as i32),
            None => None,
        }
    } else {
        match parse_uint(v, 0x7FFF_FFFF) {
            Some(x) => Some(x as i32),
            None => None,
        }
    }
}

pub open spec fn digit_char(d: int) -> char {
    (('0' as int) + d) as char
}

/// The decimal digits of `n`, as `u64`'s `Display` writes them.
pub open spec fn nat_digits(n: nat) -> Seq<char>
    decreases n,
{
    if n < 10 {
        seq![digit_char(n as int)]
    } else {
        nat_digits(n / 10).push(digit_char((n % 10) as int))
    }
}

/// The decimal text of `v`, as the integer `Display` impls write it.
pub open spec fn int_digits(v: int) -> Seq<char> {
    if v < 0 {
        seq!['-'] + nat_digits((-v) as nat)
    } else {
        nat_digits(v as nat)
    }
}

/// `s` padded on the left with `'0'` up to `width` characters.
pub open spec fn zero_pad(s: Seq<char>, width: nat) -> Seq<char> {
    if s.len() >= width {
        s
    } else {
        Seq::new((width - s.len()) as nat, |i: int| '0') + s
    }
}

fn digit_of(d: u64) -> (c: char)
    requires
        d < 10,
    ensures
        c == digit_char(d as int),
{
    let c = (('0' as u8) + (d as u8)) as char;
    assert(c == digit_char(d as int));
    c
}

/// The decimal digits of `n`.
pub fn u64_chars(n: u64) -> (v: Vec<char>)
    ensures
        v@ == nat_digits(n as nat),
    decreases n,
{
    if n < 10 {
        let mut v: Vec<char> = Vec::new();
        v.push(digit_of(n));
        assert(v@ =~= seq![digit_char(n as int)]);
        v
    } else {
        let mut v = u64_chars(n / 10);
        v.push(digit_of(n % 10));
        v
    }
}

/// The decimal text of an `i32`.
pub fn i32_chars(x: i32) -> (v: Vec<char>)
    ensures
        v@ == int_digits(x as int),
{
    if x < 0 {
        let mag = (0 - (x as i64)) as u64;
        let d = u64_chars(mag);
        let mut v: Vec<char> = Vec::new();
        v.push('-');
        let r = concat(&v, &d);
        assert(v@ =~= seq!['-']);
        r
    } else {
        u64_chars(x as u64)
    }
}

/// Left-pads with `'0'` to `width` characters, as `{:0>width$}` does.
pub fn zero_pad_exec(v: &[char], width: usize) -> (r: Vec<char>)
    ensures
        r@ == zero_pad(v@, width as nat),
{
    if v.len() >= width {
        return copy(v);
    }
    let n = width - v.len();
    let mut z: Vec<char> = Vec::new();
    let mut i: usize = 0;
    while i < n
        invariant
            i <= n,
            z@ == Seq::new(i as nat, |k: int| '0'),
        decreases n - i,
    {
        z.push('0');
        i = i + 1;
        assert(z@ =~= Seq::new(i as nat, |k: int| '0'));
    }
    concat(&z, v)
}


// ------------------------------------------------------------------
// UTF-8 lengths
// ------------------------------------------------------------------

/// The length of the UTF-8 encoding of `s`, which is what `str::len`
/// returns.
pub open spec fn byte_len(s: Seq<char>) -> nat {
    vstd::utf8::encode_utf8(s).len()
}

/// Encoding a concatenation concatenates the encodings.
pub proof fn lemma_encode_concat(x: Seq<char>, y: Seq<char>)
    ensures
        vstd::utf8::encode_utf8(x + y) == vstd::utf8::encode_utf8(x) + vstd::utf8::encode_utf8(y),
    decreases x.len(),
{
    if x.len() == 0 {
        assert(x + y =~= y);
        assert(vstd::utf8::encode_utf8(x) =~= Seq::<u8>::empty());
        assert(vstd::utf8::encode_utf8(x + y) =~= vstd::utf8::encode_utf8(x) + vstd::utf8::encode_utf8(y));
    } else {
        lemma_encode_concat(x.drop_first(), y);
        assert((x + y).drop_first() =~= x.drop_first() + y);
        assert((x + y)[0] == x[0]);
        assert(vstd::utf8::encode_utf8(x + y) =~= vstd::utf8::encode_utf8(x) + vstd::utf8::encode_utf8(y));
    }
}

/// Every character takes at least one byte.
pub proof fn lemma_len_le_byte_len(s: Seq<char>)
    ensures
        s.len() <= byte_len(s),
    decreases s.len(),
{
    if s.len() > 0 {
        lemma_len_le_byte_len(s.drop_first());
        assert(vstd::utf8::encode_scalar(s[0] as u32).len() >= 1);
    }
}

/// A piece of a string takes no more bytes than the string.
pub proof fn lemma_byte_len_subrange(s: Seq<char>, lo: int, hi: int)
    requires
        0 <= lo <= hi <= s.len(),
    ensures
        byte_len(s.subrange(lo, hi)) <= byte_len(s),
{
    let a = s.subrange(0, lo);
    let m = s.subrange(lo, hi);
    let z = s.subrange(hi, s.len() as int);
    assert(s =~= a + m + z);
    lemma_encode_concat(a + m, z);
    lemma_encode_concat(a, m);
}

} // verus!
