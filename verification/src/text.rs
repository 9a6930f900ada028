//! Character-level text primitives: whitespace, trimming, searching, line and
//! field splitting, and the conversions between `&str`, `Vec<char>` and
//! `String` that the reply parsers are built on.

use vstd::prelude::*;
use vstd::string::*;

verus! {

// ---------------------------------------------------------------------------
// Whitespace and trimming
// ---------------------------------------------------------------------------

/// Unicode `White_Space`, the set that `char::is_whitespace` tests.
pub open spec fn is_ws(c: char) -> bool {
    ||| ('\u{9}' <= c && c <= '\u{d}')
    ||| c == ' '
    ||| c == '\u{85}'
    ||| c == '\u{a0}'
    ||| c == '\u{1680}'
    ||| ('\u{2000}' <= c && c <= '\u{200a}')
    ||| c == '\u{2028}'
    ||| c == '\u{2029}'
    ||| c == '\u{202f}'
    ||| c == '\u{205f}'
    ||| c == '\u{3000}'
}

/// `s` without its leading whitespace.
pub open spec fn trim_start(s: Seq<char>) -> Seq<char>
    decreases s.len(),
{
    if s.len() > 0 && is_ws(s[0]) {
        trim_start(s.drop_first())
    } else {
        s
    }
}

/// `s` without its trailing whitespace.
pub open spec fn trim_end(s: Seq<char>) -> Seq<char>
    decreases s.len(),
{
    if s.len() > 0 && is_ws(s.last()) {
        trim_end(s.drop_last())
    } else {
        s
    }
}

/// `s` without leading and trailing whitespace.
pub open spec fn trim(s: Seq<char>) -> Seq<char> {
    trim_end(trim_start(s))
}

/// `s` without every leading occurrence of `c`.
pub open spec fn trim_start_char(s: Seq<char>, c: char) -> Seq<char>
    decreases s.len(),
{
    if s.len() > 0 && s[0] == c {
        trim_start_char(s.drop_first(), c)
    } else {
        s
    }
}

/// `s` without every trailing occurrence of `c`.
pub open spec fn trim_end_char(s: Seq<char>, c: char) -> Seq<char>
    decreases s.len(),
{
    if s.len() > 0 && s.last() == c {
        trim_end_char(s.drop_last(), c)
    } else {
        s
    }
}

/// `s` without every leading and trailing occurrence of `c`.
pub open spec fn trim_char(s: Seq<char>, c: char) -> Seq<char> {
    trim_end_char(trim_start_char(s, c), c)
}

pub proof fn lemma_trim_start_suffix(s: Seq<char>)
    ensures
        trim_start(s).len() <= s.len(),
        trim_start(s) == s.subrange(s.len() - trim_start(s).len(), s.len() as int),
        trim_start(s).len() > 0 ==> !is_ws(trim_start(s)[0]),
        forall|i: int| 0 <= i < s.len() - trim_start(s).len() ==> is_ws(#[trigger] s[i]),
    decreases s.len(),
{
    if s.len() > 0 && is_ws(s[0]) {
        let t = s.drop_first();
        lemma_trim_start_suffix(t);
        assert(t.subrange(t.len() - trim_start(t).len(), t.len() as int) =~= s.subrange(
            s.len() - trim_start(t).len(),
            s.len() as int,
        ));
        assert forall|i: int| 0 <= i < s.len() - trim_start(s).len() implies is_ws(
            #[trigger] s[i],
        ) by {
            if i > 0 {
                assert(s[i] == t[i - 1]);
            }
        }
    } else {
        assert(s.subrange(0, s.len() as int) =~= s);
    }
}

pub proof fn lemma_trim_end_prefix(s: Seq<char>)
    ensures
        trim_end(s).len() <= s.len(),
        trim_end(s) == s.subrange(0, trim_end(s).len() as int),
        trim_end(s).len() > 0 ==> !is_ws(trim_end(s).last()),
        forall|i: int| trim_end(s).len() <= i < s.len() ==> is_ws(#[trigger] s[i]),
    decreases s.len(),
{
    if s.len() > 0 && is_ws(s.last()) {
        let t = s.drop_last();
        lemma_trim_end_prefix(t);
        assert(t.subrange(0, trim_end(t).len() as int) =~= s.subrange(
            0,
            trim_end(t).len() as int,
        ));
        assert forall|i: int| trim_end(s).len() <= i < s.len() implies is_ws(#[trigger] s[i]) by {
            if i < s.len() - 1 {
                assert(s[i] == t[i]);
            }
        }
    } else {
        assert(s.subrange(0, s.len() as int) =~= s);
    }
}

pub proof fn lemma_trim_end_char_prefix(s: Seq<char>, c: char)
    ensures
        trim_end_char(s, c).len() <= s.len(),
        trim_end_char(s, c) == s.subrange(0, trim_end_char(s, c).len() as int),
        trim_end_char(s, c).len() > 0 ==> trim_end_char(s, c).last() != c,
    decreases s.len(),
{
    if s.len() > 0 && s.last() == c {
        let t = s.drop_last();
        lemma_trim_end_char_prefix(t, c);
        assert(t.subrange(0, trim_end_char(t, c).len() as int) =~= s.subrange(
            0,
            trim_end_char(t, c).len() as int,
        ));
    } else {
        assert(s.subrange(0, s.len() as int) =~= s);
    }
}

pub proof fn lemma_trim_start_char_suffix(s: Seq<char>, c: char)
    ensures
        trim_start_char(s, c).len() <= s.len(),
        trim_start_char(s, c) == s.subrange(
            s.len() - trim_start_char(s, c).len(),
            s.len() as int,
        ),
        trim_start_char(s, c).len() > 0 ==> trim_start_char(s, c)[0] != c,
    decreases s.len(),
{
    if s.len() > 0 && s[0] == c {
        let t = s.drop_first();
        lemma_trim_start_char_suffix(t, c);
        assert(t.subrange(t.len() - trim_start_char(t, c).len(), t.len() as int)
            =~= s.subrange(s.len() - trim_start_char(t, c).len(), s.len() as int));
    } else {
        assert(s.subrange(0, s.len() as int) =~= s);
    }
}

// ---------------------------------------------------------------------------
// Prefixes, suffixes, searching
// ---------------------------------------------------------------------------

pub open spec fn starts_with(s: Seq<char>, p: Seq<char>) -> bool {
    p.len() <= s.len() && s.subrange(0, p.len() as int) == p
}

pub open spec fn ends_with(s: Seq<char>, p: Seq<char>) -> bool {
    p.len() <= s.len() && s.subrange(s.len() - p.len(), s.len() as int) == p
}

/// `p` occurs in `s` starting at position `i`.
pub open spec fn matches_at(s: Seq<char>, p: Seq<char>, i: int) -> bool {
    0 <= i && i + p.len() <= s.len() && s.subrange(i, i + p.len()) == p
}

/// The first position at or after `i` where `p` occurs.
pub open spec fn find_from(s: Seq<char>, p: Seq<char>, i: int) -> Option<int>
    decreases s.len() + 1 - i,
{
    if i < 0 || i + p.len() > s.len() {
        None
    } else if matches_at(s, p, i) {
        Some(i)
    } else {
        find_from(s, p, i + 1)
    }
}

/// `str::find`: the first position where `p` occurs.
pub open spec fn find(s: Seq<char>, p: Seq<char>) -> Option<int> {
    find_from(s, p, 0)
}

/// The last position at or before `i` where `p` occurs.
pub open spec fn rfind_upto(s: Seq<char>, p: Seq<char>, i: int) -> Option<int>
    decreases i + 1,
{
    if i < 0 {
        None
    } else if matches_at(s, p, i) {
        Some(i)
    } else {
        rfind_upto(s, p, i - 1)
    }
}

/// `str::rfind`: the last position where `p` occurs.
pub open spec fn rfind(s: Seq<char>, p: Seq<char>) -> Option<int> {
    rfind_upto(s, p, s.len() - p.len())
}

pub open spec fn contains(s: Seq<char>, p: Seq<char>) -> bool {
    find(s, p) is Some
}

pub open spec fn has_char(s: Seq<char>, c: char) -> bool {
    exists|i: int| 0 <= i < s.len() && s[i] == c
}

/// `find` gives the first occurrence, or `None` when there is none.
pub proof fn lemma_find_from(s: Seq<char>, p: Seq<char>, i: int)
    requires
        0 <= i,
    ensures
        match find_from(s, p, i) {
            Some(k) => i <= k && matches_at(s, p, k) && forall|j: int|
                i <= j < k ==> !#[trigger] matches_at(s, p, j),
            None => forall|j: int| i <= j ==> !#[trigger] matches_at(s, p, j),
        },
    decreases s.len() + 1 - i,
{
    if i + p.len() > s.len() {
    } else if matches_at(s, p, i) {
    } else {
        lemma_find_from(s, p, i + 1);
    }
}

pub proof fn lemma_find(s: Seq<char>, p: Seq<char>)
    ensures
        match find(s, p) {
            Some(k) => 0 <= k && k + p.len() <= s.len() && s.subrange(k, k + p.len()) == p
                && forall|j: int| 0 <= j < k ==> !#[trigger] matches_at(s, p, j),
            None => forall|j: int| !#[trigger] matches_at(s, p, j),
        },
{
    lemma_find_from(s, p, 0);
}

/// A single-character search finds the first position holding that character.
pub proof fn lemma_find_char(s: Seq<char>, c: char)
    ensures
        match find(s, seq![c]) {
            Some(k) => 0 <= k < s.len() && s[k] == c && forall|j: int|
                0 <= j < k ==> #[trigger] s[j] != c,
            None => forall|j: int| 0 <= j < s.len() ==> #[trigger] s[j] != c,
        },
        find(s, seq![c]) is Some <==> has_char(s, c),
{
    lemma_find(s, seq![c]);
    match find(s, seq![c]) {
        Some(k) => {
            assert(s.subrange(k, k + 1)[0] == s[k]);
            assert forall|j: int| 0 <= j < k implies #[trigger] s[j] != c by {
                if s[j] == c {
                    assert(s.subrange(j, j + 1) =~= seq![c]);
                    assert(matches_at(s, seq![c], j));
                }
            }
        },
        None => {
            assert forall|j: int| 0 <= j < s.len() implies #[trigger] s[j] != c by {
                if s[j] == c {
                    assert(s.subrange(j, j + 1) =~= seq![c]);
                    assert(matches_at(s, seq![c], j));
                }
            }
        },
    }
}

pub proof fn lemma_rfind_upto(s: Seq<char>, p: Seq<char>, i: int)
    ensures
        match rfind_upto(s, p, i) {
            Some(k) => 0 <= k <= i && matches_at(s, p, k) && forall|j: int|
                k < j <= i ==> !#[trigger] matches_at(s, p, j),
            None => forall|j: int| j <= i ==> !#[trigger] matches_at(s, p, j),
        },
    decreases i + 1,
{
    if i < 0 {
    } else if matches_at(s, p, i) {
    } else {
        lemma_rfind_upto(s, p, i - 1);
    }
}

pub proof fn lemma_rfind(s: Seq<char>, p: Seq<char>)
    ensures
        match rfind(s, p) {
            Some(k) => 0 <= k && k + p.len() <= s.len() && s.subrange(k, k + p.len()) == p
                && forall|j: int| k < j ==> !#[trigger] matches_at(s, p, j),
            None => forall|j: int| !#[trigger] matches_at(s, p, j),
        },
{
    lemma_rfind_upto(s, p, s.len() - p.len());
}

// ---------------------------------------------------------------------------
// Lines, fields and words
// ---------------------------------------------------------------------------

/// The first position at or after `i` that holds `c`, or the length of `s`.
pub open spec fn next_char(s: Seq<char>, c: char, i: int) -> int
    decreases s.len() - i,
{
    if i < 0 || i >= s.len() || s[i] == c {
        i
    } else {
        next_char(s, c, i + 1)
    }
}

pub proof fn lemma_next_char(s: Seq<char>, c: char, i: int)
    requires
        0 <= i <= s.len(),
    ensures
        i <= next_char(s, c, i) <= s.len(),
        next_char(s, c, i) < s.len() ==> s[next_char(s, c, i)] == c,
        forall|j: int| i <= j < next_char(s, c, i) ==> #[trigger] s[j] != c,
    decreases s.len() - i,
{
    if i >= s.len() || s[i] == c {
    } else {
        lemma_next_char(s, c, i + 1);
    }
}

/// One carriage return is dropped from the end of a line that a newline closed.
pub open spec fn strip_cr(l: Seq<char>) -> Seq<char> {
    if l.len() > 0 && l.last() == '\r' {
        l.drop_last()
    } else {
        l
    }
}

/// `str::lines` on the text from position `i` on.
pub open spec fn lines_from(s: Seq<char>, i: int) -> Seq<Seq<char>>
    decreases s.len() - i,
{
    if i < 0 || i >= s.len() {
        seq![]
    } else {
        let e = next_char(s, '\n', i);
        if e < s.len() {
            proof {
                lemma_next_char(s, '\n', i);
            }
            seq![strip_cr(s.subrange(i, e))] + lines_from(s, e + 1)
        } else {
            seq![s.subrange(i, s.len() as int)]
        }
    }
}

/// `str::lines`: the text split at `\n` (and `\r\n`), without a trailing
/// empty line.
pub open spec fn lines(s: Seq<char>) -> Seq<Seq<char>> {
    lines_from(s, 0)
}

/// `str::split` on a single character, from position `i` on.
pub open spec fn split_from(s: Seq<char>, c: char, i: int) -> Seq<Seq<char>>
    decreases s.len() - i,
{
    if i < 0 || i > s.len() {
        seq![]
    } else {
        let e = next_char(s, c, i);
        if e < s.len() {
            proof {
                lemma_next_char(s, c, i);
            }
            seq![s.subrange(i, e)] + split_from(s, c, e + 1)
        } else {
            seq![s.subrange(i, s.len() as int)]
        }
    }
}

/// `str::split` on a single character.
pub open spec fn split(s: Seq<char>, c: char) -> Seq<Seq<char>> {
    split_from(s, c, 0)
}

/// The first position at or after `i` whose whitespace-ness is `ws`, or the length.
pub open spec fn next_ws(s: Seq<char>, ws: bool, i: int) -> int
    decreases s.len() - i,
{
    if i < 0 || i >= s.len() || is_ws(s[i]) == ws {
        i
    } else {
        next_ws(s, ws, i + 1)
    }
}

pub proof fn lemma_next_ws(s: Seq<char>, ws: bool, i: int)
    requires
        0 <= i <= s.len(),
    ensures
        i <= next_ws(s, ws, i) <= s.len(),
        next_ws(s, ws, i) < s.len() ==> is_ws(s[next_ws(s, ws, i)]) == ws,
        forall|j: int| i <= j < next_ws(s, ws, i) ==> is_ws(#[trigger] s[j]) != ws,
    decreases s.len() - i,
{
    if i >= s.len() || is_ws(s[i]) == ws {
    } else {
        lemma_next_ws(s, ws, i + 1);
    }
}

/// `str::split_whitespace` on the text from position `i` on.
pub open spec fn words_from(s: Seq<char>, i: int) -> Seq<Seq<char>>
    decreases s.len() - i,
{
    if i < 0 || i > s.len() {
        seq![]
    } else {
        let b = next_ws(s, false, i);
        if b >= s.len() {
            seq![]
        } else {
            let e = next_ws(s, true, b);
            proof {
                lemma_next_ws(s, false, i);
                lemma_next_ws(s, true, b);
            }
            seq![s.subrange(b, e)] + words_from(s, e)
        }
    }
}

/// `str::split_whitespace`: the maximal runs of non-whitespace characters.
pub open spec fn words(s: Seq<char>) -> Seq<Seq<char>> {
    words_from(s, 0)
}

/// The pieces of `l` joined with `sep` between them.
pub open spec fn join(l: Seq<Seq<char>>, sep: Seq<char>) -> Seq<char>
    decreases l.len(),
{
    if l.len() == 0 {
        seq![]
    } else if l.len() == 1 {
        l[0]
    } else {
        join(l.drop_last(), sep) + sep + l.last()
    }
}

// ---------------------------------------------------------------------------
// ASCII case folding
// ---------------------------------------------------------------------------

pub open spec fn ascii_lower(c: char) -> char {
    if 'A' <= c && c <= 'Z' {
        ((c as u32) + 32) as char
    } else {
        c
    }
}

/// `eq_ignore_ascii_case`.
pub open spec fn eq_ci(a: Seq<char>, b: Seq<char>) -> bool {
    a.len() == b.len() && forall|i: int| 0 <= i < a.len() ==> ascii_lower(#[trigger] a[i])
        == ascii_lower(b[i])
}

/// ASCII case-insensitive `starts_with`.
pub open spec fn starts_with_ci(s: Seq<char>, p: Seq<char>) -> bool {
    p.len() <= s.len() && eq_ci(s.subrange(0, p.len() as int), p)
}

// ---------------------------------------------------------------------------
// Unsigned integers
// ---------------------------------------------------------------------------

pub open spec fn is_digit(c: char) -> bool {
    '0' <= c && c <= '9'
}

pub open spec fn all_digits(s: Seq<char>) -> bool {
    forall|i: int| 0 <= i < s.len() ==> is_digit(#[trigger] s[i])
}

/// The decimal value of a run of digits.
pub open spec fn digits_value(s: Seq<char>) -> int
    decreases s.len(),
{
    if s.len() == 0 {
        0
    } else {
        digits_value(s.drop_last()) * 10 + (s.last() as int - '0' as int)
    }
}

/// `str::parse` for an unsigned integer type whose largest value is `max`:
/// an optional `+`, then one or more decimal digits whose value fits.
/// The text after an optional leading `+`.
pub open spec fn uint_digits(s: Seq<char>) -> Seq<char> {
    if s.len() > 0 && s[0] == '+' {
        s.drop_first()
    } else {
        s
    }
}

pub open spec fn parse_uint(s: Seq<char>, max: int) -> Option<int> {
    let d = uint_digits(s);
    if d.len() > 0 && all_digits(d) && digits_value(d) <= max {
        Some(digits_value(d))
    } else {
        None
    }
}

pub open spec fn parse_u32(s: Seq<char>) -> Option<u32> {
    match parse_uint(s, u32::MAX as int) {
        Some(n) => Some(n as u32),
        None => None,
    }
}

pub open spec fn parse_usize(s: Seq<char>) -> Option<usize> {
    match parse_uint(s, usize::MAX as int) {
        Some(n) => Some(n as usize),
        None => None,
    }
}

pub proof fn lemma_digits_value_monotone(s: Seq<char>, i: int)
    requires
        0 <= i <= s.len(),
        all_digits(s),
    ensures
        0 <= digits_value(s.take(i)) <= digits_value(s),
    decreases s.len() - i,
{
    if i < s.len() {
        lemma_digits_value_monotone(s, i + 1);
        assert(s.take(i + 1).drop_last() =~= s.take(i));
        assert(is_digit(s[i]));
    } else {
        assert(s.take(i) =~= s);
        lemma_digits_value_nonneg(s);
    }
}

pub proof fn lemma_digits_value_nonneg(s: Seq<char>)
    requires
        all_digits(s),
    ensures
        0 <= digits_value(s),
    decreases s.len(),
{
    if s.len() > 0 {
        lemma_digits_value_nonneg(s.drop_last());
        assert(is_digit(s[s.len() - 1]));
    }
}

// ---------------------------------------------------------------------------
// Small derived operations
// ---------------------------------------------------------------------------

/// `str::strip_prefix`.
pub open spec fn strip_prefix(s: Seq<char>, p: Seq<char>) -> Option<Seq<char>> {
    if starts_with(s, p) {
        Some(s.subrange(p.len() as int, s.len() as int))
    } else {
        None
    }
}

/// `str::strip_suffix`.
pub open spec fn strip_suffix(s: Seq<char>, p: Seq<char>) -> Option<Seq<char>> {
    if ends_with(s, p) {
        Some(s.subrange(0, s.len() - p.len()))
    } else {
        None
    }
}

/// `str::split_once` on a single character.
pub open spec fn split_once(s: Seq<char>, c: char) -> Option<(Seq<char>, Seq<char>)> {
    match find(s, seq![c]) {
        Some(k) => Some((s.subrange(0, k), s.subrange(k + 1, s.len() as int))),
        None => None,
    }
}

/// The first whitespace-separated word, if any.
pub open spec fn first_word(s: Seq<char>) -> Option<Seq<char>> {
    if words(s).len() > 0 {
        Some(words(s)[0])
    } else {
        None
    }
}

/// The character sequences held by a vector of character vectors.
pub open spec fn seqs(v: Seq<Vec<char>>) -> Seq<Seq<char>> {
    Seq::new(v.len(), |i: int| v[i]@)
}

// ---------------------------------------------------------------------------
// Executable counterparts
// ---------------------------------------------------------------------------

/// Appends one character to a `String` (`String::push`).
#[verifier::external_body]
fn push_char(s: &mut String, c: char)
    ensures
        final(s)@ == old(s)@.push(c),
{
    s.push(c);
}

/// The characters of `s`, in order.
pub fn chars_of(s: &str) -> (v: Vec<char>)
    ensures
        v@ == s@,
{
    let mut v: Vec<char> = Vec::new();
    for c in it: s.chars()
        invariant
            v@ == it.seq().take(it.index() as int),
    {
        v.push(c);
    }
    assert(v@ == s@);
    v
}

/// A `String` holding exactly the characters of `v`.
pub fn string_of(v: &[char]) -> (s: String)
    ensures
        s@ == v@,
{
    let mut s = String::new();
    let mut i: usize = 0;
    while i < v.len()
        invariant
            i <= v.len(),
            s@ == v@.take(i as int),
        decreases v.len() - i,
    {
        push_char(&mut s, v[i]);
        assert(v@.take(i + 1) =~= v@.take(i as int).push(v@[i as int]));
        i = i + 1;
    }
    assert(v@.take(v.len() as int) =~= v@);
    s
}

/// The characters of `s` from `lo` up to `hi`.
pub fn slice_of(s: &[char], lo: usize, hi: usize) -> (v: Vec<char>)
    requires
        lo <= hi <= s@.len(),
    ensures
        v@ == s@.subrange(lo as int, hi as int),
{
    let mut v: Vec<char> = Vec::new();
    let mut i = lo;
    while i < hi
        invariant
            lo <= i <= hi <= s@.len(),
            v@ == s@.subrange(lo as int, i as int),
        decreases hi - i,
    {
        v.push(s[i]);
        assert(s@.subrange(lo as int, i + 1) =~= s@.subrange(lo as int, i as int).push(
            s@[i as int],
        ));
        i = i + 1;
    }
    v
}

/// `v` followed by `w`.
pub fn concat(v: &[char], w: &[char]) -> (r: Vec<char>)
    ensures
        r@ == v@ + w@,
{
    let mut r = slice_of(v, 0, v.len());
    let mut i: usize = 0;
    assert(v@.subrange(0, v@.len() as int) =~= v@);
    while i < w.len()
        invariant
            i <= w.len(),
            r@ == v@ + w@.take(i as int),
        decreases w.len() - i,
    {
        r.push(w[i]);
        assert(w@.take(i + 1) =~= w@.take(i as int).push(w@[i as int]));
        i = i + 1;
    }
    assert(w@.take(w.len() as int) =~= w@);
    r
}

/// `char::is_whitespace`.
pub fn is_whitespace(c: char) -> (b: bool)
    ensures
        b == is_ws(c),
{
    ('\u{9}' <= c && c <= '\u{d}') || c == ' ' || c == '\u{85}' || c == '\u{a0}' || c
        == '\u{1680}' || ('\u{2000}' <= c && c <= '\u{200a}') || c == '\u{2028}' || c
        == '\u{2029}' || c == '\u{202f}' || c == '\u{205f}' || c == '\u{3000}'
}

/// Start of the text left once leading whitespace is dropped from `s[lo..hi]`.
pub fn trim_start_at(s: &[char], lo: usize, hi: usize) -> (k: usize)
    requires
        lo <= hi <= s@.len(),
    ensures
        lo <= k <= hi,
        s@.subrange(k as int, hi as int) == trim_start(s@.subrange(lo as int, hi as int)),
{
    let mut k = lo;
    while k < hi && is_whitespace(s[k])
        invariant
            lo <= k <= hi <= s@.len(),
            trim_start(s@.subrange(k as int, hi as int)) == trim_start(
                s@.subrange(lo as int, hi as int),
            ),
        decreases hi - k,
    {
        assert(s@.subrange(k as int, hi as int).drop_first() =~= s@.subrange(k + 1, hi as int));
        k = k + 1;
    }
    k
}

/// End of the text left once trailing whitespace is dropped from `s[lo..hi]`.
pub fn trim_end_at(s: &[char], lo: usize, hi: usize) -> (k: usize)
    requires
        lo <= hi <= s@.len(),
    ensures
        lo <= k <= hi,
        s@.subrange(lo as int, k as int) == trim_end(s@.subrange(lo as int, hi as int)),
{
    let mut k = hi;
    while k > lo && is_whitespace(s[k - 1])
        invariant
            lo <= k <= hi <= s@.len(),
            trim_end(s@.subrange(lo as int, k as int)) == trim_end(
                s@.subrange(lo as int, hi as int),
            ),
        decreases k - lo,
    {
        assert(s@.subrange(lo as int, k as int).drop_last() =~= s@.subrange(lo as int, k - 1));
        k = k - 1;
    }
    k
}

/// `str::trim`.
pub fn trimmed(s: &[char]) -> (v: Vec<char>)
    ensures
        v@ == trim(s@),
{
    let a = trim_start_at(s, 0, s.len());
    let b = trim_end_at(s, a, s.len());
    assert(s@.subrange(0, s@.len() as int) =~= s@);
    slice_of(s, a, b)
}

/// `str::trim_end_matches` with a single character.
pub fn trimmed_end_char(s: &[char], c: char) -> (v: Vec<char>)
    ensures
        v@ == trim_end_char(s@, c),
{
    let mut k = s.len();
    assert(s@.subrange(0, s@.len() as int) =~= s@);
    while k > 0 && s[k - 1] == c
        invariant
            k <= s@.len(),
            trim_end_char(s@.subrange(0, k as int), c) == trim_end_char(s@, c),
        decreases k,
    {
        assert(s@.subrange(0, k as int).drop_last() =~= s@.subrange(0, k - 1));
        k = k - 1;
    }
    slice_of(s, 0, k)
}

/// `str::trim_start_matches` with a single character.
pub fn trimmed_start_char(s: &[char], c: char) -> (v: Vec<char>)
    ensures
        v@ == trim_start_char(s@, c),
{
    let mut k: usize = 0;
    assert(s@.subrange(0, s@.len() as int) =~= s@);
    while k < s.len() && s[k] == c
        invariant
            k <= s@.len(),
            trim_start_char(s@.subrange(k as int, s@.len() as int), c) == trim_start_char(
                s@,
                c,
            ),
        decreases s.len() - k,
    {
        assert(s@.subrange(k as int, s@.len() as int).drop_first() =~= s@.subrange(
            k + 1,
            s@.len() as int,
        ));
        k = k + 1;
    }
    slice_of(s, k, s.len())
}

/// `str::trim_matches` with a single character.
pub fn trimmed_char(s: &[char], c: char) -> (v: Vec<char>)
    ensures
        v@ == trim_char(s@, c),
{
    let a = trimmed_start_char(s, c);
    trimmed_end_char(&a, c)
}

/// Whether `p` occurs in `s` at position `i`.
pub fn matches_at_exec(s: &[char], p: &[char], i: usize) -> (b: bool)
    ensures
        b == matches_at(s@, p@, i as int),
{
    if i > s.len() || p.len() > s.len() - i {
        return false;
    }
    let mut j: usize = 0;
    while j < p.len()
        invariant
            s@.len() == s.len(),
            i + p@.len() <= s@.len(),
            j <= p@.len(),
            forall|k: int| 0 <= k < j ==> s@[i + k] == p@[k],
        decreases p.len() - j,
    {
        if s[i + j] != p[j] {
            assert(s@.subrange(i as int, i + p@.len())[j as int] != p@[j as int]);
            return false;
        }
        j = j + 1;
    }
    assert(s@.subrange(i as int, i + p@.len()) =~= p@);
    true
}

/// `str::starts_with`.
pub fn starts_with_exec(s: &[char], p: &[char]) -> (b: bool)
    ensures
        b == starts_with(s@, p@),
{
    matches_at_exec(s, p, 0)
}

/// `str::ends_with`.
pub fn ends_with_exec(s: &[char], p: &[char]) -> (b: bool)
    ensures
        b == ends_with(s@, p@),
{
    if p.len() > s.len() {
        false
    } else {
        matches_at_exec(s, p, s.len() - p.len())
    }
}

/// `str::find`.
pub fn find_exec(s: &[char], p: &[char]) -> (r: Option<usize>)
    ensures
        match r {
            Some(k) => find(s@, p@) == Some(k as int),
            None => find(s@, p@) is None,
        },
{
    if p.len() > s.len() {
        return None;
    }
    let last = s.len() - p.len();
    let mut i: usize = 0;
    loop
        invariant
            i <= last,
            last + p@.len() == s@.len(),
            find_from(s@, p@, i as int) == find(s@, p@),
        decreases last - i,
    {
        if matches_at_exec(s, p, i) {
            return Some(i);
        }
        if i == last {
            assert(find_from(s@, p@, i + 1) is None);
            return None;
        }
        i = i + 1;
    }
}

/// `str::find` with a single character.
pub fn find_char_exec(s: &[char], c: char) -> (r: Option<usize>)
    ensures
        match r {
            Some(k) => find(s@, seq![c]) == Some(k as int),
            None => find(s@, seq![c]) is None,
        },
{
    let p = vec![c];
    assert(p@ =~= seq![c]);
    find_exec(&p, &p);
    find_exec(s, &p)
}

/// `str::rfind`.
pub fn rfind_exec(s: &[char], p: &[char]) -> (r: Option<usize>)
    ensures
        match r {
            Some(k) => rfind(s@, p@) == Some(k as int),
            None => rfind(s@, p@) is None,
        },
{
    if p.len() > s.len() {
        return None;
    }
    let mut i: usize = s.len() - p.len();
    loop
        invariant
            i <= s@.len() - p@.len(),
            rfind_upto(s@, p@, i as int) == rfind(s@, p@),
        decreases i,
    {
        if matches_at_exec(s, p, i) {
            return Some(i);
        }
        if i == 0 {
            return None;
        }
        i = i - 1;
    }
}

/// Whether `c` occurs in `s`.
pub fn has_char_exec(s: &[char], c: char) -> (b: bool)
    ensures
        b == has_char(s@, c),
{
    let r = find_char_exec(s, c);
    proof {
        lemma_find_char(s@, c);
    }
    r.is_some()
}

/// Whether `p` occurs in `s` (`str::contains`).
pub fn contains_exec(s: &[char], p: &[char]) -> (b: bool)
    ensures
        b == contains(s@, p@),
{
    find_exec(s, p).is_some()
}

/// `str::lines`.
pub fn lines_exec(s: &[char]) -> (v: Vec<Vec<char>>)
    ensures
        seqs(v@) == lines(s@),
{
    let mut v: Vec<Vec<char>> = Vec::new();
    let mut i: usize = 0;
    while i < s.len()
        invariant
            i <= s@.len(),
            seqs(v@) + lines_from(s@, i as int) == lines(s@),
        decreases s.len() - i,
    {
        let mut e = i;
        while e < s.len() && s[e] != '\n'
            invariant
                i <= e <= s@.len(),
                next_char(s@, '\n', e as int) == next_char(s@, '\n', i as int),
            decreases s.len() - e,
        {
            e = e + 1;
        }
        let ghost old_v = seqs(v@);
        if e < s.len() {
            let mut line = slice_of(s, i, e);
            if line.len() > 0 && line[line.len() - 1] == '\r' {
                line.pop();
                assert(line@ =~= strip_cr(s@.subrange(i as int, e as int)));
            }
            v.push(line);
            assert(seqs(v@) =~= old_v.push(strip_cr(s@.subrange(i as int, e as int))));
            assert(lines_from(s@, i as int) == seq![strip_cr(s@.subrange(i as int, e as int))]
                + lines_from(s@, e + 1));
            i = e + 1;
        } else {
            let line = slice_of(s, i, s.len());
            v.push(line);
            assert(seqs(v@) =~= old_v.push(s@.subrange(i as int, s@.len() as int)));
            assert(lines_from(s@, s@.len() as int) =~= seq![]);
            i = s.len();
        }
    }
    assert(lines_from(s@, i as int) =~= seq![]);
    v
}


/// Where each line of `s` stands: line `k` of `str::lines` is `s[r.0..r.1]` for
/// the `k`-th range `r`.
pub fn line_ranges(s: &[char]) -> (v: Vec<(usize, usize)>)
    ensures
        v@.len() == lines(s@).len(),
        forall|k: int|
            0 <= k < v@.len() ==> #[trigger] v@[k].0 <= v@[k].1 <= s@.len() && s@.subrange(
                v@[k].0 as int,
                v@[k].1 as int,
            ) == lines(s@)[k],
{
    let mut v: Vec<(usize, usize)> = Vec::new();
    let mut i: usize = 0;
    let ghost mut got: Seq<Seq<char>> = seq![];
    while i < s.len()
        invariant
            i <= s@.len(),
            got + lines_from(s@, i as int) == lines(s@),
            v@.len() == got.len(),
            forall|k: int|
                0 <= k < v@.len() ==> #[trigger] v@[k].0 <= v@[k].1 <= s@.len() && s@.subrange(
                    v@[k].0 as int,
                    v@[k].1 as int,
                ) == got[k],
        decreases s.len() - i,
    {
        let mut e = i;
        while e < s.len() && s[e] != '\n'
            invariant
                i <= e <= s@.len(),
                next_char(s@, '\n', e as int) == next_char(s@, '\n', i as int),
            decreases s.len() - e,
        {
            e = e + 1;
        }
        if e < s.len() {
            let end = if e > i && s[e - 1] == '\r' {
                e - 1
            } else {
                e
            };
            assert(s@.subrange(i as int, end as int) =~= strip_cr(s@.subrange(i as int, e as int)));
            v.push((i, end));
            proof {
                got = got.push(strip_cr(s@.subrange(i as int, e as int)));
            }
            assert(lines_from(s@, i as int) == seq![strip_cr(s@.subrange(i as int, e as int))]
                + lines_from(s@, e + 1));
            i = e + 1;
        } else {
            v.push((i, s.len()));
            proof {
                got = got.push(s@.subrange(i as int, s@.len() as int));
            }
            assert(lines_from(s@, s@.len() as int) =~= seq![]);
            i = s.len();
        }
    }
    assert(lines_from(s@, i as int) =~= seq![]);
    assert(got =~= lines(s@));
    v
}

/// `str::split` on a single character.
pub fn split_exec(s: &[char], c: char) -> (v: Vec<Vec<char>>)
    ensures
        seqs(v@) == split(s@, c),
{
    let mut v: Vec<Vec<char>> = Vec::new();
    let mut i: usize = 0;
    loop
        invariant
            i <= s@.len(),
            seqs(v@) + split_from(s@, c, i as int) == split(s@, c),
        decreases s.len() - i,
    {
        let mut e = i;
        while e < s.len() && s[e] != c
            invariant
                i <= e <= s@.len(),
                next_char(s@, c, e as int) == next_char(s@, c, i as int),
            decreases s.len() - e,
        {
            e = e + 1;
        }
        let ghost old_v = seqs(v@);
        let piece = slice_of(s, i, e);
        v.push(piece);
        assert(seqs(v@) =~= old_v.push(s@.subrange(i as int, e as int)));
        if e < s.len() {
            i = e + 1;
        } else {
            assert(seqs(v@) =~= split(s@, c));
            return v;
        }
    }
}

/// `str::split_whitespace`.
pub fn words_exec(s: &[char]) -> (v: Vec<Vec<char>>)
    ensures
        seqs(v@) == words(s@),
{
    let mut v: Vec<Vec<char>> = Vec::new();
    let mut i: usize = 0;
    loop
        invariant
            i <= s@.len(),
            seqs(v@) + words_from(s@, i as int) == words(s@),
        decreases s.len() - i,
    {
        let mut b = i;
        while b < s.len() && is_whitespace(s[b])
            invariant
                i <= b <= s@.len(),
                next_ws(s@, false, b as int) == next_ws(s@, false, i as int),
            decreases s.len() - b,
        {
            b = b + 1;
        }
        if b >= s.len() {
            assert(words_from(s@, i as int) =~= seq![]);
            assert(seqs(v@) =~= words(s@));
            return v;
        }
        let mut e = b;
        while e < s.len() && !is_whitespace(s[e])
            invariant
                b <= e <= s@.len(),
                next_ws(s@, true, e as int) == next_ws(s@, true, b as int),
            decreases s.len() - e,
        {
            e = e + 1;
        }
        let ghost old_v = seqs(v@);
        let w = slice_of(s, b, e);
        v.push(w);
        assert(seqs(v@) =~= old_v.push(s@.subrange(b as int, e as int)));
        i = e;
    }
}

/// The pieces of `l` joined with `sep` between them.
pub fn join_exec(l: &Vec<Vec<char>>, sep: &[char]) -> (r: Vec<char>)
    ensures
        r@ == join(seqs(l@), sep@),
{
    let mut r: Vec<char> = Vec::new();
    let mut i: usize = 0;
    while i < l.len()
        invariant
            i <= l@.len(),
            r@ == join(seqs(l@).take(i as int), sep@),
        decreases l.len() - i,
    {
        let ghost dv = seqs(l@);
        assert(dv.take(i + 1).drop_last() =~= dv.take(i as int));
        if i == 0 {
            assert(dv.take(1) =~= seq![dv[0]]);
            r = concat(&r, &l[i]);
            assert(r@ =~= dv[0]);
        } else {
            let r1 = concat(&r, sep);
            r = concat(&r1, &l[i]);
        }
        i = i + 1;
    }
    assert(seqs(l@).take(l@.len() as int) =~= seqs(l@));
    r
}

/// Whether `a` and `b` hold the same characters.
pub fn eq_exec(a: &[char], b: &[char]) -> (r: bool)
    ensures
        r == (a@ == b@),
{
    if a.len() != b.len() {
        return false;
    }
    let r = matches_at_exec(a, b, 0);
    assert(a@.subrange(0, b@.len() as int) =~= a@);
    r
}

/// `eq_ignore_ascii_case`.
pub fn eq_ci_exec(a: &[char], b: &[char]) -> (r: bool)
    ensures
        r == eq_ci(a@, b@),
{
    if a.len() != b.len() {
        return false;
    }
    let mut i: usize = 0;
    while i < a.len()
        invariant
            a@.len() == b@.len(),
            i <= a@.len(),
            forall|j: int| 0 <= j < i ==> ascii_lower(#[trigger] a@[j]) == ascii_lower(b@[j]),
        decreases a.len() - i,
    {
        if ascii_lower_exec(a[i]) != ascii_lower_exec(b[i]) {
            return false;
        }
        i = i + 1;
    }
    true
}

/// ASCII case-insensitive `starts_with`.
pub fn starts_with_ci_exec(s: &[char], p: &[char]) -> (r: bool)
    ensures
        r == starts_with_ci(s@, p@),
{
    if p.len() > s.len() {
        return false;
    }
    let head = slice_of(s, 0, p.len());
    eq_ci_exec(&head, p)
}

/// `str::strip_prefix`.
pub fn strip_prefix_exec(s: &[char], p: &[char]) -> (r: Option<Vec<char>>)
    ensures
        match r {
            Some(v) => strip_prefix(s@, p@) == Some(v@),
            None => strip_prefix(s@, p@) is None,
        },
{
    if starts_with_exec(s, p) {
        Some(slice_of(s, p.len(), s.len()))
    } else {
        None
    }
}

/// `str::strip_suffix`.
pub fn strip_suffix_exec(s: &[char], p: &[char]) -> (r: Option<Vec<char>>)
    ensures
        match r {
            Some(v) => strip_suffix(s@, p@) == Some(v@),
            None => strip_suffix(s@, p@) is None,
        },
{
    if ends_with_exec(s, p) {
        Some(slice_of(s, 0, s.len() - p.len()))
    } else {
        None
    }
}

/// `str::split_once` on a single character.
pub fn split_once_exec(s: &[char], c: char) -> (r: Option<(Vec<char>, Vec<char>)>)
    ensures
        match r {
            Some((a, b)) => split_once(s@, c) == Some((a@, b@)),
            None => split_once(s@, c) is None,
        },
{
    match find_char_exec(s, c) {
        Some(k) => {
            proof {
                lemma_find_char(s@, c);
            }
            assert(k < s.len());
            Some((slice_of(s, 0, k), slice_of(s, k + 1, s.len())))
        },
        None => None,
    }
}

/// The first whitespace-separated word, if any.
pub fn first_word_exec(s: &[char]) -> (r: Option<Vec<char>>)
    ensures
        match r {
            Some(w) => first_word(s@) == Some(w@),
            None => first_word(s@) is None,
        },
{
    let ws = words_exec(s);
    if ws.len() > 0 {
        assert(seqs(ws@)[0] == ws@[0]@);
        Some(slice_of(&ws[0], 0, ws[0].len()))
    } else {
        None
    }
}

/// `str::parse` into an unsigned integer no larger than `max`.
pub fn parse_uint_exec(s: &[char], max: u64) -> (r: Option<u64>)
    ensures
        match r {
            Some(n) => parse_uint(s@, max as int) == Some(n as int),
            None => parse_uint(s@, max as int) is None,
        },
{
    let start: usize = if s.len() > 0 && s[0] == '+' {
        1
    } else {
        0
    };
    let d = slice_of(s, start, s.len());
    proof {
        if s.len() > 0 && s@[0] == '+' {
            assert(d@ =~= s@.drop_first());
        } else {
            assert(d@ =~= s@);
        }
    }
    if d.len() == 0 {
        return None;
    }
    let mut i: usize = 0;
    while i < d.len()
        invariant
            d@ == uint_digits(s@),
            i <= d@.len(),
            forall|j: int| 0 <= j < i ==> is_digit(#[trigger] d@[j]),
        decreases d.len() - i,
    {
        if !('0' <= d[i] && d[i] <= '9') {
            assert(!is_digit(d@[i as int]));
            assert(!all_digits(d@));
            return None;
        }
        i = i + 1;
    }
    let mut acc: u64 = 0;
    let mut k: usize = 0;
    while k < d.len()
        invariant
            d@ == uint_digits(s@),
            all_digits(d@),
            k <= d@.len(),
            acc as int == digits_value(d@.take(k as int)),
            acc <= max,
        decreases d.len() - k,
    {
        assert(d@.take(k + 1).drop_last() =~= d@.take(k as int));
        assert(is_digit(d@[k as int]));
        let ch = d[k];
        assert(48 <= ch as u32 <= 57);
        let digit = (ch as u32 - 48) as u128;
        let next: u128 = (acc as u128) * 10 + digit;
        assert(next as int == digits_value(d@.take(k + 1)));
        if next > max as u128 {
            proof {
                lemma_digits_value_monotone(d@, k + 1);
            }
            return None;
        }
        acc = next as u64;
        k = k + 1;
    }
    assert(d@.take(d@.len() as int) =~= d@);
    Some(acc)
}

/// `str::parse::<u32>()`.
pub fn parse_u32_exec(s: &[char]) -> (r: Option<u32>)
    ensures
        r == parse_u32(s@),
{
    match parse_uint_exec(s, 0xffff_ffff) {
        Some(n) => Some(n as u32),
        None => None,
    }
}

/// `str::parse::<usize>()`.
pub fn parse_usize_exec(s: &[char]) -> (r: Option<usize>)
    ensures
        r == parse_usize(s@),
{
    match parse_uint_exec(s, usize::MAX as u64) {
        Some(n) => Some(n as usize),
        None => None,
    }
}

/// Whether two string slices hold the same characters.
pub fn str_eq(a: &str, b: &str) -> (r: bool)
    ensures
        r == (a@ == b@),
{
    let x = chars_of(a);
    let y = chars_of(b);
    eq_exec(&x, &y)
}

/// `a` followed by `b`, as a `String`.
pub fn cat2(a: &str, b: &str) -> (r: String)
    ensures
        r@ == a@ + b@,
{
    let x = chars_of(a);
    let y = chars_of(b);
    let z = concat(&x, &y);
    string_of(&z)
}

/// ASCII lower-casing of one character.
pub fn ascii_lower_exec(c: char) -> (d: char)
    ensures
        d == ascii_lower(c),
{
    if 'A' <= c && c <= 'Z' {
        let b = (c as u32) as u8;
        ((b + 32) as char)
    } else {
        c
    }
}

/// The decimal digit for `d < 10`.
pub open spec fn digit_char(d: nat) -> char {
    (48 + d) as char
}

/// The decimal representation of `n`, without leading zeros.
pub open spec fn decimal(n: nat) -> Seq<char>
    decreases n,
{
    if n < 10 {
        seq![digit_char(n)]
    } else {
        decimal(n / 10) + seq![digit_char(n % 10)]
    }
}

/// Appends the decimal representation of `n`.
pub fn push_decimal(out: &mut String, n: usize)
    ensures
        final(out)@ == old(out)@ + decimal(n as nat),
    decreases n,
{
    if n >= 10 {
        push_decimal(out, n / 10);
    }
    let d = (n % 10) as u8;
    let c = (48u8 + d) as char;
    assert(c == digit_char((n % 10) as nat));
    push_char(out, c);
}

/// `usize::to_string`.
pub fn decimal_string(n: usize) -> (s: String)
    ensures
        s@ == decimal(n as nat),
{
    let mut s = String::new();
    push_decimal(&mut s, n);
    s
}

/// `str::trim`, as a slice of the same text.
pub fn trim_str(s: &str) -> (r: &str)
    ensures
        r@ == trim(s@),
{
    let cs = chars_of(s);
    let a = trim_start_at(&cs, 0, cs.len());
    let b = trim_end_at(&cs, a, cs.len());
    assert(cs@.subrange(0, cs@.len() as int) =~= cs@);
    s.substring_char(a, b)
}

// ---------------------------------------------------------------------------
// Lexicographic order
// ---------------------------------------------------------------------------

/// `a` sorts no later than `b`, comparing characters by code point (the
/// order `str::cmp` gives, UTF-8 preserving code point order).
pub open spec fn lex_le(a: Seq<char>, b: Seq<char>) -> bool
    decreases a.len(),
{
    if a.len() == 0 {
        true
    } else if b.len() == 0 {
        false
    } else if a[0] != b[0] {
        a[0] < b[0]
    } else {
        lex_le(a.drop_first(), b.drop_first())
    }
}

/// The lexicographic order as a relation.
pub open spec fn lex_order() -> spec_fn(Seq<char>, Seq<char>) -> bool {
    |a: Seq<char>, b: Seq<char>| lex_le(a, b)
}

pub proof fn lemma_lex_refl(a: Seq<char>)
    ensures
        lex_le(a, a),
    decreases a.len(),
{
    if a.len() > 0 {
        lemma_lex_refl(a.drop_first());
    }
}

pub proof fn lemma_lex_antisym(a: Seq<char>, b: Seq<char>)
    requires
        lex_le(a, b),
        lex_le(b, a),
    ensures
        a == b,
    decreases a.len(),
{
    if a.len() > 0 && b.len() > 0 && a[0] == b[0] {
        lemma_lex_antisym(a.drop_first(), b.drop_first());
        assert(a =~= seq![a[0]] + a.drop_first());
        assert(b =~= seq![b[0]] + b.drop_first());
    } else if a.len() > 0 && b.len() > 0 {
    }
}

pub proof fn lemma_lex_trans(a: Seq<char>, b: Seq<char>, c: Seq<char>)
    requires
        lex_le(a, b),
        lex_le(b, c),
    ensures
        lex_le(a, c),
    decreases a.len(),
{
    if a.len() > 0 && b.len() > 0 && c.len() > 0 && a[0] == b[0] && b[0] == c[0] {
        lemma_lex_trans(a.drop_first(), b.drop_first(), c.drop_first());
    }
}

pub proof fn lemma_lex_total(a: Seq<char>, b: Seq<char>)
    ensures
        lex_le(a, b) || lex_le(b, a),
    decreases a.len(),
{
    if a.len() > 0 && b.len() > 0 && a[0] == b[0] {
        lemma_lex_total(a.drop_first(), b.drop_first());
    }
}

/// The lexicographic order is a total order.
pub proof fn lemma_lex_total_ordering()
    ensures
        vstd::relations::total_ordering(lex_order()),
{
    let r = lex_order();
    assert forall|x: Seq<char>| #[trigger] r(x, x) by {
        lemma_lex_refl(x);
    }
    assert forall|x: Seq<char>, y: Seq<char>| #[trigger] r(x, y) && #[trigger] r(y, x) implies x
        == y by {
        lemma_lex_antisym(x, y);
    }
    assert forall|x: Seq<char>, y: Seq<char>, z: Seq<char>| #[trigger] r(x, y) && #[trigger] r(
        y,
        z,
    ) implies r(x, z) by {
        lemma_lex_trans(x, y, z);
    }
    assert forall|x: Seq<char>, y: Seq<char>| #[trigger] r(x, y) || #[trigger] r(y, x) by {
        lemma_lex_total(x, y);
    }
}

/// Whether `a` sorts no later than `b`.
pub fn lex_le_exec(a: &[char], b: &[char]) -> (r: bool)
    ensures
        r == lex_le(a@, b@),
{
    let mut i: usize = 0;
    assert(a@.subrange(0, a@.len() as int) =~= a@);
    assert(b@.subrange(0, b@.len() as int) =~= b@);
    while i < a.len() && i < b.len() && a[i] == b[i]
        invariant
            i <= a@.len(),
            i <= b@.len(),
            lex_le(a@.subrange(i as int, a@.len() as int), b@.subrange(i as int, b@.len() as int))
                == lex_le(a@, b@),
        decreases a.len() - i,
    {
        assert(a@.subrange(i as int, a@.len() as int).drop_first() =~= a@.subrange(
            i + 1,
            a@.len() as int,
        ));
        assert(b@.subrange(i as int, b@.len() as int).drop_first() =~= b@.subrange(
            i + 1,
            b@.len() as int,
        ));
        i = i + 1;
    }
    if i == a.len() {
        true
    } else if i == b.len() {
        false
    } else {
        a[i] < b[i]
    }
}

// ---------------------------------------------------------------------------
// Whitespace-normalized text
// ---------------------------------------------------------------------------

/// A run of non-whitespace characters.
pub open spec fn is_word(w: Seq<char>) -> bool {
    w.len() > 0 && forall|j: int| 0 <= j < w.len() ==> !is_ws(#[trigger] w[j])
}

/// Text whose only whitespace is single spaces between words: it neither
/// starts nor ends with whitespace, and every whitespace character is a
/// space followed by a non-whitespace character.
pub open spec fn is_normalized(s: Seq<char>) -> bool {
    forall|i: int|
        0 <= i < s.len() && is_ws(#[trigger] s[i]) ==> s[i] == ' ' && 0 < i && i + 1 < s.len()
            && !is_ws(s[i + 1])
}

/// Every piece `split_whitespace` yields is a word.
pub proof fn lemma_words_from_are_words(s: Seq<char>, i: int)
    requires
        0 <= i <= s.len(),
    ensures
        forall|k: int| 0 <= k < words_from(s, i).len() ==> is_word(#[trigger] words_from(s, i)[k]),
    decreases s.len() - i,
{
    let b = next_ws(s, false, i);
    lemma_next_ws(s, false, i);
    if b < s.len() {
        let e = next_ws(s, true, b);
        lemma_next_ws(s, true, b);
        lemma_words_from_are_words(s, e);
        let w = s.subrange(b, e);
        assert(is_word(w)) by {
            assert(s[b] == w[0]);
            assert forall|j: int| 0 <= j < w.len() implies !is_ws(#[trigger] w[j]) by {
                assert(w[j] == s[b + j]);
            }
        }
        let rest = words_from(s, e);
        assert forall|k: int| 0 <= k < words_from(s, i).len() implies is_word(
            #[trigger] words_from(s, i)[k],
        ) by {
            if k > 0 {
                assert(words_from(s, i)[k] == rest[k - 1]);
            }
        }
    }
}

/// Words joined by single spaces make normalized text.
pub proof fn lemma_join_words_normalized(ws: Seq<Seq<char>>)
    requires
        forall|k: int| 0 <= k < ws.len() ==> is_word(#[trigger] ws[k]),
    ensures
        is_normalized(join(ws, seq![' '])),
        ws.len() > 0 ==> join(ws, seq![' ']).len() > 0 && !is_ws(join(ws, seq![' '])[0]) && !is_ws(
            join(ws, seq![' ']).last(),
        ),
    decreases ws.len(),
{
    if ws.len() == 1 {
        assert(is_word(ws[0]));
        let w = ws[0];
        assert(join(ws, seq![' ']) == w);
        assert(!is_ws(w[0]));
        assert(!is_ws(w[w.len() - 1]));
    } else if ws.len() > 1 {
        let init = ws.drop_last();
        assert forall|k: int| 0 <= k < init.len() implies is_word(#[trigger] init[k]) by {
            assert(init[k] == ws[k]);
        }
        lemma_join_words_normalized(init);
        let a = join(init, seq![' ']);
        let w = ws.last();
        assert(is_word(ws[ws.len() - 1]));
        let r = a + seq![' '] + w;
        assert(join(ws, seq![' ']) == r);
        assert(!is_ws(w[0]));
        assert forall|i: int| 0 <= i < r.len() && is_ws(#[trigger] r[i]) implies r[i] == ' ' && 0
            < i && i + 1 < r.len() && !is_ws(r[i + 1]) by {
            if i < a.len() {
                assert(r[i] == a[i]);
                if i + 1 < a.len() {
                    assert(r[i + 1] == a[i + 1]);
                } else {
                    assert(a[i] == a.last());
                }
            } else if i == a.len() {
                assert(r[i + 1] == w[0]);
            } else {
                assert(r[i] == w[i - a.len() - 1]);
            }
        }
        assert(r[0] == a[0]);
        assert(r.last() == w[w.len() - 1]);
    }
}

/// Whitespace-splitting any text and joining the words with single spaces
/// gives normalized text.
pub proof fn lemma_words_joined_normalized(s: Seq<char>)
    ensures
        is_normalized(join(words(s), seq![' '])),
{
    lemma_words_from_are_words(s, 0);
    lemma_join_words_normalized(words(s));
}

} // verus!
