//! Strings as sequences of characters: the operations that the rest of the
//! library is stated over, each beside the function that computes it.
//!
//! Positions are character positions. Lengths in bytes are UTF-8 lengths.

use vstd::prelude::*;
use vstd::utf8::*;

verus! {

/// `String::push` appends one character to the end of the string.
pub assume_specification[ String::push ](s: &mut String, ch: char)
    ensures
        final(s)@ == old(s)@.push(ch),
;

/// The lowercase form of a text, as `str::to_lowercase` gives it.
pub uninterp spec fn lowercase(s: Seq<char>) -> Seq<char>;

/// `c` with the ASCII letters `A` to `Z` mapped to `a` to `z`.
pub open spec fn spec_ascii_lower(c: char) -> char {
    if 'A' <= c <= 'Z' {
        ((c as int) + 32) as char
    } else {
        c
    }
}

/// `str::to_lowercase`. Its result depends on the text alone and is named
/// `lowercase`; on a text of ASCII characters only, each letter `A` to `Z`
/// becomes its counterpart `a` to `z` and every other character stays.
#[verifier::external_body]
pub(crate) fn to_lowercase(s: &str) -> (r: String)
    ensures
        r@ == lowercase(s@),
        is_ascii_chars(s@) ==> r@ == spec_ascii_lowercase(s@),
{
    s.to_lowercase()
}

// ---------------------------------------------------------------------------
// Characters
// ---------------------------------------------------------------------------

/// The characters with the Unicode property White_Space.
pub open spec fn is_white_space(c: char) -> bool {
    let u = c as u32;
    ||| 0x9 <= u <= 0xd
    ||| u == 0x20
    ||| u == 0x85
    ||| u == 0xa0
    ||| u == 0x1680
    ||| 0x2000 <= u <= 0x200a
    ||| u == 0x2028
    ||| u == 0x2029
    ||| u == 0x202f
    ||| u == 0x205f
    ||| u == 0x3000
}

/// `char::is_whitespace`.
pub fn is_white_space_char(c: char) -> (r: bool)
    ensures
        r == is_white_space(c),
{
    let u: u32 = c as u32;
    (0x9 <= u && u <= 0xd) || u == 0x20 || u == 0x85 || u == 0xa0 || u == 0x1680 || (0x2000 <= u
        && u <= 0x200a) || u == 0x2028 || u == 0x2029 || u == 0x202f || u == 0x205f || u == 0x3000
}

/// `char::to_ascii_lowercase`.
pub fn ascii_lower(c: char) -> (r: char)
    ensures
        r == spec_ascii_lower(c),
{
    if 'A' <= c && c <= 'Z' {
        let u: u8 = c as u8;
        (u + 32) as char
    } else {
        c
    }
}

/// `s` with the ASCII letters `A` to `Z` mapped to `a` to `z`.
pub open spec fn spec_ascii_lowercase(s: Seq<char>) -> Seq<char> {
    s.map_values(|c: char| spec_ascii_lower(c))
}

/// An ASCII digit.
pub open spec fn is_digit(c: char) -> bool {
    '0' <= c <= '9'
}

/// An ASCII letter or digit.
pub open spec fn is_ascii_word_char(c: char) -> bool {
    is_digit(c) || 'a' <= c <= 'z' || 'A' <= c <= 'Z'
}

/// `char::is_ascii_alphanumeric`.
pub fn is_ascii_word(c: char) -> (r: bool)
    ensures
        r == is_ascii_word_char(c),
{
    ('0' <= c && c <= '9') || ('a' <= c && c <= 'z') || ('A' <= c && c <= 'Z')
}

// ---------------------------------------------------------------------------
// Reading a text
// ---------------------------------------------------------------------------

/// The characters of `s`, in order.
pub fn chars_of(s: &str) -> (v: Vec<char>)
    ensures
        v@ == s@,
{
    let mut v: Vec<char> = Vec::new();
    for c in it: s.chars()
        invariant
            it.seq() == s@,
            v@ == it.seq().take(it.index() as int),
    {
        v.push(c);
    }
    assert(v@ =~= s@);
    v
}

/// Length of `s` in UTF-8 bytes.
pub fn byte_len(s: &str) -> (n: usize)
    ensures
        n == encode_utf8(s@).len(),
{
    s.as_bytes().len()
}

/// A copy of `s`.
pub fn owned(s: &str) -> (r: String)
    ensures
        r@ == s@,
{
    s.to_string()
}

/// `s` with the ASCII letters `A` to `Z` mapped to `a` to `z`.
pub fn to_ascii_lowercase(s: &str) -> (r: String)
    ensures
        r@ == spec_ascii_lowercase(s@),
{
    let cs = chars_of(s);
    let mut r = String::new();
    let mut i: usize = 0;
    assert(r@ =~= spec_ascii_lowercase(s@.take(0)));
    while i < cs.len()
        invariant
            cs@ == s@,
            i <= cs.len(),
            r@ == spec_ascii_lowercase(s@.take(i as int)),
        decreases cs.len() - i,
    {
        r.push(ascii_lower(cs[i]));
        assert(r@ =~= spec_ascii_lowercase(s@.take(i + 1)));
        i = i + 1;
    }
    assert(s@.take(s@.len() as int) =~= s@);
    r
}

/// `p` stands in `s` at position `i`.
pub open spec fn occurs_at(s: Seq<char>, p: Seq<char>, i: int) -> bool {
    0 <= i && i + p.len() <= s.len() && s.subrange(i, i + p.len()) == p
}

/// `p` stands somewhere in `s`.
pub open spec fn spec_contains(s: Seq<char>, p: Seq<char>) -> bool {
    exists|i: int| occurs_at(s, p, i)
}

/// `p` stands at the start of `s`.
pub open spec fn spec_starts_with(s: Seq<char>, p: Seq<char>) -> bool {
    occurs_at(s, p, 0)
}

/// `p` stands at the end of `s`.
pub open spec fn spec_ends_with(s: Seq<char>, p: Seq<char>) -> bool {
    occurs_at(s, p, s.len() - p.len())
}

/// The first position at or after `i` where `p` stands in `s`.
pub open spec fn spec_find_from(s: Seq<char>, p: Seq<char>, i: int) -> Option<int>
    decreases s.len() + 1 - i,
{
    if i + p.len() > s.len() {
        None
    } else if occurs_at(s, p, i) {
        Some(i)
    } else {
        spec_find_from(s, p, i + 1)
    }
}

/// The first position where `p` stands in `s`.
pub open spec fn spec_find(s: Seq<char>, p: Seq<char>) -> Option<int> {
    spec_find_from(s, p, 0)
}

/// The last position at or before `i` where `p` stands in `s`.
pub open spec fn spec_rfind_from(s: Seq<char>, p: Seq<char>, i: int) -> Option<int>
    decreases i + 1,
{
    if i < 0 {
        None
    } else if occurs_at(s, p, i) {
        Some(i)
    } else {
        spec_rfind_from(s, p, i - 1)
    }
}

/// The last position where `p` stands in `s`.
pub open spec fn spec_rfind(s: Seq<char>, p: Seq<char>) -> Option<int> {
    spec_rfind_from(s, p, s.len() - p.len())
}

/// A position as a mathematical integer.
pub open spec fn spec_pos(p: Option<usize>) -> Option<int> {
    match p {
        Some(i) => Some(i as int),
        None => None,
    }
}

/// `spec_find_from` is the first position from `i` on where the pattern stands.
pub proof fn lemma_find_from(s: Seq<char>, p: Seq<char>, i: int)
    requires
        0 <= i,
    ensures
        match spec_find_from(s, p, i) {
            Some(k) => i <= k && occurs_at(s, p, k) && forall|j: int|
                i <= j < k ==> !#[trigger] occurs_at(s, p, j),
            None => forall|j: int| i <= j ==> !#[trigger] occurs_at(s, p, j),
        },
    decreases s.len() + 1 - i,
{
    if i + p.len() > s.len() {
    } else if occurs_at(s, p, i) {
    } else {
        lemma_find_from(s, p, i + 1);
    }
}

/// `spec_find` is the first position where the pattern stands.
pub proof fn lemma_find(s: Seq<char>, p: Seq<char>)
    ensures
        match spec_find(s, p) {
            Some(k) => occurs_at(s, p, k) && forall|j: int|
                j < k ==> !#[trigger] occurs_at(s, p, j),
            None => forall|j: int| !#[trigger] occurs_at(s, p, j),
        },
        spec_find(s, p) is Some <==> spec_contains(s, p),
{
    lemma_find_from(s, p, 0);
}

/// The first position where the pattern stands is what `spec_find` gives.
pub proof fn lemma_find_is(s: Seq<char>, p: Seq<char>, k: int)
    requires
        occurs_at(s, p, k),
        forall|j: int| 0 <= j < k ==> !#[trigger] occurs_at(s, p, j),
    ensures
        spec_find(s, p) == Some(k),
{
    lemma_find(s, p);
    let f = spec_find(s, p)->Some_0;
    assert(occurs_at(s, p, f));
    if f < k {
        assert(!occurs_at(s, p, f));
    }
    if k < f {
        assert(!occurs_at(s, p, k));
    }
}

/// `spec_rfind_from` is the last position up to `i` where the pattern stands.
pub proof fn lemma_rfind_from(s: Seq<char>, p: Seq<char>, i: int)
    ensures
        match spec_rfind_from(s, p, i) {
            Some(k) => k <= i && occurs_at(s, p, k) && forall|j: int|
                k < j <= i ==> !#[trigger] occurs_at(s, p, j),
            None => forall|j: int| j <= i ==> !#[trigger] occurs_at(s, p, j),
        },
    decreases i + 1,
{
    if i < 0 {
    } else if occurs_at(s, p, i) {
    } else {
        lemma_rfind_from(s, p, i - 1);
    }
}

/// A part stands in the text that it is a part of.
pub proof fn lemma_contains_part(before: Seq<char>, part: Seq<char>, after: Seq<char>)
    ensures
        occurs_at(before + part + after, part, before.len() as int),
        spec_contains(before + part + after, part),
{
    let s = before + part + after;
    assert(s.subrange(before.len() as int, (before.len() + part.len()) as int) =~= part);
    assert(occurs_at(s, part, before.len() as int));
}

/// What stands in a text still stands in it when more follows.
pub proof fn lemma_contains_extended(s: Seq<char>, p: Seq<char>, after: Seq<char>)
    requires
        spec_contains(s, p),
    ensures
        spec_contains(s + after, p),
{
    let i = choose|i: int| occurs_at(s, p, i);
    assert((s + after).subrange(i, i + p.len()) =~= s.subrange(i, i + p.len()));
    assert(occurs_at(s + after, p, i));
}

/// Where a pattern stands in a text, from two character vectors.
pub fn matches_at(s: &Vec<char>, p: &Vec<char>, i: usize) -> (r: bool)
    ensures
        r == occurs_at(s@, p@, i as int),
{
    if i > s.len() || p.len() > s.len() - i {
        return false;
    }
    let mut k: usize = 0;
    while k < p.len()
        invariant
            i + p.len() <= s.len(),
            k <= p.len(),
            forall|j: int| 0 <= j < k ==> s@[i + j] == p@[j],
        decreases p.len() - k,
    {
        if s[i + k] != p[k] {
            assert(s@.subrange(i as int, i + p@.len())[k as int] != p@[k as int]);
            return false;
        }
        k = k + 1;
    }
    assert(s@.subrange(i as int, i + p@.len()) =~= p@);
    true
}

/// `str::starts_with` of a text.
pub fn starts_with(s: &str, p: &str) -> (r: bool)
    ensures
        r == spec_starts_with(s@, p@),
{
    let sc = chars_of(s);
    let pc = chars_of(p);
    matches_at(&sc, &pc, 0)
}

/// `str::ends_with` of a text.
pub fn ends_with(s: &str, p: &str) -> (r: bool)
    ensures
        r == spec_ends_with(s@, p@),
{
    let sc = chars_of(s);
    let pc = chars_of(p);
    if pc.len() > sc.len() {
        return false;
    }
    matches_at(&sc, &pc, sc.len() - pc.len())
}

/// Whether two texts are the same.
pub fn str_eq(a: &str, b: &str) -> (r: bool)
    ensures
        r == (a@ == b@),
{
    let ac = chars_of(a);
    let bc = chars_of(b);
    if ac.len() != bc.len() {
        return false;
    }
    let r = matches_at(&ac, &bc, 0);
    assert(a@.subrange(0, 0 + b@.len() as int) =~= a@);
    r
}

/// The position of the first occurrence of `p` in `s`.
pub fn find(s: &str, p: &str) -> (r: Option<usize>)
    ensures
        spec_pos(r) == spec_find(s@, p@),
        r matches Some(i) ==> i + p@.len() <= s@.len(),
{
    let sc = chars_of(s);
    let pc = chars_of(p);
    let mut i: usize = 0;
    while i <= sc.len() && pc.len() <= sc.len() - i
        invariant
            sc@ == s@,
            pc@ == p@,
            spec_find(s@, p@) == spec_find_from(s@, p@, i as int),
        decreases sc.len() + 1 - i,
    {
        if matches_at(&sc, &pc, i) {
            return Some(i);
        }
        if i == sc.len() {
            assert(spec_find_from(s@, p@, i + 1) is None);
            return None;
        }
        i = i + 1;
    }
    None
}

/// The position of the last occurrence of `p` in `s`.
pub fn rfind(s: &str, p: &str) -> (r: Option<usize>)
    ensures
        spec_pos(r) == spec_rfind(s@, p@),
        r matches Some(i) ==> i + p@.len() <= s@.len(),
{
    let sc = chars_of(s);
    let pc = chars_of(p);
    if pc.len() > sc.len() {
        return None;
    }
    let mut i: usize = sc.len() - pc.len();
    loop
        invariant
            sc@ == s@,
            pc@ == p@,
            i <= sc.len(),
            spec_rfind(s@, p@) == spec_rfind_from(s@, p@, i as int),
        decreases i,
    {
        if matches_at(&sc, &pc, i) {
            return Some(i);
        }
        if i == 0 {
            assert(spec_rfind_from(s@, p@, -1) is None);
            return None;
        }
        i = i - 1;
    }
}

/// `str::contains` of a text.
pub fn contains(s: &str, p: &str) -> (r: bool)
    ensures
        r == spec_contains(s@, p@),
{
    proof {
        lemma_find(s@, p@);
    }
    find(s, p).is_some()
}

/// What follows position `i`.
pub fn skip(s: &str, i: usize) -> (r: &str)
    requires
        i <= s@.len(),
    ensures
        r@ == s@.skip(i as int),
{
    let n: usize = s.unicode_len();
    let r = s.substring_char(i, n);
    assert(r@ =~= s@.skip(i as int));
    r
}

/// What stands before position `i`.
pub fn take(s: &str, i: usize) -> (r: &str)
    requires
        i <= s@.len(),
    ensures
        r@ == s@.take(i as int),
{
    let r = s.substring_char(0, i);
    assert(r@ =~= s@.take(i as int));
    r
}

/// `s` without the prefix `p`, where it has that prefix.
pub open spec fn spec_strip_prefix(s: Seq<char>, p: Seq<char>) -> Option<Seq<char>> {
    if spec_starts_with(s, p) {
        Some(s.skip(p.len() as int))
    } else {
        None
    }
}

/// `str::strip_prefix` of a text.
pub fn strip_prefix<'a>(s: &'a str, p: &str) -> (r: Option<&'a str>)
    ensures
        r.deep_view() == spec_strip_prefix(s@, p@),
{
    if starts_with(s, p) {
        Some(skip(s, p.unicode_len()))
    } else {
        None
    }
}

// ---------------------------------------------------------------------------
// Trimming
// ---------------------------------------------------------------------------

/// `s` without leading whitespace.
pub open spec fn spec_trim_start(s: Seq<char>) -> Seq<char>
    decreases s.len(),
{
    if s.len() > 0 && is_white_space(s[0]) {
        spec_trim_start(s.skip(1))
    } else {
        s
    }
}

/// `s` without trailing whitespace.
pub open spec fn spec_trim_end(s: Seq<char>) -> Seq<char>
    decreases s.len(),
{
    if s.len() > 0 && is_white_space(s.last()) {
        spec_trim_end(s.drop_last())
    } else {
        s
    }
}

/// `s` without leading and trailing whitespace.
pub open spec fn spec_trim(s: Seq<char>) -> Seq<char> {
    spec_trim_end(spec_trim_start(s))
}

/// Nothing but whitespace.
pub open spec fn is_blank(s: Seq<char>) -> bool {
    spec_trim(s).len() == 0
}

/// `s` without the leading occurrences of `c`.
pub open spec fn spec_trim_start_char(s: Seq<char>, c: char) -> Seq<char>
    decreases s.len(),
{
    if s.len() > 0 && s[0] == c {
        spec_trim_start_char(s.skip(1), c)
    } else {
        s
    }
}

/// `s` without the trailing occurrences of `c`.
pub open spec fn spec_trim_end_char(s: Seq<char>, c: char) -> Seq<char>
    decreases s.len(),
{
    if s.len() > 0 && s.last() == c {
        spec_trim_end_char(s.drop_last(), c)
    } else {
        s
    }
}

proof fn lemma_trim_start(s: Seq<char>)
    ensures
        spec_trim_start(s).len() > 0 ==> !is_white_space(spec_trim_start(s)[0]),
    decreases s.len(),
{
    if s.len() > 0 && is_white_space(s[0]) {
        lemma_trim_start(s.skip(1));
    }
}

proof fn lemma_trim_end(s: Seq<char>)
    ensures
        spec_trim_end(s).len() > 0 ==> !is_white_space(spec_trim_end(s).last()) && spec_trim_end(
            s,
        )[0] == s[0],
        s.len() > 0 && !is_white_space(s[0]) ==> spec_trim_end(s).len() > 0,
    decreases s.len(),
{
    if s.len() > 0 && is_white_space(s.last()) {
        lemma_trim_end(s.drop_last());
    }
}

/// A trimmed text neither starts nor ends in whitespace, and trimming it again
/// changes nothing.
pub proof fn lemma_trimmed(s: Seq<char>)
    ensures
        spec_trim(s).len() > 0 ==> !is_white_space(spec_trim(s)[0]) && !is_white_space(
            spec_trim(s).last(),
        ),
        spec_trim(spec_trim(s)) == spec_trim(s),
{
    lemma_trim_start(s);
    lemma_trim_end(spec_trim_start(s));
}

/// A text that starts in no whitespace is not blank.
pub proof fn lemma_trim_keeps_first(s: Seq<char>)
    requires
        s.len() > 0,
        !is_white_space(s[0]),
    ensures
        spec_trim(s).len() > 0,
        spec_trim(s)[0] == s[0],
{
    lemma_trim_end(s);
}

/// A text that starts in no whitespace shields what precedes it from trimming
/// at the start.
pub proof fn lemma_trim_start_before(before: Seq<char>, s: Seq<char>)
    requires
        s.len() > 0,
        !is_white_space(s[0]),
    ensures
        spec_trim_start(before + s) == spec_trim_start(before) + s,
    decreases before.len(),
{
    if before.len() == 0 {
        assert(before + s =~= s);
        assert(spec_trim_start(before) + s =~= s);
    } else if is_white_space(before[0]) {
        assert((before + s).skip(1) =~= before.skip(1) + s);
        lemma_trim_start_before(before.skip(1), s);
    }
}

/// A text that ends in no whitespace is kept when what follows it is trimmed
/// at the end.
pub proof fn lemma_trim_end_behind(s: Seq<char>, after: Seq<char>)
    requires
        s.len() > 0,
        !is_white_space(s.last()),
    ensures
        spec_trim_end(s + after) == s + spec_trim_end(after),
    decreases after.len(),
{
    if after.len() == 0 {
        assert(s + after =~= s);
        assert(s + spec_trim_end(after) =~= s);
    } else if is_white_space(after.last()) {
        assert((s + after).drop_last() =~= s + after.drop_last());
        lemma_trim_end_behind(s, after.drop_last());
    }
}

/// Trimming at the start leaves the end of a text.
pub proof fn lemma_trim_start_is_suffix(s: Seq<char>)
    ensures
        spec_trim_start(s).len() <= s.len(),
        spec_trim_start(s) == s.skip(s.len() - spec_trim_start(s).len()),
    decreases s.len(),
{
    if s.len() > 0 && is_white_space(s[0]) {
        lemma_trim_start_is_suffix(s.skip(1));
        let n = spec_trim_start(s).len();
        assert(s.skip(1).skip(s.len() - 1 - n) =~= s.skip(s.len() - n));
    } else {
        assert(s.skip(0) =~= s);
    }
}

/// `str::trim_start`.
pub fn trim_start(s: &str) -> (r: &str)
    ensures
        r@ == spec_trim_start(s@),
{
    let cs = chars_of(s);
    let mut i: usize = 0;
    assert(s@.skip(0) =~= s@);
    while i < cs.len() && is_white_space_char(cs[i])
        invariant
            cs@ == s@,
            i <= cs.len(),
            spec_trim_start(s@) == spec_trim_start(s@.skip(i as int)),
        decreases cs.len() - i,
    {
        assert(s@.skip(i as int).skip(1) =~= s@.skip(i + 1));
        i = i + 1;
    }
    skip(s, i)
}

/// `str::trim_end`.
pub fn trim_end(s: &str) -> (r: &str)
    ensures
        r@ == spec_trim_end(s@),
{
    let cs = chars_of(s);
    let mut i: usize = cs.len();
    assert(s@.take(s@.len() as int) =~= s@);
    while i > 0 && is_white_space_char(cs[i - 1])
        invariant
            cs@ == s@,
            i <= cs.len(),
            spec_trim_end(s@) == spec_trim_end(s@.take(i as int)),
        decreases i,
    {
        assert(s@.take(i as int).drop_last() =~= s@.take(i - 1));
        i = i - 1;
    }
    take(s, i)
}

/// `str::trim`.
pub fn trim(s: &str) -> (r: &str)
    ensures
        r@ == spec_trim(s@),
{
    trim_end(trim_start(s))
}

/// Whether there is nothing but whitespace.
pub fn blank(s: &str) -> (r: bool)
    ensures
        r == is_blank(s@),
{
    trim(s).unicode_len() == 0
}

/// `s` without the leading occurrences of `c`.
pub fn trim_start_char(s: &str, c: char) -> (r: &str)
    ensures
        r@ == spec_trim_start_char(s@, c),
{
    let cs = chars_of(s);
    let mut i: usize = 0;
    assert(s@.skip(0) =~= s@);
    while i < cs.len() && cs[i] == c
        invariant
            cs@ == s@,
            i <= cs.len(),
            spec_trim_start_char(s@, c) == spec_trim_start_char(s@.skip(i as int), c),
        decreases cs.len() - i,
    {
        assert(s@.skip(i as int).skip(1) =~= s@.skip(i + 1));
        i = i + 1;
    }
    skip(s, i)
}

/// `s` without the trailing occurrences of `c`.
pub fn trim_end_char(s: &str, c: char) -> (r: &str)
    ensures
        r@ == spec_trim_end_char(s@, c),
{
    let cs = chars_of(s);
    let mut i: usize = cs.len();
    assert(s@.take(s@.len() as int) =~= s@);
    while i > 0 && cs[i - 1] == c
        invariant
            cs@ == s@,
            i <= cs.len(),
            spec_trim_end_char(s@, c) == spec_trim_end_char(s@.take(i as int), c),
        decreases i,
    {
        assert(s@.take(i as int).drop_last() =~= s@.take(i - 1));
        i = i - 1;
    }
    take(s, i)
}

/// `s` as a borrowed text.
pub fn borrowed(s: &Option<String>) -> (r: Option<&str>)
    ensures
        r.deep_view() == s.deep_view(),
{
    match s {
        Some(t) => Some(t.as_str()),
        None => None,
    }
}

/// A copy of `s`.
pub fn copied(s: &Option<String>) -> (r: Option<String>)
    ensures
        r.deep_view() == s.deep_view(),
{
    match s {
        Some(t) => Some(t.clone()),
        None => None,
    }
}

/// The text of `s`, unless it is absent or blank.
pub open spec fn spec_present(s: Option<Seq<char>>) -> Option<Seq<char>> {
    match s {
        Some(t) => if is_blank(t) {
            None
        } else {
            Some(t)
        },
        None => None,
    }
}

/// The text of `s`, unless it is absent or blank.
pub fn present<'a>(s: Option<&'a str>) -> (r: Option<&'a str>)
    ensures
        r.deep_view() == spec_present(s.deep_view()),
{
    match s {
        Some(t) => if blank(t) {
            None
        } else {
            Some(t)
        },
        None => None,
    }
}

// ---------------------------------------------------------------------------
// Laws
// ---------------------------------------------------------------------------

/// Nothing but whitespace.
pub open spec fn spec_all_white(s: Seq<char>) -> bool {
    forall|i: int| 0 <= i < s.len() ==> is_white_space(#[trigger] s[i])
}

proof fn lemma_all_white_is_trimmed(s: Seq<char>)
    requires
        spec_all_white(s),
    ensures
        spec_trim_start(s) == Seq::<char>::empty(),
        spec_trim_end(s) == Seq::<char>::empty(),
    decreases s.len(),
{
    if s.len() > 0 {
        assert(spec_all_white(s.skip(1)));
        assert(spec_all_white(s.drop_last())) by {
            assert forall|i: int| 0 <= i < s.drop_last().len() implies is_white_space(
                #[trigger] s.drop_last()[i],
            ) by {
                assert(s.drop_last()[i] == s[i]);
            }
        }
        lemma_all_white_is_trimmed(s.skip(1));
        lemma_all_white_is_trimmed(s.drop_last());
    }
}

/// Trimming takes away the whitespace around a text and nothing of the text itself.
pub proof fn law_trimming_drops_the_whitespace_around(
    before: Seq<char>,
    core: Seq<char>,
    after: Seq<char>,
)
    requires
        spec_all_white(before),
        spec_all_white(after),
        core.len() > 0 ==> !is_white_space(core[0]) && !is_white_space(core.last()),
    ensures
        spec_trim(before + core + after) == core,
{
    lemma_all_white_is_trimmed(before);
    lemma_all_white_is_trimmed(after);
    if core.len() == 0 {
        assert(spec_all_white(before + core + after));
        lemma_all_white_is_trimmed(before + core + after);
    } else {
        let s = core + after;
        assert(before + core + after =~= before + s);
        assert(s[0] == core[0]);
        lemma_trim_start_before(before, s);
        assert(spec_trim_start(before) + s =~= s);
        lemma_trim_end_behind(core, after);
        assert(core + spec_trim_end(after) =~= core);
    }
}

/// A blank text is whitespace all through.
pub proof fn lemma_blank_is_white(s: Seq<char>)
    requires
        is_blank(s),
    ensures
        spec_all_white(s),
{
    if !spec_all_white(s) {
        let i = choose|i: int| 0 <= i < s.len() && !is_white_space(s[i]);
        lemma_trim_keeps_inner(s, i);
    }
}

/// Trimming leaves something of a text with a character that is no whitespace.
proof fn lemma_trim_keeps_inner(s: Seq<char>, i: int)
    requires
        0 <= i < s.len(),
        !is_white_space(s[i]),
    ensures
        spec_trim(s).len() > 0,
{
    let before = s.take(i);
    let rest = s.skip(i);
    assert(before + rest =~= s);
    lemma_trim_start_before(before, rest);
    let t = spec_trim_start(before) + rest;
    let head = spec_trim_start(before).push(s[i]);
    assert(t =~= head + rest.skip(1));
    lemma_trim_end_behind(head, rest.skip(1));
}

/// Only the ASCII capitals change in lowercase, each to its own small letter.
pub proof fn law_ascii_lowercase_changes_only_capitals(s: Seq<char>, i: int)
    requires
        0 <= i < s.len(),
    ensures
        spec_ascii_lowercase(s).len() == s.len(),
        0x41 <= s[i] as int <= 0x5a ==> spec_ascii_lowercase(s)[i] as int == s[i] as int + 0x20,
        !(0x41 <= s[i] as int <= 0x5a) ==> spec_ascii_lowercase(s)[i] == s[i],
{
}

/// Stripping a prefix gives back what stands behind it.
pub proof fn law_prefix_comes_off(prefix: Seq<char>, rest: Seq<char>)
    ensures
        spec_starts_with(prefix + rest, prefix),
        spec_ends_with(rest + prefix, prefix),
        spec_strip_prefix(prefix + rest, prefix) == Some(rest),
{
    assert((prefix + rest).subrange(0, prefix.len() as int) =~= prefix);
    assert((prefix + rest).skip(prefix.len() as int) =~= rest);
    assert((rest + prefix).subrange(rest.len() as int, (rest + prefix).len() as int) =~= prefix);
}

/// Trimming a character takes its run at that end off, and no other character.
pub proof fn law_trimmed_char_is_only_at_the_end(s: Seq<char>, c: char, n: nat)
    ensures
        (s.len() > 0 ==> s[0] != c) ==> spec_trim_start_char(Seq::new(n, |i: int| c) + s, c) == s,
        (s.len() > 0 ==> s.last() != c) ==> spec_trim_end_char(s + Seq::new(n, |i: int| c), c) == s,
    decreases n,
{
    let run = Seq::new(n, |i: int| c);
    if n == 0 {
        assert(run + s =~= s);
        assert(s + run =~= s);
    } else {
        let less = Seq::new((n - 1) as nat, |i: int| c);
        law_trimmed_char_is_only_at_the_end(s, c, (n - 1) as nat);
        assert((run + s)[0] == c);
        assert((run + s).skip(1) =~= less + s);
        assert((s + run).last() == c);
        assert((s + run).drop_last() =~= s + less);
    }
}

/// The last place of a pattern, where it stands there and nowhere behind.
pub proof fn lemma_rfind_is(s: Seq<char>, p: Seq<char>, k: int)
    requires
        occurs_at(s, p, k),
        forall|j: int| k < j ==> !#[trigger] occurs_at(s, p, j),
    ensures
        spec_rfind(s, p) == Some(k),
{
    lemma_rfind_from(s, p, s.len() - p.len());
}

/// Trimming the start again changes nothing.
pub proof fn lemma_trim_start_twice(s: Seq<char>)
    ensures
        spec_trim_start(spec_trim_start(s)) == spec_trim_start(s),
    decreases s.len(),
{
    if s.len() > 0 && is_white_space(s[0]) {
        lemma_trim_start_twice(s.skip(1));
    }
}

/// Whitespace is what Unicode calls so: the controls from tab to carriage return,
/// the space, and nineteen others; no letter, digit or punctuation mark is.
pub proof fn law_white_space_is_that_of_unicode(c: char)
    ensures
        ({
            let u = c as int;
            is_white_space(c) <==> {
                ||| u == 0x09 || u == 0x0a || u == 0x0b || u == 0x0c || u == 0x0d || u == 0x20
                ||| u == 0x85 || u == 0xa0 || u == 0x1680
                ||| 0x2000 <= u < 0x200b
                ||| u == 0x2028 || u == 0x2029 || u == 0x202f || u == 0x205f || u == 0x3000
            }
        }),
{
}

/// A text is present exactly where it is there and not blank, and then as it is.
pub proof fn law_present_text_is_not_blank(s: Seq<char>)
    ensures
        spec_present(None) is None,
        spec_all_white(s) ==> spec_present(Some(s)) is None,
        !spec_all_white(s) ==> spec_present(Some(s)) == Some(s),
        is_blank(s) <==> spec_all_white(s),
{
    if spec_all_white(s) {
        let none = Seq::<char>::empty();
        assert(s + none + none =~= s);
        law_trimming_drops_the_whitespace_around(s, none, none);
    }
    if is_blank(s) {
        lemma_blank_is_white(s);
    }
}

} // verus!
