//! Reading JSON text one level at a time.
//!
//! An object or array is read into the texts of its values, which are read in
//! turn where they are needed. The grammar itself is that of `serde_json`; what
//! is done here is to take an object apart at the commas between its members,
//! so that a member that stands there twice is seen.

use vstd::prelude::*;
use crate::text;

verus! {

/// The members of a JSON object: each key with the JSON text of its value.
/// `None` where the text is not one JSON object.
pub uninterp spec fn json_object(json: Seq<char>) -> Option<Seq<(Seq<char>, Seq<char>)>>;

/// The JSON texts of the elements of a JSON array. `None` where the text is
/// not one JSON array.
pub uninterp spec fn json_array(json: Seq<char>) -> Option<Seq<Seq<char>>>;

/// The characters of a JSON string. `None` where the text is not one JSON string.
pub uninterp spec fn json_string(json: Seq<char>) -> Option<Seq<char>>;

/// The value of a JSON number that is an integer between 0 and the maximum of
/// `u64`. `None` for any other text.
pub uninterp spec fn json_natural(json: Seq<char>) -> Option<u64>;

/// The text is one JSON value.
pub uninterp spec fn json_valid(json: Seq<char>) -> bool;

/// `serde_json::from_str` into a map from keys to raw values. The result
/// depends on the text alone and is named `json_object`. The members come in
/// the order of their keys; where a key is repeated, its last value is kept.
#[verifier::external_body]
pub(crate) fn read_object(json: &str) -> (r: Option<Vec<(String, String)>>)
    ensures
        r.deep_view() == json_object(json@),
{
    let members: std::collections::BTreeMap<String, Box<serde_json::value::RawValue>> =
        serde_json::from_str(json).ok()?;
    Some(members.into_iter().map(|(key, value)| (key, value.get().to_string())).collect())
}

/// `serde_json::from_str` into a vector of raw values. The result depends on
/// the text alone and is named `json_array`.
#[verifier::external_body]
pub(crate) fn read_array(json: &str) -> (r: Option<Vec<String>>)
    ensures
        r.deep_view() == json_array(json@),
{
    let elements: Vec<Box<serde_json::value::RawValue>> = serde_json::from_str(json).ok()?;
    Some(elements.into_iter().map(|value| value.get().to_string()).collect())
}

/// `serde_json::from_str` into a string. The result depends on the text alone
/// and is named `json_string`.
#[verifier::external_body]
pub(crate) fn read_string(json: &str) -> (r: Option<String>)
    ensures
        r.deep_view() == json_string(json@),
{
    serde_json::from_str::<String>(json).ok()
}

/// `serde_json::from_str` into a `u64`. The result depends on the text alone
/// and is named `json_natural`.
#[verifier::external_body]
pub(crate) fn read_natural(json: &str) -> (r: Option<u64>)
    ensures
        r == json_natural(json@),
{
    serde_json::from_str::<u64>(json).ok()
}

/// `serde_json::from_str` into a `serde_json::Value`: whether it succeeds
/// depends on the text alone and is named `json_valid`.
#[verifier::external_body]
pub(crate) fn is_json(json: &str) -> (r: bool)
    ensures
        r == json_valid(json@),
{
    serde_json::from_str::<serde_json::Value>(json).is_ok()
}

/// A digit of a hexadecimal number.
pub open spec fn spec_hex_digit(n: int) -> char {
    if n < 10 {
        ('0' as int + n) as char
    } else {
        ('a' as int + n - 10) as char
    }
}

/// A character inside a JSON string: quotes, backslashes and control characters
/// are escaped.
pub open spec fn spec_quoted_char(c: char) -> Seq<char> {
    if c == '"' || c == '\\' {
        seq!['\\', c]
    } else if c == '\u{8}' {
        seq!['\\', 'b']
    } else if c == '\t' {
        seq!['\\', 't']
    } else if c == '\n' {
        seq!['\\', 'n']
    } else if c == '\u{c}' {
        seq!['\\', 'f']
    } else if c == '\r' {
        seq!['\\', 'r']
    } else if c as int <= 0x1f {
        seq![
            '\\',
            'u',
            '0',
            '0',
            spec_hex_digit(c as int / 16),
            spec_hex_digit(c as int % 16),
        ]
    } else {
        seq![c]
    }
}

/// A text inside a JSON string.
pub open spec fn spec_quoted_text(s: Seq<char>) -> Seq<char>
    decreases s.len(),
{
    if s.len() == 0 {
        seq![]
    } else {
        spec_quoted_text(s.drop_last()) + spec_quoted_char(s.last())
    }
}

/// A text as a JSON string.
pub open spec fn spec_quoted(s: Seq<char>) -> Seq<char> {
    seq!['"'] + spec_quoted_text(s) + seq!['"']
}

/// `serde_json::Value::to_string` on a string value: the text between quotes,
/// with quotes, backslashes and control characters escaped. It reads back as
/// that text.
#[verifier::external_body]
pub(crate) fn quote(s: &str) -> (r: String)
    ensures
        r@ == spec_quoted(s@),
        json_string(r@) == Some(s@),
{
    serde_json::Value::String(s.to_string()).to_string()
}

/// The value under `key` among the members of an object.
pub open spec fn spec_member(members: Seq<(Seq<char>, Seq<char>)>, key: Seq<char>) -> Option<
    Seq<char>,
>
    decreases members.len(),
{
    if members.len() == 0 {
        None
    } else if members[0].0 == key {
        Some(members[0].1)
    } else {
        spec_member(members.skip(1), key)
    }
}

/// The value under `key` among the members of an object.
pub fn member<'a>(members: &'a Vec<(String, String)>, key: &str) -> (r: Option<&'a str>)
    ensures
        r.deep_view() == spec_member(members.deep_view(), key@),
{
    let mut i: usize = 0;
    let ghost all = members.deep_view();
    assert(all.skip(0) =~= all);
    while i < members.len()
        invariant
            i <= members.len(),
            all == members.deep_view(),
            spec_member(all, key@) == spec_member(all.skip(i as int), key@),
        decreases members.len() - i,
    {
        assert(all.skip(i as int)[0] == (members@[i as int].0@, members@[i as int].1@));
        if text::str_eq(members[i].0.as_str(), key) {
            return Some(members[i].1.as_str());
        }
        assert(all.skip(i as int).skip(1) =~= all.skip(i + 1));
        i = i + 1;
    }
    None
}

/// The value under `key` of the JSON object `json`, where there is one.
pub open spec fn spec_field(json: Option<Seq<char>>, key: Seq<char>) -> Option<Seq<char>> {
    match json {
        Some(text) => match json_object(text) {
            Some(members) => spec_member(members, key),
            None => None,
        },
        None => None,
    }
}

/// The value under `key` of the JSON object `json`, where there is one.
pub fn field(json: Option<&str>, key: &str) -> (r: Option<String>)
    ensures
        r.deep_view() == spec_field(json.deep_view(), key@),
{
    match json {
        Some(text) => match read_object(text) {
            Some(members) => match member(&members, key) {
                Some(value) => Some(text::owned(value)),
                None => None,
            },
            None => None,
        },
        None => None,
    }
}

/// The first element of the JSON array `json`, where there is one.
pub open spec fn spec_first(json: Option<Seq<char>>) -> Option<Seq<char>> {
    match json {
        Some(text) => match json_array(text) {
            Some(elements) => if elements.len() > 0 {
                Some(elements[0])
            } else {
                None
            },
            None => None,
        },
        None => None,
    }
}

/// The first element of the JSON array `json`, where there is one.
pub fn first(json: Option<&str>) -> (r: Option<String>)
    ensures
        r.deep_view() == spec_first(json.deep_view()),
{
    match json {
        Some(text) => match read_array(text) {
            Some(elements) => if elements.len() > 0 {
                assert(elements.deep_view()[0] == elements@[0]@);
                Some(elements[0].clone())
            } else {
                None
            },
            None => None,
        },
        None => None,
    }
}

// ---------------------------------------------------------------------------
// Members with repeats
// ---------------------------------------------------------------------------

/// Where a scan of the inside of a JSON object stands.
struct Nesting {
    /// The number of brackets and braces that are open.
    depth: usize,
    /// Inside a string.
    in_string: bool,
    /// Behind a backslash inside a string.
    escaped: bool,
}

/// The members of an object that a scan has seen, and the one that it is in.
#[verifier::ext_equal]
pub struct MemberScan {
    pub done: Seq<Seq<char>>,
    pub current: Seq<char>,
    pub depth: nat,
    pub in_string: bool,
    pub escaped: bool,
}

/// The scan one character on. A comma outside strings and nested values ends a
/// member.
pub open spec fn spec_scan_step(scan: MemberScan, c: char) -> MemberScan {
    let next = MemberScan { current: scan.current.push(c), ..scan };
    if scan.escaped {
        MemberScan { escaped: false, ..next }
    } else if scan.in_string {
        MemberScan { escaped: c == '\\', in_string: c != '"', ..next }
    } else if c == '"' {
        MemberScan { in_string: true, ..next }
    } else if c == '{' || c == '[' {
        MemberScan { depth: scan.depth + 1, ..next }
    } else if (c == '}' || c == ']') && scan.depth > 0 {
        MemberScan { depth: (scan.depth - 1) as nat, ..next }
    } else if c == ',' && scan.depth == 0 {
        MemberScan { done: scan.done.push(scan.current), current: seq![], ..scan }
    } else {
        next
    }
}

/// The scan of the inside of a JSON object.
pub open spec fn spec_scan(inside: Seq<char>) -> MemberScan
    decreases inside.len(),
{
    if inside.len() == 0 {
        MemberScan {
            done: seq![],
            current: seq![],
            depth: 0,
            in_string: false,
            escaped: false,
        }
    } else {
        spec_scan_step(spec_scan(inside.drop_last()), inside.last())
    }
}

/// The texts of the members of a JSON object, given what stands between its braces.
pub open spec fn spec_member_texts(inside: Seq<char>) -> Seq<Seq<char>> {
    if text::is_blank(inside) {
        seq![]
    } else {
        spec_scan(inside).done.push(spec_scan(inside).current)
    }
}

/// What stands between the braces of a JSON object.
pub open spec fn spec_inside(json: Seq<char>) -> Seq<char> {
    let t = text::spec_trim(json);
    if t.len() >= 2 {
        t.subrange(1, t.len() - 1)
    } else {
        seq![]
    }
}

/// The members that each of `texts` holds, as an object of its own.
pub open spec fn spec_members_of(texts: Seq<Seq<char>>) -> Option<Seq<(Seq<char>, Seq<char>)>>
    decreases texts.len(),
{
    if texts.len() == 0 {
        Some(seq![])
    } else {
        match (
            spec_members_of(texts.drop_last()),
            json_object(seq!['{'] + texts.last() + seq!['}']),
        ) {
            (Some(before), Some(members)) => Some(before + members),
            _ => None,
        }
    }
}

/// The members of a JSON object as they stand in the text, repeated ones too.
/// `None` where the text is not one JSON object.
pub open spec fn spec_members(json: Seq<char>) -> Option<Seq<(Seq<char>, Seq<char>)>> {
    match json_object(json) {
        Some(_) => spec_members_of(spec_member_texts(spec_inside(json))),
        None => None,
    }
}

fn member_texts(inside: &str) -> (r: Vec<String>)
    ensures
        r.deep_view() == spec_member_texts(inside@),
{
    let mut done: Vec<String> = Vec::new();
    assert(done.deep_view() =~= seq![]);
    if text::blank(inside) {
        return done;
    }
    let cs = text::chars_of(inside);
    let mut current = String::new();
    let mut at = Nesting { depth: 0, in_string: false, escaped: false };
    let mut i: usize = 0;
    assert(inside@.take(0) =~= seq![]);
    assert(current@ =~= seq![]);
    while i < cs.len()
        invariant
            cs@ == inside@,
            i <= cs.len(),
            at.depth <= i,
            spec_scan(inside@.take(i as int)) == (MemberScan {
                done: done.deep_view(),
                current: current@,
                depth: at.depth as nat,
                in_string: at.in_string,
                escaped: at.escaped,
            }),
        decreases cs.len() - i,
    {
        assert(inside@.take(i + 1).drop_last() =~= inside@.take(i as int));
        let c = cs[i];
        let ghost before = done.deep_view();
        if c == ',' && at.depth == 0 && !at.in_string && !at.escaped {
            done.push(current);
            assert(done.deep_view() =~= before.push(current@));
            current = String::new();
            assert(current@ =~= seq![]);
        } else {
            current.push(c);
            if at.escaped {
                at.escaped = false;
            } else if at.in_string {
                at.escaped = c == '\\';
                at.in_string = c != '"';
            } else if c == '"' {
                at.in_string = true;
            } else if c == '{' || c == '[' {
                at.depth = at.depth + 1;
            } else if (c == '}' || c == ']') && at.depth > 0 {
                at.depth = at.depth - 1;
            }
        }
        i = i + 1;
    }
    assert(inside@.take(inside@.len() as int) =~= inside@);
    let ghost before = done.deep_view();
    done.push(current);
    assert(done.deep_view() =~= before.push(current@));
    done
}

fn inside_of(json: &str) -> (r: &str)
    ensures
        r@ == spec_inside(json@),
{
    let t = text::trim(json);
    let n: usize = t.unicode_len();
    if n >= 2 {
        let r = text::take(text::skip(t, 1), n - 2);
        assert(r@ =~= t@.subrange(1, t@.len() - 1));
        r
    } else {
        let r = text::take(t, 0);
        assert(r@ =~= seq![]);
        r
    }
}

proof fn lemma_members_of_prefix(texts: Seq<Seq<char>>, k: int)
    requires
        0 <= k <= texts.len(),
        spec_members_of(texts.take(k)) is None,
    ensures
        spec_members_of(texts) is None,
    decreases texts.len(),
{
    if k == texts.len() {
        assert(texts.take(k) =~= texts);
    } else {
        assert(texts.drop_last().take(k) =~= texts.take(k));
        lemma_members_of_prefix(texts.drop_last(), k);
    }
}

/// The members of a JSON object as they stand in the text, repeated ones too.
/// `None` where the text is not one JSON object.
pub fn members(json: &str) -> (r: Option<Vec<(String, String)>>)
    ensures
        r.deep_view() == spec_members(json@),
{
    if read_object(json).is_none() {
        return None;
    }
    let texts = member_texts(inside_of(json));
    let ghost all = texts.deep_view();
    let mut members: Vec<(String, String)> = Vec::new();
    let mut i: usize = 0;
    assert(all.take(0) =~= seq![]);
    assert(members.deep_view() =~= seq![]);
    while i < texts.len()
        invariant
            i <= texts.len(),
            all == texts.deep_view(),
            spec_members(json@) == spec_members_of(all),
            spec_members_of(all.take(i as int)) == Some(members.deep_view()),
        decreases texts.len() - i,
    {
        assert(all[i as int] == texts@[i as int]@);
        assert(all.take(i + 1).drop_last() =~= all.take(i as int));
        let mut object = String::new();
        object.push('{');
        object.append(texts[i].as_str());
        object.push('}');
        assert(object@ =~= seq!['{'] + all[i as int] + seq!['}']);
        match read_object(object.as_str()) {
            Some(read) => {
                let ghost before = members.deep_view();
                let ghost more = read.deep_view();
                let mut read = read;
                members.append(&mut read);
                assert(members.deep_view() =~= before + more);
            },
            None => {
                proof {
                    lemma_members_of_prefix(all, i + 1);
                }
                return None;
            },
        }
        i = i + 1;
    }
    assert(all.take(all.len() as int) =~= all);
    Some(members)
}

/// The number of members under `key`.
pub open spec fn spec_count(members: Seq<(Seq<char>, Seq<char>)>, key: Seq<char>) -> nat
    decreases members.len(),
{
    if members.len() == 0 {
        0
    } else {
        spec_count(members.drop_last(), key) + if members.last().0 == key {
            1nat
        } else {
            0nat
        }
    }
}

/// Whether more than one member stands under `key`.
pub fn is_repeated(members: &Vec<(String, String)>, key: &str) -> (r: bool)
    ensures
        r == (spec_count(members.deep_view(), key@) > 1),
{
    let ghost all = members.deep_view();
    let mut count: usize = 0;
    let mut i: usize = 0;
    assert(all.take(0) =~= seq![]);
    while i < members.len()
        invariant
            i <= members.len(),
            all == members.deep_view(),
            count <= i,
            count == spec_count(all.take(i as int), key@),
        decreases members.len() - i,
    {
        assert(all[i as int] == (members@[i as int].0@, members@[i as int].1@));
        assert(all.take(i + 1).drop_last() =~= all.take(i as int));
        if text::str_eq(members[i].0.as_str(), key) {
            count = count + 1;
        }
        i = i + 1;
    }
    assert(all.take(all.len() as int) =~= all);
    count > 1
}

// ---------------------------------------------------------------------------
// Laws
// ---------------------------------------------------------------------------

/// A text is quoted character by character, between quotation marks.
pub proof fn law_text_is_quoted_piece_by_piece(a: Seq<char>, b: Seq<char>)
    ensures
        spec_quoted_text(a + b) == spec_quoted_text(a) + spec_quoted_text(b),
        spec_quoted(a) == seq!['"'] + spec_quoted_text(a) + seq!['"'],
    decreases b.len(),
{
    if b.len() == 0 {
        assert(a + b =~= a);
        assert(spec_quoted_text(a) + spec_quoted_text(b) =~= spec_quoted_text(a));
    } else {
        let front = b.drop_last();
        law_text_is_quoted_piece_by_piece(a, front);
        assert((a + b).drop_last() =~= a + front);
        assert((a + b).last() == b.last());
        assert(spec_quoted_text(a + b) =~= spec_quoted_text(a) + spec_quoted_text(b));
    }
}

/// What a quoted character starting at the front of a text stands for, and how
/// many characters of the text it takes.
pub open spec fn spec_read_char(s: Seq<char>) -> (int, int) {
    if s[0] != '\\' {
        (s[0] as int, 1)
    } else if s[1] == 'b' {
        (0x08, 2)
    } else if s[1] == 't' {
        (0x09, 2)
    } else if s[1] == 'n' {
        (0x0a, 2)
    } else if s[1] == 'f' {
        (0x0c, 2)
    } else if s[1] == 'r' {
        (0x0d, 2)
    } else if s[1] == 'u' {
        (16 * spec_hex_value(s[4]) + spec_hex_value(s[5]), 6)
    } else {
        (s[1] as int, 2)
    }
}

/// The value of a lowercase hexadecimal digit.
pub open spec fn spec_hex_value(c: char) -> int {
    if 0x30 <= c as int <= 0x39 {
        c as int - 0x30
    } else {
        c as int - 0x61 + 10
    }
}

/// A quoted character reads back as itself, however it was quoted and whatever
/// follows. It holds no bare quotation mark and no control character.
pub proof fn law_quoted_character_reads_back(c: char, rest: Seq<char>)
    ensures
        spec_read_char(spec_quoted_char(c) + rest) == (c as int, spec_quoted_char(c).len() as int),
        forall|i: int|
            0 <= i < spec_quoted_char(c).len() ==> #[trigger] spec_quoted_char(c)[i] as int > 0x1f,
        spec_quoted_char(c)[0] != '"',
{
    let q = spec_quoted_char(c);
    let s = q + rest;
    let n = c as int;
    assert(s[0] == q[0]);
    if q.len() > 1 {
        assert(s[1] == q[1]);
    }
    if q.len() > 2 {
        assert(0 <= n <= 0x1f);
        assert(s[4] == q[4] && s[5] == q[5]);
        let high = n / 16;
        let low = n % 16;
        assert(0 <= high < 2 && 0 <= low < 16);
        assert(16 * high + low == n);
        assert(spec_hex_value(spec_hex_digit(high)) == high);
        assert(spec_hex_value(spec_hex_digit(low)) == low);
        assert(spec_hex_digit(high) as int > 0x1f);
        assert(spec_hex_digit(low) as int > 0x1f);
    }
}

/// A member is found by its key; where the key is there more than once, the
/// first one is taken.
pub proof fn law_first_member_of_a_key_is_found(
    members: Seq<(Seq<char>, Seq<char>)>,
    key: Seq<char>,
    k: int,
)
    requires
        0 <= k <= members.len(),
        forall|j: int| 0 <= j < k ==> (#[trigger] members[j]).0 != key,
        k < members.len() ==> members[k].0 == key,
    ensures
        k == members.len() ==> spec_member(members, key) is None && spec_count(members, key) == 0,
        k < members.len() ==> spec_member(members, key) == Some(members[k].1),
    decreases members.len(),
{
    if k > 0 {
        let rest = members.skip(1);
        assert forall|j: int| 0 <= j < k - 1 implies (#[trigger] rest[j]).0 != key by {
            assert(rest[j] == members[j + 1]);
        }
        assert(members[0].0 != key);
        law_first_member_of_a_key_is_found(rest, key, k - 1);
        if k == members.len() {
            let front = members.drop_last();
            assert forall|j: int| 0 <= j < k - 1 implies (#[trigger] front[j]).0 != key by {
                assert(front[j] == members[j]);
            }
            law_first_member_of_a_key_is_found(front, key, k - 1);
            assert(members[k - 1].0 != key);
        }
    }
}

/// Every member of a key counts.
pub proof fn law_members_of_a_key_are_counted(
    members: Seq<(Seq<char>, Seq<char>)>,
    member: (Seq<char>, Seq<char>),
    key: Seq<char>,
)
    ensures
        spec_count(seq![], key) == 0,
        spec_count(members.push(member), key) == spec_count(members, key) + if member.0 == key {
            1nat
        } else {
            0nat
        },
{
    assert(members.push(member).drop_last() =~= members);
}

/// A character that neither opens nor closes anything, and is no comma.
pub open spec fn spec_is_plain(c: char) -> bool {
    c != '"' && c != '{' && c != '}' && c != '[' && c != ']' && c != ','
}

/// A text that a scan outside of strings passes without ending a member, to be
/// in the same place behind it.
pub open spec fn spec_is_whole(s: Seq<char>) -> bool {
    forall|before: Seq<char>|
        {
            let was = spec_scan(before);
            !was.in_string && !was.escaped ==> #[trigger] spec_scan(before + s) == (MemberScan {
                current: was.current + s,
                ..was
            })
        }
}

/// A text that such a scan passes inside a nested value; there a comma ends no
/// member.
pub open spec fn spec_is_whole_inside(s: Seq<char>) -> bool {
    forall|before: Seq<char>|
        {
            let was = spec_scan(before);
            !was.in_string && !was.escaped && was.depth > 0 ==> #[trigger] spec_scan(before + s)
                == (MemberScan { current: was.current + s, ..was })
        }
}

proof fn lemma_scan_behind(before: Seq<char>, c: char)
    ensures
        spec_scan(before + seq![c]) == spec_scan_step(spec_scan(before), c),
{
    assert((before + seq![c]).drop_last() =~= before);
}

/// Plain characters are passed over; of a text and another one behind it both
/// are passed over where each is.
pub proof fn law_plain_text_is_passed_over(c: char, a: Seq<char>, b: Seq<char>)
    ensures
        spec_is_plain(c) ==> spec_is_whole(seq![c]),
        spec_is_whole(seq![]),
        spec_is_whole(a) && spec_is_whole(b) ==> spec_is_whole(a + b),
        spec_is_whole_inside(a) && spec_is_whole_inside(b) ==> spec_is_whole_inside(a + b),
        spec_is_whole(a) ==> spec_is_whole_inside(a),
        spec_is_whole_inside(seq![',']),
{
    if spec_is_plain(c) {
        assert forall|before: Seq<char>|
            {
                let was = spec_scan(before);
                !was.in_string && !was.escaped ==> #[trigger] spec_scan(before + seq![c]) == (
                MemberScan { current: was.current + seq![c], ..was })
            } by {
            lemma_scan_behind(before, c);
            assert(spec_scan(before).current + seq![c] =~= spec_scan(before).current.push(c));
        }
    }
    let none = Seq::<char>::empty();
    assert forall|before: Seq<char>|
        {
            let was = spec_scan(before);
            !was.in_string && !was.escaped ==> #[trigger] spec_scan(before + none) == (MemberScan {
                current: was.current + none,
                ..was
            })
        } by {
        assert(before + none =~= before);
        assert(spec_scan(before).current + none =~= spec_scan(before).current);
    }
    assert forall|before: Seq<char>|
        {
            let was = spec_scan(before);
            !was.in_string && !was.escaped && was.depth > 0 ==> #[trigger] spec_scan(
                before + seq![','],
            ) == (MemberScan { current: was.current + seq![','], ..was })
        } by {
        lemma_scan_behind(before, ',');
        assert(spec_scan(before).current + seq![','] =~= spec_scan(before).current.push(','));
    }
    if spec_is_whole(a) && spec_is_whole(b) {
        assert forall|before: Seq<char>|
            {
                let was = spec_scan(before);
                !was.in_string && !was.escaped ==> #[trigger] spec_scan(before + (a + b)) == (
                MemberScan { current: was.current + (a + b), ..was })
            } by {
            let was = spec_scan(before);
            if !was.in_string && !was.escaped {
                assert(spec_scan(before + a) == (MemberScan { current: was.current + a, ..was }));
                assert(before + (a + b) =~= (before + a) + b);
                assert(spec_scan((before + a) + b).current =~= was.current + (a + b));
            }
        }
    }
    if spec_is_whole_inside(a) && spec_is_whole_inside(b) {
        assert forall|before: Seq<char>|
            {
                let was = spec_scan(before);
                !was.in_string && !was.escaped && was.depth > 0 ==> #[trigger] spec_scan(
                    before + (a + b),
                ) == (MemberScan { current: was.current + (a + b), ..was })
            } by {
            let was = spec_scan(before);
            if !was.in_string && !was.escaped && was.depth > 0 {
                assert(spec_scan(before + a) == (MemberScan { current: was.current + a, ..was }));
                assert(before + (a + b) =~= (before + a) + b);
                assert(spec_scan((before + a) + b).current =~= was.current + (a + b));
            }
        }
    }
}

proof fn lemma_scan_in_string(before: Seq<char>, s: Seq<char>)
    requires
        spec_scan(before).in_string,
        !spec_scan(before).escaped,
        !s.contains('"'),
        !s.contains('\\'),
    ensures
        spec_scan(before + s) == (MemberScan {
            current: spec_scan(before).current + s,
            ..spec_scan(before)
        }),
    decreases s.len(),
{
    let was = spec_scan(before);
    if s.len() == 0 {
        assert(before + s =~= before);
        assert(was.current + s =~= was.current);
    } else {
        let front = s.drop_last();
        let c = s.last();
        assert(!front.contains('"') && !front.contains('\\')) by {
            if front.contains('"') {
                let i = choose|i: int| 0 <= i < front.len() && front[i] == '"';
                assert(s[i] == '"');
            }
            if front.contains('\\') {
                let i = choose|i: int| 0 <= i < front.len() && front[i] == '\\';
                assert(s[i] == '\\');
            }
        }
        lemma_scan_in_string(before, front);
        lemma_scan_behind(before + front, c);
        assert(before + s =~= (before + front) + seq![c]);
        assert(s.contains(c));
        assert((was.current + front).push(c) =~= was.current + s);
    }
}

/// A string is passed over, whatever commas and brackets stand in it; so is a
/// nested object or list, with the commas in it.
pub proof fn law_strings_and_nested_values_are_passed_over(s: Seq<char>)
    ensures
        !s.contains('"') && !s.contains('\\') ==> spec_is_whole(seq!['"'] + s + seq!['"']),
        spec_is_whole_inside(s) ==> spec_is_whole(seq!['{'] + s + seq!['}']),
        spec_is_whole_inside(s) ==> spec_is_whole(seq!['['] + s + seq![']']),
{
    if !s.contains('"') && !s.contains('\\') {
        let whole = seq!['"'] + s + seq!['"'];
        assert forall|before: Seq<char>|
            {
                let was = spec_scan(before);
                !was.in_string && !was.escaped ==> #[trigger] spec_scan(before + whole) == (
                MemberScan { current: was.current + whole, ..was })
            } by {
            let was = spec_scan(before);
            if !was.in_string && !was.escaped {
                let opened = before + seq!['"'];
                lemma_scan_behind(before, '"');
                lemma_scan_in_string(opened, s);
                lemma_scan_behind(opened + s, '"');
                assert(before + whole =~= (opened + s) + seq!['"']);
                assert((was.current.push('"') + s).push('"') =~= was.current + whole);
            }
        }
    }
    if spec_is_whole_inside(s) {
        lemma_nested(s, '{', '}');
        lemma_nested(s, '[', ']');
    }
}

proof fn lemma_nested(s: Seq<char>, open: char, close: char)
    requires
        spec_is_whole_inside(s),
        (open == '{' && close == '}') || (open == '[' && close == ']'),
    ensures
        spec_is_whole(seq![open] + s + seq![close]),
{
    let whole = seq![open] + s + seq![close];
    assert forall|before: Seq<char>|
        {
            let was = spec_scan(before);
            !was.in_string && !was.escaped ==> #[trigger] spec_scan(before + whole) == (MemberScan {
                current: was.current + whole,
                ..was
            })
        } by {
        let was = spec_scan(before);
        if !was.in_string && !was.escaped {
            let opened = before + seq![open];
            lemma_scan_behind(before, open);
            assert(spec_scan(opened + s) == (MemberScan {
                current: spec_scan(opened).current + s,
                ..spec_scan(opened)
            }));
            lemma_scan_behind(opened + s, close);
            assert(before + whole =~= (opened + s) + seq![close]);
            assert((was.current.push(open) + s).push(close) =~= was.current + whole);
        }
    }
}

/// An object is taken apart at the commas between its members and nowhere else.
pub proof fn law_members_end_at_their_commas(parts: Seq<Seq<char>>)
    requires
        parts.len() > 0,
        forall|k: int| 0 <= k < parts.len() ==> spec_is_whole(#[trigger] parts[k]),
        !text::is_blank(crate::segments::spec_join(parts, seq![','])),
    ensures
        spec_member_texts(crate::segments::spec_join(parts, seq![','])) == parts,
{
    lemma_scan_of_parts(parts);
    assert(parts.drop_last().push(parts.last()) =~= parts);
}

proof fn lemma_scan_of_parts(parts: Seq<Seq<char>>)
    requires
        parts.len() > 0,
        forall|k: int| 0 <= k < parts.len() ==> spec_is_whole(#[trigger] parts[k]),
    ensures
        spec_scan(crate::segments::spec_join(parts, seq![','])) == (MemberScan {
            done: parts.drop_last(),
            current: parts.last(),
            depth: 0,
            in_string: false,
            escaped: false,
        }),
    decreases parts.len(),
{
    let none = Seq::<char>::empty();
    let s = crate::segments::spec_join(parts, seq![',']);
    assert(spec_is_whole(parts[parts.len() - 1]));
    if parts.len() == 1 {
        assert(none + s =~= s);
        assert(spec_scan(none + s).current =~= s);
        assert(parts.drop_last() =~= seq![]);
    } else {
        let front = parts.drop_last();
        assert forall|k: int| 0 <= k < front.len() implies spec_is_whole(#[trigger] front[k]) by {
            assert(front[k] == parts[k]);
        }
        lemma_scan_of_parts(front);
        let before = crate::segments::spec_join(front, seq![',']);
        lemma_scan_behind(before, ',');
        let comma = before + seq![','];
        assert(s =~= comma + parts.last());
        assert(spec_scan(comma + parts.last()) == (MemberScan {
            current: spec_scan(comma).current + parts.last(),
            ..spec_scan(comma)
        }));
        assert(spec_scan(comma).current + parts.last() =~= parts.last());
        assert(front.drop_last().push(front.last()) =~= front);
    }
}

/// What stands between the outer braces is taken apart, whatever whitespace is
/// around them.
pub proof fn law_inside_is_between_the_braces(before: Seq<char>, inside: Seq<char>, after: Seq<char>)
    requires
        text::spec_all_white(before),
        text::spec_all_white(after),
    ensures
        spec_inside(before + (seq!['{'] + inside + seq!['}']) + after) == inside,
{
    let core = seq!['{'] + inside + seq!['}'];
    text::law_trimming_drops_the_whitespace_around(before, core, after);
    assert(core.subrange(1, core.len() - 1) =~= inside);
}

/// The members of an object are those of its parts, in their order; where one of
/// the parts cannot be read there are none.
pub proof fn law_members_are_read_part_by_part(texts: Seq<Seq<char>>, part: Seq<char>)
    ensures
        spec_members_of(seq![]) == Some(Seq::<(Seq<char>, Seq<char>)>::empty()),
        match (spec_members_of(texts), json_object(seq!['{'] + part + seq!['}'])) {
            (Some(before), Some(members)) => spec_members_of(texts.push(part)) == Some(
                before + members,
            ),
            _ => spec_members_of(texts.push(part)) is None,
        },
{
    assert(texts.push(part).drop_last() =~= texts);
}

/// An object is read by its parts between its braces; what is no object has no
/// members.
pub proof fn law_object_is_read_by_its_parts(parts: Seq<Seq<char>>)
    requires
        parts.len() > 0,
        forall|k: int| 0 <= k < parts.len() ==> spec_is_whole(#[trigger] parts[k]),
        !text::is_blank(crate::segments::spec_join(parts, seq![','])),
    ensures
        ({
            let json = seq!['{'] + crate::segments::spec_join(parts, seq![',']) + seq!['}'];
            &&& json_object(json) is Some ==> spec_members(json) == spec_members_of(parts)
            &&& json_object(json) is None ==> spec_members(json) is None
        }),
{
    let none = Seq::<char>::empty();
    let inside = crate::segments::spec_join(parts, seq![',']);
    let json = seq!['{'] + inside + seq!['}'];
    law_inside_is_between_the_braces(none, inside, none);
    assert(none + (seq!['{'] + inside + seq!['}']) + none =~= json);
    law_members_end_at_their_commas(parts);
}

} // verus!
