//! Splitting a text into lines, pieces and words, and putting pieces together.

use vstd::prelude::*;
use crate::text;

verus! {

// ---------------------------------------------------------------------------
// Lines
// ---------------------------------------------------------------------------

/// A line without the carriage return that belongs to its line ending.
pub open spec fn spec_without_cr(line: Seq<char>) -> Seq<char> {
    if line.len() > 0 && line.last() == '\r' {
        line.drop_last()
    } else {
        line
    }
}

/// The lines of `s`. A line ends in `\n` or `\r\n`; the last ending is optional.
pub open spec fn spec_lines(s: Seq<char>) -> Seq<Seq<char>>
    decreases s.len(),
{
    if s.len() == 0 {
        seq![]
    } else {
        match text::spec_find(s, seq!['\n']) {
            Some(i) => if 0 <= i < s.len() {
                seq![spec_without_cr(s.take(i))] + spec_lines(s.skip(i + 1))
            } else {
                seq![]
            },
            None => seq![s],
        }
    }
}

proof fn lemma_find_newline(s: Seq<char>, k: int)
    requires
        0 <= k < s.len(),
        s[k] == '\n',
        forall|j: int| 0 <= j < k ==> s[j] != '\n',
    ensures
        text::spec_find(s, seq!['\n']) == Some(k),
{
    let p = seq!['\n'];
    assert(s.subrange(k, k + 1) =~= p);
    assert forall|j: int| 0 <= j < k implies !#[trigger] text::occurs_at(s, p, j) by {
        assert(s.subrange(j, j + 1)[0] == s[j]);
    }
    text::lemma_find_is(s, p, k);
}

proof fn lemma_find_no_newline(s: Seq<char>)
    requires
        forall|j: int| 0 <= j < s.len() ==> s[j] != '\n',
    ensures
        text::spec_find(s, seq!['\n']) is None,
{
    let p = seq!['\n'];
    text::lemma_find(s, p);
    if text::spec_find(s, p) is Some {
        let k = text::spec_find(s, p)->Some_0;
        assert(s.subrange(k, k + 1)[0] == s[k]);
    }
}

/// A text without a line feed is one line, or none if it is empty.
pub proof fn lemma_single_line(s: Seq<char>)
    requires
        forall|j: int| 0 <= j < s.len() ==> s[j] != '\n',
    ensures
        s.len() > 0 ==> spec_lines(s) == seq![s],
        s.len() == 0 ==> spec_lines(s) == Seq::<Seq<char>>::empty(),
{
    lemma_find_no_newline(s);
}

/// A text behind a line feed adds its lines to the line before it.
pub proof fn lemma_lines_behind_a_line(line: Seq<char>, rest: Seq<char>)
    requires
        !line.contains('\n'),
    ensures
        spec_lines(line + seq!['\n'] + rest) == seq![spec_without_cr(line)] + spec_lines(rest),
{
    let s = line + seq!['\n'] + rest;
    let k = line.len() as int;
    assert(s[k] == '\n');
    assert forall|j: int| 0 <= j < k implies s[j] != '\n' by {
        assert(s[j] == line[j]);
        assert(line.contains(line[j]));
    }
    lemma_find_newline(s, k);
    assert(s.take(k) =~= line);
    assert(s.skip(k + 1) =~= rest);
}

/// No line holds a line feed.
pub proof fn lemma_lines_hold_no_newline(s: Seq<char>)
    ensures
        forall|i: int, j: int|
            0 <= i < spec_lines(s).len() && 0 <= j < spec_lines(s)[i].len()
                ==> #[trigger] spec_lines(s)[i][j] != '\n',
    decreases s.len(),
{
    let p = seq!['\n'];
    text::lemma_find(s, p);
    if s.len() > 0 {
        match text::spec_find(s, p) {
            Some(k) => {
                let head = spec_without_cr(s.take(k));
                let rest = spec_lines(s.skip(k + 1));
                lemma_lines_hold_no_newline(s.skip(k + 1));
                assert forall|i: int, j: int|
                    0 <= i < spec_lines(s).len() && 0 <= j
                        < spec_lines(s)[i].len() implies #[trigger] spec_lines(s)[i][j] != '\n' by {
                    if i == 0 {
                        assert(spec_lines(s)[0] == head);
                        if s[j] == '\n' {
                            assert(s.subrange(j, j + 1) =~= p);
                            assert(text::occurs_at(s, p, j));
                        }
                    } else {
                        assert(spec_lines(s)[i] == rest[i - 1]);
                    }
                }
            },
            None => {
                assert forall|i: int, j: int|
                    0 <= i < spec_lines(s).len() && 0 <= j
                        < spec_lines(s)[i].len() implies #[trigger] spec_lines(s)[i][j] != '\n' by {
                    if s[j] == '\n' {
                        assert(s.subrange(j, j + 1) =~= p);
                        assert(text::occurs_at(s, p, j));
                    }
                }
            },
        }
    }
}

/// `str::lines`.
pub fn lines<'a>(s: &'a str) -> (r: Vec<&'a str>)
    ensures
        r.deep_view() == spec_lines(s@),
{
    let cs = text::chars_of(s);
    let mut r: Vec<&'a str> = Vec::new();
    let mut start: usize = 0;
    let mut i: usize = 0;
    assert(s@.skip(0) =~= s@);
    assert(r.deep_view() + spec_lines(s@) =~= spec_lines(s@));
    while i < cs.len()
        invariant
            cs@ == s@,
            start <= i <= cs.len(),
            forall|j: int| start <= j < i ==> s@[j] != '\n',
            r.deep_view() + spec_lines(s@.skip(start as int)) == spec_lines(s@),
        decreases cs.len() - i,
    {
        if cs[i] == '\n' {
            let mut end: usize = i;
            if end > start && cs[end - 1] == '\r' {
                end = end - 1;
            }
            let line = s.substring_char(start, end);
            let ghost before = r.deep_view();
            r.push(line);
            proof {
                let rest = s@.skip(start as int);
                assert forall|j: int| 0 <= j < i - start implies rest[j] != '\n' by {
                    assert(rest[j] == s@[start + j]);
                }
                lemma_find_newline(rest, i - start);
                assert(rest.skip(i - start + 1) =~= s@.skip(i + 1));
                assert(line@ =~= spec_without_cr(rest.take(i - start)));
                assert(r.deep_view() =~= before.push(line@));
                assert(before + (seq![line@] + spec_lines(s@.skip(i + 1))) =~= before.push(line@)
                    + spec_lines(s@.skip(i + 1)));
            }
            start = i + 1;
        }
        i = i + 1;
    }
    if start < cs.len() {
        let line = text::skip(s, start);
        let ghost before = r.deep_view();
        r.push(line);
        proof {
            assert forall|j: int| 0 <= j < line@.len() implies line@[j] != '\n' by {
                assert(line@[j] == s@[start + j]);
            }
            lemma_single_line(line@);
            assert(r.deep_view() =~= before + seq![line@]);
        }
    } else {
        assert(r.deep_view() + spec_lines(s@.skip(start as int)) =~= r.deep_view());
    }
    r
}

/// The first line of a text, empty where there is none.
pub open spec fn spec_first_line(s: Seq<char>) -> Seq<char> {
    if spec_lines(s).len() > 0 {
        spec_lines(s)[0]
    } else {
        seq![]
    }
}

// ---------------------------------------------------------------------------
// Pieces
// ---------------------------------------------------------------------------

/// The pieces of `s` between the occurrences of `sep`, left to right.
pub open spec fn spec_split(s: Seq<char>, sep: Seq<char>) -> Seq<Seq<char>>
    decreases s.len(),
{
    match text::spec_find(s, sep) {
        Some(i) => if sep.len() > 0 && 0 <= i && i + sep.len() <= s.len() {
            seq![s.take(i)] + spec_split(s.skip(i + sep.len()), sep)
        } else {
            seq![s]
        },
        None => seq![s],
    }
}

proof fn lemma_occurs_in_suffix(s: Seq<char>, p: Seq<char>, start: int, j: int)
    requires
        0 <= start <= s.len(),
        0 <= j,
    ensures
        text::occurs_at(s.skip(start), p, j) == text::occurs_at(s, p, start + j),
{
    if j + p.len() <= s.len() - start {
        assert(s.skip(start).subrange(j, j + p.len()) =~= s.subrange(
            start + j,
            start + j + p.len(),
        ));
    }
}

/// `str::split` at the occurrences of a text.
pub fn split<'a>(s: &'a str, sep: &str) -> (r: Vec<&'a str>)
    requires
        sep@.len() > 0,
    ensures
        r.deep_view() == spec_split(s@, sep@),
        r@.len() > 0,
{
    let cs = text::chars_of(s);
    let pc = text::chars_of(sep);
    let mut r: Vec<&'a str> = Vec::new();
    let mut start: usize = 0;
    let mut i: usize = 0;
    assert(s@.skip(0) =~= s@);
    assert(r.deep_view() + spec_split(s@, sep@) =~= spec_split(s@, sep@));
    while i < cs.len()
        invariant
            cs@ == s@,
            pc@ == sep@,
            sep@.len() > 0,
            start <= i,
            start <= cs.len(),
            i <= cs.len(),
            forall|j: int| start <= j < i ==> !#[trigger] text::occurs_at(s@, sep@, j),
            r.deep_view() + spec_split(s@.skip(start as int), sep@) == spec_split(s@, sep@),
        decreases cs.len() - i,
    {
        if text::matches_at(&cs, &pc, i) {
            let piece = s.substring_char(start, i);
            let ghost before = r.deep_view();
            r.push(piece);
            proof {
                let rest = s@.skip(start as int);
                lemma_occurs_in_suffix(s@, sep@, start as int, i - start);
                assert forall|j: int| 0 <= j < i - start implies !#[trigger] text::occurs_at(
                    rest,
                    sep@,
                    j,
                ) by {
                    lemma_occurs_in_suffix(s@, sep@, start as int, j);
                    assert(!text::occurs_at(s@, sep@, start + j));
                }
                text::lemma_find_is(rest, sep@, i - start);
                assert(rest.take(i - start) =~= piece@);
                assert(rest.skip(i - start + sep@.len()) =~= s@.skip(i + sep@.len()));
                assert(r.deep_view() =~= before.push(piece@));
                assert(before + (seq![piece@] + spec_split(s@.skip(i + sep@.len()), sep@))
                    =~= before.push(piece@) + spec_split(s@.skip(i + sep@.len()), sep@));
            }
            i = i + pc.len();
            start = i;
        } else {
            i = i + 1;
        }
    }
    let piece = text::skip(s, start);
    let ghost before = r.deep_view();
    r.push(piece);
    proof {
        let rest = s@.skip(start as int);
        text::lemma_find(rest, sep@);
        if text::spec_find(rest, sep@) is Some {
            let k = text::spec_find(rest, sep@)->Some_0;
            lemma_occurs_in_suffix(s@, sep@, start as int, k);
            assert(!text::occurs_at(s@, sep@, start + k));
        }
        assert(r.deep_view() =~= before + seq![piece@]);
    }
    r
}

/// `parts` one after the other, with `sep` between neighbours.
pub open spec fn spec_join(parts: Seq<Seq<char>>, sep: Seq<char>) -> Seq<char>
    decreases parts.len(),
{
    if parts.len() == 0 {
        seq![]
    } else if parts.len() == 1 {
        parts[0]
    } else {
        spec_join(parts.drop_last(), sep) + sep + parts.last()
    }
}

/// Each part stands in the joined text.
pub proof fn lemma_join_holds_part(parts: Seq<Seq<char>>, sep: Seq<char>, k: int)
    requires
        0 <= k < parts.len(),
    ensures
        text::spec_contains(spec_join(parts, sep), parts[k]),
    decreases parts.len(),
{
    if parts.len() == 1 {
        text::lemma_contains_part(seq![], parts[0], seq![]);
        assert(seq![] + parts[0] + seq![] =~= parts[0]);
    } else if k == parts.len() - 1 {
        let before = spec_join(parts.drop_last(), sep) + sep;
        text::lemma_contains_part(before, parts[k], seq![]);
        assert(before + parts[k] + seq![] =~= spec_join(parts, sep));
    } else {
        lemma_join_holds_part(parts.drop_last(), sep, k);
        let rest = sep + parts.last();
        text::lemma_contains_extended(spec_join(parts.drop_last(), sep), parts[k], rest);
        assert(spec_join(parts.drop_last(), sep) + rest =~= spec_join(parts, sep));
    }
}

/// The joined text starts with the first part and ends with the last one.
pub proof fn lemma_join_ends(parts: Seq<Seq<char>>, sep: Seq<char>)
    requires
        parts.len() > 0,
    ensures
        text::spec_starts_with(spec_join(parts, sep), parts[0]),
        text::spec_ends_with(spec_join(parts, sep), parts.last()),
    decreases parts.len(),
{
    let s = spec_join(parts, sep);
    if parts.len() == 1 {
        assert(s.subrange(0, s.len() as int) =~= s);
    } else {
        lemma_join_ends(parts.drop_last(), sep);
        let front = spec_join(parts.drop_last(), sep);
        let first = parts[0];
        assert(s.subrange(0, first.len() as int) =~= front.subrange(0, first.len() as int));
        assert(s.subrange(s.len() - parts.last().len(), s.len() as int) =~= parts.last());
    }
}

/// Puts `parts` together with `sep` between neighbours.
pub fn join(parts: &Vec<&str>, sep: &str) -> (r: String)
    ensures
        r@ == spec_join(parts.deep_view(), sep@),
{
    let mut r = String::new();
    let mut i: usize = 0;
    let ghost all = parts.deep_view();
    assert(all.take(0) =~= seq![]);
    while i < parts.len()
        invariant
            i <= parts.len(),
            all == parts.deep_view(),
            r@ == spec_join(all.take(i as int), sep@),
        decreases parts.len() - i,
    {
        assert(all.take(i + 1).drop_last() =~= all.take(i as int));
        assert(all.take(i + 1).last() == parts@[i as int]@);
        if i > 0 {
            r.append(sep);
        }
        r.append(parts[i]);
        assert(r@ =~= spec_join(all.take(i + 1), sep@));
        i = i + 1;
    }
    assert(all.take(parts.len() as int) =~= all);
    r
}

/// Puts `parts` together with `sep` between neighbours.
pub fn join_strings(parts: &Vec<String>, sep: &str) -> (r: String)
    ensures
        r@ == spec_join(parts.deep_view(), sep@),
{
    let mut views: Vec<&str> = Vec::new();
    let mut i: usize = 0;
    while i < parts.len()
        invariant
            i <= parts.len(),
            views.deep_view() =~= parts.deep_view().take(i as int),
        decreases parts.len() - i,
    {
        let ghost before = views.deep_view();
        views.push(parts[i].as_str());
        assert(views.deep_view() =~= before.push(parts@[i as int]@));
        assert(parts.deep_view()[i as int] == parts@[i as int]@);
        i = i + 1;
    }
    assert(views.deep_view() =~= parts.deep_view());
    join(&views, sep)
}

/// A copy of `parts`.
pub fn copied(parts: &[String]) -> (r: Vec<String>)
    ensures
        r.deep_view() == parts.deep_view(),
{
    let mut r: Vec<String> = Vec::new();
    let mut i: usize = 0;
    assert(r.deep_view() =~= parts.deep_view().take(0));
    while i < parts.len()
        invariant
            i <= parts.len(),
            r.deep_view() == parts.deep_view().take(i as int),
        decreases parts.len() - i,
    {
        let ghost before = r.deep_view();
        r.push(parts[i].clone());
        assert(r.deep_view() =~= before.push(parts@[i as int]@));
        assert(parts.deep_view()[i as int] == parts@[i as int]@);
        assert(r.deep_view() =~= parts.deep_view().take(i + 1));
        i = i + 1;
    }
    assert(parts.deep_view().take(parts@.len() as int) =~= parts.deep_view());
    r
}

/// `parts` from position `i` on.
pub fn tail<'a>(parts: &Vec<&'a str>, i: usize) -> (r: Vec<&'a str>)
    requires
        i <= parts@.len(),
    ensures
        r.deep_view() == parts.deep_view().skip(i as int),
{
    let mut r: Vec<&'a str> = Vec::new();
    let mut k: usize = i;
    while k < parts.len()
        invariant
            i <= k <= parts.len(),
            r.deep_view() =~= parts.deep_view().subrange(i as int, k as int),
        decreases parts.len() - k,
    {
        let ghost before = r.deep_view();
        r.push(parts[k]);
        assert(r.deep_view() =~= before.push(parts@[k as int]@));
        assert(parts.deep_view()[k as int] == parts@[k as int]@);
        k = k + 1;
    }
    assert(r.deep_view() =~= parts.deep_view().skip(i as int));
    r
}

/// `s` with each occurrence of `from`, left to right, replaced by `to`.
pub open spec fn spec_replace(s: Seq<char>, from: Seq<char>, to: Seq<char>) -> Seq<char> {
    spec_join(spec_split(s, from), to)
}

/// `str::replace` of a text by another one.
pub fn replace(s: &str, from: &str, to: &str) -> (r: String)
    requires
        from@.len() > 0,
    ensures
        r@ == spec_replace(s@, from@, to@),
{
    let parts = split(s, from);
    join(&parts, to)
}

/// The non-blank pieces between the blank lines of `s`, each trimmed.
pub open spec fn spec_paragraphs(s: Seq<char>) -> Seq<Seq<char>> {
    spec_keep_nonempty(spec_split(s, "\n\n"@).map_values(|p: Seq<char>| text::spec_trim(p)))
}

/// The parts that are not empty, in order.
pub open spec fn spec_keep_nonempty(parts: Seq<Seq<char>>) -> Seq<Seq<char>>
    decreases parts.len(),
{
    if parts.len() == 0 {
        seq![]
    } else if parts.last().len() > 0 {
        spec_keep_nonempty(parts.drop_last()).push(parts.last())
    } else {
        spec_keep_nonempty(parts.drop_last())
    }
}

/// The non-blank pieces between the blank lines of `s`, each trimmed.
pub fn paragraphs<'a>(s: &'a str) -> (r: Vec<&'a str>)
    ensures
        r.deep_view() == spec_paragraphs(s@),
{
    proof {
        reveal_strlit("\n\n");
    }
    let parts = split(s, "\n\n");
    let ghost all = spec_split(s@, "\n\n"@).map_values(|p: Seq<char>| text::spec_trim(p));
    let mut r: Vec<&'a str> = Vec::new();
    let mut i: usize = 0;
    assert(all.take(0) =~= seq![]);
    assert(r.deep_view() =~= spec_keep_nonempty(all.take(0)));
    while i < parts.len()
        invariant
            i <= parts.len(),
            parts.deep_view() == spec_split(s@, "\n\n"@),
            all == spec_split(s@, "\n\n"@).map_values(|p: Seq<char>| text::spec_trim(p)),
            r.deep_view() == spec_keep_nonempty(all.take(i as int)),
        decreases parts.len() - i,
    {
        let piece = text::trim(parts[i]);
        assert(piece@ == all[i as int]) by {
            assert(parts.deep_view()[i as int] == parts@[i as int]@);
        }
        assert(all.take(i + 1).drop_last() =~= all.take(i as int));
        if piece.unicode_len() > 0 {
            let ghost before = r.deep_view();
            r.push(piece);
            assert(r.deep_view() =~= before.push(piece@));
        }
        i = i + 1;
    }
    assert(all.take(all.len() as int) =~= all);
    r
}

// ---------------------------------------------------------------------------
// Words
// ---------------------------------------------------------------------------

/// The length of the run of non-whitespace at the start of `s`.
pub open spec fn spec_word_len(s: Seq<char>) -> nat
    decreases s.len(),
{
    if s.len() > 0 && !text::is_white_space(s[0]) {
        1 + spec_word_len(s.skip(1))
    } else {
        0
    }
}

/// The maximal runs of non-whitespace in `s`, left to right.
pub open spec fn spec_words(s: Seq<char>) -> Seq<Seq<char>>
    decreases s.len(),
{
    if s.len() == 0 {
        seq![]
    } else if text::is_white_space(s[0]) {
        spec_words(s.skip(1))
    } else {
        let n = spec_word_len(s) as int;
        if 0 < n <= s.len() {
            seq![s.take(n)] + spec_words(s.skip(n))
        } else {
            seq![]
        }
    }
}

proof fn lemma_word_len(s: Seq<char>, n: int)
    requires
        0 <= n <= s.len(),
        forall|j: int| 0 <= j < n ==> !text::is_white_space(s[j]),
        n < s.len() ==> text::is_white_space(s[n]),
    ensures
        spec_word_len(s) == n,
    decreases n,
{
    if n > 0 {
        assert forall|j: int| 0 <= j < n - 1 implies !text::is_white_space(s.skip(1)[j]) by {
            assert(s.skip(1)[j] == s[j + 1]);
        }
        lemma_word_len(s.skip(1), n - 1);
    }
}

/// `str::split_whitespace`.
pub fn words<'a>(s: &'a str) -> (r: Vec<&'a str>)
    ensures
        r.deep_view() == spec_words(s@),
{
    let cs = text::chars_of(s);
    let mut r: Vec<&'a str> = Vec::new();
    let mut i: usize = 0;
    assert(s@.skip(0) =~= s@);
    assert(r.deep_view() + spec_words(s@) =~= spec_words(s@));
    while i < cs.len()
        invariant
            cs@ == s@,
            i <= cs.len(),
            r.deep_view() + spec_words(s@.skip(i as int)) == spec_words(s@),
        decreases cs.len() - i,
    {
        if text::is_white_space_char(cs[i]) {
            assert(s@.skip(i as int).skip(1) =~= s@.skip(i + 1));
            i = i + 1;
        } else {
            let start: usize = i;
            i = i + 1;
            while i < cs.len() && !text::is_white_space_char(cs[i])
                invariant
                    cs@ == s@,
                    start < i <= cs.len(),
                    forall|j: int| start <= j < i ==> !text::is_white_space(s@[j]),
                decreases cs.len() - i,
            {
                i = i + 1;
            }
            let word = s.substring_char(start, i);
            let ghost before = r.deep_view();
            r.push(word);
            proof {
                let rest = s@.skip(start as int);
                assert forall|j: int| 0 <= j < i - start implies !text::is_white_space(rest[j]) by {
                    assert(rest[j] == s@[start + j]);
                }
                lemma_word_len(rest, i - start);
                assert(rest.take(i - start) =~= word@);
                assert(rest.skip(i - start) =~= s@.skip(i as int));
                assert(r.deep_view() =~= before.push(word@));
                assert(before + (seq![word@] + spec_words(s@.skip(i as int))) =~= before.push(word@)
                    + spec_words(s@.skip(i as int)));
            }
        }
    }
    assert(r.deep_view() + spec_words(s@.skip(i as int)) =~= r.deep_view());
    r
}

// ---------------------------------------------------------------------------
// Laws
// ---------------------------------------------------------------------------

/// Joined parts, taken apart behind the first one.
pub proof fn lemma_join_from_front(parts: Seq<Seq<char>>, sep: Seq<char>)
    requires
        parts.len() > 1,
    ensures
        spec_join(parts, sep) == parts[0] + sep + spec_join(parts.skip(1), sep),
    decreases parts.len(),
{
    reveal_with_fuel(spec_join, 3);
    if parts.len() == 2 {
        assert(parts.drop_last() =~= seq![parts[0]]);
        assert(parts.skip(1) =~= seq![parts[1]]);
        assert(spec_join(parts, sep) =~= parts[0] + sep + spec_join(parts.skip(1), sep));
    } else {
        lemma_join_from_front(parts.drop_last(), sep);
        assert(parts.drop_last().skip(1) =~= parts.skip(1).drop_last());
        assert(spec_join(parts, sep) =~= parts[0] + sep + spec_join(parts.skip(1), sep));
    }
}

/// The separator stands in `part` followed by it only at the very end.
pub open spec fn spec_ends_at_first(part: Seq<char>, sep: Seq<char>) -> bool {
    !text::spec_contains(part + sep.drop_last(), sep)
}

/// The separator is found behind a part that does not make it come early.
pub proof fn lemma_first_separator(part: Seq<char>, sep: Seq<char>, rest: Seq<char>)
    requires
        sep.len() > 0,
        spec_ends_at_first(part, sep),
    ensures
        text::spec_find(part + sep + rest, sep) == Some(part.len() as int),
{
    let s = part + sep + rest;
    let k = part.len() as int;
    text::lemma_contains_part(part, sep, rest);
    assert forall|j: int| 0 <= j < k implies !#[trigger] text::occurs_at(s, sep, j) by {
        if text::occurs_at(s, sep, j) {
            let joined = part + sep.drop_last();
            assert(s.subrange(j, j + sep.len()) =~= joined.subrange(j, j + sep.len()));
            assert(text::occurs_at(joined, sep, j));
        }
    }
    text::lemma_find_is(s, sep, k);
}

/// Splitting loses nothing: the pieces joined give the text back, and the
/// separator stands in none of them.
pub proof fn law_pieces_join_to_the_text(s: Seq<char>, sep: Seq<char>)
    requires
        sep.len() > 0,
    ensures
        spec_split(s, sep).len() > 0,
        spec_join(spec_split(s, sep), sep) == s,
        forall|i: int|
            0 <= i < spec_split(s, sep).len() ==> !text::spec_contains(
                #[trigger] spec_split(s, sep)[i],
                sep,
            ),
    decreases s.len(),
{
    text::lemma_find(s, sep);
    let pieces = spec_split(s, sep);
    if let Some(i) = text::spec_find(s, sep) {
        let rest = spec_split(s.skip(i + sep.len()), sep);
        law_pieces_join_to_the_text(s.skip(i + sep.len()), sep);
        assert(pieces.skip(1) =~= rest);
        lemma_join_from_front(pieces, sep);
        assert(s =~= s.take(i) + sep + s.skip(i + sep.len()));
        assert forall|k: int| 0 <= k < pieces.len() implies !text::spec_contains(
            #[trigger] pieces[k],
            sep,
        ) by {
            if k == 0 {
                if text::spec_contains(s.take(i), sep) {
                    let j = choose|j: int| text::occurs_at(s.take(i), sep, j);
                    assert(s.subrange(j, j + sep.len()) =~= s.take(i).subrange(j, j + sep.len()));
                    assert(text::occurs_at(s, sep, j));
                }
            } else {
                assert(pieces[k] == rest[k - 1]);
            }
        }
    }
}

/// Joined parts are split into the same parts again, where no part makes the
/// separator come early.
pub proof fn law_joined_parts_are_split_again(parts: Seq<Seq<char>>, sep: Seq<char>)
    requires
        sep.len() > 0,
        parts.len() > 0,
        forall|k: int| 0 <= k < parts.len() ==> spec_ends_at_first(#[trigger] parts[k], sep),
    ensures
        spec_split(spec_join(parts, sep), sep) == parts,
    decreases parts.len(),
{
    if parts.len() == 1 {
        let s = parts[0];
        if text::spec_contains(s, sep) {
            text::lemma_contains_extended(s, sep, sep.drop_last());
            assert(!spec_ends_at_first(parts[0], sep));
        }
        text::lemma_find(s, sep);
        assert(spec_split(s, sep) =~= parts);
    } else {
        let rest = parts.skip(1);
        assert forall|k: int| 0 <= k < rest.len() implies spec_ends_at_first(
            #[trigger] rest[k],
            sep,
        ) by {
            assert(rest[k] == parts[k + 1]);
        }
        law_joined_parts_are_split_again(rest, sep);
        lemma_join_from_front(parts, sep);
        let s = spec_join(parts, sep);
        let tail = spec_join(rest, sep);
        assert(spec_ends_at_first(parts[0], sep));
        lemma_first_separator(parts[0], sep, tail);
        assert(s.take(parts[0].len() as int) =~= parts[0]);
        assert(s.skip((parts[0].len() + sep.len()) as int) =~= tail);
        assert(spec_split(s, sep) =~= parts);
    }
}

/// Replacing changes the places where the pattern stands and nothing else.
pub proof fn law_replacing_changes_only_the_pattern(
    before: Seq<char>,
    from: Seq<char>,
    to: Seq<char>,
    rest: Seq<char>,
)
    requires
        from.len() > 0,
        spec_ends_at_first(before, from),
    ensures
        spec_replace(before + from + rest, from, to) == before + to + spec_replace(rest, from, to),
        spec_replace(before, from, to) == before,
{
    let s = before + from + rest;
    lemma_first_separator(before, from, rest);
    assert(s.take(before.len() as int) =~= before);
    assert(s.skip((before.len() + from.len()) as int) =~= rest);
    let pieces = spec_split(s, from);
    law_pieces_join_to_the_text(rest, from);
    assert(pieces.skip(1) =~= spec_split(rest, from));
    lemma_join_from_front(pieces, to);
    if text::spec_contains(before, from) {
        text::lemma_contains_extended(before, from, from.drop_last());
    }
    text::lemma_find(before, from);
    assert(spec_split(before, from) =~= seq![before]);
}

/// A line as it can stand in a text: without a line feed, and without a
/// carriage return at its end.
pub open spec fn spec_is_line(line: Seq<char>) -> bool {
    !line.contains('\n') && !(line.len() > 0 && line.last() == '\r')
}

/// Lines put below one another are read as the same lines, with or without a
/// line feed behind the last one.
pub proof fn law_lines_are_read_back(lines: Seq<Seq<char>>)
    requires
        lines.len() > 0,
        forall|k: int| 0 <= k < lines.len() ==> spec_is_line(#[trigger] lines[k]),
    ensures
        lines.last().len() > 0 ==> spec_lines(spec_join(lines, seq!['\n'])) == lines,
        spec_lines(spec_join(lines, seq!['\n']) + seq!['\n']) == lines,
    decreases lines.len(),
{
    let sep = seq!['\n'];
    assert(spec_is_line(lines[0]));
    if lines.len() == 1 {
        let s = lines[0];
        assert forall|j: int| 0 <= j < s.len() implies s[j] != '\n' by {
            assert(s.contains(s[j]));
        }
        lemma_single_line(s);
        lemma_lines_behind_a_line(s, seq![]);
        assert(s + sep + seq![] =~= s + sep);
        assert(seq![spec_without_cr(s)] + spec_lines(seq![]) =~= lines);
        if s.len() > 0 {
            assert(seq![s] =~= lines);
        }
    } else {
        let rest = lines.skip(1);
        assert forall|k: int| 0 <= k < rest.len() implies spec_is_line(#[trigger] rest[k]) by {
            assert(rest[k] == lines[k + 1]);
        }
        law_lines_are_read_back(rest);
        lemma_join_from_front(lines, sep);
        let tail = spec_join(rest, sep);
        lemma_lines_behind_a_line(lines[0], tail);
        lemma_lines_behind_a_line(lines[0], tail + sep);
        assert(lines[0] + sep + (tail + sep) =~= spec_join(lines, sep) + sep);
        assert(seq![lines[0]] + rest =~= lines);
    }
}

/// Reading the lines of a text loses nothing: put below one another they are
/// the text again, where it has plain line feeds and does not end in one.
pub proof fn law_lines_join_to_the_text(s: Seq<char>)
    requires
        s.len() > 0,
        s.last() != '\n',
        s.last() != '\r',
        !text::spec_contains(s, seq!['\r', '\n']),
    ensures
        spec_lines(s).len() > 0,
        spec_join(spec_lines(s), seq!['\n']) == s,
    decreases s.len(),
{
    let p = seq!['\n'];
    text::lemma_find(s, p);
    match text::spec_find(s, p) {
        Some(k) => {
            assert(s.subrange(k, k + 1)[0] == s[k]);
            let head = s.take(k);
            let rest = s.skip(k + 1);
            if head.len() > 0 && head.last() == '\r' {
                assert(s.subrange(k - 1, k + 1) =~= seq!['\r', '\n']);
                assert(text::occurs_at(s, seq!['\r', '\n'], k - 1));
            }
            assert(rest.last() == s.last());
            if text::spec_contains(rest, seq!['\r', '\n']) {
                let j = choose|j: int| text::occurs_at(rest, seq!['\r', '\n'], j);
                assert(s.subrange(k + 1 + j, k + 3 + j) =~= rest.subrange(j, j + 2));
                assert(text::occurs_at(s, seq!['\r', '\n'], k + 1 + j));
            }
            law_lines_join_to_the_text(rest);
            let lines = spec_lines(s);
            assert(lines.skip(1) =~= spec_lines(rest));
            lemma_join_from_front(lines, p);
            assert(head + p + rest =~= s);
        },
        None => {},
    }
}

/// The first line is where the text starts.
pub proof fn lemma_first_of_lines(s: Seq<char>)
    requires
        s.len() > 0,
    ensures
        spec_lines(s).len() > 0,
        s[0] == '\n' || (s[0] == '\r' && spec_lines(s)[0].len() == 0) || (
        spec_lines(s)[0].len() > 0 && spec_lines(s)[0][0] == s[0]),
        forall|i: int| 0 <= i < spec_lines(s)[0].len() ==> spec_lines(s)[0][i] == s[i],
        spec_lines(s)[0].len() <= s.len(),
{
    let p = seq!['\n'];
    text::lemma_find(s, p);
    match text::spec_find(s, p) {
        Some(k) => {
            assert(s.subrange(k, k + 1)[0] == s[k]);
            assert(spec_lines(s)[0] == spec_without_cr(s.take(k)));
        },
        None => {},
    }
}

proof fn lemma_keep_nonempty_behind(first: Seq<char>, rest: Seq<Seq<char>>)
    ensures
        spec_keep_nonempty(seq![first] + rest) == (if first.len() > 0 {
            seq![first]
        } else {
            seq![]
        }) + spec_keep_nonempty(rest),
    decreases rest.len(),
{
    let all = seq![first] + rest;
    if rest.len() == 0 {
        assert(all =~= seq![first]);
        assert(all.drop_last() =~= seq![]);
        assert(spec_keep_nonempty(all.drop_last()) =~= seq![]);
        assert(spec_keep_nonempty(rest) =~= seq![]);
        assert(spec_keep_nonempty(all) =~= (if first.len() > 0 {
            seq![first]
        } else {
            seq![]
        }) + spec_keep_nonempty(rest));
    } else {
        lemma_keep_nonempty_behind(first, rest.drop_last());
        assert(all.drop_last() =~= seq![first] + rest.drop_last());
        assert(all.last() == rest.last());
        assert(spec_keep_nonempty(all) =~= (if first.len() > 0 {
            seq![first]
        } else {
            seq![]
        }) + spec_keep_nonempty(rest));
    }
}

/// A blank line ends a paragraph: what stands before the first one is a
/// paragraph of its own, trimmed, unless it is blank, and the others follow in
/// their order.
pub proof fn law_blank_line_ends_a_paragraph(part: Seq<char>, rest: Seq<char>)
    requires
        spec_ends_at_first(part, "\n\n"@),
    ensures
        spec_paragraphs(part + "\n\n"@ + rest) == (if text::spec_trim(part).len() > 0 {
            seq![text::spec_trim(part)]
        } else {
            seq![]
        }) + spec_paragraphs(rest),
        spec_paragraphs(part) == if text::spec_trim(part).len() > 0 {
            seq![text::spec_trim(part)]
        } else {
            seq![]
        },
{
    reveal_strlit("\n\n");
    let sep = "\n\n"@;
    let s = part + sep + rest;
    lemma_first_separator(part, sep, rest);
    assert(s.take(part.len() as int) =~= part);
    assert(s.skip((part.len() + sep.len()) as int) =~= rest);
    let trim = |p: Seq<char>| text::spec_trim(p);
    assert(spec_split(s, sep).map_values(trim) =~= seq![text::spec_trim(part)] + spec_split(
        rest,
        sep,
    ).map_values(trim));
    lemma_keep_nonempty_behind(text::spec_trim(part), spec_split(rest, sep).map_values(trim));
    if text::spec_contains(part, sep) {
        text::lemma_contains_extended(part, sep, sep.drop_last());
    }
    text::lemma_find(part, sep);
    assert(spec_split(part, sep).map_values(trim) =~= seq![text::spec_trim(part)] + seq![]);
    lemma_keep_nonempty_behind(text::spec_trim(part), seq![]);
    assert(spec_keep_nonempty(seq![]) =~= seq![]);
}

/// Whitespace ends a word: a run of other characters before it is a word of its
/// own, and the others follow in their order.
pub proof fn law_whitespace_ends_a_word(word: Seq<char>, space: char, rest: Seq<char>)
    requires
        forall|i: int| 0 <= i < word.len() ==> !text::is_white_space(#[trigger] word[i]),
        text::is_white_space(space),
    ensures
        spec_words(seq![space] + rest) == spec_words(rest),
        word.len() > 0 ==> spec_words(word + seq![space] + rest) == seq![word] + spec_words(rest),
        word.len() > 0 ==> spec_words(word) == seq![word],
        spec_words(seq![]) == Seq::<Seq<char>>::empty(),
{
    let spaced = seq![space] + rest;
    assert(spaced[0] == space);
    assert(spaced.skip(1) =~= rest);
    if word.len() > 0 {
        let s = word + seq![space] + rest;
        let n = word.len() as int;
        assert(s[n] == space);
        assert forall|j: int| 0 <= j < n implies !text::is_white_space(s[j]) by {
            assert(s[j] == word[j]);
        }
        lemma_word_len(s, n);
        assert(s[0] == word[0]);
        assert(s.take(n) =~= word);
        assert(s.skip(n) =~= spaced);
        lemma_word_len(word, n);
        assert(word.take(n) =~= word);
        assert(word.skip(n) =~= seq![]);
        assert(spec_words(seq![]) =~= seq![]);
    }
}

/// The first line is what stands before the first line feed.
pub proof fn law_first_line_ends_at_the_line_feed(line: Seq<char>, rest: Seq<char>)
    requires
        spec_is_line(line),
    ensures
        spec_first_line(line + seq!['\n'] + rest) == line,
        spec_first_line(line) == line,
{
    lemma_lines_behind_a_line(line, rest);
    assert forall|j: int| 0 <= j < line.len() implies line[j] != '\n' by {
        assert(line.contains(line[j]));
    }
    lemma_single_line(line);
}

/// A text without a character does not make it come early.
pub proof fn lemma_ends_at_first_char(part: Seq<char>, c: char)
    requires
        !part.contains(c),
    ensures
        spec_ends_at_first(part, seq![c]),
{
    let sep = seq![c];
    assert(sep.drop_last() =~= seq![]);
    assert(part + sep.drop_last() =~= part);
    if text::spec_contains(part, sep) {
        let j = choose|j: int| text::occurs_at(part, sep, j);
        assert(part.subrange(j, j + 1)[0] == part[j]);
        assert(part.contains(part[j]));
    }
}

/// Parts joined by a character that stands in none of them are split at it into
/// the same parts again.
pub proof fn law_parts_are_split_at_a_character(parts: Seq<Seq<char>>, c: char)
    requires
        parts.len() > 0,
        forall|k: int| 0 <= k < parts.len() ==> !(#[trigger] parts[k]).contains(c),
    ensures
        spec_split(spec_join(parts, seq![c]), seq![c]) == parts,
{
    assert forall|k: int| 0 <= k < parts.len() implies spec_ends_at_first(
        #[trigger] parts[k],
        seq![c],
    ) by {
        lemma_ends_at_first_char(parts[k], c);
    }
    law_joined_parts_are_split_again(parts, seq![c]);
}

} // verus!
