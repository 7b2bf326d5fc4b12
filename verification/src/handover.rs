//! Notes for the thread that goes on: rendering them as a block of text that
//! stands before the new thread's first prompt.

use vstd::prelude::*;
use crate::context::{HandoverBlock, HandoverView};
use crate::segments;
use crate::text;

verus! {

// ---------------------------------------------------------------------------
// Scalars
// ---------------------------------------------------------------------------

/// A character inside double quotes.
pub open spec fn spec_escaped_char(c: char) -> Seq<char> {
    if c == '\\' {
        seq!['\\', '\\']
    } else if c == '"' {
        seq!['\\', '"']
    } else if c == '\n' {
        seq!['\\', 'n']
    } else if c == '\r' {
        seq!['\\', 'r']
    } else if c == '\t' {
        seq!['\\', 't']
    } else {
        seq![c]
    }
}

/// A text inside double quotes.
pub open spec fn spec_escaped(s: Seq<char>) -> Seq<char>
    decreases s.len(),
{
    if s.len() == 0 {
        seq![]
    } else {
        spec_escaped(s.drop_last()) + spec_escaped_char(s.last())
    }
}

/// A text that would be ambiguous without quotes: a blank one, one with
/// whitespace around it, or one whose trimmed form holds or starts with a
/// character that means something special.
pub open spec fn spec_needs_quoting(s: Seq<char>) -> bool {
    let t = text::spec_trim(s);
    ||| t.len() == 0
    ||| t != s
    ||| text::spec_contains(t, ":"@)
    ||| text::spec_contains(t, "\n"@)
    ||| text::spec_contains(t, "\""@)
    ||| spec_is_indicator(t[0])
}

/// A character that means something special at the start of a scalar.
pub open spec fn spec_is_indicator(c: char) -> bool {
    ||| c == '-'
    ||| c == '['
    ||| c == '{'
    ||| c == '#'
    ||| c == '&'
    ||| c == '*'
    ||| c == '!'
    ||| c == '|'
    ||| c == '>'
    ||| c == '@'
    ||| c == '`'
}

/// A text as a scalar: trimmed, and quoted where it would be ambiguous.
pub open spec fn spec_scalar(s: Seq<char>) -> Seq<char> {
    let t = text::spec_trim(s);
    if spec_needs_quoting(s) {
        "\""@ + spec_escaped(t) + "\""@
    } else {
        t
    }
}

fn escaped(s: &str) -> (r: String)
    ensures
        r@ == spec_escaped(s@),
{
    let cs = text::chars_of(s);
    let mut r = String::new();
    let mut i: usize = 0;
    assert(s@.take(0) =~= seq![]);
    assert(r@ =~= seq![]);
    while i < cs.len()
        invariant
            cs@ == s@,
            i <= cs.len(),
            r@ == spec_escaped(s@.take(i as int)),
        decreases cs.len() - i,
    {
        assert(s@.take(i + 1).drop_last() =~= s@.take(i as int));
        let c = cs[i];
        let ghost before = r@;
        if c == '\\' {
            r.push('\\');
            r.push('\\');
        } else if c == '"' {
            r.push('\\');
            r.push('"');
        } else if c == '\n' {
            r.push('\\');
            r.push('n');
        } else if c == '\r' {
            r.push('\\');
            r.push('r');
        } else if c == '\t' {
            r.push('\\');
            r.push('t');
        } else {
            r.push(c);
        }
        assert(r@ =~= before + spec_escaped_char(c));
        i = i + 1;
    }
    assert(s@.take(s@.len() as int) =~= s@);
    r
}

fn is_indicator(c: char) -> (r: bool)
    ensures
        r == spec_is_indicator(c),
{
    c == '-' || c == '[' || c == '{' || c == '#' || c == '&' || c == '*' || c == '!' || c == '|'
        || c == '>' || c == '@' || c == '`'
}

/// Writes a text as a scalar: bare where that is unambiguous, else in double
/// quotes with escapes.
pub fn escape_yaml_scalar(s: &str) -> (r: String)
    ensures
        r@ == spec_scalar(s@),
{
    let trimmed = text::trim(s);
    let needs_quoting = trimmed.unicode_len() == 0 || !text::str_eq(trimmed, s) || text::contains(
        trimmed,
        ":",
    ) || text::contains(trimmed, "\n") || text::contains(trimmed, "\"") || is_indicator(
        trimmed.get_char(0),
    );
    if needs_quoting {
        let mut r = text::owned("\"");
        r.append(escaped(trimmed).as_str());
        r.append("\"");
        r
    } else {
        text::owned(trimmed)
    }
}

// ---------------------------------------------------------------------------
// Blocks
// ---------------------------------------------------------------------------

/// Absent or blank.
pub open spec fn spec_is_absent(s: Option<Seq<char>>) -> bool {
    text::spec_present(s) is None
}

/// The block says nothing.
pub open spec fn spec_block_is_empty(block: HandoverView) -> bool {
    &&& spec_is_absent(block.original_intent)
    &&& block.completed.len() == 0
    &&& block.in_progress.len() == 0
    &&& block.blocked_on.len() == 0
    &&& spec_is_absent(block.next_step)
    &&& block.files_touched.len() == 0
    &&& block.active_plans.len() == 0
}

/// The line of a field with one text, no line where it is absent.
pub open spec fn spec_field_lines(key: Seq<char>, value: Option<Seq<char>>) -> Seq<Seq<char>> {
    match text::spec_present(value) {
        Some(t) => seq![key + spec_scalar(t)],
        None => seq![],
    }
}

/// One line for each of `items`.
pub open spec fn spec_item_lines(items: Seq<Seq<char>>) -> Seq<Seq<char>> {
    items.map_values(|item: Seq<char>| "  - "@ + spec_scalar(item))
}

/// The lines of a field with a list, no line where it is empty.
pub open spec fn spec_list_lines(key: Seq<char>, items: Seq<Seq<char>>) -> Seq<Seq<char>> {
    if items.len() == 0 {
        seq![]
    } else {
        seq![key] + spec_item_lines(items)
    }
}

/// The lines of a block, in the order of its fields; empty fields have none.
pub open spec fn spec_block_lines(block: HandoverView) -> Seq<Seq<char>> {
    seq!["<handover>"@] + spec_field_lines("original_intent: "@, block.original_intent)
        + spec_list_lines("completed:"@, block.completed) + spec_list_lines(
        "in_progress:"@,
        block.in_progress,
    ) + spec_list_lines("blocked_on:"@, block.blocked_on) + spec_field_lines(
        "next_step: "@,
        block.next_step,
    ) + spec_list_lines("files_touched:"@, block.files_touched) + spec_list_lines(
        "active_plans:"@,
        block.active_plans,
    ) + seq!["</handover>"@]
}

/// A block as text, empty where the block says nothing.
pub open spec fn spec_yaml_block(block: HandoverView) -> Seq<char> {
    if spec_block_is_empty(block) {
        seq![]
    } else {
        segments::spec_join(spec_block_lines(block), "\n"@)
    }
}

fn is_absent(s: &Option<String>) -> (r: bool)
    ensures
        r == spec_is_absent(s.deep_view()),
{
    match s {
        Some(t) => text::blank(t.as_str()),
        None => true,
    }
}

fn push_line(lines: &mut Vec<String>, line: &str)
    ensures
        final(lines).deep_view() == old(lines).deep_view() + seq![line@],
{
    let ghost before = lines.deep_view();
    lines.push(text::owned(line));
    assert(lines.deep_view() =~= before + seq![line@]);
}

fn push_field(lines: &mut Vec<String>, key: &str, value: &Option<String>)
    ensures
        final(lines).deep_view() == old(lines).deep_view() + spec_field_lines(
            key@,
            value.deep_view(),
        ),
{
    let ghost before = lines.deep_view();
    if let Some(t) = value {
        if !text::blank(t.as_str()) {
            let mut line = text::owned(key);
            line.append(escape_yaml_scalar(t.as_str()).as_str());
            push_line(lines, line.as_str());
            return;
        }
    }
    assert(before + spec_field_lines(key@, value.deep_view()) =~= before);
}

fn push_list(lines: &mut Vec<String>, key: &str, items: &Vec<String>)
    ensures
        final(lines).deep_view() == old(lines).deep_view() + spec_list_lines(
            key@,
            items.deep_view(),
        ),
{
    let ghost before = lines.deep_view();
    if items.len() == 0 {
        assert(before + spec_list_lines(key@, items.deep_view()) =~= before);
        return;
    }
    push_line(lines, key);
    let ghost start = lines.deep_view();
    let ghost all = items.deep_view();
    let mut i: usize = 0;
    assert(start + spec_item_lines(all.take(0)) =~= start);
    while i < items.len()
        invariant
            i <= items.len(),
            all == items.deep_view(),
            lines.deep_view() == start + spec_item_lines(all.take(i as int)),
        decreases items.len() - i,
    {
        let mut line = text::owned("  - ");
        line.append(escape_yaml_scalar(items[i].as_str()).as_str());
        assert(all[i as int] == items@[i as int]@);
        push_line(lines, line.as_str());
        assert(spec_item_lines(all.take(i + 1)) =~= spec_item_lines(all.take(i as int)) + seq![
            line@,
        ]);
        assert(lines.deep_view() =~= start + spec_item_lines(all.take(i + 1)));
        i = i + 1;
    }
    assert(all.take(all.len() as int) =~= all);
    assert(lines.deep_view() =~= before + spec_list_lines(key@, all));
}

impl Default for HandoverBlock {
    fn default() -> (r: HandoverBlock)
        ensures
            r@ == spec_default_block(),
    {
        let r = HandoverBlock {
            original_intent: None,
            completed: Vec::new(),
            in_progress: Vec::new(),
            blocked_on: Vec::new(),
            next_step: None,
            files_touched: Vec::new(),
            active_plans: Vec::new(),
        };
        assert(r.completed.deep_view() =~= seq![]);
        assert(r.in_progress.deep_view() =~= seq![]);
        assert(r.blocked_on.deep_view() =~= seq![]);
        assert(r.files_touched.deep_view() =~= seq![]);
        assert(r.active_plans.deep_view() =~= seq![]);
        r
    }
}

/// A block that says nothing.
pub open spec fn spec_default_block() -> HandoverView {
    HandoverView {
        original_intent: None,
        completed: seq![],
        in_progress: seq![],
        blocked_on: seq![],
        next_step: None,
        files_touched: seq![],
        active_plans: seq![],
    }
}

impl HandoverBlock {
    /// Renders the block between `<handover>` and `</handover>`, empty fields
    /// left out. Empty where the block says nothing.
    pub fn to_yaml_block(&self) -> (r: String)
        ensures
            r@ == spec_yaml_block(self@),
    {
        if self.is_empty() {
            let r = String::new();
            assert(r@ =~= seq![]);
            return r;
        }
        let mut lines: Vec<String> = Vec::new();
        assert(lines.deep_view() =~= seq![]);
        push_line(&mut lines, "<handover>");
        assert(lines.deep_view() =~= seq!["<handover>"@]);
        push_field(&mut lines, "original_intent: ", &self.original_intent);
        push_list(&mut lines, "completed:", &self.completed);
        push_list(&mut lines, "in_progress:", &self.in_progress);
        push_list(&mut lines, "blocked_on:", &self.blocked_on);
        push_field(&mut lines, "next_step: ", &self.next_step);
        push_list(&mut lines, "files_touched:", &self.files_touched);
        push_list(&mut lines, "active_plans:", &self.active_plans);
        push_line(&mut lines, "</handover>");
        segments::join_strings(&lines, "\n")
    }

    /// Whether every field is empty or absent.
    pub fn is_empty(&self) -> (r: bool)
        ensures
            r == spec_block_is_empty(self@),
    {
        is_absent(&self.original_intent) && self.completed.len() == 0 && self.in_progress.len() == 0
            && self.blocked_on.len() == 0 && is_absent(&self.next_step) && self.files_touched.len()
            == 0 && self.active_plans.len() == 0
    }
}

/// A prompt with the notes before it, as far as there are any.
pub open spec fn spec_prepend(prompt: Seq<char>, handover: Option<HandoverView>) -> Seq<char> {
    match handover {
        Some(block) => if spec_block_is_empty(block) {
            prompt
        } else {
            spec_yaml_block(block) + "\n\n"@ + prompt
        },
        None => prompt,
    }
}

/// Puts the notes before a prompt. Without notes the prompt stays as it is.
pub fn prepend_handover(prompt: &str, handover: Option<&HandoverBlock>) -> (r: String)
    ensures
        r@ == spec_prepend(prompt@, handover.deep_view()),
{
    match handover {
        Some(block) => if block.is_empty() {
            text::owned(prompt)
        } else {
            let mut r = block.to_yaml_block();
            r.append("\n\n");
            r.append(prompt);
            r
        },
        None => text::owned(prompt),
    }
}

// ---------------------------------------------------------------------------
// Notes from what is known anyway
// ---------------------------------------------------------------------------

/// The first `limit` characters of `s`, with a mark where more follow.
pub open spec fn spec_truncate(s: Seq<char>, limit: int) -> Seq<char> {
    if s.len() <= limit {
        s
    } else {
        s.take(limit) + "..."@
    }
}

/// Cuts `s` to its first `limit` characters and marks the cut.
pub fn truncate_to_chars(s: &str, limit: usize) -> (r: String)
    ensures
        r@ == spec_truncate(s@, limit as int),
{
    if s.unicode_len() <= limit {
        text::owned(s)
    } else {
        let mut r = text::owned(text::take(s, limit));
        r.append("...");
        r
    }
}

/// Notes made of the first and the last message and the active plans.
pub open spec fn spec_fallback(
    first: Option<Seq<char>>,
    last: Option<Seq<char>>,
    plans: Seq<Seq<char>>,
) -> HandoverView {
    HandoverView {
        original_intent: match text::spec_present(first) {
            Some(t) => Some(spec_truncate(text::spec_trim(t), 240)),
            None => None,
        },
        completed: seq![],
        in_progress: match text::spec_present(last) {
            Some(t) => seq![spec_truncate(text::spec_trim(t), 400)],
            None => seq![],
        },
        blocked_on: seq![],
        next_step: None,
        files_touched: seq![],
        active_plans: plans,
    }
}

/// Makes notes where the model gave none: the first message as the intent, the
/// last one as the work in progress, and the active plans.
pub fn synthesize_fallback(
    first_user_message: Option<&str>,
    last_assistant_message: Option<&str>,
    active_plan_paths: &[String],
) -> (r: HandoverBlock)
    ensures
        r@ == spec_fallback(
            first_user_message.deep_view(),
            last_assistant_message.deep_view(),
            active_plan_paths.deep_view(),
        ),
{
    let original_intent = match text::present(first_user_message) {
        Some(t) => Some(truncate_to_chars(text::trim(t), 240)),
        None => None,
    };
    let mut in_progress: Vec<String> = Vec::new();
    assert(in_progress.deep_view() =~= seq![]);
    if let Some(t) = text::present(last_assistant_message) {
        push_line(&mut in_progress, truncate_to_chars(text::trim(t), 400).as_str());
        assert(in_progress.deep_view() =~= seq![spec_truncate(text::spec_trim(t@), 400)]);
    }
    let r = HandoverBlock {
        original_intent,
        completed: Vec::new(),
        in_progress,
        blocked_on: Vec::new(),
        next_step: None,
        files_touched: Vec::new(),
        active_plans: segments::copied(active_plan_paths),
    };
    assert(r.completed.deep_view() =~= seq![]);
    assert(r.blocked_on.deep_view() =~= seq![]);
    assert(r.files_touched.deep_view() =~= seq![]);
    r
}

// ---------------------------------------------------------------------------
// Laws
// ---------------------------------------------------------------------------

/// A block that says something stands between its fences; one that says
/// nothing is no text at all.
pub proof fn law_block_is_fenced(block: HandoverView)
    ensures
        spec_yaml_block(block).len() == 0 <==> spec_block_is_empty(block),
        !spec_block_is_empty(block) ==> text::spec_starts_with(
            spec_yaml_block(block),
            "<handover>"@,
        ) && text::spec_ends_with(spec_yaml_block(block), "</handover>"@),
{
    reveal_strlit("<handover>");
    if !spec_block_is_empty(block) {
        let lines = spec_block_lines(block);
        assert(lines[0] == "<handover>"@);
        assert(lines.last() == "</handover>"@);
        segments::lemma_join_ends(lines, "\n"@);
    }
}

/// Notes never change the prompt they are put before: it stands at the end,
/// and it stands alone where the notes say nothing.
pub proof fn law_prompt_survives_handover(prompt: Seq<char>, handover: Option<HandoverView>)
    ensures
        text::spec_ends_with(spec_prepend(prompt, handover), prompt),
        handover is None ==> spec_prepend(prompt, handover) == prompt,
        handover matches Some(block) ==> (spec_block_is_empty(block) <==> spec_prepend(
            prompt,
            handover,
        ) == prompt),
{
    let r = spec_prepend(prompt, handover);
    assert(r.subrange(r.len() - prompt.len(), r.len() as int) =~= prompt);
    if let Some(block) = handover {
        law_block_is_fenced(block);
        if !spec_block_is_empty(block) {
            assert(r.len() > prompt.len());
        }
    }
}

/// What an escaped text stands for.
pub open spec fn spec_unescaped(s: Seq<char>) -> Seq<char>
    decreases s.len(),
{
    if s.len() == 0 {
        seq![]
    } else if s[0] == '\\' && s.len() > 1 {
        let c = if s[1] == 'n' {
            '\n'
        } else if s[1] == 'r' {
            '\r'
        } else if s[1] == 't' {
            '\t'
        } else {
            s[1]
        };
        seq![c] + spec_unescaped(s.skip(2))
    } else {
        seq![s[0]] + spec_unescaped(s.skip(1))
    }
}

proof fn lemma_escaped_from_front(s: Seq<char>)
    requires
        s.len() > 0,
    ensures
        spec_escaped(s) == spec_escaped_char(s[0]) + spec_escaped(s.skip(1)),
    decreases s.len(),
{
    if s.len() == 1 {
        assert(s.drop_last() =~= seq![]);
        assert(s.skip(1) =~= seq![]);
        assert(spec_escaped(s) =~= spec_escaped_char(s[0]) + spec_escaped(s.skip(1)));
    } else {
        lemma_escaped_from_front(s.drop_last());
        assert(s.drop_last().skip(1) =~= s.skip(1).drop_last());
        assert(spec_escaped(s) =~= spec_escaped_char(s[0]) + spec_escaped(s.skip(1)));
    }
}

/// Escaping loses nothing: the text can be read back.
pub proof fn law_escaped_text_reads_back(s: Seq<char>)
    ensures
        spec_unescaped(spec_escaped(s)) == s,
    decreases s.len(),
{
    if s.len() > 0 {
        lemma_escaped_from_front(s);
        law_escaped_text_reads_back(s.skip(1));
        let head = spec_escaped_char(s[0]);
        let rest = spec_escaped(s.skip(1));
        let e = head + rest;
        assert(e.skip(head.len() as int) =~= rest);
        assert(s =~= seq![s[0]] + s.skip(1));
    }
}

proof fn lemma_escaped_holds_no_newline(s: Seq<char>)
    ensures
        forall|j: int| 0 <= j < spec_escaped(s).len() ==> #[trigger] spec_escaped(s)[j] != '\n',
    decreases s.len(),
{
    if s.len() > 0 {
        let front = spec_escaped(s.drop_last());
        lemma_escaped_holds_no_newline(s.drop_last());
        assert forall|j: int| 0 <= j < spec_escaped(s).len() implies #[trigger] spec_escaped(s)[j]
            != '\n' by {
            if j < front.len() {
                assert(spec_escaped(s)[j] == front[j]);
            } else {
                assert(spec_escaped(s)[j] == spec_escaped_char(s.last())[j - front.len()]);
            }
        }
    }
}

/// A scalar stays on its line.
pub proof fn law_scalar_is_one_line(s: Seq<char>)
    ensures
        forall|j: int| 0 <= j < spec_scalar(s).len() ==> #[trigger] spec_scalar(s)[j] != '\n',
{
    reveal_strlit("\"");
    reveal_strlit("\n");
    let t = text::spec_trim(s);
    if spec_needs_quoting(s) {
        lemma_escaped_holds_no_newline(t);
    } else {
        assert forall|j: int| 0 <= j < t.len() implies #[trigger] t[j] != '\n' by {
            if t[j] == '\n' {
                assert(t.subrange(j, j + 1) =~= "\n"@);
                assert(text::occurs_at(t, "\n"@, j));
            }
        }
    }
}

/// An ambiguous text stands in double quotes, and they hold all of it but the
/// whitespace around it. Any other text stands as it is.
pub proof fn law_ambiguous_text_is_quoted(s: Seq<char>)
    ensures
        spec_needs_quoting(s) ==> {
            let scalar = spec_scalar(s);
            &&& scalar.len() >= 2
            &&& scalar[0] == '"'
            &&& scalar.last() == '"'
            &&& spec_unescaped(scalar.subrange(1, scalar.len() - 1)) == text::spec_trim(s)
        },
        !spec_needs_quoting(s) ==> spec_scalar(s) == s,
{
    reveal_strlit("\"");
    let t = text::spec_trim(s);
    law_escaped_text_reads_back(t);
    if spec_needs_quoting(s) {
        let scalar = spec_scalar(s);
        assert(scalar.subrange(1, scalar.len() - 1) =~= spec_escaped(t));
    }
}

/// Notes made of what is known say something exactly where something is known.
pub proof fn law_fallback_is_empty_iff_nothing_is_known(
    first: Option<Seq<char>>,
    last: Option<Seq<char>>,
    plans: Seq<Seq<char>>,
)
    ensures
        spec_block_is_empty(spec_fallback(first, last, plans)) <==> text::spec_present(first) is None
            && text::spec_present(last) is None && plans.len() == 0,
{
    if let Some(t) = text::spec_present(first) {
        let trimmed = text::spec_trim(t);
        let kept = spec_truncate(trimmed, 240);
        text::lemma_trimmed(t);
        assert(kept[0] == trimmed[0]);
        assert(text::spec_trim_start(kept) == kept);
        text::lemma_trim_keeps_first(kept);
    }
}

/// A text stands without quotes exactly where it reads back unharmed: it is
/// trimmed and not empty, holds no colon, line feed or quotation mark, and does
/// not start with a character that means something else there.
pub proof fn law_plain_text_stands_without_quotes(s: Seq<char>)
    ensures
        ({
            let c = s[0];
            let means_more = c == '-' || c == '[' || c == '{' || c == '#' || c == '&' || c == '*'
                || c == '!' || c == '|' || c == '>' || c == '@' || c == '`';
            let plain = s.len() > 0 && text::spec_trim(s) == s && !s.contains(':') && !s.contains(
                '\n',
            ) && !s.contains('"') && !means_more;
            &&& plain ==> spec_scalar(s) == s
            &&& !plain ==> spec_scalar(s) == seq!['"'] + spec_escaped(text::spec_trim(s)) + seq![
                '"',
            ]
        }),
{
    reveal_strlit(":");
    reveal_strlit("\n");
    reveal_strlit("\"");
    assert("\""@ =~= seq!['"']);
    let t = text::spec_trim(s);
    lemma_contains_char(t, ":"@, ':');
    lemma_contains_char(t, "\n"@, '\n');
    lemma_contains_char(t, "\""@, '"');
}

proof fn lemma_contains_char(s: Seq<char>, p: Seq<char>, c: char)
    requires
        p.len() == 1,
        p[0] == c,
    ensures
        text::spec_contains(s, p) <==> s.contains(c),
{
    if text::spec_contains(s, p) {
        let j = choose|j: int| text::occurs_at(s, p, j);
        assert(s.subrange(j, j + 1)[0] == s[j]);
    }
    if s.contains(c) {
        let j = choose|j: int| 0 <= j < s.len() && s[j] == c;
        assert(s.subrange(j, j + 1) =~= p);
        assert(text::occurs_at(s, p, j));
    }
}

/// A field is a line of its own where it says something, and nothing otherwise.
pub proof fn law_field_is_a_line_where_it_says_something(key: Seq<char>, value: Seq<char>)
    ensures
        spec_field_lines(key, None) == Seq::<Seq<char>>::empty(),
        text::is_blank(value) ==> spec_field_lines(key, Some(value)) == Seq::<Seq<char>>::empty(),
        !text::is_blank(value) ==> spec_field_lines(key, Some(value)) == seq![
            key + spec_scalar(value),
        ],
{
}

/// A list is its key and one line for each item, in their order, and nothing
/// where it is empty.
pub proof fn law_list_is_its_key_and_its_items(key: Seq<char>, items: Seq<Seq<char>>, i: int)
    ensures
        items.len() == 0 ==> spec_list_lines(key, items) == Seq::<Seq<char>>::empty(),
        items.len() > 0 ==> spec_list_lines(key, items).len() == items.len() + 1
            && spec_list_lines(key, items)[0] == key,
        0 <= i < items.len() ==> spec_list_lines(key, items)[i + 1] == "  - "@ + spec_scalar(
            items[i],
        ),
{
}

/// A block gives its fields in this order: the original intent, what is
/// completed, in progress and blocked, the next step, the files and the plans.
pub proof fn law_block_gives_its_fields_in_order(block: HandoverView)
    requires
        !spec_block_is_empty(block),
    ensures
        ({
            let lines = seq!["<handover>"@] + spec_field_lines(
                "original_intent: "@,
                block.original_intent,
            ) + spec_list_lines("completed:"@, block.completed) + spec_list_lines(
                "in_progress:"@,
                block.in_progress,
            ) + spec_list_lines("blocked_on:"@, block.blocked_on) + spec_field_lines(
                "next_step: "@,
                block.next_step,
            ) + spec_list_lines("files_touched:"@, block.files_touched) + spec_list_lines(
                "active_plans:"@,
                block.active_plans,
            ) + seq!["</handover>"@];
            spec_yaml_block(block) == segments::spec_join(lines, seq!['\n'])
        }),
{
    reveal_strlit("\n");
    assert("\n"@ =~= seq!['\n']);
}

/// A block is empty exactly where none of its fields says anything.
pub proof fn law_block_is_empty_where_no_field_speaks(block: HandoverView)
    ensures
        spec_block_is_empty(block) <==> {
            &&& block.original_intent matches Some(t) ==> text::is_blank(t)
            &&& block.next_step matches Some(t) ==> text::is_blank(t)
            &&& block.completed.len() == 0
            &&& block.in_progress.len() == 0
            &&& block.blocked_on.len() == 0
            &&& block.files_touched.len() == 0
            &&& block.active_plans.len() == 0
        },
{
}

/// Notes stand before the prompt, with a blank line between them.
pub proof fn law_notes_stand_before_the_prompt(prompt: Seq<char>, block: HandoverView)
    requires
        !spec_block_is_empty(block),
    ensures
        spec_prepend(prompt, Some(block)) == spec_yaml_block(block) + seq!['\n', '\n'] + prompt,
{
    reveal_strlit("\n\n");
    assert("\n\n"@ =~= seq!['\n', '\n']);
}

/// Notes that nobody wrote hold the beginning of the first message as intent, the
/// beginning of the last message as work in progress, and the plans.
pub proof fn law_fallback_notes_hold_how_the_messages_begin(
    first: Seq<char>,
    last: Seq<char>,
    plans: Seq<Seq<char>>,
)
    requires
        !text::is_blank(first),
        !text::is_blank(last),
    ensures
        ({
            let notes = spec_fallback(Some(first), Some(last), plans);
            let intent = text::spec_trim(first);
            let work = text::spec_trim(last);
            &&& notes.original_intent == Some(
                if intent.len() <= 240 {
                    intent
                } else {
                    intent.take(240) + "..."@
                },
            )
            &&& notes.in_progress == seq![
                if work.len() <= 400 {
                    work
                } else {
                    work.take(400) + "..."@
                },
            ]
            &&& notes.active_plans == plans
            &&& notes.completed.len() == 0 && notes.blocked_on.len() == 0
                && notes.files_touched.len() == 0 && notes.next_step is None
        }),
{
}

/// What is not known is left out of such notes.
pub proof fn law_fallback_notes_leave_out_what_is_not_known(
    message: Option<Seq<char>>,
    plans: Seq<Seq<char>>,
)
    ensures
        spec_fallback(None, message, plans).original_intent is None,
        spec_fallback(message, None, plans).in_progress.len() == 0,
{
}

} // verus!
