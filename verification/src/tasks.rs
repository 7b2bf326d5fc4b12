//! Task lists in Markdown: which checkboxes stand for work that is left.

use vstd::prelude::*;
use crate::segments;
use crate::text;

verus! {

/// One of the words that mark an unchecked item as not to be done stands in
/// the lowercase text `lower`.
pub open spec fn spec_has_skip_marker(lower: Seq<char>) -> bool {
    ||| text::spec_contains(lower, "deferred"@)
    ||| text::spec_contains(lower, "⏸️"@)
    ||| text::spec_contains(lower, "— deferred"@)
    ||| text::spec_contains(lower, "- deferred"@)
    ||| text::spec_contains(lower, "~~"@)
    ||| text::spec_contains(lower, "skipped"@)
    ||| text::spec_contains(lower, "cancelled"@)
    ||| text::spec_contains(lower, "n/a"@)
    ||| text::spec_contains(lower, "won't fix"@)
    ||| text::spec_contains(lower, "wontfix"@)
    ||| text::spec_contains(lower, "not planned"@)
    ||| text::spec_contains(lower, "out of scope"@)
}

/// Whether a lowercase item is marked as not to be done.
pub fn has_skip_marker(lower: &str) -> (r: bool)
    ensures
        r == spec_has_skip_marker(lower@),
{
    text::contains(lower, "deferred") || text::contains(lower, "⏸️") || text::contains(
        lower,
        "— deferred",
    ) || text::contains(lower, "- deferred") || text::contains(lower, "~~") || text::contains(
        lower,
        "skipped",
    ) || text::contains(lower, "cancelled") || text::contains(lower, "n/a") || text::contains(
        lower,
        "won't fix",
    ) || text::contains(lower, "wontfix") || text::contains(lower, "not planned")
        || text::contains(lower, "out of scope")
}

/// One of the words that mark a section as not to be worked on stands in the
/// lowercase heading `lower`.
pub open spec fn spec_is_skipped_section(lower: Seq<char>) -> bool {
    ||| text::spec_contains(lower, "out of scope"@)
    ||| text::spec_contains(lower, "deferred"@)
    ||| text::spec_contains(lower, "future"@)
    ||| text::spec_contains(lower, "backlog"@)
    ||| text::spec_contains(lower, "wishlist"@)
}

/// Whether a lowercase heading marks its section as not to be worked on.
pub fn is_skipped_section(lower: &str) -> (r: bool)
    ensures
        r == spec_is_skipped_section(lower@),
{
    text::contains(lower, "out of scope") || text::contains(lower, "deferred") || text::contains(
        lower,
        "future",
    ) || text::contains(lower, "backlog") || text::contains(lower, "wishlist")
}

/// An unchecked checkbox opens the text.
pub open spec fn spec_opens_checkbox(trimmed: Seq<char>) -> bool {
    text::spec_starts_with(trimmed, "- [ ] "@) || text::spec_starts_with(trimmed, "* [ ] "@)
}

/// Whether a line is actionable, from the line without its indentation and the
/// lowercase form of that.
pub open spec fn spec_is_actionable_lowered(trimmed: Seq<char>, lower: Seq<char>) -> bool {
    spec_opens_checkbox(trimmed) && !spec_has_skip_marker(lower)
}

/// Whether a line without indentation is actionable, given its lowercase form.
pub fn is_actionable_lowered(trimmed: &str, lower: &str) -> (r: bool)
    ensures
        r == spec_is_actionable_lowered(trimmed@, lower@),
{
    (text::starts_with(trimmed, "- [ ] ") || text::starts_with(trimmed, "* [ ] "))
        && !has_skip_marker(lower)
}

/// The line is an unchecked checkbox (`- [ ]` or `* [ ]`) without a skip marker.
pub open spec fn spec_is_actionable_checkbox(line: Seq<char>) -> bool {
    spec_is_actionable_lowered(
        text::spec_trim_start(line),
        text::lowercase(text::spec_trim_start(line)),
    )
}

/// Whether the line is an unchecked checkbox (`- [ ]` or `* [ ]`) without a
/// skip marker.
pub fn is_actionable_checkbox(line: &str) -> (r: bool)
    ensures
        r == spec_is_actionable_checkbox(line@),
{
    let trimmed = text::trim_start(line);
    let lower = text::to_lowercase(trimmed);
    is_actionable_lowered(trimmed, lower.as_str())
}

/// What the lines before a given one decide about it.
pub struct ScanState {
    /// Inside a fenced code block.
    pub in_code_block: bool,
    /// Under a heading whose items are not to be done.
    pub skip_section: bool,
}

/// The state after one more line.
pub open spec fn spec_scan_step(state: ScanState, line: Seq<char>) -> ScanState {
    let t = text::spec_trim_start(line);
    if text::spec_starts_with(t, "```"@) {
        ScanState { in_code_block: !state.in_code_block, ..state }
    } else if state.in_code_block {
        state
    } else if text::spec_starts_with(t, "## "@) {
        ScanState { skip_section: spec_is_skipped_section(text::lowercase(t)), ..state }
    } else if text::spec_starts_with(t, "# "@) {
        ScanState { skip_section: false, ..state }
    } else {
        state
    }
}

/// The line counts as a task, in the given state.
pub open spec fn spec_counts(state: ScanState, line: Seq<char>) -> bool {
    let t = text::spec_trim_start(line);
    &&& !text::spec_starts_with(t, "```"@)
    &&& !state.in_code_block
    &&& !text::spec_starts_with(t, "## "@)
    &&& !text::spec_starts_with(t, "# "@)
    &&& !state.skip_section
    &&& spec_is_actionable_checkbox(line)
}

/// The state before the first line.
pub open spec fn spec_scan_start() -> ScanState {
    ScanState { in_code_block: false, skip_section: false }
}

/// The state after all of `lines`.
pub open spec fn spec_scan(lines: Seq<Seq<char>>) -> ScanState
    decreases lines.len(),
{
    if lines.len() == 0 {
        spec_scan_start()
    } else {
        spec_scan_step(spec_scan(lines.drop_last()), lines.last())
    }
}

/// The number of lines that count as tasks.
pub open spec fn spec_count_tasks(lines: Seq<Seq<char>>) -> nat
    decreases lines.len(),
{
    if lines.len() == 0 {
        0
    } else {
        spec_count_tasks(lines.drop_last()) + if spec_counts(
            spec_scan(lines.drop_last()),
            lines.last(),
        ) {
            1nat
        } else {
            0nat
        }
    }
}

/// The number of actionable tasks in a plan: unchecked checkboxes outside code
/// blocks and outside sections that are out of scope or deferred.
pub open spec fn spec_actionable_tasks(content: Seq<char>) -> nat {
    spec_count_tasks(segments::spec_lines(content))
}

proof fn lemma_count_grows(lines: Seq<Seq<char>>, k: int)
    requires
        0 <= k <= lines.len(),
    ensures
        spec_count_tasks(lines.take(k)) <= spec_count_tasks(lines),
    decreases lines.len(),
{
    if k == lines.len() {
        assert(lines.take(k) =~= lines);
    } else {
        lemma_count_grows(lines.drop_last(), k);
        assert(lines.drop_last().take(k) =~= lines.take(k));
    }
}

/// One step of the scan: the state after `line`, and whether it is a task.
fn scan_line(state: &ScanState, line: &str) -> (r: (ScanState, bool))
    ensures
        r.0 == spec_scan_step(*state, line@),
        r.1 == spec_counts(*state, line@),
{
    let trimmed = text::trim_start(line);
    if text::starts_with(trimmed, "```") {
        return (
            ScanState {
                in_code_block: !state.in_code_block,
                skip_section: state.skip_section,
            },
            false,
        );
    }
    if state.in_code_block {
        return (
            ScanState { in_code_block: state.in_code_block, skip_section: state.skip_section },
            false,
        );
    }
    if text::starts_with(trimmed, "## ") {
        let lower = text::to_lowercase(trimmed);
        return (
            ScanState {
                in_code_block: state.in_code_block,
                skip_section: is_skipped_section(lower.as_str()),
            },
            false,
        );
    }
    if text::starts_with(trimmed, "# ") {
        return (ScanState { in_code_block: state.in_code_block, skip_section: false }, false);
    }
    let counts = !state.skip_section && is_actionable_checkbox(line);
    (ScanState { in_code_block: state.in_code_block, skip_section: state.skip_section }, counts)
}

/// Counts the actionable tasks of a plan.
pub fn count_actionable_tasks(content: &str) -> (count: usize)
    ensures
        count == spec_actionable_tasks(content@),
{
    let all = segments::lines(content);
    let ghost views = segments::spec_lines(content@);
    let mut state = ScanState { in_code_block: false, skip_section: false };
    let mut count: usize = 0;
    let mut i: usize = 0;
    assert(views.take(0) =~= seq![]);
    while i < all.len()
        invariant
            i <= all.len(),
            all.deep_view() == views,
            views == segments::spec_lines(content@),
            count <= i,
            state == spec_scan(views.take(i as int)),
            count == spec_count_tasks(views.take(i as int)),
        decreases all.len() - i,
    {
        assert(views[i as int] == all@[i as int]@);
        assert(views.take(i + 1).drop_last() =~= views.take(i as int));
        let (next, counts) = scan_line(&state, all[i]);
        if counts {
            count = count + 1;
        }
        state = next;
        i = i + 1;
    }
    assert(views.take(views.len() as int) =~= views);
    count
}

/// Whether a plan has actionable tasks left.
pub fn has_unchecked_items(content: &str) -> (r: bool)
    ensures
        r == (spec_actionable_tasks(content@) > 0),
{
    let all = segments::lines(content);
    let ghost views = segments::spec_lines(content@);
    let mut state = ScanState { in_code_block: false, skip_section: false };
    let mut i: usize = 0;
    assert(views.take(0) =~= seq![]);
    while i < all.len()
        invariant
            i <= all.len(),
            all.deep_view() == views,
            views == segments::spec_lines(content@),
            state == spec_scan(views.take(i as int)),
            spec_count_tasks(views.take(i as int)) == 0,
        decreases all.len() - i,
    {
        assert(views[i as int] == all@[i as int]@);
        assert(views.take(i + 1).drop_last() =~= views.take(i as int));
        let (next, counts) = scan_line(&state, all[i]);
        if counts {
            proof {
                lemma_count_grows(views, i + 1);
            }
            return true;
        }
        state = next;
        i = i + 1;
    }
    assert(views.take(views.len() as int) =~= views);
    false
}

/// The title among `lines`: what follows `# ` on the first line that has it.
pub open spec fn spec_title_of(lines: Seq<Seq<char>>) -> Seq<char>
    decreases lines.len(),
{
    if lines.len() == 0 {
        seq![]
    } else {
        match text::spec_strip_prefix(text::spec_trim_start(lines[0]), "# "@) {
            Some(title) => title,
            None => spec_title_of(lines.skip(1)),
        }
    }
}

/// Extracts the plan title from the first `# ` heading; empty without one.
pub fn extract_plan_title(content: &str) -> (r: String)
    ensures
        r@ == spec_title_of(segments::spec_lines(content@)),
{
    let all = segments::lines(content);
    let ghost views = segments::spec_lines(content@);
    let mut i: usize = 0;
    assert(views.skip(0) =~= views);
    while i < all.len()
        invariant
            i <= all.len(),
            all.deep_view() == views,
            views == segments::spec_lines(content@),
            spec_title_of(views) == spec_title_of(views.skip(i as int)),
        decreases all.len() - i,
    {
        assert(views.skip(i as int)[0] == all@[i as int]@);
        match text::strip_prefix(text::trim_start(all[i]), "# ") {
            Some(title) => {
                return text::owned(title);
            },
            None => {},
        }
        assert(views.skip(i as int).skip(1) =~= views.skip(i + 1));
        i = i + 1;
    }
    String::new()
}

/// An actionable checkbox among `lines`, outside code blocks.
pub open spec fn spec_open_checkbox(lines: Seq<Seq<char>>, in_code_block: bool) -> bool
    decreases lines.len(),
{
    if lines.len() == 0 {
        false
    } else {
        let t = text::spec_trim_start(lines[0]);
        if text::spec_starts_with(t, "```"@) {
            spec_open_checkbox(lines.skip(1), !in_code_block)
        } else {
            (!in_code_block && spec_is_actionable_checkbox(t)) || spec_open_checkbox(
                lines.skip(1),
                in_code_block,
            )
        }
    }
}

/// Whether a plan has an actionable checkbox outside code blocks, whatever
/// section it stands in.
pub fn has_open_checkbox(content: &str) -> (r: bool)
    ensures
        r == spec_open_checkbox(segments::spec_lines(content@), false),
{
    let all = segments::lines(content);
    let ghost views = segments::spec_lines(content@);
    let mut in_code_block = false;
    let mut i: usize = 0;
    assert(views.skip(0) =~= views);
    while i < all.len()
        invariant
            i <= all.len(),
            all.deep_view() == views,
            views == segments::spec_lines(content@),
            spec_open_checkbox(views, false) == spec_open_checkbox(
                views.skip(i as int),
                in_code_block,
            ),
        decreases all.len() - i,
    {
        assert(views.skip(i as int)[0] == all@[i as int]@);
        assert(views.skip(i as int).skip(1) =~= views.skip(i + 1));
        let trimmed = text::trim_start(all[i]);
        if text::starts_with(trimmed, "```") {
            in_code_block = !in_code_block;
        } else if !in_code_block && is_actionable_checkbox(trimmed) {
            return true;
        }
        i = i + 1;
    }
    false
}

// ---------------------------------------------------------------------------
// Laws
// ---------------------------------------------------------------------------

/// A struck, skipped or deferred item never counts as a task, nor does
/// anything in a code block or in a section that is out of scope or deferred.
pub proof fn law_only_open_items_count(state: ScanState, line: Seq<char>)
    requires
        state.in_code_block || state.skip_section || spec_has_skip_marker(
            text::lowercase(text::spec_trim_start(line)),
        ) || !spec_opens_checkbox(text::spec_trim_start(line)),
    ensures
        !spec_counts(state, line),
{
}

/// A further line never takes a task away.
pub proof fn law_more_lines_never_hide_tasks(lines: Seq<Seq<char>>, line: Seq<char>)
    ensures
        spec_count_tasks(lines) <= spec_count_tasks(lines.push(line)) <= spec_count_tasks(lines) + 1,
{
    assert(lines.push(line).drop_last() =~= lines);
}

/// A line that starts or ends a code block.
pub open spec fn spec_is_fence(line: Seq<char>) -> bool {
    text::spec_starts_with(text::spec_trim_start(line), "```"@)
}

/// The place behind the first `i` of `lines` is outside any code block: the
/// fences before it come in pairs.
pub open spec fn spec_outside_code(lines: Seq<Seq<char>>, i: int) -> bool {
    lines.take(i).filter(|line: Seq<char>| spec_is_fence(line)).len() % 2 == 0
}

/// Line `i` is a heading of the first or second level, outside any code block.
pub open spec fn spec_is_heading_at(lines: Seq<Seq<char>>, i: int) -> bool {
    &&& 0 <= i < lines.len()
    &&& spec_outside_code(lines, i)
    &&& text::spec_starts_with(text::spec_trim_start(lines[i]), "# "@) || text::spec_starts_with(
        text::spec_trim_start(lines[i]),
        "## "@,
    )
}

/// The last heading before line `n` opens a section of work that is put off.
pub open spec fn spec_in_skipped_section(lines: Seq<Seq<char>>, n: int) -> bool {
    exists|i: int|
        {
            let lower = text::lowercase(text::spec_trim_start(lines[i]));
            &&& i < n
            &&& #[trigger] spec_is_heading_at(lines, i)
            &&& text::spec_starts_with(text::spec_trim_start(lines[i]), "## "@)
            &&& text::spec_contains(lower, "out of scope"@) || text::spec_contains(
                lower,
                "deferred"@,
            ) || text::spec_contains(lower, "future"@) || text::spec_contains(lower, "backlog"@)
                || text::spec_contains(lower, "wishlist"@)
            &&& forall|j: int| i < j < n ==> !#[trigger] spec_is_heading_at(lines, j)
        }
}

/// A checkbox that is not ticked, on a line without a word that puts it off.
pub open spec fn spec_is_open_item(line: Seq<char>) -> bool {
    let t = text::spec_trim_start(line);
    let lower = text::lowercase(t);
    &&& text::spec_starts_with(t, "- [ ] "@) || text::spec_starts_with(t, "* [ ] "@)
    &&& !text::spec_contains(lower, "deferred"@)
    &&& !text::spec_contains(lower, "⏸️"@)
    &&& !text::spec_contains(lower, "~~"@)
    &&& !text::spec_contains(lower, "skipped"@)
    &&& !text::spec_contains(lower, "cancelled"@)
    &&& !text::spec_contains(lower, "n/a"@)
    &&& !text::spec_contains(lower, "won't fix"@)
    &&& !text::spec_contains(lower, "wontfix"@)
    &&& !text::spec_contains(lower, "not planned"@)
    &&& !text::spec_contains(lower, "out of scope"@)
}

proof fn lemma_longer_marker(s: Seq<char>)
    ensures
        text::spec_contains(s, "— deferred"@) ==> text::spec_contains(s, "deferred"@),
        text::spec_contains(s, "- deferred"@) ==> text::spec_contains(s, "deferred"@),
{
    reveal_strlit("deferred");
    reveal_strlit("— deferred");
    reveal_strlit("- deferred");
    let short = "deferred"@;
    if text::spec_contains(s, "— deferred"@) {
        let j = choose|j: int| text::occurs_at(s, "— deferred"@, j);
        assert("— deferred"@.subrange(2, 10) =~= short);
        assert(s.subrange(j + 2, j + 10) =~= s.subrange(j, j + 10).subrange(2, 10));
        assert(text::occurs_at(s, short, j + 2));
    }
    if text::spec_contains(s, "- deferred"@) {
        let j = choose|j: int| text::occurs_at(s, "- deferred"@, j);
        assert("- deferred"@.subrange(2, 10) =~= short);
        assert(s.subrange(j + 2, j + 10) =~= s.subrange(j, j + 10).subrange(2, 10));
        assert(text::occurs_at(s, short, j + 2));
    }
}

/// A line asks for work exactly where it is a checkbox that is not ticked and
/// no word on it puts it off.
pub proof fn law_open_items_ask_for_work(line: Seq<char>)
    ensures
        spec_is_actionable_checkbox(line) <==> spec_is_open_item(line),
{
    lemma_longer_marker(text::lowercase(text::spec_trim_start(line)));
}

proof fn lemma_starts_differ(line: Seq<char>)
    ensures
        ({
            let t = text::spec_trim_start(line);
            let is_box = text::spec_starts_with(t, "- [ ] "@) || text::spec_starts_with(
                t,
                "* [ ] "@,
            );
            let is_head = text::spec_starts_with(t, "# "@) || text::spec_starts_with(t, "## "@);
            &&& spec_is_fence(line) ==> !is_box && !is_head
            &&& is_box ==> !is_head
            &&& text::spec_starts_with(t, "# "@) ==> !text::spec_starts_with(t, "## "@)
        }),
{
    reveal_strlit("```");
    reveal_strlit("- [ ] ");
    reveal_strlit("* [ ] ");
    reveal_strlit("# ");
    reveal_strlit("## ");
    let t = text::spec_trim_start(line);
    if text::spec_starts_with(t, "```"@) {
        assert(t.subrange(0, 3)[0] == t[0]);
    }
    if text::spec_starts_with(t, "- [ ] "@) {
        assert(t.subrange(0, 6)[0] == t[0]);
    }
    if text::spec_starts_with(t, "* [ ] "@) {
        assert(t.subrange(0, 6)[0] == t[0]);
    }
    if text::spec_starts_with(t, "# "@) {
        assert(t.subrange(0, 2)[0] == t[0]);
        assert(t.subrange(0, 2)[1] == t[1]);
    }
    if text::spec_starts_with(t, "## "@) {
        assert(t.subrange(0, 3)[0] == t[0]);
        assert(t.subrange(0, 3)[1] == t[1]);
    }
}

/// What the scan has found out behind `lines`.
proof fn lemma_scan(lines: Seq<Seq<char>>)
    ensures
        spec_scan(lines).in_code_block == !spec_outside_code(lines, lines.len() as int),
        spec_scan(lines).skip_section == spec_in_skipped_section(lines, lines.len() as int),
    decreases lines.len(),
{
    let n = lines.len() as int;
    let fence = |line: Seq<char>| spec_is_fence(line);
    reveal(Seq::filter);
    assert(lines.take(n) =~= lines);
    if n > 0 {
        let front = lines.drop_last();
        let line = lines.last();
        lemma_scan(front);
        lemma_starts_differ(line);
        assert(front.take(n - 1) =~= front);
        assert(lines.take(n - 1) =~= front);
        assert forall|j: int| 0 <= j < n - 1 implies spec_is_heading_at(front, j)
            == #[trigger] spec_is_heading_at(lines, j) by {
            assert(front.take(j) =~= lines.take(j));
        }
        assert(spec_outside_code(front, n - 1) == spec_outside_code(lines, n - 1));
        let t = text::spec_trim_start(line);
        let lower = text::lowercase(t);
        if spec_is_heading_at(lines, n - 1) {
            assert(lines[n - 1] == line);
            if spec_is_skipped_section(lower) && text::spec_starts_with(t, "## "@) {
                assert(spec_in_skipped_section(lines, n));
            } else {
                assert(!spec_in_skipped_section(lines, n));
            }
        } else {
            if spec_in_skipped_section(front, n - 1) {
                let i = choose|i: int|
                    {
                        let lower = text::lowercase(text::spec_trim_start(front[i]));
                        &&& i < n - 1
                        &&& #[trigger] spec_is_heading_at(front, i)
                        &&& text::spec_starts_with(text::spec_trim_start(front[i]), "## "@)
                        &&& text::spec_contains(lower, "out of scope"@) || text::spec_contains(
                            lower,
                            "deferred"@,
                        ) || text::spec_contains(lower, "future"@) || text::spec_contains(
                            lower,
                            "backlog"@,
                        ) || text::spec_contains(lower, "wishlist"@)
                        &&& forall|j: int|
                            i < j < n - 1 ==> !#[trigger] spec_is_heading_at(front, j)
                    };
                assert(spec_is_heading_at(lines, i));
                assert(lines[i] == front[i]);
                assert(spec_in_skipped_section(lines, n));
            }
            if spec_in_skipped_section(lines, n) {
                let i = choose|i: int|
                    {
                        let lower = text::lowercase(text::spec_trim_start(lines[i]));
                        &&& i < n
                        &&& #[trigger] spec_is_heading_at(lines, i)
                        &&& text::spec_starts_with(text::spec_trim_start(lines[i]), "## "@)
                        &&& text::spec_contains(lower, "out of scope"@) || text::spec_contains(
                            lower,
                            "deferred"@,
                        ) || text::spec_contains(lower, "future"@) || text::spec_contains(
                            lower,
                            "backlog"@,
                        ) || text::spec_contains(lower, "wishlist"@)
                        &&& forall|j: int| i < j < n ==> !#[trigger] spec_is_heading_at(lines, j)
                    };
                assert(spec_is_heading_at(front, i));
                assert(lines[i] == front[i]);
                assert forall|j: int| i < j < n - 1 implies !#[trigger] spec_is_heading_at(
                    front,
                    j,
                ) by {
                    assert(!spec_is_heading_at(lines, j));
                }
                assert(spec_in_skipped_section(front, n - 1));
            }
        }
    }
}

/// An open item counts exactly where it stands outside any code block and
/// outside a section of work that is put off; no other line counts.
pub proof fn law_items_count_by_where_they_stand(lines: Seq<Seq<char>>, line: Seq<char>)
    ensures
        spec_count_tasks(seq![]) == 0,
        spec_count_tasks(lines.push(line)) == spec_count_tasks(lines) + if spec_is_open_item(line)
            && spec_outside_code(lines, lines.len() as int) && !spec_in_skipped_section(
            lines,
            lines.len() as int,
        ) {
            1nat
        } else {
            0nat
        },
{
    assert(lines.push(line).drop_last() =~= lines);
    lemma_scan(lines);
    lemma_starts_differ(line);
    law_open_items_ask_for_work(line);
}

/// The tasks of a plan are those of its lines, however the last line ends.
pub proof fn law_tasks_are_those_of_the_lines(lines: Seq<Seq<char>>)
    requires
        lines.len() > 0,
        forall|k: int| 0 <= k < lines.len() ==> segments::spec_is_line(#[trigger] lines[k]),
    ensures
        spec_actionable_tasks(segments::spec_join(lines, seq!['\n']) + seq!['\n'])
            == spec_count_tasks(lines),
        lines.last().len() > 0 ==> spec_actionable_tasks(segments::spec_join(lines, seq!['\n']))
            == spec_count_tasks(lines),
{
    segments::law_lines_are_read_back(lines);
}

/// The title stands behind the first heading of the first level; without one it
/// is empty.
pub proof fn law_title_is_behind_the_first_heading(lines: Seq<Seq<char>>, k: int)
    requires
        0 <= k <= lines.len(),
        forall|j: int|
            0 <= j < k ==> !text::spec_starts_with(
                text::spec_trim_start(#[trigger] lines[j]),
                "# "@,
            ),
        k < lines.len() ==> text::spec_starts_with(text::spec_trim_start(lines[k]), "# "@),
    ensures
        k < lines.len() ==> spec_title_of(lines) == text::spec_trim_start(lines[k]).skip(2),
        k == lines.len() ==> spec_title_of(lines) == Seq::<char>::empty(),
    decreases k,
{
    reveal_strlit("# ");
    if k > 0 {
        let rest = lines.skip(1);
        assert forall|j: int| 0 <= j < k - 1 implies !text::spec_starts_with(
            text::spec_trim_start(#[trigger] rest[j]),
            "# "@,
        ) by {
            assert(rest[j] == lines[j + 1]);
        }
        assert(!text::spec_starts_with(text::spec_trim_start(lines[0]), "# "@));
        law_title_is_behind_the_first_heading(rest, k - 1);
    }
}

proof fn lemma_open_checkbox(before: Seq<Seq<char>>, lines: Seq<Seq<char>>)
    ensures
        spec_open_checkbox(lines, !spec_outside_code(before, before.len() as int)) <==> (exists|
            i: int,
        |
            before.len() <= i < before.len() + lines.len() && spec_outside_code(before + lines, i)
                && spec_is_open_item(#[trigger] (before + lines)[i])),
    decreases lines.len(),
{
    let n = before.len() as int;
    let all = before + lines;
    assert(before.take(n) =~= before);
    if lines.len() > 0 {
        let line = lines[0];
        let next = before.push(line);
        let rest = lines.skip(1);
        assert(next + rest =~= all);
        lemma_open_checkbox(next, rest);
        lemma_starts_differ(line);
        law_open_items_ask_for_work(line);
        text::lemma_trim_start_twice(line);
        assert(text::spec_trim_start(text::spec_trim_start(line)) == text::spec_trim_start(line));
        assert(all[n] == line);
        assert(all.take(n) =~= before);
        assert(next.take(n + 1) =~= next);
        assert(next.drop_last() =~= before);
        reveal(Seq::filter);
        assert(spec_outside_code(next, n + 1) == (spec_is_fence(line) != spec_outside_code(
            before,
            n,
        )));
        if spec_open_checkbox(lines, !spec_outside_code(before, n)) {
            if !spec_is_fence(line) && spec_outside_code(before, n) && spec_is_open_item(line) {
                assert(spec_outside_code(all, n) && spec_is_open_item(all[n]));
            } else {
                let i = choose|i: int|
                    n + 1 <= i < n + 1 + rest.len() && spec_outside_code(next + rest, i)
                        && spec_is_open_item(#[trigger] (next + rest)[i]);
                assert(spec_outside_code(all, i) && spec_is_open_item(all[i]));
            }
        }
        if exists|i: int|
            n <= i < n + lines.len() && spec_outside_code(all, i) && spec_is_open_item(
                #[trigger] all[i],
            ) {
            let i = choose|i: int|
                n <= i < n + lines.len() && spec_outside_code(all, i) && spec_is_open_item(
                    #[trigger] all[i],
                );
            if i > n {
                assert(spec_outside_code(next + rest, i) && spec_is_open_item((next + rest)[i]));
            }
        }
    }
}

/// A plan has an open checkbox exactly where one of its lines outside any code
/// block is an open item, whatever its section.
pub proof fn law_open_checkbox_is_an_open_item(lines: Seq<Seq<char>>)
    ensures
        spec_open_checkbox(lines, false) <==> (exists|i: int|
            0 <= i < lines.len() && spec_outside_code(lines, i) && spec_is_open_item(
                #[trigger] lines[i],
            )),
{
    let none = Seq::<Seq<char>>::empty();
    assert(none + lines =~= lines);
    lemma_open_checkbox(none, lines);
    reveal(Seq::filter);
    assert(none.take(0) =~= none);
    assert(spec_outside_code(none, 0));
}

/// A text has unchecked items exactly where a task is left in it.
pub proof fn law_unchecked_items_are_tasks(content: &str, r: bool)
    requires
        call_ensures(has_unchecked_items, (content,), r),
    ensures
        r <==> spec_count_tasks(segments::spec_lines(content@)) >= 1,
{
}

} // verus!
