//! Shortening old messages in place until a context fits its budget.
//!
//! Finished tool calls are reduced to one line of metadata first, then long
//! assistant messages are cut. Messages of the user, plans and the newest
//! messages are never touched.

use vstd::prelude::*;
use vstd::utf8::*;
use crate::config::CompactionConfig;
use crate::context;
use crate::context::{
    AutoPromptContext, CompactionEntry, CompactionStrategy, ContextMessage, ContextMessageRole,
    EntryView, MessageView,
};
use crate::segments;
use crate::text;

verus! {

/// The number of log entries that a context keeps; older ones leave first.
pub const MAX_COMPACTION_LOG_ENTRIES: usize = 50;

/// The number of characters that an assistant message is cut to.
pub const ASSISTANT_TRUNCATE_BYTES: usize = 200;

/// What one run did.
#[derive(Clone, Copy, Debug, PartialEq, Eq, Structural)]
pub struct CompactionStats {
    /// The number of messages that were shortened.
    pub messages_compacted: usize,
    /// The number of bytes that this saved.
    pub bytes_reclaimed: usize,
    /// The estimated number of tokens afterwards.
    pub resulting_token_count: usize,
    pub strategy_breakdown: StrategyBreakdown,
}

/// The number of shortened messages by strategy.
#[derive(Clone, Copy, Debug, PartialEq, Eq, Structural)]
pub struct StrategyBreakdown {
    pub tool_call_metadata: usize,
    pub assistant_truncated: usize,
    pub assistant_llm_abstracted: usize,
}

impl Default for StrategyBreakdown {
    fn default() -> (r: StrategyBreakdown)
        ensures
            r == (StrategyBreakdown {
                tool_call_metadata: 0,
                assistant_truncated: 0,
                assistant_llm_abstracted: 0,
            }),
    {
        StrategyBreakdown {
            tool_call_metadata: 0,
            assistant_truncated: 0,
            assistant_llm_abstracted: 0,
        }
    }
}

impl Default for CompactionStats {
    fn default() -> (r: CompactionStats)
        ensures
            r.messages_compacted == 0,
            r.bytes_reclaimed == 0,
            r.resulting_token_count == 0,
            r.strategy_breakdown == (StrategyBreakdown {
                tool_call_metadata: 0,
                assistant_truncated: 0,
                assistant_llm_abstracted: 0,
            }),
    {
        CompactionStats {
            messages_compacted: 0,
            bytes_reclaimed: 0,
            resulting_token_count: 0,
            strategy_breakdown: StrategyBreakdown {
                tool_call_metadata: 0,
                assistant_truncated: 0,
                assistant_llm_abstracted: 0,
            },
        }
    }
}

// ---------------------------------------------------------------------------
// Summaries of one message
// ---------------------------------------------------------------------------

/// Label and status of a line `[Tool: label (status)]`. A line of another
/// shape is its own label.
pub open spec fn spec_tool_label(line: Seq<char>) -> (Seq<char>, Seq<char>) {
    let inner = text::spec_trim(
        text::spec_trim_end_char(text::spec_trim_start_char(line, '['), ']'),
    );
    match text::spec_strip_prefix(inner, "Tool:"@) {
        Some(rest) => {
            let rest = text::spec_trim(rest);
            match text::spec_rfind(rest, " ("@) {
                Some(i) => (
                    text::spec_trim(rest.take(i)),
                    text::spec_trim_end_char(rest.skip(i + 2), ')'),
                ),
                None => (rest, "unknown"@),
            }
        },
        None => (line, "unknown"@),
    }
}

/// Reads label and status out of a line `[Tool: label (status)]`.
pub fn parse_tool_label_line(line: &str) -> (r: (String, String))
    ensures
        (r.0@, r.1@) == spec_tool_label(line@),
{
    proof {
        reveal_strlit(" (");
    }
    let inner = text::trim(text::trim_end_char(text::trim_start_char(line, '['), ']'));
    match text::strip_prefix(inner, "Tool:") {
        Some(rest) => {
            let rest = text::trim(rest);
            match text::rfind(rest, " (") {
                Some(i) => {
                    let total: usize = rest.unicode_len();
                    assert(i + 2 <= total);
                    let label = text::trim(text::take(rest, i));
                    let status = text::trim_end_char(text::skip(rest, i + 2), ')');
                    (text::owned(label), text::owned(status))
                },
                None => (text::owned(rest), text::owned("unknown")),
            }
        },
        None => (text::owned(line), text::owned("unknown")),
    }
}

/// A whole header `[Tool: label (status)]` of a call that is not finished.
pub open spec fn spec_is_unfinished_header(line: Seq<char>) -> bool {
    &&& text::spec_starts_with(line, "[Tool:"@)
    &&& text::spec_ends_with(line, ")]"@)
    &&& spec_tool_label(line).1 != "completed"@
    &&& spec_tool_label(line).1 != "failed"@
}

fn is_unfinished_header(line: &str) -> (r: bool)
    ensures
        r == spec_is_unfinished_header(line@),
{
    if text::starts_with(line, "[Tool:") && text::ends_with(line, ")]") {
        let (_label, status) = parse_tool_label_line(line);
        !text::str_eq(status.as_str(), "completed") && !text::str_eq(status.as_str(), "failed")
    } else {
        false
    }
}

/// The tool call has come to an end: it is marked as completed or failed. A
/// summary is no call, and a call whose header says otherwise is not finished
/// whatever its output says.
pub open spec fn spec_is_terminal(content: Seq<char>) -> bool {
    &&& text::spec_contains(content, "(completed)"@) || text::spec_contains(content, "(failed)"@)
    &&& !text::spec_starts_with(content, "[compacted:Tool "@)
    &&& !spec_is_unfinished_header(text::spec_trim(segments::spec_first_line(content)))
}

/// Whether a serialized tool call has come to an end. A call that is still
/// pending may change.
pub fn is_terminal_tool_call(content: &str) -> (r: bool)
    ensures
        r == spec_is_terminal(content@),
{
    (text::contains(content, "(completed)") || text::contains(content, "(failed)"))
        && !text::starts_with(content, "[compacted:Tool ") && !is_unfinished_header(
        text::trim(first_line(content)),
    )
}

fn first_line(content: &str) -> (r: &str)
    ensures
        r@ == segments::spec_first_line(content@),
{
    let lines = segments::lines(content);
    let ghost views = segments::spec_lines(content@);
    if lines.len() > 0 {
        assert(views[0] == lines@[0]@);
        return lines[0];
    }
    let none = "";
    proof {
        reveal_strlit("");
        assert(none@ =~= seq![]);
    }
    none
}

/// The first `limit` characters of `s`.
pub open spec fn spec_truncate(s: Seq<char>, limit: int) -> Seq<char> {
    if s.len() <= limit {
        s
    } else {
        s.take(limit)
    }
}

/// Cuts `s` to its first `limit` characters.
pub fn truncate_to_chars(s: &str, limit: usize) -> (r: String)
    ensures
        r@ == spec_truncate(s@, limit as int),
{
    if s.unicode_len() <= limit {
        text::owned(s)
    } else {
        text::owned(text::take(s, limit))
    }
}

/// The input of a tool call on one of `lines`: what follows `Input:` or
/// `cmd:`. Empty without one.
pub open spec fn spec_arg_hint(lines: Seq<Seq<char>>) -> Seq<char>
    decreases lines.len(),
{
    if lines.len() == 0 {
        seq![]
    } else {
        let line = text::spec_trim(lines[0]);
        match text::spec_strip_prefix(line, "Input:"@) {
            Some(rest) => text::spec_trim(rest),
            None => match text::spec_strip_prefix(line, "cmd:"@) {
                Some(rest) => text::spec_trim(rest),
                None => spec_arg_hint(lines.skip(1)),
            },
        }
    }
}

fn arg_hint<'a>(lines: &Vec<&'a str>, from: usize) -> (r: &'a str)
    requires
        from <= lines@.len(),
    ensures
        r@ == spec_arg_hint(lines.deep_view().skip(from as int)),
{
    let ghost views = lines.deep_view();
    let mut i: usize = from;
    while i < lines.len()
        invariant
            from <= i <= lines.len(),
            views == lines.deep_view(),
            spec_arg_hint(views.skip(from as int)) == spec_arg_hint(views.skip(i as int)),
        decreases lines.len() - i,
    {
        assert(views.skip(i as int)[0] == lines@[i as int]@);
        assert(views.skip(i as int).skip(1) =~= views.skip(i + 1));
        let line = text::trim(lines[i]);
        if let Some(rest) = text::strip_prefix(line, "Input:") {
            return text::trim(rest);
        }
        if let Some(rest) = text::strip_prefix(line, "cmd:") {
            return text::trim(rest);
        }
        i = i + 1;
    }
    let none = "";
    proof {
        reveal_strlit("");
        assert(none@ =~= seq![]);
    }
    none
}

/// The lines of a text without the first one.
pub open spec fn spec_later_lines(s: Seq<char>) -> Seq<Seq<char>> {
    let lines = segments::spec_lines(s);
    if lines.len() > 0 {
        lines.skip(1)
    } else {
        lines
    }
}

/// A tool call as one line: its label, its status and the start of its input.
pub open spec fn spec_summarize_tool_call(content: Seq<char>) -> Seq<char> {
    let label = spec_tool_label(text::spec_trim(segments::spec_first_line(content)));
    "[compacted:Tool "@ + label.0 + " status="@ + label.1 + " args=\""@ + spec_truncate(
        spec_arg_hint(spec_later_lines(content)),
        80,
    ) + "\"]"@
}

/// Reduces a serialized tool call to one line of metadata.
pub fn summarize_tool_call(content: &str) -> (r: String)
    ensures
        r@ == spec_summarize_tool_call(content@),
{
    let lines = segments::lines(content);
    let ghost views = segments::spec_lines(content@);
    let mut first = "";
    proof {
        reveal_strlit("");
        assert(first@ =~= seq![]);
    }
    let mut from: usize = 0;
    assert(views.skip(0) =~= views);
    if lines.len() > 0 {
        first = lines[0];
        assert(views[0] == first@);
        from = 1;
    }
    let (label, status) = parse_tool_label_line(text::trim(first));
    let hint = arg_hint(&lines, from);
    let short = truncate_to_chars(hint, 80);
    let mut r = text::owned("[compacted:Tool ");
    r.append(label.as_str());
    r.append(" status=");
    r.append(status.as_str());
    r.append(" args=\"");
    r.append(short.as_str());
    r.append("\"]");
    r
}

/// A message cut to `limit` characters, with a mark that it was cut.
pub open spec fn spec_truncate_assistant(content: Seq<char>, limit: int) -> Seq<char> {
    let trimmed = text::spec_trim(content);
    if trimmed.len() <= limit {
        trimmed
    } else {
        trimmed.take(limit) + " [...]"@
    }
}

/// Cuts an assistant message to `limit` characters and marks it as cut.
pub fn truncate_assistant(content: &str, limit: usize) -> (r: String)
    ensures
        r@ == spec_truncate_assistant(content@, limit as int),
{
    let trimmed = text::trim(content);
    if trimmed.unicode_len() <= limit {
        text::owned(trimmed)
    } else {
        let mut r = text::owned(text::take(trimmed, limit));
        r.append(" [...]");
        r
    }
}

/// The summary of a message by a strategy.
pub open spec fn spec_summary(content: Seq<char>, strategy: CompactionStrategy) -> Seq<char> {
    match strategy {
        CompactionStrategy::ToolCallMetadata => spec_summarize_tool_call(content),
        _ => spec_truncate_assistant(content, 200),
    }
}

/// The strategy that is followed where another one is asked for.
pub open spec fn spec_used_strategy(strategy: CompactionStrategy) -> CompactionStrategy {
    match strategy {
        CompactionStrategy::ToolCallMetadata => CompactionStrategy::ToolCallMetadata,
        _ => CompactionStrategy::AssistantTruncated,
    }
}

/// Summarizes one message. A summary by a model is not available: the message
/// is cut instead.
pub fn summarize_message(msg: &ContextMessage, strategy: CompactionStrategy) -> (r: (
    String,
    CompactionStrategy,
))
    ensures
        r.0@ == spec_summary(msg@.content, strategy),
        r.1 == spec_used_strategy(strategy),
{
    match strategy {
        CompactionStrategy::ToolCallMetadata => (
            summarize_tool_call(msg.content.as_str()),
            CompactionStrategy::ToolCallMetadata,
        ),
        CompactionStrategy::AssistantTruncated => (
            truncate_assistant(msg.content.as_str(), ASSISTANT_TRUNCATE_BYTES),
            CompactionStrategy::AssistantTruncated,
        ),
        CompactionStrategy::AssistantLlmAbstracted => (
            truncate_assistant(msg.content.as_str(), ASSISTANT_TRUNCATE_BYTES),
            CompactionStrategy::AssistantTruncated,
        ),
    }
}

/// The name of a role in the log.
pub open spec fn spec_role_name(role: ContextMessageRole) -> Seq<char> {
    match role {
        ContextMessageRole::User => "user"@,
        ContextMessageRole::Assistant => "assistant"@,
        ContextMessageRole::Tool => "tool"@,
        ContextMessageRole::Plan => "plan"@,
    }
}

/// The name of a role in the log.
pub fn role_name(role: &ContextMessageRole) -> (r: &'static str)
    ensures
        r@ == spec_role_name(*role),
{
    match role {
        ContextMessageRole::User => "user",
        ContextMessageRole::Assistant => "assistant",
        ContextMessageRole::Tool => "tool",
        ContextMessageRole::Plan => "plan",
    }
}

// ---------------------------------------------------------------------------
// Which message is next
// ---------------------------------------------------------------------------

/// A tool message to be reduced: a finished call.
pub open spec fn spec_is_reducible(msg: MessageView) -> bool {
    msg.role == ContextMessageRole::Tool && spec_is_terminal(msg.content)
}

/// An assistant message to be cut: a long one that was not cut yet and that
/// cutting changes.
pub open spec fn spec_is_cuttable(msg: MessageView) -> bool {
    &&& msg.role == ContextMessageRole::Assistant
    &&& encode_utf8(msg.content).len() > 200
    &&& !text::spec_ends_with(text::spec_trim_end(msg.content), "[...]"@)
    &&& spec_truncate_assistant(msg.content, 200) != msg.content
}

fn is_reducible(msg: &ContextMessage) -> (r: bool)
    ensures
        r == spec_is_reducible(msg@),
{
    match msg.role {
        ContextMessageRole::Tool => is_terminal_tool_call(msg.content.as_str()),
        _ => false,
    }
}

fn is_cuttable(msg: &ContextMessage) -> (r: bool)
    ensures
        r == spec_is_cuttable(msg@),
{
    match msg.role {
        ContextMessageRole::Assistant => {
            let content = msg.content.as_str();
            if text::byte_len(content) > ASSISTANT_TRUNCATE_BYTES && !text::ends_with(
                text::trim_end(content),
                "[...]",
            ) {
                let cut = truncate_assistant(content, ASSISTANT_TRUNCATE_BYTES);
                !text::str_eq(cut.as_str(), content)
            } else {
                false
            }
        },
        _ => false,
    }
}

/// The number of messages before the newest `keep_recent` ones.
pub open spec fn spec_old_count(len: nat, keep_recent: nat) -> int {
    if len > keep_recent {
        len - keep_recent
    } else {
        0
    }
}

/// The first message from `i` on and before `n` that is to be reduced.
pub open spec fn spec_first_reducible(messages: Seq<MessageView>, i: int, n: int) -> Option<int>
    decreases n - i,
{
    if i >= n {
        None
    } else if spec_is_reducible(messages[i]) {
        Some(i)
    } else {
        spec_first_reducible(messages, i + 1, n)
    }
}

/// The first message from `i` on and before `n` that is to be cut.
pub open spec fn spec_first_cuttable(messages: Seq<MessageView>, i: int, n: int) -> Option<int>
    decreases n - i,
{
    if i >= n {
        None
    } else if spec_is_cuttable(messages[i]) {
        Some(i)
    } else {
        spec_first_cuttable(messages, i + 1, n)
    }
}

/// The next message to shorten among the first `n`, and how: the oldest tool
/// call that is to be reduced, else the oldest assistant message that is to be
/// cut.
pub open spec fn spec_next(messages: Seq<MessageView>, n: int) -> Option<
    (int, CompactionStrategy),
> {
    match spec_first_reducible(messages, 0, n) {
        Some(i) => Some((i, CompactionStrategy::ToolCallMetadata)),
        None => match spec_first_cuttable(messages, 0, n) {
            Some(i) => Some((i, CompactionStrategy::AssistantTruncated)),
            None => None,
        },
    }
}

/// Finds the next message to shorten. The newest `preserve_last_n` messages,
/// messages of the user and plans are never chosen.
pub fn next_compactable_index(messages: &Vec<ContextMessage>, preserve_last_n: usize) -> (r: Option<
    (usize, CompactionStrategy),
>)
    ensures
        match r {
            Some(found) => spec_next(
                messages.deep_view(),
                spec_old_count(messages@.len(), preserve_last_n as nat),
            ) == Some((found.0 as int, found.1)) && found.0 < messages@.len(),
            None => spec_next(
                messages.deep_view(),
                spec_old_count(messages@.len(), preserve_last_n as nat),
            ) is None,
        },
{
    let n: usize = if messages.len() > preserve_last_n {
        messages.len() - preserve_last_n
    } else {
        0
    };
    let ghost all = messages.deep_view();
    let mut i: usize = 0;
    while i < n
        invariant
            i <= n <= messages.len(),
            n == spec_old_count(messages@.len(), preserve_last_n as nat),
            all == messages.deep_view(),
            spec_first_reducible(all, 0, n as int) == spec_first_reducible(
                all,
                i as int,
                n as int,
            ),
        decreases n - i,
    {
        assert(all[i as int] == messages@[i as int]@);
        if is_reducible(&messages[i]) {
            return Some((i, CompactionStrategy::ToolCallMetadata));
        }
        i = i + 1;
    }
    let mut i: usize = 0;
    while i < n
        invariant
            i <= n <= messages.len(),
            n == spec_old_count(messages@.len(), preserve_last_n as nat),
            all == messages.deep_view(),
            spec_first_reducible(all, 0, n as int) is None,
            spec_first_cuttable(all, 0, n as int) == spec_first_cuttable(all, i as int, n as int),
        decreases n - i,
    {
        assert(all[i as int] == messages@[i as int]@);
        if is_cuttable(&messages[i]) {
            return Some((i, CompactionStrategy::AssistantTruncated));
        }
        i = i + 1;
    }
    None
}

// ---------------------------------------------------------------------------
// A shortened message is not chosen again
// ---------------------------------------------------------------------------

spec fn holds_no_newline(s: Seq<char>) -> bool {
    forall|j: int| 0 <= j < s.len() ==> s[j] != '\n'
}

proof fn lemma_trims_hold_no_newline(s: Seq<char>, c: char)
    requires
        holds_no_newline(s),
    ensures
        holds_no_newline(text::spec_trim_start(s)),
        holds_no_newline(text::spec_trim_end(s)),
        holds_no_newline(text::spec_trim_start_char(s, c)),
        holds_no_newline(text::spec_trim_end_char(s, c)),
    decreases s.len(),
{
    if s.len() > 0 {
        assert(holds_no_newline(s.skip(1)));
        assert(holds_no_newline(s.drop_last()));
        lemma_trims_hold_no_newline(s.skip(1), c);
        lemma_trims_hold_no_newline(s.drop_last(), c);
    }
}

proof fn lemma_trim_holds_no_newline(s: Seq<char>)
    requires
        holds_no_newline(s),
    ensures
        holds_no_newline(text::spec_trim(s)),
{
    lemma_trims_hold_no_newline(s, ' ');
    lemma_trims_hold_no_newline(text::spec_trim_start(s), ' ');
}

proof fn lemma_label_holds_no_newline(line: Seq<char>)
    requires
        holds_no_newline(line),
    ensures
        holds_no_newline(spec_tool_label(line).0),
        holds_no_newline(spec_tool_label(line).1),
{
    reveal_strlit("unknown");
    reveal_strlit(" (");
    lemma_trims_hold_no_newline(line, '[');
    lemma_trims_hold_no_newline(text::spec_trim_start_char(line, '['), ']');
    lemma_trim_holds_no_newline(
        text::spec_trim_end_char(text::spec_trim_start_char(line, '['), ']'),
    );
    let inner = text::spec_trim(
        text::spec_trim_end_char(text::spec_trim_start_char(line, '['), ']'),
    );
    if let Some(rest) = text::spec_strip_prefix(inner, "Tool:"@) {
        assert(holds_no_newline(rest));
        lemma_trim_holds_no_newline(rest);
        let rest = text::spec_trim(rest);
        if let Some(i) = text::spec_rfind(rest, " ("@) {
            text::lemma_rfind_from(rest, " ("@, rest.len() - " ("@.len());
            assert(holds_no_newline(rest.take(i)));
            assert(holds_no_newline(rest.skip(i + 2)));
            lemma_trim_holds_no_newline(rest.take(i));
            lemma_trims_hold_no_newline(rest.skip(i + 2), ')');
        }
    }
}

proof fn lemma_hint_holds_no_newline(lines: Seq<Seq<char>>)
    requires
        forall|i: int| 0 <= i < lines.len() ==> holds_no_newline(#[trigger] lines[i]),
    ensures
        holds_no_newline(spec_arg_hint(lines)),
    decreases lines.len(),
{
    if lines.len() > 0 {
        lemma_trim_holds_no_newline(lines[0]);
        let line = text::spec_trim(lines[0]);
        if let Some(rest) = text::spec_strip_prefix(line, "Input:"@) {
            assert(holds_no_newline(rest));
            lemma_trim_holds_no_newline(rest);
        } else if let Some(rest) = text::spec_strip_prefix(line, "cmd:"@) {
            assert(holds_no_newline(rest));
            lemma_trim_holds_no_newline(rest);
        } else {
            assert forall|i: int| 0 <= i < lines.skip(1).len() implies holds_no_newline(
                #[trigger] lines.skip(1)[i],
            ) by {
                assert(lines.skip(1)[i] == lines[i + 1]);
            }
            lemma_hint_holds_no_newline(lines.skip(1));
        }
    }
}

/// A summary of a tool call is a single line.
proof fn lemma_summary_is_one_line(content: Seq<char>)
    ensures
        holds_no_newline(spec_summarize_tool_call(content)),
{
    reveal_strlit("[compacted:Tool ");
    reveal_strlit(" status=");
    reveal_strlit(" args=\"");
    reveal_strlit("\"]");
    let lines = segments::spec_lines(content);
    segments::lemma_lines_hold_no_newline(content);
    assert forall|i: int| 0 <= i < lines.len() implies holds_no_newline(#[trigger] lines[i]) by {
        assert forall|j: int| 0 <= j < lines[i].len() implies lines[i][j] != '\n' by {
            assert(segments::spec_lines(content)[i][j] != '\n');
        }
    }
    let first = segments::spec_first_line(content);
    assert(holds_no_newline(first));
    lemma_trim_holds_no_newline(first);
    lemma_label_holds_no_newline(text::spec_trim(first));
    let later = spec_later_lines(content);
    assert forall|i: int| 0 <= i < later.len() implies holds_no_newline(#[trigger] later[i]) by {
        if lines.len() > 0 {
            assert(later[i] == lines[i + 1]);
        }
    }
    lemma_hint_holds_no_newline(later);
}

/// A summary of a tool call is not itself a finished call.
proof fn lemma_summary_is_not_terminal(content: Seq<char>)
    ensures
        !spec_is_terminal(spec_summarize_tool_call(content)),
{
    let s = spec_summarize_tool_call(content);
    let head = "[compacted:Tool "@;
    assert(s.subrange(0, head.len() as int) =~= head);
}

/// A cut assistant message is not cut again.
proof fn lemma_cut_is_final(content: Seq<char>)
    ensures
        ({
            let cut = spec_truncate_assistant(content, 200);
            text::spec_ends_with(text::spec_trim_end(cut), "[...]"@) || spec_truncate_assistant(
                cut,
                200,
            ) == cut
        }),
{
    reveal_strlit(" [...]");
    reveal_strlit("[...]");
    let trimmed = text::spec_trim(content);
    let cut = spec_truncate_assistant(content, 200);
    text::lemma_trimmed(content);
    if trimmed.len() > 200 {
        assert(cut.last() == ']');
        assert(text::spec_trim_end(cut) == cut);
        assert(cut.subrange(cut.len() - 5, cut.len() as int) =~= "[...]"@);
    }
}

/// The number of the first `n` messages that are to be shortened.
pub open spec fn spec_eligible(messages: Seq<MessageView>, n: int) -> nat
    decreases n,
{
    if n <= 0 {
        0
    } else {
        spec_eligible(messages, n - 1) + if spec_is_reducible(messages[n - 1]) || spec_is_cuttable(
            messages[n - 1],
        ) {
            1nat
        } else {
            0nat
        }
    }
}

proof fn lemma_eligible_bound(messages: Seq<MessageView>, n: int)
    ensures
        spec_eligible(messages, n) <= if n > 0 {
            n
        } else {
            0
        },
    decreases n,
{
    if n > 0 {
        lemma_eligible_bound(messages, n - 1);
    }
}

proof fn lemma_eligible_after_update(messages: Seq<MessageView>, n: int, i: int, msg: MessageView)
    requires
        n <= messages.len(),
        0 <= i < messages.len(),
        spec_is_reducible(messages[i]) || spec_is_cuttable(messages[i]),
        !spec_is_reducible(msg),
        !spec_is_cuttable(msg),
    ensures
        i < n ==> spec_eligible(messages.update(i, msg), n) + 1 == spec_eligible(messages, n),
        i >= n ==> spec_eligible(messages.update(i, msg), n) == spec_eligible(messages, n),
    decreases n,
{
    if n > 0 {
        lemma_eligible_after_update(messages, n - 1, i, msg);
    }
}

proof fn lemma_next(messages: Seq<MessageView>, n: int)
    requires
        n <= messages.len(),
    ensures
        match spec_next(messages, n) {
            Some((i, strategy)) => 0 <= i < n && match strategy {
                CompactionStrategy::ToolCallMetadata => spec_is_reducible(messages[i]),
                CompactionStrategy::AssistantTruncated => spec_is_cuttable(messages[i]),
                CompactionStrategy::AssistantLlmAbstracted => false,
            },
            None => spec_eligible(messages, n) == 0,
        },
{
    lemma_first_reducible(messages, 0, n);
    lemma_first_cuttable(messages, 0, n);
    if spec_next(messages, n) is None {
        lemma_none_eligible(messages, n, n);
    }
}

proof fn lemma_first_reducible(messages: Seq<MessageView>, i: int, n: int)
    ensures
        match spec_first_reducible(messages, i, n) {
            Some(k) => i <= k < n && spec_is_reducible(messages[k]),
            None => forall|j: int| i <= j < n ==> !spec_is_reducible(#[trigger] messages[j]),
        },
    decreases n - i,
{
    if i < n && !spec_is_reducible(messages[i]) {
        lemma_first_reducible(messages, i + 1, n);
    }
}

proof fn lemma_first_cuttable(messages: Seq<MessageView>, i: int, n: int)
    ensures
        match spec_first_cuttable(messages, i, n) {
            Some(k) => i <= k < n && spec_is_cuttable(messages[k]),
            None => forall|j: int| i <= j < n ==> !spec_is_cuttable(#[trigger] messages[j]),
        },
    decreases n - i,
{
    if i < n && !spec_is_cuttable(messages[i]) {
        lemma_first_cuttable(messages, i + 1, n);
    }
}

proof fn lemma_none_eligible(messages: Seq<MessageView>, n: int, k: int)
    requires
        k <= n,
        forall|j: int| 0 <= j < n ==> !spec_is_reducible(#[trigger] messages[j]),
        forall|j: int| 0 <= j < n ==> !spec_is_cuttable(#[trigger] messages[j]),
    ensures
        spec_eligible(messages, k) == 0,
    decreases k,
{
    if k > 0 {
        lemma_none_eligible(messages, n, k - 1);
        assert(!spec_is_reducible(messages[k - 1]));
        assert(!spec_is_cuttable(messages[k - 1]));
    }
}

/// The message at `i` shortened by `strategy`.
pub open spec fn spec_shortened(msg: MessageView, strategy: CompactionStrategy) -> MessageView {
    MessageView { role: msg.role, content: spec_summary(msg.content, strategy) }
}

proof fn lemma_shortened_is_final(msg: MessageView, strategy: CompactionStrategy)
    requires
        match strategy {
            CompactionStrategy::ToolCallMetadata => spec_is_reducible(msg),
            CompactionStrategy::AssistantTruncated => spec_is_cuttable(msg),
            CompactionStrategy::AssistantLlmAbstracted => false,
        },
    ensures
        !spec_is_reducible(spec_shortened(msg, strategy)),
        !spec_is_cuttable(spec_shortened(msg, strategy)),
{
    lemma_summary_is_not_terminal(msg.content);
    lemma_cut_is_final(msg.content);
}

// ---------------------------------------------------------------------------
// The run
// ---------------------------------------------------------------------------

/// The log with one more entry, the oldest one dropped where it is full.
pub open spec fn spec_push_log(log: Seq<EntryView>, entry: EntryView) -> Seq<EntryView> {
    if log.len() >= 50 {
        log.skip(1).push(entry)
    } else {
        log.push(entry)
    }
}

/// Adds an entry to the log, dropping the oldest one where it is full.
pub fn push_compaction_log(log: &mut Vec<CompactionEntry>, entry: CompactionEntry)
    ensures
        final(log).deep_view() == spec_push_log(old(log).deep_view(), entry@),
{
    let ghost start = log.deep_view();
    if log.len() >= MAX_COMPACTION_LOG_ENTRIES {
        log.remove(0);
        assert(log.deep_view() =~= start.skip(1));
    }
    let ghost before = log.deep_view();
    log.push(entry);
    assert(log.deep_view() =~= before.push(entry@));
}

/// Where a run stands: the messages, the log, and what was done so far.
#[verifier::ext_equal]
pub struct Progress {
    pub messages: Seq<MessageView>,
    pub log: Seq<EntryView>,
    pub reduced: nat,
    pub cut: nat,
    pub reclaimed: nat,
}

/// The bytes saved by replacing one text by another, none where it is longer.
pub open spec fn spec_saved(original: Seq<char>, summary: Seq<char>) -> nat {
    if encode_utf8(original).len() > encode_utf8(summary).len() {
        (encode_utf8(original).len() - encode_utf8(summary).len()) as nat
    } else {
        0
    }
}

/// One step of a run: message `i` is shortened, and that is logged.
pub open spec fn spec_step(p: Progress, i: int, strategy: CompactionStrategy) -> Progress {
    let msg = p.messages[i];
    let summary = spec_summary(msg.content, strategy);
    let is_tool = strategy == CompactionStrategy::ToolCallMetadata;
    Progress {
        messages: p.messages.update(i, spec_shortened(msg, strategy)),
        log: spec_push_log(
            p.log,
            EntryView {
                message_index: i,
                role: spec_role_name(msg.role),
                original_bytes: encode_utf8(msg.content).len() as int,
                summary_bytes: encode_utf8(summary).len() as int,
                strategy,
            },
        ),
        reduced: p.reduced + if is_tool {
            1nat
        } else {
            0nat
        },
        cut: p.cut + if is_tool {
            0nat
        } else {
            1nat
        },
        reclaimed: p.reclaimed + spec_saved(msg.content, summary),
    }
}

/// A whole run: as long as the messages are over `target` tokens and one of
/// the first `n` can be shortened, the next one is.
pub open spec fn spec_run(p: Progress, target: nat, n: int) -> Progress
    decreases spec_eligible(p.messages, n),
    when n <= p.messages.len()
    via run_ends
{
    if context::spec_estimate_tokens(p.messages) <= target {
        p
    } else {
        match spec_next(p.messages, n) {
            Some((i, strategy)) => spec_run(spec_step(p, i, strategy), target, n),
            None => p,
        }
    }
}

#[via_fn]
proof fn run_ends(p: Progress, target: nat, n: int) {
    lemma_step_counts(p, n);
}

proof fn lemma_step_counts(p: Progress, n: int)
    requires
        n <= p.messages.len(),
    ensures
        spec_next(p.messages, n) matches Some((i, strategy)) ==> {
            &&& 0 <= i < n
            &&& spec_step(p, i, strategy).messages.len() == p.messages.len()
            &&& spec_eligible(spec_step(p, i, strategy).messages, n) + 1 == spec_eligible(
                p.messages,
                n,
            )
        },
{
    lemma_next(p.messages, n);
    if let Some((i, strategy)) = spec_next(p.messages, n) {
        lemma_shortened_is_final(p.messages[i], strategy);
        lemma_eligible_after_update(
            p.messages,
            n,
            i,
            spec_shortened(p.messages[i], strategy),
        );
    }
}

/// Where a run on a context starts.
pub open spec fn spec_start(messages: Seq<MessageView>, log: Seq<EntryView>) -> Progress {
    Progress { messages, log, reduced: 0, cut: 0, reclaimed: 0 }
}

/// What a run leaves of a context with these messages and this log.
pub open spec fn spec_compacted(
    messages: Seq<MessageView>,
    log: Seq<EntryView>,
    target: nat,
    keep_recent: nat,
) -> Progress {
    spec_run(
        spec_start(messages, log),
        target,
        spec_old_count(messages.len(), keep_recent),
    )
}

fn saturating_sum(a: usize, b: usize, Ghost(total): Ghost<nat>) -> (r: usize)
    requires
        a == context::spec_saturated(total),
    ensures
        r == context::spec_saturated(total + b as nat),
{
    if a <= usize::MAX - b {
        a + b
    } else {
        usize::MAX
    }
}

/// Shortens old messages of `ctx` in place until the estimated number of
/// tokens is at most `target_token_budget` or no message is left that may be
/// shortened.
pub fn compact_old_messages(
    ctx: &mut AutoPromptContext,
    target_token_budget: usize,
    policy: &CompactionConfig,
) -> (stats: CompactionStats)
    ensures
        ({
            let done = spec_compacted(
                old(ctx).messages.deep_view(),
                old(ctx).compaction_log.deep_view(),
                target_token_budget as nat,
                policy.keep_recent as nat,
            );
            let tokens = context::spec_estimate_tokens(done.messages);
            &&& final(ctx).messages.deep_view() == done.messages
            &&& final(ctx).compaction_log.deep_view() == done.log
            &&& final(ctx).was_truncated == (done.log.len() > 0)
            &&& final(ctx).approximate_token_count == tokens
            &&& stats.messages_compacted == done.reduced + done.cut
            &&& stats.bytes_reclaimed == context::spec_saturated(done.reclaimed)
            &&& stats.resulting_token_count == tokens
            &&& stats.strategy_breakdown.tool_call_metadata == done.reduced
            &&& stats.strategy_breakdown.assistant_truncated == done.cut
            &&& stats.strategy_breakdown.assistant_llm_abstracted == 0
        }),
        final(ctx).current_datetime == old(ctx).current_datetime,
        final(ctx).current_paths == old(ctx).current_paths,
        final(ctx).session_id == old(ctx).session_id,
        final(ctx).title == old(ctx).title,
        final(ctx).used_tools == old(ctx).used_tools,
        final(ctx).entry_count == old(ctx).entry_count,
        final(ctx).current_plan == old(ctx).current_plan,
        final(ctx).plan_files == old(ctx).plan_files,
        final(ctx).doc_files == old(ctx).doc_files,
        final(ctx).stop_reason == old(ctx).stop_reason,
        final(ctx).had_error == old(ctx).had_error,
        final(ctx).actual_input_tokens == old(ctx).actual_input_tokens,
        final(ctx).iteration_count == old(ctx).iteration_count,
        final(ctx).stop_phase == old(ctx).stop_phase,
        final(ctx).verification_count == old(ctx).verification_count,
        final(ctx).fork_imminent == old(ctx).fork_imminent,
        final(ctx).plan_has_checkboxes == old(ctx).plan_has_checkboxes,
        final(ctx).first_plan_filename == old(ctx).first_plan_filename,
        final(ctx).plan_number == old(ctx).plan_number,
        final(ctx).first_user_message == old(ctx).first_user_message,
        final(ctx).last_assistant_message == old(ctx).last_assistant_message,
{
    let mut reduced: usize = 0;
    let mut cut: usize = 0;
    let mut reclaimed: usize = 0;
    let ghost target = target_token_budget as nat;
    let ghost n = spec_old_count(ctx.messages@.len(), policy.keep_recent as nat);
    let ghost mut p = spec_start(ctx.messages.deep_view(), ctx.compaction_log.deep_view());
    let ghost done = spec_run(p, target, n);
    let ghost initial = spec_eligible(p.messages, n);
    proof {
        lemma_eligible_bound(p.messages, n);
    }
    let total: usize = ctx.messages.len();
    loop
        invariant
            target == target_token_budget,
            ctx.messages@.len() == total,
            n == spec_old_count(total as nat, policy.keep_recent as nat),
            p.messages == ctx.messages.deep_view(),
            p.log == ctx.compaction_log.deep_view(),
            p.reduced == reduced,
            p.cut == cut,
            reclaimed == context::spec_saturated(p.reclaimed),
            done == spec_run(p, target, n),
            initial <= total,
            reduced + cut + spec_eligible(p.messages, n) == initial,
            ctx.current_datetime == old(ctx).current_datetime,
            ctx.current_paths == old(ctx).current_paths,
            ctx.session_id == old(ctx).session_id,
            ctx.title == old(ctx).title,
            ctx.used_tools == old(ctx).used_tools,
            ctx.entry_count == old(ctx).entry_count,
            ctx.current_plan == old(ctx).current_plan,
            ctx.plan_files == old(ctx).plan_files,
            ctx.doc_files == old(ctx).doc_files,
            ctx.stop_reason == old(ctx).stop_reason,
            ctx.had_error == old(ctx).had_error,
            ctx.actual_input_tokens == old(ctx).actual_input_tokens,
            ctx.iteration_count == old(ctx).iteration_count,
            ctx.stop_phase == old(ctx).stop_phase,
            ctx.verification_count == old(ctx).verification_count,
            ctx.fork_imminent == old(ctx).fork_imminent,
            ctx.plan_has_checkboxes == old(ctx).plan_has_checkboxes,
            ctx.first_plan_filename == old(ctx).first_plan_filename,
            ctx.plan_number == old(ctx).plan_number,
            ctx.first_user_message == old(ctx).first_user_message,
            ctx.last_assistant_message == old(ctx).last_assistant_message,
        ensures
            p == done,
            p.messages == ctx.messages.deep_view(),
            p.log == ctx.compaction_log.deep_view(),
            p.reduced == reduced,
            p.cut == cut,
            reclaimed == context::spec_saturated(p.reclaimed),
            reduced + cut <= total,
        decreases spec_eligible(p.messages, n),
    {
        if ctx.estimate_token_count() <= target_token_budget {
            break;
        }
        let (index, strategy) = match next_compactable_index(&ctx.messages, policy.keep_recent) {
            Some(found) => found,
            None => {
                break;
            },
        };
        proof {
            lemma_step_counts(p, n);
            lemma_next(p.messages, n);
        }
        let ghost before = p;
        let ghost msg = p.messages[index as int];
        assert(msg == ctx.messages@[index as int]@);
        let role = ctx.messages[index].role;
        let original_bytes: usize = text::byte_len(ctx.messages[index].content.as_str());
        let (summary, _used) = summarize_message(&ctx.messages[index], strategy);
        let summary_bytes: usize = text::byte_len(summary.as_str());
        let saved: usize = if original_bytes > summary_bytes {
            original_bytes - summary_bytes
        } else {
            0
        };
        push_compaction_log(
            &mut ctx.compaction_log,
            CompactionEntry {
                message_index: index,
                role: text::owned(role_name(&role)),
                original_bytes,
                summary_bytes,
                strategy,
            },
        );
        let ghost old_messages = ctx.messages.deep_view();
        ctx.messages.set(index, ContextMessage { role, content: summary });
        assert(ctx.messages.deep_view() =~= old_messages.update(
            index as int,
            spec_shortened(msg, strategy),
        ));
        reclaimed = saturating_sum(reclaimed, saved, Ghost(p.reclaimed));
        match strategy {
            CompactionStrategy::ToolCallMetadata => {
                reduced = reduced + 1;
            },
            _ => {
                cut = cut + 1;
            },
        }
        proof {
            p = spec_step(before, index as int, strategy);
        }
    }
    ctx.was_truncated = ctx.compaction_log.len() > 0;
    let tokens: usize = ctx.estimate_token_count();
    ctx.approximate_token_count = tokens;
    CompactionStats {
        messages_compacted: reduced + cut,
        bytes_reclaimed: reclaimed,
        resulting_token_count: tokens,
        strategy_breakdown: StrategyBreakdown {
            tool_call_metadata: reduced,
            assistant_truncated: cut,
            assistant_llm_abstracted: 0,
        },
    }
}

// ---------------------------------------------------------------------------
// Laws
// ---------------------------------------------------------------------------

/// A message that compaction may not touch: one of the user, a plan, a tool
/// call that is not finished, or one of those from position `n` on.
pub open spec fn spec_is_protected(messages: Seq<MessageView>, n: int, i: int) -> bool {
    ||| messages[i].role == ContextMessageRole::User
    ||| messages[i].role == ContextMessageRole::Plan
    ||| messages[i].role == ContextMessageRole::Tool && !spec_is_terminal(messages[i].content)
    ||| i >= n
}

proof fn lemma_run(p: Progress, target: nat, n: int)
    requires
        n <= p.messages.len(),
    ensures
        ({
            let done = spec_run(p, target, n);
            &&& done.messages.len() == p.messages.len()
            &&& forall|i: int|
                0 <= i < p.messages.len() ==> (#[trigger] done.messages[i]).role
                    == p.messages[i].role
            &&& forall|i: int|
                0 <= i < p.messages.len() && spec_is_protected(p.messages, n, i)
                    ==> #[trigger] done.messages[i] == p.messages[i]
            &&& context::spec_estimate_tokens(done.messages) <= target || spec_next(
                done.messages,
                n,
            ) is None
            &&& p.log.len() <= 50 ==> done.log.len() <= 50
            &&& done.log.len() >= p.log.len()
            &&& done.reduced + done.cut + spec_eligible(done.messages, n) == p.reduced + p.cut
                + spec_eligible(p.messages, n)
            &&& done.reduced + done.cut >= p.reduced + p.cut
            &&& done.reduced + done.cut > p.reduced + p.cut ==> done.log.len() > 0
            &&& done.reduced + done.cut == p.reduced + p.cut ==> done == p
        }),
    decreases spec_eligible(p.messages, n),
{
    if context::spec_estimate_tokens(p.messages) > target {
        if let Some((i, strategy)) = spec_next(p.messages, n) {
            lemma_step_counts(p, n);
            lemma_next(p.messages, n);
            let q = spec_step(p, i, strategy);
            lemma_run(q, target, n);
            let done = spec_run(p, target, n);
            assert(done == spec_run(q, target, n));
            assert forall|j: int| 0 <= j < p.messages.len() implies (
            #[trigger] done.messages[j]).role == p.messages[j].role by {
                assert(q.messages[j].role == p.messages[j].role);
            }
            assert forall|j: int|
                0 <= j < p.messages.len() && spec_is_protected(
                    p.messages,
                    n,
                    j,
                ) implies #[trigger] done.messages[j] == p.messages[j] by {
                assert(j != i);
                assert(q.messages[j] == p.messages[j]);
                assert(spec_is_protected(q.messages, n, j));
            }
        }
    }
}

/// Compaction neither drops nor reorders messages: their number and their
/// roles stay. Messages of the user, plans, tool calls that are not finished
/// and the newest `keep_recent` messages keep their text too.
pub proof fn law_protected_messages_stay(
    messages: Seq<MessageView>,
    log: Seq<EntryView>,
    target: nat,
    keep_recent: nat,
)
    ensures
        ({
            let done = spec_compacted(messages, log, target, keep_recent).messages;
            &&& done.len() == messages.len()
            &&& forall|i: int|
                0 <= i < messages.len() ==> (#[trigger] done[i]).role == messages[i].role
            &&& forall|i: int|
                0 <= i < messages.len() && spec_is_protected(
                    messages,
                    messages.len() - keep_recent,
                    i,
                ) ==> #[trigger] done[i] == messages[i]
        }),
{
    let n = spec_old_count(messages.len(), keep_recent);
    lemma_run(spec_start(messages, log), target, n);
    let done = spec_compacted(messages, log, target, keep_recent).messages;
    assert forall|i: int|
        0 <= i < messages.len() && spec_is_protected(
            messages,
            messages.len() - keep_recent,
            i,
        ) implies #[trigger] done[i] == messages[i] by {
        assert(spec_is_protected(messages, n, i));
    }
}

/// No finished call is left among the first `n` messages.
pub open spec fn spec_all_reduced(messages: Seq<MessageView>, n: int) -> bool {
    forall|i: int| 0 <= i < n ==> !spec_is_reducible(#[trigger] messages[i])
}

proof fn lemma_calls_go_first(p: Progress, target: nat, n: int)
    requires
        n <= p.messages.len(),
    ensures
        spec_run(p, target, n).cut > p.cut || spec_all_reduced(p.messages, n)
            ==> spec_all_reduced(spec_run(p, target, n).messages, n),
    decreases spec_eligible(p.messages, n),
{
    if context::spec_estimate_tokens(p.messages) > target {
        if let Some((i, strategy)) = spec_next(p.messages, n) {
            lemma_step_counts(p, n);
            lemma_next(p.messages, n);
            lemma_first_reducible(p.messages, 0, n);
            let q = spec_step(p, i, strategy);
            lemma_calls_go_first(q, target, n);
            if strategy == CompactionStrategy::AssistantTruncated {
                assert forall|j: int| 0 <= j < n implies !spec_is_reducible(
                    #[trigger] q.messages[j],
                ) by {
                    if j != i {
                        assert(q.messages[j] == p.messages[j]);
                    }
                }
            }
        }
    }
}

/// Finished calls go first: an assistant message is cut only once every
/// finished call before the newest messages is reduced.
pub proof fn law_finished_calls_are_reduced_first(
    messages: Seq<MessageView>,
    log: Seq<EntryView>,
    target: nat,
    keep_recent: nat,
)
    ensures
        ({
            let done = spec_compacted(messages, log, target, keep_recent);
            done.cut > 0 ==> spec_all_reduced(
                done.messages,
                spec_old_count(messages.len(), keep_recent),
            )
        }),
{
    lemma_calls_go_first(
        spec_start(messages, log),
        target,
        spec_old_count(messages.len(), keep_recent),
    );
}

/// A summary of a tool call is a single line and drops the output: it is made
/// of the first line and the input, whatever follows the line with the input.
pub proof fn law_summary_is_one_line_without_the_output(
    header: Seq<char>,
    input: Seq<char>,
    output: Seq<char>,
    other_output: Seq<char>,
)
    requires
        !header.contains('\n'),
        !input.contains('\n'),
        text::spec_starts_with(text::spec_trim(segments::spec_without_cr(input)), "Input:"@)
            || text::spec_starts_with(text::spec_trim(segments::spec_without_cr(input)), "cmd:"@),
    ensures
        ({
            let call = header + seq!['\n'] + (input + seq!['\n'] + output);
            let other = header + seq!['\n'] + (input + seq!['\n'] + other_output);
            &&& !spec_summarize_tool_call(call).contains('\n')
            &&& spec_summarize_tool_call(call) == spec_summarize_tool_call(other)
        }),
{
    let call = header + seq!['\n'] + (input + seq!['\n'] + output);
    let other = header + seq!['\n'] + (input + seq!['\n'] + other_output);
    lemma_summary_is_one_line(call);
    segments::lemma_lines_behind_a_line(header, input + seq!['\n'] + output);
    segments::lemma_lines_behind_a_line(header, input + seq!['\n'] + other_output);
    segments::lemma_lines_behind_a_line(input, output);
    segments::lemma_lines_behind_a_line(input, other_output);
    let line = segments::spec_without_cr(input);
    assert(spec_later_lines(call) =~= seq![line] + segments::spec_lines(output));
    assert(spec_later_lines(other) =~= seq![line] + segments::spec_lines(other_output));
    assert(spec_later_lines(call)[0] == line);
    assert(spec_later_lines(other)[0] == line);
}

/// Compaction ends within the budget, or with no message left that may be shortened.
pub proof fn law_compaction_meets_budget_or_is_exhausted(
    messages: Seq<MessageView>,
    log: Seq<EntryView>,
    target: nat,
    keep_recent: nat,
)
    ensures
        ({
            let done = spec_compacted(messages, log, target, keep_recent).messages;
            context::spec_estimate_tokens(done) <= target || spec_next(
                done,
                spec_old_count(messages.len(), keep_recent),
            ) is None
        }),
{
    lemma_run(
        spec_start(messages, log),
        target,
        spec_old_count(messages.len(), keep_recent),
    );
}

/// A context within its budget is left as it is.
pub proof fn law_nothing_is_compacted_within_budget(
    messages: Seq<MessageView>,
    log: Seq<EntryView>,
    target: nat,
    keep_recent: nat,
)
    requires
        context::spec_estimate_tokens(messages) <= target,
    ensures
        spec_compacted(messages, log, target, keep_recent) == spec_start(messages, log),
{
}

/// A second run with the same budget, or one that the first run met, changes nothing.
pub proof fn law_second_compaction_changes_nothing(
    messages: Seq<MessageView>,
    log: Seq<EntryView>,
    target: nat,
    second_target: nat,
    keep_recent: nat,
)
    requires
        ({
            let done = spec_compacted(messages, log, target, keep_recent);
            second_target == target || context::spec_estimate_tokens(done.messages)
                <= second_target
        }),
    ensures
        ({
            let done = spec_compacted(messages, log, target, keep_recent);
            spec_compacted(done.messages, done.log, second_target, keep_recent) == spec_start(
                done.messages,
                done.log,
            )
        }),
{
    lemma_run(
        spec_start(messages, log),
        target,
        spec_old_count(messages.len(), keep_recent),
    );
}

/// The log never grows beyond its cap, and it is there wherever a message was shortened.
pub proof fn law_log_is_capped(
    messages: Seq<MessageView>,
    log: Seq<EntryView>,
    target: nat,
    keep_recent: nat,
)
    requires
        log.len() <= MAX_COMPACTION_LOG_ENTRIES,
    ensures
        ({
            let done = spec_compacted(messages, log, target, keep_recent);
            &&& done.log.len() <= MAX_COMPACTION_LOG_ENTRIES
            &&& done.reduced + done.cut > 0 ==> done.log.len() > 0
            &&& done.reduced + done.cut == 0 ==> done.messages == messages && done.log == log
        }),
{
    lemma_run(
        spec_start(messages, log),
        target,
        spec_old_count(messages.len(), keep_recent),
    );
}

/// A cut message begins as the message did: its first characters are those of
/// the trimmed message, one by one from the start, and only the mark of the cut
/// follows them. A message within the limit is only trimmed.
pub proof fn law_cut_message_begins_as_it_did(content: Seq<char>, limit: int)
    requires
        limit >= 0,
    ensures
        text::spec_trim(content).len() <= limit ==> spec_truncate_assistant(content, limit)
            == text::spec_trim(content),
        text::spec_trim(content).len() > limit ==> {
            let cut = spec_truncate_assistant(content, limit);
            &&& cut.len() == limit + 6
            &&& forall|i: int| 0 <= i < limit ==> #[trigger] cut[i] == text::spec_trim(content)[i]
            &&& cut.skip(limit) == " [...]"@
        },
{
    reveal_strlit(" [...]");
    let trimmed = text::spec_trim(content);
    if trimmed.len() > limit {
        let cut = spec_truncate_assistant(content, limit);
        assert(cut.skip(limit) =~= " [...]"@);
    }
}

/// The header of a tool call.
pub open spec fn spec_call_header(name: Seq<char>, status: Seq<char>) -> Seq<char> {
    "[Tool: "@ + name + " ("@ + status + ")]"@
}

/// A name and a status that a header can show: the name is trimmed and not
/// empty, and neither holds what the other one ends with.
pub open spec fn spec_can_be_shown(name: Seq<char>, status: Seq<char>) -> bool {
    &&& name.len() > 0
    &&& text::spec_trim(name) == name
    &&& !name.contains('\n')
    &&& !status.contains('\n')
    &&& !text::spec_contains(status, " ("@)
    &&& status.len() > 0 ==> status.last() != ')'
}

/// A header says the name and the status that it shows.
pub proof fn law_header_says_name_and_status(name: Seq<char>, status: Seq<char>)
    requires
        spec_can_be_shown(name, status),
    ensures
        spec_tool_label(spec_call_header(name, status)) == (name, status),
{
    reveal_strlit("[Tool: ");
    reveal_strlit("Tool:");
    reveal_strlit(" (");
    reveal_strlit(")]");
    let line = spec_call_header(name, status);
    let none = Seq::<char>::empty();
    text::lemma_trimmed(name);
    let tail = name + " ("@ + status + seq![')'];
    let inner = seq!['T', 'o', 'o', 'l', ':', ' '] + tail;
    let open = Seq::new(1, |i: int| '[');
    let close = Seq::new(1, |i: int| ']');
    let paren = Seq::new(1, |i: int| ')');
    assert(line =~= open + (inner + close));
    text::law_trimmed_char_is_only_at_the_end(inner + close, '[', 1);
    text::law_trimmed_char_is_only_at_the_end(inner, ']', 1);
    assert(none + inner + none =~= inner);
    text::law_trimming_drops_the_whitespace_around(none, inner, none);
    let rest = seq![' '] + tail;
    assert(inner =~= "Tool:"@ + rest);
    text::law_prefix_comes_off("Tool:"@, rest);
    assert(seq![' '] + tail + none =~= rest);
    text::law_trimming_drops_the_whitespace_around(seq![' '], tail, none);
    let n = name.len() as int;
    let p = " ("@;
    assert(tail.subrange(n, n + 2) =~= p);
    assert forall|j: int| n < j implies !#[trigger] text::occurs_at(tail, p, j) by {
        if text::occurs_at(tail, p, j) {
            let found = tail.subrange(j, j + 2);
            assert(found[0] == tail[j] && found[1] == tail[j + 1]);
            if j > n + 1 {
                let k = j - n - 2;
                if k + 2 <= status.len() {
                    assert(status.subrange(k, k + 2) =~= p);
                    assert(text::occurs_at(status, p, k));
                } else {
                    assert(tail[j + 1] == ')');
                }
            }
        }
    }
    text::lemma_rfind_is(tail, p, n);
    assert(tail.take(n) =~= name);
    assert(tail.skip(n + 2) =~= status + paren);
    text::law_trimmed_char_is_only_at_the_end(status, ')', 1);
}

proof fn lemma_header_is_first_line(name: Seq<char>, status: Seq<char>, rest: Seq<char>)
    requires
        spec_can_be_shown(name, status),
    ensures
        ({
            let line = spec_call_header(name, status);
            let content = line + seq!['\n'] + rest;
            &&& text::spec_trim(segments::spec_first_line(content)) == line
            &&& spec_later_lines(content) == segments::spec_lines(rest)
            &&& text::spec_starts_with(line, "[Tool:"@)
            &&& text::spec_ends_with(line, ")]"@)
            &&& !text::spec_starts_with(content, "[compacted:Tool "@)
        }),
{
    reveal_strlit("[Tool: ");
    reveal_strlit("[Tool:");
    reveal_strlit("[compacted:Tool ");
    reveal_strlit(" (");
    reveal_strlit(")]");
    let line = spec_call_header(name, status);
    let content = line + seq!['\n'] + rest;
    let none = Seq::<char>::empty();
    assert(!line.contains('\n')) by {
        if line.contains('\n') {
            let i = choose|i: int| 0 <= i < line.len() && line[i] == '\n';
            let n = name.len() as int;
            let m = status.len() as int;
            if 7 <= i < 7 + n {
                assert(name[i - 7] == line[i]);
            } else if 9 + n <= i < 9 + n + m {
                assert(status[i - 9 - n] == line[i]);
            }
        }
    }
    assert(line.last() == ']');
    segments::law_first_line_ends_at_the_line_feed(line, rest);
    assert(none + line + none =~= line);
    text::law_trimming_drops_the_whitespace_around(none, line, none);
    segments::lemma_lines_behind_a_line(line, rest);
    assert(spec_later_lines(content) =~= segments::spec_lines(rest));
    assert(line.subrange(0, 6) =~= "[Tool:"@);
    assert(line.subrange(line.len() - 2, line.len() as int) =~= ")]"@);
    if text::spec_starts_with(content, "[compacted:Tool "@) {
        assert(content.subrange(0, 16)[1] == content[1]);
    }
}

/// A call is finished exactly where its header says `completed` or `failed`,
/// whatever its output says.
pub proof fn law_header_decides_whether_a_call_is_finished(
    name: Seq<char>,
    status: Seq<char>,
    output: Seq<char>,
)
    requires
        spec_can_be_shown(name, status),
    ensures
        spec_is_terminal(spec_call_header(name, status) + seq!['\n'] + output) <==> status
            == "completed"@ || status == "failed"@,
{
    reveal_strlit("[Tool: ");
    reveal_strlit(" (");
    reveal_strlit(")]");
    reveal_strlit("completed");
    reveal_strlit("failed");
    reveal_strlit("(completed)");
    reveal_strlit("(failed)");
    law_header_says_name_and_status(name, status);
    lemma_header_is_first_line(name, status, output);
    let content = spec_call_header(name, status) + seq!['\n'] + output;
    let n = name.len() as int;
    if status == "completed"@ {
        assert(content.subrange(n + 8, n + 19) =~= "(completed)"@);
        assert(text::occurs_at(content, "(completed)"@, n + 8));
    }
    if status == "failed"@ {
        assert(content.subrange(n + 8, n + 16) =~= "(failed)"@);
        assert(text::occurs_at(content, "(failed)"@, n + 8));
    }
}

/// A call without such a header is finished where a mark says so anywhere, and
/// one that was reduced already never is.
pub proof fn law_mark_decides_without_a_header(content: Seq<char>)
    ensures
        text::spec_starts_with(content, "[compacted:Tool "@) ==> !spec_is_terminal(content),
        !text::spec_starts_with(content, "[compacted:Tool "@) && !text::spec_starts_with(
            text::spec_trim(segments::spec_first_line(content)),
            "[Tool:"@,
        ) ==> (spec_is_terminal(content) <==> text::spec_contains(content, "(completed)"@)
            || text::spec_contains(content, "(failed)"@)),
{
}

/// The summary of a call names its tool and its status and shows the first
/// eighty characters of its input, whatever its output.
pub proof fn law_summary_names_tool_status_and_input(
    name: Seq<char>,
    status: Seq<char>,
    input: Seq<char>,
    output: Seq<char>,
)
    requires
        spec_can_be_shown(name, status),
        text::spec_trim(input) == input,
        !input.contains('\n'),
    ensures
        ({
            let head = spec_call_header(name, status) + seq!['\n'];
            let tail = seq!['\n'] + output;
            let shown = "[compacted:Tool "@ + name + " status="@ + status + " args=\""@ + (
            if input.len() <= 80 {
                input
            } else {
                input.take(80)
            }) + "\"]"@;
            &&& spec_summarize_tool_call(head + ("Input: "@ + input + tail)) == shown
            &&& spec_summarize_tool_call(head + ("cmd: "@ + input + tail)) == shown
        }),
{
    law_header_says_name_and_status(name, status);
    lemma_hint_line("Input: "@, "Input:"@, input, output);
    lemma_hint_line("cmd: "@, "cmd:"@, input, output);
    lemma_header_is_first_line(name, status, "Input: "@ + input + (seq!['\n'] + output));
    lemma_header_is_first_line(name, status, "cmd: "@ + input + (seq!['\n'] + output));
}

proof fn lemma_hint_line(spaced: Seq<char>, mark: Seq<char>, input: Seq<char>, output: Seq<char>)
    requires
        (spaced == "Input: "@ && mark == "Input:"@) || (spaced == "cmd: "@ && mark == "cmd:"@),
        text::spec_trim(input) == input,
        !input.contains('\n'),
    ensures
        spec_arg_hint(segments::spec_lines(spaced + input + (seq!['\n'] + output))) == input,
{
    reveal_strlit("Input: ");
    reveal_strlit("Input:");
    reveal_strlit("cmd: ");
    reveal_strlit("cmd:");
    let none = Seq::<char>::empty();
    let line = spaced + input;
    let m = spaced.len() as int;
    assert(spaced + input + (seq!['\n'] + output) =~= line + seq!['\n'] + output);
    assert(!line.contains('\n')) by {
        if line.contains('\n') {
            let i = choose|i: int| 0 <= i < line.len() && line[i] == '\n';
            if i >= m {
                assert(input[i - m] == line[i]);
            }
        }
    }
    text::lemma_trimmed(input);
    segments::lemma_lines_behind_a_line(line, output);
    assert(segments::spec_without_cr(line) == line);
    let lines = segments::spec_lines(line + seq!['\n'] + output);
    assert(lines[0] == line);
    assert(mark + seq![' '] =~= spaced);
    // A trimmed line loses the space behind the mark where nothing follows it.
    if input.len() > 0 {
        assert(none + line + none =~= line);
        text::law_trimming_drops_the_whitespace_around(none, line, none);
        assert(line =~= mark + (seq![' '] + input));
        text::law_prefix_comes_off(mark, seq![' '] + input);
        assert(seq![' '] + input + none =~= seq![' '] + input);
        text::law_trimming_drops_the_whitespace_around(seq![' '], input, none);
    } else {
        assert(none + mark + seq![' '] =~= line);
        text::law_trimming_drops_the_whitespace_around(none, mark, seq![' ']);
        assert(mark + none =~= mark);
        text::law_prefix_comes_off(mark, none);
        assert(none + none + none =~= none);
        text::law_trimming_drops_the_whitespace_around(none, none, none);
        assert(input =~= none);
    }
    if mark == "cmd:"@ {
        let t = text::spec_trim(line);
        if text::spec_starts_with(t, "Input:"@) {
            assert(t.subrange(0, 6)[0] == t[0]);
        }
    }
}

/// The input is shown from the first line that states one, in either spelling;
/// without such a line nothing is shown.
pub proof fn law_first_input_line_is_shown(lines: Seq<Seq<char>>, k: int)
    requires
        0 <= k <= lines.len(),
        forall|j: int|
            0 <= j < k ==> !text::spec_starts_with(
                text::spec_trim(#[trigger] lines[j]),
                "Input:"@,
            ) && !text::spec_starts_with(text::spec_trim(lines[j]), "cmd:"@),
    ensures
        k == lines.len() ==> spec_arg_hint(lines) == Seq::<char>::empty(),
        k < lines.len() && text::spec_starts_with(text::spec_trim(lines[k]), "Input:"@)
            ==> spec_arg_hint(lines) == text::spec_trim(text::spec_trim(lines[k]).skip(6)),
        k < lines.len() && text::spec_starts_with(text::spec_trim(lines[k]), "cmd:"@)
            ==> spec_arg_hint(lines) == text::spec_trim(text::spec_trim(lines[k]).skip(4)),
    decreases k,
{
    reveal_strlit("Input:");
    reveal_strlit("cmd:");
    if k > 0 {
        let rest = lines.skip(1);
        assert forall|j: int| 0 <= j < k - 1 implies !text::spec_starts_with(
            text::spec_trim(#[trigger] rest[j]),
            "Input:"@,
        ) && !text::spec_starts_with(text::spec_trim(rest[j]), "cmd:"@) by {
            assert(rest[j] == lines[j + 1]);
        }
        assert(!text::spec_starts_with(text::spec_trim(lines[0]), "Input:"@));
        law_first_input_line_is_shown(rest, k - 1);
    } else if k < lines.len() {
        let t = text::spec_trim(lines[0]);
        if text::spec_starts_with(t, "Input:"@) && text::spec_starts_with(t, "cmd:"@) {
            assert(t.subrange(0, 6)[0] == t[0]);
            assert(t.subrange(0, 4)[0] == t[0]);
        }
    }
}

proof fn lemma_each_message(p: Progress, target: nat, n: int, i: int)
    requires
        n <= p.messages.len(),
        0 <= i < p.messages.len(),
    ensures
        ({
            let was = p.messages[i];
            let is = spec_run(p, target, n).messages[i];
            ||| is == was
            ||| i < n && spec_is_reducible(was) && is == (MessageView {
                role: was.role,
                content: spec_summarize_tool_call(was.content),
            })
            ||| i < n && spec_is_cuttable(was) && is == (MessageView {
                role: was.role,
                content: spec_truncate_assistant(was.content, 200),
            })
        }),
    decreases spec_eligible(p.messages, n),
{
    if context::spec_estimate_tokens(p.messages) > target {
        if let Some((k, strategy)) = spec_next(p.messages, n) {
            lemma_step_counts(p, n);
            lemma_next(p.messages, n);
            let q = spec_step(p, k, strategy);
            lemma_each_message(q, target, n, i);
            if k == i {
                lemma_shortened_is_final(p.messages[i], strategy);
            } else {
                assert(q.messages[i] == p.messages[i]);
            }
        }
    }
}

/// Compaction keeps a message or shortens it, and only in these ways: a finished
/// call to its summary; a message of the assistant of more than two hundred
/// bytes, which was not cut before, to its first two hundred characters.
pub proof fn law_messages_are_kept_or_shortened(
    messages: Seq<MessageView>,
    log: Seq<EntryView>,
    target: nat,
    keep_recent: nat,
    i: int,
)
    requires
        0 <= i < messages.len(),
    ensures
        ({
            let was = messages[i];
            let is = spec_compacted(messages, log, target, keep_recent).messages[i];
            ||| is == was
            ||| i < messages.len() - keep_recent && was.role == ContextMessageRole::Tool
                && spec_is_terminal(was.content) && is == (MessageView {
                role: ContextMessageRole::Tool,
                content: spec_summarize_tool_call(was.content),
            })
            ||| i < messages.len() - keep_recent && was.role == ContextMessageRole::Assistant
                && encode_utf8(was.content).len() > 200 && !text::spec_ends_with(
                text::spec_trim_end(was.content),
                "[...]"@,
            ) && is == (MessageView {
                role: ContextMessageRole::Assistant,
                content: spec_truncate_assistant(was.content, 200),
            })
        }),
{
    lemma_each_message(
        spec_start(messages, log),
        target,
        spec_old_count(messages.len(), keep_recent),
        i,
    );
}

/// Where the budget is not met, nothing that could be shortened is left: every
/// finished call before the newest messages is a summary, and every long
/// message of the assistant there is cut.
pub proof fn law_missed_budget_means_all_is_shortened(
    messages: Seq<MessageView>,
    log: Seq<EntryView>,
    target: nat,
    keep_recent: nat,
    i: int,
)
    requires
        0 <= i < messages.len() - keep_recent,
        context::spec_estimate_tokens(
            spec_compacted(messages, log, target, keep_recent).messages,
        ) > target,
    ensures
        ({
            let was = messages[i];
            let is = spec_compacted(messages, log, target, keep_recent).messages[i];
            &&& was.role == ContextMessageRole::Tool && spec_is_terminal(was.content) ==> is.content
                == spec_summarize_tool_call(was.content)
            &&& was.role == ContextMessageRole::Assistant && encode_utf8(was.content).len() > 200
                && !text::spec_ends_with(text::spec_trim_end(was.content), "[...]"@) ==> is.content
                == spec_truncate_assistant(was.content, 200)
        }),
{
    let n = spec_old_count(messages.len(), keep_recent);
    let start = spec_start(messages, log);
    lemma_each_message(start, target, n, i);
    lemma_run(start, target, n);
    let done = spec_run(start, target, n).messages;
    lemma_first_reducible(done, 0, n);
    lemma_first_cuttable(done, 0, n);
    assert(!spec_is_reducible(done[i]));
    assert(!spec_is_cuttable(done[i]));
}

proof fn lemma_oldest_first(p: Progress, target: nat, n: int, i: int, j: int)
    requires
        n <= p.messages.len(),
        0 <= i < j < n,
        (spec_is_reducible(p.messages[i]) && spec_is_reducible(p.messages[j])) || (
        spec_is_cuttable(p.messages[i]) && spec_is_cuttable(p.messages[j])),
    ensures
        ({
            let done = spec_run(p, target, n).messages;
            done[j] != p.messages[j] ==> done[i] == spec_shortened(
                p.messages[i],
                if spec_is_reducible(p.messages[i]) {
                    CompactionStrategy::ToolCallMetadata
                } else {
                    CompactionStrategy::AssistantTruncated
                },
            )
        }),
    decreases spec_eligible(p.messages, n),
{
    if context::spec_estimate_tokens(p.messages) > target {
        if let Some((k, strategy)) = spec_next(p.messages, n) {
            lemma_step_counts(p, n);
            lemma_next(p.messages, n);
            lemma_first_is_least(p.messages, 0, n);
            let q = spec_step(p, k, strategy);
            if k == i {
                lemma_shortened_is_final(p.messages[i], strategy);
                lemma_each_message(q, target, n, i);
            } else {
                assert(k != j);
                assert(q.messages[i] == p.messages[i]);
                assert(q.messages[j] == p.messages[j]);
                lemma_oldest_first(q, target, n, i, j);
            }
        }
    }
}

proof fn lemma_first_is_least(messages: Seq<MessageView>, i: int, n: int)
    ensures
        spec_first_reducible(messages, i, n) matches Some(k) ==> forall|j: int|
            i <= j < k ==> !spec_is_reducible(#[trigger] messages[j]),
        spec_first_cuttable(messages, i, n) matches Some(k) ==> forall|j: int|
            i <= j < k ==> !spec_is_cuttable(#[trigger] messages[j]),
        spec_first_reducible(messages, i, n) is None ==> forall|j: int|
            i <= j < n ==> !spec_is_reducible(#[trigger] messages[j]),
    decreases n - i,
{
    if i < n {
        lemma_first_is_least(messages, i + 1, n);
    }
}

/// The oldest goes first: of two finished calls before the newest messages, the
/// newer one is reduced only together with the older one.
pub proof fn law_oldest_call_is_reduced_first(
    messages: Seq<MessageView>,
    log: Seq<EntryView>,
    target: nat,
    keep_recent: nat,
    i: int,
    j: int,
)
    requires
        0 <= i < j < messages.len() - keep_recent,
        messages[i].role == ContextMessageRole::Tool,
        messages[j].role == ContextMessageRole::Tool,
        spec_is_terminal(messages[i].content),
        spec_is_terminal(messages[j].content),
    ensures
        ({
            let done = spec_compacted(messages, log, target, keep_recent).messages;
            done[j] != messages[j] ==> done[i].content == spec_summarize_tool_call(
                messages[i].content,
            )
        }),
{
    lemma_oldest_first(
        spec_start(messages, log),
        target,
        spec_old_count(messages.len(), keep_recent),
        i,
        j,
    );
}

/// Compaction stops as soon as the budget is met: where one message is enough,
/// only that one is shortened, and counted, and its entry is the only new one.
pub proof fn law_compaction_stops_at_the_budget(
    messages: Seq<MessageView>,
    log: Seq<EntryView>,
    target: nat,
    keep_recent: nat,
    i: int,
)
    requires
        0 <= i < messages.len() - keep_recent,
        messages[i].role == ContextMessageRole::Tool,
        spec_is_terminal(messages[i].content),
        forall|j: int|
            0 <= j < i ==> !((#[trigger] messages[j]).role == ContextMessageRole::Tool
                && spec_is_terminal(messages[j].content)),
        context::spec_estimate_tokens(messages) > target,
        context::spec_estimate_tokens(
            messages.update(
                i,
                MessageView {
                    role: ContextMessageRole::Tool,
                    content: spec_summarize_tool_call(messages[i].content),
                },
            ),
        ) <= target,
        log.len() < 50,
    ensures
        ({
            let done = spec_compacted(messages, log, target, keep_recent);
            let summary = spec_summarize_tool_call(messages[i].content);
            let before = encode_utf8(messages[i].content).len();
            let after = encode_utf8(summary).len();
            &&& done.messages == messages.update(
                i,
                MessageView { role: ContextMessageRole::Tool, content: summary },
            )
            &&& done.reduced == 1
            &&& done.cut == 0
            &&& done.reclaimed == if before > after {
                before - after
            } else {
                0
            }
            &&& done.log == log.push(
                EntryView {
                    message_index: i,
                    role: "tool"@,
                    original_bytes: before as int,
                    summary_bytes: after as int,
                    strategy: CompactionStrategy::ToolCallMetadata,
                },
            )
        }),
{
    let n = spec_old_count(messages.len(), keep_recent);
    let p = spec_start(messages, log);
    lemma_first_reducible(messages, 0, n);
    lemma_first_is_least(messages, 0, n);
    assert(spec_is_reducible(messages[i]));
    let k = spec_first_reducible(messages, 0, n)->Some_0;
    assert(k == i) by {
        if k < i {
            assert(!spec_is_reducible(messages[k]));
        }
    }
    let q = spec_step(p, i, CompactionStrategy::ToolCallMetadata);
    lemma_step_counts(p, n);
    assert(spec_run(p, target, n) == spec_run(q, target, n));
    assert(spec_run(q, target, n) == q);
}

/// The newest fifty entries of the log are kept, oldest first.
pub proof fn law_full_log_drops_its_oldest_entry(log: Seq<EntryView>, entry: EntryView)
    requires
        log.len() <= 50,
    ensures
        spec_push_log(log, entry).last() == entry,
        log.len() < 50 ==> spec_push_log(log, entry) == log.push(entry),
        log.len() == 50 ==> spec_push_log(log, entry).drop_last() == log.skip(1),
{
    assert(log.skip(1).push(entry).drop_last() =~= log.skip(1));
}

/// A call cuts a message as the law on cut messages says.
pub proof fn law_call_keeps_the_beginning(content: &str, limit: usize, r: String)
    requires
        call_ensures(truncate_assistant, (content, limit), r),
    ensures
        text::spec_trim(content@).len() <= limit ==> r@ == text::spec_trim(content@),
        text::spec_trim(content@).len() > limit ==> r@ == text::spec_trim(content@).take(
            limit as int,
        ) + seq![' ', '[', '.', '.', '.', ']'],
{
    reveal_strlit(" [...]");
    assert(" [...]"@ =~= seq![' ', '[', '.', '.', '.', ']']);
}

/// A call leaves each message or shortens it, keeps their number and roles, and
/// says how many it shortened and what the conversation now amounts to.
pub proof fn law_call_compacts_old_messages(
    ctx: &mut AutoPromptContext,
    budget: usize,
    policy: &CompactionConfig,
    stats: CompactionStats,
)
    requires
        call_ensures(compact_old_messages, (ctx, budget, policy), stats),
    ensures
        ({
            let was = old(ctx).messages.deep_view();
            let is = final(ctx).messages.deep_view();
            &&& is.len() == was.len()
            &&& forall|i: int|
                #![trigger is[i]]
                0 <= i < was.len() ==> is[i].role == was[i].role && (i >= was.len()
                    - policy.keep_recent || was[i].role == ContextMessageRole::User || was[i].role
                    == ContextMessageRole::Plan ==> is[i] == was[i])
            &&& context::spec_estimate_tokens(was) <= budget ==> is == was
                && stats.messages_compacted == 0
            &&& stats.resulting_token_count == context::spec_estimate_tokens(is)
            &&& final(ctx).approximate_token_count == context::spec_estimate_tokens(is)
            &&& stats.messages_compacted == stats.strategy_breakdown.tool_call_metadata
                + stats.strategy_breakdown.assistant_truncated
            &&& final(ctx).was_truncated == (final(ctx).compaction_log@.len() > 0)
        }),
{
    let was = old(ctx).messages.deep_view();
    let log = old(ctx).compaction_log.deep_view();
    law_protected_messages_stay(was, log, budget as nat, policy.keep_recent as nat);
    let done = spec_compacted(was, log, budget as nat, policy.keep_recent as nat);
    let is = final(ctx).messages.deep_view();
    assert(final(ctx).compaction_log.deep_view().len() == final(ctx).compaction_log@.len());
    assert forall|i: int|
        #![trigger is[i]]
        0 <= i < was.len() implies is[i].role == was[i].role && (i >= was.len()
        - policy.keep_recent || was[i].role == ContextMessageRole::User || was[i].role
        == ContextMessageRole::Plan ==> is[i] == was[i]) by {
        assert(done.messages[i].role == was[i].role);
    }
}

/// A call is shortened to its summary under its own strategy; under any other
/// one a message keeps its first two hundred characters, and is said to be cut.
pub proof fn law_strategy_decides_how_a_message_is_shortened(
    msg: &ContextMessage,
    strategy: CompactionStrategy,
    r: (String, CompactionStrategy),
)
    requires
        call_ensures(summarize_message, (msg, strategy), r),
    ensures
        strategy == CompactionStrategy::ToolCallMetadata ==> r.1 == strategy && r.0@
            == spec_summarize_tool_call(msg.content@),
        strategy != CompactionStrategy::ToolCallMetadata ==> r.1
            == CompactionStrategy::AssistantTruncated && r.0@ == spec_truncate_assistant(
            msg.content@,
            200,
        ),
{
}

/// Of two messages of the assistant that are to be cut, the newer one is cut
/// only together with the older one.
pub proof fn law_oldest_message_is_cut_first(
    messages: Seq<MessageView>,
    log: Seq<EntryView>,
    target: nat,
    keep_recent: nat,
    i: int,
    j: int,
)
    requires
        0 <= i < j < messages.len() - keep_recent,
        messages[i].role == ContextMessageRole::Assistant,
        messages[j].role == ContextMessageRole::Assistant,
        encode_utf8(messages[i].content).len() > 200,
        encode_utf8(messages[j].content).len() > 200,
        !text::spec_ends_with(text::spec_trim_end(messages[i].content), "[...]"@),
        !text::spec_ends_with(text::spec_trim_end(messages[j].content), "[...]"@),
    ensures
        ({
            let done = spec_compacted(messages, log, target, keep_recent).messages;
            done[j] != messages[j] ==> done[i].content == spec_truncate_assistant(
                messages[i].content,
                200,
            )
        }),
{
    let n = spec_old_count(messages.len(), keep_recent);
    let p = spec_start(messages, log);
    lemma_each_message(p, target, n, i);
    lemma_each_message(p, target, n, j);
    let done = spec_compacted(messages, log, target, keep_recent).messages;
    if done[j] != messages[j] && spec_is_cuttable(messages[i]) {
        lemma_oldest_first(p, target, n, i, j);
    }
}

/// Each role has its name in the log.
pub proof fn law_roles_have_their_names()
    ensures
        spec_role_name(ContextMessageRole::User) == "user"@,
        spec_role_name(ContextMessageRole::Assistant) == "assistant"@,
        spec_role_name(ContextMessageRole::Tool) == "tool"@,
        spec_role_name(ContextMessageRole::Plan) == "plan"@,
{
}

} // verus!
