//! What the orchestrator is told about a thread, and what it answers.

use vstd::prelude::*;
use crate::plans;
use crate::score::{Confidence, ConfidenceView};
use crate::segments;
use crate::tasks;
use crate::text;

verus! {

/// Where a chain stands on its way to a stop.
#[derive(Clone, Copy, Debug, PartialEq, Eq, Structural)]
pub enum StopPhase {
    /// No stop has been asked for yet.
    Working,
    /// A stop was asked for and is being verified.
    PreStop,
    /// The stop was verified.
    Verified,
}

/// Who wrote a message.
#[derive(Clone, Copy, Debug, PartialEq, Eq, Structural)]
pub enum ContextMessageRole {
    User,
    Assistant,
    Tool,
    Plan,
}

/// One message of a thread.
#[derive(Clone, Debug, PartialEq, Eq)]
pub struct ContextMessage {
    pub role: ContextMessageRole,
    pub content: String,
}

/// The model of a `ContextMessage`.
pub struct MessageView {
    pub role: ContextMessageRole,
    pub content: Seq<char>,
}

impl View for ContextMessage {
    type V = MessageView;

    open spec fn view(&self) -> MessageView {
        MessageView { role: self.role, content: self.content@ }
    }
}

impl DeepView for ContextMessage {
    type V = MessageView;

    open spec fn deep_view(&self) -> MessageView {
        self@
    }
}

/// A plan file: its path and its Markdown text.
#[derive(Clone, Debug, PartialEq, Eq)]
pub struct PlanFileContent {
    pub path: String,
    pub content: String,
}

/// The model of a `PlanFileContent`.
pub struct PlanFileView {
    pub path: Seq<char>,
    pub content: Seq<char>,
}

impl View for PlanFileContent {
    type V = PlanFileView;

    open spec fn view(&self) -> PlanFileView {
        PlanFileView { path: self.path@, content: self.content@ }
    }
}

impl DeepView for PlanFileContent {
    type V = PlanFileView;

    open spec fn deep_view(&self) -> PlanFileView {
        self@
    }
}

/// How a message was shortened.
#[derive(Clone, Copy, Debug, PartialEq, Eq, Structural)]
pub enum CompactionStrategy {
    /// A tool call was reduced to one line of metadata.
    ToolCallMetadata,
    /// An assistant message was cut.
    AssistantTruncated,
    /// An assistant message was summarized by a model.
    AssistantLlmAbstracted,
}

/// One shortened message, for the audit log.
#[derive(Clone, Debug, PartialEq, Eq)]
pub struct CompactionEntry {
    pub message_index: usize,
    pub role: String,
    pub original_bytes: usize,
    pub summary_bytes: usize,
    pub strategy: CompactionStrategy,
}

/// The model of a `CompactionEntry`.
pub struct EntryView {
    pub message_index: int,
    pub role: Seq<char>,
    pub original_bytes: int,
    pub summary_bytes: int,
    pub strategy: CompactionStrategy,
}

impl View for CompactionEntry {
    type V = EntryView;

    open spec fn view(&self) -> EntryView {
        EntryView {
            message_index: self.message_index as int,
            role: self.role@,
            original_bytes: self.original_bytes as int,
            summary_bytes: self.summary_bytes as int,
            strategy: self.strategy,
        }
    }
}

impl DeepView for CompactionEntry {
    type V = EntryView;

    open spec fn deep_view(&self) -> EntryView {
        self@
    }
}

/// Structured notes that a thread leaves for the thread that goes on from it.
#[derive(Clone, Debug, PartialEq, Eq)]
pub struct HandoverBlock {
    pub original_intent: Option<String>,
    pub completed: Vec<String>,
    pub in_progress: Vec<String>,
    pub blocked_on: Vec<String>,
    pub next_step: Option<String>,
    pub files_touched: Vec<String>,
    pub active_plans: Vec<String>,
}

/// The model of a `HandoverBlock`.
pub struct HandoverView {
    pub original_intent: Option<Seq<char>>,
    pub completed: Seq<Seq<char>>,
    pub in_progress: Seq<Seq<char>>,
    pub blocked_on: Seq<Seq<char>>,
    pub next_step: Option<Seq<char>>,
    pub files_touched: Seq<Seq<char>>,
    pub active_plans: Seq<Seq<char>>,
}

impl View for HandoverBlock {
    type V = HandoverView;

    open spec fn view(&self) -> HandoverView {
        HandoverView {
            original_intent: self.original_intent.deep_view(),
            completed: self.completed.deep_view(),
            in_progress: self.in_progress.deep_view(),
            blocked_on: self.blocked_on.deep_view(),
            next_step: self.next_step.deep_view(),
            files_touched: self.files_touched.deep_view(),
            active_plans: self.active_plans.deep_view(),
        }
    }
}

impl DeepView for HandoverBlock {
    type V = HandoverView;

    open spec fn deep_view(&self) -> HandoverView {
        self@
    }
}

/// What the orchestrating model answered.
#[derive(Clone, Debug, PartialEq, Eq)]
pub struct AutoPromptResponse {
    pub should_continue: bool,
    pub next_prompt: Option<String>,
    pub reason: Option<String>,
    pub all_plan_done: bool,
    pub confidence: Option<Confidence>,
    pub thread_summary: Option<String>,
    pub handover: Option<HandoverBlock>,
}

/// The model of an `AutoPromptResponse`.
pub struct ResponseView {
    pub should_continue: bool,
    pub next_prompt: Option<Seq<char>>,
    pub reason: Option<Seq<char>>,
    pub all_plan_done: bool,
    pub confidence: Option<ConfidenceView>,
    pub thread_summary: Option<Seq<char>>,
    pub handover: Option<HandoverView>,
}

impl View for AutoPromptResponse {
    type V = ResponseView;

    open spec fn view(&self) -> ResponseView {
        ResponseView {
            should_continue: self.should_continue,
            next_prompt: self.next_prompt.deep_view(),
            reason: self.reason.deep_view(),
            all_plan_done: self.all_plan_done,
            confidence: self.confidence.deep_view(),
            thread_summary: self.thread_summary.deep_view(),
            handover: self.handover.deep_view(),
        }
    }
}

/// A refusal to go on, with nothing but a reason and no confidence.
pub open spec fn spec_zero_confidence_stop(reason: Seq<char>) -> ResponseView {
    ResponseView {
        should_continue: false,
        next_prompt: None,
        reason: Some(reason),
        all_plan_done: false,
        confidence: Some(
            ConfidenceView {
                value: crate::score::Score { bits: crate::score::ZERO_BITS },
                two_decimals: "0.00"@,
            },
        ),
        thread_summary: None,
        handover: None,
    }
}

/// A response that stops the chain for `reason` with confidence zero.
pub fn zero_confidence_stop(reason: String) -> (r: AutoPromptResponse)
    ensures
        r@ == spec_zero_confidence_stop(reason@),
{
    AutoPromptResponse {
        should_continue: false,
        next_prompt: None,
        reason: Some(reason),
        all_plan_done: false,
        confidence: Some(Confidence::zero()),
        thread_summary: None,
        handover: None,
    }
}

/// Everything the orchestrator is told about a thread.
#[derive(Clone, Debug)]
pub struct AutoPromptContext {
    pub current_datetime: String,
    pub current_paths: Vec<String>,
    pub session_id: String,
    pub title: Option<String>,
    pub messages: Vec<ContextMessage>,
    pub used_tools: bool,
    pub entry_count: usize,
    pub current_plan: Vec<String>,
    pub plan_files: Vec<PlanFileContent>,
    pub doc_files: Vec<PlanFileContent>,
    pub stop_reason: String,
    pub had_error: bool,
    pub approximate_token_count: usize,
    pub actual_input_tokens: Option<u64>,
    pub iteration_count: u32,
    pub stop_phase: StopPhase,
    pub verification_count: u32,
    pub was_truncated: bool,
    pub compaction_log: Vec<CompactionEntry>,
    pub fork_imminent: bool,
    pub plan_has_checkboxes: bool,
    pub first_plan_filename: String,
    pub plan_number: String,
    pub first_user_message: Option<String>,
    pub last_assistant_message: Option<String>,
}

/// The number of characters in `messages`.
pub open spec fn spec_total_chars(messages: Seq<MessageView>) -> nat
    decreases messages.len(),
{
    if messages.len() == 0 {
        0
    } else {
        spec_total_chars(messages.drop_last()) + messages.last().content.len()
    }
}

/// `n`, or the largest `usize` where `n` is larger.
pub open spec fn spec_saturated(n: nat) -> nat {
    if n <= usize::MAX {
        n
    } else {
        usize::MAX as nat
    }
}

/// The rough number of tokens in `messages`: one for every four characters.
pub open spec fn spec_estimate_tokens(messages: Seq<MessageView>) -> nat {
    spec_saturated(spec_total_chars(messages)) / 4
}

/// The last piece of a `/`-separated path.
pub open spec fn spec_file_name(path: Seq<char>) -> Seq<char> {
    segments::spec_split(path, "/"@).last()
}

/// The last piece of a `/`-separated path.
pub fn file_name(path: &str) -> (r: &str)
    ensures
        r@ == spec_file_name(path@),
{
    proof {
        reveal_strlit("/");
    }
    let parts = segments::split(path, "/");
    assert(parts.deep_view()[parts@.len() - 1] == parts@[parts@.len() - 1]@);
    parts[parts.len() - 1]
}

/// The number of spaces at the start of `s`.
pub open spec fn spec_indent(s: Seq<char>) -> nat
    decreases s.len(),
{
    if s.len() > 0 && s[0] == ' ' {
        1 + spec_indent(s.skip(1))
    } else {
        0
    }
}

fn indent(s: &str) -> (n: usize)
    ensures
        n == spec_indent(s@),
{
    let cs = text::chars_of(s);
    let mut i: usize = 0;
    assert(s@.skip(0) =~= s@);
    while i < cs.len() && cs[i] == ' '
        invariant
            cs@ == s@,
            i <= cs.len(),
            spec_indent(s@) == i + spec_indent(s@.skip(i as int)),
        decreases cs.len() - i,
    {
        assert(s@.skip(i as int).skip(1) =~= s@.skip(i + 1));
        i = i + 1;
    }
    i
}

/// The line is a checkbox of a task list: indented by two spaces at most.
pub open spec fn spec_is_task_checkbox(line: Seq<char>) -> bool {
    let rest = line.skip(spec_indent(line) as int);
    spec_indent(line) <= 2 && (text::spec_starts_with(rest, "- [ ] "@) || text::spec_starts_with(
        rest,
        "- [x] "@,
    ))
}

proof fn lemma_indent_bound(s: Seq<char>)
    ensures
        spec_indent(s) <= s.len(),
    decreases s.len(),
{
    if s.len() > 0 && s[0] == ' ' {
        lemma_indent_bound(s.skip(1));
    }
}

fn is_task_checkbox(line: &str) -> (r: bool)
    ensures
        r == spec_is_task_checkbox(line@),
{
    proof {
        lemma_indent_bound(line@);
    }
    let n: usize = indent(line);
    let rest = text::skip(line, n);
    n <= 2 && (text::starts_with(rest, "- [ ] ") || text::starts_with(rest, "- [x] "))
}

/// The number of task checkboxes among `lines`, outside code blocks.
pub open spec fn spec_task_checkboxes(lines: Seq<Seq<char>>, in_code_block: bool) -> nat
    decreases lines.len(),
{
    if lines.len() == 0 {
        0
    } else if text::spec_starts_with(text::spec_trim_start(lines[0]), "```"@) {
        spec_task_checkboxes(lines.skip(1), !in_code_block)
    } else {
        spec_task_checkboxes(lines.skip(1), in_code_block) + if !in_code_block
            && spec_is_task_checkbox(lines[0]) {
            1nat
        } else {
            0nat
        }
    }
}

fn count_task_checkboxes(content: &str) -> (count: usize)
    ensures
        count == spec_task_checkboxes(segments::spec_lines(content@), false),
{
    let all = segments::lines(content);
    let ghost views = segments::spec_lines(content@);
    let mut in_code_block = false;
    let mut count: usize = 0;
    let mut i: usize = 0;
    assert(views.skip(0) =~= views);
    while i < all.len()
        invariant
            i <= all.len(),
            all.deep_view() == views,
            count <= i,
            spec_task_checkboxes(views, false) == count + spec_task_checkboxes(
                views.skip(i as int),
                in_code_block,
            ),
        decreases all.len() - i,
    {
        assert(views.skip(i as int)[0] == all@[i as int]@);
        assert(views.skip(i as int).skip(1) =~= views.skip(i + 1));
        if text::starts_with(text::trim_start(all[i]), "```") {
            in_code_block = !in_code_block;
        } else if !in_code_block && is_task_checkbox(all[i]) {
            count = count + 1;
        }
        i = i + 1;
    }
    count
}

/// The digits at the start of `s`.
pub open spec fn spec_leading_digits(s: Seq<char>) -> Seq<char>
    decreases s.len(),
{
    if s.len() > 0 && text::is_digit(s[0]) {
        seq![s[0]] + spec_leading_digits(s.skip(1))
    } else {
        seq![]
    }
}

fn leading_digits(s: &str) -> (r: &str)
    ensures
        r@ == spec_leading_digits(s@),
{
    let cs = text::chars_of(s);
    let mut i: usize = 0;
    assert(s@.skip(0) =~= s@);
    assert(s@.take(0) + spec_leading_digits(s@) =~= spec_leading_digits(s@));
    while i < cs.len() && '0' <= cs[i] && cs[i] <= '9'
        invariant
            cs@ == s@,
            i <= cs.len(),
            spec_leading_digits(s@) == s@.take(i as int) + spec_leading_digits(s@.skip(i as int)),
        decreases cs.len() - i,
    {
        assert(s@.skip(i as int).skip(1) =~= s@.skip(i + 1));
        assert(s@.take(i as int) + (seq![s@[i as int]] + spec_leading_digits(s@.skip(i + 1)))
            =~= s@.take(i + 1) + spec_leading_digits(s@.skip(i + 1)));
        i = i + 1;
    }
    assert(s@.take(i as int) + spec_leading_digits(s@.skip(i as int)) =~= s@.take(i as int));
    text::take(s, i)
}

/// The file name of the first plan, `plan.md` where there is none.
pub open spec fn spec_first_plan_filename(plans: Seq<PlanFileView>) -> Seq<char> {
    if plans.len() > 0 {
        spec_file_name(plans[0].path)
    } else {
        "plan.md"@
    }
}

/// The number that the first plan's file name starts with, `00` without one.
pub open spec fn spec_plan_number(plans: Seq<PlanFileView>) -> Seq<char> {
    let digits = spec_leading_digits(spec_first_plan_filename(plans));
    if digits.len() > 0 {
        digits
    } else {
        "00"@
    }
}

/// The plans that have actionable tasks left, in order.
pub open spec fn spec_remaining_plans(plans: Seq<PlanFileView>) -> Seq<PlanFileView> {
    plans.filter(|p: PlanFileView| tasks::spec_actionable_tasks(p.content) > 0)
}

impl AutoPromptContext {
    /// The rough number of tokens in the messages.
    pub fn estimate_token_count(&self) -> (r: usize)
        ensures
            r == spec_estimate_tokens(self.messages.deep_view()),
    {
        let mut total: usize = 0;
        let mut i: usize = 0;
        let ghost all = self.messages.deep_view();
        assert(all.take(0) =~= seq![]);
        while i < self.messages.len()
            invariant
                i <= self.messages.len(),
                all == self.messages.deep_view(),
                total == spec_saturated(spec_total_chars(all.take(i as int))),
            decreases self.messages.len() - i,
        {
            assert(all.take(i + 1).drop_last() =~= all.take(i as int));
            assert(all[i as int] == self.messages@[i as int]@);
            let n: usize = self.messages[i].content.as_str().unicode_len();
            if total <= usize::MAX - n {
                total = total + n;
            } else {
                total = usize::MAX;
            }
            i = i + 1;
        }
        assert(all.take(all.len() as int) =~= all);
        total / 4
    }

    /// Whether a plan file is a task list: three checkboxes at least.
    pub fn compute_plan_has_checkboxes(&self) -> (r: bool)
        ensures
            r == exists|i: int|
                0 <= i < self.plan_files@.len() && spec_task_checkboxes(
                    segments::spec_lines(#[trigger] self.plan_files@[i].content@),
                    false,
                ) >= 3,
    {
        let mut i: usize = 0;
        while i < self.plan_files.len()
            invariant
                i <= self.plan_files.len(),
                forall|j: int|
                    0 <= j < i ==> spec_task_checkboxes(
                        segments::spec_lines(#[trigger] self.plan_files@[j].content@),
                        false,
                    ) < 3,
            decreases self.plan_files.len() - i,
        {
            if count_task_checkboxes(self.plan_files[i].content.as_str()) >= 3 {
                return true;
            }
            i = i + 1;
        }
        false
    }

    /// The file name of the first plan.
    pub fn compute_first_plan_filename(&self) -> (r: String)
        ensures
            r@ == spec_first_plan_filename(self.plan_files.deep_view()),
    {
        if self.plan_files.len() > 0 {
            assert(self.plan_files.deep_view()[0] == self.plan_files@[0]@);
            text::owned(file_name(self.plan_files[0].path.as_str()))
        } else {
            text::owned("plan.md")
        }
    }

    /// The number of the first plan.
    pub fn compute_plan_number(&self) -> (r: String)
        ensures
            r@ == spec_plan_number(self.plan_files.deep_view()),
    {
        let name = self.compute_first_plan_filename();
        let digits = leading_digits(name.as_str());
        if digits.unicode_len() > 0 {
            text::owned(digits)
        } else {
            text::owned("00")
        }
    }

    /// The plans that have actionable tasks left.
    pub fn remaining_plan_files(&self) -> (r: Vec<&PlanFileContent>)
        ensures
            r.deep_view() == spec_remaining_plans(self.plan_files.deep_view()),
    {
        plans::remaining(&self.plan_files)
    }

    /// The last message of the assistant.
    pub fn last_assistant_message(&self) -> (r: Option<&str>)
        ensures
            r.deep_view() == self.last_assistant_message.deep_view(),
    {
        match &self.last_assistant_message {
            Some(s) => Some(s.as_str()),
            None => None,
        }
    }
}

// ---------------------------------------------------------------------------
// Laws
// ---------------------------------------------------------------------------

/// Every character of every message counts for the size of a conversation.
pub proof fn law_every_character_counts(messages: Seq<MessageView>, message: MessageView)
    ensures
        spec_total_chars(seq![]) == 0,
        spec_total_chars(messages.push(message)) == spec_total_chars(messages)
            + message.content.len(),
{
    assert(messages.push(message).drop_last() =~= messages);
}

/// The rough number of tokens is a quarter of the characters, rounded down; it
/// is capped where the characters are more than can be counted.
pub proof fn law_four_characters_make_a_token(messages: Seq<MessageView>)
    ensures
        ({
            let tokens = spec_estimate_tokens(messages);
            let chars = spec_total_chars(messages);
            &&& chars <= usize::MAX ==> 4 * tokens <= chars < 4 * tokens + 4
            &&& chars > usize::MAX ==> 4 * tokens <= usize::MAX < 4 * tokens + 4
        }),
{
}

/// The file name is the last part of a path.
pub proof fn law_file_name_is_the_last_part(parts: Seq<Seq<char>>)
    requires
        parts.len() > 0,
        forall|k: int| 0 <= k < parts.len() ==> !(#[trigger] parts[k]).contains('/'),
    ensures
        spec_file_name(segments::spec_join(parts, seq!['/'])) == parts.last(),
{
    reveal_strlit("/");
    assert("/"@ =~= seq!['/']);
    segments::law_parts_are_split_at_a_character(parts, '/');
}

/// A checkbox, ticked or open, stands behind `k` spaces.
pub open spec fn spec_checkbox_behind(line: Seq<char>, k: int) -> bool {
    &&& text::occurs_at(line, "- [ ] "@, k) || text::occurs_at(line, "- [x] "@, k)
    &&& forall|i: int| 0 <= i < k ==> line[i] == ' '
}

/// A task is a ticked or open checkbox that is indented by at most two spaces.
pub open spec fn spec_is_task_line(line: Seq<char>) -> bool {
    exists|k: int| 0 <= k <= 2 && #[trigger] spec_checkbox_behind(line, k)
}

proof fn lemma_indent(s: Seq<char>, k: int)
    requires
        0 <= k < s.len(),
        forall|i: int| 0 <= i < k ==> s[i] == ' ',
        s[k] != ' ',
    ensures
        spec_indent(s) == k,
    decreases k,
{
    if k > 0 {
        assert forall|i: int| 0 <= i < k - 1 implies s.skip(1)[i] == ' ' by {
            assert(s.skip(1)[i] == s[i + 1]);
        }
        assert(s[0] == ' ');
        lemma_indent(s.skip(1), k - 1);
    }
}

proof fn lemma_indent_is_spaces(s: Seq<char>)
    ensures
        spec_indent(s) <= s.len(),
        forall|i: int| 0 <= i < spec_indent(s) ==> s[i] == ' ',
    decreases s.len(),
{
    if s.len() > 0 && s[0] == ' ' {
        lemma_indent_is_spaces(s.skip(1));
        assert forall|i: int| 0 <= i < spec_indent(s) implies s[i] == ' ' by {
            if i > 0 {
                assert(s[i] == s.skip(1)[i - 1]);
            }
        }
    }
}

/// A line is a task exactly where it is a checkbox, ticked or not, behind at
/// most two spaces.
pub proof fn law_task_is_a_checkbox_near_the_margin(line: Seq<char>)
    ensures
        spec_is_task_checkbox(line) <==> spec_is_task_line(line),
{
    reveal_strlit("- [ ] ");
    reveal_strlit("- [x] ");
    let n = spec_indent(line) as int;
    let rest = line.skip(n);
    lemma_indent_is_spaces(line);
    if spec_is_task_checkbox(line) {
        if text::spec_starts_with(rest, "- [ ] "@) {
            assert(line.subrange(n, n + 6) =~= rest.subrange(0, 6));
            assert(text::occurs_at(line, "- [ ] "@, n));
        } else {
            assert(line.subrange(n, n + 6) =~= rest.subrange(0, 6));
            assert(text::occurs_at(line, "- [x] "@, n));
        }
        assert(spec_checkbox_behind(line, n));
    }
    if spec_is_task_line(line) {
        let k = choose|k: int| 0 <= k <= 2 && #[trigger] spec_checkbox_behind(line, k);
        assert(line.subrange(k, k + 6)[0] == line[k]);
        lemma_indent(line, k);
        assert(rest.subrange(0, 6) =~= line.subrange(k, k + 6));
    }
}

proof fn lemma_task_checkboxes_behind(
    before: Seq<Seq<char>>,
    lines: Seq<Seq<char>>,
    line: Seq<char>,
)
    ensures
        ({
            let inside = !tasks::spec_outside_code(before, before.len() as int);
            spec_task_checkboxes(lines.push(line), inside) == spec_task_checkboxes(lines, inside)
                + if tasks::spec_outside_code(
                before + lines,
                (before.len() + lines.len()) as int,
            ) && !tasks::spec_is_fence(line) && spec_is_task_line(line) {
                1nat
            } else {
                0nat
            }
        }),
    decreases lines.len(),
{
    reveal_with_fuel(spec_task_checkboxes, 3);
    let n = before.len() as int;
    let all = lines.push(line);
    law_task_is_a_checkbox_near_the_margin(line);
    if lines.len() == 0 {
        assert(before + lines =~= before);
        assert(all[0] == line);
        assert(all.skip(1) =~= seq![]);
    } else {
        let next = before.push(lines[0]);
        let rest = lines.skip(1);
        assert(next + rest =~= before + lines);
        assert(all.skip(1) =~= rest.push(line));
        assert(all[0] == lines[0]);
        assert(before.take(n) =~= before);
        assert(next.take(n + 1) =~= next);
        assert(next.drop_last() =~= before);
        reveal(Seq::filter);
        assert(tasks::spec_outside_code(next, n + 1) == (tasks::spec_is_fence(lines[0])
            != tasks::spec_outside_code(before, n)));
        lemma_task_checkboxes_behind(next, rest, line);
    }
}

/// A task counts exactly where it stands outside any code block; no other line
/// counts.
pub proof fn law_tasks_count_outside_code(lines: Seq<Seq<char>>, line: Seq<char>)
    ensures
        spec_task_checkboxes(seq![], false) == 0,
        spec_task_checkboxes(lines.push(line), false) == spec_task_checkboxes(lines, false)
            + if tasks::spec_outside_code(lines, lines.len() as int) && !tasks::spec_is_fence(line)
            && spec_is_task_line(line) {
            1nat
        } else {
            0nat
        },
{
    let none = Seq::<Seq<char>>::empty();
    assert(none + lines =~= lines);
    assert(none.take(0) =~= none);
    reveal(Seq::filter);
    lemma_task_checkboxes_behind(none, lines, line);
}

proof fn lemma_leading_digits(digits: Seq<char>, rest: Seq<char>)
    requires
        forall|i: int| 0 <= i < digits.len() ==> text::is_digit(#[trigger] digits[i]),
        rest.len() > 0 ==> !text::is_digit(rest[0]),
    ensures
        spec_leading_digits(digits + rest) == digits,
    decreases digits.len(),
{
    let s = digits + rest;
    if digits.len() == 0 {
        assert(s =~= rest);
        assert(spec_leading_digits(s) =~= digits);
    } else {
        assert(s[0] == digits[0]);
        assert(s.skip(1) =~= digits.skip(1) + rest);
        lemma_leading_digits(digits.skip(1), rest);
        assert(spec_leading_digits(s) =~= digits);
    }
}

/// The number of a list of plans is what the first one's file name starts with:
/// all its leading digits, as they are written.
pub proof fn law_plan_number_is_what_the_name_starts_with(
    plans: Seq<PlanFileView>,
    dirs: Seq<Seq<char>>,
    digits: Seq<char>,
    rest: Seq<char>,
)
    requires
        plans.len() > 0,
        plans[0].path == segments::spec_join(dirs.push(digits + rest), seq!['/']),
        forall|k: int| 0 <= k < dirs.len() ==> !(#[trigger] dirs[k]).contains('/'),
        !rest.contains('/'),
        forall|i: int| 0 <= i < digits.len() ==> text::is_digit(#[trigger] digits[i]),
        rest.len() > 0 ==> !text::is_digit(rest[0]),
    ensures
        spec_first_plan_filename(plans) == digits + rest,
        spec_plan_number(plans) == if digits.len() > 0 {
            digits
        } else {
            "00"@
        },
{
    let parts = dirs.push(digits + rest);
    assert forall|k: int| 0 <= k < parts.len() implies !(#[trigger] parts[k]).contains('/') by {
        if k == dirs.len() && parts[k].contains('/') {
            let i = choose|i: int| 0 <= i < parts[k].len() && parts[k][i] == '/';
            if i < digits.len() {
                assert(text::is_digit(digits[i]));
            } else {
                assert(rest[i - digits.len()] == '/');
            }
        }
    }
    law_file_name_is_the_last_part(parts);
    lemma_leading_digits(digits, rest);
}

/// Without any plan the file is `plan.md` and the number `00`.
pub proof fn law_no_plan_has_number_zero()
    ensures
        spec_first_plan_filename(seq![]) == "plan.md"@,
        spec_plan_number(seq![]) == "00"@,
{
    reveal_strlit("plan.md");
}

/// A plan remains exactly where it has tasks left, and the remaining ones keep
/// their order.
pub proof fn law_plans_with_tasks_remain(plans: Seq<PlanFileView>, plan: PlanFileView)
    ensures
        spec_remaining_plans(seq![]) == Seq::<PlanFileView>::empty(),
        spec_remaining_plans(plans.push(plan)) == if tasks::spec_actionable_tasks(plan.content) > 0 {
            spec_remaining_plans(plans).push(plan)
        } else {
            spec_remaining_plans(plans)
        },
{
    reveal(Seq::filter);
    assert(plans.push(plan).drop_last() =~= plans);
}

/// A stop without confidence says why and asks for nothing.
pub proof fn law_stop_without_confidence_asks_for_nothing(reason: Seq<char>)
    ensures
        ({
            let stop = spec_zero_confidence_stop(reason);
            &&& !stop.should_continue && !stop.all_plan_done
            &&& stop.next_prompt is None && stop.thread_summary is None && stop.handover is None
            &&& stop.reason == Some(reason)
            &&& stop.confidence matches Some(c) && c.value.bits == 0 && c.two_decimals == "0.00"@
        }),
{
}

/// Plans count as lists of tasks where one of them has at least three.
pub proof fn law_three_tasks_make_a_list(ctx: &AutoPromptContext, r: bool)
    requires
        call_ensures(AutoPromptContext::compute_plan_has_checkboxes, (ctx,), r),
    ensures
        r <==> (exists|i: int|
            0 <= i < ctx.plan_files@.len() && spec_task_checkboxes(
                segments::spec_lines(#[trigger] ctx.plan_files@[i].content@),
                false,
            ) > 2),
{
}

} // verus!
