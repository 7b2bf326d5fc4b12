//! The first decision when a thread stops: whether a model is asked at all.

use vstd::prelude::*;
use crate::chain;
use crate::compaction;
use crate::config::{AutoPromptConfig, CallTimeouts};
use crate::context;
use crate::context::{AutoPromptContext, StopPhase};
use crate::first_prompt;
use crate::numbers;
use crate::text;

verus! {

/// Why a turn of a thread ended.
#[derive(Clone, Copy, Debug, PartialEq, Eq, Structural)]
pub enum StopReason {
    EndTurn,
    MaxTokens,
    MaxTurnRequests,
    Refusal,
    Cancelled,
}

/// An entry of a thread, as far as decisions depend on it.
#[derive(Clone, Debug, PartialEq, Eq)]
pub enum ThreadEntry {
    UserMessage { content: String },
    /// A tool call: the tool, and the command in its input.
    ToolCall { tool_name: Option<String>, command: Option<String> },
    Other,
}

/// The model of a `ThreadEntry`.
pub enum ThreadEntryView {
    UserMessage { content: Seq<char> },
    ToolCall { tool_name: Option<Seq<char>>, command: Option<Seq<char>> },
    Other,
}

impl View for ThreadEntry {
    type V = ThreadEntryView;

    open spec fn view(&self) -> ThreadEntryView {
        match self {
            ThreadEntry::UserMessage { content } => ThreadEntryView::UserMessage {
                content: content@,
            },
            ThreadEntry::ToolCall { tool_name, command } => ThreadEntryView::ToolCall {
                tool_name: tool_name.deep_view(),
                command: command.deep_view(),
            },
            ThreadEntry::Other => ThreadEntryView::Other,
        }
    }
}

impl DeepView for ThreadEntry {
    type V = ThreadEntryView;

    open spec fn deep_view(&self) -> ThreadEntryView {
        self@
    }
}

/// A prompt to be sent, with what the next thread is to know.
#[derive(Clone, Debug, PartialEq, Eq)]
pub struct AutoPromptAction {
    pub from_session_id: String,
    pub from_title: Option<String>,
    pub next_prompt: String,
    pub work_dirs: Option<Vec<String>>,
    /// The message that the first thread of the chain started with.
    pub original_user_message: Option<String>,
    pub profile_id: Option<String>,
    pub actual_input_tokens: Option<u64>,
    pub last_assistant_message: Option<String>,
}

/// The model of an `AutoPromptAction`.
pub struct ActionView {
    pub from_session_id: Seq<char>,
    pub from_title: Option<Seq<char>>,
    pub next_prompt: Seq<char>,
    pub work_dirs: Option<Seq<Seq<char>>>,
    pub original_user_message: Option<Seq<char>>,
    pub profile_id: Option<Seq<char>>,
    pub actual_input_tokens: Option<u64>,
    pub last_assistant_message: Option<Seq<char>>,
}

impl View for AutoPromptAction {
    type V = ActionView;

    open spec fn view(&self) -> ActionView {
        ActionView {
            from_session_id: self.from_session_id@,
            from_title: self.from_title.deep_view(),
            next_prompt: self.next_prompt@,
            work_dirs: self.work_dirs.deep_view(),
            original_user_message: self.original_user_message.deep_view(),
            profile_id: self.profile_id.deep_view(),
            actual_input_tokens: self.actual_input_tokens,
            last_assistant_message: self.last_assistant_message.deep_view(),
        }
    }
}

/// What became of asking a model.
#[derive(Clone, Debug, PartialEq, Eq)]
pub enum AutoPromptOutcome {
    /// The chain goes on.
    Continue(AutoPromptAction),
    /// The chain has stopped.
    Stopped { reason: String },
}

/// The model of an `AutoPromptOutcome`.
pub enum OutcomeView {
    Continue(ActionView),
    Stopped { reason: Seq<char> },
}

impl View for AutoPromptOutcome {
    type V = OutcomeView;

    open spec fn view(&self) -> OutcomeView {
        match self {
            AutoPromptOutcome::Continue(action) => OutcomeView::Continue(action@),
            AutoPromptOutcome::Stopped { reason } => OutcomeView::Stopped { reason: reason@ },
        }
    }
}

/// What asking a model takes, and what its answer is used with.
#[derive(Clone, Debug, PartialEq, Eq)]
pub struct LlmCallData {
    /// The name of the model.
    pub model: String,
    pub system_prompt: String,
    pub context_json: String,
    pub project_root: Option<String>,
    pub session_id: String,
    pub title: Option<String>,
    pub iteration_count: u32,
    pub max_verification_attempts: u32,
    pub work_dirs: Option<Vec<String>>,
    pub first_user_message: Option<String>,
    pub original_user_message: Option<String>,
    pub last_assistant_message: Option<String>,
    pub profile_id: Option<String>,
    pub actual_input_tokens: Option<u64>,
    /// The thread had an error, so that a call had better wait.
    pub had_error: bool,
    pub stop_phase: StopPhase,
    pub call_timeouts: CallTimeouts,
}

/// The first decision when a thread stops.
#[derive(Clone, Debug, PartialEq, Eq)]
pub enum AutoPromptDecision {
    NoAction,
    DispatchNow(AutoPromptAction),
    DispatchAfterDelay { action: AutoPromptAction, delay_ms: u64 },
    NeedsLlmCall(LlmCallData),
}

// ---------------------------------------------------------------------------
// What the thread shows
// ---------------------------------------------------------------------------

/// A lowercase command waits for somebody to log in.
pub open spec fn spec_waits_for_login(lower: Seq<char>) -> bool {
    ||| text::spec_contains(lower, "login"@)
    ||| text::spec_contains(lower, "signin"@)
    ||| text::spec_contains(lower, "sign-in"@)
    ||| text::spec_contains(lower, "sign in"@)
    ||| text::spec_contains(lower, "auth "@)
    ||| text::spec_contains(lower, " authenticate"@)
    ||| text::spec_contains(lower, "oauth"@)
    ||| text::spec_contains(lower, "sso login"@)
}

/// Whether a lowercase command waits for somebody to log in.
pub fn waits_for_login(lower: &str) -> (r: bool)
    ensures
        r == spec_waits_for_login(lower@),
{
    text::contains(lower, "login") || text::contains(lower, "signin") || text::contains(
        lower,
        "sign-in",
    ) || text::contains(lower, "sign in") || text::contains(lower, "auth ") || text::contains(
        lower,
        " authenticate",
    ) || text::contains(lower, "oauth") || text::contains(lower, "sso login")
}

/// Whether a command opens a browser or waits for somebody to log in.
pub fn is_interactive_auth_command(command: &str) -> (r: bool)
    ensures
        r == spec_waits_for_login(text::lowercase(command@)),
{
    let lower = text::to_lowercase(command);
    waits_for_login(lower.as_str())
}

/// The entry is a terminal command that waits for somebody to log in.
pub open spec fn spec_is_login(entry: ThreadEntryView) -> bool {
    entry matches ThreadEntryView::ToolCall { tool_name, command } && tool_name == Some(
        "terminal"@,
    ) && (command matches Some(c) && spec_waits_for_login(text::lowercase(c)))
}

/// A terminal command behind the last user message waits for a login.
pub open spec fn spec_login_pending(entries: Seq<ThreadEntryView>) -> bool
    decreases entries.len(),
{
    if entries.len() == 0 || entries.last() is UserMessage {
        false
    } else {
        spec_is_login(entries.last()) || spec_login_pending(entries.drop_last())
    }
}

/// Whether somebody is in the middle of logging in: a terminal command behind
/// the last user message waits for that.
pub fn is_interactive_tool_pending(entries: &Vec<ThreadEntry>) -> (r: bool)
    ensures
        r == spec_login_pending(entries.deep_view()),
{
    let ghost all = entries.deep_view();
    let mut n: usize = entries.len();
    assert(all.take(n as int) =~= all);
    while n > 0
        invariant
            n <= entries.len(),
            all == entries.deep_view(),
            spec_login_pending(all) == spec_login_pending(all.take(n as int)),
        decreases n,
    {
        assert(all.take(n as int).last() == entries@[n - 1]@);
        assert(all.take(n as int).drop_last() =~= all.take(n - 1));
        match &entries[n - 1] {
            ThreadEntry::UserMessage { .. } => {
                return false;
            },
            ThreadEntry::ToolCall { tool_name, command } => {
                if let (Some(name), Some(command)) = (tool_name, command) {
                    if text::str_eq(name.as_str(), "terminal") && is_interactive_auth_command(
                        command.as_str(),
                    ) {
                        return true;
                    }
                }
            },
            ThreadEntry::Other => {},
        }
        n = n - 1;
    }
    false
}

/// The first user message that is not empty.
pub open spec fn spec_first_user_message(entries: Seq<ThreadEntryView>) -> Option<Seq<char>>
    decreases entries.len(),
{
    if entries.len() == 0 {
        None
    } else {
        match entries[0] {
            ThreadEntryView::UserMessage { content } if content.len() > 0 => Some(content),
            _ => spec_first_user_message(entries.skip(1)),
        }
    }
}

/// The first user message that is not empty.
pub fn first_user_message(entries: &Vec<ThreadEntry>) -> (r: Option<&str>)
    ensures
        r.deep_view() == spec_first_user_message(entries.deep_view()),
{
    let ghost all = entries.deep_view();
    let mut i: usize = 0;
    assert(all.skip(0) =~= all);
    while i < entries.len()
        invariant
            i <= entries.len(),
            all == entries.deep_view(),
            spec_first_user_message(all) == spec_first_user_message(all.skip(i as int)),
        decreases entries.len() - i,
    {
        assert(all.skip(i as int)[0] == entries@[i as int]@);
        assert(all.skip(i as int).skip(1) =~= all.skip(i + 1));
        if let ThreadEntry::UserMessage { content } = &entries[i] {
            if content.as_str().unicode_len() > 0 {
                return Some(content.as_str());
            }
        }
        i = i + 1;
    }
    None
}

// ---------------------------------------------------------------------------
// Whether a model is asked
// ---------------------------------------------------------------------------

/// What comes of a stopped thread before a model is asked.
#[derive(Clone, Debug, PartialEq, Eq)]
pub enum Gate {
    /// Nothing is done; `log` says why. With `reset` the chain starts over.
    NoAction { log: String, reset: bool },
    /// A context is collected and a model is asked.
    Proceed,
}

/// The model of a `Gate`.
pub enum GateView {
    NoAction { log: Seq<char>, reset: bool },
    Proceed,
}

impl View for Gate {
    type V = GateView;

    open spec fn view(&self) -> GateView {
        match self {
            Gate::NoAction { log, reset } => GateView::NoAction { log: log@, reset: *reset },
            Gate::Proceed => GateView::Proceed,
        }
    }
}

/// The first of these that holds: the settings cannot be read, the thread was
/// cancelled, somebody is logging in, the chain has used up its iterations,
/// there is no model. Otherwise a model is asked.
pub open spec fn spec_gate(
    settings: Result<nat, Seq<char>>,
    stop_reason: StopReason,
    login_pending: bool,
    iteration: nat,
    has_model: bool,
) -> GateView {
    match settings {
        Err(error) => GateView::NoAction { log: "config load failed: "@ + error, reset: false },
        Ok(max_iterations) => if stop_reason == StopReason::Cancelled {
            GateView::NoAction { log: "thread cancelled by user"@, reset: false }
        } else if login_pending {
            GateView::NoAction {
                log: "interactive auth tool pending — user must complete login"@,
                reset: false,
            }
        } else if iteration > max_iterations {
            GateView::NoAction {
                log: "max iterations ("@ + numbers::spec_decimal(max_iterations) + ") reached"@,
                reset: true,
            }
        } else if !has_model {
            GateView::NoAction { log: "no language model configured in Zed"@, reset: false }
        } else {
            GateView::Proceed
        },
    }
}

/// What the settings say about iterations, or why they cannot be read.
pub open spec fn spec_settings(config: Result<&AutoPromptConfig, &str>) -> Result<nat, Seq<char>> {
    match config {
        Ok(config) => Ok(config.max_iterations as nat),
        Err(error) => Err(error@),
    }
}

/// Decides whether a model is asked when a thread has stopped.
pub fn decide(
    config: Result<&AutoPromptConfig, &str>,
    stop_reason: StopReason,
    entries: &Vec<ThreadEntry>,
    iteration_count: u32,
    has_model: bool,
) -> (r: Gate)
    ensures
        r@ == spec_gate(
            spec_settings(config),
            stop_reason,
            spec_login_pending(entries.deep_view()),
            iteration_count as nat,
            has_model,
        ),
{
    let max_iterations: u32 = match config {
        Ok(config) => config.max_iterations,
        Err(error) => {
            let mut log = text::owned("config load failed: ");
            log.append(error);
            return Gate::NoAction { log, reset: false };
        },
    };
    if stop_reason == StopReason::Cancelled {
        return Gate::NoAction { log: text::owned("thread cancelled by user"), reset: false };
    }
    if is_interactive_tool_pending(entries) {
        return Gate::NoAction {
            log: text::owned("interactive auth tool pending — user must complete login"),
            reset: false,
        };
    }
    if iteration_count > max_iterations {
        let mut log = text::owned("max iterations (");
        log.append(numbers::decimal(max_iterations as u64).as_str());
        log.append(") reached");
        return Gate::NoAction { log, reset: true };
    }
    if !has_model {
        return Gate::NoAction {
            log: text::owned("no language model configured in Zed"),
            reset: false,
        };
    }
    Gate::Proceed
}

// ---------------------------------------------------------------------------
// The context for the model
// ---------------------------------------------------------------------------

/// Compaction is due: it is on, and the context is larger than it allows.
pub open spec fn spec_compaction_due(config: AutoPromptConfig, tokens: nat) -> bool {
    config.compaction matches Some(policy) && policy.enabled && tokens > policy.compact_at
}

/// What compaction leaves of the messages, and the log it leaves.
pub open spec fn spec_prepared(ctx: AutoPromptContext, config: AutoPromptConfig) ->
    compaction::Progress {
    if spec_compaction_due(config, ctx.approximate_token_count as nat) {
        compaction::spec_compacted(
            ctx.messages.deep_view(),
            ctx.compaction_log.deep_view(),
            config.compaction->Some_0.compact_target as nat,
            config.compaction->Some_0.keep_recent as nat,
        )
    } else {
        compaction::spec_start(ctx.messages.deep_view(), ctx.compaction_log.deep_view())
    }
}

/// The size of the context: the tokens that were counted, or else the estimate.
pub open spec fn spec_context_tokens(actual: Option<u64>, estimate: nat) -> nat {
    match actual {
        Some(tokens) => tokens as nat,
        None => estimate,
    }
}

/// Makes a collected context ready for the model: marks the phase, compacts
/// old messages where that is due, and tells whether the chain is about to
/// move to a new thread.
pub fn prepare_context(ctx: &mut AutoPromptContext, config: &AutoPromptConfig, verification_count: u32)
    ensures
        ({
            let prepared = spec_prepared(*old(ctx), *config);
            let due = spec_compaction_due(*config, old(ctx).approximate_token_count as nat);
            let estimate = if due {
                context::spec_estimate_tokens(prepared.messages)
            } else {
                old(ctx).approximate_token_count as nat
            };
            &&& final(ctx).messages.deep_view() == prepared.messages
            &&& final(ctx).compaction_log.deep_view() == prepared.log
            &&& final(ctx).was_truncated == if due {
                prepared.log.len() > 0
            } else {
                old(ctx).was_truncated
            }
            &&& final(ctx).approximate_token_count == estimate
            &&& final(ctx).fork_imminent == (spec_context_tokens(
                old(ctx).actual_input_tokens,
                estimate,
            ) >= config.fork_at)
        }),
        final(ctx).stop_phase == chain::spec_stop_phase(verification_count as nat),
        final(ctx).verification_count == verification_count,
        final(ctx).actual_input_tokens == old(ctx).actual_input_tokens,
        final(ctx).had_error == old(ctx).had_error,
        final(ctx).first_user_message == old(ctx).first_user_message,
        final(ctx).last_assistant_message == old(ctx).last_assistant_message,
        final(ctx).plan_files == old(ctx).plan_files,
        final(ctx).doc_files == old(ctx).doc_files,
        final(ctx).iteration_count == old(ctx).iteration_count,
        final(ctx).session_id == old(ctx).session_id,
        final(ctx).title == old(ctx).title,
        final(ctx).current_datetime == old(ctx).current_datetime,
        final(ctx).current_paths == old(ctx).current_paths,
        final(ctx).used_tools == old(ctx).used_tools,
        final(ctx).entry_count == old(ctx).entry_count,
        final(ctx).current_plan == old(ctx).current_plan,
        final(ctx).stop_reason == old(ctx).stop_reason,
        final(ctx).plan_has_checkboxes == old(ctx).plan_has_checkboxes,
        final(ctx).first_plan_filename == old(ctx).first_plan_filename,
        final(ctx).plan_number == old(ctx).plan_number,
{
    ctx.stop_phase = if verification_count == 0 {
        StopPhase::Working
    } else {
        StopPhase::PreStop
    };
    ctx.verification_count = verification_count;
    if let Some(policy) = config.compaction {
        if policy.enabled && ctx.approximate_token_count > policy.compact_at {
            let _stats = compaction::compact_old_messages(ctx, policy.compact_target, &policy);
        }
    }
    ctx.fork_imminent = match ctx.actual_input_tokens {
        Some(tokens) => tokens >= config.fork_at as u64,
        None => ctx.approximate_token_count >= config.fork_at,
    };
}

/// What the thread itself tells a model call.
#[derive(Clone, Debug, PartialEq, Eq)]
pub struct ThreadIdentity {
    pub session_id: String,
    pub title: Option<String>,
    pub work_dirs: Option<Vec<String>>,
    pub project_root: Option<String>,
}

/// The original message that the first message of a thread carries.
pub open spec fn spec_original(first: Option<Seq<char>>) -> Option<Seq<char>> {
    match first {
        Some(message) => first_prompt::spec_original_message(message),
        None => None,
    }
}

/// The decision to ask a model, with a prepared context and its serialized
/// form. A context that could not be serialized ends the matter; the text to
/// log comes with the decision.
pub fn needs_llm_call(
    ctx: &AutoPromptContext,
    config: &AutoPromptConfig,
    thread: ThreadIdentity,
    model: String,
    default_system_prompt: &str,
    context_json: Result<String, String>,
) -> (r: (AutoPromptDecision, Option<String>))
    ensures
        match context_json {
            Err(error) => r.0 is NoAction && r.1.deep_view() == Some(
                "context serialization failed: "@ + error@,
            ),
            Ok(json) => {
                &&& r.1 is None
                &&& r.0 matches AutoPromptDecision::NeedsLlmCall(data)
                &&& data.model@ == model@
                &&& data.system_prompt@ == match config.system_prompt {
                    Some(prompt) => prompt@,
                    None => default_system_prompt@,
                }
                &&& data.context_json@ == json@
                &&& data.project_root.deep_view() == thread.project_root.deep_view()
                &&& data.session_id@ == thread.session_id@
                &&& data.title.deep_view() == thread.title.deep_view()
                &&& data.iteration_count == ctx.iteration_count
                &&& data.max_verification_attempts == config.max_verification_attempts
                &&& data.work_dirs.deep_view() == thread.work_dirs.deep_view()
                &&& data.first_user_message.deep_view() == ctx.first_user_message.deep_view()
                &&& data.original_user_message.deep_view() == spec_original(
                    ctx.first_user_message.deep_view(),
                )
                &&& data.last_assistant_message.deep_view()
                    == ctx.last_assistant_message.deep_view()
                &&& data.profile_id is None
                &&& data.actual_input_tokens == ctx.actual_input_tokens
                &&& data.had_error == ctx.had_error
                &&& data.stop_phase == ctx.stop_phase
                &&& data.call_timeouts == config.call_timeouts
            },
        },
{
    let json = match context_json {
        Ok(json) => json,
        Err(error) => {
            let mut log = text::owned("context serialization failed: ");
            log.append(error.as_str());
            return (AutoPromptDecision::NoAction, Some(log));
        },
    };
    let original_user_message = match &ctx.first_user_message {
        Some(message) => first_prompt::extract_original_user_message(message.as_str()),
        None => None,
    };
    let system_prompt = match &config.system_prompt {
        Some(prompt) => prompt.clone(),
        None => text::owned(default_system_prompt),
    };
    (
        AutoPromptDecision::NeedsLlmCall(
            LlmCallData {
                model,
                system_prompt,
                context_json: json,
                project_root: thread.project_root,
                session_id: thread.session_id,
                title: thread.title,
                iteration_count: ctx.iteration_count,
                max_verification_attempts: config.max_verification_attempts,
                work_dirs: thread.work_dirs,
                first_user_message: text::copied(&ctx.first_user_message),
                original_user_message,
                last_assistant_message: text::copied(&ctx.last_assistant_message),
                profile_id: None,
                actual_input_tokens: ctx.actual_input_tokens,
                had_error: ctx.had_error,
                stop_phase: ctx.stop_phase,
                call_timeouts: config.call_timeouts,
            },
        ),
        None,
    )
}

// ---------------------------------------------------------------------------
// Laws
// ---------------------------------------------------------------------------

/// A thread that was cancelled is never prompted again by itself.
pub proof fn law_cancelled_thread_is_left_alone(
    settings: Result<nat, Seq<char>>,
    login_pending: bool,
    iteration: nat,
    has_model: bool,
)
    ensures
        spec_gate(
            settings,
            StopReason::Cancelled,
            login_pending,
            iteration,
            has_model,
        ) is NoAction,
{
}

/// A model is asked for no more than the allowed number of iterations, and
/// only an exhausted chain starts over.
pub proof fn law_iterations_are_bounded(
    settings: Result<nat, Seq<char>>,
    stop_reason: StopReason,
    login_pending: bool,
    iteration: nat,
    has_model: bool,
)
    ensures
        ({
            let gate = spec_gate(settings, stop_reason, login_pending, iteration, has_model);
            &&& gate is Proceed ==> settings is Ok && iteration <= settings->Ok_0
            &&& gate matches GateView::NoAction { reset, .. } ==> (reset ==> settings is Ok
                && iteration > settings->Ok_0)
        }),
{
}

/// A command waits for a login where it holds one of these words.
pub proof fn law_login_words(lower: Seq<char>)
    ensures
        spec_waits_for_login(lower) <==> text::spec_contains(lower, "login"@)
            || text::spec_contains(lower, "signin"@) || text::spec_contains(lower, "sign-in"@)
            || text::spec_contains(lower, "sign in"@) || text::spec_contains(lower, "auth "@)
            || text::spec_contains(lower, " authenticate"@) || text::spec_contains(lower, "oauth"@),
{
    reveal_strlit("login");
    reveal_strlit("sso login");
    if text::spec_contains(lower, "sso login"@) {
        let j = choose|j: int| text::occurs_at(lower, "sso login"@, j);
        assert("sso login"@.subrange(4, 9) =~= "login"@);
        assert(lower.subrange(j + 4, j + 9) =~= lower.subrange(j, j + 9).subrange(4, 9));
        assert(text::occurs_at(lower, "login"@, j + 4));
    }
}

/// Only a terminal command can wait for a login.
pub proof fn law_only_terminal_commands_wait_for_a_login(entry: ThreadEntryView)
    ensures
        spec_is_login(entry) <==> (entry matches ThreadEntryView::ToolCall { tool_name, command }
            && tool_name == Some("terminal"@) && (command matches Some(c) && spec_waits_for_login(
            text::lowercase(c),
        ))),
{
}

/// Somebody is logging in exactly where a command behind the user's last message
/// waits for it.
pub proof fn law_login_is_pending_behind_the_last_message(entries: Seq<ThreadEntryView>)
    ensures
        spec_login_pending(entries) <==> (exists|i: int|
            0 <= i < entries.len() && spec_is_login(#[trigger] entries[i]) && forall|j: int|
                i < j < entries.len() ==> !((#[trigger] entries[j]) is UserMessage)),
    decreases entries.len(),
{
    let n = entries.len() as int;
    if n > 0 {
        let front = entries.drop_last();
        law_login_is_pending_behind_the_last_message(front);
        if spec_login_pending(entries) {
            if spec_is_login(entries.last()) {
                assert(spec_is_login(entries[n - 1]));
            } else {
                let i = choose|i: int|
                    0 <= i < front.len() && spec_is_login(#[trigger] front[i]) && forall|j: int|
                        i < j < front.len() ==> !((#[trigger] front[j]) is UserMessage);
                assert forall|j: int| i < j < n implies !((#[trigger] entries[j]) is UserMessage) by {
                    if j < n - 1 {
                        assert(entries[j] == front[j]);
                    }
                }
                assert(spec_is_login(entries[i]));
            }
        }
        if exists|i: int|
            0 <= i < n && spec_is_login(#[trigger] entries[i]) && forall|j: int|
                i < j < n ==> !((#[trigger] entries[j]) is UserMessage) {
            let i = choose|i: int|
                0 <= i < n && spec_is_login(#[trigger] entries[i]) && forall|j: int|
                    i < j < n ==> !((#[trigger] entries[j]) is UserMessage);
            if i < n - 1 {
                assert(!(entries[n - 1] is UserMessage));
                assert(spec_is_login(front[i]));
                assert forall|j: int| i < j < front.len() implies !((#[trigger] front[j]) is UserMessage) by {
                    assert(front[j] == entries[j]);
                }
            }
        }
    }
}

/// The first message of the user is the first one that is not empty.
pub proof fn law_first_user_message_is_the_first_with_text(
    entries: Seq<ThreadEntryView>,
    k: int,
)
    requires
        0 <= k <= entries.len(),
        forall|j: int|
            0 <= j < k ==> (#[trigger] entries[j] matches ThreadEntryView::UserMessage { content }
                ==> content.len() == 0),
        k < entries.len() ==> entries[k] is UserMessage && entries[k]->content.len() > 0,
    ensures
        k == entries.len() ==> spec_first_user_message(entries) is None,
        k < entries.len() ==> spec_first_user_message(entries) == Some(entries[k]->content),
    decreases k,
{
    if k > 0 {
        let rest = entries.skip(1);
        assert forall|j: int| 0 <= j < k - 1 implies (
        #[trigger] rest[j] matches ThreadEntryView::UserMessage { content } ==> content.len()
            == 0) by {
            assert(rest[j] == entries[j + 1]);
        }
        assert(entries[0] matches ThreadEntryView::UserMessage { content } ==> content.len() == 0);
        law_first_user_message_is_the_first_with_text(rest, k - 1);
    }
}

/// A model is asked exactly where the settings can be read, the user did not
/// cancel, nobody is logging in, iterations are left and there is a model. Each
/// obstacle is logged, the first of them in this order, and only used up
/// iterations start the chain over.
pub proof fn law_first_obstacle_is_logged(
    max_iterations: nat,
    error: Seq<char>,
    stop_reason: StopReason,
    login_pending: bool,
    iteration: nat,
    has_model: bool,
)
    ensures
        spec_gate(Err(error), stop_reason, login_pending, iteration, has_model) == (
        GateView::NoAction { log: "config load failed: "@ + error, reset: false }),
        ({
            let gate = spec_gate(
                Ok(max_iterations),
                stop_reason,
                login_pending,
                iteration,
                has_model,
            );
            let cancelled = stop_reason == StopReason::Cancelled;
            &&& gate is Proceed <==> !cancelled && !login_pending && iteration <= max_iterations
                && has_model
            &&& cancelled ==> gate == (GateView::NoAction {
                log: "thread cancelled by user"@,
                reset: false,
            })
            &&& !cancelled && login_pending ==> gate == (GateView::NoAction {
                log: "interactive auth tool pending — user must complete login"@,
                reset: false,
            })
            &&& !cancelled && !login_pending && iteration > max_iterations ==> gate == (
            GateView::NoAction {
                log: "max iterations ("@ + numbers::spec_decimal(max_iterations) + ") reached"@,
                reset: true,
            })
            &&& !cancelled && !login_pending && iteration <= max_iterations && !has_model ==> gate
                == (GateView::NoAction {
                log: "no language model configured in Zed"@,
                reset: false,
            })
        }),
{
}

/// Compaction is due exactly where it is on and the context has more tokens than
/// it allows. Then the messages are compacted to its target, all but the newest
/// ones; otherwise they stay.
pub proof fn law_large_contexts_are_compacted(ctx: AutoPromptContext, config: AutoPromptConfig)
    ensures
        match config.compaction {
            Some(policy) => {
                let due = policy.enabled && ctx.approximate_token_count > policy.compact_at;
                &&& due ==> spec_prepared(ctx, config) == compaction::spec_compacted(
                    ctx.messages.deep_view(),
                    ctx.compaction_log.deep_view(),
                    policy.compact_target as nat,
                    policy.keep_recent as nat,
                )
                &&& !due ==> spec_prepared(ctx, config).messages == ctx.messages.deep_view()
                    && spec_prepared(ctx, config).log == ctx.compaction_log.deep_view()
            },
            None => spec_prepared(ctx, config).messages == ctx.messages.deep_view()
                && spec_prepared(ctx, config).log == ctx.compaction_log.deep_view(),
        },
{
}

/// Counted tokens are believed, and estimated ones only without them.
pub proof fn law_counted_tokens_are_believed(tokens: u64, estimate: nat)
    ensures
        spec_context_tokens(Some(tokens), estimate) == tokens,
        spec_context_tokens(None, estimate) == estimate,
{
}

/// The original message of a thread is recovered from its first message.
pub proof fn law_original_is_recovered_from_the_first_message(message: Seq<char>)
    ensures
        spec_original(Some(message)) == first_prompt::spec_original_message(message),
        spec_original(None) is None,
{
}

/// A prepared context says that a new thread is near exactly where its tokens
/// reach the setting: the counted ones, or else the estimate of what compaction
/// left. It is in the working phase until the first verification.
pub proof fn law_prepared_context_says_where_the_chain_is(
    ctx: &mut AutoPromptContext,
    config: &AutoPromptConfig,
    verification_count: u32,
)
    requires
        call_ensures(prepare_context, (ctx, config, verification_count), ()),
    ensures
        old(ctx).actual_input_tokens matches Some(tokens) ==> (final(ctx).fork_imminent <==> tokens
            >= config.fork_at),
        old(ctx).actual_input_tokens is None ==> (final(ctx).fork_imminent <==> final(ctx).approximate_token_count >= config.fork_at),
        final(ctx).stop_phase == if verification_count == 0 {
            StopPhase::Working
        } else {
            StopPhase::PreStop
        },
        final(ctx).verification_count == verification_count,
        config.compaction is None ==> final(ctx).messages.deep_view() == old(ctx).messages.deep_view() && final(ctx).was_truncated == old(ctx).was_truncated && final(ctx).approximate_token_count == old(ctx).approximate_token_count,
        final(ctx).iteration_count == old(ctx).iteration_count,
        final(ctx).plan_files == old(ctx).plan_files,
        final(ctx).last_assistant_message == old(ctx).last_assistant_message,
        final(ctx).first_user_message == old(ctx).first_user_message,
{
}

/// The call for a model is given what the context, the settings and the thread
/// say; a system prompt in the settings comes before the built-in one.
pub proof fn law_call_is_given_what_is_known(
    ctx: &AutoPromptContext,
    config: &AutoPromptConfig,
    thread: ThreadIdentity,
    model: String,
    built_in: &str,
    json: String,
    r: (AutoPromptDecision, Option<String>),
)
    requires
        call_ensures(
            needs_llm_call,
            (ctx, config, thread, model, built_in, Ok::<String, String>(json)),
            r,
        ),
    ensures
        r.1 is None,
        r.0 matches AutoPromptDecision::NeedsLlmCall(data) && data.model@ == model@
            && data.context_json@ == json@ && data.session_id@ == thread.session_id@
            && data.iteration_count == ctx.iteration_count && data.max_verification_attempts
            == config.max_verification_attempts && data.stop_phase == ctx.stop_phase
            && data.had_error == ctx.had_error && data.actual_input_tokens
            == ctx.actual_input_tokens && data.call_timeouts == config.call_timeouts
            && data.first_user_message.deep_view() == ctx.first_user_message.deep_view()
            && data.last_assistant_message.deep_view() == ctx.last_assistant_message.deep_view()
            && data.title.deep_view() == thread.title.deep_view() && data.work_dirs.deep_view()
            == thread.work_dirs.deep_view(),
        r.0 matches AutoPromptDecision::NeedsLlmCall(data) && data.system_prompt@
            == match config.system_prompt {
            Some(prompt) => prompt@,
            None => built_in@,
        },
{
}

} // verus!
