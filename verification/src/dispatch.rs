//! What the editor does when a thread has stopped: sending prompts, waiting,
//! trying again, and telling the user.

use vstd::prelude::*;
use crate::chain;
use crate::chain::ChainState;
use crate::config;
use crate::config::AutoPromptConfig;
use crate::decision::{ActionView, AutoPromptAction, AutoPromptDecision, AutoPromptOutcome, LlmCallData};
use crate::first_prompt;
use crate::segments;
use crate::text;

verus! {

/// Turns auto-prompting on or off.
#[derive(Clone, Copy, Debug, PartialEq, Eq, Structural)]
pub struct ToggleAutoPrompt;

/// What auto-prompting is doing in a thread.
#[derive(Clone, Debug, PartialEq, Eq)]
pub enum AutoPromptState {
    Idle,
    /// A decision is pending.
    Processing,
    /// It failed with this message.
    Failed(String),
}

impl Default for AutoPromptState {
    fn default() -> (r: AutoPromptState)
        ensures
            r is Idle,
    {
        AutoPromptState::Idle
    }
}

/// A new thread that goes on from another one.
#[derive(Clone, Debug, PartialEq, Eq)]
pub struct AutoPromptNewThread {
    pub from_session_id: String,
    pub from_title: Option<String>,
    pub next_prompt: String,
    pub work_dirs: Option<Vec<String>>,
    pub original_user_message: Option<String>,
    pub profile_id: Option<String>,
    pub last_assistant_message: Option<String>,
    pub decision_prompt: Option<String>,
}

/// The model of an `AutoPromptNewThread`.
pub struct NewThreadView {
    pub from_session_id: Seq<char>,
    pub from_title: Option<Seq<char>>,
    pub next_prompt: Seq<char>,
    pub work_dirs: Option<Seq<Seq<char>>>,
    pub original_user_message: Option<Seq<char>>,
    pub profile_id: Option<Seq<char>>,
    pub last_assistant_message: Option<Seq<char>>,
    pub decision_prompt: Option<Seq<char>>,
}

impl View for AutoPromptNewThread {
    type V = NewThreadView;

    open spec fn view(&self) -> NewThreadView {
        NewThreadView {
            from_session_id: self.from_session_id@,
            from_title: self.from_title.deep_view(),
            next_prompt: self.next_prompt@,
            work_dirs: self.work_dirs.deep_view(),
            original_user_message: self.original_user_message.deep_view(),
            profile_id: self.profile_id.deep_view(),
            last_assistant_message: self.last_assistant_message.deep_view(),
            decision_prompt: self.decision_prompt.deep_view(),
        }
    }
}

// ---------------------------------------------------------------------------
// Sending a prompt
// ---------------------------------------------------------------------------

/// Where a prompt goes.
#[derive(Clone, Debug, PartialEq, Eq)]
pub enum Destination {
    /// Into the thread it came from.
    SameThread { prompt: String },
    NewThread(AutoPromptNewThread),
}

/// The model of a `Destination`.
pub enum DestinationView {
    SameThread { prompt: Seq<char> },
    NewThread(NewThreadView),
}

impl View for Destination {
    type V = DestinationView;

    open spec fn view(&self) -> DestinationView {
        match self {
            Destination::SameThread { prompt } => DestinationView::SameThread { prompt: prompt@ },
            Destination::NewThread(thread) => DestinationView::NewThread(thread@),
        }
    }
}

/// The number of tokens from which a chain moves to a new thread: the larger
/// of the two settings, or the default where there are none.
pub open spec fn spec_fork_limit(config: Option<AutoPromptConfig>) -> nat {
    match config {
        Some(config) => if config.fork_at < config.same_thread_token_threshold {
            config.same_thread_token_threshold as nat
        } else {
            config.fork_at as nat
        },
        None => 70_000,
    }
}

/// The thread has room for more: its tokens are below the limit, or not known.
pub open spec fn spec_has_room(tokens: Option<u64>, limit: nat) -> bool {
    match tokens {
        Some(tokens) => tokens < limit,
        None => true,
    }
}

/// Whether a thread has room for more, by the settings as far as they could be read.
pub fn has_room(tokens: Option<u64>, config: Option<&AutoPromptConfig>) -> (r: bool)
    ensures
        r == spec_has_room(tokens, spec_fork_limit(spec_config(config))),
{
    let limit: usize = match config {
        Some(config) => if config.fork_at < config.same_thread_token_threshold {
            config.same_thread_token_threshold
        } else {
            config.fork_at
        },
        None => 70_000,
    };
    match tokens {
        Some(tokens) => tokens < limit as u64,
        None => true,
    }
}

/// The new thread that an action asks for.
pub open spec fn spec_new_thread(action: ActionView) -> NewThreadView {
    NewThreadView {
        from_session_id: action.from_session_id,
        from_title: action.from_title,
        next_prompt: action.next_prompt,
        work_dirs: action.work_dirs,
        original_user_message: action.original_user_message,
        profile_id: action.profile_id,
        last_assistant_message: action.last_assistant_message,
        decision_prompt: None,
    }
}

/// Where a prompt goes: without its wrapper into the same thread, if there is
/// one that is active and either has room or belongs to an agent that keeps
/// its own context; else into a new thread.
pub open spec fn spec_destination(
    action: ActionView,
    is_native_agent: bool,
    has_active_thread: bool,
    limit: nat,
) -> DestinationView {
    if has_active_thread && (!is_native_agent || spec_has_room(action.actual_input_tokens, limit)) {
        DestinationView::SameThread { prompt: first_prompt::spec_strip_wrapper(action.next_prompt) }
    } else {
        DestinationView::NewThread(spec_new_thread(action))
    }
}

/// The settings, as far as they could be read.
pub open spec fn spec_config(config: Option<&AutoPromptConfig>) -> Option<AutoPromptConfig> {
    match config {
        Some(config) => Some(*config),
        None => None,
    }
}

/// Decides where a prompt goes.
pub fn dispatch_action(
    action: AutoPromptAction,
    is_native_agent: bool,
    has_active_thread: bool,
    config: Option<&AutoPromptConfig>,
) -> (r: Destination)
    ensures
        r@ == spec_destination(
            action@,
            is_native_agent,
            has_active_thread,
            spec_fork_limit(spec_config(config)),
        ),
{
    if has_active_thread && (!is_native_agent || has_room(
        action.actual_input_tokens,
        config,
    )) {
        return Destination::SameThread {
            prompt: first_prompt::strip_first_prompt_wrapper(action.next_prompt.as_str()),
        };
    }
    Destination::NewThread(
        AutoPromptNewThread {
            from_session_id: action.from_session_id,
            from_title: action.from_title,
            next_prompt: action.next_prompt,
            work_dirs: action.work_dirs,
            original_user_message: action.original_user_message,
            profile_id: action.profile_id,
            last_assistant_message: action.last_assistant_message,
            decision_prompt: None,
        },
    )
}

// ---------------------------------------------------------------------------
// A stopped thread
// ---------------------------------------------------------------------------

/// What is started when a thread has stopped.
#[derive(Clone, Debug, PartialEq, Eq)]
pub enum Start {
    Nothing,
    /// The prompt is sent at once.
    Dispatch(AutoPromptAction),
    /// The prompt is sent after a delay, unless that is cancelled.
    DispatchAfter { action: AutoPromptAction, delay_ms: u64 },
    /// A model is asked.
    Ask(LlmCallData),
}

/// Starts what was decided, with the profile of the thread.
pub fn on_thread_stopped(decision: AutoPromptDecision, profile_id: Option<String>) -> (r: Start)
    ensures
        match decision {
            AutoPromptDecision::NoAction => r is Nothing,
            AutoPromptDecision::DispatchNow(action) => r == Start::Dispatch(
                AutoPromptAction { profile_id, ..action },
            ),
            AutoPromptDecision::DispatchAfterDelay { action, delay_ms } => r
                == (Start::DispatchAfter {
                action: AutoPromptAction { profile_id, ..action },
                delay_ms,
            }),
            AutoPromptDecision::NeedsLlmCall(data) => r == Start::Ask(
                LlmCallData { profile_id, ..data },
            ),
        },
{
    match decision {
        AutoPromptDecision::NoAction => Start::Nothing,
        AutoPromptDecision::DispatchNow(action) => {
            let mut action = action;
            action.profile_id = profile_id;
            Start::Dispatch(action)
        },
        AutoPromptDecision::DispatchAfterDelay { action, delay_ms } => {
            let mut action = action;
            action.profile_id = profile_id;
            Start::DispatchAfter { action, delay_ms }
        },
        AutoPromptDecision::NeedsLlmCall(data) => {
            let mut data = data;
            data.profile_id = profile_id;
            Start::Ask(data)
        },
    }
}

/// Whether a pending decision was cancelled: its thread is gone or no longer
/// waits for one.
pub fn is_cancelled(state: Option<&AutoPromptState>) -> (r: bool)
    ensures
        r == !(state matches Some(s) && s is Processing),
{
    match state {
        Some(AutoPromptState::Processing) => false,
        _ => true,
    }
}

/// The stored system prompt, unless the built-in one is newer; and whether it is.
pub fn current_system_prompt(
    stored: String,
    stored_version: u32,
    built_in: String,
    built_in_version: u32,
) -> (r: (String, bool))
    ensures
        r.1 == (stored_version < built_in_version),
        r.0 == if stored_version < built_in_version {
            built_in
        } else {
            stored
        },
{
    if stored_version < built_in_version {
        (built_in, true)
    } else {
        (stored, false)
    }
}

/// The system prompt for a call: the one in the settings, else the stored one,
/// else the one that the call has already.
pub fn choose_system_prompt(
    configured: &Option<String>,
    stored: Option<String>,
    present: String,
) -> (r: String)
    ensures
        r@ == match *configured {
            Some(prompt) => prompt@,
            None => match stored {
                Some(prompt) => prompt@,
                None => present@,
            },
        },
{
    match configured {
        Some(prompt) => prompt.clone(),
        None => match stored {
            Some(prompt) => prompt,
            None => present,
        },
    }
}

/// What the user is told when the built-in system prompt replaces a stored one.
pub const PROMPT_UPDATED: &'static str =
    "Auto-prompt system prompt updated to a newer version. You can customize it in Settings > Prompts.";

/// Tells the user of a system prompt that was replaced, unless the one in the
/// settings is used anyway.
pub fn update_notice(configured: &Option<String>, is_outdated: bool) -> (r: Option<String>)
    ensures
        r.deep_view() == if is_outdated && *configured is None {
            Some(PROMPT_UPDATED@)
        } else {
            None
        },
{
    if is_outdated && configured.is_none() {
        Some(text::owned(PROMPT_UPDATED))
    } else {
        None
    }
}

/// The wait before a model is asked about a thread that had an error.
pub fn pre_call_delay(data: &LlmCallData, config: &AutoPromptConfig) -> (r: Option<u64>)
    ensures
        match r {
            Some(delay) => data.had_error && delay == config::spec_backoff_ms(
                config.backoff_base_ms as nat,
                1,
            ),
            None => !data.had_error,
        },
{
    if data.had_error {
        Some(config.backoff_delay_ms(1))
    } else {
        None
    }
}

/// What follows a failed call.
#[derive(Clone, Debug, PartialEq, Eq)]
pub enum AfterFailure {
    /// The call is made again after a delay, unless that is cancelled.
    RetryAfter { delay_ms: u64 },
    /// The user is told.
    GiveUp { state: AutoPromptState, toast: String },
}

/// Counts a failed call and decides whether it is made again.
pub fn after_failure(chain: &mut ChainState, config: &AutoPromptConfig, error: &str) -> (r:
    AfterFailure)
    ensures
        ({
            let count = chain::spec_next_count(old(chain).llm_failure_count);
            &&& *final(chain) == (ChainState { llm_failure_count: count, ..*old(chain) })
            &&& match r {
                AfterFailure::RetryAfter { delay_ms } => count <= config.max_llm_retries
                    && delay_ms == config::spec_backoff_ms(
                    config.backoff_base_ms as nat,
                    count as nat,
                ),
                AfterFailure::GiveUp { state, toast } => {
                    &&& count > config.max_llm_retries
                    &&& state matches AutoPromptState::Failed(message)
                    &&& message@ == error@
                    &&& toast@ == "Auto-prompt failed: "@ + segments::spec_first_line(error@)
                },
            }
        }),
{
    let count: u32 = chain::increment_llm_failure_count(chain);
    if count <= config.max_llm_retries {
        return AfterFailure::RetryAfter { delay_ms: config.backoff_delay_ms(count) };
    }
    let lines = segments::lines(error);
    let mut toast = text::owned("Auto-prompt failed: ");
    if lines.len() > 0 {
        assert(lines.deep_view()[0] == lines@[0]@);
        toast.append(lines[0]);
    }
    assert(toast@ =~= "Auto-prompt failed: "@ + segments::spec_first_line(error@));
    AfterFailure::GiveUp { state: AutoPromptState::Failed(text::owned(error)), toast }
}

/// What follows an outcome.
#[derive(Clone, Debug, PartialEq, Eq)]
pub enum AfterOutcome {
    /// The outcome came too late and is dropped.
    Discard,
    /// The prompt is sent.
    Dispatch(AutoPromptAction),
    /// The user is told that the chain has stopped.
    Show { toast: String },
}

/// Takes the outcome of a call, unless it was cancelled meanwhile. The failed
/// calls before it are forgotten.
pub fn after_outcome(chain: &mut ChainState, outcome: AutoPromptOutcome, cancelled: bool) -> (r:
    AfterOutcome)
    ensures
        cancelled ==> r is Discard && *final(chain) == *old(chain),
        !cancelled ==> *final(chain) == (ChainState { llm_failure_count: 0, ..*old(chain) })
            && match outcome {
            AutoPromptOutcome::Continue(action) => r == AfterOutcome::Dispatch(action),
            AutoPromptOutcome::Stopped { reason } => r matches AfterOutcome::Show { toast }
                && toast@ == "Auto-prompt stopped: "@ + reason@,
        },
{
    if cancelled {
        return AfterOutcome::Discard;
    }
    chain::reset_llm_failure_count(chain);
    match outcome {
        AutoPromptOutcome::Continue(action) => AfterOutcome::Dispatch(action),
        AutoPromptOutcome::Stopped { reason } => {
            let mut toast = text::owned("Auto-prompt stopped: ");
            toast.append(reason.as_str());
            AfterOutcome::Show { toast }
        },
    }
}

// ---------------------------------------------------------------------------
// Laws
// ---------------------------------------------------------------------------

/// A chain that stays in its thread sends the bare instruction, where neither
/// summary nor last message holds the instruction's heading.
pub proof fn law_same_thread_gets_the_bare_instruction(
    action: ActionView,
    prompt: Seq<char>,
    summary: Option<Seq<char>>,
    last: Option<Seq<char>>,
    is_native_agent: bool,
    limit: nat,
)
    requires
        action.next_prompt == first_prompt::spec_with_context(prompt, summary, last),
        !text::is_blank(prompt),
        first_prompt::spec_trimmed(summary) is Some || first_prompt::spec_trimmed(last) is Some,
        first_prompt::spec_heading_is_first(
            first_prompt::spec_wrapper_head(
                first_prompt::spec_trimmed(summary),
                first_prompt::spec_trimmed(last),
            ),
            first_prompt::spec_decision_heading(
                first_prompt::spec_trimmed(summary),
                first_prompt::spec_trimmed(last),
            ),
        ),
        !is_native_agent || spec_has_room(action.actual_input_tokens, limit),
    ensures
        spec_destination(action, is_native_agent, true, limit) == (DestinationView::SameThread {
            prompt: text::spec_trim(prompt),
        }),
{
    first_prompt::law_stripping_undoes_wrapping(prompt, summary, last);
}

/// A full thread of the editor's own agent is left, with everything that the
/// action carries.
pub proof fn law_full_thread_is_left(action: ActionView, has_active_thread: bool, limit: nat)
    requires
        !spec_has_room(action.actual_input_tokens, limit),
    ensures
        spec_destination(action, true, has_active_thread, limit) == DestinationView::NewThread(
            spec_new_thread(action),
        ),
        spec_new_thread(action).next_prompt == action.next_prompt,
        spec_new_thread(action).original_user_message == action.original_user_message,
{
}

/// An active thread of the editor's own agent is left exactly where its tokens
/// are known and reach both settings: below either of them it gets the prompt
/// itself.
pub proof fn law_thread_is_left_only_at_both_settings(
    action: ActionView,
    config: AutoPromptConfig,
    tokens: u64,
)
    requires
        action.actual_input_tokens == Some(tokens),
    ensures
        spec_has_room(Some(tokens), spec_fork_limit(Some(config))) <==> tokens < config.fork_at
            || tokens < config.same_thread_token_threshold,
        tokens < config.fork_at || tokens < config.same_thread_token_threshold
            ==> spec_destination(action, true, true, spec_fork_limit(Some(config)))
            == (DestinationView::SameThread {
            prompt: first_prompt::spec_strip_wrapper(action.next_prompt),
        }),
        tokens >= config.fork_at && tokens >= config.same_thread_token_threshold
            ==> spec_destination(action, true, true, spec_fork_limit(Some(config))) is NewThread,
{
}

/// Without settings that could be read a thread is left from seventy thousand
/// tokens on. One whose tokens are not known, or that belongs to another agent,
/// is not left while it is active; without an active thread there is always a
/// new one.
pub proof fn law_other_threads_are_kept(action: ActionView, limit: nat, is_native_agent: bool)
    ensures
        spec_fork_limit(None) == 70_000,
        spec_destination(action, false, true, limit) is SameThread,
        action.actual_input_tokens is None ==> spec_destination(
            action,
            is_native_agent,
            true,
            limit,
        ) is SameThread,
        spec_destination(action, is_native_agent, false, limit) is NewThread,
{
}

/// A new thread is handed all that the action holds for it, the prompt with its
/// wrapper.
pub proof fn law_new_thread_gets_what_the_action_holds(
    action: ActionView,
    is_native_agent: bool,
    limit: nat,
)
    ensures
        spec_destination(action, is_native_agent, false, limit) matches DestinationView::NewThread(
            thread,
        ) && thread.from_session_id == action.from_session_id && thread.from_title
            == action.from_title && thread.next_prompt == action.next_prompt && thread.work_dirs
            == action.work_dirs && thread.original_user_message == action.original_user_message
            && thread.profile_id == action.profile_id && thread.last_assistant_message
            == action.last_assistant_message && thread.decision_prompt is None,
{
}

/// An outcome is dropped for a thread that is gone or no longer waits for one.
pub proof fn law_only_a_waiting_thread_takes_an_outcome(state: Option<&AutoPromptState>, r: bool)
    requires
        call_ensures(is_cancelled, (state,), r),
    ensures
        r <==> (state matches Some(s) ==> !(s is Processing)),
{
}

/// A call has room exactly below either of the two settings.
pub proof fn law_call_has_room_below_either_setting(
    tokens: u64,
    config: &AutoPromptConfig,
    r: bool,
)
    requires
        call_ensures(has_room, (Some(tokens), Some(config)), r),
    ensures
        r <==> tokens < config.fork_at || tokens < config.same_thread_token_threshold,
{
}

/// What was decided is started with the profile of the thread, and is otherwise
/// handed on as it is.
pub proof fn law_decision_is_started_with_the_profile(
    decision: AutoPromptDecision,
    profile_id: Option<String>,
    r: Start,
)
    requires
        call_ensures(on_thread_stopped, (decision, profile_id), r),
    ensures
        decision is NoAction ==> r is Nothing,
        decision matches AutoPromptDecision::DispatchNow(action) ==> (r matches Start::Dispatch(
            started,
        ) && started == (AutoPromptAction { profile_id, ..action })),
        decision matches AutoPromptDecision::DispatchAfterDelay { action, delay_ms } ==> (
        r matches Start::DispatchAfter { action: started, delay_ms: wait } && wait == delay_ms
            && started == (AutoPromptAction { profile_id, ..action })),
        decision matches AutoPromptDecision::NeedsLlmCall(data) ==> (r matches Start::Ask(asked)
            && asked == (LlmCallData { profile_id, ..data })),
{
}

/// A stored system prompt gives way only to a newer built-in one; the one in the
/// settings comes before both, and the user is told of a replaced prompt only
/// where it is used.
pub proof fn law_system_prompt_is_the_configured_or_the_newest(
    stored: String,
    stored_version: u32,
    built_in: String,
    built_in_version: u32,
    current: (String, bool),
    configured: &Option<String>,
    present: String,
    chosen: String,
    notice: Option<String>,
)
    requires
        call_ensures(
            current_system_prompt,
            (stored, stored_version, built_in, built_in_version),
            current,
        ),
        call_ensures(choose_system_prompt, (configured, Some(current.0), present), chosen),
        call_ensures(update_notice, (configured, current.1), notice),
    ensures
        configured matches Some(prompt) ==> chosen@ == prompt@ && notice is None,
        configured is None && built_in_version > stored_version ==> chosen@ == built_in@
            && notice.deep_view() == Some(PROMPT_UPDATED@),
        configured is None && built_in_version <= stored_version ==> chosen@ == stored@
            && notice is None,
{
}

/// A failed call is made again until the allowed number of retries is used up,
/// each time after twice the wait, up to a minute; then the user is told the
/// first line of the error. Only the failures are counted.
pub proof fn law_failed_calls_are_made_again(
    chain: &mut ChainState,
    config: &AutoPromptConfig,
    error: &str,
    r: AfterFailure,
)
    requires
        call_ensures(after_failure, (chain, config, error), r),
        old(chain).llm_failure_count < u32::MAX,
    ensures
        r is RetryAfter <==> old(chain).llm_failure_count < config.max_llm_retries,
        r matches AfterFailure::RetryAfter { delay_ms } ==> delay_ms == config::spec_backoff_ms(
            config.backoff_base_ms as nat,
            (old(chain).llm_failure_count + 1) as nat,
        ),
        r matches AfterFailure::GiveUp { state, toast } ==> toast@ == "Auto-prompt failed: "@
            + segments::spec_first_line(error@) && (state matches AutoPromptState::Failed(message)
            && message@ == error@),
        *final(chain) == (ChainState {
            llm_failure_count: (old(chain).llm_failure_count + 1) as u32,
            ..*old(chain)
        }),
{
}

/// An outcome is dropped where it was cancelled, and the chain stays as it was.
/// Otherwise its prompt is sent or its reason is shown, and the failed calls
/// before it are forgotten.
pub proof fn law_outcome_is_taken_unless_cancelled(
    chain: &mut ChainState,
    outcome: AutoPromptOutcome,
    cancelled: bool,
    r: AfterOutcome,
)
    requires
        call_ensures(after_outcome, (chain, outcome, cancelled), r),
    ensures
        r is Discard <==> cancelled,
        cancelled ==> *final(chain) == *old(chain),
        !cancelled ==> *final(chain) == (ChainState { llm_failure_count: 0, ..*old(chain) }),
        !cancelled ==> match outcome {
            AutoPromptOutcome::Continue(action) => r == AfterOutcome::Dispatch(action),
            AutoPromptOutcome::Stopped { reason } => r matches AfterOutcome::Show { toast }
                && toast@ == "Auto-prompt stopped: "@ + reason@,
        },
{
}

/// Only a thread that had an error waits before a model is asked, and as long as
/// a first retry would.
pub proof fn law_only_errors_delay_a_call(
    data: &LlmCallData,
    config: &AutoPromptConfig,
    r: Option<u64>,
)
    requires
        call_ensures(pre_call_delay, (data, config), r),
    ensures
        r is Some <==> data.had_error,
        r matches Some(delay) ==> delay == config::spec_backoff_ms(
            config.backoff_base_ms as nat,
            1,
        ),
{
}

} // verus!
