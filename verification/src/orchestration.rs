//! What happens with a model's answer, step by step.
//!
//! Each function takes what came back from the outside and gives the next
//! step: a finished outcome, another call to the model, or files to read.

use vstd::prelude::*;
use crate::context;
use crate::context::{AutoPromptResponse, HandoverBlock, HandoverView, PlanFileView, ResponseView};
use crate::decision::{ActionView, AutoPromptAction, AutoPromptOutcome, LlmCallData, OutcomeView};
use crate::evaluation;
use crate::evaluation::{EvaluationInput, EvaluationResult, EvaluationView, InputView};
use crate::first_prompt;
use crate::handover;
use crate::numbers;
use crate::plans;
use crate::prompts;
use crate::remaining;
use crate::segments;
use crate::text;

verus! {

/// The next step.
#[derive(Clone, Debug, PartialEq, Eq)]
pub enum Step {
    /// The outcome is there. `stop_log` is written to the log; with `reset`
    /// the chain starts over.
    Finished { outcome: AutoPromptOutcome, stop_log: Option<String>, reset: bool },
    /// The model is asked whether `section` is work that is left.
    AskSecondOpinion { system_prompt: String, context: String, section: String },
    /// After `delay_ms`, the model is asked again with a short context.
    /// `reason` is why the first answer was to stop.
    Retry { attempt: u32, delay_ms: u64, system_prompt: String, context: String, reason: String },
    /// The stop is verified: this is counted, and the plan files in the work
    /// directories are read for the prompt.
    VerifyStop,
}

/// The model of a `Step`.
pub enum StepView {
    Finished { outcome: OutcomeView, stop_log: Option<Seq<char>>, reset: bool },
    AskSecondOpinion { system_prompt: Seq<char>, context: Seq<char>, section: Seq<char> },
    Retry {
        attempt: nat,
        delay_ms: nat,
        system_prompt: Seq<char>,
        context: Seq<char>,
        reason: Seq<char>,
    },
    VerifyStop,
}

impl View for Step {
    type V = StepView;

    open spec fn view(&self) -> StepView {
        match self {
            Step::Finished { outcome, stop_log, reset } => StepView::Finished {
                outcome: outcome@,
                stop_log: stop_log.deep_view(),
                reset: *reset,
            },
            Step::AskSecondOpinion { system_prompt, context, section } => {
                StepView::AskSecondOpinion {
                    system_prompt: system_prompt@,
                    context: context@,
                    section: section@,
                }
            },
            Step::Retry { attempt, delay_ms, system_prompt, context, reason } => StepView::Retry {
                attempt: *attempt as nat,
                delay_ms: *delay_ms as nat,
                system_prompt: system_prompt@,
                context: context@,
                reason: reason@,
            },
            Step::VerifyStop => StepView::VerifyStop,
        }
    }
}

/// What the first answer of the model led to.
#[derive(Clone, Debug, PartialEq, Eq)]
pub struct Round {
    /// The answer, with its notes put before its prompt.
    pub response: AutoPromptResponse,
    /// The answer stands in for one that the model did not give.
    pub is_synthetic_failure: bool,
    /// The summary that goes before every prompt of this round.
    pub summary: Option<String>,
    pub step: Step,
}

/// The number of times the model is asked again with a short context.
pub const MAX_RETRIES: u32 = 3;

/// The system prompt for a second opinion.
pub const SECOND_OPINION_PROMPT: &'static str =
    "# version: second_opinion\nYou are a second-opinion judge. The main orchestration LLM said 'stop' but pattern detection found potential remaining work in the worker AI's last message.\n\nRespond ONLY with valid JSON:\n{\"should_continue\": bool, \"next_prompt\": null, \"reason\": string, \"all_plan_done\": false, \"confidence\": 0.8, \"thread_summary\": null}\n\n## Rules:\n1. Read the extracted section carefully — is there SPECIFIC, ACTIONABLE remaining work?\n2. Generic statements like 'remaining work:' followed by nothing actionable → should_continue=false\n3. Summary/completion messages that happen to contain trigger words → should_continue=false\n4. Actual unchecked tasks, bugs to fix, features to implement → should_continue=true\n5. When in doubt, favor stopping (should_continue=false) — the main LLM already said stop";

/// The system prompt for a retry with a short context.
pub const RETRY_PROMPT: &'static str =
    "# version: retry\nYou decide what to do next based on the AI's last message.\nPriority: the LAST ASSISTANT MESSAGE is the most important signal.\n\nRespond ONLY with valid JSON:\n{\"should_continue\": bool, \"next_prompt\": string | null, \"reason\": string | null, \"all_plan_done\": bool, \"confidence\": float, \"thread_summary\": null}\n\n## Rules (in order):\n1. LAST MESSAGE IS KING — reason about it first, before looking at plans\n2. If it asks \"would you like to continue?\" or \"want me to ...?\" → should_continue=true, next_prompt=\"continue as you prefer\"\n3. If it presents options to pick from → should_continue=true, next_prompt=\"select best for performance, security, SOLID, DRY principles\"\n4. If it reports plan done but mentions remaining phases/next steps → should_continue=true, next_prompt=\"continue with the next phase/step\"\n5. If it describes specific remaining work → should_continue=true, next_prompt=continue that specific work\n6. If genuinely complete with nothing left → should_continue=false\n7. Struck-through / skipped tasks (~~text~~, \"Skipped\", \"Cancelled\") count as DONE — do NOT continue them. If only skipped tasks remain → should_continue=false\n8. If remaining tasks seem unjustified or low-value, include #SKIP in next_prompt to signal skip\n9. confidence must be >= 0.7\n";

// ---------------------------------------------------------------------------
// Parts of an outcome
// ---------------------------------------------------------------------------

/// The action that sends `prompt` on, with the round's summary before it.
pub open spec fn spec_action(data: LlmCallData, summary: Option<Seq<char>>, prompt: Seq<char>) ->
    ActionView {
    ActionView {
        from_session_id: data.session_id@,
        from_title: data.title.deep_view(),
        next_prompt: first_prompt::spec_with_context(
            prompt,
            summary,
            data.last_assistant_message.deep_view(),
        ),
        work_dirs: data.work_dirs.deep_view(),
        original_user_message: data.original_user_message.deep_view(),
        profile_id: data.profile_id.deep_view(),
        actual_input_tokens: data.actual_input_tokens,
        last_assistant_message: data.last_assistant_message.deep_view(),
    }
}

/// The chain goes on with `prompt`.
pub open spec fn spec_go_on(data: LlmCallData, summary: Option<Seq<char>>, prompt: Seq<char>) ->
    StepView {
    StepView::Finished {
        outcome: OutcomeView::Continue(spec_action(data, summary, prompt)),
        stop_log: None,
        reset: false,
    }
}

/// The chain stops for `reason` and starts over.
pub open spec fn spec_stop(reason: Seq<char>, log: Seq<char>) -> StepView {
    StepView::Finished {
        outcome: OutcomeView::Stopped { reason },
        stop_log: Some(log),
        reset: true,
    }
}

fn copied_dirs(dirs: &Option<Vec<String>>) -> (r: Option<Vec<String>>)
    ensures
        r.deep_view() == dirs.deep_view(),
{
    match dirs {
        Some(dirs) => {
            let all = dirs.as_slice();
            assert(all.deep_view() =~= dirs.deep_view());
            Some(segments::copied(all))
        },
        None => None,
    }
}

fn go_on(data: &LlmCallData, summary: Option<&str>, prompt: String) -> (r: Step)
    ensures
        r@ == spec_go_on(*data, summary.deep_view(), prompt@),
{
    let next_prompt = first_prompt::with_first_prompt_context(
        prompt,
        summary,
        text::borrowed(&data.title),
        text::borrowed(&data.last_assistant_message),
    );
    Step::Finished {
        outcome: AutoPromptOutcome::Continue(
            AutoPromptAction {
                from_session_id: data.session_id.clone(),
                from_title: text::copied(&data.title),
                next_prompt,
                work_dirs: copied_dirs(&data.work_dirs),
                original_user_message: text::copied(&data.original_user_message),
                profile_id: text::copied(&data.profile_id),
                actual_input_tokens: data.actual_input_tokens,
                last_assistant_message: text::copied(&data.last_assistant_message),
            },
        ),
        stop_log: None,
        reset: false,
    }
}

fn stop(reason: String, log: String) -> (r: Step)
    ensures
        r@ == spec_stop(reason@, log@),
{
    Step::Finished {
        outcome: AutoPromptOutcome::Stopped { reason },
        stop_log: Some(log),
        reset: true,
    }
}

// ---------------------------------------------------------------------------
// Notes for a fork
// ---------------------------------------------------------------------------

/// The names of the plans in a context that have tasks left.
pub open spec fn spec_active_plans(context_json: Seq<char>) -> Seq<Seq<char>> {
    match plans::spec_plan_files(context_json, false) {
        Some(files) => spec_names(context::spec_remaining_plans(files)),
        None => seq![],
    }
}

/// The file names of plans.
pub open spec fn spec_names(files: Seq<PlanFileView>) -> Seq<Seq<char>> {
    files.map_values(|file: PlanFileView| context::spec_file_name(file.path))
}

/// The names of the plans in a context that have tasks left.
pub fn active_plans(context_json: &str) -> (r: Vec<String>)
    ensures
        r.deep_view() == spec_active_plans(context_json@),
{
    let mut names: Vec<String> = Vec::new();
    assert(names.deep_view() =~= seq![]);
    let files = match plans::read_context_plan_files(context_json, false) {
        Some(files) => files,
        None => {
            return names;
        },
    };
    let left = plans::remaining(&files);
    let ghost all = left.deep_view();
    let mut i: usize = 0;
    assert(spec_names(all.take(0)) =~= seq![]);
    while i < left.len()
        invariant
            i <= left.len(),
            all == left.deep_view(),
            names.deep_view() == spec_names(all.take(i as int)),
        decreases left.len() - i,
    {
        let name = context::file_name(left[i].path.as_str());
        assert(all[i as int] == left@[i as int]@);
        let ghost before = names.deep_view();
        names.push(text::owned(name));
        assert(names.deep_view() =~= before.push(name@));
        assert(names.deep_view() =~= spec_names(all.take(i + 1)));
        i = i + 1;
    }
    assert(all.take(all.len() as int) =~= all);
    names
}

/// There are no notes, or they say nothing.
pub open spec fn spec_lacks_notes(notes: Option<HandoverView>) -> bool {
    notes matches Some(block) ==> handover::spec_block_is_empty(block)
}

/// The answer has a prompt that a chain can go on with.
pub open spec fn spec_has_usable_prompt(next_prompt: Option<Seq<char>>) -> bool {
    next_prompt matches Some(prompt) && evaluation::spec_cleaned(prompt).len() > 0
}

/// The answer, with notes of what is known where the thread forks and the
/// model left none. An answer without a usable prompt stays as it is: notes
/// alone would make the chain go on.
pub open spec fn spec_with_fallback_notes(
    data: LlmCallData,
    response: ResponseView,
    forks: bool,
) -> ResponseView {
    if forks && spec_lacks_notes(response.handover) && spec_has_usable_prompt(
        response.next_prompt,
    ) {
        ResponseView {
            handover: Some(
                handover::spec_fallback(
                    data.first_user_message.deep_view(),
                    data.last_assistant_message.deep_view(),
                    spec_active_plans(data.context_json@),
                ),
            ),
            ..response
        }
    } else {
        response
    }
}

/// Puts notes into an answer that has none, where its prompt goes to a new
/// thread: the first message, the last one and the plans with tasks left.
pub fn with_fallback_notes(data: &LlmCallData, response: AutoPromptResponse, forks: bool) -> (r:
    AutoPromptResponse)
    ensures
        r@ == spec_with_fallback_notes(*data, response@, forks),
{
    let lacks_notes = match &response.handover {
        Some(block) => block.is_empty(),
        None => true,
    };
    let is_usable = match &response.next_prompt {
        Some(prompt) => evaluation::cleaned(prompt.as_str()).as_str().unicode_len() > 0,
        None => false,
    };
    if !(forks && lacks_notes && is_usable) {
        return response;
    }
    let plans = active_plans(data.context_json.as_str());
    let names = plans.as_slice();
    assert(names.deep_view() =~= plans.deep_view());
    let mut response = response;
    response.handover = Some(
        handover::synthesize_fallback(
            text::borrowed(&data.first_user_message),
            text::borrowed(&data.last_assistant_message),
            names,
        ),
    );
    response
}

// ---------------------------------------------------------------------------
// The first answer
// ---------------------------------------------------------------------------

/// The answer that stands in for a call that failed with `error`.
pub open spec fn spec_failed_call(error: Seq<char>) -> ResponseView {
    context::spec_zero_confidence_stop(
        "model orchestration call failed (timeout/empty stream): "@ + error,
    )
}

/// The answer to a call.
pub open spec fn spec_reply(reply: Result<AutoPromptResponse, String>) -> ResponseView {
    match reply {
        Ok(response) => response@,
        Err(error) => spec_failed_call(error@),
    }
}

/// The prompt of an answer, with its notes before it. Notes without a prompt
/// make a prompt of their own.
pub open spec fn spec_prompt_with_notes(response: ResponseView) -> Option<Seq<char>> {
    match response.next_prompt {
        Some(prompt) => Some(handover::spec_prepend(prompt, response.handover)),
        None => match response.handover {
            Some(block) => if handover::spec_block_is_empty(block) {
                None
            } else {
                Some(
                    handover::spec_yaml_block(block) + "\n\nContinue from the handover above."@,
                )
            },
            None => None,
        },
    }
}

/// An answer with its notes put before its prompt.
pub open spec fn spec_with_notes(response: ResponseView) -> ResponseView {
    ResponseView { next_prompt: spec_prompt_with_notes(response), ..response }
}

/// All plans are done, by the answer's flag or by the mark in its prompt.
pub open spec fn spec_all_done(response: ResponseView) -> bool {
    response.all_plan_done || (response.next_prompt matches Some(prompt) && text::spec_contains(
        prompt,
        "#ALL_PLAN_DONE"@,
    ))
}

/// The prompt that leads over from a finished plan, by the list of remaining plans.
pub open spec fn spec_next_plan_prompt(landscape: Seq<char>) -> Seq<char> {
    "All current plan tasks are checked. For your awareness, remaining plans:\n\n"@ + landscape
        + "\n\nIMPORTANT: Do NOT start a new plan automatically. Instead:\n1. Re-read your last message — finish any remaining work described there first.\n2. Commit current changes with conventional messages to feature branch.\n3. Consider closing current feature branch (merge to develop, fast-forward).\n4. Only THEN re-read this plan list and decide if any is genuinely related to what you just did.\n5. Declare: \"Reviewed remaining plans: <staying on current feature | transitioning to X because Y | stopping, nothing related>\""@
}

/// What an answer is judged by.
pub open spec fn spec_input(data: LlmCallData, response: ResponseView) -> InputView {
    InputView {
        should_continue: response.should_continue,
        confidence: response.confidence,
        next_prompt: response.next_prompt,
        reason: response.reason,
        all_plan_done: spec_all_done(response),
        next_plan_prompt: if spec_all_done(response) {
            match plans::spec_context_landscape(data.context_json@) {
                Some(landscape) => Some(spec_next_plan_prompt(landscape)),
                None => None,
            }
        } else {
            None
        },
        last_assistant_message: data.last_assistant_message.deep_view(),
        is_synthetic_failure: evaluation::spec_is_synthetic_failure(
            response.confidence,
            response.reason,
        ),
        stop_phase: data.stop_phase,
    }
}

/// The summary that goes before every prompt of the round.
pub open spec fn spec_round_summary(data: LlmCallData, response: ResponseView) -> Option<
    Seq<char>,
> {
    first_prompt::spec_prompt_summary(
        response.thread_summary,
        data.title.deep_view(),
        response.reason,
        data.last_assistant_message.deep_view(),
        data.original_user_message.deep_view(),
        data.first_user_message.deep_view(),
    )
}

/// The prompt that the chain goes on with: one for documentation gives way to
/// open checkboxes.
pub open spec fn spec_chosen_prompt(data: LlmCallData, prompt: Seq<char>) -> Seq<char> {
    if prompts::spec_asks_for_docs(text::lowercase(prompt)) {
        match prompts::spec_context_checkpoint(data.context_json@) {
            Some(checkpoint) => checkpoint,
            None => prompt,
        }
    } else {
        prompt
    }
}

fn or_none(s: &Option<String>) -> (r: &str)
    ensures
        r@ == spec_or(s.deep_view(), "(none)"@),
{
    match s {
        Some(t) => t.as_str(),
        None => "(none)",
    }
}

/// The text, or `fallback` where it is absent.
pub open spec fn spec_or(s: Option<Seq<char>>, fallback: Seq<char>) -> Seq<char> {
    match s {
        Some(t) => t,
        None => fallback,
    }
}

/// The context for a second opinion.
pub open spec fn spec_second_opinion_context(
    reason: Option<Seq<char>>,
    rule: Seq<char>,
    section: Seq<char>,
    last: Option<Seq<char>>,
) -> Seq<char> {
    "## Main LLM decision\n- should_continue: false\n- reason: "@ + spec_or(reason, "(none)"@)
        + "\n\n## Pattern detection\n- rule: "@ + rule + "\n\n## Extracted section\n"@ + section
        + "\n\n## Last assistant message (for context)\n"@ + spec_or(last, "(none)"@)
}

/// The wait before a retry: none before the first, then four and eight seconds.
pub open spec fn spec_retry_delay(attempt: nat) -> nat {
    if attempt <= 1 {
        0
    } else if attempt == 2 {
        4000
    } else {
        8000
    }
}

/// The step that asks the model again with a short context.
pub open spec fn spec_retry(data: LlmCallData, attempt: nat, reason: Seq<char>) -> StepView {
    StepView::Retry {
        attempt,
        delay_ms: spec_retry_delay(attempt),
        system_prompt: RETRY_PROMPT@,
        context: prompts::spec_retry_context(
            plans::spec_context_landscape(data.context_json@),
            data.last_assistant_message.deep_view(),
            data.title.deep_view(),
        ),
        reason,
    }
}

/// What becomes of a wish to stop that is the model's own.
pub open spec fn spec_gated_stop(verification_count: nat, max_verifications: nat) -> StepView {
    if verification_count == 0 {
        StepView::VerifyStop
    } else if verification_count < max_verifications {
        let reason = "LLM says stop after verification attempt "@ + numbers::spec_decimal(
            verification_count,
        ) + "/"@ + numbers::spec_decimal(max_verifications);
        spec_stop(reason, reason)
    } else {
        let reason = "max verification attempts ("@ + numbers::spec_decimal(max_verifications)
            + ") exceeded"@;
        spec_stop(reason, reason)
    }
}

/// The step that a judged answer leads to.
pub open spec fn spec_step_for(
    data: LlmCallData,
    input: InputView,
    summary: Option<Seq<char>>,
    judged: EvaluationView,
    verification_count: nat,
) -> StepView {
    match judged {
        EvaluationView::Continue { prompt, .. } => spec_go_on(
            data,
            summary,
            spec_chosen_prompt(data, prompt),
        ),
        EvaluationView::NeedsSecondOpinion { extracted_section, rule_reason } => {
            StepView::AskSecondOpinion {
                system_prompt: SECOND_OPINION_PROMPT@,
                context: spec_second_opinion_context(
                    input.reason,
                    rule_reason,
                    extracted_section,
                    data.last_assistant_message.deep_view(),
                ),
                section: extracted_section,
            }
        },
        EvaluationView::WantsStop { reason } => if input.is_synthetic_failure {
            spec_retry(data, 1, reason)
        } else {
            spec_gated_stop(verification_count, data.max_verification_attempts as nat)
        },
    }
}

/// The step that an answer leads to.
pub open spec fn spec_first_step(
    data: LlmCallData,
    response: ResponseView,
    verification_count: nat,
) -> StepView {
    spec_step_for(
        data,
        spec_input(data, response),
        spec_round_summary(data, response),
        evaluation::spec_evaluate(spec_input(data, response)),
        verification_count,
    )
}

fn prompt_with_notes(next_prompt: &Option<String>, notes: &Option<HandoverBlock>) -> (r: Option<
    String,
>)
    ensures
        forall|response: ResponseView|
            response.next_prompt == next_prompt.deep_view() && response.handover
                == notes.deep_view() ==> r.deep_view() == #[trigger] spec_prompt_with_notes(
                response,
            ),
{
    let block = match notes {
        Some(block) => Some(block),
        None => None,
    };
    match next_prompt {
        Some(prompt) => Some(handover::prepend_handover(prompt.as_str(), block)),
        None => match block {
            Some(block) => if block.is_empty() {
                None
            } else {
                let mut r = block.to_yaml_block();
                r.append("\n\nContinue from the handover above.");
                Some(r)
            },
            None => None,
        },
    }
}

fn next_plan_prompt(context_json: &str) -> (r: Option<String>)
    ensures
        r.deep_view() == match plans::spec_context_landscape(context_json@) {
            Some(landscape) => Some(spec_next_plan_prompt(landscape)),
            None => None,
        },
{
    match plans::build_plan_landscape(context_json) {
        Some(landscape) => {
            let mut r = text::owned(
                "All current plan tasks are checked. For your awareness, remaining plans:\n\n",
            );
            r.append(landscape.as_str());
            r.append(
                "\n\nIMPORTANT: Do NOT start a new plan automatically. Instead:\n1. Re-read your last message — finish any remaining work described there first.\n2. Commit current changes with conventional messages to feature branch.\n3. Consider closing current feature branch (merge to develop, fast-forward).\n4. Only THEN re-read this plan list and decide if any is genuinely related to what you just did.\n5. Declare: \"Reviewed remaining plans: <staying on current feature | transitioning to X because Y | stopping, nothing related>\"",
            );
            Some(r)
        },
        None => None,
    }
}

fn evaluation_input(data: &LlmCallData, response: &AutoPromptResponse, is_synthetic_failure: bool) ->
    (r: EvaluationInput)
    requires
        is_synthetic_failure == evaluation::spec_is_synthetic_failure(
            response@.confidence,
            response@.reason,
        ),
    ensures
        r@ == spec_input(*data, response@),
{
    let marked = match &response.next_prompt {
        Some(prompt) => text::contains(prompt.as_str(), "#ALL_PLAN_DONE"),
        None => false,
    };
    let all_done = response.all_plan_done || marked;
    EvaluationInput {
        should_continue: response.should_continue,
        confidence: match &response.confidence {
            Some(c) => Some(c.copied()),
            None => None,
        },
        next_prompt: text::copied(&response.next_prompt),
        reason: text::copied(&response.reason),
        all_plan_done: all_done,
        next_plan_prompt: if all_done {
            next_plan_prompt(data.context_json.as_str())
        } else {
            None
        },
        last_assistant_message: text::copied(&data.last_assistant_message),
        is_synthetic_failure,
        stop_phase: data.stop_phase,
    }
}

fn chosen_prompt(data: &LlmCallData, prompt: String) -> (r: String)
    ensures
        r@ == spec_chosen_prompt(*data, prompt@),
{
    if prompts::is_doc_creation_prompt(prompt.as_str()) {
        match prompts::build_checkbox_verification_prompt(data.context_json.as_str()) {
            Some(checkpoint) => checkpoint,
            None => prompt,
        }
    } else {
        prompt
    }
}

fn retry(data: &LlmCallData, attempt: u32, reason: &str) -> (r: Step)
    ensures
        r@ == spec_retry(*data, attempt as nat, reason@),
{
    let delay_ms: u64 = if attempt <= 1 {
        0
    } else if attempt == 2 {
        4000
    } else {
        8000
    };
    Step::Retry {
        attempt,
        delay_ms,
        system_prompt: text::owned(RETRY_PROMPT),
        context: prompts::build_lightweight_retry_context(
            data.context_json.as_str(),
            text::borrowed(&data.last_assistant_message),
            text::borrowed(&data.title),
        ),
        reason: text::owned(reason),
    }
}

fn gated_stop(verification_count: u32, max_verifications: u32) -> (r: Step)
    ensures
        r@ == spec_gated_stop(verification_count as nat, max_verifications as nat),
{
    match evaluation::handle_wants_stop(verification_count, max_verifications, true) {
        evaluation::VerificationGateResult::StopAfterVerification => {
            let mut reason = text::owned("LLM says stop after verification attempt ");
            reason.append(numbers::decimal(verification_count as u64).as_str());
            reason.append("/");
            reason.append(numbers::decimal(max_verifications as u64).as_str());
            let log = reason.clone();
            stop(reason, log)
        },
        evaluation::VerificationGateResult::StopMaxExceeded => {
            let mut reason = text::owned("max verification attempts (");
            reason.append(numbers::decimal(max_verifications as u64).as_str());
            reason.append(") exceeded");
            let log = reason.clone();
            stop(reason, log)
        },
        _ => Step::VerifyStop,
    }
}

/// The step that a judged answer leads to.
pub fn step_for(
    data: &LlmCallData,
    input: &EvaluationInput,
    summary: Option<&str>,
    judged: EvaluationResult,
    verification_count: u32,
) -> (r: Step)
    ensures
        r@ == spec_step_for(
            *data,
            input@,
            summary.deep_view(),
            judged@,
            verification_count as nat,
        ),
{
    match judged {
        EvaluationResult::Continue { prompt, .. } => {
            let prompt = chosen_prompt(data, prompt);
            go_on(data, summary, prompt)
        },
        EvaluationResult::NeedsSecondOpinion { extracted_section, rule_reason } => {
            let mut context = text::owned(
                "## Main LLM decision\n- should_continue: false\n- reason: ",
            );
            context.append(or_none(&input.reason));
            context.append("\n\n## Pattern detection\n- rule: ");
            context.append(rule_reason.as_str());
            context.append("\n\n## Extracted section\n");
            context.append(extracted_section.as_str());
            context.append("\n\n## Last assistant message (for context)\n");
            context.append(or_none(&data.last_assistant_message));
            Step::AskSecondOpinion {
                system_prompt: text::owned(SECOND_OPINION_PROMPT),
                context,
                section: extracted_section,
            }
        },
        EvaluationResult::WantsStop { reason } => if input.is_synthetic_failure {
            retry(data, 1, reason.as_str())
        } else {
            gated_stop(verification_count, data.max_verification_attempts)
        },
    }
}

/// Takes the answer to the first call, or the error that it failed with, and
/// decides how the chain goes on.
pub fn decide_with_llm(
    data: &LlmCallData,
    reply: Result<AutoPromptResponse, String>,
    verification_count: u32,
) -> (r: Round)
    ensures
        r.response@ == spec_with_notes(spec_reply(reply)),
        r.is_synthetic_failure == evaluation::spec_is_synthetic_failure(
            spec_reply(reply).confidence,
            spec_reply(reply).reason,
        ),
        r.summary.deep_view() == spec_round_summary(*data, spec_reply(reply)),
        r.step@ == spec_first_step(
            *data,
            spec_with_notes(spec_reply(reply)),
            verification_count as nat,
        ),
{
    let mut response = match reply {
        Ok(response) => response,
        Err(error) => {
            let mut reason = text::owned(
                "model orchestration call failed (timeout/empty stream): ",
            );
            reason.append(error.as_str());
            context::zero_confidence_stop(reason)
        },
    };
    let ghost answered = response@;
    response.next_prompt = prompt_with_notes(&response.next_prompt, &response.handover);
    assert(response@ == spec_with_notes(answered)) by {
        assert(response.next_prompt.deep_view() == spec_prompt_with_notes(answered));
    }
    let is_synthetic_failure = evaluation::is_synthetic_failure(
        &response.confidence,
        &response.reason,
    );
    let summary = first_prompt::build_prompt_summary(
        text::borrowed(&response.thread_summary),
        text::borrowed(&data.title),
        text::borrowed(&response.reason),
        text::borrowed(&data.last_assistant_message),
        text::borrowed(&data.original_user_message),
        text::borrowed(&data.first_user_message),
    );
    let input = evaluation_input(data, &response, is_synthetic_failure);
    let judged = evaluation::evaluate_response(&input);
    let step = step_for(data, &input, text::borrowed(&summary), judged, verification_count);
    Round { response, is_synthetic_failure, summary, step }
}

// ---------------------------------------------------------------------------
// The second opinion
// ---------------------------------------------------------------------------

/// The step after a second opinion: the chain goes on only if the model says
/// that the section is work that is left.
pub open spec fn spec_after_second_opinion(
    data: LlmCallData,
    summary: Option<Seq<char>>,
    section: Seq<char>,
    reply: Result<AutoPromptResponse, String>,
) -> StepView {
    match reply {
        Ok(response) => if response.should_continue {
            spec_go_on(data, summary, section)
        } else {
            let reason = "second opinion confirmed stop: "@ + spec_or(
                response.reason.deep_view(),
                "no reason given"@,
            );
            spec_stop(reason, reason)
        },
        Err(error) => {
            let reason = "second opinion LLM call failed: "@ + error@ + " — defaulting to stop"@;
            spec_stop(reason, reason)
        },
    }
}

/// Takes the second opinion, or the error that the call failed with.
pub fn after_second_opinion(
    data: &LlmCallData,
    summary: Option<&str>,
    section: String,
    reply: Result<AutoPromptResponse, String>,
) -> (r: Step)
    ensures
        r@ == spec_after_second_opinion(*data, summary.deep_view(), section@, reply),
{
    match reply {
        Ok(response) => if response.should_continue {
            go_on(data, summary, section)
        } else {
            let mut reason = text::owned("second opinion confirmed stop: ");
            match &response.reason {
                Some(given) => {
                    reason.append(given.as_str());
                },
                None => {
                    reason.append("no reason given");
                },
            }
            let log = reason.clone();
            stop(reason, log)
        },
        Err(error) => {
            let mut reason = text::owned("second opinion LLM call failed: ");
            reason.append(error.as_str());
            reason.append(" — defaulting to stop");
            let log = reason.clone();
            stop(reason, log)
        },
    }
}

// ---------------------------------------------------------------------------
// The retries
// ---------------------------------------------------------------------------

/// Work that is left whatever the model says: what the last message speaks of,
/// or else the unchecked tasks of the plans.
pub open spec fn spec_safety_net(data: LlmCallData) -> Option<Seq<char>> {
    match remaining::spec_remaining_work(data.last_assistant_message.deep_view()) {
        Some(prompt) => Some(prompt),
        None => prompts::spec_context_task_prompt(data.context_json@),
    }
}

fn safety_net(data: &LlmCallData) -> (r: Option<String>)
    ensures
        r.deep_view() == spec_safety_net(*data),
{
    match remaining::detect_remaining_work(text::borrowed(&data.last_assistant_message)) {
        Some(prompt) => Some(prompt),
        None => prompts::detect_remaining_plan_tasks(data.context_json.as_str()),
    }
}

/// The chain goes on with work that is left, else it stops.
pub open spec fn spec_stop_unless_work_is_left(
    data: LlmCallData,
    summary: Option<Seq<char>>,
    reason: Seq<char>,
    log: Seq<char>,
) -> StepView {
    match spec_safety_net(data) {
        Some(prompt) => spec_go_on(data, summary, prompt),
        None => spec_stop(reason, log),
    }
}

fn stop_unless_work_is_left(
    data: &LlmCallData,
    summary: Option<&str>,
    reason: String,
    log: String,
) -> (r: Step)
    ensures
        r@ == spec_stop_unless_work_is_left(*data, summary.deep_view(), reason@, log@),
{
    match safety_net(data) {
        Some(prompt) => go_on(data, summary, prompt),
        None => stop(reason, log),
    }
}

/// The reply to a retry is an answer of the model.
pub open spec fn spec_is_answer(reply: Result<AutoPromptResponse, String>) -> bool {
    reply matches Ok(response) && !evaluation::spec_is_retry_failure(
        response@.confidence,
        response@.reason,
    )
}

/// The step after a retry. An answer is followed, except that work that is
/// left overrides a stop. Without an answer the model is asked again, and
/// after the last attempt work that is left decides.
pub open spec fn spec_after_retry(
    data: LlmCallData,
    summary: Option<Seq<char>>,
    attempt: nat,
    reason: Seq<char>,
    reply: Result<AutoPromptResponse, String>,
) -> StepView {
    if spec_is_answer(reply) {
        let response = reply->Ok_0@;
        if response.should_continue {
            spec_go_on(
                data,
                summary,
                spec_or(response.next_prompt, "Continue with remaining work."@),
            )
        } else {
            let given = spec_or(response.reason, "lightweight retry says stop"@);
            spec_stop_unless_work_is_left(data, summary, given, "lightweight retry: "@ + given)
        }
    } else if attempt < MAX_RETRIES {
        spec_retry(data, attempt + 1, reason)
    } else {
        spec_stop_unless_work_is_left(
            data,
            summary,
            "lightweight retry failed: "@ + reason,
            "lightweight retry failed after 3 attempts, no remaining work or plan tasks detected: "@
                + reason,
        )
    }
}

/// Takes the reply to a retry, or the error that it failed with.
pub fn after_retry(
    data: &LlmCallData,
    summary: Option<&str>,
    attempt: u32,
    reason: &str,
    reply: Result<AutoPromptResponse, String>,
) -> (r: Step)
    ensures
        r@ == spec_after_retry(*data, summary.deep_view(), attempt as nat, reason@, reply),
{
    if let Ok(response) = reply {
        if !evaluation::is_retry_failure(&response.confidence, &response.reason) {
            if response.should_continue {
                let prompt = match response.next_prompt {
                    Some(prompt) => prompt,
                    None => text::owned("Continue with remaining work."),
                };
                return go_on(data, summary, prompt);
            }
            let given = match response.reason {
                Some(given) => given,
                None => text::owned("lightweight retry says stop"),
            };
            let mut log = text::owned("lightweight retry: ");
            log.append(given.as_str());
            return stop_unless_work_is_left(data, summary, given, log);
        }
    }
    if attempt < MAX_RETRIES {
        return retry(data, attempt + 1, reason);
    }
    let mut stopped = text::owned("lightweight retry failed: ");
    stopped.append(reason);
    let mut log = text::owned(
        "lightweight retry failed after 3 attempts, no remaining work or plan tasks detected: ",
    );
    log.append(reason);
    stop_unless_work_is_left(data, summary, stopped, log)
}

// ---------------------------------------------------------------------------
// The verification
// ---------------------------------------------------------------------------

/// Sends the worker to verify its state before a stop, given the contents of
/// the plan files in the work directories.
pub fn verify_stop(data: &LlmCallData, summary: Option<&str>, plan_contents: &Vec<String>) -> (r:
    Step)
    ensures
        r@ == spec_go_on(
            *data,
            summary.deep_view(),
            prompts::spec_context_pre_stop_prompt(
                data.context_json@,
                plan_contents.deep_view(),
            ),
        ),
{
    match prompts::build_pre_stop_verification_prompt(data.context_json.as_str(), plan_contents) {
        Some(prompt) => go_on(data, summary, prompt),
        None => {
            let reason = text::owned("LLM says stop, no plan files found for verification");
            let log = reason.clone();
            stop(reason, log)
        },
    }
}

// ---------------------------------------------------------------------------
// Laws
// ---------------------------------------------------------------------------

/// A call that failed never ends a chain by itself: the model is asked again.
pub proof fn law_failed_call_is_retried(data: LlmCallData, error: Seq<char>, count: nat)
    ensures
        spec_first_step(data, spec_with_notes(spec_failed_call(error)), count) is Retry,
{
    reveal_strlit("model orchestration call failed (timeout/empty stream): ");
    reveal_strlit("model");
    let reason = "model orchestration call failed (timeout/empty stream): "@ + error;
    let lower = text::spec_ascii_lowercase(reason);
    assert(lower.subrange(0, 5) =~= "model"@);
    let response = spec_with_notes(spec_failed_call(error));
    assert(evaluation::spec_is_unsure(response.confidence));
    assert(evaluation::spec_is_synthetic_failure(response.confidence, response.reason));
}

/// No answer that the model gave stops a chain before the stop was verified.
pub proof fn law_no_stop_without_verification(data: LlmCallData, response: ResponseView)
    ensures
        !(spec_first_step(data, response, 0) matches StepView::Finished { outcome, .. }
            && outcome is Stopped),
{
}

/// The model is asked again three times at most: each retry counts one up, and
/// after the third there is an outcome.
pub proof fn law_retries_are_bounded(
    data: LlmCallData,
    summary: Option<Seq<char>>,
    attempt: nat,
    reason: Seq<char>,
    reply: Result<AutoPromptResponse, String>,
)
    ensures
        match spec_after_retry(data, summary, attempt, reason, reply) {
            StepView::Retry { attempt: next, reason: kept, .. } => next == attempt + 1 && next
                <= MAX_RETRIES && kept == reason,
            StepView::Finished { .. } => true,
            _ => false,
        },
{
}

/// While a last message speaks of work or a plan has unchecked tasks, a retry
/// never ends in a stop.
pub proof fn law_work_that_is_left_overrides_a_failed_retry(
    data: LlmCallData,
    summary: Option<Seq<char>>,
    attempt: nat,
    reason: Seq<char>,
    reply: Result<AutoPromptResponse, String>,
)
    requires
        spec_safety_net(data) is Some,
    ensures
        !(spec_after_retry(data, summary, attempt, reason, reply) matches StepView::Finished {
            outcome,
            ..
        } && outcome is Stopped),
{
}

/// A second opinion that fails or says no stops the chain; only a yes lets it
/// go on, and with the section in question.
pub proof fn law_second_opinion_must_say_yes(
    data: LlmCallData,
    summary: Option<Seq<char>>,
    section: Seq<char>,
    reply: Result<AutoPromptResponse, String>,
)
    ensures
        spec_after_second_opinion(data, summary, section, reply) == spec_go_on(
            data,
            summary,
            section,
        ) <==> reply is Ok && reply->Ok_0.should_continue,
{
}

/// Whatever prompt a chain goes on with, it keeps the message that the chain
/// started with, the session and the profile.
pub proof fn law_actions_keep_the_origin(
    data: LlmCallData,
    summary: Option<Seq<char>>,
    prompt: Seq<char>,
)
    ensures
        spec_action(data, summary, prompt).original_user_message
            == data.original_user_message.deep_view(),
        spec_action(data, summary, prompt).from_session_id == data.session_id@,
        spec_action(data, summary, prompt).profile_id == data.profile_id.deep_view(),
        text::spec_ends_with(spec_action(data, summary, prompt).next_prompt, prompt),
{
    first_prompt::law_wrapped_prompt_ends_in_the_prompt(
        prompt,
        summary,
        data.last_assistant_message.deep_view(),
    );
}

/// Notes that the model leaves for the next thread stand at the start of the
/// prompt that it gets.
pub proof fn law_notes_lead_the_prompt(response: ResponseView)
    requires
        response.handover is Some,
        !handover::spec_block_is_empty(response.handover->Some_0),
    ensures
        spec_prompt_with_notes(response) is Some,
        text::spec_starts_with(
            spec_prompt_with_notes(response)->Some_0,
            handover::spec_yaml_block(response.handover->Some_0),
        ),
{
    let block = handover::spec_yaml_block(response.handover->Some_0);
    let prompt = spec_prompt_with_notes(response)->Some_0;
    assert(prompt.subrange(0, block.len() as int) =~= block);
}

/// A prompt never goes to a new thread without notes while there is anything
/// to note: they stand at its start.
pub proof fn law_fork_carries_notes(data: LlmCallData, response: ResponseView)
    requires
        spec_has_usable_prompt(response.next_prompt),
        text::spec_present(data.first_user_message.deep_view()) is Some || text::spec_present(
            data.last_assistant_message.deep_view(),
        ) is Some || spec_active_plans(data.context_json@).len() > 0,
    ensures
        ({
            let noted = spec_with_fallback_notes(data, response, true);
            &&& !spec_lacks_notes(noted.handover)
            &&& spec_prompt_with_notes(noted) matches Some(prompt) && text::spec_starts_with(
                prompt,
                handover::spec_yaml_block(noted.handover->Some_0),
            )
        }),
{
    handover::law_fallback_is_empty_iff_nothing_is_known(
        data.first_user_message.deep_view(),
        data.last_assistant_message.deep_view(),
        spec_active_plans(data.context_json@),
    );
    law_notes_lead_the_prompt(spec_with_fallback_notes(data, response, true));
}

/// Notes that the model left are kept, and so is all of an answer in a thread
/// that does not fork.
pub proof fn law_notes_of_the_model_are_kept(
    data: LlmCallData,
    response: ResponseView,
    forks: bool,
)
    ensures
        !forks || !spec_lacks_notes(response.handover) ==> spec_with_fallback_notes(
            data,
            response,
            forks,
        ) == response,
        spec_with_fallback_notes(data, response, forks) == (ResponseView {
            handover: spec_with_fallback_notes(data, response, forks).handover,
            ..response
        }),
{
}

/// A chain that goes on hands over what the call knew of the thread, and the
/// prompt with its context before it.
pub proof fn law_action_hands_over_what_the_call_knew(
    data: LlmCallData,
    summary: Option<Seq<char>>,
    prompt: Seq<char>,
)
    ensures
        spec_go_on(data, summary, prompt) matches StepView::Finished { outcome, stop_log, reset }
            && stop_log is None && !reset && (outcome matches OutcomeView::Continue(action)
            && action.from_session_id == data.session_id@ && action.from_title
            == data.title.deep_view() && action.work_dirs == data.work_dirs.deep_view()
            && action.original_user_message == data.original_user_message.deep_view()
            && action.profile_id == data.profile_id.deep_view() && action.actual_input_tokens
            == data.actual_input_tokens && action.last_assistant_message
            == data.last_assistant_message.deep_view() && action.next_prompt
            == first_prompt::spec_with_context(
            prompt,
            summary,
            data.last_assistant_message.deep_view(),
        )),
{
}

/// A stop tells its reason, is logged, and starts the chain over.
pub proof fn law_stop_is_told_and_logged(reason: Seq<char>, log: Seq<char>)
    ensures
        spec_stop(reason, log) == (StepView::Finished {
            outcome: OutcomeView::Stopped { reason },
            stop_log: Some(log),
            reset: true,
        }),
{
}

/// An answer is judged by its own words and by what the call knew. All plans
/// count as done where it says so or its prompt bears the mark; only then is the
/// prompt for the next plan made, of the plans in the context.
pub proof fn law_answer_is_judged_by_its_own_words(data: LlmCallData, response: ResponseView)
    ensures
        ({
            let input = spec_input(data, response);
            let done = response.all_plan_done || (response.next_prompt matches Some(p)
                && text::spec_contains(p, "#ALL_PLAN_DONE"@));
            let landscape = plans::spec_context_landscape(data.context_json@);
            &&& input.should_continue == response.should_continue
            &&& input.confidence == response.confidence
            &&& input.next_prompt == response.next_prompt
            &&& input.reason == response.reason
            &&& input.all_plan_done == done
            &&& input.last_assistant_message == data.last_assistant_message.deep_view()
            &&& input.stop_phase == data.stop_phase
            &&& input.is_synthetic_failure == evaluation::spec_is_synthetic_failure(
                response.confidence,
                response.reason,
            )
            &&& input.next_plan_prompt is Some <==> done && landscape is Some
            &&& input.next_plan_prompt matches Some(prompt) ==> text::spec_starts_with(
                prompt,
                "All current plan tasks are checked. For your awareness, remaining plans:\n\n"@
                    + landscape->Some_0 + "\n\nIMPORTANT: Do NOT start a new plan automatically."@,
            )
        }),
{
    let input = spec_input(data, response);
    if let Some(prompt) = input.next_plan_prompt {
        reveal_strlit("\n\nIMPORTANT: Do NOT start a new plan automatically.");
        reveal_strlit(
            "\n\nIMPORTANT: Do NOT start a new plan automatically. Instead:\n1. Re-read your last message — finish any remaining work described there first.\n2. Commit current changes with conventional messages to feature branch.\n3. Consider closing current feature branch (merge to develop, fast-forward).\n4. Only THEN re-read this plan list and decide if any is genuinely related to what you just did.\n5. Declare: \"Reviewed remaining plans: <staying on current feature | transitioning to X because Y | stopping, nothing related>\"",
        );
        let landscape = plans::spec_context_landscape(data.context_json@)->Some_0;
        let head =
            "All current plan tasks are checked. For your awareness, remaining plans:\n\n"@
            + landscape + "\n\nIMPORTANT: Do NOT start a new plan automatically."@;
        assert(prompt.subrange(0, head.len() as int) =~= head);
    }
}

/// A prompt for documentation gives way to a checkpoint where a plan in the
/// context has an open item; any other prompt is sent as it is.
pub proof fn law_documentation_waits_for_the_checkpoint(data: LlmCallData, prompt: Seq<char>)
    ensures
        ({
            let lower = text::lowercase(prompt);
            let asks = text::spec_contains(lower, "documentation"@) || text::spec_contains(
                lower,
                ".docs/"@,
            );
            let checkpoint = prompts::spec_context_checkpoint(data.context_json@);
            &&& !asks ==> spec_chosen_prompt(data, prompt) == prompt
            &&& asks && checkpoint is None ==> spec_chosen_prompt(data, prompt) == prompt
            &&& asks && checkpoint is Some ==> Some(spec_chosen_prompt(data, prompt)) == checkpoint
        }),
{
}

/// What an answer leads to: a wish to go on is followed with the chosen prompt;
/// work in doubt is put before a second opinion; a stand-in for an answer is
/// asked for again; and a stop is verified first.
pub proof fn law_judgment_decides_the_step(
    data: LlmCallData,
    response: ResponseView,
    verification_count: nat,
)
    ensures
        ({
            let input = spec_input(data, response);
            let summary = spec_round_summary(data, response);
            let step = spec_first_step(data, response, verification_count);
            match evaluation::spec_evaluate(input) {
                EvaluationView::Continue { prompt, .. } => step == spec_go_on(
                    data,
                    summary,
                    spec_chosen_prompt(data, prompt),
                ),
                EvaluationView::NeedsSecondOpinion { extracted_section, rule_reason } => step == (
                StepView::AskSecondOpinion {
                    system_prompt: SECOND_OPINION_PROMPT@,
                    context: spec_second_opinion_context(
                        response.reason,
                        rule_reason,
                        extracted_section,
                        data.last_assistant_message.deep_view(),
                    ),
                    section: extracted_section,
                }),
                EvaluationView::WantsStop { reason } => {
                    &&& input.is_synthetic_failure ==> step == spec_retry(data, 1, reason)
                    &&& !input.is_synthetic_failure && verification_count == 0 ==> step
                        == StepView::VerifyStop
                    &&& !input.is_synthetic_failure && verification_count > 0 ==> step is Finished
                },
            }
        }),
{
}

/// A stop after a verification says the how many-th it was; one after the last
/// allowed verification says how many there were.
pub proof fn law_verified_stop_says_the_number(count: nat, max: nat)
    requires
        count > 0,
    ensures
        ({
            let reason = if count < max {
                "LLM says stop after verification attempt "@ + numbers::spec_decimal(count) + "/"@
                    + numbers::spec_decimal(max)
            } else {
                "max verification attempts ("@ + numbers::spec_decimal(max) + ") exceeded"@
            };
            spec_gated_stop(count, max) == (StepView::Finished {
                outcome: OutcomeView::Stopped { reason },
                stop_log: Some(reason),
                reset: true,
            })
        }),
{
}

/// A second opinion is told the reason of the first, the rule, the section and
/// the last message, in this order.
pub proof fn law_second_opinion_is_told_the_first(
    reason: Seq<char>,
    rule: Seq<char>,
    section: Seq<char>,
    last: Seq<char>,
)
    ensures
        spec_second_opinion_context(Some(reason), rule, section, Some(last))
            == "## Main LLM decision\n- should_continue: false\n- reason: "@ + reason
            + "\n\n## Pattern detection\n- rule: "@ + rule + "\n\n## Extracted section\n"@ + section
            + "\n\n## Last assistant message (for context)\n"@ + last,
        spec_second_opinion_context(None, rule, section, None) == spec_second_opinion_context(
            Some("(none)"@),
            rule,
            section,
            Some("(none)"@),
        ),
{
}

/// The first retry is made at once, the second after four seconds and the third
/// after eight. Each is told of the thread, the last message and the plans, and
/// keeps the reason of the first failure.
pub proof fn law_retries_wait_longer_each_time(data: LlmCallData, reason: Seq<char>, attempt: nat)
    ensures
        spec_retry(data, attempt, reason) == (StepView::Retry {
            attempt,
            delay_ms: if attempt >= 3 {
                8000
            } else if attempt == 2 {
                4000
            } else {
                0
            },
            system_prompt: RETRY_PROMPT@,
            context: prompts::spec_retry_context(
                plans::spec_context_landscape(data.context_json@),
                data.last_assistant_message.deep_view(),
                data.title.deep_view(),
            ),
            reason,
        }),
{
}

/// What stops a chain after retries gives way to work that is left: that of the
/// last message first, else the tasks of the plans.
pub proof fn law_last_message_comes_before_the_plans(data: LlmCallData)
    ensures
        ({
            let work = remaining::spec_remaining_work(data.last_assistant_message.deep_view());
            &&& work is Some ==> spec_safety_net(data) == work
            &&& work is None ==> spec_safety_net(data) == prompts::spec_context_task_prompt(
                data.context_json@,
            )
        }),
{
}

/// An answer to a retry is followed: with its prompt, or a plain one where it
/// gives none; or with a stop, unless work is left.
pub proof fn law_retry_answer_is_followed(
    data: LlmCallData,
    summary: Option<Seq<char>>,
    attempt: nat,
    reason: Seq<char>,
    reply: Result<AutoPromptResponse, String>,
)
    requires
        reply is Ok,
        !(evaluation::spec_is_retry_failure(
            reply->Ok_0.confidence.deep_view(),
            reply->Ok_0.reason.deep_view(),
        )),
    ensures
        ({
            let response = reply->Ok_0@;
            let step = spec_after_retry(data, summary, attempt, reason, reply);
            let given = match response.reason {
                Some(r) => r,
                None => "lightweight retry says stop"@,
            };
            &&& response.should_continue ==> step == spec_go_on(
                data,
                summary,
                match response.next_prompt {
                    Some(p) => p,
                    None => "Continue with remaining work."@,
                },
            )
            &&& !response.should_continue ==> match spec_safety_net(data) {
                Some(prompt) => step == spec_go_on(data, summary, prompt),
                None => step == spec_stop(given, "lightweight retry: "@ + given),
            }
        }),
{
}

/// A retry that fails, or is not answered in earnest, is made again until there
/// were three; then the chain stops, unless work is left.
pub proof fn law_failed_retry_is_made_again(
    data: LlmCallData,
    summary: Option<Seq<char>>,
    attempt: nat,
    reason: Seq<char>,
    reply: Result<AutoPromptResponse, String>,
)
    requires
        reply matches Ok(response) ==> evaluation::spec_is_retry_failure(
            response.confidence.deep_view(),
            response.reason.deep_view(),
        ),
    ensures
        ({
            let step = spec_after_retry(data, summary, attempt, reason, reply);
            &&& attempt < 3 ==> step == spec_retry(data, attempt + 1, reason)
            &&& attempt >= 3 ==> match spec_safety_net(data) {
                Some(prompt) => step == spec_go_on(data, summary, prompt),
                None => step == spec_stop(
                    "lightweight retry failed: "@ + reason,
                    "lightweight retry failed after 3 attempts, no remaining work or plan tasks detected: "@
                        + reason,
                ),
            }
        }),
{
}

/// A second opinion that says no or fails stops the chain, and why is told.
pub proof fn law_second_opinion_stop_is_told(
    data: LlmCallData,
    summary: Option<Seq<char>>,
    section: Seq<char>,
    reply: Result<AutoPromptResponse, String>,
)
    ensures
        reply matches Ok(response) ==> (!response.should_continue ==> {
            let reason = "second opinion confirmed stop: "@ + match response.reason {
                Some(r) => r@,
                None => "no reason given"@,
            };
            spec_after_second_opinion(data, summary, section, reply) == spec_stop(reason, reason)
        }),
        reply matches Err(error) ==> {
            let reason = "second opinion LLM call failed: "@ + error@ + " — defaulting to stop"@;
            spec_after_second_opinion(data, summary, section, reply) == spec_stop(reason, reason)
        },
{
}

/// Notes go before the prompt of an answer. Notes without a prompt make one of
/// their own; an answer with neither has none.
pub proof fn law_notes_and_prompt_are_put_together(response: ResponseView)
    ensures
        ({
            let noted = spec_with_notes(response);
            let speaks = response.handover matches Some(block) && !handover::spec_block_is_empty(
                block,
            );
            let yaml = handover::spec_yaml_block(response.handover->Some_0);
            &&& !speaks ==> noted.next_prompt == response.next_prompt
            &&& speaks && response.next_prompt is Some ==> noted.next_prompt == Some(
                yaml + "\n\n"@ + response.next_prompt->Some_0,
            )
            &&& speaks && response.next_prompt is None ==> noted.next_prompt == Some(
                yaml + "\n\nContinue from the handover above."@,
            )
            &&& noted.should_continue == response.should_continue && noted.reason
                == response.reason && noted.confidence == response.confidence
                && noted.all_plan_done == response.all_plan_done && noted.thread_summary
                == response.thread_summary && noted.handover == response.handover
        }),
{
}

/// A prompt that goes to a new thread without notes of the model's own gets
/// notes of what the call knew; what has no text besides the marks gets none.
pub proof fn law_fork_without_notes_gets_what_is_known(data: LlmCallData, response: ResponseView)
    requires
        response.handover matches Some(block) ==> handover::spec_block_is_empty(block),
    ensures
        ({
            let usable = response.next_prompt matches Some(p) && evaluation::spec_cleaned(p).len()
                > 0;
            &&& usable ==> spec_with_fallback_notes(data, response, true).handover == Some(
                handover::spec_fallback(
                    data.first_user_message.deep_view(),
                    data.last_assistant_message.deep_view(),
                    spec_active_plans(data.context_json@),
                ),
            )
            &&& !usable ==> spec_with_fallback_notes(data, response, true) == response
        }),
{
}

/// The active plans are the file names of the plans in the context that have
/// tasks left, in their order.
pub proof fn law_active_plans_are_named(context_json: Seq<char>, i: int)
    ensures
        match plans::spec_plan_files(context_json, false) {
            Some(files) => {
                let left = context::spec_remaining_plans(files);
                &&& spec_active_plans(context_json).len() == left.len()
                &&& 0 <= i < left.len() ==> spec_active_plans(context_json)[i]
                    == context::spec_file_name(left[i].path)
            },
            None => spec_active_plans(context_json).len() == 0,
        },
{
}

/// A call that failed stands for a stop without confidence that blames it.
pub proof fn law_failed_call_stands_for_a_stop(error: Seq<char>)
    ensures
        spec_failed_call(error).reason == Some(
            "model orchestration call failed (timeout/empty stream): "@ + error,
        ),
        !spec_failed_call(error).should_continue,
        spec_failed_call(error).confidence matches Some(c) && c.value.bits == 0,
{
}

/// The summary of a round is that of the answer and of what the call knew.
pub proof fn law_round_is_summed_up_by_what_is_known(data: LlmCallData, response: ResponseView)
    ensures
        response.thread_summary matches Some(s) && !text::is_blank(s) ==> spec_round_summary(
            data,
            response,
        ) == response.thread_summary,
        response.thread_summary is None ==> spec_round_summary(data, response)
            == first_prompt::spec_prompt_summary(
            None,
            data.title.deep_view(),
            response.reason,
            data.last_assistant_message.deep_view(),
            data.original_user_message.deep_view(),
            data.first_user_message.deep_view(),
        ),
{
}

/// What leads over to the next plan, word for word.
pub proof fn law_next_plan_prompt_word_for_word(landscape: Seq<char>)
    ensures
        spec_next_plan_prompt(landscape)
            == "All current plan tasks are checked. For your awareness, remaining plans:\n\n"@
            + landscape
            + "\n\nIMPORTANT: Do NOT start a new plan automatically. Instead:\n1. Re-read your last message — finish any remaining work described there first.\n2. Commit current changes with conventional messages to feature branch.\n3. Consider closing current feature branch (merge to develop, fast-forward).\n4. Only THEN re-read this plan list and decide if any is genuinely related to what you just did.\n5. Declare: \"Reviewed remaining plans: <staying on current feature | transitioning to X because Y | stopping, nothing related>\""@,
{
}

} // verus!
