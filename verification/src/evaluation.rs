//! What a model's answer means for the chain.

use vstd::prelude::*;
use crate::context::StopPhase;
use crate::remaining;
use crate::score;
use crate::score::{Confidence, ConfidenceView, Score};
use crate::segments;
use crate::text;

verus! {

/// What an answer is judged by.
#[derive(Clone, Debug)]
pub struct EvaluationInput {
    pub should_continue: bool,
    pub confidence: Option<Confidence>,
    pub next_prompt: Option<String>,
    pub reason: Option<String>,
    pub all_plan_done: bool,
    /// The prompt that leads over to the next plan.
    pub next_plan_prompt: Option<String>,
    pub last_assistant_message: Option<String>,
    /// The model gave no usable answer and a stop was put in its place.
    pub is_synthetic_failure: bool,
    pub stop_phase: StopPhase,
}

/// The model of an `EvaluationInput`.
pub struct InputView {
    pub should_continue: bool,
    pub confidence: Option<ConfidenceView>,
    pub next_prompt: Option<Seq<char>>,
    pub reason: Option<Seq<char>>,
    pub all_plan_done: bool,
    pub next_plan_prompt: Option<Seq<char>>,
    pub last_assistant_message: Option<Seq<char>>,
    pub is_synthetic_failure: bool,
    pub stop_phase: StopPhase,
}

impl View for EvaluationInput {
    type V = InputView;

    open spec fn view(&self) -> InputView {
        InputView {
            should_continue: self.should_continue,
            confidence: self.confidence.deep_view(),
            next_prompt: self.next_prompt.deep_view(),
            reason: self.reason.deep_view(),
            all_plan_done: self.all_plan_done,
            next_plan_prompt: self.next_plan_prompt.deep_view(),
            last_assistant_message: self.last_assistant_message.deep_view(),
            is_synthetic_failure: self.is_synthetic_failure,
            stop_phase: self.stop_phase,
        }
    }
}

/// Who made a decision.
#[derive(Clone, Copy, Debug, PartialEq, Eq, Structural)]
pub enum DecisionSource {
    /// The model's answer was followed.
    LlmResponse,
    /// The model was not sure enough.
    ConfidenceGate,
    /// The worker had declared that it stops.
    Handbrake,
    /// The last message speaks of remaining work.
    RuleRemainingWork,
    /// The model wanted to go on but gave no prompt.
    LlmNoPrompt,
}

/// What an answer means.
#[derive(Clone, Debug, PartialEq, Eq)]
pub enum EvaluationResult {
    /// The chain goes on with this prompt.
    Continue { prompt: String, reason: String },
    /// The chain is to stop, which is verified first.
    WantsStop { reason: String },
    /// There may be work left, which another call decides.
    NeedsSecondOpinion { extracted_section: String, rule_reason: String },
}

/// The model of an `EvaluationResult`.
pub enum EvaluationView {
    Continue { prompt: Seq<char>, reason: Seq<char> },
    WantsStop { reason: Seq<char> },
    NeedsSecondOpinion { extracted_section: Seq<char>, rule_reason: Seq<char> },
}

impl View for EvaluationResult {
    type V = EvaluationView;

    open spec fn view(&self) -> EvaluationView {
        match self {
            EvaluationResult::Continue { prompt, reason } => EvaluationView::Continue {
                prompt: prompt@,
                reason: reason@,
            },
            EvaluationResult::WantsStop { reason } => EvaluationView::WantsStop {
                reason: reason@,
            },
            EvaluationResult::NeedsSecondOpinion {
                extracted_section,
                rule_reason,
            } => EvaluationView::NeedsSecondOpinion {
                extracted_section: extracted_section@,
                rule_reason: rule_reason@,
            },
        }
    }
}

/// Who decided, told by the result and its reason.
pub open spec fn spec_source(result: EvaluationView) -> DecisionSource {
    match result {
        EvaluationView::Continue { .. } => DecisionSource::LlmResponse,
        EvaluationView::WantsStop { reason } => if text::spec_starts_with(
            reason,
            "confidence too low"@,
        ) {
            DecisionSource::ConfidenceGate
        } else if text::spec_starts_with(reason, "handbrake"@) {
            DecisionSource::Handbrake
        } else if text::spec_contains(reason, "no usable prompt"@) {
            DecisionSource::LlmNoPrompt
        } else {
            DecisionSource::LlmResponse
        },
        EvaluationView::NeedsSecondOpinion { .. } => DecisionSource::RuleRemainingWork,
    }
}

impl EvaluationResult {
    /// Who decided.
    pub fn source(&self) -> (r: DecisionSource)
        ensures
            r == spec_source(self@),
    {
        match self {
            EvaluationResult::Continue { .. } => DecisionSource::LlmResponse,
            EvaluationResult::WantsStop { reason } => if text::starts_with(
                reason.as_str(),
                "confidence too low",
            ) {
                DecisionSource::ConfidenceGate
            } else if text::starts_with(reason.as_str(), "handbrake") {
                DecisionSource::Handbrake
            } else if text::contains(reason.as_str(), "no usable prompt") {
                DecisionSource::LlmNoPrompt
            } else {
                DecisionSource::LlmResponse
            },
            EvaluationResult::NeedsSecondOpinion { .. } => DecisionSource::RuleRemainingWork,
        }
    }
}

// ---------------------------------------------------------------------------
// Evaluation
// ---------------------------------------------------------------------------

/// The confidence is below one half.
pub open spec fn spec_is_unsure(confidence: Option<ConfidenceView>) -> bool {
    confidence matches Some(c) && c.value.spec_below(Score { bits: score::ONE_HALF_BITS })
}

/// A lowercase message declares that its writer stops.
pub open spec fn spec_declares_stop(lower: Seq<char>) -> bool {
    text::spec_contains(lower, "stopping"@) && (text::spec_contains(lower, "nothing related"@)
        || text::spec_contains(lower, "no further action"@) || text::spec_contains(
        lower,
        "nothing left"@,
    ) || text::spec_contains(lower, "no further work"@))
}

/// Whether a lowercase message declares that its writer stops.
pub fn declares_stop(lower: &str) -> (r: bool)
    ensures
        r == spec_declares_stop(lower@),
{
    text::contains(lower, "stopping") && (text::contains(lower, "nothing related")
        || text::contains(lower, "no further action") || text::contains(lower, "nothing left")
        || text::contains(lower, "no further work"))
}

/// The last message declares that the worker stops.
pub open spec fn spec_worker_stops(last: Option<Seq<char>>) -> bool {
    last matches Some(message) && spec_declares_stop(text::lowercase(message))
}

fn worker_stops(last: &Option<String>) -> (r: bool)
    ensures
        r == spec_worker_stops(last.deep_view()),
{
    match last {
        Some(message) => {
            let lower = text::to_lowercase(message.as_str());
            declares_stop(lower.as_str())
        },
        None => false,
    }
}

/// A prompt without the marks that the model signals with, trimmed.
pub open spec fn spec_cleaned(prompt: Seq<char>) -> Seq<char> {
    text::spec_trim(
        segments::spec_replace(
            segments::spec_replace(prompt, "#ALL_PLAN_DONE"@, ""@),
            "#SKIP"@,
            ""@,
        ),
    )
}

pub(crate) fn cleaned(prompt: &str) -> (r: String)
    ensures
        r@ == spec_cleaned(prompt@),
{
    proof {
        reveal_strlit("#ALL_PLAN_DONE");
        reveal_strlit("#SKIP");
    }
    let first = segments::replace(prompt, "#ALL_PLAN_DONE", "");
    let second = segments::replace(first.as_str(), "#SKIP", "");
    text::owned(text::trim(second.as_str()))
}

/// The prompt that closes a finished piece of work.
pub const CLEANUP_PROMPT: &'static str =
    "All plans are complete. Final cleanup: merge this feature branch into develop (fast-forward, no interactive rebase), resolve any conflicts, ensure a clean develop branch. Do NOT push — leave local for user to review.";

/// What a wish to go on means.
pub open spec fn spec_going_on(input: InputView, worker_stops: bool) -> EvaluationView {
    if input.stop_phase != StopPhase::Working && worker_stops {
        EvaluationView::WantsStop {
            reason:
                "handbrake: worker AI explicitly declared stopping after pre-stop verification"@,
        }
    } else if input.all_plan_done {
        match input.next_plan_prompt {
            Some(prompt) => EvaluationView::Continue {
                prompt,
                reason: "current plan done, transitioning to next plan"@,
            },
            None => EvaluationView::Continue {
                prompt: CLEANUP_PROMPT@,
                reason: "all plans done, dispatching final cleanup"@,
            },
        }
    } else {
        match text::spec_present(input.next_prompt) {
            Some(prompt) if spec_cleaned(prompt).len() > 0 => EvaluationView::Continue {
                prompt: spec_cleaned(prompt),
                reason: "LLM says continue with next prompt"@,
            },
            _ => EvaluationView::WantsStop {
                reason: "LLM says continue but provided no usable prompt"@,
            },
        }
    }
}

/// What a wish to stop means, given the prompt for work that the last message
/// says is left.
pub open spec fn spec_stopping(input: InputView, remaining: Option<Seq<char>>) -> EvaluationView {
    match remaining {
        Some(section) => EvaluationView::NeedsSecondOpinion {
            extracted_section: section,
            rule_reason:
                "LLM says stop but last_assistant_message contains remaining work pattern"@,
        },
        None => EvaluationView::WantsStop {
            reason: match input.reason {
                Some(reason) => reason,
                None => if text::spec_present(input.next_prompt) is Some {
                    "LLM says stop despite having prompt"@
                } else {
                    "LLM says stop, no next prompt"@
                },
            },
        },
    }
}

/// What an answer means, given what the last message says.
pub open spec fn spec_judged(
    input: InputView,
    worker_stops: bool,
    remaining: Option<Seq<char>>,
) -> EvaluationView {
    if spec_is_unsure(input.confidence) {
        EvaluationView::WantsStop {
            reason: "confidence too low ("@ + input.confidence->Some_0.two_decimals + " < 0.5)"@,
        }
    } else if input.should_continue {
        spec_going_on(input, worker_stops)
    } else {
        spec_stopping(input, remaining)
    }
}

/// What an answer means.
pub open spec fn spec_evaluate(input: InputView) -> EvaluationView {
    spec_judged(
        input,
        spec_worker_stops(input.last_assistant_message),
        remaining::spec_remaining_work(input.last_assistant_message),
    )
}

/// Judges an answer, given whether the worker declared that it stops and the
/// prompt for work that its last message says is left.
pub fn judge(input: &EvaluationInput, worker_stops: bool, remaining: Option<String>) -> (r:
    EvaluationResult)
    ensures
        r@ == spec_judged(input@, worker_stops, remaining.deep_view()),
{
    if let Some(confidence) = &input.confidence {
        if confidence.value.below(Score { bits: score::ONE_HALF_BITS }) {
            let mut reason = text::owned("confidence too low (");
            reason.append(confidence.two_decimals.as_str());
            reason.append(" < 0.5)");
            return EvaluationResult::WantsStop { reason };
        }
    }
    if input.should_continue {
        if worker_stops && input.stop_phase != StopPhase::Working {
            return EvaluationResult::WantsStop {
                reason: text::owned(
                    "handbrake: worker AI explicitly declared stopping after pre-stop verification",
                ),
            };
        }
        if input.all_plan_done {
            return match &input.next_plan_prompt {
                Some(prompt) => EvaluationResult::Continue {
                    prompt: prompt.clone(),
                    reason: text::owned("current plan done, transitioning to next plan"),
                },
                None => EvaluationResult::Continue {
                    prompt: text::owned(CLEANUP_PROMPT),
                    reason: text::owned("all plans done, dispatching final cleanup"),
                },
            };
        }
        if let Some(prompt) = text::present(text::borrowed(&input.next_prompt)) {
            let prompt = cleaned(prompt);
            if prompt.as_str().unicode_len() > 0 {
                return EvaluationResult::Continue {
                    prompt,
                    reason: text::owned("LLM says continue with next prompt"),
                };
            }
        }
        return EvaluationResult::WantsStop {
            reason: text::owned("LLM says continue but provided no usable prompt"),
        };
    }
    if let Some(section) = remaining {
        return EvaluationResult::NeedsSecondOpinion {
            extracted_section: section,
            rule_reason: text::owned(
                "LLM says stop but last_assistant_message contains remaining work pattern",
            ),
        };
    }
    let reason = match &input.reason {
        Some(reason) => reason.clone(),
        None => if text::present(text::borrowed(&input.next_prompt)).is_some() {
            text::owned("LLM says stop despite having prompt")
        } else {
            text::owned("LLM says stop, no next prompt")
        },
    };
    EvaluationResult::WantsStop { reason }
}

/// Judges an answer: whether the chain goes on, is to stop, or needs a second
/// opinion.
pub fn evaluate_response(input: &EvaluationInput) -> (r: EvaluationResult)
    ensures
        r@ == spec_evaluate(input@),
{
    let stops = worker_stops(&input.last_assistant_message);
    let last = text::borrowed(&input.last_assistant_message);
    let remaining = remaining::detect_remaining_work(last);
    judge(input, stops, remaining)
}

// ---------------------------------------------------------------------------
// Failures that stand in for an answer
// ---------------------------------------------------------------------------

/// The reason tells of a model that gave no usable answer.
pub open spec fn spec_blames_model(reason: Option<Seq<char>>) -> bool {
    reason matches Some(r) && text::spec_starts_with(text::spec_ascii_lowercase(r), "model"@)
}

fn blames_model(reason: &Option<String>) -> (r: bool)
    ensures
        r == spec_blames_model(reason.deep_view()),
{
    match reason {
        Some(reason) => {
            let lower = text::to_ascii_lowercase(reason.as_str());
            text::starts_with(lower.as_str(), "model")
        },
        None => false,
    }
}

/// The answer stands in for one that the model did not give: the confidence
/// is absent or at most three tenths, and the reason blames the model.
pub open spec fn spec_is_synthetic_failure(
    confidence: Option<ConfidenceView>,
    reason: Option<Seq<char>>,
) -> bool {
    (match confidence {
        Some(c) => c.value.spec_at_most(Score { bits: score::THREE_TENTHS_BITS }),
        None => true,
    }) && spec_blames_model(reason)
}

/// Whether an answer stands in for one that the model did not give.
pub fn is_synthetic_failure(confidence: &Option<Confidence>, reason: &Option<String>) -> (r: bool)
    ensures
        r == spec_is_synthetic_failure(confidence.deep_view(), reason.deep_view()),
{
    let is_low = match confidence {
        Some(c) => c.value.at_most(Score { bits: score::THREE_TENTHS_BITS }),
        None => true,
    };
    is_low && blames_model(reason)
}

/// The answer to a retry stands in for one that the model did not give. Here
/// an absent confidence counts as full confidence.
pub open spec fn spec_is_retry_failure(
    confidence: Option<ConfidenceView>,
    reason: Option<Seq<char>>,
) -> bool {
    (confidence matches Some(c) && c.value.spec_at_most(Score { bits: score::THREE_TENTHS_BITS }))
        && spec_blames_model(reason)
}

/// Whether the answer to a retry stands in for one that the model did not give.
pub fn is_retry_failure(confidence: &Option<Confidence>, reason: &Option<String>) -> (r: bool)
    ensures
        r == spec_is_retry_failure(confidence.deep_view(), reason.deep_view()),
{
    let is_low = match confidence {
        Some(c) => c.value.at_most(Score { bits: score::THREE_TENTHS_BITS }),
        None => false,
    };
    is_low && blames_model(reason)
}

// ---------------------------------------------------------------------------
// Before a stop
// ---------------------------------------------------------------------------

/// What happens to a wish to stop.
#[derive(Clone, Copy, Debug, PartialEq, Eq, Structural)]
pub enum VerificationGateResult {
    /// The state is verified first.
    DispatchVerification,
    /// There is nothing to verify.
    StopNoPlanFiles,
    /// It was verified already.
    StopAfterVerification,
    /// It was verified as often as allowed.
    StopMaxExceeded,
}

/// What happens to a wish to stop, by the number of verifications so far.
pub open spec fn spec_gate(
    verification_count: nat,
    max_verifications: nat,
    has_verification_prompt: bool,
) -> VerificationGateResult {
    if verification_count == 0 {
        if has_verification_prompt {
            VerificationGateResult::DispatchVerification
        } else {
            VerificationGateResult::StopNoPlanFiles
        }
    } else if verification_count < max_verifications {
        VerificationGateResult::StopAfterVerification
    } else {
        VerificationGateResult::StopMaxExceeded
    }
}

/// Decides what happens to a wish to stop.
pub fn handle_wants_stop(
    verification_count: u32,
    max_verifications: u32,
    has_verification_prompt: bool,
) -> (r: VerificationGateResult)
    ensures
        r == spec_gate(
            verification_count as nat,
            max_verifications as nat,
            has_verification_prompt,
        ),
{
    if verification_count == 0 {
        if has_verification_prompt {
            VerificationGateResult::DispatchVerification
        } else {
            VerificationGateResult::StopNoPlanFiles
        }
    } else if verification_count < max_verifications {
        VerificationGateResult::StopAfterVerification
    } else {
        VerificationGateResult::StopMaxExceeded
    }
}

// ---------------------------------------------------------------------------
// Laws
// ---------------------------------------------------------------------------

/// Low confidence overrides everything else: the chain is to stop, and the
/// low confidence is named as the reason.
pub proof fn law_low_confidence_stops(input: InputView)
    requires
        spec_is_unsure(input.confidence),
    ensures
        spec_evaluate(input) is WantsStop,
        spec_source(spec_evaluate(input)) == DecisionSource::ConfidenceGate,
{
    reveal_strlit("confidence too low (");
    reveal_strlit("confidence too low");
    let reason = "confidence too low ("@ + input.confidence->Some_0.two_decimals + " < 0.5)"@;
    let mark = "confidence too low"@;
    assert(reason.subrange(0, mark.len() as int) =~= mark);
}

/// The chain goes on only where the model wants to and is sure enough.
pub proof fn law_chain_goes_on_only_if_wanted(input: InputView)
    ensures
        spec_evaluate(input) is Continue ==> input.should_continue && !spec_is_unsure(
            input.confidence,
        ),
        spec_evaluate(input) is NeedsSecondOpinion ==> !input.should_continue && !spec_is_unsure(
            input.confidence,
        ),
{
}

/// A prompt that the chain goes on with is never blank, as long as the prompt
/// that leads over to the next plan is not.
pub proof fn law_chain_goes_on_with_a_prompt(input: InputView)
    requires
        input.next_plan_prompt matches Some(p) ==> !text::is_blank(p),
    ensures
        spec_evaluate(input) matches EvaluationView::Continue { prompt, .. } ==> !text::is_blank(
            prompt,
        ),
{
    reveal_strlit(
        "All plans are complete. Final cleanup: merge this feature branch into develop (fast-forward, no interactive rebase), resolve any conflicts, ensure a clean develop branch. Do NOT push — leave local for user to review.",
    );
    text::lemma_trim_keeps_first(CLEANUP_PROMPT@);
    if let Some(prompt) = text::spec_present(input.next_prompt) {
        text::lemma_trimmed(
            segments::spec_replace(
                segments::spec_replace(prompt, "#ALL_PLAN_DONE"@, ""@),
                "#SKIP"@,
                ""@,
            ),
        );
    }
}

/// While a chain is working, a wish to go on is judged without the last
/// message: the handbrake is for the time after a stop was asked for.
pub proof fn law_no_handbrake_while_working(input: InputView, other: InputView)
    requires
        input.stop_phase == StopPhase::Working,
        input.should_continue,
        other == (InputView { last_assistant_message: other.last_assistant_message, ..input }),
    ensures
        spec_evaluate(input) == spec_evaluate(other),
{
}

/// After a stop was asked for, a worker that declares that it stops is obeyed.
pub proof fn law_handbrake_stops(input: InputView)
    requires
        input.stop_phase != StopPhase::Working,
        input.should_continue,
        spec_worker_stops(input.last_assistant_message),
    ensures
        spec_evaluate(input) is WantsStop,
{
}

/// A finished plan chooses which prompt the chain goes on with, never whether
/// it goes on.
pub proof fn law_finished_plan_does_not_override_a_stop(input: InputView, other: InputView)
    requires
        !input.should_continue,
        other == (InputView {
            all_plan_done: other.all_plan_done,
            next_plan_prompt: other.next_plan_prompt,
            ..input
        }),
    ensures
        spec_evaluate(input) == spec_evaluate(other),
        !(spec_evaluate(input) is Continue),
{
}

/// A first wish to stop is verified wherever there is something to verify, and
/// no later one is.
pub proof fn law_stop_is_verified_once(count: nat, max: nat, has_prompt: bool)
    ensures
        spec_gate(count, max, has_prompt) == VerificationGateResult::DispatchVerification
            <==> count == 0 && has_prompt,
{
}

/// A text holds neither of the marks that the model signals with.
pub open spec fn spec_has_no_mark(s: Seq<char>) -> bool {
    !text::spec_contains(s, "#SKIP"@) && !text::spec_contains(s, "#ALL_PLAN_DONE"@)
}

/// A mark ends where it stands: it starts with `#` and holds no other one, so
/// it cannot begin in a text without marks and end in a mark behind it.
proof fn lemma_mark_ends_at_first(s: Seq<char>, mark: Seq<char>)
    requires
        !text::spec_contains(s, mark),
        mark.len() > 0,
        mark[0] == '#',
        forall|i: int| 0 < i < mark.len() ==> mark[i] != '#',
    ensures
        segments::spec_ends_at_first(s, mark),
{
    let joined = s + mark.drop_last();
    if text::spec_contains(joined, mark) {
        let j = choose|j: int| text::occurs_at(joined, mark, j);
        let found = joined.subrange(j, j + mark.len());
        if j + mark.len() <= s.len() {
            assert(s.subrange(j, j + mark.len()) =~= mark);
            assert(text::occurs_at(s, mark, j));
        } else if j < s.len() {
            assert(found[s.len() - j] == joined[s.len() as int]);
            assert(joined[s.len() as int] == mark[0]);
        } else {
            assert(found[0] == mark[j - s.len()]);
            assert(found.len() == mark.len());
        }
    }
}

proof fn lemma_no_mark_in_part(a: Seq<char>, b: Seq<char>, mark: Seq<char>)
    requires
        !text::spec_contains(a + b, mark),
    ensures
        !text::spec_contains(a, mark),
        !text::spec_contains(b, mark),
{
    if text::spec_contains(a, mark) {
        text::lemma_contains_extended(a, mark, b);
    }
    if text::spec_contains(b, mark) {
        let j = choose|j: int| text::occurs_at(b, mark, j);
        assert((a + b).subrange(a.len() + j, a.len() + j + mark.len()) =~= b.subrange(
            j,
            j + mark.len(),
        ));
        assert(text::occurs_at(a + b, mark, a.len() + j));
    }
}

/// A mark that differs from `mark` early on does not make `mark` appear.
proof fn lemma_other_mark_stays(a: Seq<char>, other: Seq<char>, b: Seq<char>, mark: Seq<char>)
    requires
        !text::spec_contains(a + b, mark),
        mark.len() > 1,
        other.len() > 1,
        mark[0] == '#',
        other[0] == '#',
        mark[1] != other[1],
        forall|i: int| 0 < i < mark.len() ==> mark[i] != '#',
        forall|i: int| 0 < i < other.len() ==> other[i] != '#',
    ensures
        !text::spec_contains(a + other + b, mark),
{
    let s = a + other + b;
    lemma_no_mark_in_part(a, b, mark);
    if text::spec_contains(s, mark) {
        let j = choose|j: int| text::occurs_at(s, mark, j);
        let found = s.subrange(j, j + mark.len());
        let n = a.len() as int;
        assert(found[0] == s[j] && found[1] == s[j + 1]);
        if j + mark.len() <= n {
            assert(a.subrange(j, j + mark.len()) =~= mark);
            assert(text::occurs_at(a, mark, j));
        } else if j < n {
            assert(found[n - j] == s[n]);
        } else if j == n {
            assert(s[n + 1] == other[1]);
        } else if j < n + other.len() {
            assert(s[j] == other[j - n]);
        } else {
            let k = j - n - other.len();
            assert(b.subrange(k, k + mark.len()) =~= mark);
            assert(text::occurs_at(b, mark, k));
        }
    }
}

proof fn lemma_mark_letters()
    ensures
        ({
            let skip = "#SKIP"@;
            let done = "#ALL_PLAN_DONE"@;
            &&& skip.len() == 5 && done.len() == 14
            &&& skip[0] == '#' && done[0] == '#' && skip[1] != done[1]
            &&& forall|i: int| 0 < i < skip.len() ==> skip[i] != '#'
            &&& forall|i: int| 0 < i < done.len() ==> done[i] != '#'
        }),
        ""@ == Seq::<char>::empty(),
{
    reveal_strlit("#SKIP");
    reveal_strlit("#ALL_PLAN_DONE");
    reveal_strlit("");
    assert(""@ =~= Seq::<char>::empty());
}

/// Cleaning a prompt removes only the marks: what stands before and behind a
/// mark stays, whichever mark it is, and a prompt without one is only trimmed.
pub proof fn law_cleaning_removes_only_the_marks(a: Seq<char>, b: Seq<char>)
    requires
        spec_has_no_mark(a + b),
    ensures
        spec_cleaned(a + b) == text::spec_trim(a + b),
        spec_cleaned(a + "#SKIP"@ + b) == text::spec_trim(a + b),
        spec_cleaned(a + "#ALL_PLAN_DONE"@ + b) == text::spec_trim(a + b),
{
    lemma_mark_letters();
    let skip = "#SKIP"@;
    let done = "#ALL_PLAN_DONE"@;
    let none = Seq::<char>::empty();
    lemma_no_mark_in_part(a, b, skip);
    lemma_no_mark_in_part(a, b, done);
    lemma_mark_ends_at_first(a, skip);
    lemma_mark_ends_at_first(b, skip);
    lemma_mark_ends_at_first(a, done);
    lemma_mark_ends_at_first(b, done);
    lemma_mark_ends_at_first(a + b, skip);
    lemma_mark_ends_at_first(a + b, done);
    segments::law_replacing_changes_only_the_pattern(a + b, done, none, none);
    segments::law_replacing_changes_only_the_pattern(a + b, skip, none, none);
    segments::law_replacing_changes_only_the_pattern(b, done, none, none);
    segments::law_replacing_changes_only_the_pattern(b, skip, none, none);
    segments::law_replacing_changes_only_the_pattern(a, done, none, b);
    segments::law_replacing_changes_only_the_pattern(a, skip, none, b);
    assert(a + none + b =~= a + b);
    // The other mark stands through the first replacement.
    lemma_other_mark_stays(a, skip, b, done);
    lemma_mark_ends_at_first(a + skip + b, done);
    segments::law_replacing_changes_only_the_pattern(a + skip + b, done, none, none);
}

/// A sure wish to go on is followed with the text of its prompt: apart from a
/// mark, all of it, in its order. The marks do not count as text.
pub proof fn law_chain_goes_on_with_the_whole_prompt(input: InputView, a: Seq<char>, b: Seq<char>)
    requires
        input.should_continue,
        input.confidence matches Some(c) ==> !(c.value.spec_below(
            Score { bits: 0x3fe0_0000_0000_0000 },
        )),
        input.stop_phase == StopPhase::Working || (input.last_assistant_message matches Some(m)
            ==> !text::spec_contains(text::lowercase(m), "stopping"@) || !(text::spec_contains(
            text::lowercase(m),
            "nothing related"@,
        ) || text::spec_contains(text::lowercase(m), "no further action"@) || text::spec_contains(
            text::lowercase(m),
            "nothing left"@,
        ) || text::spec_contains(text::lowercase(m), "no further work"@))),
        !input.all_plan_done,
        spec_has_no_mark(a + b),
        input.next_prompt == Some(a + b) || input.next_prompt == Some(a + "#SKIP"@ + b)
            || input.next_prompt == Some(a + "#ALL_PLAN_DONE"@ + b),
    ensures
        text::spec_trim(a + b).len() > 0 ==> spec_evaluate(input) == (EvaluationView::Continue {
            prompt: text::spec_trim(a + b),
            reason: "LLM says continue with next prompt"@,
        }),
        text::spec_trim(a + b).len() == 0 ==> spec_evaluate(input) == (EvaluationView::WantsStop {
            reason: "LLM says continue but provided no usable prompt"@,
        }),
{
    law_cleaning_removes_only_the_marks(a, b);
    let prompt = input.next_prompt->Some_0;
    if text::spec_trim(a + b).len() > 0 {
        // A prompt with such a text is not blank.
        lemma_blank_prompt_is_cleaned_to_nothing(prompt);
    }
}

proof fn lemma_blank_prompt_is_cleaned_to_nothing(prompt: Seq<char>)
    ensures
        text::is_blank(prompt) ==> spec_cleaned(prompt).len() == 0,
{
    if text::is_blank(prompt) {
        lemma_mark_letters();
        text::lemma_blank_is_white(prompt);
        let none = Seq::<char>::empty();
        assert(!prompt.contains('#')) by {
            if prompt.contains('#') {
                let i = choose|i: int| 0 <= i < prompt.len() && prompt[i] == '#';
                assert(text::is_white_space(prompt[i]));
            }
        }
        if text::spec_contains(prompt, "#SKIP"@) {
            let j = choose|j: int| text::occurs_at(prompt, "#SKIP"@, j);
            assert(prompt.subrange(j, j + 5)[0] == prompt[j]);
        }
        if text::spec_contains(prompt, "#ALL_PLAN_DONE"@) {
            let j = choose|j: int| text::occurs_at(prompt, "#ALL_PLAN_DONE"@, j);
            assert(prompt.subrange(j, j + 14)[0] == prompt[j]);
        }
        assert(prompt + none =~= prompt);
        law_cleaning_removes_only_the_marks(prompt, none);
    }
}

/// A confidence below one half overrides everything: the chain is to stop, and
/// the confidence is given.
pub proof fn law_confidence_below_one_half_stops(input: InputView, confidence: ConfidenceView)
    requires
        input.confidence == Some(confidence),
        confidence.value.spec_below(Score { bits: 0x3fe0_0000_0000_0000 }),
    ensures
        spec_evaluate(input) == (EvaluationView::WantsStop {
            reason: "confidence too low ("@ + confidence.two_decimals + " < 0.5)"@,
        }),
{
}

/// From one half on, or without a confidence, the model's own wish is followed
/// up: no wish to stop makes the chain go on.
pub proof fn law_sure_wishes_are_followed_up(input: InputView)
    requires
        input.confidence matches Some(c) ==> !c.value.spec_below(
            Score { bits: 0x3fe0_0000_0000_0000 },
        ),
    ensures
        !input.should_continue ==> !(spec_evaluate(input) is Continue),
        input.should_continue ==> !(spec_evaluate(input) is NeedsSecondOpinion),
{
}

/// The handbrake is these words of the last message, in capitals or not, once a
/// stop was asked for.
pub proof fn law_handbrake_words_stop(input: InputView, message: Seq<char>)
    requires
        input.confidence matches Some(c) ==> !c.value.spec_below(
            Score { bits: 0x3fe0_0000_0000_0000 },
        ),
        input.should_continue,
        input.stop_phase == StopPhase::PreStop,
        input.last_assistant_message == Some(message),
        text::spec_contains(text::lowercase(message), "stopping"@),
        text::spec_contains(text::lowercase(message), "nothing related"@) || text::spec_contains(
            text::lowercase(message),
            "no further action"@,
        ) || text::spec_contains(text::lowercase(message), "nothing left"@) || text::spec_contains(
            text::lowercase(message),
            "no further work"@,
        ),
    ensures
        spec_evaluate(input) == (EvaluationView::WantsStop {
            reason:
                "handbrake: worker AI explicitly declared stopping after pre-stop verification"@,
        }),
{
}

/// With all plans done the chain goes on to the next plan where one is known,
/// else to the final cleanup; the model's own prompt is left aside.
pub proof fn law_finished_plans_lead_on(input: InputView)
    requires
        input.confidence matches Some(c) ==> !c.value.spec_below(
            Score { bits: 0x3fe0_0000_0000_0000 },
        ),
        input.should_continue,
        input.all_plan_done,
        input.stop_phase == StopPhase::Working,
    ensures
        input.next_plan_prompt matches Some(prompt) ==> spec_evaluate(input) == (
        EvaluationView::Continue {
            prompt,
            reason: "current plan done, transitioning to next plan"@,
        }),
        input.next_plan_prompt is None ==> spec_evaluate(input) == (EvaluationView::Continue {
            prompt: CLEANUP_PROMPT@,
            reason: "all plans done, dispatching final cleanup"@,
        }),
{
}

/// A sure wish to stop is followed unless the last message leaves work, which
/// another call decides. The reason is the model's own where it gave one.
pub proof fn law_sure_stop_gives_its_reason(input: InputView)
    requires
        input.confidence matches Some(c) ==> !c.value.spec_below(
            Score { bits: 0x3fe0_0000_0000_0000 },
        ),
        !input.should_continue,
    ensures
        match remaining::spec_remaining_work(input.last_assistant_message) {
            Some(section) => spec_evaluate(input) == (EvaluationView::NeedsSecondOpinion {
                extracted_section: section,
                rule_reason:
                    "LLM says stop but last_assistant_message contains remaining work pattern"@,
            }),
            None => spec_evaluate(input) == (EvaluationView::WantsStop {
                reason: match input.reason {
                    Some(reason) => reason,
                    None => if input.next_prompt matches Some(p) && !text::is_blank(p) {
                        "LLM says stop despite having prompt"@
                    } else {
                        "LLM says stop, no next prompt"@
                    },
                },
            }),
        },
{
}

/// Who decided is told by the outcome, and of a stop by how its reason reads.
pub proof fn law_reasons_tell_who_decided(reason: Seq<char>, prompt: Seq<char>)
    ensures
        spec_source(EvaluationView::Continue { prompt, reason }) == DecisionSource::LlmResponse,
        spec_source(
            EvaluationView::NeedsSecondOpinion { extracted_section: prompt, rule_reason: reason },
        ) == DecisionSource::RuleRemainingWork,
        ({
            let source = spec_source(EvaluationView::WantsStop { reason });
            let unsure = text::spec_starts_with(reason, "confidence too low"@);
            let braked = text::spec_starts_with(reason, "handbrake"@);
            let empty = text::spec_contains(reason, "no usable prompt"@);
            &&& unsure ==> source == DecisionSource::ConfidenceGate
            &&& !unsure && braked ==> source == DecisionSource::Handbrake
            &&& !unsure && !braked && empty ==> source == DecisionSource::LlmNoPrompt
            &&& !unsure && !braked && !empty ==> source == DecisionSource::LlmResponse
        }),
{
}

/// An answer stands in for a missing one where its reason starts with the word
/// `model`, in capitals or not, and its confidence is at most three tenths. A
/// missing confidence counts as low in a first answer and as high in a retry.
pub proof fn law_missing_answer_is_told_by_reason_and_confidence(
    confidence: Option<ConfidenceView>,
    reason: Option<Seq<char>>,
)
    ensures
        ({
            let blames = reason matches Some(r) && text::spec_starts_with(
                text::spec_ascii_lowercase(r),
                "model"@,
            );
            let low = confidence matches Some(c) && c.value.spec_at_most(
                Score { bits: 0x3fd3_3333_3333_3333 },
            );
            &&& spec_is_synthetic_failure(confidence, reason) <==> blames && (low
                || confidence is None)
            &&& spec_is_retry_failure(confidence, reason) <==> blames && low
        }),
{
}

/// A first wish to stop leads to a verification where there is something to
/// verify; a later one is followed, as one that was verified until the allowed
/// number of verifications is reached.
pub proof fn law_verifications_are_counted(count: nat, max: nat, has_prompt: bool)
    ensures
        spec_gate(0, max, true) == VerificationGateResult::DispatchVerification,
        spec_gate(0, max, false) == VerificationGateResult::StopNoPlanFiles,
        0 < count < max ==> spec_gate(count, max, has_prompt)
            == VerificationGateResult::StopAfterVerification,
        count > 0 && count >= max ==> spec_gate(count, max, has_prompt)
            == VerificationGateResult::StopMaxExceeded,
{
}

/// A call follows a sure wish to go on with the whole text of its prompt.
pub proof fn law_call_goes_on_with_the_whole_prompt(
    input: &EvaluationInput,
    r: EvaluationResult,
    a: Seq<char>,
    b: Seq<char>,
)
    requires
        call_ensures(evaluate_response, (input,), r),
        input.should_continue,
        input.confidence is None,
        input.stop_phase == StopPhase::Working,
        !input.all_plan_done,
        spec_has_no_mark(a + b),
        input.next_prompt.deep_view() == Some(a + b) || input.next_prompt.deep_view() == Some(
            a + "#SKIP"@ + b,
        ) || input.next_prompt.deep_view() == Some(a + "#ALL_PLAN_DONE"@ + b),
        !text::is_blank(a + b),
    ensures
        r matches EvaluationResult::Continue { prompt, reason } && prompt@ == text::spec_trim(a + b)
            && reason@ == "LLM says continue with next prompt"@,
{
    law_chain_goes_on_with_the_whole_prompt(input@, a, b);
}

/// The parts with the last two of them put together.
pub open spec fn spec_last_two_merged(parts: Seq<Seq<char>>) -> Seq<Seq<char>> {
    let front = parts.drop_last();
    front.drop_last().push(front.last() + parts.last())
}

proof fn lemma_merged(parts: Seq<Seq<char>>, sep: Seq<char>)
    requires
        parts.len() > 1,
    ensures
        segments::spec_join(spec_last_two_merged(parts), sep) == segments::spec_join(
            parts.drop_last(),
            sep,
        ) + parts.last(),
{
    let front = parts.drop_last();
    let merged = spec_last_two_merged(parts);
    assert(merged.drop_last() =~= front.drop_last());
    assert(segments::spec_join(merged, sep) =~= segments::spec_join(front, sep) + parts.last());
}

proof fn lemma_marks_do_not_make_others(parts: Seq<Seq<char>>, mark: Seq<char>, other: Seq<char>)
    requires
        parts.len() > 0,
        !text::spec_contains(segments::spec_join(parts, seq![]), mark),
        mark.len() > 1,
        other.len() > 1,
        mark[0] == '#',
        other[0] == '#',
        mark[1] != other[1],
        forall|i: int| 0 < i < mark.len() ==> mark[i] != '#',
        forall|i: int| 0 < i < other.len() ==> other[i] != '#',
    ensures
        !text::spec_contains(segments::spec_join(parts, other), mark),
    decreases parts.len(),
{
    if parts.len() > 1 {
        let none = Seq::<char>::empty();
        let merged = spec_last_two_merged(parts);
        lemma_merged(parts, none);
        lemma_merged(parts, other);
        let front = segments::spec_join(parts.drop_last(), none);
        assert(front + none + parts.last() =~= front + parts.last());
        lemma_marks_do_not_make_others(merged, mark, other);
        lemma_other_mark_stays(
            segments::spec_join(parts.drop_last(), other),
            other,
            parts.last(),
            mark,
        );
    }
}

proof fn lemma_parts_hold_no_mark(parts: Seq<Seq<char>>, mark: Seq<char>)
    requires
        parts.len() > 0,
        !text::spec_contains(segments::spec_join(parts, seq![]), mark),
    ensures
        forall|k: int| 0 <= k < parts.len() ==> !text::spec_contains(#[trigger] parts[k], mark),
    decreases parts.len(),
{
    if parts.len() > 1 {
        let none = Seq::<char>::empty();
        let front = parts.drop_last();
        let head = segments::spec_join(front, none);
        assert(head + none + parts.last() =~= head + parts.last());
        lemma_no_mark_in_part(head, parts.last(), mark);
        lemma_parts_hold_no_mark(front, mark);
        assert forall|k: int| 0 <= k < parts.len() implies !text::spec_contains(
            #[trigger] parts[k],
            mark,
        ) by {
            if k < front.len() {
                assert(parts[k] == front[k]);
            }
        }
    }
}

/// However often a mark stands in a prompt, cleaning removes it everywhere and
/// keeps all that stands between.
pub proof fn law_cleaning_removes_every_mark(parts: Seq<Seq<char>>)
    requires
        parts.len() > 0,
        spec_has_no_mark(segments::spec_join(parts, seq![])),
    ensures
        spec_cleaned(segments::spec_join(parts, "#SKIP"@)) == text::spec_trim(
            segments::spec_join(parts, seq![]),
        ),
        spec_cleaned(segments::spec_join(parts, "#ALL_PLAN_DONE"@)) == text::spec_trim(
            segments::spec_join(parts, seq![]),
        ),
{
    lemma_mark_letters();
    let skip = "#SKIP"@;
    let done = "#ALL_PLAN_DONE"@;
    let none = Seq::<char>::empty();
    lemma_parts_hold_no_mark(parts, skip);
    lemma_parts_hold_no_mark(parts, done);
    assert forall|k: int| 0 <= k < parts.len() implies segments::spec_ends_at_first(
        #[trigger] parts[k],
        skip,
    ) && segments::spec_ends_at_first(parts[k], done) by {
        lemma_mark_ends_at_first(parts[k], skip);
        lemma_mark_ends_at_first(parts[k], done);
    }
    segments::law_joined_parts_are_split_again(parts, skip);
    segments::law_joined_parts_are_split_again(parts, done);
    let skipped = segments::spec_join(parts, skip);
    let bare = segments::spec_join(parts, none);
    lemma_marks_do_not_make_others(parts, done, skip);
    lemma_mark_ends_at_first(skipped, done);
    segments::law_replacing_changes_only_the_pattern(skipped, done, none, none);
    lemma_mark_ends_at_first(bare, skip);
    segments::law_replacing_changes_only_the_pattern(bare, skip, none, none);
}

} // verus!
