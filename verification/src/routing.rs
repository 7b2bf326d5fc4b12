//! Which model is asked: a local tier or the editor's default model.

use vstd::prelude::*;
use crate::config::{AutoPromptConfig, LocalRoutingConfig, OrchestrationProvider, TierConfig};
use crate::context;
use crate::context::{AutoPromptResponse, StopPhase};
use crate::decision::LlmCallData;
use crate::score;
use crate::score::{Confidence, ConfidenceView, Score};
use crate::text;

verus! {

/// How much a decision matters.
#[derive(Clone, Copy, Debug, PartialEq, Eq, Structural)]
pub enum DecisionClass {
    /// A routine check, for the fast tier.
    Routine,
    /// One that needs judgment, for the reasoning tier.
    Judgment,
    /// One with much at stake, never for a local tier.
    Critical,
}

/// A local tier.
#[derive(Clone, Copy, Debug, PartialEq, Eq, Structural)]
pub enum Tier {
    T1,
    T2,
}

/// The context says that it was truncated, with or without a space behind the
/// colon.
pub open spec fn spec_says_truncated(context_json: Seq<char>) -> bool {
    text::spec_contains(context_json, "\"was_truncated\":true"@) || text::spec_contains(
        context_json,
        "\"was_truncated\": true"@,
    )
}

fn says_truncated(context_json: &str) -> (r: bool)
    ensures
        r == spec_says_truncated(context_json@),
{
    text::contains(context_json, "\"was_truncated\":true") || text::contains(
        context_json,
        "\"was_truncated\": true",
    )
}

/// The class of a decision: critical in the last iteration, one for judgment
/// before a stop or with a truncated context, else routine.
pub open spec fn spec_class(
    iteration_count: nat,
    max_iterations: nat,
    stop_phase: StopPhase,
    context_json: Seq<char>,
) -> DecisionClass {
    if iteration_count + 1 >= max_iterations {
        DecisionClass::Critical
    } else if stop_phase == StopPhase::PreStop || spec_says_truncated(context_json) {
        DecisionClass::Judgment
    } else {
        DecisionClass::Routine
    }
}

/// Classifies a decision by the state of the chain.
pub fn classify_from_fields(
    iteration_count: u32,
    max_iterations: u32,
    stop_phase: &StopPhase,
    context_json: &str,
) -> (r: DecisionClass)
    ensures
        r == spec_class(
            iteration_count as nat,
            max_iterations as nat,
            *stop_phase,
            context_json@,
        ),
{
    if max_iterations == 0 || iteration_count >= max_iterations - 1 {
        return DecisionClass::Critical;
    }
    if *stop_phase == StopPhase::PreStop {
        return DecisionClass::Judgment;
    }
    if says_truncated(context_json) {
        return DecisionClass::Judgment;
    }
    DecisionClass::Routine
}

/// The class of the decision that a call is for.
pub open spec fn spec_class_of(data: LlmCallData, config: AutoPromptConfig) -> DecisionClass {
    spec_class(
        data.iteration_count as nat,
        config.max_iterations as nat,
        data.stop_phase,
        data.context_json@,
    )
}

/// Classifies the decision that a call is for.
pub fn classify_decision(data: &LlmCallData, config: &AutoPromptConfig) -> (r: DecisionClass)
    ensures
        r == spec_class_of(*data, *config),
{
    classify_from_fields(
        data.iteration_count,
        config.max_iterations,
        &data.stop_phase,
        data.context_json.as_str(),
    )
}

/// Local tiers may hand over to the default model.
pub open spec fn spec_cloud_fallback(local: Option<LocalRoutingConfig>) -> bool {
    match local {
        Some(local) => local.cloud_fallback.enabled,
        None => true,
    }
}

/// Whether local tiers may hand over to the default model.
pub fn cloud_fallback_enabled(local: &Option<LocalRoutingConfig>) -> (r: bool)
    ensures
        r == spec_cloud_fallback(*local),
{
    match local {
        Some(local) => local.cloud_fallback.enabled,
        None => true,
    }
}

/// A stop with confidence zero.
pub fn synthetic_stop(reason: &str) -> (r: AutoPromptResponse)
    ensures
        r@ == context::spec_zero_confidence_stop(reason@),
{
    context::zero_confidence_stop(text::owned(reason))
}

/// Where a call goes next.
#[derive(Clone, Copy, Debug, PartialEq, Eq, Structural)]
pub enum Route {
    /// To the default model.
    Cloud,
    /// To a local tier.
    Local(Tier),
    /// Nowhere: the chain stops.
    Stop,
    /// The answer of the tier is taken.
    Accept,
}

/// Calls may go to the default model: the settings do not keep them local.
pub open spec fn spec_may_ask_cloud(config: Option<AutoPromptConfig>) -> bool {
    config matches Some(config) ==> config.orchestration_provider
        != OrchestrationProvider::LocalOnly
}

/// Whether calls may go to the default model. They may without settings.
pub fn may_ask_cloud(config: Option<&AutoPromptConfig>) -> (r: bool)
    ensures
        r == spec_may_ask_cloud(spec_settings(config)),
{
    match config {
        Some(config) => config.orchestration_provider != OrchestrationProvider::LocalOnly,
        None => true,
    }
}

/// Why a call that is kept local comes to nothing.
pub const LOCAL_ONLY_REASON: &'static str =
    "local-only mode: all local tiers exhausted, cloud fallback disabled";

/// The answer that stands in where a call is kept local and no local tier has
/// answered it: a stop.
pub fn local_only_stop() -> (r: AutoPromptResponse)
    ensures
        r@ == context::spec_zero_confidence_stop(LOCAL_ONLY_REASON@),
{
    synthetic_stop(LOCAL_ONLY_REASON)
}

/// Where a call goes when no local tier has answered it: to the default model,
/// unless only local ones are allowed.
pub open spec fn spec_last_resort(config: AutoPromptConfig) -> Route {
    if spec_may_ask_cloud(Some(config)) {
        Route::Cloud
    } else {
        Route::Stop
    }
}

/// Where a call goes when no local tier has answered it: to the default model,
/// unless only local ones are allowed.
pub fn cloud_or_local_fail(config: &AutoPromptConfig) -> (r: Route)
    ensures
        r == spec_last_resort(*config),
{
    if may_ask_cloud(Some(config)) {
        Route::Cloud
    } else {
        Route::Stop
    }
}

/// The settings, as far as they could be read.
pub open spec fn spec_settings(config: Option<&AutoPromptConfig>) -> Option<AutoPromptConfig> {
    match config {
        Some(config) => Some(*config),
        None => None,
    }
}

/// Local tiers are in use.
pub open spec fn spec_uses_tiers(config: AutoPromptConfig) -> bool {
    config.orchestration_provider != OrchestrationProvider::Cloud && (config.local_routing matches
        Some(local) && local.enabled)
}

/// Where a call goes first: to the tier for its class, or to the last resort
/// where the decision is critical or no tier is in use.
pub open spec fn spec_first_route(config: Option<AutoPromptConfig>, data: LlmCallData) -> Route {
    match config {
        Some(config) => if spec_uses_tiers(config) {
            match spec_class_of(data, config) {
                DecisionClass::Critical => spec_last_resort(config),
                DecisionClass::Judgment => Route::Local(Tier::T2),
                DecisionClass::Routine => Route::Local(Tier::T1),
            }
        } else {
            spec_last_resort(config)
        },
        None => Route::Cloud,
    }
}

/// Decides where a call goes first. Without settings it goes to the default model.
pub fn first_route(config: Option<&AutoPromptConfig>, data: &LlmCallData) -> (r: Route)
    ensures
        r == spec_first_route(spec_settings(config), *data),
{
    let config = match config {
        Some(config) => config,
        None => {
            return Route::Cloud;
        },
    };
    let enabled = match &config.local_routing {
        Some(local) => local.enabled,
        None => false,
    };
    if config.orchestration_provider == OrchestrationProvider::Cloud || !enabled {
        return cloud_or_local_fail(config);
    }
    match classify_decision(data, config) {
        DecisionClass::Critical => cloud_or_local_fail(config),
        DecisionClass::Judgment => Route::Local(Tier::T2),
        DecisionClass::Routine => Route::Local(Tier::T1),
    }
}

/// What came of asking a local tier.
#[derive(Clone, Debug, PartialEq, Eq)]
pub enum TierReply {
    /// The server did not respond to the health check.
    NotAlive,
    /// The call failed.
    Failed,
    /// The tier answered with this confidence.
    Answered { confidence: Option<Confidence> },
}

/// The confidence is enough for the tier; an absent one counts as zero.
pub open spec fn spec_is_confident(threshold: Score, confidence: Option<ConfidenceView>) -> bool {
    threshold.spec_at_most(
        match confidence {
            Some(c) => c.value,
            None => Score { bits: score::ZERO_BITS },
        },
    )
}

/// Whether the confidence of an answer is enough for the tier it came from.
pub fn is_confident(threshold: Score, confidence: &Option<Confidence>) -> (r: bool)
    ensures
        r == spec_is_confident(threshold, confidence.deep_view()),
{
    match confidence {
        Some(c) => threshold.at_most(c.value),
        None => threshold.at_most(Score { bits: score::ZERO_BITS }),
    }
}

/// The settings of a tier.
pub open spec fn spec_tier(local: LocalRoutingConfig, tier: Tier) -> TierConfig {
    match tier {
        Tier::T1 => local.t1,
        Tier::T2 => local.t2,
    }
}

/// The settings of a tier.
pub fn tier_config(local: &LocalRoutingConfig, tier: Tier) -> (r: &TierConfig)
    ensures
        *r == spec_tier(*local, tier),
{
    match tier {
        Tier::T1 => &local.t1,
        Tier::T2 => &local.t2,
    }
}

/// Where a call goes after a tier was asked: nowhere else if the tier is sure
/// enough; else from the fast tier to the reasoning one, and from there to the
/// last resort.
pub open spec fn spec_next_route(
    config: AutoPromptConfig,
    local: LocalRoutingConfig,
    tier: Tier,
    reply: TierReply,
) -> Route {
    if reply matches TierReply::Answered { confidence } && spec_is_confident(
        spec_tier(local, tier).confidence_threshold,
        confidence.deep_view(),
    ) {
        Route::Accept
    } else {
        match tier {
            Tier::T1 => Route::Local(Tier::T2),
            Tier::T2 => spec_last_resort(config),
        }
    }
}

/// Decides where a call goes after a tier was asked.
pub fn next_route(
    config: &AutoPromptConfig,
    local: &LocalRoutingConfig,
    tier: Tier,
    reply: &TierReply,
) -> (r: Route)
    ensures
        r == spec_next_route(*config, *local, tier, *reply),
{
    if let TierReply::Answered { confidence } = reply {
        if is_confident(tier_config(local, tier).confidence_threshold, confidence) {
            return Route::Accept;
        }
    }
    match tier {
        Tier::T1 => Route::Local(Tier::T2),
        Tier::T2 => cloud_or_local_fail(config),
    }
}

// ---------------------------------------------------------------------------
// Laws
// ---------------------------------------------------------------------------

/// Without local tiers, every call goes to the default model, unless only local
/// ones are allowed.
pub proof fn law_routing_off_means_cloud(config: Option<AutoPromptConfig>, data: LlmCallData)
    requires
        config matches Some(c) ==> !spec_uses_tiers(c),
        spec_may_ask_cloud(config),
    ensures
        spec_first_route(config, data) == Route::Cloud,
{
}

/// A critical decision never goes to a local tier.
pub proof fn law_critical_decisions_are_not_local(config: AutoPromptConfig, data: LlmCallData)
    requires
        spec_class_of(data, config) == DecisionClass::Critical,
    ensures
        !(spec_first_route(Some(config), data) is Local),
{
}

/// Where only local models are allowed, nothing goes to the default model,
/// neither first nor later: what no tier answers ends in a stop.
pub proof fn law_local_only_never_calls_the_cloud(
    config: AutoPromptConfig,
    data: LlmCallData,
    local: LocalRoutingConfig,
    tier: Tier,
    reply: TierReply,
)
    requires
        config.orchestration_provider == OrchestrationProvider::LocalOnly,
    ensures
        !spec_may_ask_cloud(Some(config)),
        spec_first_route(Some(config), data) != Route::Cloud,
        spec_next_route(config, local, tier, reply) != Route::Cloud,
        spec_last_resort(config) == Route::Stop,
{
}

/// An answer is taken only from a tier that is alive, did answer, and is sure
/// enough; and a call that a tier declines always moves on.
pub proof fn law_declined_calls_escalate(
    config: AutoPromptConfig,
    local: LocalRoutingConfig,
    tier: Tier,
    reply: TierReply,
)
    ensures
        spec_next_route(config, local, tier, reply) == Route::Accept ==> reply is Answered,
        spec_next_route(config, local, tier, reply) is Local ==> tier == Tier::T1 && spec_next_route(
            config,
            local,
            tier,
            reply,
        ) == Route::Local(Tier::T2),
{
}

/// An answer without a confidence is not enough for any tier whose threshold
/// is above zero.
pub proof fn law_unstated_confidence_escalates(threshold: Score)
    requires
        (Score { bits: score::ZERO_BITS }).spec_below(threshold),
    ensures
        !spec_is_confident(threshold, None),
{
}

/// The last iteration is critical whatever the phase, and a larger iteration
/// count never makes a decision less critical.
pub proof fn law_last_iteration_is_critical(
    iteration: nat,
    later: nat,
    max_iterations: nat,
    phase: StopPhase,
    context_json: Seq<char>,
)
    requires
        iteration <= later,
        spec_class(iteration, max_iterations, phase, context_json) == DecisionClass::Critical,
    ensures
        spec_class(later, max_iterations, phase, context_json) == DecisionClass::Critical,
{
}

/// A decision is critical exactly where no iteration is left after it. Before
/// that it takes judgment where the chain verifies a stop or its context was
/// cut, and is routine otherwise.
pub proof fn law_critical_exactly_where_no_iteration_is_left(
    iteration_count: nat,
    max_iterations: nat,
    phase: StopPhase,
    context_json: Seq<char>,
)
    ensures
        spec_class(iteration_count, max_iterations, phase, context_json) == DecisionClass::Critical
            <==> iteration_count + 1 >= max_iterations,
        spec_class(iteration_count, max_iterations, phase, context_json) == DecisionClass::Judgment
            <==> iteration_count + 1 < max_iterations && (phase == StopPhase::PreStop
            || text::spec_contains(context_json, "\"was_truncated\":true"@) || text::spec_contains(
            context_json,
            "\"was_truncated\": true"@,
        )),
{
}

/// Where the local tiers are in use, a routine decision goes to the fast one,
/// one that takes judgment to the other, and the last iteration to the default
/// model, or nowhere where that must not be asked.
pub proof fn law_class_decides_the_tier(
    config: AutoPromptConfig,
    local: LocalRoutingConfig,
    data: LlmCallData,
)
    requires
        config.orchestration_provider != OrchestrationProvider::Cloud,
        config.local_routing == Some(local),
        local.enabled,
    ensures
        ({
            let route = spec_first_route(Some(config), data);
            let is_last = data.iteration_count + 1 >= config.max_iterations;
            let is_cut = text::spec_contains(data.context_json@, "\"was_truncated\":true"@)
                || text::spec_contains(data.context_json@, "\"was_truncated\": true"@);
            &&& !is_last && data.stop_phase == StopPhase::Working && !is_cut ==> route
                == Route::Local(Tier::T1)
            &&& !is_last && (data.stop_phase == StopPhase::PreStop || is_cut) ==> route
                == Route::Local(Tier::T2)
            &&& is_last ==> route == if config.orchestration_provider
                == OrchestrationProvider::LocalOnly {
                Route::Stop
            } else {
                Route::Cloud
            }
        }),
{
}

/// An answer of a tier is taken exactly where its confidence reaches the
/// threshold of that very tier; any other reply leads from the fast tier to the
/// other one, and from there to the default model, or nowhere where that must
/// not be asked.
pub proof fn law_replies_are_taken_or_passed_on(
    config: AutoPromptConfig,
    local: LocalRoutingConfig,
    reply: TierReply,
)
    ensures
        spec_next_route(config, local, Tier::T1, reply) == if reply matches TierReply::Answered {
            confidence,
        } && confidence matches Some(c) && local.t1.confidence_threshold.spec_at_most(c.value) {
            Route::Accept
        } else if reply matches TierReply::Answered { confidence } && confidence is None
            && local.t1.confidence_threshold.spec_at_most(Score { bits: 0 }) {
            Route::Accept
        } else {
            Route::Local(Tier::T2)
        },
        spec_next_route(config, local, Tier::T2, reply) == if reply matches TierReply::Answered {
            confidence,
        } && confidence matches Some(c) && local.t2.confidence_threshold.spec_at_most(c.value) {
            Route::Accept
        } else if reply matches TierReply::Answered { confidence } && confidence is None
            && local.t2.confidence_threshold.spec_at_most(Score { bits: 0 }) {
            Route::Accept
        } else if config.orchestration_provider == OrchestrationProvider::LocalOnly {
            Route::Stop
        } else {
            Route::Cloud
        },
{
}

/// A call finds a decision critical exactly where no iteration is left after it.
pub proof fn law_call_is_critical_exactly_at_the_end(
    iteration_count: u32,
    max_iterations: u32,
    phase: &StopPhase,
    context_json: &str,
    r: DecisionClass,
)
    requires
        call_ensures(classify_from_fields, (iteration_count, max_iterations, phase, context_json), r),
    ensures
        r == DecisionClass::Critical <==> iteration_count + 1 >= max_iterations,
        iteration_count + 1 < max_iterations && *phase == StopPhase::PreStop ==> r
            == DecisionClass::Judgment,
{
}

/// Without settings the default model is asked. Without local tiers, because
/// they are off, not set up or not wanted, it is asked too, unless that is ruled
/// out.
pub proof fn law_default_model_is_asked_without_tiers(config: AutoPromptConfig, data: LlmCallData)
    ensures
        spec_first_route(None, data) == Route::Cloud,
        config.orchestration_provider == OrchestrationProvider::Cloud ==> spec_first_route(
            Some(config),
            data,
        ) == Route::Cloud,
        (config.local_routing matches Some(local) ==> !local.enabled) ==> spec_first_route(
            Some(config),
            data,
        ) == if config.orchestration_provider == OrchestrationProvider::LocalOnly {
            Route::Stop
        } else {
            Route::Cloud
        },
{
}

/// The default model may be asked in place of the tiers unless the settings for
/// them say otherwise; only the local-only mode rules it out altogether.
pub proof fn law_settings_rule_the_default_model_out(
    local: LocalRoutingConfig,
    config: AutoPromptConfig,
)
    ensures
        spec_cloud_fallback(None),
        spec_cloud_fallback(Some(local)) == local.cloud_fallback.enabled,
        spec_may_ask_cloud(None),
        spec_may_ask_cloud(Some(config)) <==> config.orchestration_provider
            != OrchestrationProvider::LocalOnly,
{
}

} // verus!
