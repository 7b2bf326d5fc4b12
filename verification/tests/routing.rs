use auto_prompt::config::{AutoPromptConfig, CallTimeouts, LocalRoutingConfig, OrchestrationProvider};
use auto_prompt::context::StopPhase;
use auto_prompt::decision::LlmCallData;
use auto_prompt::routing::{
    DecisionClass, LOCAL_ONLY_REASON, Route, Tier, TierReply, classify_decision,
    cloud_fallback_enabled, cloud_or_local_fail, first_route, local_only_stop, may_ask_cloud,
    next_route, synthetic_stop, tier_config,
};
use auto_prompt::score::{Confidence, Score};

fn data(iteration_count: u32, stop_phase: StopPhase) -> LlmCallData {
    LlmCallData {
        model: "m".to_string(),
        system_prompt: String::new(),
        context_json: "{}".to_string(),
        project_root: None,
        session_id: "s".to_string(),
        title: None,
        iteration_count,
        max_verification_attempts: 2,
        work_dirs: None,
        first_user_message: None,
        original_user_message: None,
        last_assistant_message: None,
        profile_id: None,
        actual_input_tokens: None,
        had_error: false,
        stop_phase,
        call_timeouts: CallTimeouts::default(),
    }
}

fn config(provider: OrchestrationProvider, enabled: bool, fallback: bool) -> AutoPromptConfig {
    let mut local = LocalRoutingConfig::default();
    local.enabled = enabled;
    local.cloud_fallback.enabled = fallback;
    AutoPromptConfig {
        orchestration_provider: provider,
        local_routing: Some(local),
        ..Default::default()
    }
}

fn answered(value: f64) -> TierReply {
    TierReply::Answered {
        confidence: Some(Confidence {
            value: Score {
                bits: value.to_bits(),
            },
            two_decimals: format!("{value:.2}"),
        }),
    }
}

#[test]
fn calls_go_to_the_tier_of_their_class() {
    let auto = config(OrchestrationProvider::Auto, true, true);
    let routine = data(1, StopPhase::Working);
    let judgment = data(1, StopPhase::PreStop);
    let critical = data(19, StopPhase::Working);
    assert_eq!(classify_decision(&routine, &auto), DecisionClass::Routine);
    assert_eq!(first_route(Some(&auto), &routine), Route::Local(Tier::T1));
    assert_eq!(first_route(Some(&auto), &judgment), Route::Local(Tier::T2));
    assert_eq!(first_route(Some(&auto), &critical), Route::Cloud);
    assert_eq!(first_route(None, &routine), Route::Cloud);
    let off = config(OrchestrationProvider::Auto, false, true);
    assert_eq!(first_route(Some(&off), &routine), Route::Cloud);
    let cloud = config(OrchestrationProvider::Cloud, true, true);
    assert_eq!(first_route(Some(&cloud), &routine), Route::Cloud);
    let closed = config(OrchestrationProvider::LocalOnly, true, false);
    assert_eq!(first_route(Some(&closed), &critical), Route::Stop);
}

#[test]
fn tiers_escalate_until_one_is_sure() {
    let auto = config(OrchestrationProvider::Auto, true, true);
    let closed = config(OrchestrationProvider::LocalOnly, true, false);
    let local = LocalRoutingConfig::default();
    assert_eq!(next_route(&auto, &local, Tier::T1, &answered(0.85)), Route::Accept);
    assert_eq!(
        next_route(&auto, &local, Tier::T1, &answered(0.84)),
        Route::Local(Tier::T2)
    );
    assert_eq!(next_route(&auto, &local, Tier::T2, &answered(0.84)), Route::Accept);
    assert_eq!(
        next_route(&auto, &local, Tier::T1, &TierReply::NotAlive),
        Route::Local(Tier::T2)
    );
    assert_eq!(next_route(&auto, &local, Tier::T2, &TierReply::Failed), Route::Cloud);
    assert_eq!(
        next_route(&auto, &local, Tier::T2, &TierReply::Answered { confidence: None }),
        Route::Cloud
    );
    assert_eq!(
        next_route(&auto, &local, Tier::T2, &answered(f64::NAN)),
        Route::Cloud
    );
    assert_eq!(next_route(&closed, &local, Tier::T2, &TierReply::Failed), Route::Stop);
    assert_eq!(tier_config(&local, Tier::T2).timeout_ms, 15_000);
}

#[test]
fn the_cloud_is_open_unless_closed() {
    assert!(cloud_fallback_enabled(&None));
    let mut local = LocalRoutingConfig::default();
    assert!(cloud_fallback_enabled(&Some(local.clone())));
    local.cloud_fallback.enabled = false;
    assert!(!cloud_fallback_enabled(&Some(local)));
}

#[test]
fn a_synthetic_stop_has_no_confidence() {
    let response = synthetic_stop("exhausted");
    assert!(!response.should_continue);
    assert_eq!(response.reason.as_deref(), Some("exhausted"));
    assert_eq!(response.confidence.unwrap().two_decimals, "0.00");
    assert_eq!(response.next_prompt, None);
}

#[test]
fn scores_compare_as_the_numbers_they_stand_for() {
    let values = [
        f64::NEG_INFINITY,
        -1.5,
        -0.0,
        0.0,
        f64::MIN_POSITIVE,
        0.3,
        0.5,
        0.7,
        0.75,
        0.85,
        1.0,
        f64::INFINITY,
        f64::NAN,
        -f64::NAN,
    ];
    for a in values {
        for b in values {
            let (x, y) = (Score { bits: a.to_bits() }, Score { bits: b.to_bits() });
            assert_eq!(x.below(y), a < b, "{a} {b}");
            assert_eq!(x.at_most(y), a <= b, "{a} {b}");
        }
    }
    for (bits, value) in [
        (auto_prompt::score::ZERO_BITS, 0.0f64),
        (auto_prompt::score::THREE_TENTHS_BITS, 0.3),
        (auto_prompt::score::ONE_HALF_BITS, 0.5),
        (auto_prompt::score::SEVEN_TENTHS_BITS, 0.7),
        (auto_prompt::score::THREE_QUARTERS_BITS, 0.75),
        (auto_prompt::score::EIGHTY_FIVE_PERCENT_BITS, 0.85),
    ] {
        assert_eq!(bits, value.to_bits());
    }
}

#[test]
fn local_only_calls_never_reach_the_cloud() {
    for enabled in [false, true] {
        for fallback in [false, true] {
            let mut settings = config(OrchestrationProvider::LocalOnly, enabled, fallback);
            let critical = data(19, StopPhase::Working);
            assert_eq!(first_route(Some(&settings), &critical), Route::Stop);
            let routine = first_route(Some(&settings), &data(1, StopPhase::Working));
            assert_eq!(routine == Route::Local(Tier::T1), enabled);
            assert_eq!(routine == Route::Stop, !enabled);
            let local = LocalRoutingConfig::default();
            assert_eq!(
                next_route(&settings, &local, Tier::T2, &TierReply::NotAlive),
                Route::Stop
            );
            assert_eq!(cloud_or_local_fail(&settings), Route::Stop);
            assert!(!may_ask_cloud(Some(&settings)));
            settings.local_routing = None;
            assert_eq!(
                first_route(Some(&settings), &data(1, StopPhase::PreStop)),
                Route::Stop
            );
        }
    }
    assert!(may_ask_cloud(None));
    assert!(may_ask_cloud(Some(&config(OrchestrationProvider::Auto, true, false))));
    let stop = local_only_stop();
    assert!(!stop.should_continue);
    assert_eq!(stop.reason.as_deref(), Some(LOCAL_ONLY_REASON));
    assert_eq!(
        LOCAL_ONLY_REASON,
        "local-only mode: all local tiers exhausted, cloud fallback disabled"
    );
    assert_eq!(stop.confidence.map(|c| c.value.bits), Some(0));
}
