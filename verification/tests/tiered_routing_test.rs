use auto_prompt::config::{
    AutoPromptConfig, CloudFallbackConfig, LocalRoutingConfig, OrchestrationProvider,
};
use auto_prompt::context::StopPhase;
use auto_prompt::routing::{DecisionClass, classify_from_fields};

#[test]
fn classify_routine_by_default() {
    let class = classify_from_fields(1, 20, &StopPhase::Working, "{}");
    assert_eq!(class, DecisionClass::Routine);
}

#[test]
fn classify_critical_on_final_iteration() {
    // iteration 19, max 20 → 19 >= 20-1 → Critical
    let class = classify_from_fields(19, 20, &StopPhase::Working, "{}");
    assert_eq!(class, DecisionClass::Critical);
}

#[test]
fn classify_critical_on_beyond_final_iteration() {
    let class = classify_from_fields(25, 20, &StopPhase::Working, "{}");
    assert_eq!(class, DecisionClass::Critical);
}

#[test]
fn classify_judgment_on_pre_stop() {
    let class = classify_from_fields(5, 20, &StopPhase::PreStop, "{}");
    assert_eq!(class, DecisionClass::Judgment);
}

#[test]
fn classify_judgment_on_truncated_context() {
    let ctx = r#"{"was_truncated": true, "messages": []}"#;
    let class = classify_from_fields(5, 20, &StopPhase::Working, ctx);
    assert_eq!(class, DecisionClass::Judgment);
}

#[test]
fn classify_routine_when_not_truncated() {
    let ctx = r#"{"was_truncated": false}"#;
    let class = classify_from_fields(5, 20, &StopPhase::Working, ctx);
    assert_eq!(class, DecisionClass::Routine);
}

#[test]
fn classify_pre_stop_beats_truncated_check() {
    // Pre-stop check comes first in the classifier.
    let class = classify_from_fields(5, 20, &StopPhase::PreStop, r#"{"was_truncated": true}"#);
    assert_eq!(class, DecisionClass::Judgment);
}

#[test]
fn classify_critical_beats_pre_stop() {
    // Critical check (final iteration) comes first.
    let class = classify_from_fields(19, 20, &StopPhase::PreStop, "{}");
    assert_eq!(class, DecisionClass::Critical);
}

#[test]
fn classify_handles_zero_max_iterations() {
    // Edge case: max_iterations=0 → saturating_sub gives 0 → any iteration >= 0 → Critical.
    let class = classify_from_fields(0, 0, &StopPhase::Working, "{}");
    assert_eq!(class, DecisionClass::Critical);
}

#[test]
fn config_default_construction() {
    let config = AutoPromptConfig::default();
    assert_eq!(config.orchestration_provider, OrchestrationProvider::Cloud);
    assert!(config.local_routing.is_none());
    assert_eq!(config.max_iterations, 20);
}

#[test]
fn local_routing_default_has_sensible_tier_values() {
    let local = LocalRoutingConfig::default();
    assert!(!local.enabled, "should default to disabled");
    assert!((f64::from_bits(local.t1.confidence_threshold.bits) - 0.85).abs() < 1e-9);
    assert!((f64::from_bits(local.t2.confidence_threshold.bits) - 0.70).abs() < 1e-9);
    assert!(local.t1.timeout_ms < local.t2.timeout_ms, "T1 should be faster");
    assert!(local.cloud_fallback.enabled);
}

#[test]
fn cloud_fallback_default_triggers() {
    let cf = CloudFallbackConfig::default();
    assert!(cf.enabled);
    assert!(cf.on.iter().any(|t| t == "critical"));
    assert!(cf.on.iter().any(|t| t == "low_confidence"));
}

#[test]
fn classify_judgment_on_truncated_compact_context() {
    let class = classify_from_fields(5, 20, &StopPhase::Working, r#"{"was_truncated":true}"#);
    assert_eq!(class, DecisionClass::Judgment);
    let class = classify_from_fields(5, 20, &StopPhase::Working, r#"{"was_truncated":false}"#);
    assert_eq!(class, DecisionClass::Routine);
    let quoted = r#"{"content":"\"was_truncated\":true"}"#;
    let class = classify_from_fields(5, 20, &StopPhase::Working, quoted);
    assert_eq!(class, DecisionClass::Routine);
}
