use auto_prompt::context::{AutoPromptResponse, StopPhase};
use auto_prompt::evaluation::{
    DecisionSource, EvaluationInput, EvaluationResult, evaluate_response, is_retry_failure,
    is_synthetic_failure,
};
use auto_prompt::score::{Confidence, Score};

fn confidence(value: f64) -> Confidence {
    Confidence {
        value: Score {
            bits: value.to_bits(),
        },
        two_decimals: format!("{value:.2}"),
    }
}

fn make_input() -> EvaluationInput {
    EvaluationInput {
        should_continue: false,
        confidence: Some(confidence(0.8)),
        next_prompt: None,
        reason: None,
        all_plan_done: false,
        next_plan_prompt: None,
        last_assistant_message: None,
        is_synthetic_failure: false,
        stop_phase: StopPhase::Working,
    }
}

#[test]
fn test_eval_all_done_with_next_plan() {
    let input = EvaluationInput {
        should_continue: true,
        all_plan_done: true,
        next_plan_prompt: Some("do next plan work".to_string()),
        ..make_input()
    };
    let result = evaluate_response(&input);
    assert_eq!(
        result,
        EvaluationResult::Continue {
            prompt: "do next plan work".to_string(),
            reason: "current plan done, transitioning to next plan".to_string(),
        }
    );
}

#[test]
fn test_eval_all_done_should_continue_no_next_plan() {
    let input = EvaluationInput {
        should_continue: true,
        all_plan_done: true,
        ..make_input()
    };
    let result = evaluate_response(&input);
    match result {
        EvaluationResult::Continue { reason, .. } => {
            assert!(reason.contains("final cleanup"));
        }
        _ => panic!("expected Continue, got {result:?}"),
    }
}

#[test]
fn test_eval_all_done_should_stop_no_next_plan() {
    let input = EvaluationInput {
        all_plan_done: true,
        should_continue: false,
        ..make_input()
    };
    let result = evaluate_response(&input);
    assert_eq!(
        result,
        EvaluationResult::WantsStop {
            reason: "LLM says stop, no next prompt".to_string(),
        }
    );
}

#[test]
fn test_eval_remaining_work_remaining_work_pattern() {
    let input = EvaluationInput {
        should_continue: false,
        last_assistant_message: Some("## Remaining Work\n- fix tests".to_string()),
        ..make_input()
    };
    let result = evaluate_response(&input);
    assert!(
        matches!(result, EvaluationResult::NeedsSecondOpinion { .. }),
        "expected NeedsSecondOpinion for remaining work pattern, got {result:?}"
    );
}

#[test]
fn test_eval_remaining_work_unchecked_checkbox() {
    let input = EvaluationInput {
        should_continue: false,
        last_assistant_message: Some("- [ ] do thing".to_string()),
        ..make_input()
    };
    let result = evaluate_response(&input);
    assert!(
        matches!(result, EvaluationResult::NeedsSecondOpinion { .. }),
        "expected NeedsSecondOpinion for unchecked checkbox pattern, got {result:?}"
    );
}

#[test]
fn test_eval_remaining_work_todo_pattern() {
    let input = EvaluationInput {
        should_continue: false,
        last_assistant_message: Some("TODO: fix this".to_string()),
        ..make_input()
    };
    let result = evaluate_response(&input);
    assert!(
        matches!(result, EvaluationResult::NeedsSecondOpinion { .. }),
        "expected NeedsSecondOpinion for TODO pattern, got {result:?}"
    );
}

#[test]
fn test_eval_remaining_work_no_match() {
    let input = EvaluationInput {
        should_continue: false,
        last_assistant_message: Some("all done, nothing left".to_string()),
        ..make_input()
    };
    let result = evaluate_response(&input);
    assert!(matches!(result, EvaluationResult::WantsStop { .. }));
}

#[test]
fn test_eval_remaining_work_false_positive_no_actionable_items() {
    let input = EvaluationInput {
        should_continue: false,
        last_assistant_message: Some(
            "The remaining work section was already addressed in the previous commit."
                .to_string(),
        ),
        ..make_input()
    };
    let result = evaluate_response(&input);
    assert!(
        matches!(result, EvaluationResult::WantsStop { .. }),
        "trigger word 'remaining work' but no actionable items should not override stop"
    );
}

#[test]
fn test_eval_remaining_work_trigger_with_bullets_overrides_stop() {
    let input = EvaluationInput {
        should_continue: false,
        last_assistant_message: Some(
            "Done with part 1.\n\n### Remaining work:\n\n- Fix the bug\n- Add tests"
                .to_string(),
        ),
        ..make_input()
    };
    let result = evaluate_response(&input);
    match result {
        EvaluationResult::NeedsSecondOpinion {
            extracted_section, ..
        } => {
            assert!(extracted_section.contains("Fix the bug"));
            assert!(extracted_section.contains("false positive"));
        }
        _ => panic!("expected NeedsSecondOpinion, got {result:?}"),
    }
}

#[test]
fn test_eval_should_continue_with_valid_prompt() {
    let input = EvaluationInput {
        should_continue: true,
        next_prompt: Some("commit changes".to_string()),
        ..make_input()
    };
    let result = evaluate_response(&input);
    assert_eq!(
        result,
        EvaluationResult::Continue {
            prompt: "commit changes".to_string(),
            reason: "LLM says continue with next prompt".to_string(),
        }
    );
}

#[test]
fn test_eval_should_continue_empty_prompt() {
    let input = EvaluationInput {
        should_continue: true,
        next_prompt: Some("".to_string()),
        ..make_input()
    };
    let result = evaluate_response(&input);
    assert!(matches!(result, EvaluationResult::WantsStop { .. }));
}

#[test]
fn test_eval_should_continue_whitespace_prompt() {
    let input = EvaluationInput {
        should_continue: true,
        next_prompt: Some("   ".to_string()),
        ..make_input()
    };
    let result = evaluate_response(&input);
    assert!(matches!(result, EvaluationResult::WantsStop { .. }));
}

#[test]
fn test_eval_should_continue_no_prompt() {
    let input = EvaluationInput {
        should_continue: true,
        next_prompt: None,
        ..make_input()
    };
    let result = evaluate_response(&input);
    assert!(matches!(result, EvaluationResult::WantsStop { .. }));
}

#[test]
fn test_eval_should_stop_with_prompt_ignored() {
    let input = EvaluationInput {
        should_continue: false,
        next_prompt: Some("review code".to_string()),
        ..make_input()
    };
    let result = evaluate_response(&input);
    assert!(matches!(result, EvaluationResult::WantsStop { .. }));
}

#[test]
fn test_eval_low_confidence_with_should_continue_and_prompt() {
    let input = EvaluationInput {
        should_continue: true,
        confidence: Some(confidence(0.3)),
        next_prompt: Some("go".to_string()),
        ..make_input()
    };
    let result = evaluate_response(&input);
    match result {
        EvaluationResult::WantsStop { reason } => {
            assert!(reason.contains("confidence too low"));
        }
        _ => panic!("expected WantsStop for low confidence, got {result:?}"),
    }
}

#[test]
fn test_eval_low_confidence_should_stop() {
    let input = EvaluationInput {
        should_continue: false,
        confidence: Some(confidence(0.3)),
        ..make_input()
    };
    let result = evaluate_response(&input);
    match result {
        EvaluationResult::WantsStop { reason } => {
            assert!(reason.contains("confidence too low"));
        }
        _ => panic!("expected WantsStop, got {result:?}"),
    }
}

#[test]
fn test_eval_high_confidence_should_stop() {
    let input = EvaluationInput {
        should_continue: false,
        confidence: Some(confidence(0.8)),
        ..make_input()
    };
    let result = evaluate_response(&input);
    assert!(matches!(result, EvaluationResult::WantsStop { .. }));
}

#[test]
fn test_eval_all_done_next_plan_respects_should_stop() {
    let input = EvaluationInput {
        all_plan_done: true,
        should_continue: false,
        next_plan_prompt: Some("start next plan".to_string()),
        ..make_input()
    };
    let result = evaluate_response(&input);
    assert_eq!(
        result,
        EvaluationResult::WantsStop {
            reason: "LLM says stop, no next prompt".to_string(),
        }
    );
}

#[test]
fn test_eval_all_done_no_next_plan_remaining_work_still_stops() {
    let input = EvaluationInput {
        all_plan_done: true,
        should_continue: false,
        last_assistant_message: Some("remaining: fix test".to_string()),
        ..make_input()
    };
    let result = evaluate_response(&input);
    assert_eq!(
        result,
        EvaluationResult::WantsStop {
            reason: "LLM says stop, no next prompt".to_string(),
        }
    );
}

#[test]
fn test_eval_all_plan_done_in_prompt_stripped() {
    let input = EvaluationInput {
        should_continue: true,
        next_prompt: Some("done #ALL_PLAN_DONE".to_string()),
        ..make_input()
    };
    let result = evaluate_response(&input);
    match result {
        EvaluationResult::Continue { prompt, .. } => {
            assert_eq!(prompt, "done");
            assert!(!prompt.contains("#ALL_PLAN_DONE"));
        }
        _ => panic!("expected Continue, got {result:?}"),
    }
}

#[test]
fn test_eval_last_assistant_message_none() {
    let input = EvaluationInput {
        should_continue: false,
        last_assistant_message: None,
        ..make_input()
    };
    let result = evaluate_response(&input);
    assert!(matches!(result, EvaluationResult::WantsStop { .. }));
}

#[test]
fn test_eval_last_assistant_message_empty() {
    let input = EvaluationInput {
        should_continue: false,
        last_assistant_message: Some("".to_string()),
        ..make_input()
    };
    let result = evaluate_response(&input);
    assert!(matches!(result, EvaluationResult::WantsStop { .. }));
}

#[test]
fn test_handbrake_stopping_nothing_related_forces_stop() {
    let input = EvaluationInput {
        should_continue: true,
        next_prompt: Some("continue the plan".to_string()),
        last_assistant_message: Some(
            "Declare: reviewed remaining plans: stopping, nothing related".to_string(),
        ),
        stop_phase: StopPhase::PreStop,
        ..make_input()
    };
    let result = evaluate_response(&input);
    assert!(
        matches!(result, EvaluationResult::WantsStop { .. }),
        "handbrake should force stop when worker declares 'stopping, nothing related' after pre-stop"
    );
}

#[test]
fn test_handbrake_stopping_no_further_action_forces_stop() {
    let input = EvaluationInput {
        should_continue: true,
        next_prompt: Some("continue work".to_string()),
        last_assistant_message: Some(
            "Reviewed plans: stopping — no further action needed.".to_string(),
        ),
        stop_phase: StopPhase::PreStop,
        ..make_input()
    };
    let result = evaluate_response(&input);
    assert!(
        matches!(result, EvaluationResult::WantsStop { .. }),
        "handbrake should force stop when worker declares 'stopping' with 'no further action' after pre-stop"
    );
}

#[test]
fn test_handbrake_stopping_nothing_left_forces_stop() {
    let input = EvaluationInput {
        should_continue: true,
        next_prompt: Some("continue".to_string()),
        last_assistant_message: Some(
            "Everything is done. Stopping, nothing left to do.".to_string(),
        ),
        stop_phase: StopPhase::Verified,
        ..make_input()
    };
    let result = evaluate_response(&input);
    assert!(
        matches!(result, EvaluationResult::WantsStop { .. }),
        "handbrake should force stop when worker declares 'stopping' with 'nothing left' after verification"
    );
}

#[test]
fn test_handbrake_stopping_alone_does_not_trigger() {
    let input = EvaluationInput {
        should_continue: true,
        next_prompt: Some("continue fixing bugs".to_string()),
        last_assistant_message: Some(
            "I'm stopping the current approach to try something else.".to_string(),
        ),
        stop_phase: StopPhase::PreStop,
        ..make_input()
    };
    let result = evaluate_response(&input);
    assert!(
        matches!(result, EvaluationResult::Continue { .. }),
        "'stopping' alone without qualifying phrase should NOT trigger handbrake"
    );
}

#[test]
fn test_handbrake_normal_continue_not_affected() {
    let input = EvaluationInput {
        should_continue: true,
        next_prompt: Some("implement the next feature".to_string()),
        last_assistant_message: Some("I've completed step 1. Moving to step 2.".to_string()),
        stop_phase: StopPhase::PreStop,
        ..make_input()
    };
    let result = evaluate_response(&input);
    assert!(
        matches!(result, EvaluationResult::Continue { .. }),
        "normal messages should not trigger handbrake even in pre-stop phase"
    );
}

#[test]
fn test_handbrake_does_not_trigger_during_working_phase() {
    let input = EvaluationInput {
        should_continue: true,
        next_prompt: Some("continue the plan".to_string()),
        last_assistant_message: Some(
            "Declare: reviewed remaining plans: stopping, nothing related".to_string(),
        ),
        stop_phase: StopPhase::Working,
        ..make_input()
    };
    let result = evaluate_response(&input);
    assert!(
        matches!(result, EvaluationResult::Continue { .. }),
        "handbrake should NOT trigger during Working phase, only after pre-stop verification"
    );
}

#[test]
fn test_should_continue_false_respected_without_handbrake() {
    let input = EvaluationInput {
        should_continue: false,
        next_prompt: None,
        last_assistant_message: Some(
            "Reviewed remaining plans: stopping, nothing related to current work".to_string(),
        ),
        stop_phase: StopPhase::Working,
        ..make_input()
    };
    let result = evaluate_response(&input);
    assert!(
        matches!(result, EvaluationResult::WantsStop { .. }),
        "should_continue=false should be respected directly — no handbrake needed when LLM already says stop"
    );
}

#[test]
fn test_eval_synthetic_failure_zero_confidence_returns_wants_stop() {
    let input = EvaluationInput {
        should_continue: false,
        confidence: Some(confidence(0.0)),
        reason: Some("model returned zero events (1 total stream events)".to_string()),
        is_synthetic_failure: true,
        ..make_input()
    };
    let result = evaluate_response(&input);
    match result {
        EvaluationResult::WantsStop { reason } => {
            assert!(
                reason.contains("confidence too low"),
                "expected low-confidence stop reason, got: {reason}"
            );
        }
        other => panic!("expected WantsStop for synthetic failure, got {other:?}"),
    }
}

#[test]
fn test_eval_synthetic_failure_no_thinking_returns_wants_stop() {
    let input = EvaluationInput {
        should_continue: false,
        confidence: Some(confidence(0.0)),
        reason: Some("model returned no usable content (3 empty Text, 0 empty Thinking, 0 stream errors)".to_string()),
        is_synthetic_failure: true,
        ..make_input()
    };
    let result = evaluate_response(&input);
    assert!(
        matches!(result, EvaluationResult::WantsStop { .. }),
        "expected WantsStop for 'model returned no usable content', got {result:?}"
    );
}

#[test]
fn test_eval_stream_errors_returns_wants_stop() {
    let input = EvaluationInput {
        should_continue: false,
        confidence: Some(confidence(0.0)),
        reason: Some("model stream produced only errors (2)".to_string()),
        is_synthetic_failure: true,
        ..make_input()
    };
    let result = evaluate_response(&input);
    assert!(
        matches!(result, EvaluationResult::WantsStop { .. }),
        "expected WantsStop for stream errors, got {result:?}"
    );
}

#[test]
fn test_plan006_orchestration_err_synthetic_trips_is_synthetic_failure() {
    let failure_reason =
        "model orchestration call failed (timeout/empty stream): request timed out after 60s"
            .to_string();
    let response = AutoPromptResponse {
        should_continue: false,
        next_prompt: None,
        reason: Some(failure_reason),
        all_plan_done: false,
        confidence: Some(confidence(0.0)),
        thread_summary: None,
        handover: None,
    };
    assert!(
        is_synthetic_failure(&response.confidence, &response.reason),
        "orchestration-Err synthetic response must trip is_synthetic_failure so recovery engages"
    );
}

#[test]
fn test_plan006_orchestration_err_synthetic_routes_to_wants_stop() {
    let failure_reason =
        "model orchestration call failed (timeout/empty stream): stream produced only errors"
            .to_string();
    let input = EvaluationInput {
        should_continue: false,
        confidence: Some(confidence(0.0)),
        reason: Some(failure_reason),
        is_synthetic_failure: true,
        ..make_input()
    };
    let result = evaluate_response(&input);
    assert!(
        matches!(result, EvaluationResult::WantsStop { .. }),
        "orchestration-Err synthetic must be WantsStop (routes into recovery), got {result:?}"
    );
}

#[test]
fn test_plan006_non_model_err_reason_is_not_synthetic_failure() {
    // An error that does not blame the model is no synthetic failure.
    let input = EvaluationInput {
        should_continue: false,
        confidence: Some(confidence(0.0)),
        reason: Some("connection reset by peer".to_string()),
        is_synthetic_failure: false,
        ..make_input()
    };
    let result = evaluate_response(&input);
    assert!(!is_synthetic_failure(&input.confidence, &input.reason));
    assert!(
        matches!(result, EvaluationResult::WantsStop { .. }),
        "non-model error still WantsStop (low conf), got {result:?}"
    );
}

#[test]
fn test_eval_normal_low_confidence_not_marked_synthetic() {
    // A stop for low confidence that is the model's own is verified.
    let input = EvaluationInput {
        should_continue: false,
        confidence: Some(confidence(0.3)),
        reason: Some("no active task identified".to_string()),
        is_synthetic_failure: false,
        ..make_input()
    };
    let result = evaluate_response(&input);
    assert!(
        matches!(result, EvaluationResult::WantsStop { .. }),
        "expected WantsStop for low confidence, got {result:?}"
    );
}

#[test]
fn test_eval_thinking_fallback_confidence_0_3_is_not_synthetic() {
    // Thinking without text counts as a synthetic failure, and low confidence stops.
    let input = EvaluationInput {
        should_continue: false,
        confidence: Some(confidence(0.3)),
        reason: Some("Model returned 5 Thinking events but no Text output".to_string()),
        is_synthetic_failure: true,
        ..make_input()
    };
    let result = evaluate_response(&input);
    assert!(
        matches!(result, EvaluationResult::WantsStop { .. }),
        "expected WantsStop for thinking-only fallback, got {result:?}"
    );
}

#[test]
fn test_eval_remaining_work_strikethrough_in_last_message() {
    let input = EvaluationInput {
        should_continue: false,
        last_assistant_message: Some(
            "All phases complete.\n\n- [ ] ~~T5: SIMD accelerate~~ Skipped — YAGNI".to_string(),
        ),
        ..make_input()
    };
    let result = evaluate_response(&input);
    assert!(
        matches!(result, EvaluationResult::WantsStop { .. }),
        "struck-through only items should not override stop, got: {result:?}"
    );
}

#[test]
fn test_eval_remaining_work_real_plus_skipped_continues() {
    let input = EvaluationInput {
        should_continue: false,
        last_assistant_message: Some(
            "Phase 1 done.\n\n- [ ] Run benchmarks\n- [ ] ~~T5: SIMD~~ Skipped".to_string(),
        ),
        ..make_input()
    };
    let result = evaluate_response(&input);
    assert!(
        matches!(result, EvaluationResult::NeedsSecondOpinion { .. }),
        "expected NeedsSecondOpinion for real checkbox with skipped, got {result:?}"
    );
}

#[test]
fn decisions_name_their_source() {
    let source = |input: EvaluationInput| evaluate_response(&input).source();
    assert_eq!(
        source(EvaluationInput {
            confidence: Some(confidence(0.49)),
            ..make_input()
        }),
        DecisionSource::ConfidenceGate
    );
    assert_eq!(
        source(EvaluationInput {
            should_continue: true,
            next_prompt: Some("go".to_string()),
            last_assistant_message: Some("Stopping, NO FURTHER WORK.".to_string()),
            stop_phase: StopPhase::PreStop,
            ..make_input()
        }),
        DecisionSource::Handbrake
    );
    assert_eq!(
        source(EvaluationInput {
            should_continue: true,
            next_prompt: Some("#SKIP #ALL_PLAN_DONE".to_string()),
            ..make_input()
        }),
        DecisionSource::LlmNoPrompt
    );
    assert_eq!(
        source(EvaluationInput {
            last_assistant_message: Some("- [ ] open".to_string()),
            ..make_input()
        }),
        DecisionSource::RuleRemainingWork
    );
    assert_eq!(source(make_input()), DecisionSource::LlmResponse);
}

#[test]
fn the_reason_of_a_low_confidence_shows_two_decimals() {
    let input = EvaluationInput {
        confidence: Some(confidence(0.25)),
        ..make_input()
    };
    assert_eq!(
        evaluate_response(&input),
        EvaluationResult::WantsStop {
            reason: "confidence too low (0.25 < 0.5)".to_string()
        }
    );
    let input = EvaluationInput {
        confidence: Some(confidence(0.5)),
        reason: Some("mine".to_string()),
        ..make_input()
    };
    assert_eq!(
        evaluate_response(&input),
        EvaluationResult::WantsStop {
            reason: "mine".to_string()
        }
    );
    let input = EvaluationInput {
        next_prompt: Some("x".to_string()),
        confidence: None,
        ..make_input()
    };
    assert_eq!(
        evaluate_response(&input),
        EvaluationResult::WantsStop {
            reason: "LLM says stop despite having prompt".to_string()
        }
    );
}

#[test]
fn an_absent_confidence_counts_as_low_only_for_the_first_answer() {
    let reason = Some("MODEL failed".to_string());
    assert!(is_synthetic_failure(&None, &reason));
    assert!(!is_retry_failure(&None, &reason));
    assert!(is_retry_failure(&Some(confidence(0.3)), &reason));
    assert!(!is_synthetic_failure(&Some(confidence(0.31)), &reason));
    assert!(!is_synthetic_failure(&None, &None));
}
