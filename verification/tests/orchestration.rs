use auto_prompt::config::CallTimeouts;
use auto_prompt::context::{AutoPromptResponse, HandoverBlock, StopPhase};
use auto_prompt::decision::{AutoPromptOutcome, LlmCallData};
use auto_prompt::first_prompt::{extract_original_user_message, strip_first_prompt_wrapper};
use auto_prompt::orchestration::{
    RETRY_PROMPT, SECOND_OPINION_PROMPT, Step, active_plans, after_retry, after_second_opinion,
    decide_with_llm, verify_stop, with_fallback_notes,
};
use auto_prompt::score::{Confidence, Score};

fn confidence(value: f64) -> Confidence {
    Confidence {
        value: Score {
            bits: value.to_bits(),
        },
        two_decimals: format!("{value:.2}"),
    }
}

fn data() -> LlmCallData {
    LlmCallData {
        model: "m".to_string(),
        system_prompt: "sys".to_string(),
        context_json: r#"{"plan_files":[]}"#.to_string(),
        project_root: None,
        session_id: "s".to_string(),
        title: Some("Title".to_string()),
        iteration_count: 1,
        max_verification_attempts: 2,
        work_dirs: Some(vec!["/w".to_string()]),
        first_user_message: None,
        original_user_message: Some("origin".to_string()),
        last_assistant_message: None,
        profile_id: Some("High".to_string()),
        actual_input_tokens: Some(5),
        had_error: false,
        stop_phase: StopPhase::Working,
        call_timeouts: CallTimeouts::default(),
    }
}

fn answer(should_continue: bool, next_prompt: Option<&str>, reason: Option<&str>) -> AutoPromptResponse {
    AutoPromptResponse {
        should_continue,
        next_prompt: next_prompt.map(|s| s.to_string()),
        reason: reason.map(|s| s.to_string()),
        all_plan_done: false,
        confidence: Some(confidence(0.9)),
        thread_summary: Some("what was done".to_string()),
        handover: None,
    }
}

fn continued(step: &Step) -> String {
    match step {
        Step::Finished {
            outcome: AutoPromptOutcome::Continue(action),
            stop_log: None,
            reset: false,
        } => {
            assert_eq!(action.from_session_id, "s");
            assert_eq!(action.from_title.as_deref(), Some("Title"));
            assert_eq!(action.work_dirs, Some(vec!["/w".to_string()]));
            assert_eq!(action.original_user_message.as_deref(), Some("origin"));
            assert_eq!(action.profile_id.as_deref(), Some("High"));
            assert_eq!(action.actual_input_tokens, Some(5));
            strip_first_prompt_wrapper(&action.next_prompt)
        }
        other => panic!("expected Continue, got {other:?}"),
    }
}

fn stopped(step: &Step) -> (String, String) {
    match step {
        Step::Finished {
            outcome: AutoPromptOutcome::Stopped { reason },
            stop_log: Some(log),
            reset: true,
        } => (reason.clone(), log.clone()),
        other => panic!("expected Stopped, got {other:?}"),
    }
}

const OPEN_PLAN: &str = r#"{"plan_files":[{"path":"/w/p/.plans/1.md","content":"- [ ] task"}]}"#;

#[test]
fn a_wish_to_go_on_sends_the_prompt_with_its_summary() {
    let round = decide_with_llm(&data(), Ok(answer(true, Some("do it"), None)), 0);
    assert_eq!(continued(&round.step), "do it");
    assert!(!round.is_synthetic_failure);
    assert_eq!(round.summary.as_deref(), Some("what was done"));
    let Step::Finished {
        outcome: AutoPromptOutcome::Continue(action),
        ..
    } = &round.step
    else {
        panic!("expected Continue");
    };
    assert_eq!(
        action.next_prompt,
        "## 1. Thread Summary\n\nwhat was done\n\n---\n\n## 3. Decision\n\ndo it"
    );
    assert_eq!(
        extract_original_user_message(&action.next_prompt).as_deref(),
        Some("what was done")
    );
}

#[test]
fn notes_lead_the_prompt_and_make_one_where_there_is_none() {
    let notes = HandoverBlock {
        next_step: Some("run tests".to_string()),
        ..Default::default()
    };
    let mut with_prompt = answer(true, Some("go"), None);
    with_prompt.handover = Some(notes.clone());
    let round = decide_with_llm(&data(), Ok(with_prompt), 0);
    assert_eq!(
        continued(&round.step),
        "<handover>\nnext_step: run tests\n</handover>\n\ngo"
    );
    let mut alone = answer(true, None, None);
    alone.handover = Some(notes);
    let round = decide_with_llm(&data(), Ok(alone), 0);
    assert_eq!(
        round.response.next_prompt.as_deref(),
        Some("<handover>\nnext_step: run tests\n</handover>\n\nContinue from the handover above.")
    );
    let mut empty = answer(true, None, None);
    empty.handover = Some(HandoverBlock::default());
    assert_eq!(decide_with_llm(&data(), Ok(empty), 0).response.next_prompt, None);
}

#[test]
fn documentation_waits_for_open_checkboxes() {
    let mut d = data();
    let reply = answer(true, Some("Write documentation"), None);
    assert_eq!(
        continued(&decide_with_llm(&d, Ok(reply.clone()), 0).step),
        "Write documentation"
    );
    d.context_json = OPEN_PLAN.to_string();
    assert!(
        continued(&decide_with_llm(&d, Ok(reply), 0).step).starts_with("MANDATORY CHECKPOINT")
    );
}

#[test]
fn a_finished_plan_leads_over_to_the_others() {
    let mut d = data();
    d.context_json = OPEN_PLAN.to_string();
    let reply = answer(true, Some("done #ALL_PLAN_DONE"), None);
    let prompt = continued(&decide_with_llm(&d, Ok(reply.clone()), 0).step);
    assert!(prompt.starts_with(
        "All current plan tasks are checked. For your awareness, remaining plans:\n\n**p** (1 plan(s)):"
    ));
    assert!(prompt.contains("\n\nIMPORTANT: Do NOT start a new plan automatically."));
    let prompt = continued(&decide_with_llm(&data(), Ok(reply), 0).step);
    assert!(prompt.starts_with("All plans are complete. Final cleanup"));
}

#[test]
fn a_first_stop_is_verified_and_later_ones_end_the_chain() {
    let reply = answer(false, None, Some("all good"));
    let round = decide_with_llm(&data(), Ok(reply.clone()), 0);
    assert_eq!(round.step, Step::VerifyStop);
    let prompt = continued(&verify_stop(&data(), round.summary.as_deref(), &vec![]));
    assert!(prompt.starts_with("PRE-STOP VERIFICATION"));
    let reason = "LLM says stop after verification attempt 1/2".to_string();
    assert_eq!(
        stopped(&decide_with_llm(&data(), Ok(reply.clone()), 1).step),
        (reason.clone(), reason)
    );
    let reason = "max verification attempts (2) exceeded".to_string();
    assert_eq!(
        stopped(&decide_with_llm(&data(), Ok(reply), 2).step),
        (reason.clone(), reason)
    );
}

#[test]
fn a_second_opinion_decides_about_remaining_work() {
    let mut d = data();
    d.last_assistant_message = Some("Next steps:\n- fix the test".to_string());
    let round = decide_with_llm(&d, Ok(answer(false, None, Some("done"))), 0);
    let Step::AskSecondOpinion {
        system_prompt,
        context,
        section,
    } = round.step
    else {
        panic!("expected a second opinion");
    };
    assert_eq!(system_prompt, SECOND_OPINION_PROMPT);
    assert!(context.starts_with(
        "## Main LLM decision\n- should_continue: false\n- reason: done\n\n## Pattern detection\n- rule: LLM says stop but last_assistant_message contains remaining work pattern\n\n## Extracted section\nPrevious assistant mentioned remaining work."
    ));
    assert!(context.ends_with(
        "\n\n## Last assistant message (for context)\nNext steps:\n- fix the test"
    ));
    let yes = after_second_opinion(&d, None, section.clone(), Ok(answer(true, None, None)));
    assert_eq!(continued(&yes), section);
    let no = after_second_opinion(&d, None, section.clone(), Ok(answer(false, None, None)));
    assert_eq!(stopped(&no).0, "second opinion confirmed stop: no reason given");
    let failed = after_second_opinion(&d, None, section, Err("timeout".to_string()));
    assert_eq!(
        stopped(&failed).1,
        "second opinion LLM call failed: timeout — defaulting to stop"
    );
}

#[test]
fn a_failed_call_is_retried_three_times() {
    let mut d = data();
    d.last_assistant_message = Some("one\n\ntwo\n\nthree\n\nfour".to_string());
    let round = decide_with_llm(&d, Err("timed out".to_string()), 0);
    assert!(round.is_synthetic_failure);
    assert_eq!(
        round.response.reason.as_deref(),
        Some("model orchestration call failed (timeout/empty stream): timed out")
    );
    let Step::Retry {
        attempt,
        delay_ms,
        system_prompt,
        context,
        reason,
    } = round.step
    else {
        panic!("expected a retry");
    };
    assert_eq!((attempt, delay_ms), (1, 0));
    assert_eq!(system_prompt, RETRY_PROMPT);
    assert_eq!(
        context,
        "Thread: Title\n\nLast assistant message:\ntwo\n\nthree\n\nfour"
    );
    assert_eq!(reason, "confidence too low (0.00 < 0.5)");

    let mut silent = answer(true, None, Some("Model said nothing"));
    silent.confidence = Some(confidence(0.3));
    let second = after_retry(&d, None, 1, &reason, Err("x".to_string()));
    let third = after_retry(&d, None, 2, &reason, Ok(silent.clone()));
    for (step, expected) in [(second, (2, 4000)), (third, (3, 8000))] {
        let Step::Retry {
            attempt, delay_ms, ..
        } = step
        else {
            panic!("expected a retry");
        };
        assert_eq!((attempt, delay_ms), expected);
    }
    let last = after_retry(&d, None, 3, &reason, Ok(silent));
    assert_eq!(
        stopped(&last),
        (
            "lightweight retry failed: confidence too low (0.00 < 0.5)".to_string(),
            "lightweight retry failed after 3 attempts, no remaining work or plan tasks detected: confidence too low (0.00 < 0.5)".to_string()
        )
    );
}

#[test]
fn an_answer_to_a_retry_is_followed() {
    let go = after_retry(&data(), None, 1, "r", Ok(answer(true, None, None)));
    assert_eq!(continued(&go), "Continue with remaining work.");
    let go = after_retry(&data(), None, 2, "r", Ok(answer(true, Some("next"), None)));
    assert_eq!(continued(&go), "next");
    let mut unsure = answer(true, Some("next"), Some("model is unsure"));
    unsure.confidence = None;
    assert_eq!(continued(&after_retry(&data(), None, 1, "r", Ok(unsure))), "next");
    let stop = after_retry(&data(), None, 1, "r", Ok(answer(false, None, None)));
    assert_eq!(
        stopped(&stop),
        (
            "lightweight retry says stop".to_string(),
            "lightweight retry: lightweight retry says stop".to_string()
        )
    );
}

#[test]
fn work_that_is_left_overrides_a_stop_after_a_retry() {
    let mut d = data();
    d.context_json = OPEN_PLAN.to_string();
    let step = after_retry(&d, None, 1, "r", Ok(answer(false, None, Some("done"))));
    assert!(continued(&step).contains("- 1.md: 1 unchecked task(s)"));
    let step = after_retry(&d, None, 3, "r", Err("x".to_string()));
    assert!(continued(&step).contains("- 1.md: 1 unchecked task(s)"));
    d.last_assistant_message = Some("- [ ] still open".to_string());
    let step = after_retry(&d, None, 3, "r", Err("x".to_string()));
    assert!(continued(&step).starts_with("Previous assistant left unchecked items."));
}

#[test]
fn a_fork_gets_notes_where_the_model_left_none() {
    let mut data = data();
    data.first_user_message = Some("fix the login".to_string());
    data.last_assistant_message = Some("half done".to_string());
    data.context_json = two_plans();
    assert_eq!(active_plans(&data.context_json), vec!["1.md".to_string()]);
    assert!(active_plans("no json").is_empty());

    let plain = answer(true, Some("go"), None);
    let noted = with_fallback_notes(&data, plain.clone(), true);
    let block = "<handover>\noriginal_intent: fix the login\nin_progress:\n  - half done\nactive_plans:\n  - 1.md\n</handover>";
    assert_eq!(noted.handover.as_ref().map(|notes| notes.to_yaml_block()).as_deref(), Some(block));
    assert_eq!(noted.next_prompt, plain.next_prompt);
    let round = decide_with_llm(&data, Ok(noted), 0);
    assert_eq!(continued(&round.step), format!("{block}\n\ngo"));

    assert_eq!(with_fallback_notes(&data, plain.clone(), false), plain);
    for unusable in [None, Some(" #SKIP ")] {
        let silent = answer(true, unusable, None);
        assert_eq!(with_fallback_notes(&data, silent.clone(), true), silent);
    }
    let mut own = plain.clone();
    own.handover = Some(HandoverBlock {
        next_step: Some("test".to_string()),
        ..Default::default()
    });
    assert_eq!(with_fallback_notes(&data, own.clone(), true), own);
    own.handover = Some(HandoverBlock::default());
    assert_ne!(with_fallback_notes(&data, own.clone(), true), own);
}

fn two_plans() -> String {
    r#"{"plan_files":[{"path":"/w/.plans/1.md","content":"- [ ] x"},{"path":"/w/.plans/2.md","content":"- [x] y"}]}"#.to_string()
}
