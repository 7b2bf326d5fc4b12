use auto_prompt::chain::ChainState;
use auto_prompt::config::AutoPromptConfig;
use auto_prompt::decision::{AutoPromptAction, AutoPromptDecision, AutoPromptOutcome};
use auto_prompt::dispatch::{
    AfterFailure, AfterOutcome, AutoPromptState, Destination, Start, after_failure, after_outcome,
    choose_system_prompt, current_system_prompt, dispatch_action, has_room, is_cancelled,
    on_thread_stopped, update_notice,
};
use auto_prompt::first_prompt::{
    skip_context_metadata, strip_first_prompt_wrapper, with_first_prompt_context,
};

fn action(next_prompt: &str, tokens: Option<u64>) -> AutoPromptAction {
    AutoPromptAction {
        from_session_id: "s".to_string(),
        from_title: None,
        next_prompt: next_prompt.to_string(),
        work_dirs: None,
        original_user_message: Some("origin".to_string()),
        profile_id: None,
        actual_input_tokens: tokens,
        last_assistant_message: None,
    }
}

#[test]
fn stripping_gives_back_the_instruction() {
    let wrapped = with_first_prompt_context(
        " go on \n".to_string(),
        Some("summary"),
        None,
        Some("last words"),
    );
    assert_eq!(strip_first_prompt_wrapper(&wrapped), "go on");
    let wrapped = with_first_prompt_context("go".to_string(), None, None, Some("last"));
    assert_eq!(strip_first_prompt_wrapper(&wrapped), "go");
    assert_eq!(strip_first_prompt_wrapper("  as it is "), "  as it is ");
    assert_eq!(
        strip_first_prompt_wrapper(
            "## 1. First Prompt (original request)\n\nx\n\n---\n\n## 4. Decision\n\ncommit"
        ),
        "commit"
    );
    assert_eq!(
        strip_first_prompt_wrapper(
            "## User (checkpoint)\n\nx\n---\nrefer to first thread\n---\nThread summary\n---\nnow"
        ),
        "now"
    );
    assert_eq!(
        strip_first_prompt_wrapper("refer to first prompt:\n===---===\nx\n===---===\n\n go "),
        " go "
    );
    let unfinished = "## 1. Thread Summary\n\nx\n\n---\n\n## 3. Decision\n\n  ";
    assert_eq!(strip_first_prompt_wrapper(unfinished), unfinished);
}

#[test]
fn metadata_ends_at_the_last_rule_with_text_behind_it() {
    assert_eq!(skip_context_metadata("a\n---\nb\n ---\t\nc\nd\n---\n "), "c\nd\n---");
    assert_eq!(skip_context_metadata("a\n---\nb\n---\n\n"), "b\n---");
    assert_eq!(skip_context_metadata(" no rule "), "no rule");
}

#[test]
fn prompts_stay_in_a_thread_with_room() {
    let config = AutoPromptConfig {
        fork_at: 10,
        same_thread_token_threshold: 20,
        ..Default::default()
    };
    let wrapped = with_first_prompt_context("go".to_string(), Some("sum"), None, None);
    let same = Destination::SameThread {
        prompt: "go".to_string(),
    };
    let at = |tokens, native, active| {
        dispatch_action(action(&wrapped, tokens), native, active, Some(&config))
    };
    assert!(has_room(Some(19), Some(&config)));
    assert!(!has_room(Some(20), Some(&config)));
    assert!(has_room(None, Some(&config)));
    assert!(!has_room(Some(70_000), None));
    assert_eq!(at(Some(19), true, true), same);
    assert_eq!(at(None, true, true), same);
    assert_eq!(at(Some(20), false, true), same);
    for moved in [at(Some(20), true, true), at(Some(1), true, false)] {
        let Destination::NewThread(thread) = moved else {
            panic!("expected a new thread");
        };
        assert_eq!(thread.next_prompt, wrapped);
        assert_eq!(thread.original_user_message.as_deref(), Some("origin"));
        assert_eq!(thread.decision_prompt, None);
    }
    assert_eq!(
        dispatch_action(action(&wrapped, Some(69_999)), true, true, None),
        same
    );
    assert!(matches!(
        dispatch_action(action(&wrapped, Some(70_000)), true, true, None),
        Destination::NewThread(_)
    ));
}

#[test]
fn decisions_take_the_profile_along() {
    let profile = Some("High".to_string());
    assert_eq!(
        on_thread_stopped(AutoPromptDecision::NoAction, profile.clone()),
        Start::Nothing
    );
    let expected = AutoPromptAction {
        profile_id: profile.clone(),
        ..action("x", None)
    };
    assert_eq!(
        on_thread_stopped(
            AutoPromptDecision::DispatchNow(action("x", None)),
            profile.clone()
        ),
        Start::Dispatch(expected.clone())
    );
    assert_eq!(
        on_thread_stopped(
            AutoPromptDecision::DispatchAfterDelay {
                action: action("x", None),
                delay_ms: 5
            },
            profile
        ),
        Start::DispatchAfter {
            action: expected,
            delay_ms: 5
        }
    );
}

#[test]
fn only_a_pending_decision_is_not_cancelled() {
    assert!(!is_cancelled(Some(&AutoPromptState::Processing)));
    assert!(is_cancelled(Some(&AutoPromptState::Idle)));
    assert!(is_cancelled(Some(&AutoPromptState::Failed("x".to_string()))));
    assert!(is_cancelled(None));
    assert_eq!(AutoPromptState::default(), AutoPromptState::Idle);
}

#[test]
fn failures_are_retried_with_growing_delays_and_then_shown() {
    let config = AutoPromptConfig::default();
    let mut chain = ChainState::new();
    for delay_ms in [4_000, 8_000, 16_000] {
        assert_eq!(
            after_failure(&mut chain, &config, "e"),
            AfterFailure::RetryAfter { delay_ms }
        );
    }
    assert_eq!(
        after_failure(&mut chain, &config, "first\nsecond"),
        AfterFailure::GiveUp {
            state: AutoPromptState::Failed("first\nsecond".to_string()),
            toast: "Auto-prompt failed: first".to_string()
        }
    );
    assert_eq!(chain.llm_failure_count, 4);
}

#[test]
fn outcomes_are_dropped_when_cancelled() {
    let mut chain = ChainState {
        llm_failure_count: 2,
        ..ChainState::new()
    };
    let outcome = AutoPromptOutcome::Stopped {
        reason: "done".to_string(),
    };
    assert_eq!(
        after_outcome(&mut chain, outcome.clone(), true),
        AfterOutcome::Discard
    );
    assert_eq!(chain.llm_failure_count, 2);
    assert_eq!(
        after_outcome(&mut chain, outcome, false),
        AfterOutcome::Show {
            toast: "Auto-prompt stopped: done".to_string()
        }
    );
    assert_eq!(chain.llm_failure_count, 0);
    assert_eq!(
        after_outcome(
            &mut chain,
            AutoPromptOutcome::Continue(action("x", None)),
            false
        ),
        AfterOutcome::Dispatch(action("x", None))
    );
}

#[test]
fn the_newest_system_prompt_is_used_unless_one_is_set() {
    let s = |t: &str| t.to_string();
    assert_eq!(
        current_system_prompt(s("old"), 1, s("new"), 2),
        (s("new"), true)
    );
    assert_eq!(
        current_system_prompt(s("own"), 2, s("new"), 2),
        (s("own"), false)
    );
    assert_eq!(choose_system_prompt(&Some(s("set")), Some(s("own")), s("cur")), "set");
    assert_eq!(choose_system_prompt(&None, Some(s("own")), s("cur")), "own");
    assert_eq!(choose_system_prompt(&None, None, s("cur")), "cur");
    assert_eq!(
        update_notice(&None, true),
        Some(s(
            "Auto-prompt system prompt updated to a newer version. You can customize it in Settings > Prompts."
        ))
    );
    assert_eq!(update_notice(&None, false), None);
    assert_eq!(update_notice(&Some(s("set")), true), None);
}
