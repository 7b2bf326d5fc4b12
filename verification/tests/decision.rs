use auto_prompt::config::{AutoPromptConfig, CompactionConfig};
use auto_prompt::context::{AutoPromptContext, ContextMessage, ContextMessageRole, StopPhase};
use auto_prompt::decision::{
    AutoPromptDecision, Gate, StopReason, ThreadEntry, ThreadIdentity, decide, first_user_message,
    is_interactive_auth_command, is_interactive_tool_pending, needs_llm_call, prepare_context,
};
use auto_prompt::evaluation::{VerificationGateResult, handle_wants_stop};

#[test]
fn test_gate_first_stop_with_plan_files() {
    let result = handle_wants_stop(0, 2, true);
    assert_eq!(result, VerificationGateResult::DispatchVerification);
}

#[test]
fn test_gate_first_stop_no_plan_files() {
    let result = handle_wants_stop(0, 2, false);
    assert_eq!(result, VerificationGateResult::StopNoPlanFiles);
}

#[test]
fn test_gate_after_one_verification() {
    let result = handle_wants_stop(1, 2, true);
    assert_eq!(result, VerificationGateResult::StopAfterVerification);
}

#[test]
fn test_gate_at_max_verifications() {
    let result = handle_wants_stop(2, 2, true);
    assert_eq!(result, VerificationGateResult::StopMaxExceeded);
}

#[test]
fn test_gate_exceeded_max() {
    let result = handle_wants_stop(5, 2, true);
    assert_eq!(result, VerificationGateResult::StopMaxExceeded);
}

fn terminal(command: &str) -> ThreadEntry {
    ThreadEntry::ToolCall {
        tool_name: Some("terminal".to_string()),
        command: Some(command.to_string()),
    }
}

fn user(content: &str) -> ThreadEntry {
    ThreadEntry::UserMessage {
        content: content.to_string(),
    }
}

fn no_action(log: &str, reset: bool) -> Gate {
    Gate::NoAction {
        log: log.to_string(),
        reset,
    }
}

#[test]
fn test_decide_noaction_conditions_documented() {
    let config = AutoPromptConfig::default();
    let calm: Vec<ThreadEntry> = vec![user("hello"), terminal("cargo test")];
    let login: Vec<ThreadEntry> = vec![user("hello"), terminal("gh auth login")];

    assert_eq!(
        decide(Err("broken"), StopReason::Cancelled, &login, 99, false),
        no_action("config load failed: broken", false)
    );
    assert_eq!(
        decide(Ok(&config), StopReason::Cancelled, &login, 99, false),
        no_action("thread cancelled by user", false)
    );
    assert_eq!(
        decide(Ok(&config), StopReason::EndTurn, &login, 99, false),
        no_action(
            "interactive auth tool pending — user must complete login",
            false
        )
    );
    assert_eq!(
        decide(Ok(&config), StopReason::EndTurn, &calm, 21, false),
        no_action("max iterations (20) reached", true)
    );
    assert_eq!(
        decide(Ok(&config), StopReason::EndTurn, &calm, 20, false),
        no_action("no language model configured in Zed", false)
    );
    for reason in [
        StopReason::EndTurn,
        StopReason::MaxTokens,
        StopReason::MaxTurnRequests,
        StopReason::Refusal,
    ] {
        assert_eq!(decide(Ok(&config), reason, &calm, 20, true), Gate::Proceed);
    }
}

#[test]
fn a_context_that_cannot_be_serialized_ends_the_matter() {
    let config = AutoPromptConfig::default();
    let (decision, log) = needs_llm_call(
        &context(),
        &config,
        identity(),
        "m".to_string(),
        "default",
        Err("too deep".to_string()),
    );
    assert_eq!(decision, AutoPromptDecision::NoAction);
    assert_eq!(log.as_deref(), Some("context serialization failed: too deep"));
}

#[test]
fn a_call_carries_what_the_thread_knows() {
    let mut config = AutoPromptConfig::default();
    let mut ctx = context();
    ctx.first_user_message =
        Some("## 1. Thread Summary\n\nfix it\n\n---\n\n## 3. Decision\n\ngo".to_string());
    ctx.last_assistant_message = Some("done".to_string());
    ctx.actual_input_tokens = Some(12);
    ctx.had_error = true;
    ctx.stop_phase = StopPhase::PreStop;
    let (decision, log) = needs_llm_call(
        &ctx,
        &config,
        identity(),
        "m".to_string(),
        "default",
        Ok("{}".to_string()),
    );
    assert_eq!(log, None);
    let AutoPromptDecision::NeedsLlmCall(data) = decision else {
        panic!("expected a call");
    };
    assert_eq!(data.model, "m");
    assert_eq!(data.system_prompt, "default");
    assert_eq!(data.context_json, "{}");
    assert_eq!(data.session_id, "s1");
    assert_eq!(data.title.as_deref(), Some("t"));
    assert_eq!(data.work_dirs, Some(vec!["/w".to_string()]));
    assert_eq!(data.project_root.as_deref(), Some("/w"));
    assert_eq!(data.iteration_count, 4);
    assert_eq!(data.max_verification_attempts, 2);
    assert_eq!(data.original_user_message.as_deref(), Some("fix it"));
    assert_eq!(data.last_assistant_message.as_deref(), Some("done"));
    assert_eq!(data.actual_input_tokens, Some(12));
    assert!(data.had_error);
    assert_eq!(data.stop_phase, StopPhase::PreStop);
    assert_eq!(data.profile_id, None);

    config.system_prompt = Some("mine".to_string());
    let (decision, _) = needs_llm_call(
        &ctx,
        &config,
        identity(),
        "m".to_string(),
        "default",
        Ok("{}".to_string()),
    );
    let AutoPromptDecision::NeedsLlmCall(data) = decision else {
        panic!("expected a call");
    };
    assert_eq!(data.system_prompt, "mine");
}

#[test]
fn only_a_login_behind_the_last_user_message_is_pending() {
    assert!(is_interactive_tool_pending(&vec![
        user("x"),
        terminal("npm LOGIN"),
        ThreadEntry::Other,
        terminal("ls"),
    ]));
    assert!(!is_interactive_tool_pending(&vec![
        terminal("npm login"),
        user("logged in now"),
        terminal("ls"),
    ]));
    assert!(!is_interactive_tool_pending(&vec![ThreadEntry::ToolCall {
        tool_name: Some("edit".to_string()),
        command: Some("login".to_string()),
    }]));
    assert!(!is_interactive_tool_pending(&vec![ThreadEntry::ToolCall {
        tool_name: Some("terminal".to_string()),
        command: None,
    }]));
    assert!(!is_interactive_tool_pending(&vec![]));
}

#[test]
fn auth_commands_are_recognized_in_any_case() {
    for command in [
        "gcloud auth login",
        "aws SSO LOGIN",
        "tool SignIn",
        "x sign-in",
        "x Sign In",
        "az auth token",
        "run authenticate",
        "start OAuth flow",
    ] {
        assert!(is_interactive_auth_command(command), "{command}");
    }
    for command in ["cargo build", "git commit -m author", "authenticate"] {
        assert!(!is_interactive_auth_command(command), "{command}");
    }
}

#[test]
fn the_first_user_message_is_the_first_nonempty_one() {
    assert_eq!(
        first_user_message(&vec![ThreadEntry::Other, user(""), user("hi"), user("ho")]),
        Some("hi")
    );
    assert_eq!(first_user_message(&vec![user(""), terminal("x")]), None);
}

#[test]
fn a_prepared_context_shows_phase_and_fork() {
    let mut config = AutoPromptConfig::default();
    config.fork_at = 100;
    let mut ctx = context();
    ctx.approximate_token_count = 100;
    prepare_context(&mut ctx, &config, 0);
    assert_eq!(ctx.stop_phase, StopPhase::Working);
    assert!(ctx.fork_imminent);
    assert_eq!(ctx.verification_count, 0);

    ctx.actual_input_tokens = Some(99);
    prepare_context(&mut ctx, &config, 1);
    assert_eq!(ctx.stop_phase, StopPhase::PreStop);
    assert!(!ctx.fork_imminent);
    assert_eq!(ctx.verification_count, 1);
}

#[test]
fn a_prepared_context_is_compacted_only_when_due() {
    let long = format!("[Tool: t (completed)]\nInput: x\nOutput: {}", "y".repeat(4000));
    let mut config = AutoPromptConfig::default();
    config.compaction = Some(CompactionConfig {
        enabled: true,
        compact_at: 500,
        compact_target: 10,
        keep_recent: 0,
        use_llm_for_assistant_abstracts: false,
    });
    let mut ctx = context();
    ctx.messages = vec![ContextMessage {
        role: ContextMessageRole::Tool,
        content: long.clone(),
    }];
    ctx.approximate_token_count = 500;
    prepare_context(&mut ctx, &config, 0);
    assert_eq!(ctx.messages[0].content, long);
    assert!(!ctx.was_truncated);

    ctx.approximate_token_count = 501;
    prepare_context(&mut ctx, &config, 0);
    assert_eq!(
        ctx.messages[0].content,
        "[compacted:Tool t status=completed args=\"x\"]"
    );
    assert!(ctx.was_truncated);
    assert_eq!(ctx.approximate_token_count, 11);
}

fn identity() -> ThreadIdentity {
    ThreadIdentity {
        session_id: "s1".to_string(),
        title: Some("t".to_string()),
        work_dirs: Some(vec!["/w".to_string()]),
        project_root: Some("/w".to_string()),
    }
}

fn context() -> AutoPromptContext {
    AutoPromptContext {
        current_datetime: String::new(),
        current_paths: vec![],
        session_id: "s1".to_string(),
        title: None,
        messages: vec![],
        used_tools: false,
        entry_count: 0,
        current_plan: vec![],
        plan_files: vec![],
        doc_files: vec![],
        stop_reason: String::new(),
        had_error: false,
        approximate_token_count: 0,
        actual_input_tokens: None,
        iteration_count: 4,
        stop_phase: StopPhase::Working,
        verification_count: 0,
        was_truncated: false,
        compaction_log: vec![],
        fork_imminent: false,
        plan_has_checkboxes: false,
        first_plan_filename: String::new(),
        plan_number: String::new(),
        first_user_message: None,
        last_assistant_message: None,
    }
}
