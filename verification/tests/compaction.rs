use auto_prompt::compaction::{
    MAX_COMPACTION_LOG_ENTRIES, compact_old_messages, is_terminal_tool_call,
    next_compactable_index, parse_tool_label_line, role_name, summarize_tool_call, truncate_assistant,
};
use auto_prompt::config::CompactionConfig;
use auto_prompt::context::{
    AutoPromptContext, CompactionStrategy, ContextMessage, ContextMessageRole, StopPhase,
};

fn make_tool_call(label: &str, status: &str, input: &str, output: &str) -> ContextMessage {
    let content = format!("[Tool: {label} ({status})]\nInput: {input}\nOutput: {output}");
    ContextMessage {
        role: ContextMessageRole::Tool,
        content,
    }
}

fn make_assistant(text: &str) -> ContextMessage {
    ContextMessage {
        role: ContextMessageRole::Assistant,
        content: text.to_string(),
    }
}

fn make_user(text: &str) -> ContextMessage {
    ContextMessage {
        role: ContextMessageRole::User,
        content: text.to_string(),
    }
}

fn make_ctx_with_messages(messages: Vec<ContextMessage>) -> AutoPromptContext {
    let mut ctx = AutoPromptContext {
        current_datetime: "2026-01-01T00:00:00Z".into(),
        current_paths: vec![],
        session_id: "test".into(),
        title: None,
        messages,
        used_tools: true,
        entry_count: 0,
        current_plan: vec![],
        plan_files: vec![],
        doc_files: vec![],
        stop_reason: "end_turn".into(),
        had_error: false,
        approximate_token_count: 0,
        actual_input_tokens: None,
        iteration_count: 1,
        stop_phase: StopPhase::Working,
        verification_count: 0,
        was_truncated: false,
        compaction_log: vec![],
        fork_imminent: false,
        plan_has_checkboxes: false,
        first_plan_filename: "plan.md".into(),
        plan_number: "00".into(),
        first_user_message: None,
        last_assistant_message: None,
    };
    ctx.approximate_token_count = ctx.estimate_token_count();
    ctx
}

fn policy(keep_recent: usize) -> CompactionConfig {
    CompactionConfig {
        enabled: true,
        compact_at: 0,
        compact_target: 0,
        keep_recent,
        use_llm_for_assistant_abstracts: false,
    }
}

#[test]
fn compaction_reclaims_bytes_from_tool_calls() {
    let big_output = "x".repeat(5000);
    let messages = vec![
        make_tool_call("terminal", "completed", "cargo build", &big_output),
        make_user("recent 1"),
        make_user("recent 2"),
    ];
    let mut ctx = make_ctx_with_messages(messages);
    let tokens_before = ctx.estimate_token_count();

    let stats = compact_old_messages(&mut ctx, 1, &policy(2));

    assert!(stats.messages_compacted >= 1);
    assert!(
        stats.bytes_reclaimed > 4000,
        "should reclaim most of the 5KB output"
    );
    assert!(ctx.estimate_token_count() < tokens_before);
    assert!(ctx.was_truncated);
    assert_eq!(ctx.compaction_log.len(), 1);
}

#[test]
fn compaction_never_touches_user_messages() {
    let messages = vec![
        make_user("important user intent that must survive"),
        make_user("recent"),
        make_user("recent2"),
    ];
    let mut ctx = make_ctx_with_messages(messages);

    let _stats = compact_old_messages(&mut ctx, 1, &policy(2));

    assert_eq!(
        ctx.messages[0].content,
        "important user intent that must survive"
    );
    assert!(!ctx.was_truncated);
}

#[test]
fn compaction_preserves_keep_recent_window() {
    let big = "x".repeat(3000);
    let messages = vec![
        make_tool_call("terminal", "completed", "cmd1", &big),
        make_tool_call("terminal", "completed", "cmd2", &big),
        make_tool_call("terminal", "completed", "cmd3", &big), // last 2 should be preserved
        make_tool_call("terminal", "completed", "cmd4", &big),
    ];
    let mut ctx = make_ctx_with_messages(messages);

    let _stats = compact_old_messages(&mut ctx, 1, &policy(2));

    // Last 2 tool calls (indices 2, 3) must be untouched.
    assert!(ctx.messages[2].content.contains("Output: xxx"));
    assert!(ctx.messages[3].content.contains("Output: xxx"));
    // Earlier ones compacted.
    assert!(ctx.messages[0].content.starts_with("[compacted:Tool"));
    assert!(ctx.messages[1].content.starts_with("[compacted:Tool"));
}

#[test]
fn compaction_skips_pending_tool_calls() {
    let big = "x".repeat(3000);
    let messages = vec![
        make_tool_call("terminal", "pending", "cmd1", &big),
        make_user("recent1"),
        make_user("recent2"),
    ];
    let mut ctx = make_ctx_with_messages(messages);

    let stats = compact_old_messages(&mut ctx, 1, &policy(2));

    // Pending tool call should NOT be compacted.
    assert_eq!(stats.messages_compacted, 0);
    assert!(ctx.messages[0].content.contains("Output: xxx"));
}

#[test]
fn compaction_idempotent_second_run_is_noop_when_under_budget() {
    let big = "x".repeat(3000);
    let messages = vec![
        make_tool_call("terminal", "completed", "cmd1", &big),
        make_user("r1"),
        make_user("r2"),
    ];
    let mut ctx = make_ctx_with_messages(messages);

    let _first = compact_old_messages(&mut ctx, 1, &policy(2));
    let log_len_after_first = ctx.compaction_log.len();
    let tokens_after_first = ctx.estimate_token_count();

    let second = compact_old_messages(&mut ctx, tokens_after_first, &policy(2));

    assert_eq!(second.messages_compacted, 0);
    assert_eq!(ctx.compaction_log.len(), log_len_after_first);
}

#[test]
fn compaction_falls_through_to_assistant_after_tool_calls() {
    let big = "x".repeat(3000);
    let messages = vec![
        make_tool_call("terminal", "completed", "cmd", &big),
        make_assistant(&format!("Long reasoning about the build. {big}")),
        make_user("r1"),
        make_user("r2"),
    ];
    let mut ctx = make_ctx_with_messages(messages);

    let stats = compact_old_messages(&mut ctx, 1, &policy(2));

    // Tool call compacted first, then assistant chunk.
    assert!(stats.messages_compacted >= 2);
    assert!(stats.strategy_breakdown.tool_call_metadata >= 1);
    assert!(stats.strategy_breakdown.assistant_truncated >= 1);
    assert!(ctx.messages[1].content.ends_with("[...]"));
}

#[test]
fn compaction_skips_already_short_assistant_chunks() {
    let messages = vec![
        make_assistant("short message"), // under ASSISTANT_TRUNCATE_BYTES
        make_user("r1"),
        make_user("r2"),
    ];
    let mut ctx = make_ctx_with_messages(messages);

    let stats = compact_old_messages(&mut ctx, 1, &policy(2));

    assert_eq!(stats.messages_compacted, 0);
}

#[test]
fn compaction_sets_was_truncated_flag() {
    let big = "x".repeat(3000);
    let messages = vec![
        make_tool_call("terminal", "completed", "cmd", &big),
        make_user("r1"),
        make_user("r2"),
    ];
    let mut ctx = make_ctx_with_messages(messages);

    assert!(!ctx.was_truncated);
    let _stats = compact_old_messages(&mut ctx, 1, &policy(2));
    assert!(ctx.was_truncated);
}

#[test]
fn compaction_log_capped_at_max_entries() {
    let big = "x".repeat(500);
    let mut messages: Vec<ContextMessage> = Vec::new();
    // Push 60 tool calls + 2 recent users (preserved).
    for _ in 0..60 {
        messages.push(make_tool_call("terminal", "completed", "cmd", &big));
    }
    messages.push(make_user("r1"));
    messages.push(make_user("r2"));

    let mut ctx = make_ctx_with_messages(messages);
    let _stats = compact_old_messages(&mut ctx, 1, &policy(2));

    assert!(
        ctx.compaction_log.len() <= MAX_COMPACTION_LOG_ENTRIES,
        "compaction_log must be capped, got {}",
        ctx.compaction_log.len()
    );
}

#[test]
fn parse_tool_label_line_handles_completed() {
    let (label, status) = parse_tool_label_line("[Tool: terminal (completed)]");
    assert_eq!(label, "terminal");
    assert_eq!(status, "completed");
}

#[test]
fn parse_tool_label_line_handles_failed() {
    let (label, status) = parse_tool_label_line("[Tool: terminal (failed)]");
    assert_eq!(label, "terminal");
    assert_eq!(status, "failed");
}

#[test]
fn parse_tool_label_line_falls_back_on_malformed() {
    let (label, _status) = parse_tool_label_line("garbage");
    assert_eq!(label, "garbage");
}

#[test]
fn summarize_tool_call_extracts_label_and_status() {
    let content = "[Tool: terminal (completed)]\nInput: cargo build\nOutput: x".repeat(1);
    let summary = summarize_tool_call(&content);
    assert!(summary.starts_with("[compacted:Tool"));
    assert!(summary.contains("terminal"));
    assert!(summary.contains("status=completed"));
    assert!(summary.contains("cargo build"));
    // Output should NOT be in the summary.
    assert!(!summary.contains("Output:"));
}

#[test]
fn truncate_assistant_appends_ellipsis() {
    let long = "a".repeat(500);
    let truncated = truncate_assistant(&long, 50);
    assert!(truncated.ends_with("[...]"));
    assert!(truncated.chars().count() < 60);
}

#[test]
fn truncate_assistant_returns_short_input_unchanged() {
    let short = "hello";
    let result = truncate_assistant(short, 100);
    assert_eq!(result, "hello");
}

#[test]
fn is_terminal_tool_call_recognizes_completed() {
    assert!(is_terminal_tool_call("[Tool: terminal (completed)]\n..."));
}

#[test]
fn is_terminal_tool_call_recognizes_failed() {
    assert!(is_terminal_tool_call("[Tool: terminal (failed)]\n..."));
}

#[test]
fn is_terminal_tool_call_rejects_pending() {
    assert!(!is_terminal_tool_call("[Tool: terminal (pending)]\n..."));
}

#[test]
fn role_name_maps_each_variant() {
    assert_eq!(role_name(&ContextMessageRole::User), "user");
    assert_eq!(role_name(&ContextMessageRole::Assistant), "assistant");
    assert_eq!(role_name(&ContextMessageRole::Tool), "tool");
    assert_eq!(role_name(&ContextMessageRole::Plan), "plan");
}

#[test]
fn a_call_whose_summary_still_looks_finished_is_reduced_once() {
    let messages = vec![
        make_tool_call("terminal", "completed", "grep (failed)", &"x".repeat(3000)),
        make_tool_call("terminal", "completed", "ls", &"x".repeat(3000)),
    ];
    let mut ctx = make_ctx_with_messages(messages);
    let stats = compact_old_messages(&mut ctx, 1, &policy(0));
    assert_eq!(stats.messages_compacted, 2);
    assert_eq!(
        ctx.messages[0].content,
        "[compacted:Tool terminal status=completed args=\"grep (failed)\"]"
    );
    assert_eq!(
        ctx.messages[1].content,
        "[compacted:Tool terminal status=completed args=\"ls\"]"
    );
}

#[test]
fn a_message_that_cutting_does_not_change_is_left() {
    let wide = "語".repeat(150);
    let mut ctx = make_ctx_with_messages(vec![make_assistant(&wide), make_assistant(&"y".repeat(300))]);
    let stats = compact_old_messages(&mut ctx, 1, &policy(0));
    assert_eq!(stats.messages_compacted, 1);
    assert_eq!(ctx.messages[0].content, wide);
    assert_eq!(ctx.messages[1].content, format!("{} [...]", "y".repeat(200)));
    assert_eq!(stats.bytes_reclaimed, 94);
    assert_eq!(stats.resulting_token_count, (150 + 206) / 4);
    assert_eq!(ctx.compaction_log.len(), 1);
    let entry = &ctx.compaction_log[0];
    assert_eq!(
        (entry.message_index, entry.original_bytes, entry.summary_bytes),
        (1, 300, 206)
    );
    assert_eq!(entry.role, "assistant");
}

#[test]
fn the_log_keeps_the_newest_entries() {
    let messages = (0..60)
        .map(|i| make_tool_call("t", "completed", &format!("cmd{i}"), "out"))
        .collect();
    let mut ctx = make_ctx_with_messages(messages);
    let stats = compact_old_messages(&mut ctx, 0, &policy(5));
    assert_eq!(stats.messages_compacted, 55);
    assert_eq!(ctx.compaction_log.len(), MAX_COMPACTION_LOG_ENTRIES);
    assert_eq!(ctx.compaction_log[0].message_index, 5);
    assert_eq!(ctx.compaction_log[49].message_index, 54);
}

#[test]
fn a_finished_call_is_marked_and_no_header_says_otherwise() {
    assert!(!is_terminal_tool_call(
        "[Tool: terminal (pending)]\nOutput: step 1 (completed)"
    ));
    assert!(is_terminal_tool_call("  [Tool: run (fast) (failed)]  \nOutput: (pending)"));
    assert!(is_terminal_tool_call("(completed)"));
    assert!(is_terminal_tool_call("[Tool: a\nb (completed)]"));
    assert!(is_terminal_tool_call("[Tool: a (completed)] x"));
    assert!(!is_terminal_tool_call("[Tool: a (completed]"));
    assert!(!is_terminal_tool_call(""));
    assert!(!is_terminal_tool_call(
        "[compacted:Tool terminal status=completed args=\"(completed)\"]"
    ));
    let pending = make_tool_call("terminal", "pending", "ls", &"(completed) ".repeat(300));
    let done = make_tool_call("terminal", "completed", "ls", &"x".repeat(3000));
    let mut ctx = make_ctx_with_messages(vec![pending.clone(), done]);
    let stats = compact_old_messages(&mut ctx, 1, &policy(0));
    assert_eq!(stats.messages_compacted, 1);
    assert_eq!(ctx.messages[0], pending);
}

#[test]
fn finished_calls_are_reduced_before_messages_are_cut() {
    let call = ContextMessage {
        role: ContextMessageRole::Tool,
        content: "[Tool: a\nb (completed)]".to_string(),
    };
    assert_eq!(
        next_compactable_index(&vec![call.clone()], 0),
        Some((0, CompactionStrategy::ToolCallMetadata))
    );
    let mut ctx = make_ctx_with_messages(vec![make_assistant(&"y".repeat(300)), call]);
    let stats = compact_old_messages(&mut ctx, 0, &policy(0));
    assert_eq!(stats.strategy_breakdown.tool_call_metadata, 1);
    assert_eq!(stats.strategy_breakdown.assistant_truncated, 1);
    assert_eq!(ctx.compaction_log[0].message_index, 1);
    assert_eq!(
        ctx.messages[1].content,
        "[compacted:Tool a status=unknown args=\"\"]"
    );
}

#[test]
fn a_summary_is_one_line_whatever_the_output() {
    let summary = "[compacted:Tool t status=failed args=\"ls\"]";
    for output in ["", "x\ny", "Input: other\n(completed)"] {
        let call = format!("[Tool: t (failed)]\nInput: ls\n{output}");
        assert_eq!(summarize_tool_call(&call), summary);
    }
}
