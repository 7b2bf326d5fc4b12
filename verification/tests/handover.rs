use auto_prompt::context::HandoverBlock;
use auto_prompt::handover::{prepend_handover, synthesize_fallback, truncate_to_chars};

#[test]
fn empty_block_renders_as_empty_string() {
    let block = HandoverBlock::default();
    assert_eq!(block.to_yaml_block(), "");
    assert!(block.is_empty());
}

#[test]
fn renders_full_block_with_fences() {
    let block = HandoverBlock {
        original_intent: Some("Fix the login bug".into()),
        completed: vec!["Reproduced the issue".into()],
        in_progress: vec!["Editing auth.rs".into()],
        blocked_on: vec![],
        next_step: Some("Run cargo test".into()),
        files_touched: vec!["src/auth.rs".into()],
        active_plans: vec!["042_login_bug".into()],
    };
    let yaml = block.to_yaml_block();
    assert!(yaml.starts_with("<handover>"));
    assert!(yaml.ends_with("</handover>"));
    assert!(yaml.contains("original_intent: Fix the login bug"));
    assert!(yaml.contains("completed:"));
    assert!(yaml.contains("  - Reproduced the issue"));
    assert!(yaml.contains("next_step: Run cargo test"));
}

#[test]
fn omits_empty_fields() {
    let block = HandoverBlock {
        original_intent: Some("Do thing".into()),
        completed: vec![],
        in_progress: vec![],
        blocked_on: vec![],
        next_step: None,
        files_touched: vec![],
        active_plans: vec![],
    };
    let yaml = block.to_yaml_block();
    assert!(yaml.contains("original_intent"));
    assert!(!yaml.contains("completed:"));
    assert!(!yaml.contains("in_progress:"));
    assert!(!yaml.contains("next_step:"));
}

#[test]
fn quotes_scalars_with_colons() {
    let block = HandoverBlock {
        original_intent: Some("Fix URL: https://example.com".into()),
        ..Default::default()
    };
    let yaml = block.to_yaml_block();
    assert!(yaml.contains("original_intent: \"Fix URL: https://example.com\""));
}

#[test]
fn prepend_returns_prompt_unchanged_when_handover_none() {
    let prompt = "do the thing";
    let result = prepend_handover(prompt, None);
    assert_eq!(result, "do the thing");
}

#[test]
fn prepend_returns_prompt_unchanged_when_handover_empty() {
    let prompt = "do the thing";
    let result = prepend_handover(prompt, Some(&HandoverBlock::default()));
    assert_eq!(result, "do the thing");
}

#[test]
fn prepend_prefixes_block_when_populated() {
    let prompt = "do the thing";
    let block = HandoverBlock {
        original_intent: Some("intent".into()),
        ..Default::default()
    };
    let result = prepend_handover(prompt, Some(&block));
    assert!(result.starts_with("<handover>"));
    assert!(result.contains("do the thing"));
}

#[test]
fn synthesize_fallback_uses_first_user_message_as_intent() {
    let block = synthesize_fallback(
        Some("please fix the bug in auth"),
        Some("I edited auth.rs and ran tests"),
        &["042_login".into()],
    );
    assert_eq!(block.original_intent.as_deref(), Some("please fix the bug in auth"));
    assert_eq!(block.in_progress.len(), 1);
    assert!(block.in_progress[0].contains("edited auth.rs"));
    assert_eq!(block.active_plans, vec!["042_login".to_string()]);
}

#[test]
fn synthesize_fallback_returns_empty_block_when_all_inputs_empty() {
    let block = synthesize_fallback(None, None, &[]);
    assert!(block.is_empty());
}

#[test]
fn truncate_handles_multibyte_chars() {
    let s = "日本語のテスト文字列"; // 10 chars
    let truncated = truncate_to_chars(s, 3);
    assert_eq!(truncated.chars().count(), 6); // 3 chars + "..."
    assert!(truncated.ends_with("..."));
}

#[test]
fn truncate_returns_input_when_under_limit() {
    let s = "short";
    let truncated = truncate_to_chars(s, 100);
    assert_eq!(truncated, "short");
}

#[test]
fn scalars_are_quoted_only_where_they_must_be() {
    use_scalar("plain text", "plain text");
    use_scalar("  padded ", "\"padded\"");
    use_scalar(" hi ", "\"hi\"");
    use_scalar("tail\t", "\"tail\"");
    use_scalar("  ", "\"\"");
    use_scalar("", "\"\"");
    use_scalar("- item", "\"- item\"");
    use_scalar("#x", "\"#x\"");
    use_scalar("a-b#c", "a-b#c");
    use_scalar("back\\slash", "back\\slash");
    use_scalar("a: b\\c\t\"d\"\r\ne", "\"a: b\\\\c\\t\\\"d\\\"\\r\\ne\"");
}

fn use_scalar(text: &str, expected: &str) {
    assert_eq!(auto_prompt::handover::escape_yaml_scalar(text), expected);
}

#[test]
fn fields_stand_in_a_fixed_order() {
    let list = |item: &str| vec![item.to_string()];
    let block = HandoverBlock {
        original_intent: Some("i".to_string()),
        completed: list("c"),
        in_progress: list("p"),
        blocked_on: list("b"),
        next_step: Some("n".to_string()),
        files_touched: list("f"),
        active_plans: list("a"),
    };
    assert_eq!(
        block.to_yaml_block(),
        "<handover>\noriginal_intent: i\ncompleted:\n  - c\nin_progress:\n  - p\nblocked_on:\n  - b\nnext_step: n\nfiles_touched:\n  - f\nactive_plans:\n  - a\n</handover>"
    );
    assert_eq!(
        prepend_handover("go", Some(&block)),
        format!("{}\n\ngo", block.to_yaml_block())
    );
}

#[test]
fn a_fallback_cuts_long_messages() {
    let block = synthesize_fallback(Some(&"ü".repeat(241)), Some(&" y ".repeat(400)), &[]);
    assert_eq!(
        block.original_intent,
        Some(format!("{}...", "ü".repeat(240)))
    );
    assert_eq!(block.in_progress[0].chars().count(), 403);
    assert!(!block.is_empty());
}
