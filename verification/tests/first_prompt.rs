use auto_prompt::first_prompt::{
    build_prompt_summary, extract_original_user_message, with_first_prompt_context,
};

#[test]
fn test_with_first_prompt_context_multiline() {
    let original = "check .plans against the code\n\nfile.rs\nanother.rs";
    let result = with_first_prompt_context("continue".to_string(), Some(original), None, None);
    assert!(result.starts_with("## 1. Thread Summary\n\n"));
    assert!(result.contains(original));
    assert!(result.contains("## 3. Decision"));
    assert!(result.ends_with("continue"));
}

#[test]
fn test_with_first_prompt_context_none() {
    let result = with_first_prompt_context("continue".to_string(), None, None, None);
    assert_eq!(result, "continue");
}

#[test]
fn test_with_first_prompt_context_empty() {
    let result = with_first_prompt_context("continue".to_string(), Some(""), None, None);
    assert_eq!(result, "continue");
}

#[test]
fn test_with_first_prompt_context_no_summary_includes_last_message() {
    let last_msg = "Fixed the auth bug, tests passing. Still need to commit.";
    let result =
        with_first_prompt_context("commit the changes".to_string(), None, None, Some(last_msg));
    assert!(result.starts_with("## 1. Last Assistant Message\n\n"));
    assert!(result.contains(last_msg));
    assert!(result.contains("## 2. Decision"));
    assert!(result.ends_with("commit the changes"));
    assert!(!result.contains("Thread Summary"));
}

#[test]
fn test_with_first_prompt_context_whitespace_summary_includes_last_message() {
    let last_msg = "Completed steps 1-3";
    let result =
        with_first_prompt_context("do step 4".to_string(), Some("   "), None, Some(last_msg));
    assert!(result.starts_with("## 1. Last Assistant Message\n\n"));
    assert!(result.contains(last_msg));
    assert!(result.contains("## 2. Decision"));
    assert!(!result.contains("Thread Summary"));
}

#[test]
fn test_with_first_prompt_context_with_thread_summary_and_last_message() {
    let summary = "Fixed auth bug in **plan 083** — the session validation was broken. All tests passing now.";
    let last_msg = "Fixed the auth bug, tests passing";
    let result = with_first_prompt_context(
        "commit the changes".to_string(),
        Some(summary),
        None,
        Some(last_msg),
    );
    assert!(result.starts_with("## 1. Thread Summary\n\n"));
    assert!(result.contains(summary));
    assert!(result.contains("## 2. Last Assistant Message"));
    assert!(result.contains(last_msg));
    assert!(result.contains("## 3. Decision"));
    assert!(result.ends_with("commit the changes"));
}

#[test]
fn test_with_first_prompt_context_3_part_structure() {
    let summary =
        "Implementing feature X in **plan 085** — completed steps 1-3, need to do step 4";
    let last_msg = "Completed steps 1-3, need to do step 4";
    let result = with_first_prompt_context(
        "do step 4 now".to_string(),
        Some(summary),
        None,
        Some(last_msg),
    );
    // Verify 3-part structure with section headers
    assert!(result.contains("## 1. Thread Summary"));
    assert!(result.contains("## 2. Last Assistant Message"));
    assert!(result.contains("## 3. Decision"));
    assert!(!result.contains("## 4."));

    // Verify sections are in order
    let pos1 = result.find("## 1.").unwrap();
    let pos2 = result.find("## 2.").unwrap();
    let pos3 = result.find("## 3.").unwrap();
    assert!(pos1 < pos2);
    assert!(pos2 < pos3);
}

#[test]
fn test_extract_original_user_message_new_format_multiline() {
    let input = "refer to first prompt:\n===---===\ncheck .plans against the code and complete it as possible\n\ncrates\nmmorpg\n===---===\ncontinue";
    let result = extract_original_user_message(input);
    assert_eq!(
        result,
        Some(
            "check .plans against the code and complete it as possible\n\ncrates\nmmorpg"
                .to_string()
        )
    );
}

#[test]
fn test_extract_original_user_message_new_format_with_link_and_header() {
    let input = "## User\n\n[@Thread](zed:///agent/thread/abc)\n\nrefer to first prompt:\n===---===\ndo the thing\nwith stuff\n===---===\ncontinue";
    let result = extract_original_user_message(input);
    assert_eq!(result, Some("do the thing\nwith stuff".to_string()));
}

#[test]
fn test_extract_original_user_message_legacy_dash_format() {
    let input = "refer to first prompt:\n---\nold style content\n---\ncontinue";
    let result = extract_original_user_message(input);
    assert_eq!(result, Some("old style content".to_string()));
}

#[test]
fn test_extract_original_user_message_legacy_quote_format() {
    let input = "refer to first prompt \"some quoted content\"\n---\ncontinue";
    let result = extract_original_user_message(input);
    assert_eq!(result, Some("some quoted content".to_string()));
}

#[test]
fn test_extract_original_user_message_raw_message_no_wrapper() {
    let input = "## User\n\njust a raw user message with no wrapper";
    let result = extract_original_user_message(input);
    assert_eq!(
        result,
        Some("just a raw user message with no wrapper".to_string())
    );
}

#[test]
fn test_extract_original_user_message_strips_headers_and_links() {
    let input =
        "## User\n\n[@Thread Name](zed:///agent/thread/123?name=Thread)\n\nraw message text";
    let result = extract_original_user_message(input);
    assert_eq!(result, Some("raw message text".to_string()));
}

#[test]
fn test_extract_original_user_message_empty() {
    let result = extract_original_user_message("");
    assert_eq!(result, None);
}

#[test]
fn test_roundtrip_multiline_with_file_refs() {
    let original = "check .plans against the code and complete it as possible, also update plan md to reflect current state, fix all diag focus only on\n\ncrates\nmmorpg";
    let wrapped = with_first_prompt_context("continue".to_string(), Some(original), None, None);
    let extracted = extract_original_user_message(&wrapped);
    assert_eq!(extracted, Some(original.to_string()));
}

#[test]
fn test_roundtrip_with_chain_wrapper() {
    let original = "do important work\n\nfile.rs\nother.rs";
    let wrapped = with_first_prompt_context("continue".to_string(), Some(original), None, None);
    let chain_message = format!("## User\n\n[@Thread](zed:///agent/thread/abc)\n\n{wrapped}");
    let extracted = extract_original_user_message(&chain_message);
    assert_eq!(extracted, Some(original.to_string()));
}

#[test]
fn test_roundtrip_content_with_quotes() {
    let original = r#"use format!("{var}") not format!("{}", var)"#;
    let wrapped = with_first_prompt_context("continue".to_string(), Some(original), None, None);
    let extracted = extract_original_user_message(&wrapped);
    assert_eq!(extracted, Some(original.to_string()));
}

#[test]
fn test_extract_original_user_message_new_structured_format() {
    let input = "## User (checkpoint)\n\nfix the bugs in auth module\n\nsrc/auth.rs\n---\nrefer to first thread\n---\ncommit the changes";
    let result = extract_original_user_message(input);
    assert_eq!(
        result,
        Some("fix the bugs in auth module\n\nsrc/auth.rs".to_string())
    );
}

#[test]
fn test_extract_original_user_message_new_3_part_format() {
    let input = "## 1. Thread Summary\n\nimplement the auth module\n\nsrc/auth.rs\n\n---\n\n## 2. Last Assistant Message\n\nDone\n\n---\n\n## 3. Decision\n\ncommit changes";
    let result = extract_original_user_message(input);
    assert_eq!(
        result,
        Some("implement the auth module\n\nsrc/auth.rs".to_string())
    );
}

#[test]
fn test_extract_original_user_message_legacy_4_part_format() {
    let input = "## 1. First Prompt (original request)\n\nimplement the auth module\n\nsrc/auth.rs\n\n---\n\n## 2. Thread Summary\n\nAuth implementation\n\n---\n\n## 4. Decision\n\ncommit changes";
    let result = extract_original_user_message(input);
    assert_eq!(
        result,
        Some("implement the auth module\n\nsrc/auth.rs".to_string())
    );
}

#[test]
fn test_roundtrip_3_part_format_with_summary_and_last_message() {
    let summary = "implement feature X with files\n\nmod.rs\nlib.rs";
    let last_msg = "Completed implementation";
    let wrapped = with_first_prompt_context(
        "do the next thing".to_string(),
        Some(summary),
        None,
        Some(last_msg),
    );
    let chain_message = format!("## User\n\n[@Thread](zed:///agent/thread/abc)\n\n{wrapped}");
    let extracted = extract_original_user_message(&chain_message);
    assert_eq!(extracted, Some(summary.to_string()));
}

#[test]
fn test_build_prompt_summary_prefers_llm_thread_summary() {
    let result = build_prompt_summary(
        Some("LLM generated summary about **plan 085**"),
        Some("Thread Title"),
        Some("continuing work"),
        Some("Last assistant message"),
        Some("raw first prompt"),
        None,
    );
    assert_eq!(
        result,
        Some("LLM generated summary about **plan 085**".to_string())
    );
}

#[test]
fn test_build_prompt_summary_synthesizes_from_title_reason_last() {
    let result = build_prompt_summary(
        None,
        Some("Fix fusion rank mismatch"),
        Some("plan has unchecked items"),
        Some("Fixed the scale clamp in affine quantization"),
        Some("so no way rust can beat python for gemma 2?"),
        None,
    );
    let summary = result.expect("should synthesize summary");
    assert!(summary.contains("Fix fusion rank mismatch"));
    assert!(summary.contains("plan has unchecked items"));
    assert!(summary.contains("Fixed the scale clamp in affine quantization"));
    assert!(
        !summary.contains("so no way rust can beat python"),
        "should NOT contain raw first prompt"
    );
}

#[test]
fn test_build_prompt_summary_synthesizes_truncates_long_last_message() {
    let long_message: String = "x".repeat(3000);
    let result = build_prompt_summary(
        None,
        Some("Title"),
        None,
        Some(&long_message),
        Some("fallback"),
        None,
    );
    let summary = result.expect("should synthesize");
    assert!(summary.len() < long_message.len(), "should be truncated");
    assert!(
        summary.ends_with("..."),
        "truncated text should end with ..."
    );
}

#[test]
fn test_build_prompt_summary_falls_back_to_original_user_message() {
    let result = build_prompt_summary(
        None,
        None,
        None,
        None,
        Some("raw first prompt as fallback"),
        None,
    );
    assert_eq!(result, Some("raw first prompt as fallback".to_string()));
}

#[test]
fn test_build_prompt_summary_falls_back_to_first_user_message() {
    let result = build_prompt_summary(
        None,
        None,
        None,
        None,
        None,
        Some("## User\n\nextracted from first message"),
    );
    assert_eq!(result, Some("extracted from first message".to_string()));
}

#[test]
fn test_build_prompt_summary_returns_none_when_all_empty() {
    let result = build_prompt_summary(None, None, None, None, None, None);
    assert_eq!(result, None);
}

#[test]
fn test_build_prompt_summary_title_only_no_reason_no_last() {
    let result = build_prompt_summary(
        None,
        Some("Implement auth flow"),
        None,
        None,
        Some("old raw prompt"),
        None,
    );
    assert_eq!(result, Some("Implement auth flow".to_string()));
}

#[test]
fn a_summary_is_cut_off_before_a_rule() {
    let wrapped = with_first_prompt_context(
        "go".to_string(),
        Some("first\n---\nsecond"),
        None,
        None,
    );
    assert_eq!(
        extract_original_user_message(&wrapped).as_deref(),
        Some("first")
    );
}

#[test]
fn a_wrapped_prompt_is_recovered_behind_any_other_text() {
    let wrapped =
        with_first_prompt_context("  \n".to_string(), Some(" keep\n\nthis "), None, Some(" x "));
    for before in ["", "\n  ", "## User\n\n", "[@T](zed://x)\n\n## 1. Thread Summ"] {
        assert_eq!(
            extract_original_user_message(&format!("{before}{wrapped}")).as_deref(),
            Some("keep\n\nthis"),
            "{before:?}"
        );
    }
}

#[test]
fn a_long_last_message_is_cut_by_characters() {
    let cut = |message: &str| build_prompt_summary(None, None, None, Some(message), None, None);
    assert_eq!(cut(&"x".repeat(2000)), Some("x".repeat(2000)));
    assert_eq!(cut(&"x".repeat(2001)), Some(format!("{}...", "x".repeat(1999))));
    assert_eq!(cut(&"語".repeat(667)), Some(format!("{}...", "語".repeat(666))));
    assert_eq!(cut(&"語".repeat(666)), Some("語".repeat(666)));
    assert_eq!(
        build_prompt_summary(Some(" "), Some(" t "), Some("r"), None, Some("o"), None).as_deref(),
        Some("t\nr")
    );
}

#[test]
fn a_recovered_message_stays_the_same_from_thread_to_thread() {
    let mut message = " fix `a:b`\n\n- one -- two ".to_string();
    for i in 0..4 {
        let wrapped = with_first_prompt_context(
            format!("step {i}"),
            Some(&message),
            None,
            Some("---\n## 1. Thread Summary\nlast"),
        );
        message = extract_original_user_message(&wrapped).unwrap_or_default();
        assert_eq!(message, "fix `a:b`\n\n- one -- two");
    }
}
