use auto_prompt::remaining::{
    detect_remaining_work, extract_remaining_section, remaining_prompt, section_start,
};
use auto_prompt::tasks::is_actionable_checkbox;

#[test]
fn test_extract_remaining_section_single_paragraph_no_trigger() {
    let text = "This is a single paragraph.";
    assert_eq!(
        extract_remaining_section(text),
        Some("This is a single paragraph.".to_string())
    );
}

#[test]
fn test_extract_remaining_section_trigger_includes_header_and_list() {
    let text = "First paragraph.\n\nSecond paragraph.\n\n### Remaining work:\n\n- Do thing A\n- Do thing B";
    assert_eq!(
        extract_remaining_section(text),
        Some("### Remaining work:\n\n- Do thing A\n- Do thing B".to_string())
    );
}

#[test]
fn test_extract_remaining_section_real_world_remaining_work() {
    let text = "What was accomplished:\n\n1. Fixed bug\n2. Added tests\n\n### Remaining work for next session:\n\n- Rebuild with Metal backend\n- Retest training\n- If NaN resolved: Run full benchmark";
    assert_eq!(
        extract_remaining_section(text),
        Some("### Remaining work for next session:\n\n- Rebuild with Metal backend\n- Retest training\n- If NaN resolved: Run full benchmark".to_string())
    );
}

#[test]
fn test_extract_remaining_section_trailing_whitespace_fallback_two() {
    let text = "First.\n\nLast.  \n\n";
    assert_eq!(
        extract_remaining_section(text),
        Some("First.\n\nLast.".to_string())
    );
}

#[test]
fn test_extract_remaining_section_empty() {
    assert_eq!(extract_remaining_section(""), None);
}

#[test]
fn test_extract_remaining_section_only_whitespace() {
    assert_eq!(extract_remaining_section("   \n\n  \n\n  "), None);
}

#[test]
fn test_extract_remaining_section_two_paragraphs_no_trigger() {
    let text = "First paragraph here.\n\nSecond paragraph here.";
    assert_eq!(
        extract_remaining_section(text),
        Some("First paragraph here.\n\nSecond paragraph here.".to_string())
    );
}

#[test]
fn test_extract_remaining_section_single_line() {
    let text = "Just one line no double breaks";
    assert_eq!(
        extract_remaining_section(text),
        Some("Just one line no double breaks".to_string())
    );
}

#[test]
fn test_extract_remaining_section_checkbox_with_header() {
    let text =
        "Summary of work done.\n\n### Remaining:\n\n- [ ] Task 1\n- [ ] Task 2\n- [ ] Task 3";
    assert_eq!(
        extract_remaining_section(text),
        Some("### Remaining:\n\n- [ ] Task 1\n- [ ] Task 2\n- [ ] Task 3".to_string())
    );
}

#[test]
fn test_extract_remaining_section_checkbox_includes_preceding_header_like() {
    let text = "Summary.\n\nPending items:\n\n- [ ] Task 1\n- [ ] Task 2";
    assert_eq!(
        extract_remaining_section(text),
        Some("Pending items:\n\n- [ ] Task 1\n- [ ] Task 2".to_string())
    );
}

#[test]
fn test_extract_remaining_section_many_paragraphs_scans_last_3() {
    let text = "P1.\n\nP2.\n\nP3.\n\nP4.\n\n### Next steps:\n\n- Do X";
    assert_eq!(
        extract_remaining_section(text),
        Some("### Next steps:\n\n- Do X".to_string())
    );
}

#[test]
fn test_extract_remaining_section_trigger_in_middle_of_last_3() {
    let text = "Accomplished A.\n\nAccomplished B.\n\n### TODO:\n\n- Fix bug\n- Add tests\n\nAlso mentioned in passing.";
    assert_eq!(
        extract_remaining_section(text),
        Some("### TODO:\n\n- Fix bug\n- Add tests\n\nAlso mentioned in passing.".to_string())
    );
}

#[test]
fn test_detect_remaining_work_strikethrough_checkbox_not_actionable() {
    let msg = "Summary of work done.\n\n- [ ] ~~T5: SIMD stuff~~ Skipped — YAGNI";
    let result = detect_remaining_work(Some(msg));
    assert!(
        result.is_none(),
        "struck-through checkbox should not trigger remaining work override, got: {result:?}"
    );
}

#[test]
fn test_detect_remaining_work_mixed_checkboxes_only_actionable_triggers() {
    let msg = "Work done.\n\n- [ ] ~~Skipped~~ Skipped\n\n- [ ] Real remaining task";
    let result = detect_remaining_work(Some(msg));
    assert!(
        result.is_some(),
        "real checkbox among skipped should trigger"
    );
    assert!(result.unwrap().contains("Real remaining task"));
}

#[test]
fn test_extract_remaining_section_only_skipped_checkboxes() {
    let text =
        "Summary.\n\n### Remaining:\n\n- [ ] ~~Task A~~ Skipped\n- [ ] ~~Task B~~ — deferred";
    let result = extract_remaining_section(text);
    if let Some(section) = &result {
        let has_actionable = section.lines().any(is_actionable_checkbox);
        assert!(!has_actionable, "should have no actionable checkboxes");
    }
}

#[test]
fn the_section_starts_at_the_last_sign_of_work() {
    let f = false;
    let t = true;
    let none = vec![f, f, f, f, f];
    assert_eq!(section_start(&none, &none, &none), 3);
    assert_eq!(section_start(&vec![t, f, t, f, f], &vec![f, f, f, f, t], &none), 2);
    assert_eq!(section_start(&vec![t, t, f, f, f], &vec![f, f, t, f, f], &none), 1);
    assert_eq!(section_start(&none, &vec![f, f, f, t, f], &vec![f, f, t, f, f]), 2);
    assert_eq!(section_start(&none, &vec![t, t, f, f, f], &none), 3);
    assert_eq!(section_start(&vec![f], &vec![t], &vec![t]), 0);
    assert_eq!(section_start(&vec![], &vec![], &vec![]), 0);
}

#[test]
fn announced_work_must_ask_for_something() {
    assert_eq!(remaining_prompt(true, true, "nothing here"), None);
    assert_eq!(
        remaining_prompt(true, false, "you must act").as_deref(),
        Some(
            "Previous assistant mentioned remaining work. Extracted section:\n\nyou must act\n\nIf this describes specific actionable remaining work, continue with it. If the work is already done or this is a false positive, stop."
        )
    );
    assert_eq!(
        remaining_prompt(false, true, "s").as_deref(),
        Some(
            "Previous assistant left unchecked items. Extracted section:\n\ns\n\nIf these are real remaining tasks, continue with them. If already done or this is a false positive, stop."
        )
    );
    assert_eq!(remaining_prompt(false, false, "- x"), None);
    assert_eq!(detect_remaining_work(None), None);
    assert_eq!(detect_remaining_work(Some("  ")), None);
    assert!(detect_remaining_work(Some("NEXT STEPS: 1. go")).is_some());
}

#[test]
fn the_section_is_at_most_four_paragraphs_long() {
    for n in 1..7usize {
        for i in 0..n {
            let mut flags = vec![false; n];
            flags[i] = true;
            let start = section_start(&flags, &flags, &flags);
            assert!(start < n && start + 4 >= n);
        }
    }
    let text = "a\n\nb:\n\n- [ ] c\n\nd\n\ne";
    assert_eq!(
        extract_remaining_section(text).as_deref(),
        Some("b:\n\n- [ ] c\n\nd\n\ne")
    );
}
