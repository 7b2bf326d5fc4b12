use auto_prompt::context::PlanFileContent;
use auto_prompt::plans::build_plan_landscape;
use auto_prompt::prompts::{build_lightweight_retry_context, detect_remaining_plan_tasks};
use auto_prompt::selection::{active_project, select_plan_files};
use auto_prompt::tasks::{count_actionable_tasks, has_unchecked_items, is_actionable_checkbox};

#[test]
fn test_build_plan_landscape_groups_by_project() {
    let context_json = r##"{"plan_files":[
        {"path":"/Users/katopz/git/microgpt-rs/.plans/033_bomberman.md","content":"# Plan 033\n- [ ] Task A\n"},
        {"path":"/Users/katopz/git/microgpt-rs/.plans/034_wasm.md","content":"# Plan 034\n- [ ] Task B\n"},
        {"path":"/Users/katopz/git/riir-burner/.plans/01_plan.md","content":"# Plan 01\n- [ ] Task C\n"}
    ]}"##;
    let result = build_plan_landscape(context_json);
    assert!(result.is_some());
    let landscape = result.unwrap();
    assert!(landscape.contains("**microgpt-rs** (2 plan(s))"));
    assert!(landscape.contains("**riir-burner** (1 plan(s))"));
    assert!(landscape.contains("033_bomberman"));
    assert!(landscape.contains("01_plan"));
}

#[test]
fn test_build_plan_landscape_returns_none_when_all_done() {
    let context_json = r##"{"plan_files":[
        {"path":"/Users/katopz/git/microgpt-rs/.plans/033_bomberman.md","content":"# Plan\n- [x] Done\n"}
    ]}"##;
    let result = build_plan_landscape(context_json);
    assert_eq!(result, None);
}

#[test]
fn test_build_plan_landscape_skips_out_of_scope() {
    let context_json = r##"{"plan_files":[
        {"path":"/Users/katopz/git/microgpt-rs/.plans/033_bomberman.md","content":"# Plan\n\n## Tasks\n- [x] Done\n\n## Out of Scope\n- [ ] Future\n"}
    ]}"##;
    let result = build_plan_landscape(context_json);
    assert_eq!(result, None);
}

#[test]
fn test_build_plan_landscape_no_plan_files() {
    let context_json = r#"{"plan_files":[]}"#;
    let result = build_plan_landscape(context_json);
    assert_eq!(result, None);
}

#[test]
fn test_build_plan_landscape_invalid_json() {
    let context_json = "not json";
    let result = build_plan_landscape(context_json);
    assert_eq!(result, None);
}

#[test]
fn test_build_plan_landscape_shows_task_count() {
    let context_json = r##"{"plan_files":[
        {"path":"/Users/katopz/git/zed/.plans/03_auto_prompt.md","content":"# Auto Prompt\n- [ ] Task 1\n- [ ] Task 2\n- [x] Done\n"}
    ]}"##;
    let result = build_plan_landscape(context_json);
    assert!(result.is_some());
    let landscape = result.unwrap();
    assert!(landscape.contains("2 task(s)"));
    assert!(landscape.contains("Auto Prompt"));
}

#[test]
fn test_build_plan_landscape_shows_title() {
    let context_json = r##"{"plan_files":[
        {"path":"/Users/katopz/git/zed/.plans/03_auto_prompt.md","content":"# Plan 003: Fix Cross-Project\n- [ ] Task\n"}
    ]}"##;
    let result = build_plan_landscape(context_json);
    assert!(result.is_some());
    let landscape = result.unwrap();
    assert!(landscape.contains("Plan 003: Fix Cross-Project"));
}

#[test]
fn test_has_unchecked_items_skips_out_of_scope_section() {
    let content = "\
# Plan 033: Bomberman Arena

## Tasks
- [x] Task 1
- [x] Task 2

## Out of Scope
- [ ] Real-time multiplayer
- [ ] Network play
- [ ] Complex bomb types
";
    assert!(!has_unchecked_items(content));
}

#[test]
fn test_has_unchecked_items_skips_future_section() {
    let content = "\
# Plan

## Tasks
- [x] Done

## Future Work
- [ ] Some future thing
";
    assert!(!has_unchecked_items(content));
}

#[test]
fn test_has_unchecked_items_skips_backlog_section() {
    let content = "\
# Plan

## Tasks
- [x] Done

## Backlog
- [ ] Backlog item
";
    assert!(!has_unchecked_items(content));
}

#[test]
fn test_has_unchecked_items_finds_real_tasks_after_skipped_section() {
    let content = "\
# Plan

## Out of Scope
- [ ] Future thing

## Tasks
- [x] Done task
- [ ] Remaining task
";
    assert!(has_unchecked_items(content));
}

#[test]
fn test_has_unchecked_items_skips_deferred_markers() {
    let content = "\
# Plan

## Tasks
- [x] Done task
- [ ] ⏸️ DEFERRED Some deferred thing
- [ ] Another deferred — deferred item
";
    assert!(!has_unchecked_items(content));
}

#[test]
fn test_has_unchecked_items_real_tasks_with_deferred_mixed() {
    let content = "\
# Plan

## Tasks
- [x] Done task
- [ ] ⏸️ DEFERRED Skip this
- [ ] Real actionable task
";
    assert!(has_unchecked_items(content));
}

#[test]
fn test_has_unchecked_items_all_done_returns_false() {
    let content = "\
# Plan

## Tasks
- [x] Task 1
- [x] Task 2
- [x] Task 3
";
    assert!(!has_unchecked_items(content));
}

#[test]
fn test_benchmark_analysis_landscape_no_actionable_plans() {
    let context_json = r##"{"current_paths":["/Users/katopz/git/gist/anyrag","/Users/katopz/git/microgpt-rs","/Users/katopz/git/riir-ai"],"plan_files":[
        {"path":"/Users/katopz/git/gist/anyrag/.plans/008_inference.md","content":"# Plan\n- [x] Done\n"},
        {"path":"/Users/katopz/git/microgpt-rs/.plans/033_bomberman_arena.md","content":"# Plan\n\n## Tasks\n- [x] Build arena\n- [x] Run tournament\n\n## Out of Scope\n- [ ] Real-time multiplayer\n- [ ] Network play\n"},
        {"path":"/Users/katopz/git/microgpt-rs/.plans/036_metrics.md","content":"# Plan\n\n## Out of Scope\n- [ ] LLM-based judge\n\n## Tasks\n- [x] Metrics done\n"}
    ],"messages":[
        {"role":"user","content":"we have a lot of regression"},
        {"role":"assistant","content":"Let me check benchmarks in /Users/katopz/git/microgpt-rs"},
        {"role":"tool","content":"cd /Users/katopz/git/microgpt-rs && cargo bench"},
        {"role":"tool","content":"cd /Users/katopz/git/microgpt-rs && cat results.csv"}
    ]}"##;
    let result = build_plan_landscape(context_json);
    // All unchecked items are under "Out of Scope" → no actionable plans → None
    assert_eq!(result, None);
}

#[test]
fn test_active_project_extraction_from_file_url() {
    let msg = "do as a plan [@016_quantized_matmul.md](file:///Users/katopz/git/temp2/riir-burner/.plans/016_quantized_matmul.md)";
    let active = active_project(msg).map(|s| s.to_string());
    assert_eq!(
        active,
        Some("/Users/katopz/git/temp2/riir-burner".to_string())
    );
}

#[test]
fn test_active_project_extraction_no_file_url() {
    let msg = "just a regular message with no file references";
    let active = active_project(msg);
    assert_eq!(active, None);
}

#[test]
fn test_cross_project_sort_active_first() {
    let active = "/Users/katopz/git/temp2/riir-burner";
    let paths = vec![
        "/Users/katopz/git/microgpt-rs/.plans/033_bomberman.md".to_string(),
        "/Users/katopz/git/temp2/riir-burner/.plans/016_quantized_matmul.md".to_string(),
        "/Users/katopz/git/gist/anyrag/.plans/001_github.md".to_string(),
        "/Users/katopz/git/temp2/riir-burner/.plans/015_fused_kernels.md".to_string(),
    ];
    let files = paths
        .into_iter()
        .map(|path| PlanFileContent {
            path,
            content: "- [ ] open".to_string(),
        })
        .collect();
    let message = format!("see [@x](file://{active}/.plans/016_quantized_matmul.md)");
    let paths: Vec<String> = select_plan_files(files, Some(&message))
        .into_iter()
        .map(|file| file.path)
        .collect();
    assert!(paths[0].starts_with(active));
    assert!(paths[1].starts_with(active));
    assert!(!paths[2].starts_with(active));
    assert!(!paths[3].starts_with(active));
    assert_eq!(
        paths[0],
        "/Users/katopz/git/temp2/riir-burner/.plans/015_fused_kernels.md"
    );
    assert_eq!(
        paths[1],
        "/Users/katopz/git/temp2/riir-burner/.plans/016_quantized_matmul.md"
    );
}

#[test]
fn test_build_lightweight_retry_context_includes_last_message_and_plans() {
    let context_json = r##"{"plan_files":[
        {"path":"/project/.plans/016_test.md","content":"# Plan\n- [ ] Task 1\n- [ ] Task 2\n"}
    ],"messages":[]}"##;
    let result = build_lightweight_retry_context(
        context_json,
        Some("Would you like me to continue with Phase 3?"),
        Some("Test Thread"),
    );
    assert!(result.contains("Thread: Test Thread"));
    assert!(result.contains("Would you like me to continue with Phase 3?"));
    assert!(result.contains("016_test.md"));
}

#[test]
fn test_build_lightweight_retry_context_truncates_to_last_3_paragraphs() {
    let paragraphs: Vec<String> = (0..10).map(|i| format!("Paragraph {i}")).collect();
    let long_msg = paragraphs.join("\n\n");
    let context_json = r##"{"plan_files":[],"messages":[]}"##;
    let result = build_lightweight_retry_context(context_json, Some(&long_msg), None);
    assert!(result.contains("Paragraph 9"));
    assert!(result.contains("Paragraph 8"));
    assert!(result.contains("Paragraph 7"));
    assert!(!result.contains("Paragraph 0"));
    assert!(!result.contains("Paragraph 5"));
}

#[test]
fn test_build_lightweight_retry_context_no_plans_no_message() {
    let context_json = r##"{"plan_files":[],"messages":[]}"##;
    let result = build_lightweight_retry_context(context_json, None, Some("Empty Thread"));
    assert!(result.contains("Thread: Empty Thread"));
    assert!(!result.contains("Last assistant message"));
    assert!(!result.contains("Incomplete plans"));
}

#[test]
fn test_is_actionable_checkbox_strikethrough_skipped() {
    assert!(!is_actionable_checkbox(
        "- [ ] ~~T5: SIMD-accelerate stuff~~ Skipped — YAGNI"
    ));
}

#[test]
fn test_is_actionable_checkbox_strikethrough_deferred() {
    assert!(!is_actionable_checkbox(
        "- [ ] ~~**Task 4.4:** Q4S training benchmark~~ — deferred to Phase 5"
    ));
}

#[test]
fn test_is_actionable_checkbox_strikethrough_cancelled() {
    assert!(!is_actionable_checkbox("- [ ] ~~Refactor API~~ Cancelled"));
}

#[test]
fn test_is_actionable_checkbox_wont_fix() {
    assert!(!is_actionable_checkbox("- [ ] Fix edge case — Won't fix"));
}

#[test]
fn test_is_actionable_checkbox_normal_task() {
    assert!(is_actionable_checkbox("- [ ] Implement the thing"));
}

#[test]
fn test_is_actionable_checkbox_star_variant() {
    assert!(is_actionable_checkbox("* [ ] Another task"));
}

#[test]
fn test_is_actionable_checkbox_star_skipped() {
    assert!(!is_actionable_checkbox("* [ ] ~~Old task~~ Skipped"));
}

#[test]
fn test_has_unchecked_items_ignores_strikethrough_skipped() {
    let plan = "\
# Plan

- [x] Task 1 done
- [ ] Task 2 in progress
- [ ] ~~T5: SIMD stuff~~ Skipped — YAGNI
";
    assert!(has_unchecked_items(plan));
}

#[test]
fn test_has_unchecked_items_all_skipped_returns_false() {
    let plan = "\
# Plan

- [x] Task 1 done
- [x] Task 2 done
- [ ] ~~T5: SIMD stuff~~ Skipped — YAGNI
- [ ] ~~Task 4.4 benchmark~~ — deferred to Phase 5
";
    assert!(!has_unchecked_items(plan));
}

#[test]
fn test_count_actionable_tasks_ignores_strikethrough() {
    let plan = "\
# Plan

- [x] Done task
- [ ] Real task
- [ ] ~~Skipped task~~ Skipped — YAGNI
- [ ] ~~Deferred task~~ — deferred
";
    assert_eq!(count_actionable_tasks(plan), 1);
}

#[test]
fn test_detect_remaining_plan_tasks_no_plan_files() {
    let context_json = r#"{"messages":[]}"#;
    let result = detect_remaining_plan_tasks(context_json);
    assert!(result.is_none(), "no plan_files field => None");
}

#[test]
fn test_detect_remaining_plan_tasks_all_checked() {
    let context_json = r##"{"plan_files":[{"path":".plans/001_test.md","content":"# Plan\n\n- [x] Done task\n- [x] Another done task"}]}"##;
    let result = detect_remaining_plan_tasks(context_json);
    assert!(result.is_none(), "all tasks checked => None");
}

#[test]
fn test_detect_remaining_plan_tasks_has_unchecked() {
    let context_json = r##"{"plan_files":[{"path":".plans/001_test.md","content":"# Plan\n\n- [x] Done\n- [ ] Remaining task\n"}]}"##;
    let result = detect_remaining_plan_tasks(context_json);
    assert!(result.is_some(), "unchecked task should return Some");
    let prompt = result.unwrap();
    assert!(
        prompt.contains("001_test.md"),
        "should mention plan filename"
    );
    assert!(
        prompt.contains("1 unchecked"),
        "should report 1 unchecked task"
    );
    assert!(
        prompt.contains("Continue with the next unchecked task"),
        "should instruct to continue"
    );
}

#[test]
fn test_detect_remaining_plan_tasks_multiple_plans() {
    let context_json = r##"{"plan_files":[
        {"path":".plans/001_alpha.md","content":"- [x] Done\n- [ ] T2: Fix bug"},
        {"path":".plans/002_beta.md","content":"- [ ] T1: New feature"},
        {"path":".plans/003_done.md","content":"- [x] All done"}
    ]}"##;
    let result = detect_remaining_plan_tasks(context_json);
    assert!(result.is_some(), "plans with unchecked tasks => Some");
    let prompt = result.unwrap();
    assert!(prompt.contains("001_alpha.md"), "should list alpha");
    assert!(prompt.contains("002_beta.md"), "should list beta");
    assert!(
        !prompt.contains("003_done.md"),
        "should NOT list fully-done plan"
    );
}

#[test]
fn test_detect_remaining_plan_tasks_invalid_json() {
    let result = detect_remaining_plan_tasks("not json at all");
    assert!(result.is_none(), "invalid json => None");
}

#[test]
fn test_detect_remaining_plan_tasks_skipped_only_is_not_actionable() {
    let context_json = r##"{"plan_files":[{"path":".plans/004_skip.md","content":"- [ ] ~~Task A~~ Skipped\n- [ ] ~~Task B~~ — deferred"}]}"##;
    let result = detect_remaining_plan_tasks(context_json);
    assert!(
        result.is_none(),
        "only skipped/strikethrough checkboxes should not be actionable"
    );
}

#[test]
fn only_open_items_count_and_no_line_hides_one() {
    let lines = [
        "- [ ] one",
        "```",
        "- [ ] quoted",
        "```",
        "* [ ] two",
        "- [ ] N/A",
        "- [X] done",
        "## Wishlist",
        "- [ ] not now",
        "# Back",
        "  - [ ] three",
    ];
    let mut counts = Vec::new();
    for i in 0..=lines.len() {
        counts.push(count_actionable_tasks(&lines[..i].join("\n")));
    }
    assert_eq!(counts, vec![0, 1, 1, 1, 1, 2, 2, 2, 2, 2, 2, 3]);
}

#[test]
fn deferred_sections_are_skipped() {
    assert_eq!(count_actionable_tasks("# Plan\n## Deferred\n- [ ] Later\n"), 0);
    assert!(!has_unchecked_items("## Deferred to v2\n- [ ] Later"));
    assert_eq!(count_actionable_tasks("## Deferred\n- [ ] a\n## Now\n- [ ] b"), 1);
}
