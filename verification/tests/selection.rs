use auto_prompt::context::PlanFileContent;
use auto_prompt::plans::{plan_dir, plan_landscape, project};
use auto_prompt::prompts::{
    build_checkbox_verification_prompt, build_pre_stop_verification_prompt, checkpoint,
    is_doc_creation_prompt, is_perf_related, plan_task_prompt,
};
use auto_prompt::selection::{active_project, is_readable_size, select_plan_files};
use auto_prompt::tasks::{extract_plan_title, has_open_checkbox};

fn plan(path: &str, content: &str) -> PlanFileContent {
    PlanFileContent {
        path: path.to_string(),
        content: content.to_string(),
    }
}

#[test]
fn the_project_is_the_directory_two_levels_up() {
    for path in [
        "/a/proj/.plans/x.md",
        "/proj/.plans/x.md",
        "/.plans/x.md",
        "x.md",
        "",
        "/",
        ".plans/x.md",
        "proj/.plans/x.md",
        "./.plans/x.md",
        "./proj/.plans/x.md",
        "../.plans/x.md",
        "a//proj//.plans//x.md",
        "a/proj/./.plans/./x.md/",
        "a/../.plans/x.md",
        "./x.md",
    ] {
        let expected = std::path::Path::new(path)
            .parent()
            .and_then(|p| p.parent())
            .and_then(|p| p.file_name())
            .map(|n| n.to_string_lossy().to_string())
            .unwrap_or_else(|| "unknown".to_string());
        assert_eq!(project(path), expected, "{path:?}");
        assert_eq!(
            plan_dir(path),
            path.rsplit('/').nth(1).unwrap_or(".plans"),
            "{path:?}"
        );
    }
}

#[test]
fn the_landscape_groups_plans_in_order_of_first_appearance() {
    let files = vec![
        plan("/w/b/.plans/1.md", "# One\n- [ ] x\n- [ ] y"),
        plan("/w/a/.plan/2.md", "- [ ] x"),
        plan("/w/c/.plans/3.md", "# Three\n- [x] x"),
        plan("/w/b/.plans/4.md", "# Four\n* [ ] x"),
    ];
    assert_eq!(
        plan_landscape(&files).as_deref(),
        Some(
            "**b** (2 plan(s)):\n  - `.plans/1.md` — 2 task(s): One\n  - `.plans/4.md` — 1 task(s): Four\n**a** (1 plan(s)):\n  - `.plan/2.md` — 1 task(s): "
        )
    );
    assert_eq!(plan_landscape(&vec![]), None);
    assert_eq!(
        plan_task_prompt(&files).as_deref(),
        Some(
            "LLM orchestration failed but plan files have remaining unchecked tasks:\n\n- 1.md: 2 unchecked task(s)\n- 2.md: 1 unchecked task(s)\n- 4.md: 1 unchecked task(s)\n\nContinue with the next unchecked task. Mark completed steps as [x]."
        )
    );
}

#[test]
fn every_open_plan_has_one_line_under_one_heading() {
    let files: Vec<PlanFileContent> = (0..12)
        .map(|i| plan(&format!("/w/p{}/.plans/{i}.md", i % 3), ["- [ ] x", "- [x] x"][i / 10]))
        .collect();
    let landscape = plan_landscape(&files).unwrap_or_default();
    let lines: Vec<&str> = landscape.lines().collect();
    assert_eq!(lines.iter().filter(|line| line.starts_with("**")).count(), 3);
    assert_eq!(lines.len(), 13);
    for i in 0..10 {
        let line = format!("  - `.plans/{i}.md` — 1 task(s): ");
        assert_eq!(lines.iter().filter(|other| **other == line).count(), 1);
    }
}

#[test]
fn plans_of_the_active_project_come_first_and_others_must_be_open() {
    let message = "see [@p](file:///w/act/.plan/p.md) please";
    assert_eq!(active_project(message), Some("/w/act"));
    assert_eq!(active_project("file:///w/x/readme.md"), None);
    assert_eq!(active_project("(file:///w/x/.plans/1.md"), Some("/w/x"));
    let files = vec![
        plan("/w/z/.plans/1.md", "- [ ] open"),
        plan("/w/act/.plan/2.md", "- [x] done"),
        plan("/w/b/.plans/3.md", "- [x] done"),
        plan("/w/act/.plan/1.md", "- [ ] open"),
        plan("/w/b/.plans/2.md", "- [ ] open"),
    ];
    let paths = |files: Vec<PlanFileContent>| -> Vec<String> {
        files.into_iter().map(|file| file.path).collect()
    };
    assert_eq!(
        paths(select_plan_files(files.clone(), Some(message))),
        vec!["/w/act/.plan/1.md", "/w/act/.plan/2.md", "/w/b/.plans/2.md", "/w/z/.plans/1.md"]
    );
    assert_eq!(select_plan_files(files.clone(), Some("no link")), files);
    assert_eq!(select_plan_files(files.clone(), None), files);
}

#[test]
fn large_files_are_not_read() {
    assert!(is_readable_size(100_000));
    assert!(!is_readable_size(100_001));
}

#[test]
fn the_checkpoint_names_the_first_open_plan() {
    let files = vec![
        plan("/w/a/.plans/1.md", "```\n- [ ] code\n```\n- [x] done"),
        plan("/w/a/.plan/2.md", "## Future\n- [ ] later"),
    ];
    let prompt = checkpoint(&files).unwrap();
    assert!(prompt.starts_with("MANDATORY CHECKPOINT"));
    assert!(prompt.contains("Re-read all .plan/ files"));
    assert!(prompt.ends_with("Unchecked items found in: .plan/2.md"));
    assert!(has_open_checkbox("## Future\n- [ ] later"));
    assert_eq!(checkpoint(&vec![plan("1.md", "- [x] done")]), None);
    assert_eq!(build_checkbox_verification_prompt("{}"), None);
    assert_eq!(
        build_checkbox_verification_prompt(
            r#"{"plan_files":[{"path":"1.md","content":"- [ ] x"}]}"#
        )
        .map(|p| p.ends_with(".plans/1.md")),
        Some(true)
    );
}

#[test]
fn titles_and_prompts_are_recognized() {
    assert_eq!(extract_plan_title("intro\n  # Title here\n# Other"), "Title here");
    assert_eq!(extract_plan_title("## no title"), "");
    assert!(is_doc_creation_prompt("Write the DOCUMENTATION"));
    assert!(is_doc_creation_prompt("put it in .DOCS/x"));
    assert!(!is_doc_creation_prompt("write tests"));
}

#[test]
fn the_state_is_verified_with_benchmarks_where_performance_matters() {
    let none: Vec<String> = vec![];
    assert!(is_perf_related("{\"x\":\"Latency\"}", &none));
    assert!(!is_perf_related("{}", &none));
    assert!(is_perf_related("{}", &vec!["- [ ] tune the Cache".to_string()]));
    assert!(!is_perf_related("{}", &vec!["- [x] tune the cache".to_string()]));

    let plain = build_pre_stop_verification_prompt("{}", &none).unwrap();
    assert!(plain.starts_with(
        "PRE-STOP VERIFICATION — check state, then decide.\n\n1. **Last message first**"
    ));
    assert!(!plain.contains("Benchmarks"));
    assert!(!plain.contains("Remaining Plans"));
    assert!(plain.contains("from develop.\n\n## Declare\n\nBefore stopping"));
    assert!(plain.ends_with(
        "nothing related to current work`\n\nProceed with continuing/transitioning work, or stop if verification is complete."
    ));

    let full = build_pre_stop_verification_prompt(
        r#"{"plan_files":[{"path":"/w/a/.plans/1.md","content":"- [ ] speed"}]}"#,
        &none,
    )
    .unwrap();
    assert!(full.contains("from develop.\n4. **Benchmarks**"));
    assert!(full.contains(
        "\n\n## Remaining Plans (FYI — do NOT auto-pick)\n\n**a** (1 plan(s)):\n  - `.plans/1.md` — 1 task(s): \n\nItems may be deferred"
    ));
    assert!(full.contains("just because it exists.\n\n## Declare"));
}

#[test]
fn contexts_that_cannot_be_read_have_no_plans() {
    use_context("not json", false, false);
    use_context("[]", false, true);
    use_context("[[], 1]", false, false);
    use_context("0", false, false);
    use_context("{}", false, true);
    use_context(r#"{"plan_files":null}"#, false, false);
    use_context(r#"{"plan_files":[{"path":"a"}]}"#, false, false);
    use_context(r#"{"plan_files":[{"path":1,"content":"x"}]}"#, false, false);
    use_context(r#"{"plan_files":[],"plan_files":[]}"#, false, false);
    use_context(r#"{"plan_files":[],"plan\u005ffiles":[]}"#, false, false);
    use_context(r#"{"plan_files":[{"path":"a","content":"x","path":"b"}]}"#, false, false);
    use_context(r#"{"plan_files":[{"path":"a","content":"x","content":"x"}]}"#, false, false);
    use_context(r#" { "t" : "a,\"}{", "t": [1,{"plan_files":[2,3]}], "plan_files" : [ {"x":",","x":1,"path":"a","content":"☃"} ] } "#, true, true);
    use_context("{ }", false, true);
    use_context(r#"{"plan_files":[["a"]]}"#, false, false);
    use_context(r#"{"plan_files":[["a","b","c"]]}"#, false, false);
    use_context(r#"{"plan_files":[{"path":"a","content":"☃","more":0}]}"#, true, true);
    use_context(r#"{"plan_files":[["a","☃"]]}"#, true, true);
    use_context(r#"[[["a","\u2603"]]]"#, true, true);
}

fn use_context(json: &str, with_key: bool, without_key: bool) {
    assert_eq!(
        auto_prompt::plans::read_context_plan_files(json, true).is_some(),
        with_key,
        "{json}"
    );
    let read = auto_prompt::plans::read_context_plan_files(json, false);
    assert_eq!(read.is_some(), without_key, "{json}");
    if with_key {
        assert_eq!(read, Some(vec![plan("a", "☃")]));
    }
}
