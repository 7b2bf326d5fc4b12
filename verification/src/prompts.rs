//! The prompts that send a worker back to its plans.

use vstd::prelude::*;
use crate::context;
use crate::context::{PlanFileContent, PlanFileView};
use crate::numbers;
use crate::plans;
use crate::segments;
use crate::tasks;
use crate::text;

verus! {

// ---------------------------------------------------------------------------
// Unchecked tasks
// ---------------------------------------------------------------------------

/// One line for each plan with actionable tasks left.
pub open spec fn spec_task_lines(files: Seq<PlanFileView>) -> Seq<Seq<char>>
    decreases files.len(),
{
    if files.len() == 0 {
        seq![]
    } else {
        let before = spec_task_lines(files.drop_last());
        let count = tasks::spec_actionable_tasks(files.last().content);
        if count > 0 {
            before.push(
                "- "@ + context::spec_file_name(files.last().path) + ": "@
                    + numbers::spec_decimal(count) + " unchecked task(s)"@,
            )
        } else {
            before
        }
    }
}

/// The prompt that sends a worker on with the unchecked tasks of `files`,
/// `None` where there are none.
pub open spec fn spec_plan_task_prompt(files: Seq<PlanFileView>) -> Option<Seq<char>> {
    if spec_task_lines(files).len() == 0 {
        None
    } else {
        Some(
            "LLM orchestration failed but plan files have remaining unchecked tasks:\n\n"@
                + segments::spec_join(spec_task_lines(files), "\n"@)
                + "\n\nContinue with the next unchecked task. Mark completed steps as [x]."@,
        )
    }
}

/// The same, for the plan files of a serialized context.
pub open spec fn spec_context_task_prompt(context_json: Seq<char>) -> Option<Seq<char>> {
    match plans::spec_plan_files(context_json, false) {
        Some(files) => spec_plan_task_prompt(files),
        None => None,
    }
}

/// A prompt that sends a worker on with the unchecked tasks of `files`.
pub fn plan_task_prompt(files: &Vec<PlanFileContent>) -> (r: Option<String>)
    ensures
        r.deep_view() == spec_plan_task_prompt(files.deep_view()),
{
    let mut lines: Vec<String> = Vec::new();
    let mut i: usize = 0;
    let ghost all = files.deep_view();
    assert(all.take(0) =~= seq![]);
    assert(lines.deep_view() =~= seq![]);
    while i < files.len()
        invariant
            i <= files.len(),
            all == files.deep_view(),
            lines.deep_view() == spec_task_lines(all.take(i as int)),
        decreases files.len() - i,
    {
        assert(all.take(i + 1).drop_last() =~= all.take(i as int));
        assert(all[i as int] == files@[i as int]@);
        let count: usize = tasks::count_actionable_tasks(files[i].content.as_str());
        if count > 0 {
            let mut line = text::owned("- ");
            line.append(context::file_name(files[i].path.as_str()));
            line.append(": ");
            line.append(numbers::decimal_usize(count).as_str());
            line.append(" unchecked task(s)");
            let ghost before = lines.deep_view();
            lines.push(line);
            assert(lines.deep_view() =~= before.push(line@));
        }
        i = i + 1;
    }
    assert(all.take(all.len() as int) =~= all);
    if lines.len() == 0 {
        return None;
    }
    let mut r = text::owned(
        "LLM orchestration failed but plan files have remaining unchecked tasks:\n\n",
    );
    r.append(segments::join_strings(&lines, "\n").as_str());
    r.append("\n\nContinue with the next unchecked task. Mark completed steps as [x].");
    Some(r)
}

/// A prompt that sends a worker on with the unchecked tasks in the plan files
/// of a serialized context. `None` where the context cannot be read or no
/// task is left.
pub fn detect_remaining_plan_tasks(context_json: &str) -> (r: Option<String>)
    ensures
        r.deep_view() == spec_context_task_prompt(context_json@),
{
    match plans::read_context_plan_files(context_json, false) {
        Some(files) => plan_task_prompt(&files),
        None => None,
    }
}

// ---------------------------------------------------------------------------
// Checkboxes before documentation
// ---------------------------------------------------------------------------

/// The prompt that has the checkboxes of the plan at `path` verified.
pub open spec fn spec_checkpoint_text(path: Seq<char>) -> Seq<char> {
    let dir = plans::spec_plan_dir(path);
    "MANDATORY CHECKPOINT: Verify plan checkboxes before documentation.\n\nRe-read all "@ + dir
        + "/ files and verify every '- [ ]' step against the actual code changes:\n1. Read each plan file in "@
        + dir
        + "/\n2. For each '- [ ]' item, check if the code already implements it\n3. Mark completed items as '- [x]' — do NOT re-execute completed work\n4. If any item is truly incomplete, continue working on it\n5. Only after ALL items in ALL plan files are '- [x]', create documentation at .docs/\n\nUnchecked items found in: "@
        + dir + "/"@ + context::spec_file_name(path)
}

/// The checkpoint prompt for the first of `files` with an open checkbox.
pub open spec fn spec_checkpoint(files: Seq<PlanFileView>) -> Option<Seq<char>>
    decreases files.len(),
{
    if files.len() == 0 {
        None
    } else if tasks::spec_open_checkbox(segments::spec_lines(files[0].content), false) {
        Some(spec_checkpoint_text(files[0].path))
    } else {
        spec_checkpoint(files.skip(1))
    }
}

/// The checkpoint prompt for the plan files of a serialized context.
pub open spec fn spec_context_checkpoint(context_json: Seq<char>) -> Option<Seq<char>> {
    match plans::spec_plan_files(context_json, true) {
        Some(files) => spec_checkpoint(files),
        None => None,
    }
}

/// The checkpoint prompt for the first of `files` with an open checkbox.
pub fn checkpoint(files: &Vec<PlanFileContent>) -> (r: Option<String>)
    ensures
        r.deep_view() == spec_checkpoint(files.deep_view()),
{
    let mut i: usize = 0;
    let ghost all = files.deep_view();
    assert(all.skip(0) =~= all);
    while i < files.len()
        invariant
            i <= files.len(),
            all == files.deep_view(),
            spec_checkpoint(all) == spec_checkpoint(all.skip(i as int)),
        decreases files.len() - i,
    {
        assert(all.skip(i as int)[0] == files@[i as int]@);
        assert(all.skip(i as int).skip(1) =~= all.skip(i + 1));
        if tasks::has_open_checkbox(files[i].content.as_str()) {
            let path = files[i].path.as_str();
            let dir = plans::plan_dir(path);
            let mut r = text::owned(
                "MANDATORY CHECKPOINT: Verify plan checkboxes before documentation.\n\nRe-read all ",
            );
            r.append(dir);
            r.append(
                "/ files and verify every '- [ ]' step against the actual code changes:\n1. Read each plan file in ",
            );
            r.append(dir);
            r.append(
                "/\n2. For each '- [ ]' item, check if the code already implements it\n3. Mark completed items as '- [x]' — do NOT re-execute completed work\n4. If any item is truly incomplete, continue working on it\n5. Only after ALL items in ALL plan files are '- [x]', create documentation at .docs/\n\nUnchecked items found in: ",
            );
            r.append(dir);
            r.append("/");
            r.append(context::file_name(path));
            return Some(r);
        }
        i = i + 1;
    }
    None
}

/// A prompt that has checkboxes verified before documentation is written.
/// `None` where the context cannot be read or no checkbox is open.
pub fn build_checkbox_verification_prompt(context_json: &str) -> (r: Option<String>)
    ensures
        r.deep_view() == spec_context_checkpoint(context_json@),
{
    match plans::read_context_plan_files(context_json, true) {
        Some(files) => checkpoint(&files),
        None => None,
    }
}

/// Documentation is asked for, from the lowercase form of a prompt.
pub open spec fn spec_asks_for_docs(lower: Seq<char>) -> bool {
    text::spec_contains(lower, "documentation"@) || text::spec_contains(lower, ".docs/"@)
}

/// Whether the lowercase form of a prompt asks for documentation.
pub fn asks_for_docs(lower: &str) -> (r: bool)
    ensures
        r == spec_asks_for_docs(lower@),
{
    text::contains(lower, "documentation") || text::contains(lower, ".docs/")
}

/// Whether a prompt asks for documentation to be written.
pub fn is_doc_creation_prompt(prompt: &str) -> (r: bool)
    ensures
        r == spec_asks_for_docs(text::lowercase(prompt@)),
{
    let lower = text::to_lowercase(prompt);
    asks_for_docs(lower.as_str())
}

// ---------------------------------------------------------------------------
// Verification before a stop
// ---------------------------------------------------------------------------

/// A word about performance stands in a lowercase text.
pub open spec fn spec_speaks_of_performance(lower: Seq<char>) -> bool {
    ||| text::spec_contains(lower, "benchmark"@)
    ||| text::spec_contains(lower, "bench"@)
    ||| text::spec_contains(lower, "performance"@)
    ||| text::spec_contains(lower, "perf"@)
    ||| text::spec_contains(lower, "latency"@)
    ||| text::spec_contains(lower, "throughput"@)
    ||| text::spec_contains(lower, "speed"@)
    ||| text::spec_contains(lower, "optimize"@)
    ||| text::spec_contains(lower, "optimization"@)
    ||| text::spec_contains(lower, "memory usage"@)
    ||| text::spec_contains(lower, "allocation"@)
    ||| text::spec_contains(lower, "cache"@)
    ||| text::spec_contains(lower, "profile"@)
    ||| text::spec_contains(lower, "profiling"@)
}

/// Whether a lowercase text holds a word about performance.
pub fn speaks_of_performance(lower: &str) -> (r: bool)
    ensures
        r == spec_speaks_of_performance(lower@),
{
    text::contains(lower, "benchmark") || text::contains(lower, "bench") || text::contains(
        lower,
        "performance",
    ) || text::contains(lower, "perf") || text::contains(lower, "latency") || text::contains(
        lower,
        "throughput",
    ) || text::contains(lower, "speed") || text::contains(lower, "optimize") || text::contains(
        lower,
        "optimization",
    ) || text::contains(lower, "memory usage") || text::contains(lower, "allocation")
        || text::contains(lower, "cache") || text::contains(lower, "profile") || text::contains(
        lower,
        "profiling",
    )
}

/// The context, or a plan with actionable tasks left, speaks of performance.
pub open spec fn spec_is_perf_related(context_json: Seq<char>, plans: Seq<Seq<char>>) -> bool {
    spec_speaks_of_performance(text::lowercase(context_json)) || exists|i: int|
        0 <= i < plans.len() && tasks::spec_actionable_tasks(#[trigger] plans[i]) > 0
            && spec_speaks_of_performance(text::lowercase(plans[i]))
}

/// Whether the work is about performance, from the serialized context and the
/// contents of the plan files in the work directories.
pub fn is_perf_related(context_json: &str, plans: &Vec<String>) -> (r: bool)
    ensures
        r == spec_is_perf_related(context_json@, plans.deep_view()),
{
    let lower = text::to_lowercase(context_json);
    if speaks_of_performance(lower.as_str()) {
        return true;
    }
    let mut i: usize = 0;
    while i < plans.len()
        invariant
            i <= plans.len(),
            forall|j: int|
                0 <= j < i ==> !(tasks::spec_actionable_tasks(#[trigger] plans.deep_view()[j]) > 0
                    && spec_speaks_of_performance(text::lowercase(plans.deep_view()[j]))),
        decreases plans.len() - i,
    {
        let content = plans[i].as_str();
        assert(plans.deep_view()[i as int] == content@);
        if tasks::has_unchecked_items(content) {
            let lower = text::to_lowercase(content);
            if speaks_of_performance(lower.as_str()) {
                return true;
            }
        }
        i = i + 1;
    }
    false
}

/// What a worker is to check before it stops.
pub open spec fn spec_checks(is_perf: bool) -> Seq<char> {
    let always =
        "1. **Last message first**: Re-read your last message. Any remaining work, next steps, or unchecked items? Continue THAT before anything else.\n2. **Diagnostics**: `cargo check` and `cargo clippy`. Fix errors and warnings.\n3. **Git**: Commit with conventional messages to feature branch from develop."@;
    if is_perf {
        always + "\n4. **Benchmarks**: Run relevant benchmarks and record results."@
    } else {
        always
    }
}

/// The section that lists the remaining plans.
pub open spec fn spec_plans_section(landscape: Option<Seq<char>>) -> Seq<char> {
    match landscape {
        Some(plans) => "## Remaining Plans (FYI — do NOT auto-pick)\n\n"@ + plans
            + "\n\nItems may be deferred, out-of-scope, or unrelated. Read the list, then decide — do not start something new just because it exists.\n\n"@,
        None => ""@,
    }
}

/// The prompt that has the state verified before a stop.
pub open spec fn spec_pre_stop_prompt(is_perf: bool, landscape: Option<Seq<char>>) -> Seq<char> {
    "PRE-STOP VERIFICATION — check state, then decide.\n\n"@ + spec_checks(is_perf) + "\n\n"@
        + spec_plans_section(landscape)
        + "## Declare\n\nBefore stopping, state one of:\n- `continuing: <what remains from last message>`\n- `reviewed plans: transitioning to <path> because <relevance>` — close current feature first\n- `reviewed plans: stopping, nothing related to current work`\n\nProceed with continuing/transitioning work, or stop if verification is complete."@
}

/// A prompt that has the state verified before a stop.
pub fn pre_stop_prompt(is_perf: bool, landscape: Option<&str>) -> (r: String)
    ensures
        r@ == spec_pre_stop_prompt(is_perf, landscape.deep_view()),
{
    let mut checks = text::owned(
        "1. **Last message first**: Re-read your last message. Any remaining work, next steps, or unchecked items? Continue THAT before anything else.\n2. **Diagnostics**: `cargo check` and `cargo clippy`. Fix errors and warnings.\n3. **Git**: Commit with conventional messages to feature branch from develop.",
    );
    if is_perf {
        checks.append("\n4. **Benchmarks**: Run relevant benchmarks and record results.");
    }
    let mut section = text::owned("");
    if let Some(plans) = landscape {
        section = text::owned("## Remaining Plans (FYI — do NOT auto-pick)\n\n");
        section.append(plans);
        section.append(
            "\n\nItems may be deferred, out-of-scope, or unrelated. Read the list, then decide — do not start something new just because it exists.\n\n",
        );
    }
    let mut r = text::owned("PRE-STOP VERIFICATION — check state, then decide.\n\n");
    r.append(checks.as_str());
    r.append("\n\n");
    r.append(section.as_str());
    r.append(
        "## Declare\n\nBefore stopping, state one of:\n- `continuing: <what remains from last message>`\n- `reviewed plans: transitioning to <path> because <relevance>` — close current feature first\n- `reviewed plans: stopping, nothing related to current work`\n\nProceed with continuing/transitioning work, or stop if verification is complete.",
    );
    r
}

/// The prompt that has the state verified before a stop, from a serialized
/// context and the contents of the plan files in the work directories.
pub open spec fn spec_context_pre_stop_prompt(
    context_json: Seq<char>,
    plans: Seq<Seq<char>>,
) -> Seq<char> {
    spec_pre_stop_prompt(
        spec_is_perf_related(context_json, plans),
        plans::spec_context_landscape(context_json),
    )
}

/// Builds the prompt that has the state verified before a stop.
pub fn build_pre_stop_verification_prompt(context_json: &str, plans: &Vec<String>) -> (r: Option<
    String,
>)
    ensures
        r.deep_view() == Some(spec_context_pre_stop_prompt(context_json@, plans.deep_view())),
{
    let landscape = plans::build_plan_landscape(context_json);
    let is_perf = is_perf_related(context_json, plans);
    let r = match &landscape {
        Some(list) => pre_stop_prompt(is_perf, Some(list.as_str())),
        None => pre_stop_prompt(is_perf, None),
    };
    Some(r)
}

// ---------------------------------------------------------------------------
// The short context of a retry
// ---------------------------------------------------------------------------

/// The last `n` of `parts`, all of them where there are fewer.
pub open spec fn spec_last(parts: Seq<Seq<char>>, n: int) -> Seq<Seq<char>> {
    if parts.len() > n {
        parts.skip(parts.len() - n)
    } else {
        parts
    }
}

/// The parts of a retry context: the title, the end of the last message, and
/// the remaining plans, as far as there are any.
pub open spec fn spec_retry_parts(
    landscape: Option<Seq<char>>,
    last_message: Option<Seq<char>>,
    title: Option<Seq<char>>,
) -> Seq<Seq<char>> {
    let first = match title {
        Some(title) => seq!["Thread: "@ + title],
        None => seq![],
    };
    let second = match last_message {
        Some(message) => first.push(
            "\nLast assistant message:\n"@ + segments::spec_join(
                spec_last(segments::spec_split(message, "\n\n"@), 3),
                "\n\n"@,
            ),
        ),
        None => first,
    };
    match landscape {
        Some(plans) => second.push("\nIncomplete plans:\n"@ + plans),
        None => second,
    }
}

/// The context for a retry after a failed call.
pub open spec fn spec_retry_context(
    landscape: Option<Seq<char>>,
    last_message: Option<Seq<char>>,
    title: Option<Seq<char>>,
) -> Seq<char> {
    segments::spec_join(spec_retry_parts(landscape, last_message, title), "\n"@)
}

/// A short context for a retry: title, end of the last message, and remaining plans.
pub fn retry_context(
    landscape: Option<&str>,
    last_message: Option<&str>,
    title: Option<&str>,
) -> (r: String)
    ensures
        r@ == spec_retry_context(
            landscape.deep_view(),
            last_message.deep_view(),
            title.deep_view(),
        ),
{
    proof {
        reveal_strlit("\n\n");
    }
    let mut parts: Vec<String> = Vec::new();
    assert(parts.deep_view() =~= seq![]);
    if let Some(title) = title {
        let mut part = text::owned("Thread: ");
        part.append(title);
        parts.push(part);
        assert(parts.deep_view() =~= seq![part@]);
    }
    if let Some(message) = last_message {
        let pieces = segments::split(message, "\n\n");
        let start: usize = if pieces.len() > 3 {
            pieces.len() - 3
        } else {
            0
        };
        let end = segments::tail(&pieces, start);
        assert(end.deep_view() =~= spec_last(pieces.deep_view(), 3));
        let mut part = text::owned("\nLast assistant message:\n");
        part.append(segments::join(&end, "\n\n").as_str());
        let ghost before = parts.deep_view();
        parts.push(part);
        assert(parts.deep_view() =~= before.push(part@));
    }
    if let Some(plans) = landscape {
        let mut part = text::owned("\nIncomplete plans:\n");
        part.append(plans);
        let ghost before = parts.deep_view();
        parts.push(part);
        assert(parts.deep_view() =~= before.push(part@));
    }
    segments::join_strings(&parts, "\n")
}

/// A short context for a retry, with the remaining plans of a serialized context.
pub fn build_lightweight_retry_context(
    context_json: &str,
    last_message: Option<&str>,
    title: Option<&str>,
) -> (r: String)
    ensures
        r@ == spec_retry_context(
            plans::spec_context_landscape(context_json@),
            last_message.deep_view(),
            title.deep_view(),
        ),
{
    let landscape = plans::build_plan_landscape(context_json);
    match &landscape {
        Some(list) => retry_context(Some(list.as_str()), last_message, title),
        None => retry_context(None, last_message, title),
    }
}

// ---------------------------------------------------------------------------
// Laws
// ---------------------------------------------------------------------------

proof fn lemma_task_lines(files: Seq<PlanFileView>)
    ensures
        spec_task_lines(files).len() == context::spec_remaining_plans(files).len(),
    decreases files.len(),
{
    reveal(Seq::filter);
    if files.len() > 0 {
        lemma_task_lines(files.drop_last());
    }
}

/// A worker is sent back to unchecked tasks exactly where there are plans to list.
pub proof fn law_task_prompt_iff_landscape(files: Seq<PlanFileView>)
    ensures
        spec_plan_task_prompt(files) is Some <==> plans::spec_landscape(files) is Some,
{
    lemma_task_lines(files);
}

/// A plan gets a line exactly where it has tasks left; the line names its file
/// and counts them, and the lines follow the plans.
pub proof fn law_each_plan_with_tasks_gets_a_line(files: Seq<PlanFileView>, file: PlanFileView)
    ensures
        spec_task_lines(seq![]) == Seq::<Seq<char>>::empty(),
        spec_task_lines(files.push(file)) == if tasks::spec_actionable_tasks(file.content) > 0 {
            spec_task_lines(files).push(
                "- "@ + context::spec_file_name(file.path) + ": "@ + numbers::spec_decimal(
                    tasks::spec_actionable_tasks(file.content),
                ) + " unchecked task(s)"@,
            )
        } else {
            spec_task_lines(files)
        },
        spec_plan_task_prompt(files) is None <==> spec_task_lines(files).len() == 0,
        spec_plan_task_prompt(files) matches Some(prompt) ==> prompt
            == "LLM orchestration failed but plan files have remaining unchecked tasks:\n\n"@
            + segments::spec_join(spec_task_lines(files), seq!['\n'])
            + "\n\nContinue with the next unchecked task. Mark completed steps as [x]."@,
{
    reveal_strlit("\n");
    assert("\n"@ =~= seq!['\n']);
    assert(files.push(file).drop_last() =~= files);
}

/// A plan has an open item outside any code block.
pub open spec fn spec_has_open_item(file: PlanFileView) -> bool {
    let lines = segments::spec_lines(file.content);
    exists|i: int|
        0 <= i < lines.len() && tasks::spec_outside_code(lines, i) && tasks::spec_is_open_item(
            #[trigger] lines[i],
        )
}

/// The checkpoint is about the first plan that has an open item; without one
/// there is no checkpoint.
pub proof fn law_checkpoint_is_about_the_first_open_plan(files: Seq<PlanFileView>, k: int)
    requires
        0 <= k <= files.len(),
        forall|j: int| 0 <= j < k ==> !spec_has_open_item(#[trigger] files[j]),
        k < files.len() ==> spec_has_open_item(files[k]),
    ensures
        k == files.len() ==> spec_checkpoint(files) is None,
        k < files.len() ==> spec_checkpoint(files) == Some(spec_checkpoint_text(files[k].path)),
    decreases k,
{
    if files.len() > 0 {
        tasks::law_open_checkbox_is_an_open_item(segments::spec_lines(files[0].content));
        if k > 0 {
            assert(!spec_has_open_item(files[0]));
            let rest = files.skip(1);
            assert forall|j: int| 0 <= j < k - 1 implies !spec_has_open_item(#[trigger] rest[j]) by {
                assert(rest[j] == files[j + 1]);
            }
            law_checkpoint_is_about_the_first_open_plan(rest, k - 1);
        }
    }
}

/// The checkpoint sends the worker to the plan's own directory, step by step, and
/// names the file at its end.
pub proof fn law_checkpoint_names_directory_and_file(dirs: Seq<Seq<char>>, name: Seq<char>)
    requires
        dirs.len() > 0,
        forall|k: int| 0 <= k < dirs.len() ==> !(#[trigger] dirs[k]).contains('/'),
        !name.contains('/'),
    ensures
        spec_checkpoint_text(segments::spec_join(dirs.push(name), seq!['/']))
            == "MANDATORY CHECKPOINT: Verify plan checkboxes before documentation.\n\nRe-read all "@
            + dirs.last()
            + "/ files and verify every '- [ ]' step against the actual code changes:\n1. Read each plan file in "@
            + dirs.last()
            + "/\n2. For each '- [ ]' item, check if the code already implements it\n3. Mark completed items as '- [x]' — do NOT re-execute completed work\n4. If any item is truly incomplete, continue working on it\n5. Only after ALL items in ALL plan files are '- [x]', create documentation at .docs/\n\nUnchecked items found in: "@
            + dirs.last() + "/"@ + name,
{
    let parts = dirs.push(name);
    assert forall|k: int| 0 <= k < parts.len() implies !(#[trigger] parts[k]).contains('/') by {
        if k < dirs.len() {
            assert(parts[k] == dirs[k]);
        }
    }
    plans::law_plan_directory_is_the_last_but_one_part(parts);
    context::law_file_name_is_the_last_part(parts);
    assert(parts[parts.len() - 2] == dirs.last());
}

/// A prompt asks for documentation by the word or by the directory.
pub proof fn law_documentation_is_asked_for_by_word_or_directory(lower: Seq<char>)
    ensures
        spec_asks_for_docs(lower) <==> text::spec_contains(lower, "documentation"@)
            || text::spec_contains(lower, ".docs/"@),
{
}

/// Work is about performance where the context or a plan with tasks left uses
/// one of these words; a finished plan does not count.
pub proof fn law_words_tell_performance_work(context_json: Seq<char>, plans: Seq<Seq<char>>)
    ensures
        forall|s: Seq<char>|
            #[trigger] spec_speaks_of_performance(s) <==> text::spec_contains(s, "benchmark"@)
                || text::spec_contains(s, "bench"@) || text::spec_contains(s, "performance"@)
                || text::spec_contains(s, "perf"@) || text::spec_contains(s, "latency"@)
                || text::spec_contains(s, "throughput"@) || text::spec_contains(s, "speed"@)
                || text::spec_contains(s, "optimize"@) || text::spec_contains(s, "optimization"@)
                || text::spec_contains(s, "memory usage"@) || text::spec_contains(s, "allocation"@)
                || text::spec_contains(s, "cache"@) || text::spec_contains(s, "profile"@)
                || text::spec_contains(s, "profiling"@),
        spec_is_perf_related(context_json, plans) <==> spec_speaks_of_performance(
            text::lowercase(context_json),
        ) || (exists|i: int|
            0 <= i < plans.len() && tasks::spec_actionable_tasks(#[trigger] plans[i]) > 0
                && spec_speaks_of_performance(text::lowercase(plans[i]))),
{
}

/// Before a stop the worker is asked for its last message, diagnostics and
/// commits, and for benchmarks besides exactly where the work is about
/// performance. The remaining plans are quoted whole where there are any.
pub proof fn law_pre_stop_prompt_quotes_the_plans(is_perf: bool, landscape: Option<Seq<char>>)
    ensures
        ({
            let prompt = spec_pre_stop_prompt(is_perf, landscape);
            let bare = spec_pre_stop_prompt(false, None);
            &&& text::spec_starts_with(
                prompt,
                "PRE-STOP VERIFICATION — check state, then decide.\n\n1. **Last message first**"@,
            )
            &&& is_perf ==> text::spec_contains(
                prompt,
                "\n4. **Benchmarks**: Run relevant benchmarks and record results.\n\n"@,
            )
            &&& landscape matches Some(plans) ==> text::spec_contains(
                prompt,
                "## Remaining Plans (FYI — do NOT auto-pick)\n\n"@ + plans + "\n\nItems may be deferred"@,
            )
            &&& prompt.len() == bare.len() + (if is_perf {
                "\n4. **Benchmarks**: Run relevant benchmarks and record results."@.len()
            } else {
                0
            }) + match landscape {
                Some(plans) => "## Remaining Plans (FYI — do NOT auto-pick)\n\n"@.len()
                    + plans.len()
                    + "\n\nItems may be deferred, out-of-scope, or unrelated. Read the list, then decide — do not start something new just because it exists.\n\n"@.len(),
                None => 0,
            }
        }),
{
    reveal_strlit("");
    reveal_strlit("\n\n");
    reveal_strlit("PRE-STOP VERIFICATION — check state, then decide.\n\n");
    reveal_strlit("PRE-STOP VERIFICATION — check state, then decide.\n\n1. **Last message first**");
    reveal_strlit(
        "1. **Last message first**: Re-read your last message. Any remaining work, next steps, or unchecked items? Continue THAT before anything else.\n2. **Diagnostics**: `cargo check` and `cargo clippy`. Fix errors and warnings.\n3. **Git**: Commit with conventional messages to feature branch from develop.",
    );
    reveal_strlit("\n4. **Benchmarks**: Run relevant benchmarks and record results.");
    reveal_strlit("\n4. **Benchmarks**: Run relevant benchmarks and record results.\n\n");
    let prompt = spec_pre_stop_prompt(is_perf, landscape);
    let head = "PRE-STOP VERIFICATION — check state, then decide.\n\n"@;
    let start =
        "PRE-STOP VERIFICATION — check state, then decide.\n\n1. **Last message first**"@;
    assert(prompt.subrange(0, start.len() as int) =~= start);
    let checks = spec_checks(is_perf);
    if is_perf {
        let always = spec_checks(false);
        let bench = "\n4. **Benchmarks**: Run relevant benchmarks and record results.\n\n"@;
        let before = head + always;
        let after = prompt.skip((before.len() + bench.len()) as int);
        assert(prompt =~= before + bench + after);
        text::lemma_contains_part(before, bench, after);
    }
    if let Some(plans) = landscape {
        reveal_strlit("\n\nItems may be deferred");
        reveal_strlit(
            "\n\nItems may be deferred, out-of-scope, or unrelated. Read the list, then decide — do not start something new just because it exists.\n\n",
        );
        let quoted = "## Remaining Plans (FYI — do NOT auto-pick)\n\n"@ + plans
            + "\n\nItems may be deferred"@;
        let before = head + checks + "\n\n"@;
        let after = prompt.skip((before.len() + quoted.len()) as int);
        assert(prompt =~= before + quoted + after);
        text::lemma_contains_part(before, quoted, after);
    }
}

/// A retry is told of the thread, of the end of the last message and of the
/// plans, each where it is there, in this order and on lines of its own. Of the
/// last message it gets the last three paragraphs, all of it where there are no
/// more.
pub proof fn law_retry_is_told_of_thread_message_and_plans(
    landscape: Option<Seq<char>>,
    last_message: Option<Seq<char>>,
    title: Option<Seq<char>>,
    parts: Seq<Seq<char>>,
)
    requires
        parts.len() > 0,
        forall|k: int|
            0 <= k < parts.len() ==> segments::spec_ends_at_first(#[trigger] parts[k], "\n\n"@),
    ensures
        spec_retry_context(landscape, last_message, title) == segments::spec_join(
            spec_retry_parts(landscape, last_message, title),
            seq!['\n'],
        ),
        spec_retry_parts(landscape, last_message, title) == spec_retry_parts(None, None, title)
            + spec_retry_parts(None, last_message, None) + spec_retry_parts(landscape, None, None),
        spec_retry_parts(None, None, None) == Seq::<Seq<char>>::empty(),
        title matches Some(t) ==> spec_retry_parts(None, None, title) == seq!["Thread: "@ + t],
        landscape matches Some(p) ==> spec_retry_parts(landscape, None, None) == seq![
            "\nIncomplete plans:\n"@ + p,
        ],
        spec_retry_parts(None, Some(segments::spec_join(parts, "\n\n"@)), None) == seq![
            "\nLast assistant message:\n"@ + segments::spec_join(
                if parts.len() > 3 {
                    parts.skip(parts.len() - 3)
                } else {
                    parts
                },
                "\n\n"@,
            ),
        ],
{
    reveal_strlit("\n");
    reveal_strlit("\n\n");
    assert("\n"@ =~= seq!['\n']);
    segments::law_joined_parts_are_split_again(parts, "\n\n"@);
    assert(spec_retry_parts(landscape, last_message, title) =~= spec_retry_parts(None, None, title)
        + spec_retry_parts(None, last_message, None) + spec_retry_parts(landscape, None, None));
    assert(spec_retry_parts(None, None, None) =~= seq![]);
    if let Some(t) = title {
        assert(spec_retry_parts(None, None, title) =~= seq!["Thread: "@ + t]);
    }
    if let Some(p) = landscape {
        assert(spec_retry_parts(landscape, None, None) =~= seq!["\nIncomplete plans:\n"@ + p]);
    }
    let message = segments::spec_join(parts, "\n\n"@);
    let last = segments::spec_join(
        if parts.len() > 3 {
            parts.skip(parts.len() - 3)
        } else {
            parts
        },
        "\n\n"@,
    );
    assert(spec_retry_parts(None, Some(message), None) =~= seq![
        "\nLast assistant message:\n"@ + last,
    ]);
}

/// The prompts about a context are those about its plan files. For the tasks an
/// absent list is an empty one, which leads to no prompt either.
pub proof fn law_context_prompts_are_about_its_files(
    context_json: Seq<char>,
    contents: Seq<Seq<char>>,
)
    ensures
        match plans::spec_plan_files(context_json, true) {
            Some(files) => spec_context_checkpoint(context_json) == spec_checkpoint(files)
                && spec_context_task_prompt(context_json) == spec_plan_task_prompt(files),
            None => spec_context_checkpoint(context_json) is None && spec_context_task_prompt(
                context_json,
            ) is None,
        },
        spec_context_pre_stop_prompt(context_json, contents) == spec_pre_stop_prompt(
            spec_is_perf_related(context_json, contents),
            plans::spec_context_landscape(context_json),
        ),
{
}

/// What the worker is asked before a stop, word for word.
pub proof fn law_pre_stop_prompt_word_for_word()
    ensures
        spec_pre_stop_prompt(false, None)
            == "PRE-STOP VERIFICATION — check state, then decide.\n\n"@
            + "1. **Last message first**: Re-read your last message. Any remaining work, next steps, or unchecked items? Continue THAT before anything else.\n2. **Diagnostics**: `cargo check` and `cargo clippy`. Fix errors and warnings.\n3. **Git**: Commit with conventional messages to feature branch from develop."@
            + "\n\n"@
            + "## Declare\n\nBefore stopping, state one of:\n- `continuing: <what remains from last message>`\n- `reviewed plans: transitioning to <path> because <relevance>` — close current feature first\n- `reviewed plans: stopping, nothing related to current work`\n\nProceed with continuing/transitioning work, or stop if verification is complete."@,
{
    reveal_strlit("");
    let head = "PRE-STOP VERIFICATION — check state, then decide.\n\n"@ + spec_checks(false)
        + "\n\n"@;
    assert(head + ""@ =~= head);
}

} // verus!
