//! Plan files: reading them out of a serialized context, and telling a worker
//! what is left in them.

use vstd::prelude::*;
use crate::context;
use crate::context::{PlanFileContent, PlanFileView};
use crate::json;
use crate::numbers;
use crate::segments;
use crate::tasks;
use crate::text;

verus! {

// ---------------------------------------------------------------------------
// Plan files in a serialized context
// ---------------------------------------------------------------------------

/// The JSON texts of a plan file's path and content. They are the members
/// `path` and `content` of an object, neither of them repeated, or else the two
/// elements of an array.
pub open spec fn spec_plan_file_fields(element: Seq<char>) -> Option<(Seq<char>, Seq<char>)> {
    match json::spec_members(element) {
        Some(members) => if json::spec_count(members, "path"@) > 1 || json::spec_count(
            members,
            "content"@,
        ) > 1 {
            None
        } else {
            match (
                json::spec_member(members, "path"@),
                json::spec_member(members, "content"@),
            ) {
                (Some(path), Some(content)) => Some((path, content)),
                _ => None,
            }
        },
        None => match json::json_array(element) {
            Some(fields) => if fields.len() == 2 {
                Some((fields[0], fields[1]))
            } else {
                None
            },
            None => None,
        },
    }
}

/// The plan file that a JSON text stands for: its path and its content are strings.
pub open spec fn spec_plan_file(element: Seq<char>) -> Option<PlanFileView> {
    match spec_plan_file_fields(element) {
        Some((path, content)) => match (json::json_string(path), json::json_string(content)) {
            (Some(path), Some(content)) => Some(PlanFileView { path, content }),
            _ => None,
        },
        None => None,
    }
}

/// The plan files that all of `elements` stand for, `None` where one stands for none.
pub open spec fn spec_each_plan_file(elements: Seq<Seq<char>>) -> Option<Seq<PlanFileView>>
    decreases elements.len(),
{
    if elements.len() == 0 {
        Some(seq![])
    } else {
        match (spec_each_plan_file(elements.drop_last()), spec_plan_file(elements.last())) {
            (Some(files), Some(file)) => Some(files.push(file)),
            _ => None,
        }
    }
}

/// The JSON text of a context's plan files, if it has one: the member
/// `plan_files` of an object, or else the only element of an array. `None`
/// where the text is no context, or where that member is repeated.
pub open spec fn spec_plan_files_text(context_json: Seq<char>) -> Option<Option<Seq<char>>> {
    match json::spec_members(context_json) {
        Some(members) => if json::spec_count(members, "plan_files"@) > 1 {
            None
        } else {
            Some(json::spec_member(members, "plan_files"@))
        },
        None => match json::json_array(context_json) {
            Some(fields) => if fields.len() == 0 {
                Some(None)
            } else if fields.len() == 1 {
                Some(Some(fields[0]))
            } else {
                None
            },
            None => None,
        },
    }
}

/// The plan files in the serialized context `context_json`. A context without
/// plan files is refused where they are `required`.
pub open spec fn spec_plan_files(context_json: Seq<char>, required: bool) -> Option<
    Seq<PlanFileView>,
> {
    match spec_plan_files_text(context_json) {
        Some(Some(value)) => match json::json_array(value) {
            Some(elements) => spec_each_plan_file(elements),
            None => None,
        },
        Some(None) => if required {
            None
        } else {
            Some(seq![])
        },
        None => None,
    }
}

fn plan_file_fields(element: &str) -> (r: Option<(String, String)>)
    ensures
        r.deep_view() == spec_plan_file_fields(element@),
{
    match json::members(element) {
        Some(members) => if json::is_repeated(&members, "path") || json::is_repeated(
            &members,
            "content",
        ) {
            None
        } else {
            match (json::member(&members, "path"), json::member(&members, "content")) {
                (Some(path), Some(content)) => Some((text::owned(path), text::owned(content))),
                _ => None,
            }
        },
        None => match json::read_array(element) {
            Some(fields) => if fields.len() == 2 {
                assert(fields.deep_view()[0] == fields@[0]@);
                assert(fields.deep_view()[1] == fields@[1]@);
                Some((fields[0].clone(), fields[1].clone()))
            } else {
                None
            },
            None => None,
        },
    }
}

fn plan_file(element: &str) -> (r: Option<PlanFileContent>)
    ensures
        r.deep_view() == spec_plan_file(element@),
{
    match plan_file_fields(element) {
        Some((path, content)) => match (
            json::read_string(path.as_str()),
            json::read_string(content.as_str()),
        ) {
            (Some(path), Some(content)) => Some(PlanFileContent { path, content }),
            _ => None,
        },
        None => None,
    }
}

fn plan_files_text(context_json: &str) -> (r: Option<Option<String>>)
    ensures
        r.deep_view() == spec_plan_files_text(context_json@),
{
    match json::members(context_json) {
        Some(members) => if json::is_repeated(&members, "plan_files") {
            None
        } else {
            Some(
                match json::member(&members, "plan_files") {
                    Some(value) => Some(text::owned(value)),
                    None => None,
                },
            )
        },
        None => match json::read_array(context_json) {
            Some(fields) => if fields.len() == 0 {
                Some(None)
            } else if fields.len() == 1 {
                assert(fields.deep_view()[0] == fields@[0]@);
                Some(Some(fields[0].clone()))
            } else {
                None
            },
            None => None,
        },
    }
}

proof fn lemma_each_plan_file_prefix(elements: Seq<Seq<char>>, k: int)
    requires
        0 <= k <= elements.len(),
        spec_each_plan_file(elements.take(k)) is None,
    ensures
        spec_each_plan_file(elements) is None,
    decreases elements.len(),
{
    if k == elements.len() {
        assert(elements.take(k) =~= elements);
    } else {
        assert(elements.drop_last().take(k) =~= elements.take(k));
        lemma_each_plan_file_prefix(elements.drop_last(), k);
    }
}

/// Reads the plan files out of a serialized context.
pub fn read_context_plan_files(context_json: &str, required: bool) -> (r: Option<
    Vec<PlanFileContent>,
>)
    ensures
        r.deep_view() == spec_plan_files(context_json@, required),
{
    let mut files: Vec<PlanFileContent> = Vec::new();
    assert(files.deep_view() =~= seq![]);
    let value = match plan_files_text(context_json) {
        Some(Some(value)) => value,
        Some(None) => {
            return if required {
                None
            } else {
                Some(files)
            };
        },
        None => {
            return None;
        },
    };
    let elements = match json::read_array(value.as_str()) {
        Some(elements) => elements,
        None => {
            return None;
        },
    };
    let ghost all = elements.deep_view();
    let mut i: usize = 0;
    assert(all.take(0) =~= seq![]);
    while i < elements.len()
        invariant
            i <= elements.len(),
            all == elements.deep_view(),
            spec_plan_files(context_json@, required) == spec_each_plan_file(all),
            spec_each_plan_file(all.take(i as int)) == Some(files.deep_view()),
        decreases elements.len() - i,
    {
        assert(all[i as int] == elements@[i as int]@);
        assert(all.take(i + 1).drop_last() =~= all.take(i as int));
        match plan_file(elements[i].as_str()) {
            Some(file) => {
                let ghost before = files.deep_view();
                files.push(file);
                assert(files.deep_view() =~= before.push(file@));
            },
            None => {
                proof {
                    lemma_each_plan_file_prefix(all, i + 1);
                }
                return None;
            },
        }
        i = i + 1;
    }
    assert(all.take(all.len() as int) =~= all);
    Some(files)
}

// ---------------------------------------------------------------------------
// Paths
// ---------------------------------------------------------------------------

/// The name of the directory that a plan file stands in, `.plans` where its
/// path names none.
pub open spec fn spec_plan_dir(path: Seq<char>) -> Seq<char> {
    let pieces = segments::spec_split(path, "/"@);
    if pieces.len() >= 2 {
        pieces[pieces.len() - 2]
    } else {
        ".plans"@
    }
}

/// The name of the directory that a plan file stands in.
pub fn plan_dir(path: &str) -> (r: &str)
    ensures
        r@ == spec_plan_dir(path@),
{
    proof {
        reveal_strlit("/");
    }
    let pieces = segments::split(path, "/");
    if pieces.len() >= 2 {
        assert(pieces.deep_view()[pieces@.len() - 2] == pieces@[pieces@.len() - 2]@);
        pieces[pieces.len() - 2]
    } else {
        ".plans"
    }
}

/// The components of a path among its pieces: the empty ones are left out, and
/// so is `.` anywhere but in front.
pub open spec fn spec_components(pieces: Seq<Seq<char>>) -> Seq<Seq<char>>
    decreases pieces.len(),
{
    if pieces.len() == 0 {
        seq![]
    } else if pieces.last().len() == 0 || (pieces.last() == "."@ && pieces.len() > 1) {
        spec_components(pieces.drop_last())
    } else {
        spec_components(pieces.drop_last()).push(pieces.last())
    }
}

fn components<'a>(path: &'a str) -> (r: Vec<&'a str>)
    ensures
        r.deep_view() == spec_components(segments::spec_split(path@, "/"@)),
{
    proof {
        reveal_strlit("/");
    }
    let pieces = segments::split(path, "/");
    let ghost all = segments::spec_split(path@, "/"@);
    let mut r: Vec<&'a str> = Vec::new();
    let mut i: usize = 0;
    assert(all.take(0) =~= seq![]);
    assert(r.deep_view() =~= seq![]);
    while i < pieces.len()
        invariant
            i <= pieces.len(),
            pieces.deep_view() == all,
            all == segments::spec_split(path@, "/"@),
            r.deep_view() == spec_components(all.take(i as int)),
        decreases pieces.len() - i,
    {
        let piece = pieces[i];
        assert(all[i as int] == piece@);
        assert(all.take(i + 1).drop_last() =~= all.take(i as int));
        if piece.unicode_len() > 0 && (i == 0 || !text::str_eq(piece, ".")) {
            let ghost before = r.deep_view();
            r.push(piece);
            assert(r.deep_view() =~= before.push(piece@));
        }
        i = i + 1;
    }
    assert(all.take(all.len() as int) =~= all);
    r
}

/// The project that a plan file belongs to: the name of the directory two
/// levels above it, `unknown` where there is none.
pub open spec fn spec_project(path: Seq<char>) -> Seq<char> {
    let c = spec_components(segments::spec_split(path, "/"@));
    if c.len() >= 3 && c[c.len() - 3] != "."@ && c[c.len() - 3] != ".."@ {
        c[c.len() - 3]
    } else {
        "unknown"@
    }
}

/// The project that a plan file belongs to.
pub fn project(path: &str) -> (r: &str)
    ensures
        r@ == spec_project(path@),
{
    let c = components(path);
    if c.len() >= 3 {
        let name = c[c.len() - 3];
        assert(c.deep_view()[c@.len() - 3] == name@);
        if !text::str_eq(name, ".") && !text::str_eq(name, "..") {
            return name;
        }
    }
    "unknown"
}

// ---------------------------------------------------------------------------
// The landscape of remaining plans
// ---------------------------------------------------------------------------

/// The line that lists a plan with tasks left.
pub open spec fn spec_plan_line(file: PlanFileView) -> Seq<char> {
    "  - `"@ + spec_plan_dir(file.path) + "/"@ + context::spec_file_name(file.path) + "` — "@
        + numbers::spec_decimal(tasks::spec_actionable_tasks(file.content)) + " task(s): "@
        + tasks::spec_title_of(segments::spec_lines(file.content))
}

fn plan_line(file: &PlanFileContent) -> (r: String)
    ensures
        r@ == spec_plan_line(file@),
{
    let mut r = text::owned("  - `");
    r.append(plan_dir(file.path.as_str()));
    r.append("/");
    r.append(context::file_name(file.path.as_str()));
    r.append("` — ");
    r.append(
        numbers::decimal_usize(tasks::count_actionable_tasks(file.content.as_str())).as_str(),
    );
    r.append(" task(s): ");
    r.append(tasks::extract_plan_title(file.content.as_str()).as_str());
    r
}

/// The projects of `plans`, each once, in order of first appearance.
pub open spec fn spec_projects(plans: Seq<PlanFileView>) -> Seq<Seq<char>>
    decreases plans.len(),
{
    if plans.len() == 0 {
        seq![]
    } else {
        let before = spec_projects(plans.drop_last());
        if before.contains(spec_project(plans.last().path)) {
            before
        } else {
            before.push(spec_project(plans.last().path))
        }
    }
}

/// The lines of the plans that belong to `project`, in order.
pub open spec fn spec_project_lines(plans: Seq<PlanFileView>, project: Seq<char>) -> Seq<Seq<char>>
    decreases plans.len(),
{
    if plans.len() == 0 {
        seq![]
    } else {
        let before = spec_project_lines(plans.drop_last(), project);
        if spec_project(plans.last().path) == project {
            before.push(spec_plan_line(plans.last()))
        } else {
            before
        }
    }
}

/// A project's heading and the lines of its plans.
pub open spec fn spec_project_group(plans: Seq<PlanFileView>, project: Seq<char>) -> Seq<
    Seq<char>,
> {
    seq![
        "**"@ + project + "** ("@ + numbers::spec_decimal(spec_project_lines(plans, project).len())
            + " plan(s)):"@,
    ] + spec_project_lines(plans, project)
}

/// The groups of `projects`, one after the other.
pub open spec fn spec_groups(plans: Seq<PlanFileView>, projects: Seq<Seq<char>>) -> Seq<Seq<char>>
    decreases projects.len(),
{
    if projects.len() == 0 {
        seq![]
    } else {
        spec_groups(plans, projects.drop_last()) + spec_project_group(plans, projects.last())
    }
}

/// The plans with actionable tasks left, listed by project. `None` where no
/// plan has any.
pub open spec fn spec_landscape(files: Seq<PlanFileView>) -> Option<Seq<char>> {
    let plans = context::spec_remaining_plans(files);
    if plans.len() == 0 {
        None
    } else {
        Some(segments::spec_join(spec_groups(plans, spec_projects(plans)), "\n"@))
    }
}

/// The remaining plans of a serialized context, listed by project.
pub open spec fn spec_context_landscape(context_json: Seq<char>) -> Option<Seq<char>> {
    match spec_plan_files(context_json, true) {
        Some(files) => spec_landscape(files),
        None => None,
    }
}

/// The plans of `files` that have actionable tasks left.
pub fn remaining(files: &Vec<PlanFileContent>) -> (r: Vec<&PlanFileContent>)
    ensures
        r.deep_view() == context::spec_remaining_plans(files.deep_view()),
{
    let mut r: Vec<&PlanFileContent> = Vec::new();
    let mut i: usize = 0;
    let ghost all = files.deep_view();
    let ghost pred = |p: PlanFileView| tasks::spec_actionable_tasks(p.content) > 0;
    proof {
        reveal(Seq::filter);
        assert(all.take(0).filter(pred) =~= seq![]);
    }
    assert(r.deep_view() =~= all.take(0).filter(pred));
    while i < files.len()
        invariant
            i <= files.len(),
            all == files.deep_view(),
            pred == (|p: PlanFileView| tasks::spec_actionable_tasks(p.content) > 0),
            r.deep_view() == all.take(i as int).filter(pred),
        decreases files.len() - i,
    {
        proof {
            reveal(Seq::filter);
        }
        assert(all[i as int] == files@[i as int]@);
        assert(all.take(i + 1).drop_last() =~= all.take(i as int));
        let ghost before = r.deep_view();
        if tasks::has_unchecked_items(files[i].content.as_str()) {
            r.push(&files[i]);
            assert(r.deep_view() =~= before.push(all[i as int]));
        }
        i = i + 1;
    }
    assert(all.take(all.len() as int) =~= all);
    r
}

fn holds(parts: &Vec<&str>, part: &str) -> (r: bool)
    ensures
        r == parts.deep_view().contains(part@),
{
    let mut i: usize = 0;
    while i < parts.len()
        invariant
            i <= parts.len(),
            forall|j: int| 0 <= j < i ==> parts@[j]@ != part@,
        decreases parts.len() - i,
    {
        if text::str_eq(parts[i], part) {
            assert(parts.deep_view()[i as int] == part@);
            return true;
        }
        i = i + 1;
    }
    assert forall|j: int| 0 <= j < parts.deep_view().len() implies parts.deep_view()[j] != part@ by {
        assert(parts.deep_view()[j] == parts@[j]@);
    }
    false
}

fn projects<'a>(plans: &Vec<&'a PlanFileContent>) -> (r: Vec<&'a str>)
    ensures
        r.deep_view() == spec_projects(plans.deep_view()),
{
    let mut r: Vec<&'a str> = Vec::new();
    let mut i: usize = 0;
    let ghost all = plans.deep_view();
    assert(all.take(0) =~= seq![]);
    assert(r.deep_view() =~= seq![]);
    while i < plans.len()
        invariant
            i <= plans.len(),
            all == plans.deep_view(),
            r.deep_view() == spec_projects(all.take(i as int)),
        decreases plans.len() - i,
    {
        assert(all.take(i + 1).drop_last() =~= all.take(i as int));
        assert(all[i as int] == plans@[i as int]@);
        let name = project(plans[i].path.as_str());
        if !holds(&r, name) {
            let ghost before = r.deep_view();
            r.push(name);
            assert(r.deep_view() =~= before.push(name@));
        }
        i = i + 1;
    }
    assert(all.take(all.len() as int) =~= all);
    r
}

fn project_lines(plans: &Vec<&PlanFileContent>, name: &str) -> (r: Vec<String>)
    ensures
        r.deep_view() == spec_project_lines(plans.deep_view(), name@),
{
    let mut r: Vec<String> = Vec::new();
    let mut i: usize = 0;
    let ghost all = plans.deep_view();
    assert(all.take(0) =~= seq![]);
    assert(r.deep_view() =~= seq![]);
    while i < plans.len()
        invariant
            i <= plans.len(),
            all == plans.deep_view(),
            r.deep_view() == spec_project_lines(all.take(i as int), name@),
        decreases plans.len() - i,
    {
        assert(all.take(i + 1).drop_last() =~= all.take(i as int));
        assert(all[i as int] == plans@[i as int]@);
        if text::str_eq(project(plans[i].path.as_str()), name) {
            let line = plan_line(plans[i]);
            let ghost before = r.deep_view();
            r.push(line);
            assert(r.deep_view() =~= before.push(line@));
        }
        i = i + 1;
    }
    assert(all.take(all.len() as int) =~= all);
    r
}

/// Adds copies of `more` at the end of `parts`.
fn extend(parts: &mut Vec<String>, more: &Vec<String>)
    ensures
        final(parts).deep_view() == old(parts).deep_view() + more.deep_view(),
{
    let mut i: usize = 0;
    let ghost start = parts.deep_view();
    assert(start + more.deep_view().take(0) =~= start);
    while i < more.len()
        invariant
            i <= more.len(),
            parts.deep_view() == start + more.deep_view().take(i as int),
        decreases more.len() - i,
    {
        let ghost before = parts.deep_view();
        parts.push(more[i].clone());
        assert(parts.deep_view() =~= before.push(more@[i as int]@));
        assert(more.deep_view()[i as int] == more@[i as int]@);
        assert(before.push(more@[i as int]@) =~= start + more.deep_view().take(i + 1));
        i = i + 1;
    }
    assert(more.deep_view().take(more@.len() as int) =~= more.deep_view());
}

/// Lists the plans of `files` that have actionable tasks left, by project.
pub fn plan_landscape(files: &Vec<PlanFileContent>) -> (r: Option<String>)
    ensures
        r.deep_view() == spec_landscape(files.deep_view()),
{
    let plans = remaining(files);
    if plans.len() == 0 {
        return None;
    }
    let names = projects(&plans);
    let mut lines: Vec<String> = Vec::new();
    let mut i: usize = 0;
    let ghost all = plans.deep_view();
    let ghost order = names.deep_view();
    assert(order.take(0) =~= seq![]);
    assert(lines.deep_view() =~= seq![]);
    while i < names.len()
        invariant
            i <= names.len(),
            all == plans.deep_view(),
            order == names.deep_view(),
            lines.deep_view() == spec_groups(all, order.take(i as int)),
        decreases names.len() - i,
    {
        assert(order.take(i + 1).drop_last() =~= order.take(i as int));
        assert(order[i as int] == names@[i as int]@);
        let own = project_lines(&plans, names[i]);
        let mut heading = text::owned("**");
        heading.append(names[i]);
        heading.append("** (");
        heading.append(numbers::decimal_usize(own.len()).as_str());
        heading.append(" plan(s)):");
        let ghost start = lines.deep_view();
        lines.push(heading);
        assert(lines.deep_view() =~= start.push(heading@));
        extend(&mut lines, &own);
        assert(lines.deep_view() =~= start + spec_project_group(all, names@[i as int]@));
        i = i + 1;
    }
    assert(order.take(order.len() as int) =~= order);
    Some(segments::join_strings(&lines, "\n"))
}

/// Lists the remaining plans of a serialized context, by project. `None` where
/// the context cannot be read or no plan has actionable tasks left.
pub fn build_plan_landscape(context_json: &str) -> (r: Option<String>)
    ensures
        r.deep_view() == spec_context_landscape(context_json@),
{
    match read_context_plan_files(context_json, true) {
        Some(files) => plan_landscape(&files),
        None => None,
    }
}

// ---------------------------------------------------------------------------
// Laws
// ---------------------------------------------------------------------------

proof fn lemma_remaining(files: Seq<PlanFileView>)
    ensures
        forall|i: int|
            0 <= i < files.len() && tasks::spec_actionable_tasks(#[trigger] files[i].content) > 0
                ==> context::spec_remaining_plans(files).contains(files[i]),
        forall|i: int|
            0 <= i < context::spec_remaining_plans(files).len() ==> tasks::spec_actionable_tasks(
                #[trigger] context::spec_remaining_plans(files)[i].content,
            ) > 0,
        context::spec_remaining_plans(files).len() > 0 ==> exists|i: int|
            0 <= i < files.len() && tasks::spec_actionable_tasks(#[trigger] files[i].content) > 0,
    decreases files.len(),
{
    reveal(Seq::filter);
    if files.len() > 0 {
        let front = files.drop_last();
        lemma_remaining(front);
        let r = context::spec_remaining_plans(files);
        let inner = context::spec_remaining_plans(front);
        assert forall|i: int|
            0 <= i < files.len() && tasks::spec_actionable_tasks(
                #[trigger] files[i].content,
            ) > 0 implies r.contains(files[i]) by {
            if i == files.len() - 1 {
                assert(r[r.len() - 1] == files[i]);
            } else {
                assert(front[i] == files[i]);
                assert(inner.contains(front[i]));
                let m = inner.index_of(files[i]);
                assert(r[m] == files[i]);
            }
        }
        assert forall|i: int| 0 <= i < r.len() implies tasks::spec_actionable_tasks(
            #[trigger] r[i].content,
        ) > 0 by {
            if i < inner.len() {
                assert(r[i] == inner[i]);
            }
        }
        if r.len() > 0 {
            if tasks::spec_actionable_tasks(files.last().content) > 0 {
                assert(tasks::spec_actionable_tasks(files[files.len() - 1].content) > 0);
            } else {
                let i = choose|i: int|
                    0 <= i < front.len() && tasks::spec_actionable_tasks(
                        #[trigger] front[i].content,
                    ) > 0;
                assert(files[i] == front[i]);
            }
        }
    }
}

proof fn lemma_projects_hold(plans: Seq<PlanFileView>, k: int)
    requires
        0 <= k < plans.len(),
    ensures
        spec_projects(plans).contains(spec_project(plans[k].path)),
        spec_project_lines(plans, spec_project(plans[k].path)).contains(spec_plan_line(plans[k])),
    decreases plans.len(),
{
    let name = spec_project(plans[k].path);
    let front = plans.drop_last();
    let all = spec_projects(plans);
    let lines = spec_project_lines(plans, name);
    if k == plans.len() - 1 {
        if !spec_projects(front).contains(name) {
            assert(all[all.len() - 1] == name);
        }
        assert(lines[lines.len() - 1] == spec_plan_line(plans[k]));
    } else {
        lemma_projects_hold(front, k);
        let m = spec_projects(front).index_of(name);
        assert(all[m] == name);
        let n = spec_project_lines(front, name).index_of(spec_plan_line(plans[k]));
        assert(lines[n] == spec_plan_line(plans[k]));
    }
}

proof fn lemma_groups_hold(
    plans: Seq<PlanFileView>,
    projects: Seq<Seq<char>>,
    name: Seq<char>,
    line: Seq<char>,
)
    requires
        projects.contains(name),
        spec_project_lines(plans, name).contains(line),
    ensures
        spec_groups(plans, projects).contains(line),
    decreases projects.len(),
{
    let before = spec_groups(plans, projects.drop_last());
    let group = spec_project_group(plans, projects.last());
    let all = before + group;
    if projects.last() == name {
        let n = spec_project_lines(plans, name).index_of(line);
        assert(group[n + 1] == line);
        assert(all[before.len() + n + 1] == line);
    } else {
        let m = projects.index_of(name);
        assert(projects.drop_last()[m] == name);
        lemma_groups_hold(plans, projects.drop_last(), name, line);
        let n = before.index_of(line);
        assert(all[n] == line);
    }
}

/// There is nothing to list exactly where no plan has actionable tasks left.
pub proof fn law_no_landscape_without_tasks(files: Seq<PlanFileView>)
    ensures
        spec_landscape(files) is None <==> forall|i: int|
            0 <= i < files.len() ==> tasks::spec_actionable_tasks(#[trigger] files[i].content) == 0,
{
    lemma_remaining(files);
    if spec_landscape(files) is None {
        assert forall|i: int| 0 <= i < files.len() implies tasks::spec_actionable_tasks(
            #[trigger] files[i].content,
        ) == 0 by {
            if tasks::spec_actionable_tasks(files[i].content) > 0 {
                assert(context::spec_remaining_plans(files).contains(files[i]));
            }
        }
    }
}

/// Every plan with actionable tasks left is listed, with their number and its title.
pub proof fn law_landscape_lists_every_remaining_plan(files: Seq<PlanFileView>, i: int)
    requires
        0 <= i < files.len(),
        tasks::spec_actionable_tasks(files[i].content) > 0,
    ensures
        spec_landscape(files) is Some,
        text::spec_contains(spec_landscape(files)->Some_0, spec_plan_line(files[i])),
{
    lemma_remaining(files);
    let plans = context::spec_remaining_plans(files);
    assert(plans.contains(files[i]));
    let k = plans.index_of(files[i]);
    lemma_projects_hold(plans, k);
    let name = spec_project(plans[k].path);
    let line = spec_plan_line(plans[k]);
    lemma_groups_hold(plans, spec_projects(plans), name, line);
    let lines = spec_groups(plans, spec_projects(plans));
    let n = lines.index_of(line);
    segments::lemma_join_holds_part(lines, "\n"@, n);
}

proof fn lemma_projects_are_distinct(plans: Seq<PlanFileView>)
    ensures
        spec_projects(plans).no_duplicates(),
        forall|p: Seq<char>| #[trigger] spec_projects(plans).contains(p) ==> spec_project_lines(plans, p).len() > 0,
        forall|p: Seq<char>|
            !(#[trigger] spec_projects(plans).contains(p)) ==> spec_project_lines(plans, p).len() == 0,
    decreases plans.len(),
{
    if plans.len() > 0 {
        let front = plans.drop_last();
        let before = spec_projects(front);
        let name = spec_project(plans.last().path);
        lemma_projects_are_distinct(front);
        let all = spec_projects(plans);
        assert forall|p: Seq<char>| #[trigger] all.contains(p) implies spec_project_lines(plans, p).len()
            > 0 by {
            if p != name {
                let k = all.index_of(p);
                assert(before[k] == p);
                assert(before.contains(p));
            }
        }
        assert forall|p: Seq<char>| !(#[trigger] all.contains(p)) implies spec_project_lines(
            plans,
            p,
        ).len() == 0 by {
            if before.contains(p) {
                let k = before.index_of(p);
                assert(all[k] == p);
            }
            if p == name {
                assert(all[all.len() - 1] == p || before.contains(p));
            }
        }
    }
}

proof fn lemma_groups_with_one_more_plan(
    plans: Seq<PlanFileView>,
    plan: PlanFileView,
    projects: Seq<Seq<char>>,
)
    requires
        projects.no_duplicates(),
    ensures
        spec_groups(plans.push(plan), projects).len() == spec_groups(plans, projects).len()
            + if projects.contains(spec_project(plan.path)) {
            1int
        } else {
            0
        },
    decreases projects.len(),
{
    if projects.len() > 0 {
        let front = projects.drop_last();
        let name = spec_project(plan.path);
        lemma_groups_with_one_more_plan(plans, plan, front);
        assert(plans.push(plan).drop_last() =~= plans);
        if projects.last() == name {
            assert(!front.contains(name)) by {
                if front.contains(name) {
                    let k = front.index_of(name);
                    assert(projects[k] == projects[projects.len() - 1]);
                }
            }
            assert(projects.contains(name)) by {
                assert(projects[projects.len() - 1] == name);
            }
        } else {
            assert(projects.contains(name) == front.contains(name)) by {
                if projects.contains(name) {
                    let k = projects.index_of(name);
                    assert(front[k] == name);
                }
                if front.contains(name) {
                    let k = front.index_of(name);
                    assert(projects[k] == name);
                }
            }
        }
    }
}

proof fn lemma_group_count(plans: Seq<PlanFileView>)
    ensures
        spec_groups(plans, spec_projects(plans)).len() == plans.len() + spec_projects(plans).len(),
    decreases plans.len(),
{
    if plans.len() > 0 {
        let front = plans.drop_last();
        let plan = plans.last();
        let before = spec_projects(front);
        let name = spec_project(plan.path);
        assert(plans =~= front.push(plan));
        lemma_group_count(front);
        lemma_projects_are_distinct(front);
        lemma_groups_with_one_more_plan(front, plan, before);
        if !before.contains(name) {
            assert(spec_projects(plans).drop_last() =~= before);
            assert(spec_project_lines(plans, name).len() == 1);
        }
    }
}

/// Nothing else is listed: the list has one line for each plan with tasks left
/// and one heading for each of their projects.
pub proof fn law_landscape_lists_nothing_else(files: Seq<PlanFileView>)
    ensures
        ({
            let plans = context::spec_remaining_plans(files);
            &&& spec_groups(plans, spec_projects(plans)).len() == plans.len()
                + spec_projects(plans).len()
            &&& spec_projects(plans).no_duplicates()
        }),
{
    lemma_group_count(context::spec_remaining_plans(files));
    lemma_projects_are_distinct(context::spec_remaining_plans(files));
}

/// The directory of a plan is the last but one part of its path; a bare file
/// name is taken to stand in `.plans`.
pub proof fn law_plan_directory_is_the_last_but_one_part(parts: Seq<Seq<char>>)
    requires
        parts.len() > 0,
        forall|k: int| 0 <= k < parts.len() ==> !(#[trigger] parts[k]).contains('/'),
    ensures
        spec_plan_dir(segments::spec_join(parts, seq!['/'])) == if parts.len() > 1 {
            parts[parts.len() - 2]
        } else {
            ".plans"@
        },
{
    reveal_strlit("/");
    assert("/"@ =~= seq!['/']);
    segments::law_parts_are_split_at_a_character(parts, '/');
}

proof fn lemma_plain_components(parts: Seq<Seq<char>>)
    requires
        forall|k: int|
            0 <= k < parts.len() ==> (#[trigger] parts[k]).len() > 0 && (k > 0 ==> parts[k]
                != "."@),
    ensures
        spec_components(parts) == parts,
    decreases parts.len(),
{
    if parts.len() > 0 {
        let front = parts.drop_last();
        assert forall|k: int| 0 <= k < front.len() implies (#[trigger] front[k]).len() > 0 && (k > 0
            ==> front[k] != "."@) by {
            assert(front[k] == parts[k]);
        }
        lemma_plain_components(front);
        let last = parts[parts.len() - 1];
        assert(last.len() > 0);
        assert(spec_components(parts) =~= parts);
    } else {
        assert(spec_components(parts) =~= parts);
    }
}

/// The project of a plan is the directory above the plan's own: the last but two
/// part of its path, where the path has as many and that part names a directory.
pub proof fn law_project_is_the_directory_above_the_plans(parts: Seq<Seq<char>>)
    requires
        parts.len() > 0,
        forall|k: int| 0 <= k < parts.len() ==> !(#[trigger] parts[k]).contains('/'),
        forall|k: int|
            0 <= k < parts.len() ==> (#[trigger] parts[k]).len() > 0 && (k > 0 ==> parts[k]
                != "."@),
    ensures
        ({
            let path = segments::spec_join(parts, seq!['/']);
            let n = parts.len();
            &&& n < 3 ==> spec_project(path) == "unknown"@
            &&& n >= 3 && (parts[n - 3] == "."@ || parts[n - 3] == ".."@) ==> spec_project(path)
                == "unknown"@
            &&& n >= 3 && parts[n - 3] != "."@ && parts[n - 3] != ".."@ ==> spec_project(path)
                == parts[n - 3]
        }),
{
    reveal_strlit("/");
    assert("/"@ =~= seq!['/']);
    segments::law_parts_are_split_at_a_character(parts, '/');
    lemma_plain_components(parts);
}

/// Empty parts of a path, and a dot behind its first part, do not count.
pub proof fn law_empty_parts_do_not_count(pieces: Seq<Seq<char>>, piece: Seq<char>)
    ensures
        piece.len() == 0 ==> spec_components(pieces.push(piece)) == spec_components(pieces),
        piece == "."@ && pieces.len() > 0 ==> spec_components(pieces.push(piece))
            == spec_components(pieces),
        piece.len() > 0 && piece != "."@ ==> spec_components(pieces.push(piece)) == spec_components(
            pieces,
        ).push(piece),
{
    assert(pieces.push(piece).drop_last() =~= pieces);
}

/// The line of a plan shows its directory, its file name, the number of its
/// tasks and its title.
pub proof fn law_plan_line_shows_where_and_how_much(
    file: PlanFileView,
    dirs: Seq<Seq<char>>,
    name: Seq<char>,
)
    requires
        dirs.len() > 0,
        file.path == segments::spec_join(dirs.push(name), seq!['/']),
        forall|k: int| 0 <= k < dirs.len() ==> !(#[trigger] dirs[k]).contains('/'),
        !name.contains('/'),
    ensures
        spec_plan_line(file) == "  - `"@ + dirs.last() + "/"@ + name + "` — "@
            + numbers::spec_decimal(tasks::spec_actionable_tasks(file.content)) + " task(s): "@
            + tasks::spec_title_of(segments::spec_lines(file.content)),
{
    let parts = dirs.push(name);
    assert forall|k: int| 0 <= k < parts.len() implies !(#[trigger] parts[k]).contains('/') by {
        if k < dirs.len() {
            assert(parts[k] == dirs[k]);
        }
    }
    law_plan_directory_is_the_last_but_one_part(parts);
    context::law_file_name_is_the_last_part(parts);
    assert(parts[parts.len() - 2] == dirs.last());
}

/// Each project is listed once, where its first plan stands.
pub proof fn law_projects_are_listed_once(plans: Seq<PlanFileView>, plan: PlanFileView)
    ensures
        spec_projects(seq![]) == Seq::<Seq<char>>::empty(),
        spec_projects(plans.push(plan)) == if spec_projects(plans).contains(
            spec_project(plan.path),
        ) {
            spec_projects(plans)
        } else {
            spec_projects(plans).push(spec_project(plan.path))
        },
        spec_projects(plans).no_duplicates(),
        forall|i: int|
            0 <= i < plans.len() ==> spec_projects(plans).contains(
                spec_project((#[trigger] plans[i]).path),
            ),
    decreases plans.len(),
{
    assert(plans.push(plan).drop_last() =~= plans);
    if plans.len() > 0 {
        let front = plans.drop_last();
        law_projects_are_listed_once(front, plan);
        let before = spec_projects(front);
        let project = spec_project(plans.last().path);
        let after = spec_projects(plans);
        assert forall|p: Seq<char>| before.contains(p) implies after.contains(p) by {
            let k = choose|k: int| 0 <= k < before.len() && before[k] == p;
            assert(after[k] == p);
        }
        assert(after.contains(project)) by {
            if !before.contains(project) {
                assert(after[before.len() as int] == project);
            }
        }
        assert forall|i: int| 0 <= i < plans.len() implies after.contains(
            spec_project((#[trigger] plans[i]).path),
        ) by {
            if i < front.len() {
                assert(plans[i] == front[i]);
            }
        }
    }
}

/// A project's lines are those of its plans, in their order.
pub proof fn law_project_lines_are_those_of_its_plans(
    plans: Seq<PlanFileView>,
    plan: PlanFileView,
    project: Seq<char>,
)
    ensures
        spec_project_lines(seq![], project) == Seq::<Seq<char>>::empty(),
        spec_project_lines(plans.push(plan), project) == if spec_project(plan.path) == project {
            spec_project_lines(plans, project).push(spec_plan_line(plan))
        } else {
            spec_project_lines(plans, project)
        },
{
    assert(plans.push(plan).drop_last() =~= plans);
}

/// Under its own heading, which counts them, each project has its lines; the
/// projects follow one another in the order of the list.
pub proof fn law_groups_follow_their_headings(
    plans: Seq<PlanFileView>,
    projects: Seq<Seq<char>>,
    project: Seq<char>,
)
    ensures
        spec_groups(plans, seq![]) == Seq::<Seq<char>>::empty(),
        ({
            let lines = spec_project_lines(plans, project);
            spec_groups(plans, projects.push(project)) == spec_groups(plans, projects).push(
                "**"@ + project + "** ("@ + numbers::spec_decimal(lines.len()) + " plan(s)):"@,
            ) + lines
        }),
{
    assert(projects.push(project).drop_last() =~= projects);
    let lines = spec_project_lines(plans, project);
    let heading = "**"@ + project + "** ("@ + numbers::spec_decimal(lines.len()) + " plan(s)):"@;
    assert(spec_groups(plans, projects) + (seq![heading] + lines) =~= spec_groups(
        plans,
        projects,
    ).push(heading) + lines);
}

/// The landscape shows the remaining plans by project, one line each.
pub proof fn law_landscape_is_made_of_groups(files: Seq<PlanFileView>)
    requires
        context::spec_remaining_plans(files).len() > 0,
    ensures
        ({
            let plans = context::spec_remaining_plans(files);
            spec_landscape(files) == Some(
                segments::spec_join(spec_groups(plans, spec_projects(plans)), seq!['\n']),
            )
        }),
{
    reveal_strlit("\n");
    assert("\n"@ =~= seq!['\n']);
}

/// A list of plan files is read exactly where each of them is, each at its place.
pub proof fn law_plan_files_are_read_one_by_one(elements: Seq<Seq<char>>)
    ensures
        spec_each_plan_file(elements) is Some <==> (forall|i: int|
            0 <= i < elements.len() ==> spec_plan_file(#[trigger] elements[i]) is Some),
        spec_each_plan_file(elements) matches Some(files) ==> {
            &&& files.len() == elements.len()
            &&& forall|i: int|
                0 <= i < elements.len() ==> Some(#[trigger] files[i]) == spec_plan_file(elements[i])
        },
    decreases elements.len(),
{
    if elements.len() > 0 {
        let front = elements.drop_last();
        law_plan_files_are_read_one_by_one(front);
        if spec_each_plan_file(elements) is Some {
            assert forall|i: int| 0 <= i < elements.len() implies spec_plan_file(
                #[trigger] elements[i],
            ) is Some by {
                if i < front.len() {
                    assert(elements[i] == front[i]);
                }
            }
        }
        if forall|i: int|
            0 <= i < elements.len() ==> spec_plan_file(#[trigger] elements[i]) is Some {
            assert forall|i: int| 0 <= i < front.len() implies spec_plan_file(
                #[trigger] front[i],
            ) is Some by {
                assert(elements[i] == front[i]);
            }
            assert(spec_plan_file(elements[elements.len() - 1]) is Some);
        }
    }
}

/// A plan file is an object with one path and one content, or a pair of the two;
/// both have to be strings.
pub proof fn law_plan_file_has_one_path_and_one_content(element: Seq<char>)
    ensures
        ({
            let file = spec_plan_file(element);
            match json::spec_members(element) {
                Some(members) => {
                    let path = json::spec_member(members, "path"@);
                    let content = json::spec_member(members, "content"@);
                    &&& json::spec_count(members, "path"@) > 1 ==> file is None
                    &&& json::spec_count(members, "content"@) > 1 ==> file is None
                    &&& path is None || content is None ==> file is None
                    &&& file matches Some(f) ==> Some(f.path) == json::json_string(path->Some_0)
                        && Some(f.content) == json::json_string(content->Some_0)
                    &&& json::spec_count(members, "path"@) <= 1 && json::spec_count(
                        members,
                        "content"@,
                    ) <= 1 && path is Some && content is Some && json::json_string(
                        path->Some_0,
                    ) is Some && json::json_string(content->Some_0) is Some ==> file is Some
                },
                None => match json::json_array(element) {
                    Some(fields) => {
                        &&& fields.len() != 2 ==> file is None
                        &&& fields.len() == 2 ==> (file is Some <==> json::json_string(
                            fields[0],
                        ) is Some && json::json_string(fields[1]) is Some)
                        &&& file matches Some(f) ==> Some(f.path) == json::json_string(fields[0])
                            && Some(f.content) == json::json_string(fields[1])
                    },
                    None => file is None,
                },
            }
        }),
{
}

/// The plan files of a context are those under its key; where the key is absent
/// there are none, which is an error only where they are required. A key that is
/// there twice is an error.
pub proof fn law_plan_files_stand_under_their_key(context_json: Seq<char>, required: bool)
    ensures
        json::spec_members(context_json) matches Some(members) ==> {
            let files = spec_plan_files(context_json, required);
            &&& json::spec_count(members, "plan_files"@) > 1 ==> files is None
            &&& json::spec_count(members, "plan_files"@) <= 1 && json::spec_member(
                members,
                "plan_files"@,
            ) is None ==> files == if required {
                None
            } else {
                Some(Seq::<PlanFileView>::empty())
            }
            &&& json::spec_count(members, "plan_files"@) <= 1 ==> (json::spec_member(
                members,
                "plan_files"@,
            ) matches Some(value) ==> match json::json_array(value) {
                Some(elements) => files == spec_each_plan_file(elements),
                None => files is None,
            })
        },
{
}

/// A context may also be a list, whose only field is the list of plan files.
pub proof fn law_context_may_be_a_list(
    context_json: Seq<char>,
    fields: Seq<Seq<char>>,
    required: bool,
)
    requires
        json::spec_members(context_json) is None,
        json::json_array(context_json) == Some(fields),
    ensures
        ({
            let files = spec_plan_files(context_json, required);
            &&& fields.len() == 0 ==> files == if required {
                None
            } else {
                Some(Seq::<PlanFileView>::empty())
            }
            &&& fields.len() == 1 ==> match json::json_array(fields[0]) {
                Some(elements) => files == spec_each_plan_file(elements),
                None => files is None,
            }
            &&& fields.len() > 1 ==> files is None
        }),
{
}

/// The landscape of a context is that of its plan files, which have to be there.
pub proof fn law_context_landscape_is_that_of_its_files(context_json: Seq<char>)
    ensures
        match spec_plan_files(context_json, true) {
            Some(files) => spec_context_landscape(context_json) == spec_landscape(files),
            None => spec_context_landscape(context_json) is None,
        },
{
}

} // verus!
