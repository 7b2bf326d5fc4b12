//! Which plan files go into a context, and in what order.

use vstd::prelude::*;
use crate::context::{PlanFileContent, PlanFileView};
use crate::segments;
use crate::tasks;
use crate::text;

verus! {

/// The largest plan or documentation file, in bytes, that is read.
pub const MAX_FILE_BYTES: u64 = 100_000;

/// Whether a file of this size is read.
pub fn is_readable_size(bytes: u64) -> (r: bool)
    ensures
        r == (bytes <= 100_000),
{
    bytes <= MAX_FILE_BYTES
}

/// Where a file URL in running text ends: before the first `)`, space or line
/// feed at or after `i`.
pub open spec fn spec_url_end(s: Seq<char>, i: int) -> int
    decreases s.len() - i,
{
    if i >= s.len() || s[i] == ')' || s[i] == ' ' || s[i] == '\n' {
        i
    } else {
        spec_url_end(s, i + 1)
    }
}

/// The part of a path before its plan directory.
pub open spec fn spec_before_plan_dir(path: Seq<char>) -> Option<Seq<char>> {
    match text::spec_find(path, "/.plans/"@) {
        Some(i) => Some(path.take(i)),
        None => match text::spec_find(path, "/.plan/"@) {
            Some(i) => Some(path.take(i)),
            None => None,
        },
    }
}

/// The project that a message refers to: the directory above the plan
/// directory in the first file URL of the message.
pub open spec fn spec_active_project(message: Seq<char>) -> Option<Seq<char>> {
    match text::spec_find(message, "file:///"@) {
        Some(i) => {
            let path = message.skip(i + 7);
            spec_before_plan_dir(path.take(spec_url_end(path, 0)))
        },
        None => None,
    }
}

fn url_end(s: &str) -> (n: usize)
    ensures
        n == spec_url_end(s@, 0),
        n <= s@.len(),
{
    let cs = text::chars_of(s);
    let mut i: usize = 0;
    while i < cs.len() && cs[i] != ')' && cs[i] != ' ' && cs[i] != '\n'
        invariant
            cs@ == s@,
            i <= cs.len(),
            spec_url_end(s@, 0) == spec_url_end(s@, i as int),
        decreases cs.len() - i,
    {
        i = i + 1;
    }
    i
}

fn before_plan_dir(path: &str) -> (r: Option<&str>)
    ensures
        r.deep_view() == spec_before_plan_dir(path@),
{
    if let Some(i) = text::find(path, "/.plans/") {
        return Some(text::take(path, i));
    }
    if let Some(i) = text::find(path, "/.plan/") {
        return Some(text::take(path, i));
    }
    None
}

/// The project that a message refers to, from the first file URL in it.
pub fn active_project(message: &str) -> (r: Option<&str>)
    ensures
        r.deep_view() == spec_active_project(message@),
{
    proof {
        reveal_strlit("file:///");
    }
    match text::find(message, "file:///") {
        Some(i) => {
            let length: usize = message.unicode_len();
            assert(i + 8 <= length);
            let path = text::skip(message, i + 7);
            let end: usize = url_end(path);
            before_plan_dir(text::take(path, end))
        },
        None => None,
    }
}

/// `a` comes before `b` or equals it, in the order of their characters. This
/// is also the order of their bytes.
pub open spec fn spec_text_le(a: Seq<char>, b: Seq<char>) -> bool
    decreases a.len(),
{
    if a.len() == 0 {
        true
    } else if b.len() == 0 {
        false
    } else if a[0] != b[0] {
        a[0] < b[0]
    } else {
        spec_text_le(a.skip(1), b.skip(1))
    }
}

fn text_le(a: &str, b: &str) -> (r: bool)
    ensures
        r == spec_text_le(a@, b@),
{
    let ac = text::chars_of(a);
    let bc = text::chars_of(b);
    let mut i: usize = 0;
    assert(a@.skip(0) =~= a@);
    assert(b@.skip(0) =~= b@);
    while i < ac.len() && i < bc.len()
        invariant
            ac@ == a@,
            bc@ == b@,
            i <= ac.len(),
            i <= bc.len(),
            spec_text_le(a@, b@) == spec_text_le(a@.skip(i as int), b@.skip(i as int)),
        decreases ac.len() - i,
    {
        assert(a@.skip(i as int)[0] == a@[i as int]);
        assert(b@.skip(i as int)[0] == b@[i as int]);
        if ac[i] != bc[i] {
            return ac[i] < bc[i];
        }
        assert(a@.skip(i as int).skip(1) =~= a@.skip(i + 1));
        assert(b@.skip(i as int).skip(1) =~= b@.skip(i + 1));
        i = i + 1;
    }
    i == ac.len()
}

/// The plan belongs to the active project.
pub open spec fn spec_is_active(path: Seq<char>, active: Seq<char>) -> bool {
    text::spec_starts_with(path, active)
}

/// The order of plans: those of the active project first, each part by path.
pub open spec fn spec_plan_le(a: PlanFileView, b: PlanFileView, active: Seq<char>) -> bool {
    if spec_is_active(a.path, active) != spec_is_active(b.path, active) {
        spec_is_active(a.path, active)
    } else {
        spec_text_le(a.path, b.path)
    }
}

/// `plans` with `plan` put behind the plans that do not come after it.
pub open spec fn spec_insert(plans: Seq<PlanFileView>, plan: PlanFileView, active: Seq<char>) -> Seq<
    PlanFileView,
>
    decreases plans.len(),
{
    if plans.len() == 0 || spec_plan_le(plans.last(), plan, active) {
        plans.push(plan)
    } else {
        spec_insert(plans.drop_last(), plan, active).push(plans.last())
    }
}

/// `plans` in order; plans with equal paths keep their places among each other.
pub open spec fn spec_sorted(plans: Seq<PlanFileView>, active: Seq<char>) -> Seq<PlanFileView>
    decreases plans.len(),
{
    if plans.len() == 0 {
        seq![]
    } else {
        spec_insert(spec_sorted(plans.drop_last(), active), plans.last(), active)
    }
}

/// The plan is kept: it belongs to the active project or has tasks left.
pub open spec fn spec_is_kept(plan: PlanFileView, active: Seq<char>) -> bool {
    spec_is_active(plan.path, active) || tasks::spec_actionable_tasks(plan.content) > 0
}

/// The plans that go into the context. With an active project, its plans come
/// first and only incomplete plans of other projects are kept.
pub open spec fn spec_selected(plans: Seq<PlanFileView>, message: Option<Seq<char>>) -> Seq<
    PlanFileView,
> {
    match message {
        Some(message) => match spec_active_project(message) {
            Some(active) => spec_sorted(plans, active).filter(
                |p: PlanFileView| spec_is_kept(p, active),
            ),
            None => plans,
        },
        None => plans,
    }
}

impl PlanFileContent {
    /// A copy of this plan file.
    pub fn copied(&self) -> (r: PlanFileContent)
        ensures
            r@ == self@,
    {
        PlanFileContent { path: self.path.clone(), content: self.content.clone() }
    }
}

fn plan_le(a: &PlanFileContent, b: &PlanFileContent, active: &str) -> (r: bool)
    ensures
        r == spec_plan_le(a@, b@, active@),
{
    let a_active = text::starts_with(a.path.as_str(), active);
    let b_active = text::starts_with(b.path.as_str(), active);
    if a_active != b_active {
        a_active
    } else {
        text_le(a.path.as_str(), b.path.as_str())
    }
}

proof fn lemma_insert_at(plans: Seq<PlanFileView>, plan: PlanFileView, active: Seq<char>, k: int)
    requires
        0 <= k <= plans.len(),
        k > 0 ==> spec_plan_le(plans[k - 1], plan, active),
        forall|j: int| k <= j < plans.len() ==> !spec_plan_le(#[trigger] plans[j], plan, active),
    ensures
        spec_insert(plans, plan, active) == plans.insert(k, plan),
    decreases plans.len(),
{
    if plans.len() == k {
        assert(plans.insert(k, plan) =~= plans.push(plan));
    } else {
        lemma_insert_at(plans.drop_last(), plan, active, k);
        assert(plans.drop_last().insert(k, plan).push(plans.last()) =~= plans.insert(k, plan));
    }
}

fn insert_in_order(plans: &mut Vec<PlanFileContent>, plan: PlanFileContent, active: &str)
    ensures
        final(plans).deep_view() == spec_insert(old(plans).deep_view(), plan@, active@),
{
    let ghost before = plans.deep_view();
    let mut k: usize = plans.len();
    while k > 0 && !plan_le(&plans[k - 1], &plan, active)
        invariant
            k <= plans.len(),
            before == plans.deep_view(),
            forall|j: int|
                k <= j < before.len() ==> !spec_plan_le(#[trigger] before[j], plan@, active@),
        decreases k,
    {
        assert(before[k - 1] == plans@[k - 1]@);
        k = k - 1;
    }
    proof {
        if k > 0 {
            assert(before[k - 1] == plans@[k - 1]@);
        }
        lemma_insert_at(before, plan@, active@, k as int);
    }
    plans.insert(k, plan);
    assert(plans.deep_view() =~= before.insert(k as int, plan@));
}

fn sorted(plans: &Vec<PlanFileContent>, active: &str) -> (r: Vec<PlanFileContent>)
    ensures
        r.deep_view() == spec_sorted(plans.deep_view(), active@),
{
    let mut r: Vec<PlanFileContent> = Vec::new();
    let mut i: usize = 0;
    let ghost all = plans.deep_view();
    assert(all.take(0) =~= seq![]);
    assert(r.deep_view() =~= seq![]);
    while i < plans.len()
        invariant
            i <= plans.len(),
            all == plans.deep_view(),
            r.deep_view() == spec_sorted(all.take(i as int), active@),
        decreases plans.len() - i,
    {
        assert(all.take(i + 1).drop_last() =~= all.take(i as int));
        assert(all[i as int] == plans@[i as int]@);
        insert_in_order(&mut r, plans[i].copied(), active);
        i = i + 1;
    }
    assert(all.take(all.len() as int) =~= all);
    r
}

fn kept(plans: &Vec<PlanFileContent>, active: &str) -> (r: Vec<PlanFileContent>)
    ensures
        r.deep_view() == plans.deep_view().filter(|p: PlanFileView| spec_is_kept(p, active@)),
{
    let mut r: Vec<PlanFileContent> = Vec::new();
    let mut i: usize = 0;
    let ghost all = plans.deep_view();
    let ghost pred = |p: PlanFileView| spec_is_kept(p, active@);
    proof {
        reveal(Seq::filter);
        assert(all.take(0).filter(pred) =~= seq![]);
    }
    assert(r.deep_view() =~= seq![]);
    while i < plans.len()
        invariant
            i <= plans.len(),
            all == plans.deep_view(),
            pred == (|p: PlanFileView| spec_is_kept(p, active@)),
            r.deep_view() == all.take(i as int).filter(pred),
        decreases plans.len() - i,
    {
        proof {
            reveal(Seq::filter);
        }
        assert(all.take(i + 1).drop_last() =~= all.take(i as int));
        assert(all[i as int] == plans@[i as int]@);
        if text::starts_with(plans[i].path.as_str(), active) || tasks::has_unchecked_items(
            plans[i].content.as_str(),
        ) {
            let ghost before = r.deep_view();
            r.push(plans[i].copied());
            assert(r.deep_view() =~= before.push(all[i as int]));
        }
        i = i + 1;
    }
    assert(all.take(all.len() as int) =~= all);
    r
}

/// Orders and filters the plan files that were read, by the project that the
/// first user message refers to.
pub fn select_plan_files(plans: Vec<PlanFileContent>, first_user_message: Option<&str>) -> (r: Vec<
    PlanFileContent,
>)
    ensures
        r.deep_view() == spec_selected(plans.deep_view(), first_user_message.deep_view()),
{
    if let Some(message) = first_user_message {
        if let Some(active) = active_project(message) {
            let in_order = sorted(&plans, active);
            return kept(&in_order, active);
        }
    }
    plans
}

// ---------------------------------------------------------------------------
// Laws
// ---------------------------------------------------------------------------

proof fn lemma_text_le_total(a: Seq<char>, b: Seq<char>)
    ensures
        spec_text_le(a, b) || spec_text_le(b, a),
    decreases a.len(),
{
    if a.len() > 0 && b.len() > 0 && a[0] == b[0] {
        lemma_text_le_total(a.skip(1), b.skip(1));
    }
}

proof fn lemma_text_le_transitive(a: Seq<char>, b: Seq<char>, c: Seq<char>)
    requires
        spec_text_le(a, b),
        spec_text_le(b, c),
    ensures
        spec_text_le(a, c),
    decreases a.len(),
{
    if a.len() > 0 && a[0] == b[0] && b[0] == c[0] {
        lemma_text_le_transitive(a.skip(1), b.skip(1), c.skip(1));
    }
}

proof fn lemma_plan_le(a: PlanFileView, b: PlanFileView, c: PlanFileView, active: Seq<char>)
    ensures
        spec_plan_le(a, b, active) || spec_plan_le(b, a, active),
        spec_plan_le(a, b, active) && spec_plan_le(b, c, active) ==> spec_plan_le(a, c, active),
{
    lemma_text_le_total(a.path, b.path);
    if spec_text_le(a.path, b.path) && spec_text_le(b.path, c.path) {
        lemma_text_le_transitive(a.path, b.path, c.path);
    }
}

/// No plan comes after a plan that stands behind it.
pub open spec fn spec_in_order(plans: Seq<PlanFileView>, active: Seq<char>) -> bool {
    forall|i: int, j: int|
        0 <= i < j < plans.len() ==> spec_plan_le(#[trigger] plans[i], #[trigger] plans[j], active)
}

proof fn lemma_insert_in_order(plans: Seq<PlanFileView>, plan: PlanFileView, active: Seq<char>)
    requires
        spec_in_order(plans, active),
    ensures
        spec_in_order(spec_insert(plans, plan, active), active),
        spec_insert(plans, plan, active).to_multiset() == plans.to_multiset().insert(plan),
    decreases plans.len(),
{
    broadcast use vstd::seq_lib::group_to_multiset_ensures;

    let r = spec_insert(plans, plan, active);
    if plans.len() == 0 || spec_plan_le(plans.last(), plan, active) {
        assert forall|i: int, j: int| 0 <= i < j < r.len() implies spec_plan_le(
            #[trigger] r[i],
            #[trigger] r[j],
            active,
        ) by {
            if j == plans.len() && i < j - 1 {
                assert(spec_plan_le(plans[i], plans.last(), active));
                lemma_plan_le(plans[i], plans.last(), plan, active);
            }
        }
    } else {
        let front = plans.drop_last();
        let inner = spec_insert(front, plan, active);
        lemma_insert_in_order(front, plan, active);
        lemma_insert_members(front, plan, active);
        assert forall|i: int, j: int| 0 <= i < j < r.len() implies spec_plan_le(
            #[trigger] r[i],
            #[trigger] r[j],
            active,
        ) by {
            if j == inner.len() {
                assert(r[i] == inner[i]);
                if inner[i] == plan {
                    lemma_plan_le(plan, plans.last(), plan, active);
                } else {
                    let k = choose|k: int| 0 <= k < front.len() && front[k] == inner[i];
                    assert(spec_plan_le(plans[k], plans[plans.len() - 1], active));
                }
            } else {
                assert(r[i] == inner[i] && r[j] == inner[j]);
            }
        }
        assert(plans =~= front.push(plans.last()));
        assert(r.to_multiset() =~= plans.to_multiset().insert(plan));
    }
}

proof fn lemma_insert_members(plans: Seq<PlanFileView>, plan: PlanFileView, active: Seq<char>)
    ensures
        forall|i: int|
            0 <= i < spec_insert(plans, plan, active).len() ==> {
                let x = #[trigger] spec_insert(plans, plan, active)[i];
                x == plan || exists|k: int| 0 <= k < plans.len() && plans[k] == x
            },
    decreases plans.len(),
{
    let r = spec_insert(plans, plan, active);
    if plans.len() == 0 || spec_plan_le(plans.last(), plan, active) {
        assert forall|i: int| 0 <= i < r.len() implies {
            let x = #[trigger] r[i];
            x == plan || exists|k: int| 0 <= k < plans.len() && plans[k] == x
        } by {
            if i < plans.len() {
                assert(plans[i] == r[i]);
            }
        }
    } else {
        let front = plans.drop_last();
        lemma_insert_members(front, plan, active);
        assert forall|i: int| 0 <= i < r.len() implies {
            let x = #[trigger] r[i];
            x == plan || exists|k: int| 0 <= k < plans.len() && plans[k] == x
        } by {
            if i < r.len() - 1 {
                let x = spec_insert(front, plan, active)[i];
                assert(r[i] == x);
                if x != plan {
                    let k = choose|k: int| 0 <= k < front.len() && front[k] == x;
                    assert(plans[k] == x);
                }
            } else {
                assert(plans[plans.len() - 1] == r[i]);
            }
        }
    }
}

/// Sorting puts the plans in order and neither drops nor adds one.
pub proof fn law_sorting_orders_and_keeps_plans(plans: Seq<PlanFileView>, active: Seq<char>)
    ensures
        spec_in_order(spec_sorted(plans, active), active),
        spec_sorted(plans, active).to_multiset() == plans.to_multiset(),
    decreases plans.len(),
{
    broadcast use vstd::seq_lib::group_to_multiset_ensures;

    if plans.len() > 0 {
        law_sorting_orders_and_keeps_plans(plans.drop_last(), active);
        lemma_insert_in_order(spec_sorted(plans.drop_last(), active), plans.last(), active);
        assert(plans =~= plans.drop_last().push(plans.last()));
    } else {
        assert(spec_sorted(plans, active) =~= plans);
    }
}

proof fn lemma_filter_keeps_order(
    plans: Seq<PlanFileView>,
    active: Seq<char>,
    pred: spec_fn(PlanFileView) -> bool,
)
    requires
        spec_in_order(plans, active),
    ensures
        spec_in_order(plans.filter(pred), active),
        forall|i: int|
            0 <= i < plans.filter(pred).len() ==> {
                let x = #[trigger] plans.filter(pred)[i];
                pred(x) && exists|k: int| 0 <= k < plans.len() && plans[k] == x
            },
    decreases plans.len(),
{
    reveal(Seq::filter);
    if plans.len() > 0 {
        let front = plans.drop_last();
        lemma_filter_keeps_order(front, active, pred);
        let r = plans.filter(pred);
        let inner = front.filter(pred);
        assert forall|i: int| 0 <= i < r.len() implies {
            let x = #[trigger] r[i];
            pred(x) && exists|k: int| 0 <= k < plans.len() && plans[k] == x
        } by {
            if i < inner.len() {
                assert(r[i] == inner[i]);
                let k = choose|k: int| 0 <= k < front.len() && front[k] == inner[i];
                assert(plans[k] == r[i]);
            } else {
                assert(plans[plans.len() - 1] == r[i]);
            }
        }
        assert forall|i: int, j: int| 0 <= i < j < r.len() implies spec_plan_le(
            #[trigger] r[i],
            #[trigger] r[j],
            active,
        ) by {
            assert(r[i] == inner[i]);
            if j < inner.len() {
                assert(r[j] == inner[j]);
            } else {
                let k = choose|k: int| 0 <= k < front.len() && front[k] == inner[i];
                assert(spec_plan_le(plans[k], plans[plans.len() - 1], active));
            }
        }
    }
}

/// In the context, the plans of the active project stand before all others,
/// each part is ordered by path, and a plan of another project has actionable
/// tasks left.
pub proof fn law_active_plans_come_first(
    plans: Seq<PlanFileView>,
    message: Seq<char>,
    active: Seq<char>,
)
    requires
        spec_active_project(message) == Some(active),
    ensures
        spec_in_order(spec_selected(plans, Some(message)), active),
        forall|i: int|
            0 <= i < spec_selected(plans, Some(message)).len() ==> spec_is_kept(
                #[trigger] spec_selected(plans, Some(message))[i],
                active,
            ),
{
    law_sorting_orders_and_keeps_plans(plans, active);
    lemma_filter_keeps_order(
        spec_sorted(plans, active),
        active,
        |p: PlanFileView| spec_is_kept(p, active),
    );
}

/// Every plan that is to be kept reaches the context.
pub proof fn law_selection_drops_only_finished_plans(
    plans: Seq<PlanFileView>,
    message: Option<Seq<char>>,
    plan: PlanFileView,
)
    requires
        plans.contains(plan),
        forall|active: Seq<char>|
            message is Some && spec_active_project(message->Some_0) == Some(active)
                ==> #[trigger] spec_is_kept(plan, active),
    ensures
        spec_selected(plans, message).contains(plan),
{
    broadcast use vstd::seq_lib::group_to_multiset_ensures;

    if message is Some && spec_active_project(message->Some_0) is Some {
        let active = spec_active_project(message->Some_0)->Some_0;
        let pred = |p: PlanFileView| spec_is_kept(p, active);
        let all = spec_sorted(plans, active);
        law_sorting_orders_and_keeps_plans(plans, active);
        assert(plans.to_multiset().count(plan) > 0);
        assert(all.contains(plan));
        assert(spec_is_kept(plan, active));
        lemma_filter_contains(all, pred, plan);
    }
}

proof fn lemma_filter_contains(
    plans: Seq<PlanFileView>,
    pred: spec_fn(PlanFileView) -> bool,
    plan: PlanFileView,
)
    requires
        plans.contains(plan),
        pred(plan),
    ensures
        plans.filter(pred).contains(plan),
    decreases plans.len(),
{
    reveal(Seq::filter);
    let r = plans.filter(pred);
    if plans.last() == plan {
        assert(r[r.len() - 1] == plan);
    } else {
        let front = plans.drop_last();
        let k = plans.index_of(plan);
        assert(front[k] == plan);
        lemma_filter_contains(front, pred, plan);
        let inner = front.filter(pred);
        let m = inner.index_of(plan);
        assert(r[m] == plan);
    }
}

proof fn lemma_url_end(s: Seq<char>, i: int, k: int)
    requires
        0 <= i <= k <= s.len(),
        forall|j: int| i <= j < k ==> s[j] != ')' && s[j] != ' ' && s[j] != '\n',
        k < s.len() ==> s[k] == ')' || s[k] == ' ' || s[k] == '\n',
    ensures
        spec_url_end(s, i) == k,
    decreases k - i,
{
    if i < k {
        assert(s[i] != ')');
        lemma_url_end(s, i + 1, k);
    }
}

/// The active project is what the first file link of a message names before its
/// plan directory. The link ends at a closing bracket, a space, a line feed or
/// the end of the message.
pub proof fn law_active_project_is_read_from_the_first_link(
    before: Seq<char>,
    project: Seq<char>,
    file: Seq<char>,
    after: Seq<char>,
)
    requires
        !text::spec_contains(before + "file:///"@.drop_last(), "file:///"@),
        project.len() > 0,
        project[0] == '/',
        !text::spec_contains(project + "/.plans/"@.drop_last(), "/.plans/"@),
        forall|i: int|
            0 <= i < project.len() ==> project[i] != ')' && project[i] != ' ' && project[i] != '\n',
        forall|i: int| 0 <= i < file.len() ==> file[i] != ')' && file[i] != ' ' && file[i] != '\n',
        after.len() > 0 ==> after[0] == ')' || after[0] == ' ' || after[0] == '\n',
    ensures
        spec_active_project(before + "file://"@ + project + "/.plans/"@ + file + after) == Some(
            project,
        ),
{
    reveal_strlit("file:///");
    reveal_strlit("file://");
    reveal_strlit("/.plans/");
    let path = project + "/.plans/"@ + file;
    let whole = path + after;
    let message = before + "file://"@ + project + "/.plans/"@ + file + after;
    assert(message =~= before + "file:///"@ + whole.skip(1));
    segments::lemma_first_separator(before, "file:///"@, whole.skip(1));
    let i = before.len() as int;
    assert(message.skip(i + 7) =~= whole);
    let n = path.len() as int;
    assert forall|j: int| 0 <= j < n implies whole[j] != ')' && whole[j] != ' ' && whole[j]
        != '\n' by {
        let m = project.len() as int;
        if j < m {
            assert(whole[j] == project[j]);
        } else if j >= m + 8 {
            assert(whole[j] == file[j - m - 8]);
        } else {
            assert(whole[j] == "/.plans/"@[j - m]);
        }
    }
    if n < whole.len() {
        assert(whole[n] == after[0]);
    }
    lemma_url_end(whole, 0, n);
    assert(whole.take(n) =~= path);
    segments::lemma_first_separator(project, "/.plans/"@, file);
    assert(path.take(project.len() as int) =~= project);
}

/// The older name of the plan directory counts where the newer one is absent. A
/// link without either names no project, and neither does a message without a
/// link.
pub proof fn law_link_without_plan_directory_names_no_project(path: Seq<char>, message: Seq<char>)
    ensures
        !text::spec_contains(path, "/.plans/"@) && !text::spec_contains(path, "/.plan/"@)
            ==> spec_before_plan_dir(path) is None,
        !text::spec_contains(path, "/.plans/"@) ==> (spec_before_plan_dir(path) matches Some(project)
            ==> text::spec_starts_with(path, project + "/.plan/"@)),
        !text::spec_contains(message, "file:///"@) ==> spec_active_project(message) is None,
{
    text::lemma_find(path, "/.plans/"@);
    text::lemma_find(path, "/.plan/"@);
    text::lemma_find(message, "file:///"@);
    if let Some(project) = spec_before_plan_dir(path) {
        if !text::spec_contains(path, "/.plans/"@) {
            let i = text::spec_find(path, "/.plan/"@)->Some_0;
            let head = project + "/.plan/"@;
            assert(path.subrange(0, head.len() as int) =~= path.take(i) + path.subrange(
                i,
                i + "/.plan/"@.len(),
            ));
            assert(path.subrange(0, head.len() as int) =~= head);
        }
    }
}

/// Paths are compared like words in a dictionary: a common start does not count,
/// the first different character decides, and a path comes before the longer
/// ones that start with it.
pub proof fn law_paths_are_in_dictionary_order(
    start: Seq<char>,
    a: Seq<char>,
    b: Seq<char>,
    x: char,
    y: char,
)
    requires
        x != y,
    ensures
        spec_text_le(start, start + a),
        a.len() > 0 ==> !spec_text_le(start + a, start),
        spec_text_le(start + seq![x] + a, start + seq![y] + b) == (x < y),
    decreases start.len(),
{
    let u = start + seq![x] + a;
    let v = start + seq![y] + b;
    if start.len() == 0 {
        assert(start + a =~= a);
        assert(u[0] == x && v[0] == y);
    } else {
        let rest = start.skip(1);
        law_paths_are_in_dictionary_order(rest, a, b, x, y);
        assert((start + a).skip(1) =~= rest + a);
        assert((start + a)[0] == start[0]);
        assert(u.skip(1) =~= rest + seq![x] + a);
        assert(v.skip(1) =~= rest + seq![y] + b);
        assert(u[0] == start[0] && v[0] == start[0]);
    }
}

/// A plan belongs to the active project where its path starts with that one's.
/// Such plans come before all others; among their like plans go by their paths.
pub proof fn law_plans_go_by_project_then_path(a: PlanFileView, b: PlanFileView, active: Seq<char>)
    ensures
        ({
            let first = text::spec_starts_with(a.path, active);
            let second = text::spec_starts_with(b.path, active);
            &&& first && !second ==> spec_plan_le(a, b, active) && !spec_plan_le(b, a, active)
            &&& first == second ==> spec_plan_le(a, b, active) == spec_text_le(a.path, b.path)
        }),
{
}

/// A plan is kept exactly where it belongs to the active project or has tasks
/// left. Without an active project all plans stay as they are.
pub proof fn law_plans_stay_without_an_active_project(
    plans: Seq<PlanFileView>,
    message: Option<Seq<char>>,
    plan: PlanFileView,
    active: Seq<char>,
)
    ensures
        message is None ==> spec_selected(plans, message) == plans,
        message matches Some(m) ==> (spec_active_project(m) is None ==> spec_selected(
            plans,
            message,
        ) == plans),
        spec_is_kept(plan, active) <==> text::spec_starts_with(plan.path, active)
            || tasks::spec_actionable_tasks(plan.content) > 0,
{
}

/// A file is read up to a hundred thousand bytes.
pub proof fn law_files_are_read_up_to_a_limit(bytes: u64, r: bool)
    requires
        call_ensures(is_readable_size, (bytes,), r),
    ensures
        r <==> bytes < 100_001,
{
}

/// Where a link names only a plan directory of the older name, the project is
/// what stands before the first one.
pub proof fn law_older_plan_directory_names_the_project_too(project: Seq<char>, file: Seq<char>)
    requires
        !text::spec_contains(project + "/.plan/"@.drop_last(), "/.plan/"@),
        !text::spec_contains(project + "/.plan/"@ + file, "/.plans/"@),
    ensures
        spec_before_plan_dir(project + "/.plan/"@ + file) == Some(project),
{
    reveal_strlit("/.plan/");
    let path = project + "/.plan/"@ + file;
    text::lemma_find(path, "/.plans/"@);
    segments::lemma_first_separator(project, "/.plan/"@, file);
    assert(path.take(project.len() as int) =~= project);
}

} // verus!
