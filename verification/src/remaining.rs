//! Work that a worker's last message says is left.

use vstd::prelude::*;
use vstd::utf8::*;
use crate::segments;
use crate::tasks;
use crate::text;

verus! {

/// Words that announce remaining work stand in a lowercase text.
pub open spec fn spec_has_trigger(lower: Seq<char>) -> bool {
    ||| text::spec_contains(lower, "remaining work"@)
    ||| text::spec_contains(lower, "remaining:"@)
    ||| text::spec_contains(lower, "still need"@)
    ||| text::spec_contains(lower, "still needs"@)
    ||| text::spec_contains(lower, "next step"@)
    ||| text::spec_contains(lower, "next steps"@)
    ||| text::spec_contains(lower, "todo:"@)
    ||| text::spec_contains(lower, "action items"@)
    ||| text::spec_contains(lower, "left to do"@)
}

/// Whether a lowercase text holds words that announce remaining work.
pub fn has_trigger(lower: &str) -> (r: bool)
    ensures
        r == spec_has_trigger(lower@),
{
    text::contains(lower, "remaining work") || text::contains(lower, "remaining:")
        || text::contains(lower, "still need") || text::contains(lower, "still needs")
        || text::contains(lower, "next step") || text::contains(lower, "next steps")
        || text::contains(lower, "todo:") || text::contains(lower, "action items")
        || text::contains(lower, "left to do")
}

/// One of `lines` is an actionable checkbox.
pub open spec fn spec_any_actionable(lines: Seq<Seq<char>>) -> bool {
    exists|i: int| 0 <= i < lines.len() && tasks::spec_is_actionable_checkbox(#[trigger] lines[i])
}

/// Whether a line of `s` is an actionable checkbox.
pub fn any_actionable(s: &str) -> (r: bool)
    ensures
        r == spec_any_actionable(segments::spec_lines(s@)),
{
    let lines = segments::lines(s);
    let ghost views = segments::spec_lines(s@);
    let mut i: usize = 0;
    while i < lines.len()
        invariant
            i <= lines.len(),
            lines.deep_view() == views,
            views == segments::spec_lines(s@),
            forall|j: int| 0 <= j < i ==> !tasks::spec_is_actionable_checkbox(#[trigger] views[j]),
        decreases lines.len() - i,
    {
        assert(views[i as int] == lines@[i as int]@);
        if tasks::is_actionable_checkbox(lines[i]) {
            return true;
        }
        i = i + 1;
    }
    false
}

/// A paragraph that heads the next one: a heading, or a short line that ends
/// in a colon.
pub open spec fn spec_is_header(paragraph: Seq<char>) -> bool {
    text::spec_starts_with(paragraph, "#"@) || (encode_utf8(paragraph).len() < 80
        && text::spec_ends_with(paragraph, ":"@))
}

/// Whether a paragraph heads the next one.
pub fn is_header(paragraph: &str) -> (r: bool)
    ensures
        r == spec_is_header(paragraph@),
{
    text::starts_with(paragraph, "#") || (text::byte_len(paragraph) < 80 && text::ends_with(
        paragraph,
        ":",
    ))
}

/// The last position from `from` on and before `n` whose flag is set.
pub open spec fn spec_last_set(flags: Seq<bool>, from: int, n: int) -> Option<int>
    decreases n - from,
{
    if n <= from {
        None
    } else if flags[n - 1] {
        Some(n - 1)
    } else {
        spec_last_set(flags, from, n - 1)
    }
}

fn last_set(flags: &Vec<bool>, from: usize) -> (r: Option<usize>)
    requires
        from <= flags@.len(),
    ensures
        text::spec_pos(r) == spec_last_set(flags@, from as int, flags@.len() as int),
        r matches Some(i) ==> i < flags@.len(),
{
    let mut n: usize = flags.len();
    while n > from
        invariant
            from <= n <= flags.len(),
            spec_last_set(flags@, from as int, flags@.len() as int) == spec_last_set(
                flags@,
                from as int,
                n as int,
            ),
        decreases n,
    {
        if flags[n - 1] {
            return Some((n - 1) as usize);
        }
        n = n - 1;
    }
    None
}

/// Where the section on remaining work starts, by what each paragraph holds:
/// words that announce such work, an actionable checkbox, a header. Of the
/// last three paragraphs, the last one with such words; else the last one with
/// a checkbox, or the paragraph before it where that announces or heads it;
/// else the last two paragraphs.
pub open spec fn spec_section_start(
    triggers: Seq<bool>,
    checkboxes: Seq<bool>,
    headers: Seq<bool>,
) -> int {
    let n = triggers.len() as int;
    let from = if n > 3 {
        n - 3
    } else {
        0
    };
    match spec_last_set(triggers, from, n) {
        Some(i) => i,
        None => match spec_last_set(checkboxes, from, n) {
            Some(i) => if i > 0 && (triggers[i - 1] || headers[i - 1]) {
                i - 1
            } else {
                i
            },
            None => if n > 2 {
                n - 2
            } else {
                0
            },
        },
    }
}

/// Where the section on remaining work starts.
pub fn section_start(
    triggers: &Vec<bool>,
    checkboxes: &Vec<bool>,
    headers: &Vec<bool>,
) -> (r: usize)
    requires
        checkboxes@.len() == triggers@.len(),
        headers@.len() == triggers@.len(),
    ensures
        r == spec_section_start(triggers@, checkboxes@, headers@),
        r <= triggers@.len(),
{
    let n: usize = triggers.len();
    let from: usize = if n > 3 {
        n - 3
    } else {
        0
    };
    if let Some(i) = last_set(triggers, from) {
        return i;
    }
    if let Some(i) = last_set(checkboxes, from) {
        return if i > 0 && (triggers[i - 1] || headers[i - 1]) {
            i - 1
        } else {
            i
        };
    }
    if n > 2 {
        n - 2
    } else {
        0
    }
}

/// The section on remaining work among `paragraphs`.
pub open spec fn spec_section_of(paragraphs: Seq<Seq<char>>) -> Option<Seq<char>> {
    if paragraphs.len() == 0 {
        None
    } else {
        let start = spec_section_start(
            paragraphs.map_values(|p: Seq<char>| spec_has_trigger(text::lowercase(p))),
            paragraphs.map_values(|p: Seq<char>| spec_any_actionable(segments::spec_lines(p))),
            paragraphs.map_values(|p: Seq<char>| spec_is_header(p)),
        );
        Some(segments::spec_join(paragraphs.skip(start), "\n\n"@))
    }
}

/// The section of a message that remaining work would stand in.
pub open spec fn spec_remaining_section(s: Seq<char>) -> Option<Seq<char>> {
    spec_section_of(segments::spec_paragraphs(s))
}

/// Extracts the section of a message that remaining work would stand in.
/// `None` where the message is blank.
pub fn extract_remaining_section(s: &str) -> (r: Option<String>)
    ensures
        r.deep_view() == spec_remaining_section(s@),
{
    let paragraphs = segments::paragraphs(s);
    if paragraphs.len() == 0 {
        return None;
    }
    let ghost all = segments::spec_paragraphs(s@);
    let ghost triggers_of = |p: Seq<char>| spec_has_trigger(text::lowercase(p));
    let ghost checkboxes_of = |p: Seq<char>| spec_any_actionable(segments::spec_lines(p));
    let ghost headers_of = |p: Seq<char>| spec_is_header(p);
    let mut triggers: Vec<bool> = Vec::new();
    let mut checkboxes: Vec<bool> = Vec::new();
    let mut headers: Vec<bool> = Vec::new();
    let mut i: usize = 0;
    while i < paragraphs.len()
        invariant
            i <= paragraphs.len(),
            paragraphs.deep_view() == all,
            triggers_of == (|p: Seq<char>| spec_has_trigger(text::lowercase(p))),
            checkboxes_of == (|p: Seq<char>| spec_any_actionable(segments::spec_lines(p))),
            headers_of == (|p: Seq<char>| spec_is_header(p)),
            triggers@ == all.take(i as int).map_values(triggers_of),
            checkboxes@ == all.take(i as int).map_values(checkboxes_of),
            headers@ == all.take(i as int).map_values(headers_of),
        decreases paragraphs.len() - i,
    {
        let paragraph = paragraphs[i];
        assert(all[i as int] == paragraph@);
        let lower = text::to_lowercase(paragraph);
        triggers.push(has_trigger(lower.as_str()));
        checkboxes.push(any_actionable(paragraph));
        headers.push(is_header(paragraph));
        assert(triggers@ =~= all.take(i + 1).map_values(triggers_of));
        assert(checkboxes@ =~= all.take(i + 1).map_values(checkboxes_of));
        assert(headers@ =~= all.take(i + 1).map_values(headers_of));
        i = i + 1;
    }
    assert(all.take(all.len() as int) =~= all);
    let start: usize = section_start(&triggers, &checkboxes, &headers);
    let section = segments::tail(&paragraphs, start);
    Some(segments::join(&section, "\n\n"))
}

/// The section asks for something to be done.
pub open spec fn spec_asks_for_action(section: Seq<char>) -> bool {
    ||| text::spec_contains(section, "- "@)
    ||| text::spec_contains(section, "* "@)
    ||| text::spec_contains(section, "1."@)
    ||| text::spec_contains(section, "TODO"@)
    ||| text::spec_contains(section, "must"@)
    ||| text::spec_contains(section, "need to"@)
}

/// Whether a section asks for something to be done.
pub fn asks_for_action(section: &str) -> (r: bool)
    ensures
        r == spec_asks_for_action(section@),
{
    text::contains(section, "- ") || text::contains(section, "* ") || text::contains(section, "1.")
        || text::contains(section, "TODO") || text::contains(section, "must") || text::contains(
        section,
        "need to",
    )
}

/// The prompt that sends a worker on with `section`, given whether the message
/// announces remaining work and whether it has an actionable checkbox.
pub open spec fn spec_remaining_prompt(announced: bool, open: bool, section: Seq<char>) -> Option<
    Seq<char>,
> {
    if announced {
        if spec_asks_for_action(section) {
            Some(
                "Previous assistant mentioned remaining work. Extracted section:\n\n"@ + section
                    + "\n\nIf this describes specific actionable remaining work, continue with it. If the work is already done or this is a false positive, stop."@,
            )
        } else {
            None
        }
    } else if open {
        Some(
            "Previous assistant left unchecked items. Extracted section:\n\n"@ + section
                + "\n\nIf these are real remaining tasks, continue with them. If already done or this is a false positive, stop."@,
        )
    } else {
        None
    }
}

/// A prompt that sends a worker on with `section`.
pub fn remaining_prompt(announced: bool, open: bool, section: &str) -> (r: Option<String>)
    ensures
        r.deep_view() == spec_remaining_prompt(announced, open, section@),
{
    if announced {
        if asks_for_action(section) {
            let mut r = text::owned(
                "Previous assistant mentioned remaining work. Extracted section:\n\n",
            );
            r.append(section);
            r.append(
                "\n\nIf this describes specific actionable remaining work, continue with it. If the work is already done or this is a false positive, stop.",
            );
            Some(r)
        } else {
            None
        }
    } else if open {
        let mut r = text::owned("Previous assistant left unchecked items. Extracted section:\n\n");
        r.append(section);
        r.append(
            "\n\nIf these are real remaining tasks, continue with them. If already done or this is a false positive, stop.",
        );
        Some(r)
    } else {
        None
    }
}

/// The work that a trimmed message says is left.
pub open spec fn spec_remaining_in(message: Seq<char>) -> Option<Seq<char>> {
    let section = match spec_remaining_section(message) {
        Some(section) => section,
        None => message,
    };
    spec_remaining_prompt(
        spec_has_trigger(text::lowercase(message)),
        spec_any_actionable(segments::spec_lines(message)),
        section,
    )
}

/// The work that a last message says is left.
pub open spec fn spec_remaining_work(message: Option<Seq<char>>) -> Option<Seq<char>> {
    match text::spec_present(message) {
        Some(message) => spec_remaining_in(text::spec_trim(message)),
        None => None,
    }
}

/// A prompt that sends a worker on with the work that its last message says
/// is left. `None` where the message announces none and has no actionable
/// checkbox, or announces it without asking for anything.
pub fn detect_remaining_work(last_assistant_message: Option<&str>) -> (r: Option<String>)
    ensures
        r.deep_view() == spec_remaining_work(last_assistant_message.deep_view()),
{
    match text::present(last_assistant_message) {
        Some(message) => {
            let message = text::trim(message);
            let lower = text::to_lowercase(message);
            let announced = has_trigger(lower.as_str());
            let open = any_actionable(message);
            match extract_remaining_section(message) {
                Some(section) => remaining_prompt(announced, open, section.as_str()),
                None => remaining_prompt(announced, open, message),
            }
        },
        None => None,
    }
}

// ---------------------------------------------------------------------------
// Laws
// ---------------------------------------------------------------------------

/// A message that announces no work and has no actionable checkbox is never
/// taken to leave work.
pub proof fn law_no_sign_of_work_no_prompt(message: Option<Seq<char>>)
    requires
        message matches Some(m) ==> !spec_has_trigger(text::lowercase(text::spec_trim(m)))
            && !spec_any_actionable(segments::spec_lines(text::spec_trim(m))),
    ensures
        spec_remaining_work(message) is None,
{
}

/// An actionable checkbox in a message that does not announce work always
/// sends the worker on.
pub proof fn law_open_checkbox_sends_on(message: Seq<char>)
    requires
        !text::is_blank(message),
        !spec_has_trigger(text::lowercase(text::spec_trim(message))),
        spec_any_actionable(segments::spec_lines(text::spec_trim(message))),
    ensures
        spec_remaining_work(Some(message)) is Some,
{
}

proof fn lemma_last_set(flags: Seq<bool>, from: int, n: int)
    requires
        0 <= from,
    ensures
        spec_last_set(flags, from, n) matches Some(i) ==> from <= i < n && flags[i],
    decreases n - from,
{
    if n > from && !flags[n - 1] {
        lemma_last_set(flags, from, n - 1);
    }
}

/// The section is the end of the message: at least one paragraph of it and
/// four at most.
pub proof fn law_section_is_the_end_of_the_message(
    triggers: Seq<bool>,
    checkboxes: Seq<bool>,
    headers: Seq<bool>,
)
    requires
        triggers.len() > 0,
    ensures
        0 <= spec_section_start(triggers, checkboxes, headers) < triggers.len(),
        spec_section_start(triggers, checkboxes, headers) >= triggers.len() - 4,
{
    let n = triggers.len() as int;
    let from = if n > 3 {
        n - 3
    } else {
        0
    };
    lemma_last_set(triggers, from, n);
    lemma_last_set(checkboxes, from, n);
}

/// A text announces that work is left.
pub open spec fn spec_announces_work(s: Seq<char>) -> bool {
    let lower = text::lowercase(s);
    ||| text::spec_contains(lower, "remaining work"@)
    ||| text::spec_contains(lower, "remaining:"@)
    ||| text::spec_contains(lower, "still need"@)
    ||| text::spec_contains(lower, "next step"@)
    ||| text::spec_contains(lower, "todo:"@)
    ||| text::spec_contains(lower, "action items"@)
    ||| text::spec_contains(lower, "left to do"@)
}

/// A line of a text is an open item.
pub open spec fn spec_lists_work(s: Seq<char>) -> bool {
    exists|i: int|
        0 <= i < segments::spec_lines(s).len() && tasks::spec_is_open_item(
            #[trigger] segments::spec_lines(s)[i],
        )
}

proof fn lemma_announcement(s: Seq<char>)
    ensures
        spec_has_trigger(text::lowercase(s)) <==> spec_announces_work(s),
        spec_any_actionable(segments::spec_lines(s)) <==> spec_lists_work(s),
{
    let lower = text::lowercase(s);
    reveal_strlit("still need");
    reveal_strlit("still needs");
    reveal_strlit("next step");
    reveal_strlit("next steps");
    if text::spec_contains(lower, "still needs"@) {
        let j = choose|j: int| text::occurs_at(lower, "still needs"@, j);
        assert("still needs"@.subrange(0, 10) =~= "still need"@);
        assert(lower.subrange(j, j + 10) =~= lower.subrange(j, j + 11).subrange(0, 10));
        assert(text::occurs_at(lower, "still need"@, j));
    }
    if text::spec_contains(lower, "next steps"@) {
        let j = choose|j: int| text::occurs_at(lower, "next steps"@, j);
        assert("next steps"@.subrange(0, 9) =~= "next step"@);
        assert(lower.subrange(j, j + 9) =~= lower.subrange(j, j + 10).subrange(0, 9));
        assert(text::occurs_at(lower, "next step"@, j));
    }
    let lines = segments::spec_lines(s);
    if spec_any_actionable(lines) {
        let i = choose|i: int|
            0 <= i < lines.len() && tasks::spec_is_actionable_checkbox(#[trigger] lines[i]);
        tasks::law_open_items_ask_for_work(lines[i]);
        assert(tasks::spec_is_open_item(lines[i]));
    }
    if spec_lists_work(s) {
        let i = choose|i: int| 0 <= i < lines.len() && tasks::spec_is_open_item(#[trigger] lines[i]);
        tasks::law_open_items_ask_for_work(lines[i]);
        assert(tasks::spec_is_actionable_checkbox(lines[i]));
    }
}

/// A message leads to a prompt exactly where it announces work in a section that
/// asks for something to be done, or announces none and lists an open item. The
/// prompt quotes the section, between words that say which of the two it was.
pub proof fn law_signs_of_work_are_quoted(message: Seq<char>, section: Seq<char>)
    requires
        !text::is_blank(message),
        spec_remaining_section(text::spec_trim(message)) == Some(section),
    ensures
        ({
            let m = text::spec_trim(message);
            let asks = text::spec_contains(section, "- "@) || text::spec_contains(section, "* "@)
                || text::spec_contains(section, "1."@) || text::spec_contains(section, "TODO"@)
                || text::spec_contains(section, "must"@) || text::spec_contains(
                section,
                "need to"@,
            );
            &&& spec_announces_work(m) && asks ==> spec_remaining_work(Some(message)) == Some(
                "Previous assistant mentioned remaining work. Extracted section:\n\n"@ + section
                    + "\n\nIf this describes specific actionable remaining work, continue with it. If the work is already done or this is a false positive, stop."@,
            )
            &&& !spec_announces_work(m) && spec_lists_work(m) ==> spec_remaining_work(Some(message))
                == Some(
                "Previous assistant left unchecked items. Extracted section:\n\n"@ + section
                    + "\n\nIf these are real remaining tasks, continue with them. If already done or this is a false positive, stop."@,
            )
            &&& spec_announces_work(m) && !asks ==> spec_remaining_work(Some(message)) is None
            &&& !spec_announces_work(m) && !spec_lists_work(m) ==> spec_remaining_work(
                Some(message),
            ) is None
        }),
{
    lemma_announcement(text::spec_trim(message));
}

/// A message that is absent or blank leads to no prompt.
pub proof fn law_no_message_no_work(message: Option<Seq<char>>)
    requires
        message matches Some(m) ==> text::is_blank(m),
    ensures
        spec_remaining_work(message) is None,
{
}

proof fn lemma_last_set_is(flags: Seq<bool>, from: int, n: int, k: int)
    requires
        from <= k < n,
        flags[k],
        forall|j: int| k < j < n ==> !#[trigger] flags[j],
    ensures
        spec_last_set(flags, from, n) == Some(k),
    decreases n - from,
{
    if n - 1 > k {
        assert(!flags[n - 1]);
        lemma_last_set_is(flags, from, n - 1, k);
    }
}

proof fn lemma_none_set(flags: Seq<bool>, from: int, n: int)
    requires
        forall|j: int| from <= j < n ==> !#[trigger] flags[j],
    ensures
        spec_last_set(flags, from, n) is None,
    decreases n - from,
{
    if n > from {
        assert(!flags[n - 1]);
        lemma_none_set(flags, from, n - 1);
    }
}

/// The section starts at the last paragraph that announces work, where one of
/// the last three does.
pub proof fn law_section_starts_at_the_last_announcement(
    s: Seq<char>,
    paragraphs: Seq<Seq<char>>,
    k: int,
)
    requires
        paragraphs == segments::spec_paragraphs(s),
        0 <= k < paragraphs.len(),
        k >= paragraphs.len() - 3,
        spec_announces_work(paragraphs[k]),
        forall|j: int| k < j < paragraphs.len() ==> !spec_announces_work(#[trigger] paragraphs[j]),
    ensures
        spec_remaining_section(s) == Some(segments::spec_join(paragraphs.skip(k), "\n\n"@)),
{
    let n = paragraphs.len() as int;
    let flags = paragraphs.map_values(|p: Seq<char>| spec_has_trigger(text::lowercase(p)));
    lemma_announcement(paragraphs[k]);
    assert(flags[k]);
    assert forall|j: int| k < j < n implies !#[trigger] flags[j] by {
        lemma_announcement(paragraphs[j]);
        assert(!spec_announces_work(paragraphs[j]));
    }
    lemma_last_set_is(
        flags,
        if n > 3 {
            n - 3
        } else {
            0
        },
        n,
        k,
    );
}

/// Where none of the last three paragraphs announces work, the section starts at
/// the last of them that lists some, together with the paragraph before it where
/// that one introduces it.
pub proof fn law_section_starts_at_the_last_list(
    s: Seq<char>,
    paragraphs: Seq<Seq<char>>,
    k: int,
)
    requires
        paragraphs == segments::spec_paragraphs(s),
        0 <= k < paragraphs.len(),
        k >= paragraphs.len() - 3,
        forall|j: int|
            0 <= j < paragraphs.len() && j >= paragraphs.len() - 3 ==> !spec_announces_work(
                #[trigger] paragraphs[j],
            ),
        spec_lists_work(paragraphs[k]),
        forall|j: int| k < j < paragraphs.len() ==> !spec_lists_work(#[trigger] paragraphs[j]),
    ensures
        ({
            let introduced = k > 0 && (spec_announces_work(paragraphs[k - 1])
                || text::spec_starts_with(paragraphs[k - 1], "#"@) || (encode_utf8(
                paragraphs[k - 1],
            ).len() < 80 && text::spec_ends_with(paragraphs[k - 1], ":"@)));
            spec_remaining_section(s) == Some(
                segments::spec_join(
                    paragraphs.skip(
                        if introduced {
                            k - 1
                        } else {
                            k
                        },
                    ),
                    "\n\n"@,
                ),
            )
        }),
{
    let n = paragraphs.len() as int;
    let from = if n > 3 {
        n - 3
    } else {
        0
    };
    let triggers = paragraphs.map_values(|p: Seq<char>| spec_has_trigger(text::lowercase(p)));
    let boxes = paragraphs.map_values(
        |p: Seq<char>| spec_any_actionable(segments::spec_lines(p)),
    );
    let headers = paragraphs.map_values(|p: Seq<char>| spec_is_header(p));
    assert forall|j: int| from <= j < n implies !#[trigger] triggers[j] by {
        lemma_announcement(paragraphs[j]);
        assert(!spec_announces_work(paragraphs[j]));
    }
    lemma_none_set(triggers, from, n);
    lemma_announcement(paragraphs[k]);
    assert(boxes[k]);
    assert forall|j: int| k < j < n implies !#[trigger] boxes[j] by {
        lemma_announcement(paragraphs[j]);
        assert(!spec_lists_work(paragraphs[j]));
    }
    lemma_last_set_is(boxes, from, n, k);
    if k > 0 {
        lemma_announcement(paragraphs[k - 1]);
        assert(triggers[k - 1] == spec_has_trigger(text::lowercase(paragraphs[k - 1])));
        assert(headers[k - 1] == spec_is_header(paragraphs[k - 1]));
    }
}

/// Where the last three paragraphs neither announce nor list work, the section
/// is the last two of them, or the only one. A text without any has no section.
pub proof fn law_section_is_else_the_last_two_paragraphs(
    s: Seq<char>,
    paragraphs: Seq<Seq<char>>,
)
    requires
        paragraphs == segments::spec_paragraphs(s),
        forall|j: int|
            0 <= j < paragraphs.len() && j >= paragraphs.len() - 3 ==> !spec_announces_work(
                #[trigger] paragraphs[j],
            ) && !spec_lists_work(paragraphs[j]),
    ensures
        paragraphs.len() == 0 ==> spec_remaining_section(s) is None,
        paragraphs.len() == 1 ==> spec_remaining_section(s) == Some(paragraphs[0]),
        paragraphs.len() > 1 ==> spec_remaining_section(s) == Some(
            paragraphs[paragraphs.len() - 2] + "\n\n"@ + paragraphs.last(),
        ),
{
    let n = paragraphs.len() as int;
    let from = if n > 3 {
        n - 3
    } else {
        0
    };
    let triggers = paragraphs.map_values(|p: Seq<char>| spec_has_trigger(text::lowercase(p)));
    let boxes = paragraphs.map_values(
        |p: Seq<char>| spec_any_actionable(segments::spec_lines(p)),
    );
    assert forall|j: int| from <= j < n implies !#[trigger] triggers[j] && !boxes[j] by {
        lemma_announcement(paragraphs[j]);
        assert(!spec_announces_work(paragraphs[j]));
    }
    lemma_none_set(triggers, from, n);
    assert forall|j: int| from <= j < n implies !#[trigger] boxes[j] by {
        assert(!triggers[j]);
    }
    lemma_none_set(boxes, from, n);
    if n == 1 {
        assert(paragraphs.skip(0) =~= seq![paragraphs[0]]);
    } else if n > 1 {
        let last = paragraphs.skip(n - 2);
        assert(last =~= seq![paragraphs[n - 2], paragraphs.last()]);
        segments::lemma_join_from_front(last, "\n\n"@);
        assert(last.skip(1) =~= seq![paragraphs.last()]);
    }
}

} // verus!
