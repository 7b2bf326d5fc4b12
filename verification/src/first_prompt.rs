//! The context that a prompt carries from thread to thread: wrapping it around
//! the next prompt, and taking it off again.

use vstd::prelude::*;
use vstd::utf8::*;
use crate::segments;
use crate::text;

verus! {

/// The heading of the summary section.
pub const SUMMARY_HEADING: &'static str = "## 1. Thread Summary";

/// The heading of the section with the original request, in the older layout.
pub const ORIGINAL_REQUEST_HEADING: &'static str = "## 1. First Prompt (original request)";

/// The heading of the last message where there is no summary.
pub const LAST_MESSAGE_HEADING: &'static str = "## 1. Last Assistant Message";

/// What ends a section.
pub const SECTION_END: &'static str = "\n---";

// ---------------------------------------------------------------------------
// Wrapping
// ---------------------------------------------------------------------------

/// The trimmed text, unless it is absent or blank.
pub open spec fn spec_trimmed(s: Option<Seq<char>>) -> Option<Seq<char>> {
    match text::spec_present(s) {
        Some(t) => Some(text::spec_trim(t)),
        None => None,
    }
}

fn trimmed<'a>(s: Option<&'a str>) -> (r: Option<&'a str>)
    ensures
        r.deep_view() == spec_trimmed(s.deep_view()),
{
    match text::present(s) {
        Some(t) => Some(text::trim(t)),
        None => None,
    }
}

/// What stands before the next prompt, given the trimmed summary and the
/// trimmed last message.
pub open spec fn spec_wrapper_head(summary: Option<Seq<char>>, last: Option<Seq<char>>) -> Seq<
    char,
> {
    match (summary, last) {
        (Some(summary), Some(last)) => SUMMARY_HEADING@ + "\n\n"@ + summary + "\n\n---"@
            + "\n\n## 2. Last Assistant Message\n\n"@ + last + "\n\n---\n\n"@,
        (Some(summary), None) => SUMMARY_HEADING@ + "\n\n"@ + summary + "\n\n---"@ + "\n\n"@,
        (None, Some(last)) => LAST_MESSAGE_HEADING@ + "\n\n"@ + last + "\n\n---\n\n"@,
        (None, None) => seq![],
    }
}

/// The heading of the instruction.
pub open spec fn spec_decision_heading(summary: Option<Seq<char>>, last: Option<Seq<char>>) -> Seq<
    char,
> {
    match (summary, last) {
        (Some(_), _) => "## 3. Decision\n\n"@,
        (None, Some(_)) => "## 2. Decision\n\n"@,
        (None, None) => seq![],
    }
}

/// The next prompt with the thread's summary and last message before it, as
/// far as they are there.
pub open spec fn spec_with_context(
    next_prompt: Seq<char>,
    summary: Option<Seq<char>>,
    last: Option<Seq<char>>,
) -> Seq<char> {
    spec_wrapper_head(spec_trimmed(summary), spec_trimmed(last)) + spec_decision_heading(
        spec_trimmed(summary),
        spec_trimmed(last),
    ) + next_prompt
}

/// Puts the thread's summary and last message before the next prompt.
pub fn with_first_prompt_context(
    next_prompt: String,
    prompt_summary: Option<&str>,
    _thread_title: Option<&str>,
    last_assistant_message: Option<&str>,
) -> (r: String)
    ensures
        r@ == spec_with_context(
            next_prompt@,
            prompt_summary.deep_view(),
            last_assistant_message.deep_view(),
        ),
{
    let summary = trimmed(prompt_summary);
    let last = trimmed(last_assistant_message);
    match (summary, last) {
        (Some(summary), Some(last)) => {
            let mut r = text::owned(SUMMARY_HEADING);
            r.append("\n\n");
            r.append(summary);
            r.append("\n\n---");
            r.append("\n\n## 2. Last Assistant Message\n\n");
            r.append(last);
            r.append("\n\n---\n\n");
            r.append("## 3. Decision\n\n");
            r.append(next_prompt.as_str());
            r
        },
        (Some(summary), None) => {
            let mut r = text::owned(SUMMARY_HEADING);
            r.append("\n\n");
            r.append(summary);
            r.append("\n\n---");
            r.append("\n\n");
            r.append("## 3. Decision\n\n");
            r.append(next_prompt.as_str());
            r
        },
        (None, Some(last)) => {
            let mut r = text::owned(LAST_MESSAGE_HEADING);
            r.append("\n\n");
            r.append(last);
            r.append("\n\n---\n\n");
            r.append("## 2. Decision\n\n");
            r.append(next_prompt.as_str());
            r
        },
        (None, None) => {
            assert(seq![] + seq![] + next_prompt@ =~= next_prompt@);
            next_prompt
        },
    }
}

// ---------------------------------------------------------------------------
// Recovering the original message
// ---------------------------------------------------------------------------

/// The trimmed text, unless it is blank.
pub open spec fn spec_nonblank(s: Seq<char>) -> Option<Seq<char>> {
    if text::is_blank(s) {
        None
    } else {
        Some(text::spec_trim(s))
    }
}

fn nonblank(s: &str) -> (r: Option<String>)
    ensures
        r.deep_view() == spec_nonblank(s@),
{
    let t = text::trim(s);
    if t.unicode_len() == 0 {
        None
    } else {
        Some(text::owned(t))
    }
}

/// The part of `s` before the first `end`, all of it without one.
pub open spec fn spec_until(s: Seq<char>, end: Seq<char>) -> Seq<char> {
    match text::spec_find(s, end) {
        Some(i) => s.take(i),
        None => s,
    }
}

/// The text of the first section.
pub open spec fn spec_first_section(s: Seq<char>) -> Option<Seq<char>> {
    let heading = if text::spec_contains(s, SUMMARY_HEADING@) {
        SUMMARY_HEADING@
    } else {
        ORIGINAL_REQUEST_HEADING@
    };
    match text::spec_find(s, heading) {
        Some(i) => spec_nonblank(
            spec_until(
                text::spec_trim_start_char(s.skip(i + heading.len()), '\n'),
                SECTION_END@,
            ),
        ),
        None => None,
    }
}

fn first_section(s: &str) -> (r: Option<String>)
    ensures
        r.deep_view() == spec_first_section(s@),
{
    let heading = if text::contains(s, SUMMARY_HEADING) {
        SUMMARY_HEADING
    } else {
        ORIGINAL_REQUEST_HEADING
    };
    match text::find(s, heading) {
        Some(i) => {
            let total: usize = s.unicode_len();
            let n: usize = heading.unicode_len();
            assert(i + n <= total);
            let after = text::trim_start_char(text::skip(s, i + n), '\n');
            match text::find(after, SECTION_END) {
                Some(end) => nonblank(text::take(after, end)),
                None => nonblank(after),
            }
        },
        None => None,
    }
}

/// `lines` from the first one that does not start with `prefix` on.
pub open spec fn spec_skip_while(lines: Seq<Seq<char>>, prefix: Seq<char>) -> Seq<Seq<char>>
    decreases lines.len(),
{
    if lines.len() > 0 && text::spec_starts_with(text::spec_trim_start(lines[0]), prefix) {
        spec_skip_while(lines.skip(1), prefix)
    } else {
        lines
    }
}

/// `s` without its leading lines that start with `prefix`, trimmed.
pub open spec fn spec_without_leading(s: Seq<char>, prefix: Seq<char>) -> Seq<char> {
    text::spec_trim(
        segments::spec_join(spec_skip_while(segments::spec_lines(s), prefix), "\n"@),
    )
}

fn without_leading(s: &str, prefix: &str) -> (r: String)
    ensures
        r@ == spec_without_leading(s@, prefix@),
{
    let all = segments::lines(s);
    let ghost views = all.deep_view();
    let mut i: usize = 0;
    assert(views.skip(0) =~= views);
    while i < all.len() && text::starts_with(text::trim_start(all[i]), prefix)
        invariant
            i <= all.len(),
            all.deep_view() == views,
            spec_skip_while(views, prefix@) == spec_skip_while(views.skip(i as int), prefix@),
        decreases all.len() - i,
    {
        assert(views.skip(i as int)[0] == all@[i as int]@);
        assert(views.skip(i as int).skip(1) =~= views.skip(i + 1));
        i = i + 1;
    }
    proof {
        if i < all.len() {
            assert(views.skip(i as int)[0] == all@[i as int]@);
        }
    }
    let rest = segments::tail(&all, i);
    let joined = segments::join(&rest, "\n");
    text::owned(text::trim(joined.as_str()))
}

/// The text before a reference to the first thread.
pub open spec fn spec_before_thread_reference(s: Seq<char>) -> Option<Seq<char>> {
    match text::spec_find(s, "\n---\nrefer to first thread\n---\n"@) {
        Some(i) => {
            let cleaned = spec_without_leading(text::spec_trim(s.take(i)), "## "@);
            if cleaned.len() > 0 {
                Some(cleaned)
            } else {
                None
            }
        },
        None => None,
    }
}

fn before_thread_reference(s: &str) -> (r: Option<String>)
    ensures
        r.deep_view() == spec_before_thread_reference(s@),
{
    match text::find(s, "\n---\nrefer to first thread\n---\n") {
        Some(i) => {
            let cleaned = without_leading(text::trim(text::take(s, i)), "## ");
            if cleaned.as_str().unicode_len() > 0 {
                Some(cleaned)
            } else {
                None
            }
        },
        None => None,
    }
}

/// The text between `open` and the next `close` behind the words
/// `refer to first prompt:`.
pub open spec fn spec_delimited(s: Seq<char>, open: Seq<char>, close: Seq<char>) -> Option<
    Seq<char>,
> {
    match text::spec_strip_prefix(s, "refer to first prompt:"@) {
        Some(rest) => match text::spec_strip_prefix(text::spec_trim_start(rest), open) {
            Some(inner) => {
                let inner = text::spec_trim_start_char(inner, '\n');
                match text::spec_find(inner, close) {
                    Some(i) => spec_nonblank(inner.take(i)),
                    None => None,
                }
            },
            None => None,
        },
        None => None,
    }
}

fn delimited(s: &str, open: &str, close: &str) -> (r: Option<String>)
    ensures
        r.deep_view() == spec_delimited(s@, open@, close@),
{
    match text::strip_prefix(s, "refer to first prompt:") {
        Some(rest) => match text::strip_prefix(text::trim_start(rest), open) {
            Some(inner) => {
                let inner = text::trim_start_char(inner, '\n');
                match text::find(inner, close) {
                    Some(i) => nonblank(text::take(inner, i)),
                    None => None,
                }
            },
            None => None,
        },
        None => None,
    }
}

/// The text between the first two quotation marks behind the words
/// `refer to first prompt`.
pub open spec fn spec_quoted(s: Seq<char>) -> Option<Seq<char>> {
    match text::spec_strip_prefix(s, "refer to first prompt"@) {
        Some(rest) => match text::spec_strip_prefix(text::spec_trim(rest), "\""@) {
            Some(inner) => match text::spec_find(inner, "\""@) {
                Some(i) => if text::is_blank(inner.take(i)) {
                    None
                } else {
                    Some(inner.take(i))
                },
                None => None,
            },
            None => None,
        },
        None => None,
    }
}

fn quoted(s: &str) -> (r: Option<String>)
    ensures
        r.deep_view() == spec_quoted(s@),
{
    match text::strip_prefix(s, "refer to first prompt") {
        Some(rest) => match text::strip_prefix(text::trim(rest), "\"") {
            Some(inner) => match text::find(inner, "\"") {
                Some(i) => {
                    let original = text::take(inner, i);
                    if text::blank(original) {
                        None
                    } else {
                        Some(text::owned(original))
                    }
                },
                None => None,
            },
            None => None,
        },
        None => None,
    }
}

/// A message without its leading headings and its leading thread links.
pub open spec fn spec_message_body(s: Seq<char>) -> Seq<char> {
    spec_without_leading(spec_without_leading(text::spec_trim(s), "## "@), "["@)
}

/// The original message in a message body: what a wrapper of one of the older
/// layouts holds, or else the whole body.
pub open spec fn spec_original_in_body(body: Seq<char>) -> Option<Seq<char>> {
    if spec_before_thread_reference(body) is Some {
        spec_before_thread_reference(body)
    } else if spec_delimited(body, "===---==="@, "===---==="@) is Some {
        spec_delimited(body, "===---==="@, "===---==="@)
    } else if spec_delimited(body, "---"@, SECTION_END@) is Some {
        spec_delimited(body, "---"@, SECTION_END@)
    } else if spec_quoted(body) is Some {
        spec_quoted(body)
    } else if body.len() > 0 {
        Some(body)
    } else {
        None
    }
}

/// The original message that a first message carries.
pub open spec fn spec_original_message(message: Seq<char>) -> Option<Seq<char>> {
    match spec_first_section(text::spec_trim(message)) {
        Some(section) => Some(section),
        None => spec_original_in_body(spec_message_body(message)),
    }
}

fn original_in_body(body: String) -> (r: Option<String>)
    ensures
        r.deep_view() == spec_original_in_body(body@),
{
    if let Some(found) = before_thread_reference(body.as_str()) {
        return Some(found);
    }
    if let Some(found) = delimited(body.as_str(), "===---===", "===---===") {
        return Some(found);
    }
    if let Some(found) = delimited(body.as_str(), "---", SECTION_END) {
        return Some(found);
    }
    if let Some(found) = quoted(body.as_str()) {
        return Some(found);
    }
    if body.as_str().unicode_len() > 0 {
        Some(body)
    } else {
        None
    }
}

/// Recovers the original user message from a thread's first message, taking
/// off the context that earlier threads put around it.
pub fn extract_original_user_message(first_user_message: &str) -> (r: Option<String>)
    ensures
        r.deep_view() == spec_original_message(first_user_message@),
{
    let stripped = text::trim(first_user_message);
    match first_section(stripped) {
        Some(section) => Some(section),
        None => {
            let without_header = without_leading(stripped, "## ");
            let body = without_leading(without_header.as_str(), "[");
            original_in_body(body)
        },
    }
}

// ---------------------------------------------------------------------------
// Taking the wrapper off
// ---------------------------------------------------------------------------

/// The instruction behind `decision` in a prompt that starts with `heading`.
pub open spec fn spec_instruction(prompt: Seq<char>, heading: Seq<char>, decision: Seq<char>) -> Option<
    Seq<char>,
> {
    if text::spec_starts_with(prompt, heading) {
        match text::spec_find(prompt, decision) {
            Some(i) => spec_nonblank(prompt.skip(i + decision.len())),
            None => None,
        }
    } else {
        None
    }
}

fn instruction(prompt: &str, heading: &str, decision: &str) -> (r: Option<String>)
    ensures
        r.deep_view() == spec_instruction(prompt@, heading@, decision@),
{
    if text::starts_with(prompt, heading) {
        match text::find(prompt, decision) {
            Some(i) => {
                let total: usize = prompt.unicode_len();
                let n: usize = decision.unicode_len();
                assert(i + n <= total);
                nonblank(text::skip(prompt, i + n))
            },
            None => None,
        }
    } else {
        None
    }
}

/// What follows the last of `lines[..n]` that is a lone `---` and has anything
/// but whitespace after it.
pub open spec fn spec_after_rule(lines: Seq<Seq<char>>, n: int) -> Option<Seq<char>>
    decreases n,
{
    if n <= 0 {
        None
    } else if text::spec_trim(lines[n - 1]) == "---"@ && !text::is_blank(
        segments::spec_join(lines.skip(n), "\n"@),
    ) {
        Some(text::spec_trim(segments::spec_join(lines.skip(n), "\n"@)))
    } else {
        spec_after_rule(lines, n - 1)
    }
}

/// The instruction behind the metadata of an older layout.
pub open spec fn spec_skip_metadata(s: Seq<char>) -> Seq<char> {
    let lines = segments::spec_lines(s);
    match spec_after_rule(lines, lines.len() as int) {
        Some(rest) => rest,
        None => text::spec_trim(s),
    }
}

/// Skips the metadata before an instruction: what follows the last line `---`,
/// or the whole text where there is none.
pub fn skip_context_metadata(s: &str) -> (r: String)
    ensures
        r@ == spec_skip_metadata(s@),
{
    let lines = segments::lines(s);
    let ghost views = segments::spec_lines(s@);
    let mut n: usize = lines.len();
    while n > 0
        invariant
            n <= lines.len(),
            lines.deep_view() == views,
            views == segments::spec_lines(s@),
            spec_after_rule(views, views.len() as int) == spec_after_rule(views, n as int),
        decreases n,
    {
        assert(views[n - 1] == lines@[n - 1]@);
        if text::str_eq(text::trim(lines[n - 1]), "---") {
            let rest = segments::tail(&lines, n);
            let joined = segments::join(&rest, "\n");
            if let Some(found) = nonblank(joined.as_str()) {
                return found;
            }
        }
        n = n - 1;
    }
    text::owned(text::trim(s))
}

/// The instruction behind a reference to the first thread.
pub open spec fn spec_checkpoint_instruction(prompt: Seq<char>) -> Option<Seq<char>> {
    if text::spec_starts_with(prompt, "## User (checkpoint)"@) {
        match text::spec_find(prompt, "---\nrefer to first thread\n---\n"@) {
            Some(i) => {
                let rest = spec_skip_metadata(
                    prompt.skip(i + "---\nrefer to first thread\n---\n"@.len()),
                );
                if rest.len() > 0 {
                    Some(rest)
                } else {
                    None
                }
            },
            None => None,
        }
    } else {
        None
    }
}

fn checkpoint_instruction(prompt: &str) -> (r: Option<String>)
    ensures
        r.deep_view() == spec_checkpoint_instruction(prompt@),
{
    if text::starts_with(prompt, "## User (checkpoint)") {
        let separator = "---\nrefer to first thread\n---\n";
        match text::find(prompt, separator) {
            Some(i) => {
                let total: usize = prompt.unicode_len();
                let n: usize = separator.unicode_len();
                assert(i + n <= total);
                let rest = skip_context_metadata(text::skip(prompt, i + n));
                if rest.as_str().unicode_len() > 0 {
                    Some(rest)
                } else {
                    None
                }
            },
            None => None,
        }
    } else {
        None
    }
}

/// The instruction behind a delimited first prompt.
pub open spec fn spec_delimited_instruction(prompt: Seq<char>) -> Option<Seq<char>> {
    match text::spec_strip_prefix(prompt, "refer to first prompt:"@) {
        Some(rest) => match text::spec_strip_prefix(
            text::spec_trim_start_char(rest, '\n'),
            "===---==="@,
        ) {
            Some(inner) => {
                let inner = text::spec_trim_start_char(inner, '\n');
                match text::spec_find(inner, "===---==="@) {
                    Some(i) => {
                        let tail = text::spec_trim_start_char(
                            inner.skip(i + "===---==="@.len()),
                            '\n',
                        );
                        if tail.len() > 0 {
                            Some(tail)
                        } else {
                            None
                        }
                    },
                    None => None,
                }
            },
            None => None,
        },
        None => None,
    }
}

fn delimited_instruction(prompt: &str) -> (r: Option<String>)
    ensures
        r.deep_view() == spec_delimited_instruction(prompt@),
{
    let delimiter = "===---===";
    match text::strip_prefix(prompt, "refer to first prompt:") {
        Some(rest) => match text::strip_prefix(text::trim_start_char(rest, '\n'), delimiter) {
            Some(inner) => {
                let inner = text::trim_start_char(inner, '\n');
                match text::find(inner, delimiter) {
                    Some(i) => {
                        let total: usize = inner.unicode_len();
                        let n: usize = delimiter.unicode_len();
                        assert(i + n <= total);
                        let tail = text::trim_start_char(text::skip(inner, i + n), '\n');
                        if tail.unicode_len() > 0 {
                            Some(text::owned(tail))
                        } else {
                            None
                        }
                    },
                    None => None,
                }
            },
            None => None,
        },
        None => None,
    }
}

/// The instruction in a prompt of any layout; the prompt itself where it has
/// no wrapper or nothing stands behind it.
pub open spec fn spec_strip_wrapper(prompt: Seq<char>) -> Seq<char> {
    if let Some(found) = spec_instruction(
        prompt,
        ORIGINAL_REQUEST_HEADING@,
        "## 4. Decision\n\n"@,
    ) {
        found
    } else if let Some(found) = spec_instruction(
        prompt,
        SUMMARY_HEADING@,
        "## 3. Decision\n\n"@,
    ) {
        found
    } else if let Some(found) = spec_instruction(
        prompt,
        LAST_MESSAGE_HEADING@,
        "## 2. Decision\n\n"@,
    ) {
        found
    } else if let Some(found) = spec_checkpoint_instruction(prompt) {
        found
    } else if let Some(found) = spec_delimited_instruction(prompt) {
        found
    } else {
        prompt
    }
}

/// Takes the wrapper off a prompt that goes to the thread it came from, which
/// has the context already.
pub fn strip_first_prompt_wrapper(prompt: &str) -> (r: String)
    ensures
        r@ == spec_strip_wrapper(prompt@),
{
    if let Some(found) = instruction(prompt, ORIGINAL_REQUEST_HEADING, "## 4. Decision\n\n") {
        return found;
    }
    if let Some(found) = instruction(prompt, SUMMARY_HEADING, "## 3. Decision\n\n") {
        return found;
    }
    if let Some(found) = instruction(prompt, LAST_MESSAGE_HEADING, "## 2. Decision\n\n") {
        return found;
    }
    if let Some(found) = checkpoint_instruction(prompt) {
        return found;
    }
    if let Some(found) = delimited_instruction(prompt) {
        return found;
    }
    text::owned(prompt)
}

// ---------------------------------------------------------------------------
// The summary for the next thread
// ---------------------------------------------------------------------------

/// A message cut for the summary: one of more than 2000 bytes ends one
/// character before its 2000th, or before its last one where it has fewer.
pub open spec fn spec_cut(s: Seq<char>) -> Seq<char> {
    if encode_utf8(s).len() > 2000 {
        s.take(
            if s.len() < 2000 {
                s.len() - 1
            } else {
                1999
            },
        ) + "..."@
    } else {
        s
    }
}

fn cut(s: &str) -> (r: String)
    ensures
        r@ == spec_cut(s@),
{
    if text::byte_len(s) > 2000 {
        let n: usize = s.unicode_len();
        if n == 0 {
            assert(s@ =~= seq![]);
            assert(encode_utf8(s@).len() == 0);
        }
        let end: usize = if n < 2000 {
            n - 1
        } else {
            1999
        };
        let mut r = text::owned(text::take(s, end));
        r.append("...");
        r
    } else {
        text::owned(s)
    }
}

/// The trimmed title, reason and cut last message, as far as they are there.
pub open spec fn spec_summary_parts(
    title: Option<Seq<char>>,
    reason: Option<Seq<char>>,
    last: Option<Seq<char>>,
) -> Seq<Seq<char>> {
    let first = match spec_trimmed(title) {
        Some(t) => seq![t],
        None => seq![],
    };
    let second = match spec_trimmed(reason) {
        Some(t) => first.push(t),
        None => first,
    };
    match spec_trimmed(last) {
        Some(t) => second.push(spec_cut(t)),
        None => second,
    }
}

/// The summary for the next thread: the model's own; else one made of title,
/// reason and last message; else the original message; else the one recovered
/// from the first message.
pub open spec fn spec_prompt_summary(
    thread_summary: Option<Seq<char>>,
    title: Option<Seq<char>>,
    reason: Option<Seq<char>>,
    last: Option<Seq<char>>,
    original: Option<Seq<char>>,
    first: Option<Seq<char>>,
) -> Option<Seq<char>> {
    let parts = spec_summary_parts(title, reason, last);
    if text::spec_present(thread_summary) is Some {
        thread_summary
    } else if parts.len() > 0 {
        Some(segments::spec_join(parts, "\n"@))
    } else if text::spec_present(original) is Some {
        original
    } else {
        match first {
            Some(message) => spec_original_message(message),
            None => None,
        }
    }
}

/// Builds the summary that the next thread starts with.
pub fn build_prompt_summary(
    thread_summary: Option<&str>,
    title: Option<&str>,
    reason: Option<&str>,
    last_assistant_message: Option<&str>,
    original_user_message: Option<&str>,
    first_user_message: Option<&str>,
) -> (r: Option<String>)
    ensures
        r.deep_view() == spec_prompt_summary(
            thread_summary.deep_view(),
            title.deep_view(),
            reason.deep_view(),
            last_assistant_message.deep_view(),
            original_user_message.deep_view(),
            first_user_message.deep_view(),
        ),
{
    if let Some(summary) = text::present(thread_summary) {
        return Some(text::owned(summary));
    }
    let mut parts: Vec<String> = Vec::new();
    assert(parts.deep_view() =~= seq![]);
    if let Some(t) = trimmed(title) {
        parts.push(text::owned(t));
        assert(parts.deep_view() =~= seq![t@]);
    }
    if let Some(t) = trimmed(reason) {
        let ghost before = parts.deep_view();
        parts.push(text::owned(t));
        assert(parts.deep_view() =~= before.push(t@));
    }
    if let Some(t) = trimmed(last_assistant_message) {
        let ghost before = parts.deep_view();
        let short = cut(t);
        parts.push(short);
        assert(parts.deep_view() =~= before.push(short@));
    }
    if parts.len() > 0 {
        return Some(segments::join_strings(&parts, "\n"));
    }
    if let Some(original) = text::present(original_user_message) {
        return Some(text::owned(original));
    }
    match first_user_message {
        Some(message) => extract_original_user_message(message),
        None => None,
    }
}

// ---------------------------------------------------------------------------
// Laws
// ---------------------------------------------------------------------------

/// A section that starts with `text` and is closed by a rule holds just that text.
proof fn lemma_section_ends_at_rule(text: Seq<char>, rest: Seq<char>)
    requires
        text.len() > 0,
        text::spec_trim(text) == text,
        !text::spec_contains(text, SECTION_END@),
    ensures
        spec_until(text + "\n\n---"@ + rest, SECTION_END@) == text + seq!['\n'],
{
    reveal_strlit("\n---");
    reveal_strlit("\n\n---");
    let s = text + "\n\n---"@ + rest;
    let end = SECTION_END@;
    let n = text.len() as int;
    assert(s.subrange(n + 1, n + 5) =~= end);
    assert(text::occurs_at(s, end, n + 1));
    assert forall|j: int| 0 <= j < n + 1 implies !#[trigger] text::occurs_at(s, end, j) by {
        if text::occurs_at(s, end, j) {
            let found = s.subrange(j, j + 4);
            assert(found[0] == '\n' && found[1] == '-' && found[2] == '-' && found[3] == '-');
            if j + 4 <= n {
                assert(text.subrange(j, j + 4) =~= end);
                assert(text::occurs_at(text, end, j));
            } else {
                assert(s[n] == '\n');
                assert(s[n + 1] == '\n');
                assert(found[n - j] == s[n]);
                if j == n {
                    assert(found[1] == s[n + 1]);
                }
            }
        }
    }
    text::lemma_find_is(s, end, n + 1);
    assert(s.take(n + 1) =~= text + seq!['\n']);
}

/// The summary that goes into a wrapped prompt is what comes out as the
/// original message, with any text before the wrapper that does not hold the
/// summary heading itself. A summary with a line that starts with `---` is cut
/// off before that line.
pub proof fn law_wrapped_summary_is_recovered(
    before: Seq<char>,
    next_prompt: Seq<char>,
    summary: Seq<char>,
    last: Option<Seq<char>>,
)
    requires
        !text::is_blank(summary),
        !text::spec_contains(text::spec_trim(summary), SECTION_END@),
        !text::spec_contains(before + SUMMARY_HEADING@.drop_last(), SUMMARY_HEADING@),
    ensures
        spec_original_message(before + spec_with_context(next_prompt, Some(summary), last)) == Some(
            text::spec_trim(summary),
        ),
{
    reveal_strlit("## 1. Thread Summary");
    reveal_strlit("\n\n");
    reveal_strlit("\n\n---");
    let heading = SUMMARY_HEADING@;
    let body = text::spec_trim(summary);
    text::lemma_trimmed(summary);
    let wrapped = spec_with_context(next_prompt, Some(summary), last);
    let fixed = heading + "\n\n"@ + body + "\n\n---"@;
    let tail = wrapped.skip(fixed.len() as int);
    let tail_head = match spec_trimmed(last) {
        Some(l) => "\n\n## 2. Last Assistant Message\n\n"@ + l + "\n\n---\n\n"@,
        None => "\n\n"@,
    };
    assert(wrapped =~= fixed + (tail_head + "## 3. Decision\n\n"@ + next_prompt));
    assert(wrapped =~= fixed + tail);
    // Trimming keeps everything up to the rule behind the summary.
    text::lemma_trim_start_before(before, wrapped);
    let front = text::spec_trim_start(before);
    assert(front + wrapped =~= (front + fixed) + tail);
    text::lemma_trim_end_behind(front + fixed, tail);
    let rest = text::spec_trim_end(tail);
    let stripped = text::spec_trim(before + wrapped);
    assert(stripped == front + fixed + rest);
    // The first heading is the wrapper's own.
    let k = front.len() as int;
    assert(stripped.subrange(k, k + heading.len()) =~= heading);
    assert(text::occurs_at(stripped, heading, k));
    text::lemma_trim_start_is_suffix(before);
    let d = before.len() - front.len();
    assert forall|j: int| 0 <= j < k implies !#[trigger] text::occurs_at(stripped, heading, j) by {
        if text::occurs_at(stripped, heading, j) {
            let joined = before + heading.drop_last();
            assert(stripped.subrange(j, j + heading.len()) =~= joined.subrange(
                d + j,
                d + j + heading.len(),
            ));
            assert(text::occurs_at(joined, heading, d + j));
        }
    }
    text::lemma_find_is(stripped, heading, k);
    // What follows the heading is the section.
    let after = stripped.skip(k + heading.len());
    let section = body + "\n\n---"@ + rest;
    assert(after =~= "\n\n"@ + section);
    assert(after.skip(1) =~= seq!['\n'] + section);
    assert(after.skip(1).skip(1) =~= section);
    assert(section[0] == body[0]);
    assert(text::spec_trim_start_char(after, '\n') == section) by {
        reveal_with_fuel(text::spec_trim_start_char, 4);
    }
    lemma_section_ends_at_rule(body, rest);
    text::lemma_trim_end_behind(body, seq!['\n']);
    assert(text::spec_trim_end(seq!['\n']) =~= seq![]) by {
        reveal_with_fuel(text::spec_trim_end, 3);
    }
    assert(text::spec_trim(body + seq!['\n']) =~= body) by {
        assert((body + seq!['\n'])[0] == body[0]);
    }
}

/// A message that was recovered once is recovered again from the next wrapper:
/// it does not change from thread to thread.
pub proof fn law_recovered_message_is_stable(
    first_prompt: Seq<char>,
    next_prompt: Seq<char>,
    summary: Seq<char>,
    first_last: Option<Seq<char>>,
    next_last: Option<Seq<char>>,
)
    requires
        !text::is_blank(summary),
        !text::spec_contains(text::spec_trim(summary), SECTION_END@),
    ensures
        ({
            let once = spec_original_message(
                spec_with_context(first_prompt, Some(summary), first_last),
            );
            once is Some && spec_original_message(spec_with_context(next_prompt, once, next_last))
                == once
        }),
{
    reveal_strlit("## 1. Thread Summary");
    let heading = SUMMARY_HEADING@;
    let none: Seq<char> = seq![];
    assert(none + heading.drop_last() =~= heading.drop_last());
    assert(!text::spec_contains(none + heading.drop_last(), heading));
    law_wrapped_summary_is_recovered(none, first_prompt, summary, first_last);
    let wrapped = spec_with_context(first_prompt, Some(summary), first_last);
    assert(none + wrapped =~= wrapped);
    let kept = text::spec_trim(summary);
    text::lemma_trimmed(summary);
    law_wrapped_summary_is_recovered(none, next_prompt, kept, next_last);
    let again = spec_with_context(next_prompt, Some(kept), next_last);
    assert(none + again =~= again);
}

/// What stands before the instruction's heading does not hold that heading.
pub open spec fn spec_heading_is_first(head: Seq<char>, heading: Seq<char>) -> bool {
    !text::spec_contains(head + heading.drop_last(), heading)
}

proof fn lemma_first_heading(head: Seq<char>, heading: Seq<char>, rest: Seq<char>)
    requires
        heading.len() > 0,
        spec_heading_is_first(head, heading),
    ensures
        text::spec_find(head + heading + rest, heading) == Some(head.len() as int),
{
    let s = head + heading + rest;
    let k = head.len() as int;
    text::lemma_contains_part(head, heading, rest);
    assert forall|j: int| 0 <= j < k implies !#[trigger] text::occurs_at(s, heading, j) by {
        if text::occurs_at(s, heading, j) {
            let joined = head + heading.drop_last();
            assert(s.subrange(j, j + heading.len()) =~= joined.subrange(j, j + heading.len()));
            assert(text::occurs_at(joined, heading, j));
        }
    }
    text::lemma_find_is(s, heading, k);
}

/// Taking the wrapper off gives back the instruction that it was put around,
/// where neither summary nor last message holds the instruction's heading.
pub proof fn law_stripping_undoes_wrapping(
    next_prompt: Seq<char>,
    summary: Option<Seq<char>>,
    last: Option<Seq<char>>,
)
    requires
        !text::is_blank(next_prompt),
        spec_trimmed(summary) is Some || spec_trimmed(last) is Some,
        spec_heading_is_first(
            spec_wrapper_head(spec_trimmed(summary), spec_trimmed(last)),
            spec_decision_heading(spec_trimmed(summary), spec_trimmed(last)),
        ),
    ensures
        spec_strip_wrapper(spec_with_context(next_prompt, summary, last)) == text::spec_trim(
            next_prompt,
        ),
{
    reveal_strlit("## 1. Thread Summary");
    reveal_strlit("## 1. First Prompt (original request)");
    reveal_strlit("## 1. Last Assistant Message");
    reveal_strlit("## 2. Decision\n\n");
    reveal_strlit("## 3. Decision\n\n");
    let head = spec_wrapper_head(spec_trimmed(summary), spec_trimmed(last));
    let decision = spec_decision_heading(spec_trimmed(summary), spec_trimmed(last));
    let prompt = head + decision + next_prompt;
    lemma_first_heading(head, decision, next_prompt);
    assert(prompt.skip((head.len() + decision.len()) as int) =~= next_prompt);
    let old_heading = ORIGINAL_REQUEST_HEADING@;
    if spec_trimmed(summary) is Some {
        assert(prompt.subrange(0, SUMMARY_HEADING@.len() as int) =~= SUMMARY_HEADING@);
    } else {
        assert(prompt.subrange(0, LAST_MESSAGE_HEADING@.len() as int) =~= LAST_MESSAGE_HEADING@);
        if text::spec_starts_with(prompt, SUMMARY_HEADING@) {
            assert(prompt.subrange(0, SUMMARY_HEADING@.len() as int)[6] == prompt[6]);
        }
    }
    if text::spec_starts_with(prompt, old_heading) {
        assert(prompt.subrange(0, old_heading.len() as int)[6] == prompt[6]);
    }
}

/// Without a summary and a last message, the next prompt goes out as it is.
pub proof fn law_no_context_leaves_the_prompt(
    next_prompt: Seq<char>,
    summary: Option<Seq<char>>,
    last: Option<Seq<char>>,
)
    requires
        text::spec_present(summary) is None,
        text::spec_present(last) is None,
    ensures
        spec_with_context(next_prompt, summary, last) == next_prompt,
{
    assert(spec_with_context(next_prompt, summary, last) =~= next_prompt);
}

/// A wrapped prompt ends in the next prompt, whatever was put before it.
pub proof fn law_wrapped_prompt_ends_in_the_prompt(
    next_prompt: Seq<char>,
    summary: Option<Seq<char>>,
    last: Option<Seq<char>>,
)
    ensures
        text::spec_ends_with(spec_with_context(next_prompt, summary, last), next_prompt),
{
    let s = spec_with_context(next_prompt, summary, last);
    assert(s.subrange(s.len() - next_prompt.len(), s.len() as int) =~= next_prompt);
}

/// There is a summary for the next thread wherever the model gave one.
pub proof fn law_model_summary_wins(
    thread_summary: Seq<char>,
    title: Option<Seq<char>>,
    reason: Option<Seq<char>>,
    last: Option<Seq<char>>,
    original: Option<Seq<char>>,
    first: Option<Seq<char>>,
)
    requires
        !text::is_blank(thread_summary),
    ensures
        spec_prompt_summary(Some(thread_summary), title, reason, last, original, first) == Some(
            thread_summary,
        ),
{
}

/// Leading lines are dropped only while they start with the prefix: a text that
/// does not start with it stays whole.
proof fn lemma_text_without_leading_prefix_stays(s: Seq<char>, prefix: Seq<char>)
    requires
        s.len() > 0,
        text::spec_trim(s) == s,
        !text::spec_contains(s, seq!['\r', '\n']),
        !text::spec_starts_with(s, prefix),
        !prefix.contains('\n'),
        prefix.len() > 0,
    ensures
        spec_without_leading(s, prefix) == s,
{
    reveal_strlit("\n");
    assert("\n"@ =~= seq!['\n']);
    text::lemma_trimmed(s);
    segments::law_lines_join_to_the_text(s);
    segments::lemma_first_of_lines(s);
    let lines = segments::spec_lines(s);
    let first = lines[0];
    assert(text::spec_trim_start(first) == first);
    if text::spec_starts_with(first, prefix) {
        assert(s.subrange(0, prefix.len() as int) =~= first.subrange(0, prefix.len() as int));
    }
    assert(spec_skip_while(lines, prefix) == lines);
}

/// A message without a wrapper is recovered whole: one that is trimmed, has
/// plain line feeds, holds neither section heading nor a reference to the first
/// thread, and starts with none of a heading, a thread link and a reference to
/// the first prompt.
pub proof fn law_raw_message_is_recovered_whole(message: Seq<char>)
    requires
        message.len() > 0,
        text::spec_trim(message) == message,
        !text::spec_contains(message, seq!['\r', '\n']),
        !text::spec_contains(message, "## 1. Thread Summary"@),
        !text::spec_contains(message, "## 1. First Prompt (original request)"@),
        !text::spec_contains(message, "\n---\nrefer to first thread\n---\n"@),
        !text::spec_starts_with(message, "refer to first prompt"@),
        !text::spec_starts_with(message, "## "@),
        !text::spec_starts_with(message, "["@),
    ensures
        spec_original_message(message) == Some(message),
{
    reveal_strlit("## ");
    reveal_strlit("[");
    reveal_strlit("refer to first prompt");
    reveal_strlit("refer to first prompt:");
    lemma_text_without_leading_prefix_stays(message, "## "@);
    lemma_text_without_leading_prefix_stays(message, "["@);
    text::lemma_find(message, ORIGINAL_REQUEST_HEADING@);
    text::lemma_find(message, "\n---\nrefer to first thread\n---\n"@);
    if text::spec_starts_with(message, "refer to first prompt:"@) {
        assert(message.subrange(0, 21) =~= message.subrange(0, 22).subrange(0, 21));
        assert("refer to first prompt:"@.subrange(0, 21) =~= "refer to first prompt"@);
    }
}

/// The wrapper is laid out in numbered sections: the summary, the last message
/// and the decision, which is the prompt as it was given. What is blank or absent
/// gets no section.
pub proof fn law_wrapper_is_laid_out_in_sections(
    prompt: Seq<char>,
    summary: Seq<char>,
    last: Seq<char>,
)
    requires
        !text::is_blank(summary),
        !text::is_blank(last),
    ensures
        spec_with_context(prompt, Some(summary), Some(last)) == "## 1. Thread Summary\n\n"@
            + text::spec_trim(summary) + "\n\n---\n\n## 2. Last Assistant Message\n\n"@
            + text::spec_trim(last) + "\n\n---\n\n## 3. Decision\n\n"@ + prompt,
        spec_with_context(prompt, Some(summary), None) == "## 1. Thread Summary\n\n"@
            + text::spec_trim(summary) + "\n\n---\n\n## 3. Decision\n\n"@ + prompt,
        spec_with_context(prompt, None, Some(last)) == "## 1. Last Assistant Message\n\n"@
            + text::spec_trim(last) + "\n\n---\n\n## 2. Decision\n\n"@ + prompt,
        spec_with_context(prompt, None, None) == prompt,
{
    reveal_strlit("## 1. Thread Summary");
    reveal_strlit("## 1. Thread Summary\n\n");
    reveal_strlit("## 1. Last Assistant Message");
    reveal_strlit("## 1. Last Assistant Message\n\n");
    reveal_strlit("\n\n");
    reveal_strlit("\n\n---");
    reveal_strlit("\n\n---\n\n");
    reveal_strlit("\n\n## 2. Last Assistant Message\n\n");
    reveal_strlit("\n\n---\n\n## 2. Last Assistant Message\n\n");
    reveal_strlit("## 3. Decision\n\n");
    reveal_strlit("\n\n---\n\n## 3. Decision\n\n");
    reveal_strlit("## 2. Decision\n\n");
    reveal_strlit("\n\n---\n\n## 2. Decision\n\n");
    assert(SUMMARY_HEADING@ + "\n\n"@ =~= "## 1. Thread Summary\n\n"@);
    assert(LAST_MESSAGE_HEADING@ + "\n\n"@ =~= "## 1. Last Assistant Message\n\n"@);
    assert("\n\n---"@ + "\n\n## 2. Last Assistant Message\n\n"@
        =~= "\n\n---\n\n## 2. Last Assistant Message\n\n"@);
    assert("\n\n---\n\n"@ + "## 3. Decision\n\n"@ =~= "\n\n---\n\n## 3. Decision\n\n"@);
    assert("\n\n---"@ + "\n\n"@ + "## 3. Decision\n\n"@
        =~= "\n\n---\n\n## 3. Decision\n\n"@);
    assert("\n\n---\n\n"@ + "## 2. Decision\n\n"@ =~= "\n\n---\n\n## 2. Decision\n\n"@);
    assert(spec_with_context(prompt, Some(summary), Some(last)) =~= "## 1. Thread Summary\n\n"@
        + text::spec_trim(summary) + "\n\n---\n\n## 2. Last Assistant Message\n\n"@
        + text::spec_trim(last) + "\n\n---\n\n## 3. Decision\n\n"@ + prompt);
    assert(spec_with_context(prompt, Some(summary), None) =~= "## 1. Thread Summary\n\n"@
        + text::spec_trim(summary) + "\n\n---\n\n## 3. Decision\n\n"@ + prompt);
    assert(spec_with_context(prompt, None, Some(last)) =~= "## 1. Last Assistant Message\n\n"@
        + text::spec_trim(last) + "\n\n---\n\n## 2. Decision\n\n"@ + prompt);
    assert(spec_with_context(prompt, None, None) =~= prompt);
}

/// A text that can be a whole message without headings and links before it.
pub open spec fn spec_is_bare(message: Seq<char>) -> bool {
    &&& message.len() > 0
    &&& text::spec_trim(message) == message
    &&& !text::spec_contains(message, seq!['\r', '\n'])
    &&& !text::spec_contains(message, "## 1. Thread Summary"@)
    &&& !text::spec_contains(message, "## 1. First Prompt (original request)"@)
    &&& !text::spec_starts_with(message, "## "@)
    &&& !text::spec_starts_with(message, "["@)
}

proof fn lemma_bare_body(message: Seq<char>)
    requires
        spec_is_bare(message),
    ensures
        spec_message_body(message) == message,
        spec_first_section(text::spec_trim(message)) is None,
{
    reveal_strlit("## ");
    reveal_strlit("[");
    lemma_text_without_leading_prefix_stays(message, "## "@);
    lemma_text_without_leading_prefix_stays(message, "["@);
    text::lemma_find(message, ORIGINAL_REQUEST_HEADING@);
}

/// In front of a reference to the first thread stands the original message.
pub proof fn law_message_before_a_thread_reference_is_recovered(
    original: Seq<char>,
    rest: Seq<char>,
)
    requires
        spec_is_bare(original + "\n---\nrefer to first thread\n---\n"@ + rest),
        original.len() > 0,
        text::spec_trim(original) == original,
        segments::spec_ends_at_first(original, "\n---\nrefer to first thread\n---\n"@),
    ensures
        spec_original_message(original + "\n---\nrefer to first thread\n---\n"@ + rest) == Some(
            original,
        ),
{
    reveal_strlit("\n---\nrefer to first thread\n---\n");
    reveal_strlit("## ");
    let mark = "\n---\nrefer to first thread\n---\n"@;
    let message = original + mark + rest;
    lemma_bare_body(message);
    segments::lemma_first_separator(original, mark, rest);
    assert(message.take(original.len() as int) =~= original);
    if text::spec_contains(original, seq!['\r', '\n']) {
        text::lemma_contains_extended(original, seq!['\r', '\n'], mark + rest);
        assert(original + (mark + rest) =~= message);
    }
    if text::spec_starts_with(original, "## "@) {
        assert(message.subrange(0, 3) =~= original.subrange(0, 3));
    }
    lemma_text_without_leading_prefix_stays(original, "## "@);
}

proof fn lemma_trim_start_of_white(white: Seq<char>, s: Seq<char>)
    requires
        text::spec_all_white(white),
        s.len() > 0,
        !text::is_white_space(s[0]),
    ensures
        text::spec_trim_start(white + s) == s,
    decreases white.len(),
{
    if white.len() == 0 {
        assert(white + s =~= s);
    } else {
        assert(text::is_white_space(white[0]));
        assert((white + s)[0] == white[0]);
        assert((white + s).skip(1) =~= white.skip(1) + s);
        assert(text::spec_all_white(white.skip(1))) by {
            assert forall|i: int| 0 <= i < white.skip(1).len() implies text::is_white_space(
                #[trigger] white.skip(1)[i],
            ) by {
                assert(white.skip(1)[i] == white[i + 1]);
            }
        }
        lemma_trim_start_of_white(white.skip(1), s);
    }
}

/// Between the delimiters behind the words that refer to it stands the original
/// message, trimmed.
pub proof fn law_delimited_message_is_recovered(
    space: Seq<char>,
    original: Seq<char>,
    rest: Seq<char>,
)
    requires
        text::spec_all_white(space),
        original.len() > 0,
        original[0] != '\n',
        !text::is_blank(original),
        segments::spec_ends_at_first(original, "===---==="@),
        ({
            let message = "refer to first prompt:"@ + space + "===---===\n"@ + original
                + "===---==="@ + rest;
            spec_is_bare(message) && !text::spec_contains(
                message,
                "\n---\nrefer to first thread\n---\n"@,
            )
        }),
    ensures
        spec_original_message(
            "refer to first prompt:"@ + space + "===---===\n"@ + original + "===---==="@ + rest,
        ) == Some(text::spec_trim(original)),
{
    reveal_strlit("refer to first prompt:");
    reveal_strlit("===---===\n");
    reveal_strlit("===---===");
    let message = "refer to first prompt:"@ + space + "===---===\n"@ + original + "===---==="@
        + rest;
    let mark = "===---==="@;
    lemma_bare_body(message);
    text::lemma_find(message, "\n---\nrefer to first thread\n---\n"@);
    let inner = original + mark + rest;
    let opened = mark + (seq!['\n'] + inner);
    assert(message =~= "refer to first prompt:"@ + (space + opened));
    text::law_prefix_comes_off("refer to first prompt:"@, space + opened);
    lemma_trim_start_of_white(space, opened);
    text::law_prefix_comes_off(mark, seq!['\n'] + inner);
    assert(Seq::new(1, |i: int| '\n') =~= seq!['\n']);
    assert(inner[0] == original[0]);
    text::law_trimmed_char_is_only_at_the_end(inner, '\n', 1);
    segments::lemma_first_separator(original, mark, rest);
    assert(inner.take(original.len() as int) =~= original);
}

/// The same holds of the older delimiters, a rule before and a rule behind it.
pub proof fn law_ruled_message_is_recovered(
    space: Seq<char>,
    original: Seq<char>,
    rest: Seq<char>,
)
    requires
        text::spec_all_white(space),
        original.len() > 0,
        original[0] != '\n',
        !text::is_blank(original),
        segments::spec_ends_at_first(original, "\n---"@),
        ({
            let message = "refer to first prompt:"@ + space + "---\n"@ + original + "\n---"@
                + rest;
            spec_is_bare(message) && !text::spec_contains(
                message,
                "\n---\nrefer to first thread\n---\n"@,
            )
        }),
    ensures
        spec_original_message(
            "refer to first prompt:"@ + space + "---\n"@ + original + "\n---"@ + rest,
        ) == Some(text::spec_trim(original)),
{
    reveal_strlit("refer to first prompt:");
    reveal_strlit("---\n");
    reveal_strlit("---");
    reveal_strlit("\n---");
    reveal_strlit("===---===");
    let message = "refer to first prompt:"@ + space + "---\n"@ + original + "\n---"@ + rest;
    lemma_bare_body(message);
    text::lemma_find(message, "\n---\nrefer to first thread\n---\n"@);
    let inner = original + "\n---"@ + rest;
    let opened = "---"@ + (seq!['\n'] + inner);
    assert(message =~= "refer to first prompt:"@ + (space + opened));
    text::law_prefix_comes_off("refer to first prompt:"@, space + opened);
    lemma_trim_start_of_white(space, opened);
    if text::spec_starts_with(opened, "===---==="@) {
        assert(opened.subrange(0, 9)[0] == opened[0]);
    }
    text::law_prefix_comes_off("---"@, seq!['\n'] + inner);
    assert(Seq::new(1, |i: int| '\n') =~= seq!['\n']);
    assert(inner[0] == original[0]);
    text::law_trimmed_char_is_only_at_the_end(inner, '\n', 1);
    segments::lemma_first_separator(original, "\n---"@, rest);
    assert(inner.take(original.len() as int) =~= original);
}

/// A message in quotation marks behind such words is recovered as it is.
pub proof fn law_quoted_message_is_recovered(
    space: Seq<char>,
    original: Seq<char>,
    rest: Seq<char>,
)
    requires
        text::spec_all_white(space),
        !text::is_blank(original),
        !original.contains('"'),
        ({
            let message = "refer to first prompt"@ + space + "\""@ + original + "\""@ + rest;
            spec_is_bare(message) && !text::spec_contains(
                message,
                "\n---\nrefer to first thread\n---\n"@,
            )
        }),
    ensures
        spec_original_message(
            "refer to first prompt"@ + space + "\""@ + original + "\""@ + rest,
        ) == Some(original),
{
    reveal_strlit("refer to first prompt:");
    reveal_strlit("refer to first prompt");
    reveal_strlit("\"");
    let mark = "\""@;
    assert(mark =~= seq!['"']);
    let message = "refer to first prompt"@ + space + mark + original + mark + rest;
    lemma_bare_body(message);
    text::lemma_find(message, "\n---\nrefer to first thread\n---\n"@);
    let inner = original + mark + rest;
    let opened = mark + inner;
    let behind = space + opened;
    assert(message =~= "refer to first prompt"@ + behind);
    text::law_prefix_comes_off("refer to first prompt"@, behind);
    // What follows the words is no colon.
    if text::spec_starts_with(message, "refer to first prompt:"@) {
        assert(message.subrange(0, 22)[21] == message[21]);
        assert(message[21] == behind[0]);
        if space.len() > 0 {
            assert(text::is_white_space(space[0]));
        }
    }
    text::lemma_trimmed(message);
    lemma_trim_start_of_white(space, opened);
    assert(opened.last() == message.last());
    assert(text::spec_trim(behind) == opened);
    text::law_prefix_comes_off(mark, inner);
    segments::lemma_ends_at_first_char(original, '"');
    segments::lemma_first_separator(original, mark, rest);
    assert(inner.take(original.len() as int) =~= original);
}

proof fn lemma_leading_line_is_dropped(line: Seq<char>, rest: Seq<char>, prefix: Seq<char>)
    requires
        segments::spec_is_line(line),
        text::spec_starts_with(line, prefix),
        prefix.len() > 0,
        !text::is_white_space(prefix[0]),
        rest.len() > 0,
        text::spec_trim(rest) == rest,
        !text::spec_contains(rest, seq!['\r', '\n']),
        !text::spec_starts_with(rest, prefix),
        !prefix.contains('\n'),
    ensures
        spec_without_leading(line + seq!['\n'] + rest, prefix) == rest,
{
    reveal_strlit("\n");
    assert("\n"@ =~= seq!['\n']);
    let lines = segments::spec_lines(line + seq!['\n'] + rest);
    segments::lemma_lines_behind_a_line(line, rest);
    assert(lines.skip(1) =~= segments::spec_lines(rest));
    assert(line.subrange(0, prefix.len() as int)[0] == line[0]);
    assert(text::spec_trim_start(line) == line);
    lemma_text_without_leading_prefix_stays(rest, prefix);
    text::lemma_trimmed(rest);
    segments::law_lines_join_to_the_text(rest);
    segments::lemma_first_of_lines(rest);
    let first = segments::spec_lines(rest)[0];
    assert(text::spec_trim_start(first) == first);
    if text::spec_starts_with(first, prefix) {
        assert(rest.subrange(0, prefix.len() as int) =~= first.subrange(0, prefix.len() as int));
    }
    assert(spec_skip_while(segments::spec_lines(rest), prefix) == segments::spec_lines(rest));
    assert(lines[0] == line);
    assert(spec_skip_while(lines, prefix) == segments::spec_lines(rest));
}

proof fn lemma_line_before_text_keeps_feeds(line: Seq<char>, rest: Seq<char>)
    requires
        segments::spec_is_line(line),
        !text::spec_contains(rest, seq!['\r', '\n']),
    ensures
        !text::spec_contains(line + seq!['\n'] + rest, seq!['\r', '\n']),
{
    let message = line + seq!['\n'] + rest;
    let p = seq!['\r', '\n'];
    if text::spec_contains(message, p) {
        let j = choose|j: int| text::occurs_at(message, p, j);
        let n = line.len() as int;
        assert(message.subrange(j, j + 2)[0] == message[j]);
        assert(message.subrange(j, j + 2)[1] == message[j + 1]);
        if j + 1 < n {
            assert(line.contains(line[j + 1]));
        } else if j < n {
            assert(line.last() == message[j]);
        } else if j > n {
            let k = j - n - 1;
            assert(rest.subrange(k, k + 2) =~= p);
            assert(text::occurs_at(rest, p, k));
        }
    }
}

/// A heading before a message is not part of it, and neither is a thread link.
pub proof fn law_heading_and_link_are_not_part_of_the_message(line: Seq<char>, original: Seq<char>)
    requires
        segments::spec_is_line(line),
        text::spec_starts_with(line, "## "@) || text::spec_starts_with(line, "["@),
        !text::spec_contains(line + seq!['\n'] + original, "## 1. Thread Summary"@),
        !text::spec_contains(
            line + seq!['\n'] + original,
            "## 1. First Prompt (original request)"@,
        ),
        spec_is_bare(original),
        !text::spec_contains(original, "\n---\nrefer to first thread\n---\n"@),
        !text::spec_starts_with(original, "refer to first prompt"@),
    ensures
        spec_original_message(line + seq!['\n'] + original) == Some(original),
{
    reveal_strlit("## ");
    reveal_strlit("[");
    let message = line + seq!['\n'] + original;
    text::lemma_trimmed(original);
    let none = Seq::<char>::empty();
    if text::spec_starts_with(line, "## "@) {
        assert(line.subrange(0, 3)[0] == line[0]);
    } else {
        assert(line.subrange(0, 1)[0] == line[0]);
    }
    assert(message[0] == line[0] && message.last() == original.last());
    assert(none + message + none =~= message);
    text::law_trimming_drops_the_whitespace_around(none, message, none);
    text::lemma_find(message, ORIGINAL_REQUEST_HEADING@);
    if text::spec_starts_with(line, "## "@) {
        lemma_leading_line_is_dropped(line, original, "## "@);
        lemma_text_without_leading_prefix_stays(original, "["@);
    } else {
        lemma_line_before_text_keeps_feeds(line, original);
        if text::spec_starts_with(message, "## "@) {
            assert(message.subrange(0, 3)[0] == message[0]);
        }
        lemma_text_without_leading_prefix_stays(message, "## "@);
        lemma_leading_line_is_dropped(line, original, "["@);
    }
    lemma_bare_body(original);
    law_raw_message_is_recovered_whole(original);
}

/// A prompt without a wrapper is sent as it is.
pub proof fn law_bare_prompt_is_not_stripped(prompt: Seq<char>)
    requires
        !text::spec_starts_with(prompt, "## 1. First Prompt (original request)"@),
        !text::spec_starts_with(prompt, "## 1. Thread Summary"@),
        !text::spec_starts_with(prompt, "## 1. Last Assistant Message"@),
        !text::spec_starts_with(prompt, "## User (checkpoint)"@),
        !text::spec_starts_with(prompt, "refer to first prompt:"@),
    ensures
        spec_strip_wrapper(prompt) == prompt,
{
}

/// The older layout is stripped too: what follows the heading of its decision is
/// sent, trimmed.
pub proof fn law_older_layout_is_stripped(middle: Seq<char>, prompt: Seq<char>)
    requires
        !text::is_blank(prompt),
        segments::spec_ends_at_first(
            "## 1. First Prompt (original request)"@ + middle,
            "## 4. Decision\n\n"@,
        ),
    ensures
        spec_strip_wrapper(
            "## 1. First Prompt (original request)"@ + middle + "## 4. Decision\n\n"@ + prompt,
        ) == text::spec_trim(prompt),
{
    reveal_strlit("## 4. Decision\n\n");
    let heading = "## 1. First Prompt (original request)"@;
    let mark = "## 4. Decision\n\n"@;
    let head = heading + middle;
    let whole = head + mark + prompt;
    assert(whole =~= heading + (middle + mark + prompt));
    text::law_prefix_comes_off(heading, middle + mark + prompt);
    segments::lemma_first_separator(head, mark, prompt);
    assert(whole.skip((head.len() + mark.len()) as int) =~= prompt);
}

/// Behind a delimited first prompt stands what is sent.
pub proof fn law_delimited_layout_is_stripped(
    first: Seq<char>,
    before: nat,
    between: nat,
    behind: nat,
    prompt: Seq<char>,
)
    requires
        first.len() > 0,
        first[0] != '\n',
        segments::spec_ends_at_first(first, "===---==="@),
        prompt.len() > 0,
        prompt[0] != '\n',
    ensures
        ({
            let feeds = |n: nat| Seq::new(n, |i: int| '\n');
            spec_strip_wrapper(
                "refer to first prompt:"@ + feeds(before) + "===---==="@ + feeds(between) + first
                    + "===---==="@ + feeds(behind) + prompt,
            ) == prompt
        }),
{
    reveal_strlit("refer to first prompt:");
    reveal_strlit("===---===");
    reveal_strlit("## 1. First Prompt (original request)");
    reveal_strlit("## 1. Thread Summary");
    reveal_strlit("## 1. Last Assistant Message");
    reveal_strlit("## User (checkpoint)");
    let mark = "===---==="@;
    let f0 = Seq::new(before, |i: int| '\n');
    let f1 = Seq::new(between, |i: int| '\n');
    let f2 = Seq::new(behind, |i: int| '\n');
    let inner = first + mark + (f2 + prompt);
    let opened = mark + (f1 + inner);
    let whole = "refer to first prompt:"@ + f0 + mark + f1 + first + mark + f2 + prompt;
    assert(whole =~= "refer to first prompt:"@ + (f0 + opened));
    assert(whole[0] == 'r');
    if text::spec_starts_with(whole, ORIGINAL_REQUEST_HEADING@) {
        assert(whole.subrange(0, ORIGINAL_REQUEST_HEADING@.len() as int)[0] == whole[0]);
    }
    if text::spec_starts_with(whole, SUMMARY_HEADING@) {
        assert(whole.subrange(0, SUMMARY_HEADING@.len() as int)[0] == whole[0]);
    }
    if text::spec_starts_with(whole, LAST_MESSAGE_HEADING@) {
        assert(whole.subrange(0, LAST_MESSAGE_HEADING@.len() as int)[0] == whole[0]);
    }
    if text::spec_starts_with(whole, "## User (checkpoint)"@) {
        assert(whole.subrange(0, "## User (checkpoint)"@.len() as int)[0] == whole[0]);
    }
    text::law_prefix_comes_off("refer to first prompt:"@, f0 + opened);
    text::law_trimmed_char_is_only_at_the_end(opened, '\n', before);
    text::law_prefix_comes_off(mark, f1 + inner);
    assert(inner[0] == first[0]);
    text::law_trimmed_char_is_only_at_the_end(inner, '\n', between);
    segments::lemma_first_separator(first, mark, f2 + prompt);
    assert(inner.skip((first.len() + mark.len()) as int) =~= f2 + prompt);
    text::law_trimmed_char_is_only_at_the_end(prompt, '\n', behind);
}

/// Behind the reference of a checkpoint stands what is sent, without the
/// metadata before it.
pub proof fn law_checkpoint_layout_is_stripped(middle: Seq<char>, rest: Seq<char>)
    requires
        segments::spec_ends_at_first(
            "## User (checkpoint)"@ + middle,
            "---\nrefer to first thread\n---\n"@,
        ),
        spec_skip_metadata(rest).len() > 0,
    ensures
        spec_strip_wrapper(
            "## User (checkpoint)"@ + middle + "---\nrefer to first thread\n---\n"@ + rest,
        ) == spec_skip_metadata(rest),
{
    reveal_strlit("## User (checkpoint)");
    reveal_strlit("---\nrefer to first thread\n---\n");
    reveal_strlit("## 1. First Prompt (original request)");
    reveal_strlit("## 1. Thread Summary");
    reveal_strlit("## 1. Last Assistant Message");
    let heading = "## User (checkpoint)"@;
    let mark = "---\nrefer to first thread\n---\n"@;
    let head = heading + middle;
    let whole = head + mark + rest;
    assert(whole =~= heading + (middle + mark + rest));
    assert(whole[3] == 'U');
    if text::spec_starts_with(whole, ORIGINAL_REQUEST_HEADING@) {
        assert(whole.subrange(0, ORIGINAL_REQUEST_HEADING@.len() as int)[3] == whole[3]);
    }
    if text::spec_starts_with(whole, SUMMARY_HEADING@) {
        assert(whole.subrange(0, SUMMARY_HEADING@.len() as int)[3] == whole[3]);
    }
    if text::spec_starts_with(whole, LAST_MESSAGE_HEADING@) {
        assert(whole.subrange(0, LAST_MESSAGE_HEADING@.len() as int)[3] == whole[3]);
    }
    text::law_prefix_comes_off(heading, middle + mark + rest);
    segments::lemma_first_separator(head, mark, rest);
    assert(whole.skip((head.len() + mark.len()) as int) =~= rest);
}

/// Line `k` is a lone rule with more than whitespace below it.
pub open spec fn spec_is_rule_above_text(lines: Seq<Seq<char>>, k: int) -> bool {
    &&& 0 <= k < lines.len()
    &&& text::spec_trim(lines[k]) == seq!['-', '-', '-']
    &&& !text::is_blank(segments::spec_join(lines.skip(k + 1), seq!['\n']))
}

proof fn lemma_after_rule(lines: Seq<Seq<char>>, n: int, k: int)
    requires
        0 <= n <= lines.len(),
        forall|j: int| k < j < n ==> !#[trigger] spec_is_rule_above_text(lines, j),
        k < n,
        k >= 0 ==> spec_is_rule_above_text(lines, k),
    ensures
        k >= 0 ==> spec_after_rule(lines, n) == Some(
            text::spec_trim(segments::spec_join(lines.skip(k + 1), seq!['\n'])),
        ),
        k < 0 ==> spec_after_rule(lines, n) is None,
    decreases n,
{
    reveal_strlit("\n");
    reveal_strlit("---");
    assert("\n"@ =~= seq!['\n']);
    assert("---"@ =~= seq!['-', '-', '-']);
    if n > 0 && n - 1 > k {
        assert(!spec_is_rule_above_text(lines, n - 1));
        lemma_after_rule(lines, n - 1, k);
    }
}

/// Behind metadata, what follows the last lone rule is the instruction; a rule
/// with nothing below it does not count, and without any the whole text is.
pub proof fn law_instruction_follows_the_last_rule(s: Seq<char>, k: int)
    requires
        ({
            let lines = segments::spec_lines(s);
            &&& k < lines.len()
            &&& k >= 0 ==> spec_is_rule_above_text(lines, k)
            &&& forall|j: int| k < j < lines.len() ==> !#[trigger] spec_is_rule_above_text(lines, j)
        }),
    ensures
        k >= 0 ==> spec_skip_metadata(s) == text::spec_trim(
            segments::spec_join(segments::spec_lines(s).skip(k + 1), seq!['\n']),
        ),
        k < 0 ==> spec_skip_metadata(s) == text::spec_trim(s),
{
    let lines = segments::spec_lines(s);
    if lines.len() > 0 {
        lemma_after_rule(lines, lines.len() as int, k);
    }
}

/// A message for the summary is cut only where it has more than two thousand
/// bytes. Then it keeps its beginning, as far as one character before the two
/// thousandth or before its last one.
pub proof fn law_long_message_keeps_its_beginning(s: Seq<char>)
    ensures
        encode_utf8(s).len() <= 2000 ==> spec_cut(s) == s,
        encode_utf8(s).len() > 2000 && s.len() > 0 ==> {
            let kept = if s.len() >= 2000 {
                1999
            } else {
                s.len() - 1
            };
            &&& spec_cut(s).len() == kept + 3
            &&& forall|i: int| 0 <= i < kept ==> #[trigger] spec_cut(s)[i] == s[i]
            &&& spec_cut(s).skip(kept) == "..."@
        },
{
    reveal_strlit("...");
    if encode_utf8(s).len() > 2000 && s.len() > 0 {
        let kept = if s.len() >= 2000 {
            1999
        } else {
            s.len() - 1
        };
        assert(spec_cut(s).skip(kept) =~= "..."@);
    }
}

/// The summary is made of the title, the reason and the last message, each where
/// it says something, in this order and below one another.
pub proof fn law_summary_tells_title_reason_and_last_message(
    title: Option<Seq<char>>,
    reason: Option<Seq<char>>,
    last: Option<Seq<char>>,
)
    ensures
        spec_summary_parts(title, reason, last) == spec_summary_parts(title, None, None)
            + spec_summary_parts(None, reason, None) + spec_summary_parts(None, None, last),
        spec_summary_parts(title, None, None) == if title matches Some(t) && !text::is_blank(t) {
            seq![text::spec_trim(title->Some_0)]
        } else {
            seq![]
        },
        spec_summary_parts(None, reason, None) == if reason matches Some(t) && !text::is_blank(t) {
            seq![text::spec_trim(reason->Some_0)]
        } else {
            seq![]
        },
        spec_summary_parts(None, None, last) == if last matches Some(t) && !text::is_blank(t) {
            seq![spec_cut(text::spec_trim(last->Some_0))]
        } else {
            seq![]
        },
{
    assert(spec_summary_parts(title, reason, last) =~= spec_summary_parts(title, None, None)
        + spec_summary_parts(None, reason, None) + spec_summary_parts(None, None, last));
    assert(spec_summary_parts(title, None, None) =~= if title matches Some(t) && !text::is_blank(
        t,
    ) {
        seq![text::spec_trim(title->Some_0)]
    } else {
        seq![]
    });
    assert(spec_summary_parts(None, reason, None) =~= if reason matches Some(t) && !text::is_blank(
        t,
    ) {
        seq![text::spec_trim(reason->Some_0)]
    } else {
        seq![]
    });
    assert(spec_summary_parts(None, None, last) =~= if last matches Some(t) && !text::is_blank(t) {
        seq![spec_cut(text::spec_trim(last->Some_0))]
    } else {
        seq![]
    });
}

/// Without a summary of the model's own the next thread gets that one; where it
/// says nothing, the original message; and failing that, what the first message
/// carries.
pub proof fn law_summary_falls_back_to_the_original_message(
    thread_summary: Option<Seq<char>>,
    title: Option<Seq<char>>,
    reason: Option<Seq<char>>,
    last: Option<Seq<char>>,
    original: Option<Seq<char>>,
    first: Option<Seq<char>>,
)
    requires
        thread_summary matches Some(t) ==> text::is_blank(t),
    ensures
        ({
            let parts = spec_summary_parts(title, reason, last);
            let summary = spec_prompt_summary(thread_summary, title, reason, last, original, first);
            let has_original = original matches Some(t) && !text::is_blank(t);
            &&& parts.len() > 0 ==> summary == Some(segments::spec_join(parts, seq!['\n']))
            &&& parts.len() == 0 && has_original ==> summary == original
            &&& parts.len() == 0 && !has_original && first is None ==> summary is None
            &&& parts.len() == 0 && !has_original && first is Some ==> summary
                == spec_original_message(first->Some_0)
        }),
{
    reveal_strlit("\n");
    assert("\n"@ =~= seq!['\n']);
}

/// A call recovers a message without a wrapper whole.
pub proof fn law_call_recovers_a_raw_message_whole(message: &str, r: Option<String>)
    requires
        call_ensures(extract_original_user_message, (message,), r),
        spec_is_bare(message@),
        !text::spec_contains(message@, "\n---\nrefer to first thread\n---\n"@),
        !text::spec_starts_with(message@, "refer to first prompt"@),
    ensures
        r matches Some(original) && original@ == message@,
{
    law_raw_message_is_recovered_whole(message@);
}

/// The summary that one call wraps around a prompt is what another call recovers
/// from it.
pub proof fn law_calls_wrap_and_recover(
    prompt: String,
    summary: &str,
    title: Option<&str>,
    last: Option<&str>,
    wrapped: String,
    message: &str,
    recovered: Option<String>,
)
    requires
        call_ensures(with_first_prompt_context, (prompt, Some(summary), title, last), wrapped),
        message@ == wrapped@,
        call_ensures(extract_original_user_message, (message,), recovered),
        !text::is_blank(summary@),
        !text::spec_contains(text::spec_trim(summary@), "\n---"@),
    ensures
        recovered.deep_view() == Some(text::spec_trim(summary@)),
{
    reveal_strlit("## 1. Thread Summary");
    let heading = SUMMARY_HEADING@;
    let none: Seq<char> = seq![];
    assert(none + heading.drop_last() =~= heading.drop_last());
    assert(!text::spec_contains(none + heading.drop_last(), heading));
    law_wrapped_summary_is_recovered(none, prompt@, summary@, last.deep_view());
    assert(none + wrapped@ =~= wrapped@);
}

/// All leading lines with the prefix are dropped, indented or not, and none
/// behind the first line without it.
pub proof fn law_leading_lines_are_dropped(s: Seq<char>, prefix: Seq<char>, k: int)
    requires
        ({
            let lines = segments::spec_lines(s);
            &&& 0 <= k <= lines.len()
            &&& forall|j: int|
                0 <= j < k ==> text::spec_starts_with(
                    text::spec_trim_start(#[trigger] lines[j]),
                    prefix,
                )
            &&& k < lines.len() ==> !text::spec_starts_with(
                text::spec_trim_start(lines[k]),
                prefix,
            )
        }),
    ensures
        spec_without_leading(s, prefix) == text::spec_trim(
            segments::spec_join(segments::spec_lines(s).skip(k), seq!['\n']),
        ),
{
    reveal_strlit("\n");
    assert("\n"@ =~= seq!['\n']);
    lemma_skip_while(segments::spec_lines(s), prefix, k);
}

proof fn lemma_skip_while(lines: Seq<Seq<char>>, prefix: Seq<char>, k: int)
    requires
        0 <= k <= lines.len(),
        forall|j: int|
            0 <= j < k ==> text::spec_starts_with(
                text::spec_trim_start(#[trigger] lines[j]),
                prefix,
            ),
        k < lines.len() ==> !text::spec_starts_with(text::spec_trim_start(lines[k]), prefix),
    ensures
        spec_skip_while(lines, prefix) == lines.skip(k),
    decreases k,
{
    if k == 0 {
        assert(lines.skip(0) =~= lines);
    } else {
        let rest = lines.skip(1);
        assert forall|j: int| 0 <= j < k - 1 implies text::spec_starts_with(
            text::spec_trim_start(#[trigger] rest[j]),
            prefix,
        ) by {
            assert(rest[j] == lines[j + 1]);
        }
        assert(text::spec_starts_with(text::spec_trim_start(lines[0]), prefix));
        lemma_skip_while(rest, prefix, k - 1);
        assert(rest.skip(k - 1) =~= lines.skip(k));
    }
}

/// A heading and a link below it, both before a message, are not part of it
/// either.
pub proof fn law_link_below_a_heading_is_not_part_of_the_message(
    heading: Seq<char>,
    link: Seq<char>,
    original: Seq<char>,
)
    requires
        segments::spec_is_line(heading),
        segments::spec_is_line(link),
        text::spec_starts_with(heading, "## "@),
        text::spec_starts_with(link, "["@),
        ({
            let message = heading + seq!['\n'] + (link + seq!['\n'] + original);
            !text::spec_contains(message, "## 1. Thread Summary"@) && !text::spec_contains(
                message,
                "## 1. First Prompt (original request)"@,
            )
        }),
        spec_is_bare(original),
        !text::spec_contains(original, "\n---\nrefer to first thread\n---\n"@),
        !text::spec_starts_with(original, "refer to first prompt"@),
    ensures
        spec_original_message(heading + seq!['\n'] + (link + seq!['\n'] + original)) == Some(
            original,
        ),
{
    reveal_strlit("## ");
    reveal_strlit("[");
    let rest = link + seq!['\n'] + original;
    let message = heading + seq!['\n'] + rest;
    let none = Seq::<char>::empty();
    text::lemma_trimmed(original);
    assert(heading.subrange(0, 3)[0] == heading[0]);
    assert(link.subrange(0, 1)[0] == link[0]);
    assert(message[0] == heading[0] && message.last() == original.last());
    assert(none + message + none =~= message);
    text::law_trimming_drops_the_whitespace_around(none, message, none);
    text::lemma_find(message, ORIGINAL_REQUEST_HEADING@);
    assert(rest[0] == link[0] && rest.last() == original.last());
    assert(none + rest + none =~= rest);
    text::law_trimming_drops_the_whitespace_around(none, rest, none);
    lemma_line_before_text_keeps_feeds(link, original);
    if text::spec_starts_with(rest, "## "@) {
        assert(rest.subrange(0, 3)[0] == rest[0]);
    }
    lemma_leading_line_is_dropped(heading, rest, "## "@);
    lemma_leading_line_is_dropped(link, original, "["@);
    lemma_bare_body(original);
    law_raw_message_is_recovered_whole(original);
}

/// A message with a section for the original request, in the older layout, holds
/// that request up to the next rule.
pub proof fn law_requested_section_is_recovered(
    before: Seq<char>,
    feeds: nat,
    original: Seq<char>,
    rest: Seq<char>,
)
    requires
        original.len() > 0,
        original[0] != '\n',
        !text::is_blank(original),
        segments::spec_ends_at_first(before, "## 1. First Prompt (original request)"@),
        segments::spec_ends_at_first(original, "\n---"@),
        ({
            let message = before + "## 1. First Prompt (original request)"@ + Seq::new(
                feeds,
                |i: int| '\n',
            ) + original + "\n---"@ + rest;
            text::spec_trim(message) == message && !text::spec_contains(
                message,
                "## 1. Thread Summary"@,
            )
        }),
    ensures
        spec_original_message(
            before + "## 1. First Prompt (original request)"@ + Seq::new(feeds, |i: int| '\n')
                + original + "\n---"@ + rest,
        ) == Some(text::spec_trim(original)),
{
    reveal_strlit("## 1. First Prompt (original request)");
    reveal_strlit("\n---");
    let heading = "## 1. First Prompt (original request)"@;
    let run = Seq::new(feeds, |i: int| '\n');
    let section = original + "\n---"@ + rest;
    let message = before + heading + run + original + "\n---"@ + rest;
    assert(message =~= before + heading + (run + section));
    segments::lemma_first_separator(before, heading, run + section);
    assert(message.skip((before.len() + heading.len()) as int) =~= run + section);
    assert(section[0] == original[0]);
    text::law_trimmed_char_is_only_at_the_end(section, '\n', feeds);
    segments::lemma_first_separator(original, "\n---"@, rest);
    assert(section.take(original.len() as int) =~= original);
}

/// No prompt becomes empty by taking its wrapper off.
pub proof fn law_stripping_leaves_a_prompt(prompt: Seq<char>)
    requires
        prompt.len() > 0,
    ensures
        spec_strip_wrapper(prompt).len() > 0,
{
}

/// A checkpoint with nothing behind its reference is sent as it is.
pub proof fn law_empty_checkpoint_is_sent_as_it_is(middle: Seq<char>, rest: Seq<char>)
    requires
        segments::spec_ends_at_first(
            "## User (checkpoint)"@ + middle,
            "---\nrefer to first thread\n---\n"@,
        ),
        spec_skip_metadata(rest).len() == 0,
    ensures
        spec_strip_wrapper(
            "## User (checkpoint)"@ + middle + "---\nrefer to first thread\n---\n"@ + rest,
        ) == "## User (checkpoint)"@ + middle + "---\nrefer to first thread\n---\n"@ + rest,
{
    reveal_strlit("## User (checkpoint)");
    reveal_strlit("---\nrefer to first thread\n---\n");
    reveal_strlit("## 1. First Prompt (original request)");
    reveal_strlit("## 1. Thread Summary");
    reveal_strlit("## 1. Last Assistant Message");
    reveal_strlit("refer to first prompt:");
    let heading = "## User (checkpoint)"@;
    let mark = "---\nrefer to first thread\n---\n"@;
    let head = heading + middle;
    let whole = head + mark + rest;
    assert(whole =~= heading + (middle + mark + rest));
    assert(whole[3] == 'U' && whole[0] == '#');
    if text::spec_starts_with(whole, ORIGINAL_REQUEST_HEADING@) {
        assert(whole.subrange(0, ORIGINAL_REQUEST_HEADING@.len() as int)[3] == whole[3]);
    }
    if text::spec_starts_with(whole, SUMMARY_HEADING@) {
        assert(whole.subrange(0, SUMMARY_HEADING@.len() as int)[3] == whole[3]);
    }
    if text::spec_starts_with(whole, LAST_MESSAGE_HEADING@) {
        assert(whole.subrange(0, LAST_MESSAGE_HEADING@.len() as int)[3] == whole[3]);
    }
    if text::spec_starts_with(whole, "refer to first prompt:"@) {
        assert(whole.subrange(0, "refer to first prompt:"@.len() as int)[0] == whole[0]);
    }
    segments::lemma_first_separator(head, mark, rest);
    assert(whole.skip((head.len() + mark.len()) as int) =~= rest);
}

} // verus!
