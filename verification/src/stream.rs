//! A model's streamed answer: gathering its parts, and finding the JSON in it.

use vstd::prelude::*;
use vstd::utf8::*;
use crate::context;
use crate::context::{AutoPromptResponse, ResponseView};
use crate::numbers;
use crate::score;
use crate::score::{Confidence, ConfidenceView, Score};
use crate::segments;
use crate::text;

verus! {

/// An event of a stream.
#[derive(Clone, Debug, PartialEq, Eq)]
pub enum StreamEvent {
    Text(String),
    Thinking(String),
    /// An event of another kind.
    Other,
    Error,
}

/// What has come in on a stream so far.
#[derive(Clone, Debug, PartialEq, Eq)]
pub struct StreamTally {
    /// The text, part after part.
    pub text: String,
    /// The number of text events.
    pub text_events: u64,
    /// The thinking, part after part.
    pub thinking: String,
    pub thinking_events: u64,
    pub errors: u64,
    pub total_events: u64,
}

/// The model of a `StreamTally`.
#[verifier::ext_equal]
pub struct TallyView {
    pub text: Seq<char>,
    pub text_events: nat,
    pub thinking: Seq<char>,
    pub thinking_events: nat,
    pub errors: nat,
    pub total_events: nat,
}

impl View for StreamTally {
    type V = TallyView;

    open spec fn view(&self) -> TallyView {
        TallyView {
            text: self.text@,
            text_events: self.text_events as nat,
            thinking: self.thinking@,
            thinking_events: self.thinking_events as nat,
            errors: self.errors as nat,
            total_events: self.total_events as nat,
        }
    }
}

/// One more, or the largest count.
pub open spec fn spec_counted(n: nat) -> nat {
    if n < u64::MAX {
        n + 1
    } else {
        n
    }
}

fn counted(n: u64) -> (r: u64)
    ensures
        r == spec_counted(n as nat),
{
    if n < u64::MAX {
        n + 1
    } else {
        n
    }
}

/// The tally with one more event.
pub open spec fn spec_recorded(tally: TallyView, event: StreamEvent) -> TallyView {
    let counted = TallyView { total_events: spec_counted(tally.total_events), ..tally };
    match event {
        StreamEvent::Text(part) => TallyView {
            text: tally.text + part@,
            text_events: spec_counted(tally.text_events),
            ..counted
        },
        StreamEvent::Thinking(part) => TallyView {
            thinking: tally.thinking + part@,
            thinking_events: spec_counted(tally.thinking_events),
            ..counted
        },
        StreamEvent::Other => counted,
        StreamEvent::Error => TallyView { errors: spec_counted(tally.errors), ..counted },
    }
}

/// What a finished stream amounts to.
#[derive(Clone, Debug, PartialEq, Eq)]
pub enum StreamResult {
    /// Text to be read as an answer.
    Text(String),
    /// No text; this answer stands in for one.
    Synthetic(AutoPromptResponse),
}

/// The model of a `StreamResult`.
pub enum StreamResultView {
    Text(Seq<char>),
    Synthetic(ResponseView),
}

impl View for StreamResult {
    type V = StreamResultView;

    open spec fn view(&self) -> StreamResultView {
        match self {
            StreamResult::Text(text) => StreamResultView::Text(text@),
            StreamResult::Synthetic(response) => StreamResultView::Synthetic(response@),
        }
    }
}

/// What a finished stream amounts to: its text, unless that is blank. Without
/// text the reason names what came instead. Thinking alone is a little more
/// trustworthy than nothing.
pub open spec fn spec_finished(tally: TallyView) -> StreamResultView {
    if !text::is_blank(tally.text) {
        StreamResultView::Text(tally.text)
    } else if tally.thinking_events > 0 {
        if !text::is_blank(tally.thinking) {
            StreamResultView::Synthetic(
                ResponseView {
                    confidence: Some(
                        ConfidenceView {
                            value: Score { bits: score::THREE_TENTHS_BITS },
                            two_decimals: "0.30"@,
                        },
                    ),
                    ..context::spec_zero_confidence_stop(
                        "Model returned "@ + numbers::spec_decimal(tally.thinking_events)
                            + " Thinking events but no Text output"@,
                    )
                },
            )
        } else {
            StreamResultView::Synthetic(
                context::spec_zero_confidence_stop(
                    "model returned no usable content ("@ + numbers::spec_decimal(
                        tally.text_events,
                    ) + " empty Text, "@ + numbers::spec_decimal(tally.thinking_events)
                        + " empty Thinking, "@ + numbers::spec_decimal(tally.errors)
                        + " stream errors)"@,
                ),
            )
        }
    } else if tally.errors > 0 {
        StreamResultView::Synthetic(
            context::spec_zero_confidence_stop(
                "model stream produced only errors ("@ + numbers::spec_decimal(tally.errors) + ")"@,
            ),
        )
    } else {
        StreamResultView::Synthetic(
            context::spec_zero_confidence_stop(
                "model returned zero events ("@ + numbers::spec_decimal(tally.total_events)
                    + " total stream events)"@,
            ),
        )
    }
}

impl StreamTally {
    /// A stream before its first event.
    pub fn new() -> (r: StreamTally)
        ensures
            r@ == (TallyView {
                text: seq![],
                text_events: 0,
                thinking: seq![],
                thinking_events: 0,
                errors: 0,
                total_events: 0,
            }),
    {
        let r = StreamTally {
            text: String::new(),
            text_events: 0,
            thinking: String::new(),
            thinking_events: 0,
            errors: 0,
            total_events: 0,
        };
        assert(r.text@ =~= seq![]);
        assert(r.thinking@ =~= seq![]);
        r
    }

    /// Takes in one event.
    pub fn record(&mut self, event: StreamEvent)
        ensures
            final(self)@ == spec_recorded(old(self)@, event),
    {
        self.total_events = counted(self.total_events);
        match event {
            StreamEvent::Text(part) => {
                self.text.append(part.as_str());
                self.text_events = counted(self.text_events);
            },
            StreamEvent::Thinking(part) => {
                self.thinking.append(part.as_str());
                self.thinking_events = counted(self.thinking_events);
            },
            StreamEvent::Other => {},
            StreamEvent::Error => {
                self.errors = counted(self.errors);
            },
        }
    }

    /// What the stream amounts to now that it has ended.
    pub fn finish(self) -> (r: StreamResult)
        ensures
            r@ == spec_finished(self@),
    {
        if !text::blank(self.text.as_str()) {
            return StreamResult::Text(self.text);
        }
        if self.thinking_events > 0 {
            if !text::blank(self.thinking.as_str()) {
                let mut reason = text::owned("Model returned ");
                reason.append(numbers::decimal(self.thinking_events).as_str());
                reason.append(" Thinking events but no Text output");
                let mut response = context::zero_confidence_stop(reason);
                response.confidence = Some(Confidence::three_tenths());
                return StreamResult::Synthetic(response);
            }
            let mut reason = text::owned("model returned no usable content (");
            reason.append(numbers::decimal(self.text_events).as_str());
            reason.append(" empty Text, ");
            reason.append(numbers::decimal(self.thinking_events).as_str());
            reason.append(" empty Thinking, ");
            reason.append(numbers::decimal(self.errors).as_str());
            reason.append(" stream errors)");
            return StreamResult::Synthetic(context::zero_confidence_stop(reason));
        }
        if self.errors > 0 {
            let mut reason = text::owned("model stream produced only errors (");
            reason.append(numbers::decimal(self.errors).as_str());
            reason.append(")");
            return StreamResult::Synthetic(context::zero_confidence_stop(reason));
        }
        let mut reason = text::owned("model returned zero events (");
        reason.append(numbers::decimal(self.total_events).as_str());
        reason.append(" total stream events)");
        StreamResult::Synthetic(context::zero_confidence_stop(reason))
    }
}

// ---------------------------------------------------------------------------
// The JSON in an answer
// ---------------------------------------------------------------------------

/// The JSON in a fenced code block.
pub open spec fn spec_fenced_json(s: Seq<char>) -> Option<Seq<char>> {
    match text::spec_find(s, "```json"@) {
        Some(i) => {
            let rest = s.skip(i + 7);
            match text::spec_find(rest, "```"@) {
                Some(end) => Some(text::spec_trim(rest.take(end))),
                None => None,
            }
        },
        None => None,
    }
}

/// The text from the first opening to the last closing brace.
pub open spec fn spec_braced_json(s: Seq<char>) -> Option<Seq<char>> {
    match (text::spec_find(s, "{"@), text::spec_rfind(s, "}"@)) {
        (Some(start), Some(end)) => if end > start {
            Some(s.subrange(start, end + 1))
        } else {
            None
        },
        _ => None,
    }
}

/// The JSON in an answer: a fenced block, else what stands between the
/// outermost braces, else the trimmed text.
pub open spec fn spec_json_in(s: Seq<char>) -> Seq<char> {
    match spec_fenced_json(s) {
        Some(json) => json,
        None => match spec_braced_json(s) {
            Some(json) => json,
            None => text::spec_trim(s),
        },
    }
}

/// Finds the JSON in an answer.
pub fn extract_json(s: &str) -> (r: &str)
    ensures
        r@ == spec_json_in(s@),
{
    proof {
        reveal_strlit("```json");
        reveal_strlit("{");
        reveal_strlit("}");
    }
    let total: usize = s.unicode_len();
    if let Some(start) = text::find(s, "```json") {
        assert(start + 7 <= total);
        let rest = text::skip(s, start + 7);
        if let Some(end) = text::find(rest, "```") {
            return text::trim(text::take(rest, end));
        }
    }
    if let Some(start) = text::find(s, "{") {
        if let Some(end) = text::rfind(s, "}") {
            if end > start {
                assert(end + 1 <= total);
                return s.substring_char(start, end + 1);
            }
        }
    }
    text::trim(s)
}

/// The answer that stands in for one that cannot be read.
pub open spec fn spec_unparseable(s: Seq<char>, error: Seq<char>) -> ResponseView {
    context::spec_zero_confidence_stop(
        "unparseable response ("@ + numbers::spec_decimal(encode_utf8(s).len()) + " bytes, "@
            + numbers::spec_decimal(encode_utf8(spec_json_in(s)).len()) + " extracted): "@ + error,
    )
}

/// The answer that stands in for the text `s`, whose JSON could not be read
/// because of `error`.
pub fn unparseable_response(s: &str, error: &str) -> (r: AutoPromptResponse)
    ensures
        r@ == spec_unparseable(s@, error@),
{
    let json = extract_json(s);
    let mut reason = text::owned("unparseable response (");
    reason.append(numbers::decimal_usize(text::byte_len(s)).as_str());
    reason.append(" bytes, ");
    reason.append(numbers::decimal_usize(text::byte_len(json)).as_str());
    reason.append(" extracted): ");
    reason.append(error);
    context::zero_confidence_stop(reason)
}

// ---------------------------------------------------------------------------
// Laws
// ---------------------------------------------------------------------------

/// Text, once it is there, is what the stream amounts to; errors and thinking
/// around it do not matter.
pub proof fn law_text_wins(tally: TallyView)
    ensures
        spec_finished(tally) is Text <==> !text::is_blank(tally.text),
        spec_finished(tally) matches StreamResultView::Text(t) ==> t == tally.text,
{
}

/// A stream without text never lets a chain go on, and the answer that stands
/// in is known as such.
pub proof fn law_stand_in_is_a_synthetic_stop(tally: TallyView)
    requires
        text::is_blank(tally.text),
    ensures
        spec_finished(tally) matches StreamResultView::Synthetic(response)
            && !response.should_continue && response.next_prompt is None
            && crate::evaluation::spec_is_synthetic_failure(response.confidence, response.reason),
{
    reveal_strlit("model");
    reveal_strlit("Model returned ");
    reveal_strlit("model returned no usable content (");
    reveal_strlit("model stream produced only errors (");
    reveal_strlit("model returned zero events (");
    let response = spec_finished(tally)->Synthetic_0;
    let lower = text::spec_ascii_lowercase(response.reason->Some_0);
    assert(lower.subrange(0, 5) =~= "model"@);
}

/// What is found between braces starts and ends with them.
pub proof fn law_braced_json_is_braced(s: Seq<char>)
    ensures
        spec_braced_json(s) matches Some(json) ==> json.len() >= 2 && json[0] == '{' && json.last()
            == '}',
{
    reveal_strlit("{");
    reveal_strlit("}");
    text::lemma_find(s, "{"@);
    text::lemma_rfind_from(s, "}"@, s.len() - "}"@.len());
    if let (Some(start), Some(end)) = (text::spec_find(s, "{"@), text::spec_rfind(s, "}"@)) {
        assert(s.subrange(start, start + 1)[0] == s[start]);
        assert(s.subrange(end, end + 1)[0] == s[end]);
    }
}

/// Each event is counted once, and adds its part behind what came before it, to
/// the text or to the thinking.
pub proof fn law_events_add_their_parts_in_order(tally: TallyView, event: StreamEvent)
    requires
        tally.total_events < u64::MAX,
        tally.text_events < u64::MAX,
        tally.thinking_events < u64::MAX,
        tally.errors < u64::MAX,
    ensures
        ({
            let next = spec_recorded(tally, event);
            &&& next.total_events == tally.total_events + 1
            &&& next.text == match event {
                StreamEvent::Text(part) => tally.text + part@,
                _ => tally.text,
            }
            &&& next.thinking == match event {
                StreamEvent::Thinking(part) => tally.thinking + part@,
                _ => tally.thinking,
            }
            &&& next.text_events == tally.text_events + if event is Text {
                1int
            } else {
                0
            }
            &&& next.thinking_events == tally.thinking_events + if event is Thinking {
                1int
            } else {
                0
            }
            &&& next.errors == tally.errors + if event is Error {
                1int
            } else {
                0
            }
        }),
{
}

/// A stream without text is told apart by what it held: thinking, blank events,
/// errors only, or nothing. Only thinking leaves some confidence.
pub proof fn law_stand_in_says_what_came_in(tally: TallyView)
    requires
        text::is_blank(tally.text),
    ensures
        ({
            let response = spec_finished(tally)->Synthetic_0;
            let thought = tally.thinking_events > 0 && !text::is_blank(tally.thinking);
            &&& response.reason == Some(
                if thought {
                    "Model returned "@ + numbers::spec_decimal(tally.thinking_events)
                        + " Thinking events but no Text output"@
                } else if tally.thinking_events > 0 {
                    "model returned no usable content ("@ + numbers::spec_decimal(
                        tally.text_events,
                    ) + " empty Text, "@ + numbers::spec_decimal(tally.thinking_events)
                        + " empty Thinking, "@ + numbers::spec_decimal(tally.errors)
                        + " stream errors)"@
                } else if tally.errors > 0 {
                    "model stream produced only errors ("@ + numbers::spec_decimal(tally.errors)
                        + ")"@
                } else {
                    "model returned zero events ("@ + numbers::spec_decimal(tally.total_events)
                        + " total stream events)"@
                },
            )
            &&& response.confidence matches Some(c) && c.value.bits == if thought {
                0x3fd3_3333_3333_3333u64
            } else {
                0u64
            }
        }),
{
}

/// In an answer with a fenced block of JSON that block is taken, trimmed: from
/// the first such fence to the next fence, whatever stands around it.
pub proof fn law_fenced_json_is_taken(before: Seq<char>, json: Seq<char>, after: Seq<char>)
    requires
        !text::spec_contains(before + "```json"@.drop_last(), "```json"@),
        !text::spec_contains(json + "```"@.drop_last(), "```"@),
    ensures
        spec_json_in(before + "```json"@ + json + "```"@ + after) == text::spec_trim(json),
{
    reveal_strlit("```json");
    reveal_strlit("```");
    let s = before + "```json"@ + json + "```"@ + after;
    let rest = json + "```"@ + after;
    assert(s =~= before + "```json"@ + rest);
    segments::lemma_first_separator(before, "```json"@, rest);
    assert(s.skip(before.len() as int + 7) =~= rest);
    segments::lemma_first_separator(json, "```"@, after);
    assert(rest.take(json.len() as int) =~= json);
}

/// In an answer without a fence the JSON goes from the first opening brace to
/// the last closing one; without braces the trimmed answer is taken.
pub proof fn law_json_goes_from_first_to_last_brace(
    before: Seq<char>,
    inside: Seq<char>,
    after: Seq<char>,
)
    requires
        !before.contains('{'),
        !after.contains('}'),
        !text::spec_contains(before + seq!['{'] + inside + seq!['}'] + after, "```json"@),
        !text::spec_contains(before, "```json"@),
    ensures
        spec_json_in(before + seq!['{'] + inside + seq!['}'] + after) == seq!['{'] + inside
            + seq!['}'],
        spec_json_in(before) == text::spec_trim(before),
{
    reveal_strlit("{");
    reveal_strlit("}");
    let open = "{"@;
    let close = "}"@;
    assert(open =~= seq!['{']);
    assert(close =~= seq!['}']);
    let s = before + seq!['{'] + inside + seq!['}'] + after;
    text::lemma_find(s, "```json"@);
    text::lemma_find(before, "```json"@);
    let n = before.len() as int;
    let m = n + 1 + inside.len();
    assert(s.subrange(n, n + 1) =~= open);
    assert forall|j: int| 0 <= j < n implies !#[trigger] text::occurs_at(s, open, j) by {
        assert(s.subrange(j, j + 1)[0] == before[j]);
        assert(before.contains(before[j]));
    }
    text::lemma_find_is(s, open, n);
    assert(s.subrange(m, m + 1) =~= close);
    assert forall|j: int| m < j implies !#[trigger] text::occurs_at(s, close, j) by {
        if text::occurs_at(s, close, j) {
            assert(s.subrange(j, j + 1)[0] == after[j - m - 1]);
            assert(after.contains(after[j - m - 1]));
        }
    }
    text::lemma_rfind_is(s, close, m);
    assert(s.subrange(n, m + 1) =~= seq!['{'] + inside + seq!['}']);
    text::lemma_find(before, open);
    if text::spec_find(before, open) is Some {
        let j = text::spec_find(before, open)->Some_0;
        assert(before.subrange(j, j + 1)[0] == before[j]);
        assert(before.contains(before[j]));
    }
}

/// An answer that cannot be parsed is a stop that gives its size, that of what
/// was taken from it, and the parser's words.
pub proof fn law_unparseable_answer_is_a_stop(s: Seq<char>, error: Seq<char>)
    ensures
        !spec_unparseable(s, error).should_continue,
        spec_unparseable(s, error).next_prompt is None,
        spec_unparseable(s, error).reason == Some(
            "unparseable response ("@ + numbers::spec_decimal(encode_utf8(s).len()) + " bytes, "@
                + numbers::spec_decimal(encode_utf8(spec_json_in(s)).len()) + " extracted): "@
                + error,
        ),
{
}

/// Parts of text that come in one after the other make up the text.
pub proof fn law_text_parts_make_up_the_text(
    tally: &mut StreamTally,
    first: String,
    next: &mut StreamTally,
    second: String,
)
    requires
        call_ensures(StreamTally::record, (tally, StreamEvent::Text(first)), ()),
        call_ensures(StreamTally::record, (next, StreamEvent::Text(second)), ()),
        *old(next) == *final(tally),
    ensures
        final(next).text@ == old(tally).text@ + first@ + second@,
        final(next).thinking@ == old(tally).thinking@,
        final(next).errors == old(tally).errors,
{
}

/// The largest count stays.
pub proof fn law_largest_count_stays(tally: TallyView, event: StreamEvent)
    requires
        tally.total_events == u64::MAX,
    ensures
        spec_recorded(tally, event).total_events == u64::MAX,
{
}

} // verus!
