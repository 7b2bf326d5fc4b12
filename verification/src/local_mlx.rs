//! What goes to a local model server, and what its reply means.

use vstd::prelude::*;
use vstd::utf8::*;
use crate::json;
use crate::numbers;
use crate::text;

verus! {

/// The request for a completion: the system prompt and the context as two
/// messages, at temperature zero and without reasoning.
pub open spec fn spec_request_body(
    model: Seq<char>,
    system_prompt: Seq<char>,
    context_json: Seq<char>,
) -> Seq<char> {
    "{\"messages\":[{\"content\":"@ + json::spec_quoted(system_prompt)
        + ",\"role\":\"system\"},{\"content\":"@ + json::spec_quoted(context_json)
        + ",\"role\":\"user\"}],\"model\":"@ + json::spec_quoted(model)
        + ",\"reasoning_effort\":\"none\",\"stream\":false,\"temperature\":0.0}"@
}

/// Writes the request for a completion.
pub fn request_body(model: &str, system_prompt: &str, context_json: &str) -> (r: String)
    ensures
        r@ == spec_request_body(model@, system_prompt@, context_json@),
{
    let mut r = text::owned("{\"messages\":[{\"content\":");
    r.append(json::quote(system_prompt).as_str());
    r.append(",\"role\":\"system\"},{\"content\":");
    r.append(json::quote(context_json).as_str());
    r.append(",\"role\":\"user\"}],\"model\":");
    r.append(json::quote(model).as_str());
    r.append(",\"reasoning_effort\":\"none\",\"stream\":false,\"temperature\":0.0}");
    r
}

/// Where completions are asked for.
pub fn completions_url(endpoint: &str) -> (r: String)
    ensures
        r@ == endpoint@ + "/chat/completions"@,
{
    let mut r = text::owned(endpoint);
    r.append("/chat/completions");
    r
}

/// Where a server lists its models.
pub fn models_url(endpoint: &str) -> (r: String)
    ensures
        r@ == endpoint@ + "/models"@,
{
    let mut r = text::owned(endpoint);
    r.append("/models");
    r
}

/// The fewest prompt tokens that an honest server reports for `sent_chars`:
/// one for eight, none for a small prompt.
pub open spec fn spec_truncation_floor(sent_chars: nat) -> Option<nat> {
    if sent_chars >= 20_000 {
        Some(sent_chars / 8)
    } else {
        None
    }
}

/// The fewest prompt tokens that an honest server reports for `sent_chars`.
/// Small prompts are not checked.
pub fn truncation_floor_tokens(sent_chars: u64) -> (r: Option<u64>)
    ensures
        match r {
            Some(floor) => spec_truncation_floor(sent_chars as nat) == Some(floor as nat),
            None => spec_truncation_floor(sent_chars as nat) is None,
        },
{
    if sent_chars >= 20_000 {
        Some(sent_chars / 8)
    } else {
        None
    }
}

/// Why a reply cannot be used.
#[derive(Clone, Copy, Debug, PartialEq, Eq, Structural)]
pub enum CompletionError {
    /// It is not JSON.
    NotJson,
    /// The server saw only a part of the prompt.
    Truncated { reported: u64, sent_chars: u64, floor: u64 },
    /// It holds no answer.
    MissingContent,
}

/// The message of an error.
pub open spec fn spec_error_message(error: CompletionError, url: Seq<char>) -> Seq<char> {
    match error {
        CompletionError::NotJson => "local_mlx: parse response JSON"@,
        CompletionError::Truncated { reported, sent_chars, floor } => "local_mlx: "@ + url
            + " reported "@ + numbers::spec_decimal(reported as nat) + " prompt tokens for "@
            + numbers::spec_decimal(sent_chars as nat) + " chars sent (floor "@
            + numbers::spec_decimal(floor as nat)
            + ") — the server truncated the context, so its verdict is unusable"@,
        CompletionError::MissingContent => {
            "local_mlx: missing choices[0].message.content in response"@
        },
    }
}

impl CompletionError {
    /// The message of this error, for a reply from `url`.
    pub fn message(&self, url: &str) -> (r: String)
        ensures
            r@ == spec_error_message(*self, url@),
    {
        match self {
            CompletionError::NotJson => text::owned("local_mlx: parse response JSON"),
            CompletionError::Truncated { reported, sent_chars, floor } => {
                let mut r = text::owned("local_mlx: ");
                r.append(url);
                r.append(" reported ");
                r.append(numbers::decimal(*reported).as_str());
                r.append(" prompt tokens for ");
                r.append(numbers::decimal(*sent_chars).as_str());
                r.append(" chars sent (floor ");
                r.append(numbers::decimal(*floor).as_str());
                r.append(") — the server truncated the context, so its verdict is unusable");
                r
            },
            CompletionError::MissingContent => text::owned(
                "local_mlx: missing choices[0].message.content in response",
            ),
        }
    }
}

/// The prompt of `sent_chars` was cut, by the number of tokens that the server reports.
pub open spec fn spec_was_truncated(reported: Option<u64>, sent_chars: u64) -> bool {
    reported matches Some(n) && (spec_truncation_floor(sent_chars as nat) matches Some(floor)
        && n < floor)
}

/// The answer in a reply that reports `reported` prompt tokens and holds `content`.
pub open spec fn spec_accepted(
    reported: Option<u64>,
    content: Option<Seq<char>>,
    sent_chars: u64,
) -> Result<Seq<char>, CompletionError> {
    if spec_was_truncated(reported, sent_chars) {
        Err(
            CompletionError::Truncated {
                reported: reported->Some_0,
                sent_chars,
                floor: (sent_chars / 8) as u64,
            },
        )
    } else {
        match content {
            Some(text) => Ok(text),
            None => Err(CompletionError::MissingContent),
        }
    }
}

/// A result with its text as a sequence.
pub open spec fn spec_result(r: Result<String, CompletionError>) -> Result<
    Seq<char>,
    CompletionError,
> {
    match r {
        Ok(text) => Ok(text@),
        Err(error) => Err(error),
    }
}

/// Accepts the answer in a reply, unless the server saw only a part of the prompt.
pub fn accept(reported: Option<u64>, content: Option<String>, sent_chars: u64) -> (r: Result<
    String,
    CompletionError,
>)
    ensures
        spec_result(r) == spec_accepted(reported, content.deep_view(), sent_chars),
{
    if let Some(reported) = reported {
        if let Some(floor) = truncation_floor_tokens(sent_chars) {
            if reported < floor {
                return Err(CompletionError::Truncated { reported, sent_chars, floor });
            }
        }
    }
    match content {
        Some(text) => Ok(text),
        None => Err(CompletionError::MissingContent),
    }
}

/// The number of prompt tokens that a reply reports.
pub open spec fn spec_reported_tokens(body: Seq<char>) -> Option<u64> {
    match json::spec_field(json::spec_field(Some(body), "usage"@), "prompt_tokens"@) {
        Some(value) => json::json_natural(value),
        None => None,
    }
}

/// The text of the first choice in a reply.
pub open spec fn spec_content(body: Seq<char>) -> Option<Seq<char>> {
    match json::spec_field(
        json::spec_field(
            json::spec_first(json::spec_field(Some(body), "choices"@)),
            "message"@,
        ),
        "content"@,
    ) {
        Some(value) => json::json_string(value),
        None => None,
    }
}

/// The number of characters sent, as the length in bytes of both messages.
pub open spec fn spec_sent(system_prompt: Seq<char>, context_json: Seq<char>) -> nat {
    let total = encode_utf8(system_prompt).len() + encode_utf8(context_json).len();
    if total <= u64::MAX {
        total
    } else {
        u64::MAX as nat
    }
}

fn sent(system_prompt: &str, context_json: &str) -> (r: u64)
    ensures
        r == spec_sent(system_prompt@, context_json@),
{
    let first: u64 = text::byte_len(system_prompt) as u64;
    let second: u64 = text::byte_len(context_json) as u64;
    if second <= u64::MAX - first {
        first + second
    } else {
        u64::MAX
    }
}

/// The answer in the reply `body` to a prompt, or why it cannot be used.
pub open spec fn spec_completion(
    body: Seq<char>,
    system_prompt: Seq<char>,
    context_json: Seq<char>,
) -> Result<Seq<char>, CompletionError> {
    if json::json_valid(body) {
        spec_accepted(
            spec_reported_tokens(body),
            spec_content(body),
            spec_sent(system_prompt, context_json) as u64,
        )
    } else {
        Err(CompletionError::NotJson)
    }
}

/// Reads the answer out of a server's reply. A reply to a prompt that the
/// server has cut is refused.
pub fn read_completion(body: &str, system_prompt: &str, context_json: &str) -> (r: Result<
    String,
    CompletionError,
>)
    ensures
        spec_result(r) == spec_completion(body@, system_prompt@, context_json@),
{
    if !json::is_json(body) {
        return Err(CompletionError::NotJson);
    }
    let usage = json::field(Some(body), "usage");
    let reported = match json::field(text::borrowed(&usage), "prompt_tokens") {
        Some(value) => json::read_natural(value.as_str()),
        None => None,
    };
    let choices = json::field(Some(body), "choices");
    let choice = json::first(text::borrowed(&choices));
    let message = json::field(text::borrowed(&choice), "message");
    let content = match json::field(text::borrowed(&message), "content") {
        Some(value) => json::read_string(value.as_str()),
        None => None,
    };
    accept(reported, content, sent(system_prompt, context_json))
}

// ---------------------------------------------------------------------------
// Laws
// ---------------------------------------------------------------------------

/// An answer that was reached on a cut prompt is never used.
pub proof fn law_truncated_prompt_is_refused(
    reported: u64,
    content: Option<Seq<char>>,
    sent_chars: u64,
)
    ensures
        spec_accepted(Some(reported), content, sent_chars) is Ok ==> sent_chars < 20_000 || reported
            >= sent_chars / 8,
{
}

/// An answer is refused exactly where at least twenty thousand characters were
/// sent and the server reports fewer tokens than an eighth of them. Any other
/// answer is its content, and an error only where it has none.
pub proof fn law_answer_is_refused_exactly_where_the_prompt_was_cut(
    reported: Option<u64>,
    content: Option<Seq<char>>,
    sent_chars: u64,
)
    ensures
        ({
            let was_cut = sent_chars >= 20_000 && (reported matches Some(n) && n < sent_chars / 8);
            &&& was_cut ==> spec_accepted(reported, content, sent_chars) == Err::<
                Seq<char>,
                CompletionError,
            >(
                CompletionError::Truncated {
                    reported: reported->Some_0,
                    sent_chars,
                    floor: (sent_chars / 8) as u64,
                },
            )
            &&& !was_cut ==> spec_accepted(reported, content, sent_chars) == match content {
                Some(text) => Ok::<Seq<char>, CompletionError>(text),
                None => Err(CompletionError::MissingContent),
            }
        }),
{
}

/// The request carries the system prompt, the context and the model, each
/// quoted, the prompts each with their role and in this order.
pub proof fn law_request_carries_prompt_context_and_model(
    model: Seq<char>,
    system_prompt: Seq<char>,
    context_json: Seq<char>,
)
    ensures
        ({
            let body = spec_request_body(model, system_prompt, context_json);
            let system = "{\"content\":"@ + json::spec_quoted(system_prompt)
                + ",\"role\":\"system\"}"@;
            let user = "{\"content\":"@ + json::spec_quoted(context_json)
                + ",\"role\":\"user\"}"@;
            &&& text::spec_starts_with(body, "{\"messages\":["@ + system + ","@ + user + "]"@)
            &&& text::spec_contains(body, ",\"model\":"@ + json::spec_quoted(model) + ","@)
            &&& text::spec_ends_with(body, ",\"stream\":false,\"temperature\":0.0}"@)
        }),
{
    reveal_strlit("{\"messages\":[{\"content\":");
    reveal_strlit("{\"messages\":[");
    reveal_strlit("{\"content\":");
    reveal_strlit(",\"role\":\"system\"},{\"content\":");
    reveal_strlit(",\"role\":\"system\"}");
    reveal_strlit(",");
    reveal_strlit(",\"role\":\"user\"}],\"model\":");
    reveal_strlit(",\"role\":\"user\"}");
    reveal_strlit("]");
    reveal_strlit(",\"model\":");
    reveal_strlit(",\"reasoning_effort\":\"none\",\"stream\":false,\"temperature\":0.0}");
    reveal_strlit(",\"stream\":false,\"temperature\":0.0}");
    let body = spec_request_body(model, system_prompt, context_json);
    let system = "{\"content\":"@ + json::spec_quoted(system_prompt) + ",\"role\":\"system\"}"@;
    let user = "{\"content\":"@ + json::spec_quoted(context_json) + ",\"role\":\"user\"}"@;
    let head = "{\"messages\":["@ + system + ","@ + user + "]"@;
    let named = ",\"model\":"@ + json::spec_quoted(model) + ","@;
    let tail = ",\"stream\":false,\"temperature\":0.0}"@;
    assert(body.subrange(0, head.len() as int) =~= head);
    let rest = body.skip((head.len() + named.len()) as int);
    assert(body =~= head + named + rest);
    text::lemma_contains_part(head, named, rest);
    assert(body.subrange(body.len() - tail.len(), body.len() as int) =~= tail);
}

/// The content of an answer is that of the message of its first choice.
pub proof fn law_content_is_that_of_the_first_choice(
    body: Seq<char>,
    top: Seq<(Seq<char>, Seq<char>)>,
    choices: Seq<char>,
    list: Seq<Seq<char>>,
    choice: Seq<(Seq<char>, Seq<char>)>,
    message: Seq<char>,
    fields: Seq<(Seq<char>, Seq<char>)>,
    content: Seq<char>,
)
    requires
        json::json_object(body) == Some(top),
        json::spec_member(top, "choices"@) == Some(choices),
        json::json_array(choices) == Some(list),
        list.len() > 0,
        json::json_object(list[0]) == Some(choice),
        json::spec_member(choice, "message"@) == Some(message),
        json::json_object(message) == Some(fields),
        json::spec_member(fields, "content"@) == Some(content),
    ensures
        spec_content(body) == json::json_string(content),
{
}

/// The reported tokens are those of the prompt.
pub proof fn law_reported_tokens_are_those_of_the_prompt(
    body: Seq<char>,
    top: Seq<(Seq<char>, Seq<char>)>,
    usage: Seq<char>,
    fields: Seq<(Seq<char>, Seq<char>)>,
    value: Seq<char>,
)
    requires
        json::json_object(body) == Some(top),
        json::spec_member(top, "usage"@) == Some(usage),
        json::json_object(usage) == Some(fields),
        json::spec_member(fields, "prompt_tokens"@) == Some(value),
    ensures
        spec_reported_tokens(body) == json::json_natural(value),
{
}

/// What was sent is the system prompt and the context together, in bytes.
pub proof fn law_prompt_and_context_are_sent(system_prompt: Seq<char>, context_json: Seq<char>)
    requires
        encode_utf8(system_prompt).len() + encode_utf8(context_json).len() <= u64::MAX,
    ensures
        spec_sent(system_prompt, context_json) == encode_utf8(system_prompt).len() + encode_utf8(
            context_json,
        ).len(),
{
}

/// The error for a cut prompt gives the server, the reported tokens, the
/// characters that were sent and the least that was expected.
pub proof fn law_cut_prompt_error_gives_the_numbers(
    reported: u64,
    sent_chars: u64,
    floor: u64,
    url: Seq<char>,
)
    ensures
        ({
            let message = spec_error_message(
                CompletionError::Truncated { reported, sent_chars, floor },
                url,
            );
            text::spec_starts_with(
                message,
                "local_mlx: "@ + url + " reported "@ + numbers::spec_decimal(reported as nat)
                    + " prompt tokens for "@ + numbers::spec_decimal(sent_chars as nat)
                    + " chars sent (floor "@ + numbers::spec_decimal(floor as nat) + ")"@,
            )
        }),
{
    reveal_strlit(")");
    reveal_strlit(") — the server truncated the context, so its verdict is unusable");
    let message = spec_error_message(
        CompletionError::Truncated { reported, sent_chars, floor },
        url,
    );
    let head = "local_mlx: "@ + url + " reported "@ + numbers::spec_decimal(reported as nat)
        + " prompt tokens for "@ + numbers::spec_decimal(sent_chars as nat)
        + " chars sent (floor "@ + numbers::spec_decimal(floor as nat) + ")"@;
    assert(message.subrange(0, head.len() as int) =~= head);
}

/// A server is asked for models and completions under its own address.
pub proof fn law_urls_extend_the_endpoint(endpoint: &str, models: String, completions: String)
    requires
        call_ensures(models_url, (endpoint,), models),
        call_ensures(completions_url, (endpoint,), completions),
    ensures
        models@ == endpoint@ + "/models"@,
        completions@ == endpoint@ + "/chat/completions"@,
{
}

} // verus!
