use auto_prompt::local_mlx::{
    CompletionError, accept, completions_url, models_url, read_completion, request_body,
    truncation_floor_tokens,
};

#[test]
fn small_payloads_are_not_checked() {
    assert_eq!(truncation_floor_tokens(0), None);
    assert_eq!(truncation_floor_tokens(19_999), None);
}

#[test]
fn floor_is_half_the_expected_token_count() {
    // 80k chars is ~20k tokens at 4 chars/token; the floor sits at 10k so
    // normal variation passes and only real dropping fails.
    assert_eq!(truncation_floor_tokens(80_000), Some(10_000));
}

#[test]
fn catches_the_measured_ollama_v1_truncation() {
    // A server that drops what does not fit reports too few tokens.
    let floor = truncation_floor_tokens(180_000).expect("large payload is checked");
    assert!(
        16_387 < floor,
        "16387 tokens for 180k chars must read as truncated (floor {floor})"
    );
}

#[test]
fn honest_full_context_passes() {
    let floor = truncation_floor_tokens(180_000).expect("large payload is checked");
    assert!(54_190 >= floor, "an honest full-context reply must pass");
}

#[test]
fn a_request_is_read_back_as_it_was_meant() {
    let body = request_body("m\"x", "be\nbrief", "{\"a\":\"ü\\\"}");
    let value: serde_json::Value = serde_json::from_str(&body).unwrap();
    assert_eq!(value["model"], "m\"x");
    assert_eq!(value["messages"][0]["role"], "system");
    assert_eq!(value["messages"][0]["content"], "be\nbrief");
    assert_eq!(value["messages"][1]["role"], "user");
    assert_eq!(value["messages"][1]["content"], "{\"a\":\"ü\\\"}");
    assert_eq!(value["stream"], false);
    assert_eq!(value["temperature"], 0.0);
    assert_eq!(value["reasoning_effort"], "none");
    assert_eq!(value.as_object().unwrap().len(), 5);
    assert_eq!(value["messages"].as_array().unwrap().len(), 2);
    assert_eq!(completions_url("http://h/v1"), "http://h/v1/chat/completions");
    assert_eq!(models_url("http://h/v1"), "http://h/v1/models");
}

#[test]
fn control_characters_are_escaped_in_a_request() {
    let text = "a\"\\/\u{8}\t\n\u{c}\r\u{0}\u{1f}\u{7f}\u{2028}é";
    assert_eq!(
        request_body(text, "", "c"),
        "{\"messages\":[{\"content\":\"\",\"role\":\"system\"},{\"content\":\"c\",\"role\":\"user\"}],\"model\":\"a\\\"\\\\/\\b\\t\\n\\f\\r\\u0000\\u001f\u{7f}\u{2028}é\",\"reasoning_effort\":\"none\",\"stream\":false,\"temperature\":0.0}"
    );
}

#[test]
fn a_reply_is_read_unless_the_prompt_was_cut() {
    let reply = |usage: &str| {
        format!(r#"{{"usage":{usage},"choices":[{{"message":{{"content":"hi\u0021"}}}}]}}"#)
    };
    assert_eq!(read_completion(&reply("{}"), "s", "c").as_deref(), Ok("hi!"));
    assert_eq!(
        read_completion(&reply(r#"{"prompt_tokens":1}"#), "s", "c").as_deref(),
        Ok("hi!")
    );
    let long = "x".repeat(19_999);
    assert_eq!(
        read_completion(&reply(r#"{"prompt_tokens":2499}"#), "s", &long),
        Err(CompletionError::Truncated {
            reported: 2_499,
            sent_chars: 20_000,
            floor: 2_500
        })
    );
    assert_eq!(
        read_completion(&reply(r#"{"prompt_tokens":2500}"#), "s", &long).as_deref(),
        Ok("hi!")
    );
    assert_eq!(
        read_completion(&reply(r#"{"prompt_tokens":2499.0}"#), "s", &long).as_deref(),
        Ok("hi!")
    );
    assert_eq!(read_completion("{", "s", "c"), Err(CompletionError::NotJson));
    for body in [
        "{}",
        "[]",
        r#"{"choices":[]}"#,
        r#"{"choices":[{"message":{"content":null}}]}"#,
        r#"{"choices":{"message":{"content":"x"}}}"#,
    ] {
        assert_eq!(
            read_completion(body, "s", "c"),
            Err(CompletionError::MissingContent),
            "{body}"
        );
    }
}

#[test]
fn errors_say_what_went_wrong() {
    assert_eq!(
        accept(Some(5), None, 80_000)
            .map_err(|error| error.message("u"))
            .unwrap_err(),
        "local_mlx: u reported 5 prompt tokens for 80000 chars sent (floor 10000) — the server truncated the context, so its verdict is unusable"
    );
    assert_eq!(
        accept(None, None, 80_000).unwrap_err().message("u"),
        "local_mlx: missing choices[0].message.content in response"
    );
    assert_eq!(
        CompletionError::NotJson.message("u"),
        "local_mlx: parse response JSON"
    );
}
