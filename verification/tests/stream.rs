use auto_prompt::stream::{
    StreamEvent, StreamResult, StreamTally, extract_json, unparseable_response,
};

fn finish(events: Vec<StreamEvent>) -> StreamResult {
    let mut tally = StreamTally::new();
    for event in events {
        tally.record(event);
    }
    tally.finish()
}

fn text(s: &str) -> StreamEvent {
    StreamEvent::Text(s.to_string())
}

fn thinking(s: &str) -> StreamEvent {
    StreamEvent::Thinking(s.to_string())
}

fn stand_in(events: Vec<StreamEvent>) -> (String, f64) {
    match finish(events) {
        StreamResult::Synthetic(response) => {
            assert!(!response.should_continue);
            let confidence = response.confidence.unwrap();
            let value = f64::from_bits(confidence.value.bits);
            assert_eq!(confidence.two_decimals, format!("{value:.2}"));
            (response.reason.unwrap(), value)
        }
        other => panic!("expected a stand-in, got {other:?}"),
    }
}

#[test]
fn text_is_gathered_whatever_stands_between() {
    assert_eq!(
        finish(vec![
            text("{\"a\""),
            StreamEvent::Error,
            thinking("hm"),
            StreamEvent::Other,
            text(":1}"),
        ]),
        StreamResult::Text("{\"a\":1}".to_string())
    );
}

#[test]
fn a_stream_without_text_is_a_stop_that_says_why() {
    assert_eq!(
        stand_in(vec![thinking("a"), text(" "), thinking("b")]),
        ("Model returned 2 Thinking events but no Text output".to_string(), 0.3)
    );
    assert_eq!(
        stand_in(vec![thinking(" "), text("\n"), StreamEvent::Error]),
        (
            "model returned no usable content (1 empty Text, 1 empty Thinking, 1 stream errors)"
                .to_string(),
            0.0
        )
    );
    assert_eq!(
        stand_in(vec![StreamEvent::Error, StreamEvent::Other, StreamEvent::Error]),
        ("model stream produced only errors (2)".to_string(), 0.0)
    );
    assert_eq!(
        stand_in(vec![StreamEvent::Other]),
        ("model returned zero events (1 total stream events)".to_string(), 0.0)
    );
}

#[test]
fn json_is_found_in_a_fence_or_between_braces() {
    assert_eq!(extract_json("x ```json\n {\"a\":1}\n``` y {}"), "{\"a\":1}");
    assert_eq!(extract_json("so: {\"a\":{\"b\":2}} ok"), "{\"a\":{\"b\":2}}");
    assert_eq!(extract_json("```json {\"a\":1}"), "{\"a\":1}");
    assert_eq!(extract_json("} backwards {"), "} backwards {");
    assert_eq!(extract_json("  nothing  "), "nothing");
}

#[test]
fn an_unreadable_answer_is_a_stop() {
    let response = unparseable_response(" ü{x} ", "expected value");
    assert!(!response.should_continue);
    assert_eq!(
        response.reason.as_deref(),
        Some("unparseable response (7 bytes, 3 extracted): expected value")
    );
    assert_eq!(response.confidence.map(|c| c.value.bits), Some(0));
}
