use chat_stream::delta::{classify, classify_delta, Delta};
use chat_stream::fragment::{
    decode_frame, decode_payload, fragment_from_json, strip_event_prefix, RawDelta,
    StreamFragment, Usage, EVENT_PREFIX_LEN,
};

fn raw(content: Option<&str>, reasoning: Option<&str>) -> RawDelta {
    RawDelta {
        content: content.map(|s| s.to_string()),
        reasoning_content: reasoning.map(|s| s.to_string()),
    }
}

#[test]
fn prefix_is_six_bytes() {
    assert_eq!(EVENT_PREFIX_LEN, 6);
    assert_eq!("data: ".len(), EVENT_PREFIX_LEN);
}

#[test]
fn strip_prefix_drops_first_six_bytes() {
    assert_eq!(strip_event_prefix(b"data: {}"), Some(&b"{}"[..]));
    assert_eq!(strip_event_prefix(b"123456"), Some(&b""[..]));
    assert_eq!(strip_event_prefix(b"xxxxxxpayload"), Some(&b"payload"[..]));
}

#[test]
fn strip_prefix_of_short_frame_is_none() {
    assert_eq!(strip_event_prefix(b""), None);
    assert_eq!(strip_event_prefix(b"data:"), None);
}

#[test]
fn decode_answer_fragment() {
    let f = decode_payload(br#"{"choices":[{"delta":{"content":"Hi!"}}]}"#).unwrap();
    assert_eq!(f.deltas, vec![raw(Some("Hi!"), None)]);
    assert_eq!(f.usage, None);
}

#[test]
fn decode_reasoning_fragment_with_null_content() {
    let f = decode_payload(
        br#"{"choices":[{"delta":{"content":null,"reasoning_content":"Thinking"}}]}"#,
    )
    .unwrap();
    assert_eq!(f.deltas, vec![raw(None, Some("Thinking"))]);
}

#[test]
fn decode_fragment_with_both_texts() {
    let f = decode_payload(br#"{"choices":[{"delta":{"content":"a","reasoning_content":"b"}}]}"#)
        .unwrap();
    assert_eq!(f.deltas, vec![raw(Some("a"), Some("b"))]);
}

#[test]
fn decode_fragment_with_empty_delta() {
    let f = decode_payload(br#"{"choices":[{"delta":{"role":"assistant"}}]}"#).unwrap();
    assert_eq!(f.deltas, vec![raw(None, None)]);
}

#[test]
fn decode_fragment_with_usage() {
    let f = decode_payload(
        br#"{"choices":[],"usage":{"total_tokens":12,"prompt_tokens":5,"completion_tokens":7}}"#,
    )
    .unwrap();
    assert!(f.deltas.is_empty());
    assert_eq!(
        f.usage,
        Some(Usage { total_tokens: 12, prompt_tokens: 5, completion_tokens: 7 })
    );
}

#[test]
fn decode_fragment_with_null_usage() {
    let f = decode_payload(br#"{"choices":[{"delta":{"content":"x"}}],"usage":null}"#).unwrap();
    assert_eq!(f.usage, None);
}

#[test]
fn decode_keeps_all_deltas_in_order() {
    let f = decode_payload(
        br#"{"choices":[{"delta":{"content":"one"}},{"delta":{"reasoning_content":"two"}},{"delta":{}}]}"#,
    )
    .unwrap();
    assert_eq!(
        f.deltas,
        vec![raw(Some("one"), None), raw(None, Some("two")), raw(None, None)]
    );
}

#[test]
fn decode_largest_counts() {
    let f = decode_payload(
        br#"{"choices":[],"usage":{"total_tokens":18446744073709551615,"prompt_tokens":0,"completion_tokens":1}}"#,
    )
    .unwrap();
    assert_eq!(
        f.usage,
        Some(Usage { total_tokens: u64::MAX, prompt_tokens: 0, completion_tokens: 1 })
    );
}

#[test]
fn decode_ignores_unknown_members() {
    let f = decode_payload(
        br#"{"id":"1","object":"chat.completion.chunk","choices":[{"index":0,"delta":{"content":"x"},"finish_reason":null}]}"#,
    )
    .unwrap();
    assert_eq!(f.deltas, vec![raw(Some("x"), None)]);
}

#[test]
fn decode_tolerates_white_space_around_the_document() {
    let f = decode_payload(b"  {\"choices\":[{\"delta\":{\"content\":\"x\"}}]}\n\n").unwrap();
    assert_eq!(f.deltas, vec![raw(Some("x"), None)]);
}

#[test]
fn decode_failure_on_text_that_is_no_json() {
    assert_eq!(decode_payload(b"[DONE]"), None);
    assert_eq!(decode_payload(b""), None);
    assert_eq!(decode_payload(b"{\"choices\":[{\"delta\":{\"content\":\"Hi"), None);
    assert_eq!(decode_payload(b"{} {}"), None);
}

#[test]
fn decode_failure_on_unexpected_shape() {
    assert_eq!(decode_payload(b"{}"), None);
    assert_eq!(decode_payload(b"[]"), None);
    assert_eq!(decode_payload(b"null"), None);
    assert_eq!(decode_payload(br#"{"choices":null}"#), None);
    assert_eq!(decode_payload(br#"{"choices":{}}"#), None);
    assert_eq!(decode_payload(br#"{"choices":[{}]}"#), None);
    assert_eq!(decode_payload(br#"{"choices":[5]}"#), None);
    assert_eq!(decode_payload(br#"{"choices":[{"delta":5}]}"#), None);
    assert_eq!(decode_payload(br#"{"choices":[{"delta":null}]}"#), None);
    assert_eq!(decode_payload(br#"{"choices":[{"delta":[]}]}"#), None);
    assert_eq!(decode_payload(br#"{"choices":[{"delta":{"content":5}}]}"#), None);
    assert_eq!(decode_payload(br#"{"choices":[{"delta":{"reasoning_content":true}}]}"#), None);
    assert_eq!(
        decode_payload(br#"{"choices":[{"delta":{"content":"ok"}},{"delta":{"content":[]}}]}"#),
        None
    );
}

#[test]
fn decode_failure_on_malformed_usage() {
    assert_eq!(decode_payload(br#"{"choices":[],"usage":5}"#), None);
    assert_eq!(decode_payload(br#"{"choices":[],"usage":{}}"#), None);
    assert_eq!(
        decode_payload(br#"{"choices":[],"usage":{"total_tokens":1,"prompt_tokens":1}}"#),
        None
    );
    assert_eq!(
        decode_payload(
            br#"{"choices":[],"usage":{"total_tokens":-1,"prompt_tokens":1,"completion_tokens":1}}"#
        ),
        None
    );
    assert_eq!(
        decode_payload(
            br#"{"choices":[],"usage":{"total_tokens":1.5,"prompt_tokens":1,"completion_tokens":1}}"#
        ),
        None
    );
    assert_eq!(
        decode_payload(
            br#"{"choices":[],"usage":{"total_tokens":"1","prompt_tokens":1,"completion_tokens":1}}"#
        ),
        None
    );
    assert_eq!(
        decode_payload(
            br#"{"choices":[],"usage":{"total_tokens":18446744073709551616,"prompt_tokens":1,"completion_tokens":1}}"#
        ),
        None
    );
}

#[test]
fn decode_frame_strips_the_marker_first() {
    let f = decode_frame(br#"data: {"choices":[{"delta":{"content":"Hi!"}}]}"#).unwrap();
    assert_eq!(f.deltas, vec![raw(Some("Hi!"), None)]);
    // The payload alone, without the marker, loses its first six bytes.
    assert_eq!(decode_frame(br#"{"choices":[{"delta":{"content":"Hi!"}}]}"#), None);
}

#[test]
fn decode_frame_of_terminator_and_noise() {
    assert_eq!(decode_frame(b"data: [DONE]"), None);
    assert_eq!(decode_frame(b"data: "), None);
    assert_eq!(decode_frame(b": ping"), None);
    assert_eq!(decode_frame(b""), None);
    assert_eq!(decode_frame(b"data"), None);
}

#[test]
fn fragment_from_parsed_document() {
    let doc: serde_json::Value =
        serde_json::from_str(r#"{"choices":[{"delta":{"reasoning_content":"hm"}}]}"#).unwrap();
    let f = fragment_from_json(&doc).unwrap();
    assert_eq!(f, StreamFragment { deltas: vec![raw(None, Some("hm"))], usage: None });
}

#[test]
fn fragment_from_document_built_by_hand() {
    let mut delta = serde_json::Map::new();
    delta.insert("content".to_string(), serde_json::Value::String("Hi".to_string()));
    let mut choice = serde_json::Map::new();
    choice.insert("delta".to_string(), serde_json::Value::Object(delta));
    let mut usage = serde_json::Map::new();
    usage.insert("total_tokens".to_string(), serde_json::Value::from(3u64));
    usage.insert("prompt_tokens".to_string(), serde_json::Value::from(1u64));
    usage.insert("completion_tokens".to_string(), serde_json::Value::from(2u64));
    let mut doc = serde_json::Map::new();
    doc.insert(
        "choices".to_string(),
        serde_json::Value::Array(vec![serde_json::Value::Object(choice)]),
    );
    doc.insert("usage".to_string(), serde_json::Value::Object(usage));
    let f = fragment_from_json(&serde_json::Value::Object(doc)).unwrap();
    assert_eq!(
        f,
        StreamFragment {
            deltas: vec![raw(Some("Hi"), None)],
            usage: Some(Usage { total_tokens: 3, prompt_tokens: 1, completion_tokens: 2 }),
        }
    );
}

#[test]
fn fragment_from_document_of_other_shape() {
    assert_eq!(fragment_from_json(&serde_json::Value::Null), None);
    assert_eq!(fragment_from_json(&serde_json::Value::Array(vec![])), None);
    assert_eq!(fragment_from_json(&serde_json::Value::String("choices".to_string())), None);
}

#[test]
fn usage_zero_is_all_zeros() {
    assert_eq!(
        Usage::zero(),
        Usage { total_tokens: 0, prompt_tokens: 0, completion_tokens: 0 }
    );
}

#[test]
fn classify_answer_text() {
    assert_eq!(classify_delta(&raw(Some("Hi"), None)), Delta::AnswerText("Hi".to_string()));
}

#[test]
fn classify_answer_wins_over_reasoning() {
    assert_eq!(classify_delta(&raw(Some("a"), Some("r"))), Delta::AnswerText("a".to_string()));
}

#[test]
fn classify_empty_answer_is_still_answer() {
    assert_eq!(classify_delta(&raw(Some(""), Some("r"))), Delta::AnswerText(String::new()));
    assert_eq!(classify_delta(&raw(Some(""), None)), Delta::AnswerText(String::new()));
}

#[test]
fn classify_reasoning_text() {
    assert_eq!(classify_delta(&raw(None, Some("hm"))), Delta::ReasoningText("hm".to_string()));
    assert_eq!(classify_delta(&raw(None, Some(""))), Delta::ReasoningText(String::new()));
}

#[test]
fn classify_neither_is_empty() {
    assert_eq!(classify_delta(&raw(None, None)), Delta::Empty);
}

#[test]
fn classify_fragment_by_first_delta() {
    let f = StreamFragment {
        deltas: vec![raw(None, Some("first")), raw(Some("second"), None)],
        usage: None,
    };
    assert_eq!(classify(&f), Delta::ReasoningText("first".to_string()));
}

#[test]
fn classify_fragment_without_deltas_is_empty() {
    let f = StreamFragment { deltas: vec![], usage: Some(Usage::zero()) };
    assert_eq!(classify(&f), Delta::Empty);
}
