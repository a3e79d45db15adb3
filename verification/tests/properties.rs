//! The protocol's observable behaviour on concrete streams: ordered
//! accumulation, shape exclusivity, determinism, blocked candidates,
//! continuing past service errors, and transcript building.

use gemini_stream::wire::{Candidate, Content, Event, Part, Request, RequestContent, ResponseItem};
use gemini_stream::{classify, decode, encode_item, encode_request, extract_text, Json, Session};

/// A chunk item with one candidate carrying one text part.
fn text_chunk(text: &str) -> Json {
    Json::Obj(vec![(
        "candidates".to_string(),
        Json::Arr(vec![Json::Obj(vec![
            (
                "content".to_string(),
                Json::Obj(vec![
                    (
                        "parts".to_string(),
                        Json::Arr(vec![Json::Obj(vec![(
                            "text".to_string(),
                            Json::Str(text.to_string()),
                        )])]),
                    ),
                    ("role".to_string(), Json::Str("model".to_string())),
                ]),
            ),
            ("finishReason".to_string(), Json::Str("STOP".to_string())),
            ("index".to_string(), Json::Int(0)),
        ])]),
    )])
}

/// An error item with the given report.
fn error_item(code: i64, message: &str, status: &str) -> Json {
    Json::Obj(vec![(
        "error".to_string(),
        Json::Obj(vec![
            ("code".to_string(), Json::Int(code)),
            ("message".to_string(), Json::Str(message.to_string())),
            ("status".to_string(), Json::Str(status.to_string())),
        ]),
    )])
}

/// A chunk item whose only candidate was blocked before producing content.
fn blocked_chunk(reason: &str) -> Json {
    Json::Obj(vec![(
        "candidates".to_string(),
        Json::Arr(vec![Json::Obj(vec![
            ("finishReason".to_string(), Json::Str(reason.to_string())),
            ("index".to_string(), Json::Int(0)),
        ])]),
    )])
}

#[test]
fn ten_chunks_accumulate_in_exact_order() {
    let texts = [
        "In the quaint, cobbled",
        " streets of Willow Creek",
        ", nestled amidst the rolling",
        " hills and whispering willows, there existed",
        " an extraordinary tale that would forever be etched into the",
        " annals of history. It began with an ordinary backpack, a seemingly mundane",
        " object destined for a life of textbooks and forgotten lunches",
        ". However, as fate would have it,",
        " this backpack held a secret that would change",
        " the destiny of its young owner,",
    ];
    let mut session = Session::new();
    let mut expected = String::new();
    for text in texts {
        // Each delta is surfaced immediately, before the next item arrives.
        match session.push(text_chunk(text)) {
            Ok(Event::TextDelta(delta)) => assert_eq!(delta, *text),
            other => panic!("expected a text delta, got {:?}", other),
        }
        expected.push_str(text);
    }
    assert_eq!(session.text, expected);
}

#[test]
fn overload_error_item_becomes_service_error_event() {
    let raw = error_item(
        503,
        "The model is overloaded. Please try again later.",
        "UNAVAILABLE",
    );
    let mut session = Session::new();
    match session.push(raw) {
        Ok(Event::ServiceError(report)) => {
            assert_eq!(report.code, 503);
            assert_eq!(report.status, "UNAVAILABLE");
            assert_eq!(
                report.message,
                "The model is overloaded. Please try again later."
            );
        }
        other => panic!("expected a service error, got {:?}", other),
    }
    assert_eq!(session.text, "");
}

#[test]
fn recitation_blocked_candidate_contributes_empty_string() {
    let raw = blocked_chunk("RECITATION");
    let chunk = match decode(&raw) {
        Ok(ResponseItem::Chunk(chunk)) => chunk,
        other => panic!("expected a chunk, got {:?}", other),
    };
    assert_eq!(extract_text(&chunk), "");
}

#[test]
fn safety_blocked_candidate_is_not_a_decode_failure() {
    let raw = blocked_chunk("SAFETY");
    let mut session = Session::new();
    match session.push(raw) {
        Ok(Event::TextDelta(delta)) => assert_eq!(delta, ""),
        other => panic!("expected an empty text delta, got {:?}", other),
    }
    assert_eq!(session.text, "");
}

#[test]
fn decoding_twice_yields_identical_results() {
    let raw = text_chunk("twice-told");
    let first = decode(&raw);
    let second = decode(&raw);
    assert_eq!(first, second);
    let raw_err = error_item(429, "quota", "RESOURCE_EXHAUSTED");
    assert_eq!(decode(&raw_err), decode(&raw_err));
}

#[test]
fn error_member_decides_the_shape_alone() {
    // An object carrying both members decodes as exactly one shape: the
    // error one, the discriminator resolved once.
    let both = Json::Obj(vec![
        (
            "error".to_string(),
            Json::Obj(vec![
                ("code".to_string(), Json::Int(500)),
                ("message".to_string(), Json::Str("boom".to_string())),
                ("status".to_string(), Json::Str("INTERNAL".to_string())),
            ]),
        ),
        ("candidates".to_string(), Json::Arr(vec![])),
    ]);
    match decode(&both) {
        Ok(ResponseItem::Error(report)) => assert_eq!(report.code, 500),
        other => panic!("expected the error shape, got {:?}", other),
    }

    // A malformed error member is not quietly re-read as a chunk.
    let broken_error = Json::Obj(vec![
        ("error".to_string(), Json::Str("oops".to_string())),
        ("candidates".to_string(), Json::Arr(vec![])),
    ]);
    match decode(&broken_error) {
        Err(gemini_stream::wire::DecodeFailure::UnknownShape(kept)) => {
            assert_eq!(kept, broken_error)
        }
        other => panic!("expected an unknown-shape failure, got {:?}", other),
    }
}

#[test]
fn non_object_item_is_reported_as_such() {
    match decode(&Json::Int(5)) {
        Err(gemini_stream::wire::DecodeFailure::NotAnObject) => {}
        other => panic!("expected a not-an-object failure, got {:?}", other),
    }
}

#[test]
fn object_of_neither_shape_keeps_the_raw_value() {
    let raw = Json::Obj(vec![("something".to_string(), Json::Null)]);
    match decode(&raw) {
        Err(gemini_stream::wire::DecodeFailure::UnknownShape(kept)) => assert_eq!(kept, raw),
        other => panic!("expected an unknown-shape failure, got {:?}", other),
    }
}

#[test]
fn error_then_continue_still_accumulates_later_chunks() {
    let mut session = Session::new();
    assert!(matches!(
        session.push(text_chunk("before")),
        Ok(Event::TextDelta(_))
    ));
    assert!(matches!(
        session.push(error_item(503, "overloaded", "UNAVAILABLE")),
        Ok(Event::ServiceError(_))
    ));
    assert!(matches!(
        session.push(text_chunk(" after")),
        Ok(Event::TextDelta(_))
    ));
    assert_eq!(session.text, "before after");
}

#[test]
fn malformed_item_is_recorded_and_later_chunks_still_accumulate() {
    let mut session = Session::new();
    assert!(session.push(text_chunk("kept")).is_ok());
    assert!(session.push(Json::Int(7)).is_err());
    assert!(session.push(text_chunk(" going")).is_ok());
    assert_eq!(session.text, "kept going");
    // All three items stand in the transcript, the malformed one verbatim.
    let record = session.finalize("gemini-pro", &Json::Null);
    let Json::Obj(members) = record else {
        panic!("expected an object")
    };
    let response = &members
        .iter()
        .find(|(k, _)| k == "response")
        .expect("a response member")
        .1;
    let Json::Arr(items) = response else {
        panic!("expected an array")
    };
    assert_eq!(items.len(), 3);
    assert_eq!(items[1], Json::Int(7));
}

#[test]
fn multiple_candidates_concatenate_in_listed_order_skipping_other_parts() {
    let chunk = gemini_stream::wire::Chunk {
        candidates: vec![
            Candidate {
                index: 0,
                content: Some(Content {
                    role: None,
                    parts: vec![
                        Part::Text("al".to_string()),
                        Part::Other(Json::Obj(vec![(
                            "inlineData".to_string(),
                            Json::Str("...".to_string()),
                        )])),
                        Part::Text("pha".to_string()),
                    ],
                }),
                finish_reason: None,
                safety_ratings: vec![],
                citation_metadata: None,
            },
            Candidate {
                index: 1,
                content: None,
                finish_reason: Some(gemini_stream::wire::FinishReason::Safety),
                safety_ratings: vec![],
                citation_metadata: None,
            },
            Candidate {
                index: 2,
                content: Some(Content {
                    role: Some("model".to_string()),
                    parts: vec![Part::Text("bet".to_string())],
                }),
                finish_reason: None,
                safety_ratings: vec![],
                citation_metadata: None,
            },
        ],
        prompt_feedback: None,
    };
    assert_eq!(extract_text(&chunk), "alphabet");
    match classify(&ResponseItem::Chunk(chunk)) {
        Event::TextDelta(delta) => assert_eq!(delta, "alphabet"),
        other => panic!("expected a text delta, got {:?}", other),
    }
}

#[test]
fn transcript_holds_model_request_and_items_in_order() {
    let mut session = Session::new();
    session.push(text_chunk("one")).unwrap();
    session.push(text_chunk("two")).unwrap();
    let request = Json::Obj(vec![("contents".to_string(), Json::Arr(vec![]))]);
    let record = session.finalize("gemini-pro", &request);
    let expected = Json::Obj(vec![
        (
            "meta".to_string(),
            Json::Obj(vec![(
                "model".to_string(),
                Json::Str("gemini-pro".to_string()),
            )]),
        ),
        ("request".to_string(), request),
        (
            "response".to_string(),
            Json::Arr(vec![text_chunk("one"), text_chunk("two")]),
        ),
    ]);
    assert_eq!(record, expected);
}

#[test]
fn request_payload_has_the_accepted_shape() {
    let request = Request {
        contents: vec![RequestContent {
            role: None,
            parts: vec![Part::Text("Write a story about a magic backpack.".to_string())],
        }],
        generation_config: None,
        tools: None,
    };
    let payload = encode_request(&request);
    let expected = Json::Obj(vec![(
        "contents".to_string(),
        Json::Arr(vec![Json::Obj(vec![(
            "parts".to_string(),
            Json::Arr(vec![Json::Obj(vec![(
                "text".to_string(),
                Json::Str("Write a story about a magic backpack.".to_string()),
            )])]),
        )])]),
    )]);
    assert_eq!(payload, expected);
}

#[test]
fn chunk_with_no_candidates_is_valid_and_contributes_nothing() {
    let raw = Json::Obj(vec![("candidates".to_string(), Json::Arr(vec![]))]);
    let mut session = Session::new();
    match session.push(raw) {
        Ok(Event::TextDelta(delta)) => assert_eq!(delta, ""),
        other => panic!("expected an empty text delta, got {:?}", other),
    }
    assert_eq!(session.text, "");
}

#[test]
fn empty_session_still_finalizes_a_transcript() {
    let session = Session::new();
    let request = Json::Null;
    let record = session.finalize("gemini-pro", &request);
    let expected = Json::Obj(vec![
        (
            "meta".to_string(),
            Json::Obj(vec![(
                "model".to_string(),
                Json::Str("gemini-pro".to_string()),
            )]),
        ),
        ("request".to_string(), Json::Null),
        ("response".to_string(), Json::Arr(vec![])),
    ]);
    assert_eq!(record, expected);
}

#[test]
fn reencoded_error_decodes_to_the_same_value() {
    let raw = error_item(503, "The model is overloaded. Please try again later.", "UNAVAILABLE");
    let item = decode(&raw).unwrap();
    let reencoded = encode_item(&item);
    assert_eq!(decode(&reencoded).unwrap(), item);
    assert_eq!(reencoded, raw);
}

#[test]
fn unknown_finish_reason_token_is_kept_verbatim() {
    let raw = blocked_chunk("OTHER_REASON");
    let chunk = match decode(&raw) {
        Ok(ResponseItem::Chunk(chunk)) => chunk,
        other => panic!("expected a chunk, got {:?}", other),
    };
    match &chunk.candidates[0].finish_reason {
        Some(gemini_stream::wire::FinishReason::Other(token)) => {
            assert_eq!(token, "OTHER_REASON")
        }
        other => panic!("expected the token kept verbatim, got {:?}", other),
    }
    // And it survives re-serialization.
    let reencoded = encode_item(&ResponseItem::Chunk(chunk));
    let again = decode(&reencoded).unwrap();
    let ResponseItem::Chunk(chunk_again) = &again else {
        panic!("expected a chunk")
    };
    assert!(matches!(
        &chunk_again.candidates[0].finish_reason,
        Some(gemini_stream::wire::FinishReason::Other(t)) if t == "OTHER_REASON"
    ));
}

#[test]
fn reencoded_chunk_decodes_to_the_same_value() {
    let raw = text_chunk("round trip");
    let item = match decode(&raw) {
        Ok(item) => item,
        Err(failure) => panic!("decode failed: {:?}", failure),
    };
    let reencoded = encode_item(&item);
    match decode(&reencoded) {
        Ok(again) => assert_eq!(again, item),
        Err(failure) => panic!("re-decode failed: {:?}", failure),
    }
}
