use ollama_sdk::adapter::collect_chat_events;
use ollama_sdk::adapter::collect_generate_events;
use ollama_sdk::chat::ChatStreamEvent;
use ollama_sdk::generate::GenerateStreamEvent;
use ollama_sdk::parser::classify_chat_line;
use ollama_sdk::parser::classify_generate_line;
use ollama_sdk::parser::decode_chat_response;
use ollama_sdk::parser::parse_role;
use ollama_sdk::types::Role;

fn chat_events(chunks: Vec<&[u8]>) -> Vec<ChatStreamEvent> {
    let owned: Vec<Vec<u8>> = chunks.into_iter().map(|c| c.to_vec()).collect();
    collect_chat_events(&owned)
}

fn generate_events(chunks: Vec<&[u8]>) -> Vec<GenerateStreamEvent> {
    let owned: Vec<Vec<u8>> = chunks.into_iter().map(|c| c.to_vec()).collect();
    collect_generate_events(&owned)
}

#[test]
fn scenario_single_message_event() {
    let evs = chat_events(vec![
        b"{\"model\":\"m\",\"message\":{\"role\":\"assistant\",\"content\":\"hi\"},\"done\":false}\n",
    ]);
    assert_eq!(evs.len(), 1);
    match &evs[0] {
        ChatStreamEvent::Message(resp) => {
            assert_eq!(resp.model, "m");
            assert_eq!(resp.message.content, "hi");
            assert!(matches!(resp.message.role, Role::Assistant));
            assert!(!resp.done);
            assert!(resp.message.tool_calls.is_empty());
        }
        other => panic!("expected a message event, got {:?}", other),
    }
}

#[test]
fn scenario_plain_text_is_partial() {
    let evs = chat_events(vec![b"plain text\n"]);
    assert_eq!(evs.len(), 1);
    match &evs[0] {
        ChatStreamEvent::Partial { partial, error } => {
            assert_eq!(partial, "plain text");
            assert!(error.is_some());
        }
        other => panic!("expected a partial event, got {:?}", other),
    }
}

#[test]
fn scenario_error_envelope_is_error() {
    let evs = chat_events(vec![b"{\"error\":\"boom\"}\n"]);
    assert_eq!(evs.len(), 1);
    match &evs[0] {
        ChatStreamEvent::Error(text) => assert_eq!(text, "boom"),
        other => panic!("expected an error event, got {:?}", other),
    }
}

#[test]
fn scenario_trailing_partial_line() {
    let evs = chat_events(vec![b"partial-tail"]);
    assert_eq!(evs.len(), 1);
    match &evs[0] {
        ChatStreamEvent::Partial { partial, error } => {
            assert_eq!(partial, "partial-tail");
            assert!(error.is_none());
        }
        other => panic!("expected a partial event, got {:?}", other),
    }
}

fn event_key(ev: &ChatStreamEvent) -> String {
    match ev {
        ChatStreamEvent::Message(r) => format!(
            "message:{}:{}:{}:{}",
            r.model,
            r.message.content,
            r.done,
            r.message.tool_calls.len()
        ),
        ChatStreamEvent::Error(e) => format!("error:{}", e),
        ChatStreamEvent::Partial { partial, error } => {
            format!("partial:{}:{}", partial, error.is_some())
        }
    }
}

#[test]
fn chunk_boundaries_do_not_change_events() {
    let text: &[u8] =
        b"{\"model\":\"m\",\"message\":{\"role\":\"assistant\",\"content\":\"a\"},\"done\":false}\n\
          not json\n{\"error\":\"x\"}\n\
          {\"model\":\"m\",\"message\":{\"role\":\"assistant\",\"content\":\"b\"},\"done\":true}\ntail";
    let whole: Vec<String> = chat_events(vec![text]).iter().map(event_key).collect();
    assert_eq!(whole.len(), 5);
    for split in 0..text.len() {
        let parts: Vec<String> = chat_events(vec![&text[..split], &text[split..]])
            .iter()
            .map(event_key)
            .collect();
        assert_eq!(parts, whole, "split at {}", split);
    }
    let bytes: Vec<&[u8]> = text.chunks(3).collect();
    let tiny: Vec<String> = chat_events(bytes).iter().map(event_key).collect();
    assert_eq!(tiny, whole);
}

#[test]
fn empty_stream_yields_no_events() {
    let evs = chat_events(vec![]);
    assert!(evs.is_empty());
}

#[test]
fn blank_lines_are_skipped() {
    let evs = chat_events(vec![
        b"\n",
        b"{\"model\":\"m\",\"message\":{\"role\":\"assistant\",\"content\":\"t\"},\"done\":false}\n",
        b"\n\n",
    ]);
    assert_eq!(evs.len(), 1);
    assert!(matches!(&evs[0], ChatStreamEvent::Message(r) if r.message.content == "t"));
}

#[test]
fn message_split_across_chunks_is_reassembled() {
    let evs = chat_events(vec![
        b"{\"model\":\"m\",\"message\":{\"role\":\"assistant\",\"content\":\"hello ",
        b"world\"},\"done\":false}",
        b"\n",
    ]);
    assert_eq!(evs.len(), 1);
    assert!(matches!(&evs[0], ChatStreamEvent::Message(r) if r.message.content == "hello world"));
}

#[test]
fn malformed_line_then_complete_message() {
    let evs = chat_events(vec![
        b"{\"model\":\"m\",\"message\":{\"role\":\"assist",
        b"ant\",\"content\":\"first part\n",
        b"{\"model\":\"m\",\"message\":{\"role\":\"assistant\",\"content\":\"second\"},\"done\":false}\n",
    ]);
    assert_eq!(evs.len(), 2);
    assert!(matches!(&evs[0], ChatStreamEvent::Partial { .. }));
    assert!(matches!(&evs[1], ChatStreamEvent::Message(r) if r.message.content == "second"));
}

#[test]
fn missing_model_field_fails_primary_decode() {
    let evs = chat_events(vec![
        b"{\"message\":{\"role\":\"assistant\",\"content\":\"hello\"},\"done\":false}\n",
    ]);
    assert_eq!(evs.len(), 1);
    match &evs[0] {
        ChatStreamEvent::Partial { partial, error } => {
            assert_eq!(
                partial,
                "{\"message\":{\"role\":\"assistant\",\"content\":\"hello\"},\"done\":false}"
            );
            assert!(error.is_some());
        }
        other => panic!("expected a partial event, got {:?}", other),
    }
}

#[test]
fn unknown_role_fails_primary_decode() {
    let ev = classify_chat_line(
        "{\"model\":\"m\",\"message\":{\"role\":\"oracle\",\"content\":\"x\"},\"done\":false}",
    );
    assert!(matches!(ev, ChatStreamEvent::Partial { .. }));
}

#[test]
fn payload_with_error_field_stays_a_message() {
    let ev = classify_chat_line(
        "{\"model\":\"m\",\"message\":{\"role\":\"assistant\",\"content\":\"x\"},\"done\":true,\"error\":\"e\"}",
    );
    assert!(matches!(ev, ChatStreamEvent::Message(_)));
}

#[test]
fn tool_call_invocation_line_is_decoded() {
    let raw = "{\"model\":\"llama3.2:3b\",\"created_at\":\"2025-12-25T14:18:57.522402Z\",\
               \"message\":{\"role\":\"assistant\",\"content\":\"\",\
               \"tool_calls\":[{\"id\":\"call_etugzc4r\",\"function\":{\"index\":0,\"name\":\"\",\
               \"arguments\":{\"n\":\"10\"}}}]},\"done\":false}";
    let resp = decode_chat_response(raw).expect("line should decode as a payload");
    assert_eq!(resp.model, "llama3.2:3b");
    assert_eq!(resp.created_at, "2025-12-25T14:18:57.522402Z");
    assert_eq!(resp.message.tool_calls.len(), 1);
    let call = &resp.message.tool_calls[0];
    assert_eq!(call.id, "call_etugzc4r");
    assert_eq!(call.function.index, Some(0));
    assert!(call.function.name.is_empty());
    assert_eq!(call.function.arguments, "{\"n\":\"10\"}");
}

#[test]
fn malformed_tool_calls_fail_the_whole_decode() {
    let raw = "{\"model\":\"m\",\"message\":{\"role\":\"assistant\",\"content\":\"\",\
               \"tool_calls\":[{\"function\":{\"name\":\"f\",\"arguments\":{}}}]},\"done\":false}";
    assert!(decode_chat_response(raw).is_none());
    assert!(matches!(classify_chat_line(raw), ChatStreamEvent::Partial { .. }));
}

#[test]
fn parse_role_accepts_exactly_the_four_roles() {
    assert!(matches!(parse_role("system"), Some(Role::System)));
    assert!(matches!(parse_role("user"), Some(Role::User)));
    assert!(matches!(parse_role("assistant"), Some(Role::Assistant)));
    assert!(matches!(parse_role("tool"), Some(Role::Tool)));
    assert!(parse_role("Assistant").is_none());
    assert!(parse_role("").is_none());
}

#[test]
fn generate_single_chunk_event() {
    let evs = generate_events(vec![
        b"{\"model\":\"g\",\"created_at\":\"now\",\"response\":\"hello\",\"done\":false}\n",
    ]);
    assert_eq!(evs.len(), 1);
    match &evs[0] {
        GenerateStreamEvent::MessageChunk(g) => {
            assert_eq!(g.model, "g");
            assert_eq!(g.response, "hello");
            assert!(!g.done);
            assert_eq!(g.total_duration, 0);
            assert!(g.done_reason.is_none());
        }
        other => panic!("expected a chunk event, got {:?}", other),
    }
}

#[test]
fn generate_final_chunk_carries_stats() {
    let evs = generate_events(vec![
        b"{\"model\":\"g\",\"created_at\":\"now\",\"response\":\"\",\"done\":true,\
          \"done_reason\":\"stop\",\"total_duration\":12,\"eval_count\":7}\n",
    ]);
    assert_eq!(evs.len(), 1);
    match &evs[0] {
        GenerateStreamEvent::MessageChunk(g) => {
            assert!(g.done);
            assert_eq!(g.done_reason.as_deref(), Some("stop"));
            assert_eq!(g.total_duration, 12);
            assert_eq!(g.eval_count, 7);
            assert_eq!(g.load_duration, 0);
        }
        other => panic!("expected a chunk event, got {:?}", other),
    }
}

#[test]
fn generate_error_and_partial_events() {
    let evs = generate_events(vec![b"{\"error\":\"gone\"}\nnot json\n"]);
    assert_eq!(evs.len(), 2);
    assert!(matches!(&evs[0], GenerateStreamEvent::Error(e) if e == "gone"));
    assert!(matches!(&evs[1], GenerateStreamEvent::Partial { partial, .. } if partial == "not json"));
}

#[test]
fn generate_line_missing_created_at_is_partial() {
    let ev = classify_generate_line("{\"model\":\"g\",\"response\":\"x\",\"done\":false}");
    assert!(matches!(ev, GenerateStreamEvent::Partial { .. }));
}

#[test]
fn multiple_message_events_keep_line_order() {
    let evs = chat_events(vec![
        b"{\"model\":\"m\",\"message\":{\"role\":\"assistant\",\"content\":\"hello\"},\"done\":false}\n\
          {\"model\":\"m\",\"message\":{\"role\":\"assistant\",\"content\":\" world\"},\"done\":true}\n",
    ]);
    assert_eq!(evs.len(), 2);
    assert!(matches!(&evs[0], ChatStreamEvent::Message(r) if r.message.content == "hello" && !r.done));
    assert!(matches!(&evs[1], ChatStreamEvent::Message(r) if r.message.content == " world" && r.done));
}
