use ollama_sdk::adapter::ChatEventStream;
use ollama_sdk::adapter::collect_frames;
use ollama_sdk::adapter::GenerateEventStream;
use ollama_sdk::adapter::Pulled;
use ollama_sdk::adapter::SourceItem;
use ollama_sdk::chat::ChatStreamEvent;
use ollama_sdk::decoder::Frame;
use ollama_sdk::generate::GenerateStreamEvent;

#[test]
fn frames_split_lines_and_flush_tail() {
    let chunks = vec![b"one\ntw".to_vec(), b"o\n\n".to_vec(), b"tail".to_vec()];
    let frames = collect_frames(&chunks);
    assert_eq!(frames.len(), 3);
    assert!(matches!(&frames[0], Frame::Line(s) if s == "one"));
    assert!(matches!(&frames[1], Frame::Line(s) if s == "two"));
    assert!(matches!(&frames[2], Frame::Tail(s) if s == "tail"));
}

#[test]
fn pull_yields_buffered_line_before_asking_for_input() {
    let mut stream = ChatEventStream::new();
    assert!(matches!(stream.pull(), Pulled::NeedInput));
    stream.on_input(SourceItem::Chunk(b"{\"error\":\"boom\"}\nrest".to_vec()));
    match stream.pull() {
        Pulled::Event(ChatStreamEvent::Error(e)) => assert_eq!(e, "boom"),
        other => panic!("expected the error event, got {:?}", other_name(&other)),
    }
    assert!(matches!(stream.pull(), Pulled::NeedInput));
    stream.on_input(SourceItem::Closed);
    match stream.pull() {
        Pulled::Event(ChatStreamEvent::Partial { partial, error }) => {
            assert_eq!(partial, "rest");
            assert!(error.is_none());
        }
        other => panic!("expected the tail partial, got {:?}", other_name(&other)),
    }
    assert!(matches!(stream.pull(), Pulled::Finished));
    assert!(matches!(stream.pull(), Pulled::Finished));
}

#[test]
fn source_fault_is_terminal_after_buffered_lines() {
    let mut stream = ChatEventStream::new();
    stream.on_input(SourceItem::Chunk(b"{\"error\":\"first\"}\npending".to_vec()));
    assert!(matches!(stream.pull(), Pulled::Event(ChatStreamEvent::Error(_))));
    stream.on_input(SourceItem::Fault("connection reset".to_string()));
    match stream.pull() {
        Pulled::Fault(e) => assert_eq!(e, "connection reset"),
        other => panic!("expected the fault, got {:?}", other_name(&other)),
    }
    assert!(matches!(stream.pull(), Pulled::Finished));
}

#[test]
fn clean_end_with_blank_residue_just_finishes() {
    let mut stream = ChatEventStream::new();
    stream.on_input(SourceItem::Chunk(b"plain\n  \n".to_vec()));
    assert!(matches!(stream.pull(), Pulled::Event(ChatStreamEvent::Partial { .. })));
    stream.on_input(SourceItem::Closed);
    assert!(matches!(stream.pull(), Pulled::Finished));
}

#[test]
fn generate_stream_classifies_chunks() {
    let mut stream = GenerateEventStream::new();
    stream.on_input(SourceItem::Chunk(
        b"{\"model\":\"g\",\"created_at\":\"t\",\"response\":\"hi\",\"done\":true}\n".to_vec(),
    ));
    match stream.pull() {
        Pulled::Event(GenerateStreamEvent::MessageChunk(g)) => {
            assert_eq!(g.response, "hi");
            assert!(g.done);
        }
        _ => panic!("expected a chunk event"),
    }
    stream.on_input(SourceItem::Closed);
    assert!(matches!(stream.pull(), Pulled::Finished));
}

fn other_name<E>(p: &Pulled<E>) -> &'static str {
    match p {
        Pulled::Event(_) => "an event",
        Pulled::NeedInput => "a request for input",
        Pulled::Fault(_) => "a fault",
        Pulled::Finished => "the end of the stream",
    }
}
