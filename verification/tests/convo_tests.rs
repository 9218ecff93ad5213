use ollama_sdk::chat::ChatResponse;
use ollama_sdk::chat::ChatResponseMessage;
use ollama_sdk::chat::ChatStreamEvent;
use ollama_sdk::chat::FunctionInvocation;
use ollama_sdk::chat::ToolCall;
use ollama_sdk::convo::ConversationLoop;
use ollama_sdk::convo::HistoryEntry;
use ollama_sdk::convo::LoopAction;
use ollama_sdk::convo::TurnPhase;
use ollama_sdk::dispatch::plan_dispatch;
use ollama_sdk::dispatch::results_for_batch;
use ollama_sdk::dispatch::ToolOutcome;
use ollama_sdk::registry::ToolRegistry;
use ollama_sdk::types::Message;
use ollama_sdk::types::Role;
use ollama_sdk::types::ToolCallResultMessage;

fn message_event(content: &str, done: bool, calls: Vec<ToolCall>) -> ChatStreamEvent {
    ChatStreamEvent::Message(ChatResponse {
        model: "m".to_string(),
        created_at: String::new(),
        message: ChatResponseMessage {
            role: Role::Assistant,
            content: content.to_string(),
            thinking: String::new(),
            tool_calls: calls,
        },
        done,
    })
}

fn a_call(id: &str, name: &str) -> ToolCall {
    ToolCall {
        id: id.to_string(),
        function: FunctionInvocation {
            index: None,
            name: name.to_string(),
            arguments: "{}".to_string(),
        },
    }
}

fn user_history(text: &str) -> Vec<HistoryEntry> {
    vec![HistoryEntry::Chat(Message::new(Role::User, text.to_string()))]
}

#[test]
fn turn_without_tool_calls_finishes() {
    let mut convo = ConversationLoop::new(user_history("hi"), None);
    assert!(matches!(convo.phase(), TurnPhase::Sending));
    assert!(matches!(convo.begin_turn(), LoopAction::Continue));
    assert!(matches!(
        convo.on_event(&message_event("Hello", false, vec![])),
        LoopAction::Continue
    ));
    assert!(matches!(
        convo.on_event(&message_event(" world", true, vec![])),
        LoopAction::Stop
    ));
    assert!(matches!(convo.phase(), TurnPhase::Done));
    let history = convo.history();
    assert_eq!(history.len(), 2);
    match &history[1] {
        HistoryEntry::Chat(m) => {
            assert!(matches!(m.role, Role::Assistant));
            assert_eq!(m.content, "Hello world");
        }
        other => panic!("expected an assistant message, got {:?}", other),
    }
}

#[test]
fn errors_and_partials_do_not_change_the_conversation() {
    let mut convo = ConversationLoop::new(user_history("hi"), None);
    convo.begin_turn();
    assert!(matches!(
        convo.on_event(&ChatStreamEvent::Error("boom".to_string())),
        LoopAction::Continue
    ));
    assert!(matches!(
        convo.on_event(&ChatStreamEvent::Partial { partial: "x".to_string(), error: None }),
        LoopAction::Continue
    ));
    convo.on_event(&message_event("ok", true, vec![]));
    assert_eq!(convo.history().len(), 2);
}

#[test]
fn stream_end_closes_the_turn() {
    let mut convo = ConversationLoop::new(user_history("hi"), None);
    convo.begin_turn();
    convo.on_event(&message_event("partial answer", false, vec![]));
    assert!(matches!(convo.on_stream_end(), LoopAction::Stop));
    match &convo.history()[1] {
        HistoryEntry::Chat(m) => assert_eq!(m.content, "partial answer"),
        other => panic!("expected an assistant message, got {:?}", other),
    }
}

#[test]
fn repeated_call_id_is_dispatched_once_and_loop_resends() {
    let mut reg: ToolRegistry<u32> = ToolRegistry::new();
    assert!(reg.register_tool("search".to_string(), 9).is_ok());

    let mut convo = ConversationLoop::new(user_history("find rust"), None);
    convo.begin_turn();
    convo.on_event(&message_event("", false, vec![a_call("c1", "")]));
    let action = convo.on_event(&message_event("", true, vec![a_call("c1", "search")]));
    assert!(matches!(action, LoopAction::Dispatch));
    assert!(matches!(convo.phase(), TurnPhase::Dispatching));

    let plan = plan_dispatch(&reg, convo.fragments());
    assert_eq!(plan.len(), 1);
    assert_eq!(plan[0].call.id, "c1");
    assert_eq!(plan[0].call.function.name, "search");
    assert!(plan[0].resolved);

    let results = results_for_batch(&plan, vec![ToolOutcome::TimedOut], 50);
    assert_eq!(results.len(), 1);
    assert_eq!(results[0].content, "tool timed out after 50 ms");

    let action = convo.on_results(results);
    assert!(matches!(action, LoopAction::Send));
    assert!(matches!(convo.phase(), TurnPhase::Sending));
    let history = convo.history();
    assert_eq!(history.len(), 3);
    match &history[2] {
        HistoryEntry::ToolResult(r) => {
            assert_eq!(r.tool_call_id, "c1");
            assert_eq!(r.content, "tool timed out after 50 ms");
            assert!(matches!(r.role, Role::Tool));
        }
        other => panic!("expected a tool result, got {:?}", other),
    }
}

#[test]
fn results_are_appended_in_call_order() {
    let mut convo = ConversationLoop::new(vec![], None);
    convo.begin_turn();
    convo.on_event(&message_event("", true, vec![a_call("c1", "a"), a_call("c2", "b")]));
    let results = vec![
        ToolCallResultMessage::new("a".to_string(), "r1".to_string(), "c1".to_string()),
        ToolCallResultMessage::new("b".to_string(), "r2".to_string(), "c2".to_string()),
    ];
    convo.on_results(results);
    let history = convo.history();
    assert_eq!(history.len(), 3);
    assert!(matches!(&history[1], HistoryEntry::ToolResult(r) if r.tool_call_id == "c1"));
    assert!(matches!(&history[2], HistoryEntry::ToolResult(r) if r.tool_call_id == "c2"));
}

#[test]
fn round_limit_stops_the_loop() {
    let mut convo = ConversationLoop::new(user_history("go"), Some(1));
    convo.begin_turn();
    convo.on_event(&message_event("", true, vec![a_call("c1", "t")]));
    let results = vec![ToolCallResultMessage::new(
        "t".to_string(),
        "out".to_string(),
        "c1".to_string(),
    )];
    let action = convo.on_results(results);
    assert!(matches!(action, LoopAction::Stop));
    assert!(matches!(convo.phase(), TurnPhase::Done));
    assert_eq!(convo.history().len(), 3);
}
