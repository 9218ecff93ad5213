use ollama_sdk::chat::FunctionInvocation;
use ollama_sdk::chat::ToolCall;
use ollama_sdk::dispatch::dedup_calls;
use ollama_sdk::dispatch::missing_tool_result;
use ollama_sdk::dispatch::plan_dispatch;
use ollama_sdk::dispatch::result_for_outcome;
use ollama_sdk::dispatch::results_for_batch;
use ollama_sdk::dispatch::u64_to_string;
use ollama_sdk::dispatch::ToolOutcome;
use ollama_sdk::registry::ToolRegistry;
use ollama_sdk::types::Role;

fn call(id: &str, name: &str, arguments: &str) -> ToolCall {
    ToolCall {
        id: id.to_string(),
        function: FunctionInvocation {
            index: None,
            name: name.to_string(),
            arguments: arguments.to_string(),
        },
    }
}

#[test]
fn dedup_keeps_last_occurrence_of_each_id() {
    let fragments = vec![
        call("c1", "", "{}"),
        call("c2", "lookup", "{\"q\":1}"),
        call("c1", "search", "{\"q\":\"rust\"}"),
    ];
    let distinct = dedup_calls(&fragments);
    assert_eq!(distinct.len(), 2);
    assert_eq!(distinct[0].id, "c2");
    assert_eq!(distinct[1].id, "c1");
    assert_eq!(distinct[1].function.name, "search");
    assert_eq!(distinct[1].function.arguments, "{\"q\":\"rust\"}");
}

#[test]
fn dedup_invokes_each_id_at_most_once() {
    let fragments = vec![call("c1", "", "{}"), call("c1", "f", "{}"), call("c1", "f", "{}")];
    let distinct = dedup_calls(&fragments);
    assert_eq!(distinct.len(), 1);
    assert_eq!(distinct[0].id, "c1");
}

#[test]
fn plan_resolves_by_name_against_the_registry() {
    let mut reg: ToolRegistry<u32> = ToolRegistry::new();
    assert!(reg.register_tool("search".to_string(), 7).is_ok());
    let fragments = vec![call("c1", "search", "{}"), call("c2", "unknown", "{}")];
    let plan = plan_dispatch(&reg, &fragments);
    assert_eq!(plan.len(), 2);
    assert_eq!(plan[0].call.id, "c1");
    assert!(plan[0].resolved);
    assert_eq!(plan[1].call.id, "c2");
    assert!(!plan[1].resolved);
}

#[test]
fn missing_tool_result_names_the_tool() {
    let c = call("c9", "ghost", "{}");
    let r = missing_tool_result(&c);
    assert!(matches!(r.role, Role::Tool));
    assert_eq!(r.name, "ghost");
    assert_eq!(r.tool_call_id, "c9");
    assert_eq!(r.content, "tool not found: ghost");
}

#[test]
fn success_outcome_carries_the_tool_output() {
    let c = call("c1", "adder", "{\"a\":2}");
    let r = result_for_outcome(&c, ToolOutcome::Success("{\"sum\":5}".to_string()), 1000);
    assert!(matches!(r.role, Role::Tool));
    assert_eq!(r.name, "adder");
    assert_eq!(r.tool_call_id, "c1");
    assert_eq!(r.content, "{\"sum\":5}");
}

#[test]
fn failure_outcome_carries_the_error_message() {
    let c = call("c1", "adder", "{}");
    let r = result_for_outcome(&c, ToolOutcome::Failure("bad input".to_string()), 1000);
    assert_eq!(r.content, "tool failed: bad input");
}

#[test]
fn timeout_outcome_states_the_deadline() {
    let c = call("c1", "slow", "{}");
    let r = result_for_outcome(&c, ToolOutcome::TimedOut, 1500);
    assert_eq!(r.content, "tool timed out after 1500 ms");
    assert_eq!(r.tool_call_id, "c1");
}

#[test]
fn decimal_rendering_is_exact() {
    assert_eq!(u64_to_string(0), "0");
    assert_eq!(u64_to_string(7), "7");
    assert_eq!(u64_to_string(10), "10");
    assert_eq!(u64_to_string(30000), "30000");
    assert_eq!(u64_to_string(u64::MAX), "18446744073709551615");
}

#[test]
fn batch_produces_exactly_one_result_per_planned_call() {
    let mut reg: ToolRegistry<u32> = ToolRegistry::new();
    assert!(reg.register_tool("a".to_string(), 0).is_ok());
    assert!(reg.register_tool("b".to_string(), 0).is_ok());
    let fragments = vec![
        call("c1", "a", "{}"),
        call("c2", "ghost", "{}"),
        call("c3", "b", "{}"),
        call("c1", "a", "{\"final\":true}"),
    ];
    let plan = plan_dispatch(&reg, &fragments);
    assert_eq!(plan.len(), 3);
    let outcomes = vec![
        ToolOutcome::Failure("ignored for unresolved".to_string()),
        ToolOutcome::Success("out-b".to_string()),
        ToolOutcome::TimedOut,
    ];
    let results = results_for_batch(&plan, outcomes, 250);
    assert_eq!(results.len(), 3);
    assert_eq!(results[0].tool_call_id, "c2");
    assert_eq!(results[0].content, "tool not found: ghost");
    assert_eq!(results[1].tool_call_id, "c3");
    assert_eq!(results[1].content, "out-b");
    assert_eq!(results[2].tool_call_id, "c1");
    assert_eq!(results[2].content, "tool timed out after 250 ms");
}
