//! The tool dispatcher's decision logic: deduplicate the tool-call fragments
//! collected while draining one assistant turn, resolve each distinct call
//! against the registry, and shape exactly one result per call.
//!
//! Fragments may repeat a call id with progressively completed arguments; only
//! the last occurrence of each id is kept, so a capability is invoked at most
//! once per turn. Resolution is by name. A missing tool, a failed invocation
//! and an exceeded deadline are all resolved locally into an ordinary result —
//! none of them escapes as a hard error. The invocation itself, with its
//! cancellation scope and deadline timer, runs in the surrounding program;
//! its verdict comes back as a [`ToolOutcome`] value, and everything proved
//! here holds whatever that verdict is.

use vstd::prelude::*;

use crate::chat::calls_view;
use crate::chat::FunctionInvocation;
use crate::chat::ToolCall;
use crate::chat::ToolCallView;
use crate::parser::str_eq;
use crate::registry::ToolRegistry;
use crate::types::Role;
use crate::types::ToolCallResultMessage;
use crate::types::ToolCallResultMessageView;

verus! {

/// Whether the occurrence at `i` is the last with its id.
pub open spec fn is_last_of_id(s: Seq<ToolCallView>, i: int) -> bool {
    forall|j: int| i < j < s.len() ==> s[j].id != s[i].id
}

pub open spec fn dedup_from(s: Seq<ToolCallView>, i: int) -> Seq<ToolCallView>
    decreases s.len() - i,
{
    if i < 0 || i >= s.len() {
        Seq::empty()
    } else if is_last_of_id(s, i) {
        seq![s[i]] + dedup_from(s, i + 1)
    } else {
        dedup_from(s, i + 1)
    }
}

/// The distinct calls of one turn: for each id that occurs, its last
/// occurrence, in the order of those last occurrences.
pub open spec fn dedup_calls_spec(s: Seq<ToolCallView>) -> Seq<ToolCallView> {
    dedup_from(s, 0)
}

proof fn lemma_dedup_from_props(s: Seq<ToolCallView>, i: int)
    requires
        0 <= i <= s.len(),
    ensures
        forall|a: int|
            0 <= a < dedup_from(s, i).len() ==> exists|k: int|
                i <= k < s.len() && s[k] == #[trigger] dedup_from(s, i)[a],
        forall|a: int, b: int|
            0 <= a < b < dedup_from(s, i).len() ==> dedup_from(s, i)[a].id != dedup_from(
                s,
                i,
            )[b].id,
    decreases s.len() - i,
{
    if i == s.len() {
    } else {
        lemma_dedup_from_props(s, i + 1);
        let d = dedup_from(s, i);
        let rest = dedup_from(s, i + 1);
        assert forall|a: int| 0 <= a < d.len() implies exists|k: int|
            i <= k < s.len() && s[k] == #[trigger] d[a] by {
            if is_last_of_id(s, i) {
                if a == 0 {
                    assert(i <= i < s.len() && s[i] == d[a]);
                } else {
                    assert(d[a] == rest[a - 1]);
                    let k = choose|k: int| i + 1 <= k < s.len() && s[k] == rest[a - 1];
                    assert(i <= k < s.len() && s[k] == d[a]);
                }
            } else {
                assert(d[a] == rest[a]);
                let k = choose|k: int| i + 1 <= k < s.len() && s[k] == rest[a];
                assert(i <= k < s.len() && s[k] == d[a]);
            }
        }
        if is_last_of_id(s, i) {
            assert forall|a: int, b: int| 0 <= a < b < d.len() implies d[a].id != d[b].id by {
                if a == 0 {
                    assert(d[b] == rest[b - 1]);
                    let k = choose|k: int| i + 1 <= k < s.len() && s[k] == rest[b - 1];
                    assert(s[k].id != s[i].id);
                } else {
                    assert(d[a] == rest[a - 1] && d[b] == rest[b - 1]);
                }
            }
        }
    }
}

/// Within one dispatch batch every id occurs at most once: the capability
/// under an id repeated across stream fragments is planned, and so invoked,
/// at most once per turn.
pub proof fn lemma_dedup_ids_distinct(s: Seq<ToolCallView>)
    ensures
        forall|a: int, b: int|
            0 <= a < b < dedup_calls_spec(s).len() ==> dedup_calls_spec(s)[a].id
                != dedup_calls_spec(s)[b].id,
{
    lemma_dedup_from_props(s, 0);
}

/// An exact copy of a tool call.
pub fn duplicate_call(c: &ToolCall) -> (r: ToolCall)
    ensures
        r == *c,
        r@ == c@,
{
    ToolCall {
        id: c.id.clone(),
        function: FunctionInvocation {
            index: c.function.index,
            name: c.function.name.clone(),
            arguments: c.function.arguments.clone(),
        },
    }
}

/// Keep, for each id, only the last occurrence among the collected fragments.
pub fn dedup_calls(fragments: &Vec<ToolCall>) -> (r: Vec<ToolCall>)
    ensures
        calls_view(r@) == dedup_calls_spec(calls_view(fragments@)),
{
    let ghost s = calls_view(fragments@);
    let mut out: Vec<ToolCall> = Vec::new();
    let mut i: usize = 0;
    proof {
        assert(calls_view(out@) =~= Seq::<ToolCallView>::empty());
        assert(calls_view(out@) + dedup_from(s, 0) =~= dedup_calls_spec(s));
    }
    while i < fragments.len()
        invariant
            i <= fragments.len(),
            s == calls_view(fragments@),
            s.len() == fragments@.len(),
            calls_view(out@) + dedup_from(s, i as int) == dedup_calls_spec(s),
        decreases fragments.len() - i,
    {
        let mut last = true;
        let mut j: usize = i + 1;
        while j < fragments.len()
            invariant
                i < j <= fragments.len() || (j == i + 1 && i < fragments.len()),
                i < fragments.len(),
                s == calls_view(fragments@),
                s.len() == fragments@.len(),
                last == (forall|k: int| i < k < j ==> s[k].id != s[i as int].id),
            decreases fragments.len() - j,
        {
            let eq = str_eq(fragments[j].id.as_str(), fragments[i].id.as_str());
            proof {
                assert(s[j as int] == fragments@[j as int]@);
                assert(s[i as int] == fragments@[i as int]@);
                assert(eq == (s[j as int].id == s[i as int].id));
            }
            if eq {
                last = false;
            }
            j = j + 1;
        }
        let ghost out_before = calls_view(out@);
        if last {
            out.push(duplicate_call(&fragments[i]));
            proof {
                assert(calls_view(out@) =~= out_before + seq![s[i as int]]);
            }
        }
        proof {
            assert(last == is_last_of_id(s, i as int));
            assert(calls_view(out@) + dedup_from(s, i as int + 1) =~= dedup_calls_spec(s));
        }
        i = i + 1;
    }
    proof {
        assert(dedup_from(s, s.len() as int) =~= Seq::<ToolCallView>::empty());
        assert(calls_view(out@) =~= dedup_calls_spec(s));
    }
    out
}

/// One planned call of a dispatch batch: the distinct call, and whether a
/// capability with its name is registered.
pub struct PlannedCall {
    pub call: ToolCall,
    pub resolved: bool,
}

/// The mathematical value of a [`PlannedCall`].
pub struct PlannedCallView {
    pub call: ToolCallView,
    pub resolved: bool,
}

impl View for PlannedCall {
    type V = PlannedCallView;

    open spec fn view(&self) -> PlannedCallView {
        PlannedCallView { call: self.call@, resolved: self.resolved }
    }
}

/// Plan one dispatch batch: deduplicate the fragments by id and resolve each
/// distinct call against the registry by its function name. The plan has
/// exactly one entry per distinct id, in order.
pub fn plan_dispatch<H>(registry: &ToolRegistry<H>, fragments: &Vec<ToolCall>) -> (plan: Vec<
    PlannedCall,
>)
    requires
        registry.wf(),
    ensures
        plan@.len() == dedup_calls_spec(calls_view(fragments@)).len(),
        forall|i: int|
            0 <= i < plan@.len() ==> (#[trigger] plan@[i])@.call == dedup_calls_spec(
                calls_view(fragments@),
            )[i] && plan@[i]@.resolved == registry@.contains_key(
                dedup_calls_spec(calls_view(fragments@))[i].name,
            ),
{
    let ghost d = dedup_calls_spec(calls_view(fragments@));
    let distinct = dedup_calls(fragments);
    let mut plan: Vec<PlannedCall> = Vec::new();
    let mut i: usize = 0;
    proof {
        assert(calls_view(distinct@).len() == distinct@.len());
    }
    while i < distinct.len()
        invariant
            i <= distinct.len(),
            registry.wf(),
            d == dedup_calls_spec(calls_view(fragments@)),
            calls_view(distinct@) == d,
            d.len() == distinct@.len(),
            plan@.len() == i,
            forall|k: int|
                0 <= k < i ==> (#[trigger] plan@[k])@.call == d[k] && plan@[k]@.resolved
                    == registry@.contains_key(d[k].name),
        decreases distinct.len() - i,
    {
        let resolved = registry.get_tool(distinct[i].function.name.as_str()).is_some();
        proof {
            assert(calls_view(distinct@)[i as int] == distinct@[i as int]@);
        }
        plan.push(PlannedCall { call: duplicate_call(&distinct[i]), resolved });
        i = i + 1;
    }
    plan
}

/// The verdict of one capability invocation, as the surrounding program saw
/// it: the capability's JSON result text, its error message, or the fall of
/// the deadline timer. A result that arrives after the deadline is discarded
/// by the invoker and never becomes a verdict.
pub enum ToolOutcome {
    Success(String),
    Failure(String),
    TimedOut,
}

/// The mathematical value of a [`ToolOutcome`].
pub enum ToolOutcomeView {
    Success(Seq<char>),
    Failure(Seq<char>),
    TimedOut,
}

impl View for ToolOutcome {
    type V = ToolOutcomeView;

    open spec fn view(&self) -> ToolOutcomeView {
        match self {
            ToolOutcome::Success(s) => ToolOutcomeView::Success(s@),
            ToolOutcome::Failure(m) => ToolOutcomeView::Failure(m@),
            ToolOutcome::TimedOut => ToolOutcomeView::TimedOut,
        }
    }
}

/// The digit character of one decimal digit.
pub open spec fn digit_char(d: nat) -> char {
    if d == 0 {
        '0'
    } else if d == 1 {
        '1'
    } else if d == 2 {
        '2'
    } else if d == 3 {
        '3'
    } else if d == 4 {
        '4'
    } else if d == 5 {
        '5'
    } else if d == 6 {
        '6'
    } else if d == 7 {
        '7'
    } else if d == 8 {
        '8'
    } else {
        '9'
    }
}

/// The decimal rendering of a number, most significant digit first.
pub open spec fn decimal_of(n: nat) -> Seq<char>
    decreases n,
{
    if n < 10 {
        seq![digit_char(n)]
    } else {
        decimal_of(n / 10) + seq![digit_char(n % 10)]
    }
}

fn digit_str(d: u64) -> (s: &'static str)
    requires
        d < 10,
    ensures
        s@ == seq![digit_char(d as nat)],
{
    let s: &'static str = match d {
        0 => "0",
        1 => "1",
        2 => "2",
        3 => "3",
        4 => "4",
        5 => "5",
        6 => "6",
        7 => "7",
        8 => "8",
        _ => "9",
    };
    proof {
        reveal_strlit("0");
        reveal_strlit("1");
        reveal_strlit("2");
        reveal_strlit("3");
        reveal_strlit("4");
        reveal_strlit("5");
        reveal_strlit("6");
        reveal_strlit("7");
        reveal_strlit("8");
        reveal_strlit("9");
        assert(s@ =~= seq![digit_char(d as nat)]);
    }
    s
}

/// Render a number in decimal.
pub fn u64_to_string(n: u64) -> (s: String)
    ensures
        s@ == decimal_of(n as nat),
    decreases n,
{
    if n < 10 {
        digit_str(n).to_owned()
    } else {
        let high = u64_to_string(n / 10);
        high.concat(digit_str(n % 10))
    }
}

/// The result content synthesized for a call whose name no registered
/// capability bears; nothing is invoked for it.
pub open spec fn not_found_content(name: Seq<char>) -> Seq<char> {
    "tool not found: "@ + name
}

/// The result content of a capability that reported an error.
pub open spec fn failure_content(msg: Seq<char>) -> Seq<char> {
    "tool failed: "@ + msg
}

/// The result content of a capability that exceeded the configured deadline.
pub open spec fn timeout_content(deadline_ms: u64) -> Seq<char> {
    "tool timed out after "@ + decimal_of(deadline_ms as nat) + " ms"@
}

/// The content a result carries for one verdict.
pub open spec fn outcome_content(o: ToolOutcomeView, deadline_ms: u64) -> Seq<char> {
    match o {
        ToolOutcomeView::Success(s) => s,
        ToolOutcomeView::Failure(m) => failure_content(m),
        ToolOutcomeView::TimedOut => timeout_content(deadline_ms),
    }
}

/// The one result of a planned call: the synthesized not-found result where
/// no capability was resolved, the verdict's content otherwise.
pub open spec fn planned_result(p: PlannedCallView, o: ToolOutcomeView, deadline_ms: u64) -> ToolCallResultMessageView {
    ToolCallResultMessageView {
        role: Role::Tool,
        name: p.call.name,
        tool_call_id: p.call.id,
        content: if p.resolved {
            outcome_content(o, deadline_ms)
        } else {
            not_found_content(p.call.name)
        },
    }
}

/// The result synthesized for an unresolved call.
pub fn missing_tool_result(call: &ToolCall) -> (r: ToolCallResultMessage)
    ensures
        r@ == (ToolCallResultMessageView {
            role: Role::Tool,
            name: call@.name,
            tool_call_id: call@.id,
            content: not_found_content(call@.name),
        }),
{
    let prefix: String = "tool not found: ".to_owned();
    let content = prefix.concat(call.function.name.as_str());
    ToolCallResultMessage::new(call.function.name.clone(), content, call.id.clone())
}

/// The result of one resolved call for one verdict. Success carries the
/// capability's own output; failure and timeout are failure-shaped contents,
/// the latter naming the configured deadline. Each is an ordinary result,
/// attributable through `tool_call_id` to its originating call.
pub fn result_for_outcome(call: &ToolCall, outcome: ToolOutcome, deadline_ms: u64) -> (r:
    ToolCallResultMessage)
    ensures
        r@ == (ToolCallResultMessageView {
            role: Role::Tool,
            name: call@.name,
            tool_call_id: call@.id,
            content: outcome_content(outcome@, deadline_ms),
        }),
{
    let content: String = match outcome {
        ToolOutcome::Success(s) => s,
        ToolOutcome::Failure(m) => {
            let prefix: String = "tool failed: ".to_owned();
            prefix.concat(m.as_str())
        },
        ToolOutcome::TimedOut => {
            let prefix: String = "tool timed out after ".to_owned();
            prefix.concat(u64_to_string(deadline_ms).as_str()).concat(" ms")
        },
    };
    ToolCallResultMessage::new(call.function.name.clone(), content, call.id.clone())
}

/// One result for every planned call of a batch, in plan order: unresolved
/// calls get the synthesized not-found result without any invocation, and
/// each resolved call gets the result of its own verdict. No call is skipped
/// and none is answered twice.
pub fn results_for_batch(
    plan: &Vec<PlannedCall>,
    outcomes: Vec<ToolOutcome>,
    deadline_ms: u64,
) -> (rs: Vec<ToolCallResultMessage>)
    requires
        outcomes@.len() == plan@.len(),
    ensures
        rs@.len() == plan@.len(),
        forall|i: int|
            0 <= i < rs@.len() ==> (#[trigger] rs@[i])@ == planned_result(
                plan@[i]@,
                outcomes@[i]@,
                deadline_ms,
            ),
{
    let ghost outcomes_snapshot = outcomes@;
    let mut rs: Vec<ToolCallResultMessage> = Vec::new();
    let mut remaining = outcomes;
    let mut i: usize = 0;
    while i < plan.len()
        invariant
            i <= plan@.len(),
            remaining@ == outcomes_snapshot.skip(i as int),
            outcomes_snapshot.len() == plan@.len(),
            rs@.len() == i,
            forall|k: int|
                0 <= k < i ==> (#[trigger] rs@[k])@ == planned_result(
                    plan@[k]@,
                    outcomes_snapshot[k]@,
                    deadline_ms,
                ),
        decreases plan.len() - i,
    {
        proof {
            assert(remaining@[0] == outcomes_snapshot[i as int]);
        }
        let outcome = remaining.remove(0);
        let r = if plan[i].resolved {
            result_for_outcome(&plan[i].call, outcome, deadline_ms)
        } else {
            missing_tool_result(&plan[i].call)
        };
        rs.push(r);
        i = i + 1;
        proof {
            assert(remaining@ =~= outcomes_snapshot.skip(i as int));
        }
    }
    rs
}

} // verus!
