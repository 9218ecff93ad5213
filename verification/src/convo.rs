//! The conversation loop: the state machine behind the request → drain →
//! dispatch → resend cycle.
//!
//! The loop owns the append-only conversation history and the per-turn
//! accumulator of assistant text and tool-call fragments. The surrounding
//! program performs the outside work — sending requests, awaiting stream
//! events, invoking capabilities — and reports each outcome here; every
//! decision about what happens next is taken, and proved, in this module.
//!
//! One turn: `begin_turn` resets the accumulators; each drained stream event
//! goes through `on_event`, which collects assistant text and tool-call
//! fragments until the turn's completion signal (`done`, or the stream's
//! end reported through `on_stream_end`); completion appends the accumulated
//! assistant message to the history and decides between finishing (no tool
//! calls) and dispatching. `on_results` appends every tool result to the
//! history, in call order, and loops back to sending unless the configured
//! round limit has been reached.

use vstd::prelude::*;

use crate::chat::calls_view;
use crate::chat::ChatStreamEvent;
use crate::chat::ChatStreamEventView;
use crate::chat::ToolCall;
use crate::chat::ToolCallView;
use crate::dispatch::duplicate_call;
use crate::dispatch::planned_result;
use crate::dispatch::timeout_content;
use crate::dispatch::PlannedCallView;
use crate::dispatch::ToolOutcomeView;
use crate::types::Message;
use crate::types::MessageView;
use crate::types::Role;
use crate::types::ToolCallResultMessage;
use crate::types::ToolCallResultMessageView;

verus! {

/// Where the loop stands.
#[derive(Clone, Copy, PartialEq, Eq, Structural, Debug)]
pub enum TurnPhase {
    /// The next request is due.
    Sending,
    /// A streaming response is being drained.
    Draining,
    /// Collected tool calls are being executed.
    Dispatching,
    /// The conversation is over.
    Done,
}

/// One entry of the conversation history.
#[derive(Clone, Debug)]
pub enum HistoryEntry {
    Chat(Message),
    ToolResult(ToolCallResultMessage),
}

/// The mathematical value of a [`HistoryEntry`].
pub enum HistoryEntryView {
    Chat(MessageView),
    ToolResult(ToolCallResultMessageView),
}

impl View for HistoryEntry {
    type V = HistoryEntryView;

    open spec fn view(&self) -> HistoryEntryView {
        match self {
            HistoryEntry::Chat(m) => HistoryEntryView::Chat(m@),
            HistoryEntry::ToolResult(r) => HistoryEntryView::ToolResult(r@),
        }
    }
}

impl DeepView for HistoryEntry {
    type V = HistoryEntryView;

    open spec fn deep_view(&self) -> HistoryEntryView {
        self.view()
    }
}

impl DeepView for ToolCallResultMessage {
    type V = ToolCallResultMessageView;

    open spec fn deep_view(&self) -> ToolCallResultMessageView {
        self.view()
    }
}

/// What the driver should do after reporting an event or a batch of results.
#[derive(Clone, Copy, PartialEq, Eq, Structural, Debug)]
pub enum LoopAction {
    /// Keep draining the current stream.
    Continue,
    /// Execute the collected distinct tool calls and report the results.
    Dispatch,
    /// Send the history as the next request, then drain.
    Send,
    /// The conversation is over.
    Stop,
}

/// The mathematical state of a [`ConversationLoop`].
pub struct ConversationLoopView {
    pub history: Seq<HistoryEntryView>,
    pub phase: TurnPhase,
    pub acc: Seq<char>,
    pub fragments: Seq<ToolCallView>,
    pub rounds: u64,
    pub max_rounds: Option<u64>,
}

/// The history entries of a batch of tool results, in call order.
pub open spec fn results_entries(rs: Seq<ToolCallResultMessageView>) -> Seq<HistoryEntryView> {
    rs.map_values(|r: ToolCallResultMessageView| HistoryEntryView::ToolResult(r))
}

/// Completing a turn: the accumulated assistant message joins the history;
/// with no collected tool calls the conversation is done, otherwise the
/// collected calls go to dispatch.
pub open spec fn turn_complete(v: ConversationLoopView) -> ConversationLoopView {
    ConversationLoopView {
        history: v.history.push(
            HistoryEntryView::Chat(MessageView { role: Role::Assistant, content: v.acc }),
        ),
        phase: if v.fragments.len() == 0 {
            TurnPhase::Done
        } else {
            TurnPhase::Dispatching
        },
        ..v
    }
}

/// Accumulating one decoded message: its content extends the assistant text
/// and its tool calls extend the collected fragments.
pub open spec fn accumulate(v: ConversationLoopView, content: Seq<char>, calls: Seq<ToolCallView>) -> ConversationLoopView {
    ConversationLoopView { acc: v.acc + content, fragments: v.fragments + calls, ..v }
}

/// Whether finishing one more dispatch round reaches the configured limit.
pub open spec fn round_limit_reached(rounds: u64, max_rounds: Option<u64>) -> bool {
    match max_rounds {
        Some(m) => rounds >= m,
        None => false,
    }
}

/// Appending a batch of tool results: every result joins the history in call
/// order, the fragments are spent, and the loop resends — unless the round
/// limit is reached, which ends the conversation.
pub open spec fn after_results(v: ConversationLoopView, rs: Seq<ToolCallResultMessageView>) -> ConversationLoopView {
    ConversationLoopView {
        history: v.history + results_entries(rs),
        fragments: Seq::empty(),
        rounds: (v.rounds + 1) as u64,
        phase: if round_limit_reached((v.rounds + 1) as u64, v.max_rounds) {
            TurnPhase::Done
        } else {
            TurnPhase::Sending
        },
        ..v
    }
}

/// The conversation loop state.
pub struct ConversationLoop {
    history: Vec<HistoryEntry>,
    phase: TurnPhase,
    acc: String,
    fragments: Vec<ToolCall>,
    rounds: u64,
    max_rounds: Option<u64>,
}

impl View for ConversationLoop {
    type V = ConversationLoopView;

    closed spec fn view(&self) -> ConversationLoopView {
        ConversationLoopView {
            history: self.history.deep_view(),
            phase: self.phase,
            acc: self.acc@,
            fragments: calls_view(self.fragments@),
            rounds: self.rounds,
            max_rounds: self.max_rounds,
        }
    }
}

impl ConversationLoop {
    /// Start a conversation from an initial history. A round limit, if any,
    /// bounds how many dispatch rounds may run before the loop stops on its
    /// own; without one the loop is unbounded.
    pub fn new(history: Vec<HistoryEntry>, max_rounds: Option<u64>) -> (c: ConversationLoop)
        ensures
            c@ == (ConversationLoopView {
                history: history.deep_view(),
                phase: TurnPhase::Sending,
                acc: Seq::<char>::empty(),
                fragments: Seq::<ToolCallView>::empty(),
                rounds: 0,
                max_rounds,
            }),
    {
        let c = ConversationLoop {
            history,
            phase: TurnPhase::Sending,
            acc: String::new(),
            fragments: Vec::new(),
            rounds: 0,
            max_rounds,
        };
        proof {
            assert(calls_view(c.fragments@) =~= Seq::<ToolCallView>::empty());
        }
        c
    }

    /// The conversation history, owned by the loop between request attempts.
    pub fn history(&self) -> (h: &Vec<HistoryEntry>)
        ensures
            h.deep_view() == self@.history,
    {
        &self.history
    }

    /// The tool-call fragments collected while draining the current turn.
    pub fn fragments(&self) -> (f: &Vec<ToolCall>)
        ensures
            calls_view(f@) == self@.fragments,
    {
        &self.fragments
    }

    /// Where the loop stands.
    pub fn phase(&self) -> (p: TurnPhase)
        ensures
            p == self@.phase,
    {
        self.phase
    }

    /// How many dispatch rounds have completed.
    pub fn rounds(&self) -> (n: u64)
        ensures
            n == self@.rounds,
    {
        self.rounds
    }

    /// Open the next turn: the driver sends the current history (with any
    /// tool specifications) as a streaming request and drains the response.
    pub fn begin_turn(&mut self) -> (a: LoopAction)
        requires
            old(self)@.phase == TurnPhase::Sending,
        ensures
            a == LoopAction::Continue,
            final(self)@ == (ConversationLoopView {
                phase: TurnPhase::Draining,
                acc: Seq::<char>::empty(),
                fragments: Seq::<ToolCallView>::empty(),
                ..old(self)@
            }),
    {
        self.phase = TurnPhase::Draining;
        self.acc = String::new();
        self.fragments = Vec::new();
        proof {
            assert(calls_view(self.fragments@) =~= Seq::<ToolCallView>::empty());
        }
        LoopAction::Continue
    }

    /// Report one drained stream event. A decoded message extends the
    /// accumulated assistant text and the collected fragments; its `done`
    /// flag is the turn's completion signal. Server errors and partial lines
    /// are observable to the driver but do not change the conversation.
    pub fn on_event(&mut self, ev: &ChatStreamEvent) -> (a: LoopAction)
        requires
            old(self)@.phase == TurnPhase::Draining,
        ensures
            match ev@ {
                ChatStreamEventView::Message(p) => {
                    let gathered = accumulate(old(self)@, p.message.content, p.message.tool_calls);
                    if p.done {
                        final(self)@ == turn_complete(gathered) && a == (if p.message.tool_calls.len()
                            + old(self)@.fragments.len() == 0 {
                            LoopAction::Stop
                        } else {
                            LoopAction::Dispatch
                        })
                    } else {
                        final(self)@ == gathered && a == LoopAction::Continue
                    }
                },
                _ => final(self)@ == old(self)@ && a == LoopAction::Continue,
            },
    {
        match ev {
            ChatStreamEvent::Message(p) => {
                self.acc.append(p.message.content.as_str());
                let ghost frags_before = self.fragments@;
                let mut k: usize = 0;
                proof {
                    assert(self.fragments@ =~= frags_before + p.message.tool_calls@.take(0));
                }
                while k < p.message.tool_calls.len()
                    invariant
                        k <= p.message.tool_calls@.len(),
                        self.fragments@ == frags_before + p.message.tool_calls@.take(k as int),
                        self.acc@ == old(self)@.acc + p.message.content@,
                        self.history == old(self).history,
                        self.phase == old(self).phase,
                        self.rounds == old(self).rounds,
                        self.max_rounds == old(self).max_rounds,
                    decreases p.message.tool_calls@.len() - k,
                {
                    self.fragments.push(duplicate_call(&p.message.tool_calls[k]));
                    k = k + 1;
                    proof {
                        assert(self.fragments@ =~= frags_before + p.message.tool_calls@.take(
                            k as int,
                        ));
                    }
                }
                proof {
                    assert(p.message.tool_calls@.take(p.message.tool_calls@.len() as int)
                        =~= p.message.tool_calls@);
                    assert(self.fragments@ =~= frags_before + p.message.tool_calls@);
                    assert(calls_view(self.fragments@) =~= calls_view(frags_before) + calls_view(
                        p.message.tool_calls@,
                    ));
                }
                if p.done {
                    self.finish_turn()
                } else {
                    LoopAction::Continue
                }
            },
            _ => LoopAction::Continue,
        }
    }

    /// The stream ended without a completion signal: treat the end of input
    /// as the end of the turn, so accumulated text and calls are not lost.
    pub fn on_stream_end(&mut self) -> (a: LoopAction)
        requires
            old(self)@.phase == TurnPhase::Draining,
        ensures
            final(self)@ == turn_complete(old(self)@),
            a == (if old(self)@.fragments.len() == 0 {
                LoopAction::Stop
            } else {
                LoopAction::Dispatch
            }),
    {
        self.finish_turn()
    }

    /// Close the turn: append the accumulated assistant message and decide
    /// between stopping and dispatching.
    fn finish_turn(&mut self) -> (a: LoopAction)
        ensures
            final(self)@ == turn_complete(old(self)@),
            a == (if old(self)@.fragments.len() == 0 {
                LoopAction::Stop
            } else {
                LoopAction::Dispatch
            }),
    {
        let content = self.acc.clone();
        let ghost hist_before = self.history.deep_view();
        self.history.push(HistoryEntry::Chat(Message { role: Role::Assistant, content }));
        proof {
            assert(self.history.deep_view() =~= hist_before.push(
                HistoryEntryView::Chat(MessageView { role: Role::Assistant, content: old(self)@.acc }),
            ));
        }
        if self.fragments.len() == 0 {
            self.phase = TurnPhase::Done;
            proof {
                assert(calls_view(self.fragments@) =~= Seq::<ToolCallView>::empty());
                assert(calls_view(self.fragments@).len() == 0);
            }
            LoopAction::Stop
        } else {
            self.phase = TurnPhase::Dispatching;
            LoopAction::Dispatch
        }
    }

    /// Report the results of one dispatch batch. Every result is appended to
    /// the history, in call order; then the loop resends, or stops if this
    /// round reached the configured limit.
    pub fn on_results(&mut self, results: Vec<ToolCallResultMessage>) -> (a: LoopAction)
        requires
            old(self)@.phase == TurnPhase::Dispatching,
            old(self)@.rounds < u64::MAX,
        ensures
            final(self)@ == after_results(old(self)@, results.deep_view()),
            a == (if round_limit_reached(
                (old(self)@.rounds + 1) as u64,
                old(self)@.max_rounds,
            ) {
                LoopAction::Stop
            } else {
                LoopAction::Send
            }),
    {
        let ghost hist_before = self.history.deep_view();
        let ghost rs = results.deep_view();
        let mut remaining = results;
        let n = remaining.len();
        let mut i: usize = 0;
        proof {
            assert(remaining.deep_view() =~= rs.skip(0));
            assert(self.history.deep_view() =~= hist_before + results_entries(rs).take(0));
            assert(remaining.deep_view().len() == remaining@.len());
        }
        while i < n
            invariant
                i <= n,
                n == rs.len(),
                remaining.deep_view() == rs.skip(i as int),
                remaining.deep_view().len() == remaining@.len(),
                self.history.deep_view() == hist_before + results_entries(rs).take(i as int),
                self.phase == old(self)@.phase,
                self.acc@ == old(self)@.acc,
                calls_view(self.fragments@) == old(self)@.fragments,
                self.rounds == old(self)@.rounds,
                self.max_rounds == old(self)@.max_rounds,
            decreases n - i,
        {
            proof {
                assert(rs.skip(i as int).len() == rs.len() - i);
                assert(remaining@.len() > 0);
                assert(remaining.deep_view()[0] == rs.skip(i as int)[0]);
                assert(rs.skip(i as int)[0] == rs[i as int]);
            }
            let ghost rem_before = remaining@;
            let ghost hist_mid = self.history.deep_view();
            let r = remaining.remove(0);
            proof {
                assert(r.deep_view() == rs[i as int]);
                assert(remaining@ == rem_before.remove(0));
                assert(remaining@.len() == rem_before.len() - 1);
                assert(forall|j: int|
                    0 <= j < remaining@.len() ==> remaining@[j] == rem_before[j + 1]);
                assert forall|j: int|
                    0 <= j < remaining@.len() implies remaining.deep_view()[j] == rs.skip(
                    i as int + 1,
                )[j] by {
                    assert(remaining.deep_view()[j] == remaining@[j].deep_view());
                    assert(rem_before[j + 1].deep_view() == rs.skip(i as int)[j + 1]);
                }
            }
            self.history.push(HistoryEntry::ToolResult(r));
            i = i + 1;
            proof {
                assert(remaining.deep_view() =~= rs.skip(i as int));
                assert(remaining.deep_view().len() == remaining@.len());
                assert(self.history.deep_view().len() == hist_mid.len() + 1);
                assert(results_entries(rs).len() == rs.len());
                assert(hist_mid.len() == hist_before.len() + i - 1);
                assert(results_entries(rs).take(i as int).len() == i);
                assert forall|j: int|
                    0 <= j < self.history.deep_view().len() implies self.history.deep_view()[j]
                    == (hist_before + results_entries(rs).take(i as int))[j] by {
                    if j < hist_mid.len() {
                        assert(self.history.deep_view()[j] == hist_mid[j]);
                    } else {
                        assert(self.history.deep_view()[j] == HistoryEntry::ToolResult(
                            r,
                        ).deep_view());
                    }
                }
                assert(self.history.deep_view() =~= hist_before + results_entries(rs).take(
                    i as int,
                ));
            }
        }
        proof {
            assert(results_entries(rs).take(i as int) =~= results_entries(rs));
        }
        self.fragments = Vec::new();
        self.rounds = self.rounds + 1;
        let stop = match self.max_rounds {
            Some(m) => self.rounds >= m,
            None => false,
        };
        proof {
            assert(calls_view(self.fragments@) =~= Seq::<ToolCallView>::empty());
        }
        if stop {
            self.phase = TurnPhase::Done;
            LoopAction::Stop
        } else {
            self.phase = TurnPhase::Sending;
            LoopAction::Send
        }
    }
}

/// A capability that exceeds its configured deadline still yields exactly one
/// ordinary tool result, whose content states the deadline was exceeded; the
/// conversation loop appends it to the history in call order like any other
/// result and proceeds to resend.
pub proof fn lemma_timeout_round_continues(
    v: ConversationLoopView,
    p: PlannedCallView,
    rs: Seq<ToolCallResultMessageView>,
    i: int,
    deadline_ms: u64,
)
    requires
        v.phase == TurnPhase::Dispatching,
        !round_limit_reached((v.rounds + 1) as u64, v.max_rounds),
        0 <= i < rs.len(),
        p.resolved,
        rs[i] == planned_result(p, ToolOutcomeView::TimedOut, deadline_ms),
    ensures
        rs[i].content == timeout_content(deadline_ms),
        after_results(v, rs).phase == TurnPhase::Sending,
        after_results(v, rs).history == v.history + results_entries(rs),
        after_results(v, rs).history[v.history.len() + i] == HistoryEntryView::ToolResult(rs[i]),
{
    assert((v.history + results_entries(rs))[v.history.len() + i] == results_entries(rs)[i]);
}

} // verus!
