//! The event parser: classifies one decoded line as a typed payload, a server
//! error envelope, or unclassifiable content.
//!
//! The order is fixed: the strict structural decode of the expected payload is
//! tried first; on failure the minimal `{"error": ...}` envelope; on double
//! failure the line degrades to an observable `Partial` event carrying its raw
//! text. A malformed or diagnostic line therefore never aborts the stream.
//!
//! The structural decodes themselves are the work of an outside JSON parser,
//! called through trusted wrappers whose results are named spec functions;
//! everything around them — the role check, the fallback order, the event
//! construction — is verified.

use vstd::prelude::*;

use crate::chat::calls_view;
use crate::chat::ChatResponse;
use crate::chat::ChatResponseMessage;
use crate::chat::ChatResponseMessageView;
use crate::chat::ChatResponseView;
use crate::chat::ChatStreamEvent;
use crate::chat::ChatStreamEventView;
use crate::chat::ToolCall;
use crate::chat::ToolCallView;
use crate::chat::FunctionInvocation;
use crate::generate::GenerateResponse;
use crate::generate::GenerateResponseView;
use crate::generate::GenerateStreamEvent;
use crate::generate::GenerateStreamEventView;
use crate::types::Role;

verus! {

/// True string equality, decided through owned copies.
pub fn str_eq(a: &str, b: &str) -> (r: bool)
    ensures
        r == (a@ == b@),
{
    let x = a.to_owned();
    let y = b.to_owned();
    x == y
}

/// The scalar fields of a chat payload, before the role is checked and the
/// tool calls are decoded. The role is carried as raw text.
struct ChatHead {
    model: String,
    created_at: String,
    role: String,
    content: String,
    thinking: String,
    done: bool,
}

/// The mathematical value of a `ChatHead`.
pub struct ChatHeadView {
    pub model: Seq<char>,
    pub created_at: Seq<char>,
    pub role: Seq<char>,
    pub content: Seq<char>,
    pub thinking: Seq<char>,
    pub done: bool,
}

impl View for ChatHead {
    type V = ChatHeadView;

    closed spec fn view(&self) -> ChatHeadView {
        ChatHeadView {
            model: self.model@,
            created_at: self.created_at@,
            role: self.role@,
            content: self.content@,
            thinking: self.thinking@,
            done: self.done,
        }
    }
}

/// What the strict structural decode of a chat payload's scalar fields yields
/// on a given line: its shape requires a JSON object with a string `model`, an
/// object `message` with string `role` and `content`, and a boolean `done`;
/// `created_at` and `message.thinking` default to empty text where absent or
/// not a string.
pub uninterp spec fn chat_head_of(line: Seq<char>) -> Option<ChatHeadView>;

/// Relies on `serde_json::from_str::<Value>` and the `Value` accessors `get`,
/// `as_str` and `as_bool`: the result is a function of the line's text alone.
#[verifier::external_body]
fn decode_chat_head(line: &str) -> (r: Option<ChatHead>)
    ensures
        r is Some <==> chat_head_of(line@) is Some,
        r matches Some(h) ==> chat_head_of(line@) == Some(h@),
{
    let v: serde_json::Value = serde_json::from_str(line).ok()?;
    let msg = v.get("message")?;
    Some(ChatHead {
        model: v.get("model")?.as_str()?.to_string(),
        created_at: v.get("created_at").and_then(|x| x.as_str()).unwrap_or("").to_string(),
        role: msg.get("role")?.as_str()?.to_string(),
        content: msg.get("content")?.as_str()?.to_string(),
        thinking: msg.get("thinking").and_then(|x| x.as_str()).unwrap_or("").to_string(),
        done: v.get("done")?.as_bool()?,
    })
}

/// What the decode of a chat payload's tool-call array yields on a given
/// line: an absent `message.tool_calls` is an empty sequence; a present one
/// must be an array, whose elements come back as their own JSON texts.
pub uninterp spec fn tool_call_texts_of(line: Seq<char>) -> Option<Seq<Seq<char>>>;

/// Relies on `serde_json::from_str::<Value>`, the `Value` accessors `get` and
/// `as_array`, and the `Display` rendering of `Value`: the result is a
/// function of the line's text alone.
#[verifier::external_body]
fn decode_tool_call_texts(line: &str) -> (r: Option<Vec<String>>)
    ensures
        r is Some <==> tool_call_texts_of(line@) is Some,
        r matches Some(ts) ==> tool_call_texts_of(line@) == Some(ts.deep_view()),
{
    let v: serde_json::Value = serde_json::from_str(line).ok()?;
    let msg = v.get("message")?;
    match msg.get("tool_calls") {
        None => Some(Vec::new()),
        Some(a) => Some(a.as_array()?.iter().map(|e| e.to_string()).collect()),
    }
}

/// What the strict structural decode of one tool call yields on its JSON
/// text: an object with a string `id` and a `function` object holding a
/// string `name`, any JSON `arguments` (carried as its text), and an optional
/// integer `index`.
pub uninterp spec fn tool_call_of(obj: Seq<char>) -> Option<ToolCallView>;

/// Relies on `serde_json::from_str::<Value>` and the `Value` accessors `get`,
/// `as_str` and `as_u64`, and the `Display` rendering of `Value`: the result
/// is a function of the object's text alone.
#[verifier::external_body]
fn decode_tool_call(obj: &str) -> (r: Option<ToolCall>)
    ensures
        r is Some <==> tool_call_of(obj@) is Some,
        r matches Some(c) ==> tool_call_of(obj@) == Some(c@),
{
    let e: serde_json::Value = serde_json::from_str(obj).ok()?;
    let f = e.get("function")?;
    Some(ToolCall {
        id: e.get("id")?.as_str()?.to_string(),
        function: FunctionInvocation {
            index: match f.get("index") {
                None => None,
                Some(x) => Some(x.as_u64()? as usize),
            },
            name: f.get("name")?.as_str()?.to_string(),
            arguments: f.get("arguments")?.to_string(),
        },
    })
}

/// What the strict structural decode of a chat payload's tool calls yields on
/// a given line: every element of the array must decode, or the whole payload
/// is rejected.
pub open spec fn tool_calls_of(line: Seq<char>) -> Option<Seq<ToolCallView>> {
    match tool_call_texts_of(line) {
        Some(texts) => if forall|i: int| 0 <= i < texts.len() ==> tool_call_of(#[trigger] texts[i]) is Some {
            Some(Seq::new(texts.len(), |i: int| tool_call_of(texts[i])->Some_0))
        } else {
            None
        },
        None => None,
    }
}

/// Decode the tool calls of one line, strictly: every element of a present
/// `message.tool_calls` array must be well-shaped.
fn decode_tool_calls(line: &str) -> (r: Option<Vec<ToolCall>>)
    ensures
        r is Some <==> tool_calls_of(line@) is Some,
        r matches Some(tcs) ==> tool_calls_of(line@) == Some(calls_view(tcs@)),
{
    let texts = match decode_tool_call_texts(line) {
        Some(t) => t,
        None => return None,
    };
    let ghost tv = texts.deep_view();
    let mut out: Vec<ToolCall> = Vec::new();
    let mut i: usize = 0;
    proof {
        assert(tv.len() == texts@.len());
    }
    while i < texts.len()
        invariant
            i <= texts@.len(),
            tv == texts.deep_view(),
            tv.len() == texts@.len(),
            tool_call_texts_of(line@) == Some(tv),
            out@.len() == i,
            forall|k: int|
                0 <= k < i ==> tool_call_of(#[trigger] tv[k]) == Some(out@[k]@),
        decreases texts@.len() - i,
    {
        proof {
            assert(tv[i as int] == texts@[i as int]@);
        }
        match decode_tool_call(texts[i].as_str()) {
            Some(c) => {
                out.push(c);
            },
            None => {
                proof {
                    assert(tool_call_of(tv[i as int]) is None);
                    assert(!(forall|k: int|
                        0 <= k < tv.len() ==> tool_call_of(#[trigger] tv[k]) is Some)) by {
                        assert(0 <= i < tv.len() && !(tool_call_of(tv[i as int]) is Some));
                    }
                    assert(tool_calls_of(line@) is None);
                }
                return None;
            },
        }
        i = i + 1;
    }
    proof {
        assert forall|k: int| 0 <= k < tv.len() implies tool_call_of(#[trigger] tv[k]) is Some by {
            assert(tool_call_of(tv[k]) == Some(out@[k]@));
        }
        assert(calls_view(out@) =~= Seq::new(tv.len(), |k: int| tool_call_of(tv[k])->Some_0));
    }
    Some(out)
}

/// What the decode of the minimal server error envelope yields on a given
/// line: the string under the key `error` of a JSON object, if there is one.
pub uninterp spec fn error_text_of(line: Seq<char>) -> Option<Seq<char>>;

/// Relies on `serde_json::from_str::<Value>` and the `Value` accessors `get`
/// and `as_str`: the result is a function of the line's text alone.
#[verifier::external_body]
fn decode_error_line(line: &str) -> (r: Option<String>)
    ensures
        r.deep_view() == error_text_of(line@),
{
    match serde_json::from_str::<serde_json::Value>(line) {
        Ok(v) => v.get("error").and_then(|e| e.as_str()).map(|s| s.to_string()),
        Err(_) => None,
    }
}

/// The scalar text fields of a generation payload, before the counters.
struct GenerateHead {
    model: String,
    created_at: String,
    response: String,
    thinking: String,
    done: bool,
    done_reason: Option<String>,
}

/// The mathematical value of a `GenerateHead`.
pub struct GenerateHeadView {
    pub model: Seq<char>,
    pub created_at: Seq<char>,
    pub response: Seq<char>,
    pub thinking: Seq<char>,
    pub done: bool,
    pub done_reason: Option<Seq<char>>,
}

impl View for GenerateHead {
    type V = GenerateHeadView;

    closed spec fn view(&self) -> GenerateHeadView {
        GenerateHeadView {
            model: self.model@,
            created_at: self.created_at@,
            response: self.response@,
            thinking: self.thinking@,
            done: self.done,
            done_reason: self.done_reason.deep_view(),
        }
    }
}

/// The duration and count fields of a generation payload.
struct GenerateStats {
    total_duration: u64,
    load_duration: u64,
    prompt_eval_count: u64,
    prompt_eval_duration: u64,
    eval_count: u64,
    eval_duration: u64,
}

/// The mathematical value of a `GenerateStats`.
pub struct GenerateStatsView {
    pub total_duration: u64,
    pub load_duration: u64,
    pub prompt_eval_count: u64,
    pub prompt_eval_duration: u64,
    pub eval_count: u64,
    pub eval_duration: u64,
}

impl View for GenerateStats {
    type V = GenerateStatsView;

    closed spec fn view(&self) -> GenerateStatsView {
        GenerateStatsView {
            total_duration: self.total_duration,
            load_duration: self.load_duration,
            prompt_eval_count: self.prompt_eval_count,
            prompt_eval_duration: self.prompt_eval_duration,
            eval_count: self.eval_count,
            eval_duration: self.eval_duration,
        }
    }
}

/// What the strict structural decode of a generation payload's scalar fields
/// yields on a given line: its shape requires a JSON object with string
/// `model`, `created_at` and `response` and a boolean `done`; `thinking`
/// defaults to empty text and `done_reason` to nothing, each where absent or
/// not a string.
pub uninterp spec fn generate_head_of(line: Seq<char>) -> Option<GenerateHeadView>;

/// Relies on `serde_json::from_str::<Value>` and the `Value` accessors `get`,
/// `as_str` and `as_bool`: the result is a function of the line's text alone.
#[verifier::external_body]
fn decode_generate_head(line: &str) -> (r: Option<GenerateHead>)
    ensures
        r is Some <==> generate_head_of(line@) is Some,
        r matches Some(h) ==> generate_head_of(line@) == Some(h@),
{
    let v: serde_json::Value = serde_json::from_str(line).ok()?;
    Some(GenerateHead {
        model: v.get("model")?.as_str()?.to_string(),
        created_at: v.get("created_at")?.as_str()?.to_string(),
        response: v.get("response")?.as_str()?.to_string(),
        thinking: v.get("thinking").and_then(|x| x.as_str()).unwrap_or("").to_string(),
        done: v.get("done")?.as_bool()?,
        done_reason: v.get("done_reason").and_then(|x| x.as_str()).map(|s| s.to_string()),
    })
}

/// What the decode of a generation payload's duration and count fields yields
/// on a given line that is a JSON value: each field defaults to zero where it
/// is absent or not an unsigned integer.
pub uninterp spec fn generate_stats_of(line: Seq<char>) -> Option<GenerateStatsView>;

/// Relies on `serde_json::from_str::<Value>` and the `Value` accessors `get`
/// and `as_u64`: the result is a function of the line's text alone.
#[verifier::external_body]
fn decode_generate_stats(line: &str) -> (r: Option<GenerateStats>)
    ensures
        r is Some <==> generate_stats_of(line@) is Some,
        r matches Some(s) ==> generate_stats_of(line@) == Some(s@),
{
    let v: serde_json::Value = serde_json::from_str(line).ok()?;
    let d = |k: &str| v.get(k).and_then(|x| x.as_u64()).unwrap_or(0);
    Some(GenerateStats {
        total_duration: d("total_duration"),
        load_duration: d("load_duration"),
        prompt_eval_count: d("prompt_eval_count"),
        prompt_eval_duration: d("prompt_eval_duration"),
        eval_count: d("eval_count"),
        eval_duration: d("eval_duration"),
    })
}

/// What the full strict decode of a generation payload yields on a given
/// line: the scalar fields and the counters — all of them, or nothing.
pub open spec fn generate_payload_of(line: Seq<char>) -> Option<GenerateResponseView> {
    match (generate_head_of(line), generate_stats_of(line)) {
        (Some(h), Some(s)) => Some(
            GenerateResponseView {
                model: h.model,
                created_at: h.created_at,
                response: h.response,
                thinking: h.thinking,
                done: h.done,
                done_reason: h.done_reason,
                total_duration: s.total_duration,
                load_duration: s.load_duration,
                prompt_eval_count: s.prompt_eval_count,
                prompt_eval_duration: s.prompt_eval_duration,
                eval_count: s.eval_count,
                eval_duration: s.eval_duration,
            },
        ),
        _ => None,
    }
}

/// Decode one line as a generation payload, strictly.
fn decode_generate_line(line: &str) -> (r: Option<GenerateResponse>)
    ensures
        r is Some <==> generate_payload_of(line@) is Some,
        r matches Some(g) ==> generate_payload_of(line@) == Some(g@),
{
    let head = match decode_generate_head(line) {
        Some(h) => h,
        None => return None,
    };
    let stats = match decode_generate_stats(line) {
        Some(s) => s,
        None => return None,
    };
    Some(
        GenerateResponse {
            model: head.model,
            created_at: head.created_at,
            response: head.response,
            thinking: head.thinking,
            done: head.done,
            done_reason: head.done_reason,
            total_duration: stats.total_duration,
            load_duration: stats.load_duration,
            prompt_eval_count: stats.prompt_eval_count,
            prompt_eval_duration: stats.prompt_eval_duration,
            eval_count: stats.eval_count,
            eval_duration: stats.eval_duration,
        },
    )
}

/// The role named by a message's raw role text, if it is one of the four the
/// protocol knows.
pub open spec fn role_of(s: Seq<char>) -> Option<Role> {
    if s == "system"@ {
        Some(Role::System)
    } else if s == "user"@ {
        Some(Role::User)
    } else if s == "assistant"@ {
        Some(Role::Assistant)
    } else if s == "tool"@ {
        Some(Role::Tool)
    } else {
        None
    }
}

/// Decide [`role_of`].
pub fn parse_role(s: &str) -> (r: Option<Role>)
    ensures
        r == role_of(s@),
{
    if str_eq(s, "system") {
        Some(Role::System)
    } else if str_eq(s, "user") {
        Some(Role::User)
    } else if str_eq(s, "assistant") {
        Some(Role::Assistant)
    } else if str_eq(s, "tool") {
        Some(Role::Tool)
    } else {
        None
    }
}

/// What the full strict decode of a chat payload yields on a given line: the
/// scalar fields, a recognised role, and well-shaped tool calls — all of
/// them, or nothing.
pub open spec fn chat_response_of(line: Seq<char>) -> Option<ChatResponseView> {
    match chat_head_of(line) {
        Some(h) => match role_of(h.role) {
            Some(role) => match tool_calls_of(line) {
                Some(tcs) => Some(
                    ChatResponseView {
                        model: h.model,
                        created_at: h.created_at,
                        message: ChatResponseMessageView {
                            role,
                            content: h.content,
                            thinking: h.thinking,
                            tool_calls: tcs,
                        },
                        done: h.done,
                    },
                ),
                None => None,
            },
            None => None,
        },
        None => None,
    }
}

/// Decode one line as a chat payload, strictly: every shape requirement of
/// [`chat_response_of`] must hold, or nothing is returned.
pub fn decode_chat_response(line: &str) -> (r: Option<ChatResponse>)
    ensures
        r is Some <==> chat_response_of(line@) is Some,
        r matches Some(c) ==> chat_response_of(line@) == Some(c@),
{
    let head = match decode_chat_head(line) {
        Some(h) => h,
        None => return None,
    };
    let role = match parse_role(head.role.as_str()) {
        Some(r) => r,
        None => return None,
    };
    let tool_calls = match decode_tool_calls(line) {
        Some(t) => t,
        None => return None,
    };
    Some(
        ChatResponse {
            model: head.model,
            created_at: head.created_at,
            message: ChatResponseMessage { role, content: head.content, thinking: head.thinking, tool_calls },
            done: head.done,
        },
    )
}

/// The diagnostic attached to a line that matched neither the expected
/// payload shape nor the error envelope.
pub open spec fn decode_failure_note() -> Seq<char> {
    "line matched neither the expected payload shape nor the error envelope"@
}

/// The executable text of [`decode_failure_note`].
pub fn decode_failure_note_text() -> (s: String)
    ensures
        s@ == decode_failure_note(),
{
    let s = "line matched neither the expected payload shape nor the error envelope";
    s.to_owned()
}

/// Endpoint-specific event families are built from a successfully decoded
/// message, an error string, or a partial payload. The three spec functions
/// say which variant a built event is; each constructor promises exactly the
/// variant it is named after.
pub trait StreamEventExt<M>: Sized {
    spec fn is_message_of(&self, m: &M) -> bool;

    spec fn is_error_of(&self, e: Seq<char>) -> bool;

    spec fn is_partial_of(&self, partial: Seq<char>, error: Option<Seq<char>>) -> bool;

    /// Create an event from a successfully decoded message.
    fn from_message(msg: M) -> (r: Self)
        ensures
            r.is_message_of(&msg),
    ;

    /// Create an event from a server error string.
    fn from_error(err: String) -> (r: Self)
        ensures
            r.is_error_of(err@),
    ;

    /// Create a partial event, with an optional diagnostic.
    fn partial(partial: String, error: Option<String>) -> (r: Self)
        ensures
            r.is_partial_of(partial@, error.deep_view()),
    ;
}

impl StreamEventExt<ChatResponse> for ChatStreamEvent {
    open spec fn is_message_of(&self, m: &ChatResponse) -> bool {
        match self {
            ChatStreamEvent::Message(c) => c@ == m@,
            _ => false,
        }
    }

    open spec fn is_error_of(&self, e: Seq<char>) -> bool {
        match self {
            ChatStreamEvent::Error(s) => s@ == e,
            _ => false,
        }
    }

    open spec fn is_partial_of(&self, partial: Seq<char>, error: Option<Seq<char>>) -> bool {
        match self {
            ChatStreamEvent::Partial { partial: p, error: d } => p@ == partial && d.deep_view()
                == error,
            _ => false,
        }
    }

    fn from_message(msg: ChatResponse) -> (r: Self)
        ensures
            r.is_message_of(&msg),
    {
        ChatStreamEvent::Message(msg)
    }

    fn from_error(err: String) -> (r: Self)
        ensures
            r.is_error_of(err@),
    {
        ChatStreamEvent::Error(err)
    }

    fn partial(partial: String, error: Option<String>) -> (r: Self)
        ensures
            r.is_partial_of(partial@, error.deep_view()),
    {
        ChatStreamEvent::Partial { partial, error }
    }
}

impl StreamEventExt<GenerateResponse> for GenerateStreamEvent {
    open spec fn is_message_of(&self, m: &GenerateResponse) -> bool {
        match self {
            GenerateStreamEvent::MessageChunk(c) => c@ == m@,
            _ => false,
        }
    }

    open spec fn is_error_of(&self, e: Seq<char>) -> bool {
        match self {
            GenerateStreamEvent::Error(s) => s@ == e,
            _ => false,
        }
    }

    open spec fn is_partial_of(&self, partial: Seq<char>, error: Option<Seq<char>>) -> bool {
        match self {
            GenerateStreamEvent::Partial { partial: p, error: d } => p@ == partial && d.deep_view()
                == error,
            _ => false,
        }
    }

    fn from_message(msg: GenerateResponse) -> (r: Self)
        ensures
            r.is_message_of(&msg),
    {
        GenerateStreamEvent::MessageChunk(msg)
    }

    fn from_error(err: String) -> (r: Self)
        ensures
            r.is_error_of(err@),
    {
        GenerateStreamEvent::Error(err)
    }

    fn partial(partial: String, error: Option<String>) -> (r: Self)
        ensures
            r.is_partial_of(partial@, error.deep_view()),
    {
        GenerateStreamEvent::Partial { partial, error }
    }
}

/// The fallback chain on one line, over already-attempted decodes: a decoded
/// payload yields the message event; otherwise a matched error envelope
/// yields the error event; otherwise the line degrades to a partial event
/// carrying its raw text and the decode-failure diagnostic.
pub fn classify_from_decoded<M, E: StreamEventExt<M>>(
    line: &str,
    decoded: Option<M>,
    envelope: Option<String>,
) -> (ev: E)
    ensures
        decoded matches Some(m) ==> ev.is_message_of(&m),
        decoded is None ==> (envelope matches Some(e) ==> ev.is_error_of(e@)),
        decoded is None && envelope is None ==> ev.is_partial_of(
            line@,
            Some(decode_failure_note()),
        ),
{
    match decoded {
        Some(m) => E::from_message(m),
        None => match envelope {
            Some(e) => E::from_error(e),
            None => E::partial(line.to_owned(), Some(decode_failure_note_text())),
        },
    }
}

/// The event a chat stream yields for one line.
pub open spec fn classify_chat(line: Seq<char>) -> ChatStreamEventView {
    match chat_response_of(line) {
        Some(p) => ChatStreamEventView::Message(p),
        None => match error_text_of(line) {
            Some(e) => ChatStreamEventView::Error(e),
            None => ChatStreamEventView::Partial {
                partial: line,
                error: Some(decode_failure_note()),
            },
        },
    }
}

/// Classify one line of a chat stream: the fallback chain of
/// [`classify_chat`], which never rejects a line.
pub fn classify_chat_line(line: &str) -> (ev: ChatStreamEvent)
    ensures
        ev@ == classify_chat(line@),
{
    let decoded = decode_chat_response(line);
    let envelope = decode_error_line(line);
    let ev: ChatStreamEvent = classify_from_decoded(line, decoded, envelope);
    ev
}

/// The event a generation stream yields for one line.
pub open spec fn classify_generate(line: Seq<char>) -> GenerateStreamEventView {
    match generate_payload_of(line) {
        Some(p) => GenerateStreamEventView::MessageChunk(p),
        None => match error_text_of(line) {
            Some(e) => GenerateStreamEventView::Error(e),
            None => GenerateStreamEventView::Partial {
                partial: line,
                error: Some(decode_failure_note()),
            },
        },
    }
}

/// Classify one line of a generation stream: the fallback chain of
/// [`classify_generate`], which never rejects a line.
pub fn classify_generate_line(line: &str) -> (ev: GenerateStreamEvent)
    ensures
        ev@ == classify_generate(line@),
{
    let decoded = decode_generate_line(line);
    let envelope = decode_error_line(line);
    let ev: GenerateStreamEvent = classify_from_decoded(line, decoded, envelope);
    ev
}

/// A line that fails the payload decode but matches the error envelope is
/// classified as an error event, never as a partial.
pub proof fn lemma_envelope_wins_over_partial(line: Seq<char>)
    requires
        chat_response_of(line) is None,
        error_text_of(line) matches Some(e),
    ensures
        classify_chat(line) == ChatStreamEventView::Error(error_text_of(line)->Some_0),
{
}

/// A line that fails both decodes is classified as a partial event that
/// preserves the line's text verbatim.
pub proof fn lemma_double_failure_preserves_line(line: Seq<char>)
    requires
        chat_response_of(line) is None,
        error_text_of(line) is None,
    ensures
        classify_chat(line) == (ChatStreamEventView::Partial {
            partial: line,
            error: Some(decode_failure_note()),
        }),
{
}

/// The same fallback order holds on the generation endpoint: an envelope
/// match after a failed payload decode is an error event, never a partial.
pub proof fn lemma_generate_envelope_wins_over_partial(line: Seq<char>)
    requires
        generate_payload_of(line) is None,
        error_text_of(line) matches Some(e),
    ensures
        classify_generate(line) == GenerateStreamEventView::Error(error_text_of(line)->Some_0),
{
}

/// A line failing both generation decodes degrades to a partial event that
/// preserves the line's text verbatim.
pub proof fn lemma_generate_double_failure_preserves_line(line: Seq<char>)
    requires
        generate_payload_of(line) is None,
        error_text_of(line) is None,
    ensures
        classify_generate(line) == (GenerateStreamEventView::Partial {
            partial: line,
            error: Some(decode_failure_note()),
        }),
{
}

} // verus!
