//! Data types of the chat endpoint's streaming responses.
//!
//! Tool-call arguments arrive as arbitrary JSON; the library carries them as
//! their raw JSON text and hands that text through to the capability, so every
//! field here is a plain value that contracts can speak about.

use vstd::prelude::*;

use crate::types::Role;

verus! {

/// The details of one function invocation requested by the model. The name
/// may be empty, pending a later fragment of the same call.
#[derive(Clone, Debug)]
pub struct FunctionInvocation {
    pub index: Option<usize>,
    pub name: String,
    pub arguments: String,
}

/// One tool call requested by the model inside an assistant message.
/// Its identity is `id`.
#[derive(Clone, Debug)]
pub struct ToolCall {
    pub id: String,
    pub function: FunctionInvocation,
}

/// The mathematical value of a [`ToolCall`].
pub struct ToolCallView {
    pub id: Seq<char>,
    pub index: Option<usize>,
    pub name: Seq<char>,
    pub arguments: Seq<char>,
}

impl View for ToolCall {
    type V = ToolCallView;

    open spec fn view(&self) -> ToolCallView {
        ToolCallView {
            id: self.id@,
            index: self.function.index,
            name: self.function.name@,
            arguments: self.function.arguments@,
        }
    }
}

/// The value of a sequence of tool calls.
pub open spec fn calls_view(s: Seq<ToolCall>) -> Seq<ToolCallView> {
    s.map_values(|t: ToolCall| t@)
}

/// The message inside one chat response frame.
#[derive(Clone, Debug)]
pub struct ChatResponseMessage {
    pub role: Role,
    pub content: String,
    pub thinking: String,
    pub tool_calls: Vec<ToolCall>,
}

/// The mathematical value of a [`ChatResponseMessage`].
pub struct ChatResponseMessageView {
    pub role: Role,
    pub content: Seq<char>,
    pub thinking: Seq<char>,
    pub tool_calls: Seq<ToolCallView>,
}

impl View for ChatResponseMessage {
    type V = ChatResponseMessageView;

    open spec fn view(&self) -> ChatResponseMessageView {
        ChatResponseMessageView {
            role: self.role,
            content: self.content@,
            thinking: self.thinking@,
            tool_calls: calls_view(self.tool_calls@),
        }
    }
}

/// One decoded chat response frame.
#[derive(Clone, Debug)]
pub struct ChatResponse {
    pub model: String,
    pub created_at: String,
    pub message: ChatResponseMessage,
    pub done: bool,
}

/// The mathematical value of a [`ChatResponse`].
pub struct ChatResponseView {
    pub model: Seq<char>,
    pub created_at: Seq<char>,
    pub message: ChatResponseMessageView,
    pub done: bool,
}

impl View for ChatResponse {
    type V = ChatResponseView;

    open spec fn view(&self) -> ChatResponseView {
        ChatResponseView {
            model: self.model@,
            created_at: self.created_at@,
            message: self.message@,
            done: self.done,
        }
    }
}

/// One event of a streaming chat response: a decoded message, a server error
/// envelope, or an unclassifiable line surfaced as a partial.
#[derive(Debug)]
pub enum ChatStreamEvent {
    Message(ChatResponse),
    Error(String),
    Partial { partial: String, error: Option<String> },
}

/// The mathematical value of a [`ChatStreamEvent`].
pub enum ChatStreamEventView {
    Message(ChatResponseView),
    Error(Seq<char>),
    Partial { partial: Seq<char>, error: Option<Seq<char>> },
}

impl View for ChatStreamEvent {
    type V = ChatStreamEventView;

    open spec fn view(&self) -> ChatStreamEventView {
        match self {
            ChatStreamEvent::Message(c) => ChatStreamEventView::Message(c@),
            ChatStreamEvent::Error(e) => ChatStreamEventView::Error(e@),
            ChatStreamEvent::Partial { partial, error } => ChatStreamEventView::Partial {
                partial: partial@,
                error: error.deep_view(),
            },
        }
    }
}

} // verus!
