//! Shared wire-level data types: message roles, thinking configuration, the
//! server error envelope, and the model listings returned by the server.
//!
//! Every type here holds plain values only, so that contracts can speak about
//! it directly.

use vstd::prelude::*;

verus! {

/// The role attached to a conversation message.
#[derive(Clone, Copy, PartialEq, Eq, Structural, Debug)]
pub enum Role {
    System,
    User,
    Assistant,
    Tool,
}

impl Default for Role {
    fn default() -> (r: Self)
        ensures
            r == Role::User,
    {
        Role::User
    }
}

/// The level of "thinking" requested from a model.
#[derive(Clone, Copy, PartialEq, Eq, Structural, Debug)]
pub enum ThinkingLevel {
    High,
    Medium,
    Low,
}

/// Configuration of a model's "thinking" process: either switched on or off,
/// or set to a named level.
#[derive(Clone, Copy, PartialEq, Eq, Structural, Debug)]
pub enum Thinking {
    Boolean(bool),
    Level(ThinkingLevel),
}

impl Default for Thinking {
    fn default() -> (r: Self)
        ensures
            r == Thinking::Boolean(false),
    {
        Thinking::Boolean(false)
    }
}

/// The HTTP verb of a request descriptor handed to a transport.
#[derive(Clone, Copy, PartialEq, Eq, Structural, Debug)]
pub enum HttpVerb {
    GET,
    POST,
    PUT,
    DELETE,
}

impl Default for HttpVerb {
    fn default() -> (r: Self)
        ensures
            r == HttpVerb::GET,
    {
        HttpVerb::GET
    }
}

/// The error envelope a server sends inside an otherwise healthy stream:
/// a JSON object carrying an `error` string.
#[derive(Clone, Debug)]
pub struct OllamaError {
    pub error: String,
}

impl View for OllamaError {
    type V = Seq<char>;

    open spec fn view(&self) -> Seq<char> {
        self.error@
    }
}

/// A single conversation message: who speaks, and what is said.
#[derive(Clone, Debug)]
pub struct Message {
    pub role: Role,
    pub content: String,
}

/// The mathematical value of a [`Message`].
pub struct MessageView {
    pub role: Role,
    pub content: Seq<char>,
}

impl View for Message {
    type V = MessageView;

    open spec fn view(&self) -> MessageView {
        MessageView { role: self.role, content: self.content@ }
    }
}

impl Message {
    pub fn new(role: Role, content: String) -> (r: Self)
        ensures
            r@ == (MessageView { role, content: content@ }),
    {
        Message { role, content }
    }
}

/// The message appended to the conversation history for one executed tool
/// call: the tool's name, the textual result, and the originating call id.
#[derive(Clone, Debug)]
pub struct ToolCallResultMessage {
    pub role: Role,
    pub name: String,
    pub content: String,
    pub tool_call_id: String,
}

/// The mathematical value of a [`ToolCallResultMessage`].
pub struct ToolCallResultMessageView {
    pub role: Role,
    pub name: Seq<char>,
    pub content: Seq<char>,
    pub tool_call_id: Seq<char>,
}

impl View for ToolCallResultMessage {
    type V = ToolCallResultMessageView;

    open spec fn view(&self) -> ToolCallResultMessageView {
        ToolCallResultMessageView {
            role: self.role,
            name: self.name@,
            content: self.content@,
            tool_call_id: self.tool_call_id@,
        }
    }
}

impl ToolCallResultMessage {
    /// A tool result always speaks with the `Tool` role.
    pub fn new(name: String, content: String, tool_call_id: String) -> (r: Self)
        ensures
            r@ == (ToolCallResultMessageView {
                role: Role::Tool,
                name: name@,
                content: content@,
                tool_call_id: tool_call_id@,
            }),
    {
        ToolCallResultMessage { role: Role::Tool, name, content, tool_call_id }
    }
}

/// Details of one model available on the server.
#[derive(Clone, Debug)]
pub struct OllamaModelDetails {
    pub format: String,
    pub family: String,
    pub families: Vec<String>,
    pub parameter_size: String,
    pub quantization_level: String,
}

/// One model available on the server.
#[derive(Clone, Debug)]
pub struct OllamaModel {
    pub name: String,
    pub modified_at: String,
    pub size: u64,
    pub digest: String,
    pub details: OllamaModelDetails,
}

/// The response to a request listing all available models.
#[derive(Clone, Debug)]
pub struct ListModelsResponse {
    pub models: Vec<OllamaModel>,
}

/// Details of one model currently loaded on the server.
#[derive(Clone, Debug)]
pub struct OllamaRunningModelDetails {
    pub parent_model: String,
    pub format: String,
    pub family: String,
    pub families: Vec<String>,
    pub parameter_size: String,
    pub quantization_level: String,
}

/// One model currently loaded on the server.
#[derive(Clone, Debug)]
pub struct OllamaRunningModel {
    pub model: String,
    pub size: u64,
    pub digest: String,
    pub details: OllamaRunningModelDetails,
    pub expires_at: String,
    pub size_vram: u64,
    pub context_length: u32,
}

/// The response to a request listing the models currently loaded.
#[derive(Clone, Debug)]
pub struct ListRunningModelsResponse {
    pub models: Vec<OllamaRunningModel>,
}

} // verus!
