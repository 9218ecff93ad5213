//! Data types of the text-generation endpoint's streaming responses.

use vstd::prelude::*;

verus! {

/// One decoded generation response frame.
#[derive(Clone, Debug)]
pub struct GenerateResponse {
    pub model: String,
    pub created_at: String,
    pub response: String,
    pub thinking: String,
    pub done: bool,
    pub done_reason: Option<String>,
    pub total_duration: u64,
    pub load_duration: u64,
    pub prompt_eval_count: u64,
    pub prompt_eval_duration: u64,
    pub eval_count: u64,
    pub eval_duration: u64,
}

/// The mathematical value of a [`GenerateResponse`].
pub struct GenerateResponseView {
    pub model: Seq<char>,
    pub created_at: Seq<char>,
    pub response: Seq<char>,
    pub thinking: Seq<char>,
    pub done: bool,
    pub done_reason: Option<Seq<char>>,
    pub total_duration: u64,
    pub load_duration: u64,
    pub prompt_eval_count: u64,
    pub prompt_eval_duration: u64,
    pub eval_count: u64,
    pub eval_duration: u64,
}

impl View for GenerateResponse {
    type V = GenerateResponseView;

    open spec fn view(&self) -> GenerateResponseView {
        GenerateResponseView {
            model: self.model@,
            created_at: self.created_at@,
            response: self.response@,
            thinking: self.thinking@,
            done: self.done,
            done_reason: self.done_reason.deep_view(),
            total_duration: self.total_duration,
            load_duration: self.load_duration,
            prompt_eval_count: self.prompt_eval_count,
            prompt_eval_duration: self.prompt_eval_duration,
            eval_count: self.eval_count,
            eval_duration: self.eval_duration,
        }
    }
}

/// One event of a streaming generation response: a decoded chunk, a server
/// error envelope, or an unclassifiable line surfaced as a partial.
#[derive(Debug)]
pub enum GenerateStreamEvent {
    MessageChunk(GenerateResponse),
    Error(String),
    Partial { partial: String, error: Option<String> },
}

/// The mathematical value of a [`GenerateStreamEvent`].
pub enum GenerateStreamEventView {
    MessageChunk(GenerateResponseView),
    Error(Seq<char>),
    Partial { partial: Seq<char>, error: Option<Seq<char>> },
}

impl View for GenerateStreamEvent {
    type V = GenerateStreamEventView;

    open spec fn view(&self) -> GenerateStreamEventView {
        match self {
            GenerateStreamEvent::MessageChunk(c) => GenerateStreamEventView::MessageChunk(c@),
            GenerateStreamEvent::Error(e) => GenerateStreamEventView::Error(e@),
            GenerateStreamEvent::Partial { partial, error } => GenerateStreamEventView::Partial {
                partial: partial@,
                error: error.deep_view(),
            },
        }
    }
}

} // verus!
