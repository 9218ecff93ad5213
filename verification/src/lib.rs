//! A verified core for a streaming text-generation client.
//!
//! The library turns an unpredictably-chunked byte stream of newline-delimited
//! JSON into discrete typed events, keeps a name-keyed registry of caller
//! capabilities, plans the execution of model-requested tool calls, and drives
//! the conversation state machine that feeds tool results back into the
//! exchange. Network transport, asynchronous plumbing and JSON serialisation
//! live outside this crate; decoding of single lines is called through a small
//! trusted layer.

use vstd::prelude::*;

pub mod adapter;
pub mod chat;
pub mod convo;
pub mod decoder;
pub mod dispatch;
pub mod generate;
pub mod parser;
pub mod registry;
pub mod types;

verus! {

/// The byte value of the line feed character, the frame delimiter.
pub const LINE_FEED: u8 = 10;

/// True for the ASCII whitespace bytes that are trimmed from a frame:
/// space, tab, line feed, form feed and carriage return.
pub open spec fn is_ws_byte(b: u8) -> bool {
    b == 32 || b == 9 || b == 10 || b == 12 || b == 13
}

} // verus!
