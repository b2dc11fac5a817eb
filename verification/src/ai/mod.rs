//! The AI conversation layer shared by the ops agent: message types, the
//! streamed-completion accumulator, request shaping and session helpers.

pub mod client;
pub mod session;
pub mod stream;
pub mod types;

pub use types::{plain_message, truncate, ChatCompletion, ChatMessage, ToolCallDelta};
