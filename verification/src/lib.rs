//! A terminal chat agent that talks to an LLM gateway.

pub mod agent;
pub mod cost;
pub mod cost_laws;
pub mod entries;
pub mod event_laws;
pub mod history;
pub mod json;
pub mod json_laws;
pub mod llm;
pub mod replay_laws;
pub mod reply_laws;
pub mod request_laws;
pub mod sse;
pub mod sse_laws;
pub mod stream;
pub mod stream_laws;
pub mod terminal_laws;
pub mod text;
pub mod text_laws;
pub mod tools;
pub mod tui;
pub mod turn;
pub mod turn_laws;
pub mod view_laws;
