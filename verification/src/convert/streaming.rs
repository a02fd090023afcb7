//! Conversions of streams of server-sent events.

pub mod anthropic_events;
pub mod chat_to_anthropic;
pub mod responses_to_anthropic;
pub mod anthropic_to_chat;
pub mod anthropic_told;
pub mod blocks;
pub mod chat_chunks;
pub mod numbers;
pub mod pieces;
pub mod responses_to_chat;
pub mod response_events;
pub mod chat_to_responses;
pub mod chat_whole;
pub mod anthropic_to_responses;
pub mod response_whole;
pub mod sse;
pub mod whole;
