//! Conversions of requests.

pub mod anthropic_chat;
pub mod anthropic_kept;
pub mod anthropic_order;
pub mod anthropic_responses;
pub mod chat_anthropic;
pub mod chat_answers;
pub mod chat_kept;
pub mod chat_order;
pub mod chat_responses;
pub mod codex_anthropic;
pub mod codex_anthropic_kept;
pub mod codex_chat;
pub mod codex_answered;
pub mod codex_kept;
pub mod responses_anthropic;
pub mod responses_chat;

pub use anthropic_chat::anthropic_to_openai_request;
pub use anthropic_responses::anthropic_to_responses_request;
pub use chat_anthropic::openai_to_anthropic_request;
pub use chat_responses::openai_to_responses_request;
pub use responses_anthropic::responses_to_anthropic_request;
pub use responses_chat::responses_to_chat_request;
