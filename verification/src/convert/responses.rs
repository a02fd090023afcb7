//! Conversions of responses.

pub mod kept;
pub mod to_anthropic;
pub mod to_chat;
pub mod to_responses;

pub use to_anthropic::{openai_to_anthropic_response, responses_to_anthropic_response};
pub use to_chat::{anthropic_to_openai_response, responses_to_openai_response};
pub use to_responses::{anthropic_to_responses_response, chat_to_responses_response};
