//! Conversions between the formats of Anthropic Messages, OpenAI Chat Completions and
//! OpenAI Responses.

pub mod laws;
pub mod parts;
pub mod readings;
pub mod requests;
pub mod responses;
pub mod round_trips;
pub mod streaming;
pub mod think;

pub use requests::{
    anthropic_to_openai_request, anthropic_to_responses_request, openai_to_anthropic_request,
    openai_to_responses_request, responses_to_anthropic_request, responses_to_chat_request,
};
pub use responses::{
    anthropic_to_openai_response, anthropic_to_responses_response, chat_to_responses_response,
    openai_to_anthropic_response, responses_to_anthropic_response, responses_to_openai_response,
};
