//! What goes back to the client.

use vstd::prelude::*;

use super::errors::{ProxyError, ProxyErrorV};
use crate::clock::{chrono_like_id, unix_seconds};
use crate::config::ProviderFormat;
use crate::convert::laws;
use crate::convert::responses::to_chat::anthropic_to_openai_response_at;
use crate::convert::responses::to_responses::anthropic_to_responses_response_at;
use crate::convert::responses::{to_anthropic, to_chat, to_responses};
use crate::convert::{
    chat_to_responses_response, openai_to_anthropic_response, responses_to_anthropic_response,
    responses_to_openai_response,
};
use crate::json::{self, Json, JsonV};
use crate::keys;
use crate::text::{concat2, same};

verus! {

/// The body of a request: an empty object where there are no bytes, else the JSON that they
/// are.
pub open spec fn body_of_bytes(bytes: Seq<u8>) -> Result<JsonV, ProxyErrorV> {
    if bytes.len() == 0 {
        Ok(json::jobj())
    } else {
        match json::wire::json_of_bytes(bytes) {
            Ok(v) => Ok(v),
            Err(e) => Err(ProxyErrorV::Upstream("invalid JSON body: "@ + e)),
        }
    }
}

/// The view of a value or of why there is none.
pub open spec fn result_view(r: Result<Json, ProxyError>) -> Result<JsonV, ProxyErrorV> {
    match r {
        Ok(v) => Ok(v@),
        Err(e) => Err(e@),
    }
}

/// Reads the body of a request, whatever its content type.
pub fn parse_body(bytes: &[u8]) -> (r: Result<Json, ProxyError>)
    ensures
        result_view(r) == body_of_bytes(bytes@),
{
    if bytes.len() == 0 {
        return Ok(Json::object());
    }
    match Json::parse_bytes(bytes) {
        Ok(v) => Ok(v),
        Err(e) => Err(ProxyError::Upstream(concat2("invalid JSON body: ", e.as_str()))),
    }
}

/// The body of a provider's answer: the JSON that its bytes are.
pub open spec fn answer_of_bytes(bytes: Seq<u8>) -> Result<JsonV, ProxyErrorV> {
    match json::wire::json_of_bytes(bytes) {
        Ok(v) => Ok(v),
        Err(e) => Err(ProxyErrorV::Upstream("failed to parse upstream response: "@ + e)),
    }
}

/// Reads the body of a provider's answer.
pub fn parse_upstream_json(resp_body: &[u8]) -> (r: Result<Json, ProxyError>)
    ensures
        result_view(r) == answer_of_bytes(resp_body@),
{
    match Json::parse_bytes(resp_body) {
        Ok(v) => Ok(v),
        Err(e) => Err(
            ProxyError::Upstream(concat2("failed to parse upstream response: ", e.as_str())),
        ),
    }
}

/// An answer in the client's own format, with the model that the client asked for.
pub open spec fn with_request_model(answer: JsonV, model: Seq<char>) -> JsonV {
    if answer is Obj {
        answer.put("model"@, JsonV::Str(model))
    } else {
        answer
    }
}

/// What a provider's answer becomes, by the protocol of the client and the format of the
/// provider, at a time: in milliseconds for a Responses client, in seconds for a chat one.
pub open spec fn reply(
    protocol: Seq<char>,
    format: ProviderFormat,
    answer: JsonV,
    model: Seq<char>,
    now: u64,
) -> JsonV {
    if protocol == "anthropic"@ && format is Openai {
        to_anthropic::chat_response_as_anthropic(answer, model)
    } else if protocol == "anthropic"@ && format is OpenaiResponses {
        to_anthropic::responses_response_as_anthropic(answer, model)
    } else if protocol == "openai"@ && format is OpenaiResponses {
        to_chat::responses_response_as_chat(answer, model)
    } else if protocol == "openai"@ && format is Anthropic {
        to_chat::anthropic_response_as_chat(answer, model, now)
    } else if protocol == "openai_responses"@ && format is Openai {
        to_responses::chat_response_as_responses(answer, model)
    } else if protocol == "openai_responses"@ && format is Anthropic {
        to_responses::anthropic_response_as_responses(answer, model, now)
    } else {
        with_request_model(answer, model)
    }
}

/// Makes what a provider's answer becomes at a time.
pub fn convert_reply_at(
    protocol: &str,
    format: ProviderFormat,
    answer: Json,
    model: &str,
    now: u64,
) -> (r: Json)
    ensures
        r@ == reply(protocol@, format, answer@, model@, now),
{
    proof {
        reveal_strlit("anthropic");
        reveal_strlit("openai");
        reveal_strlit("openai_responses");
        assert("anthropic"@.len() == 9 && "openai"@.len() == 6 && "openai_responses"@.len() == 16);
    }
    let anthropic = same(protocol, "anthropic");
    let chat = same(protocol, "openai");
    let responses = same(protocol, "openai_responses");
    match format {
        ProviderFormat::Openai if anthropic => openai_to_anthropic_response(&answer, model),
        ProviderFormat::OpenaiResponses if anthropic => responses_to_anthropic_response(
            &answer,
            model,
        ),
        ProviderFormat::OpenaiResponses if chat => responses_to_openai_response(&answer, model),
        ProviderFormat::Anthropic if chat => anthropic_to_openai_response_at(&answer, model, now),
        ProviderFormat::Openai if responses => chat_to_responses_response(&answer, model),
        ProviderFormat::Anthropic if responses => anthropic_to_responses_response_at(
            &answer,
            model,
            now,
        ),
        _ => {
            if answer.is_object() {
                answer.put("model", Json::str(model))
            } else {
                answer
            }
        },
    }
}

/// What the bytes of a provider's answer become at a time, as text, or why they are no
/// answer.
pub open spec fn reply_text(
    protocol: Seq<char>,
    format: ProviderFormat,
    bytes: Seq<u8>,
    model: Seq<char>,
    now: u64,
) -> Result<Seq<char>, ProxyErrorV> {
    match answer_of_bytes(bytes) {
        Ok(v) => Ok(json::wire::json_text(reply(protocol, format, v, model, now))),
        Err(e) => Err(e),
    }
}

/// The view of a text or of why there is none.
pub open spec fn text_view(r: Result<String, ProxyError>) -> Result<Seq<char>, ProxyErrorV> {
    match r {
        Ok(s) => Ok(s@),
        Err(e) => Err(e@),
    }
}

/// Makes what the bytes of a provider's answer become at a time.
pub fn answer_at(
    protocol: &str,
    format: ProviderFormat,
    bytes: &[u8],
    model: &str,
    now: u64,
) -> (r: Result<String, ProxyError>)
    ensures
        text_view(r) == reply_text(protocol@, format, bytes@, model@, now),
{
    match parse_upstream_json(bytes) {
        Ok(v) => Ok(convert_reply_at(protocol, format, v, model, now).to_text()),
        Err(e) => Err(e),
    }
}

/// Makes what the bytes of a provider's answer become now.
pub fn answer(protocol: &str, format: ProviderFormat, bytes: &[u8], model: &str) -> (r: Result<
    String,
    ProxyError,
>)
    ensures
        exists|now: u64| text_view(r) == reply_text(protocol@, format, bytes@, model@, now),
{
    let now: u64 = if same(protocol, "openai") {
        unix_seconds()
    } else {
        chrono_like_id()
    };
    answer_at(protocol, format, bytes, model, now)
}

/// How the stream of a provider's answer goes back.
#[derive(Debug, Clone, Copy, PartialEq, Eq, Structural)]
pub enum StreamWay {
    ChatToAnthropic,
    ResponsesToAnthropic,
    ChatToResponses,
    AnthropicToResponses,
    ResponsesToChat,
    AnthropicToChat,
    /// As it comes, but for the model.
    Pass,
    /// As Anthropic events, with the model of the request.
    ReplaceModel,
}

/// How a stream goes back, by the protocol of the client and the format of the provider.
pub open spec fn way_of_stream(protocol: Seq<char>, format: ProviderFormat) -> StreamWay {
    if protocol == "anthropic"@ {
        match format {
            ProviderFormat::Openai => StreamWay::ChatToAnthropic,
            ProviderFormat::OpenaiResponses => StreamWay::ResponsesToAnthropic,
            ProviderFormat::Anthropic => StreamWay::Pass,
        }
    } else if protocol == "openai_responses"@ {
        match format {
            ProviderFormat::Openai => StreamWay::ChatToResponses,
            ProviderFormat::Anthropic => StreamWay::AnthropicToResponses,
            ProviderFormat::OpenaiResponses => StreamWay::Pass,
        }
    } else if protocol == "openai"@ {
        match format {
            ProviderFormat::OpenaiResponses => StreamWay::ResponsesToChat,
            ProviderFormat::Anthropic => StreamWay::AnthropicToChat,
            ProviderFormat::Openai => StreamWay::Pass,
        }
    } else {
        StreamWay::ReplaceModel
    }
}

/// Finds how a stream goes back.
pub fn stream_way(protocol: &str, format: ProviderFormat) -> (r: StreamWay)
    ensures
        r == way_of_stream(protocol@, format),
{
    if same(protocol, "anthropic") {
        match format {
            ProviderFormat::Openai => StreamWay::ChatToAnthropic,
            ProviderFormat::OpenaiResponses => StreamWay::ResponsesToAnthropic,
            ProviderFormat::Anthropic => StreamWay::Pass,
        }
    } else if same(protocol, "openai_responses") {
        match format {
            ProviderFormat::Openai => StreamWay::ChatToResponses,
            ProviderFormat::Anthropic => StreamWay::AnthropicToResponses,
            ProviderFormat::OpenaiResponses => StreamWay::Pass,
        }
    } else if same(protocol, "openai") {
        match format {
            ProviderFormat::OpenaiResponses => StreamWay::ResponsesToChat,
            ProviderFormat::Anthropic => StreamWay::AnthropicToChat,
            ProviderFormat::Openai => StreamWay::Pass,
        }
    } else {
        StreamWay::ReplaceModel
    }
}

/// The model that a client sees is always the one that it asked for: an answer that is an
/// object goes back with that model, whatever model the provider named.
pub proof fn lemma_reply_names_request_model(
    protocol: Seq<char>,
    format: ProviderFormat,
    answer: JsonV,
    model: Seq<char>,
    now: u64,
)
    requires
        answer is Obj,
    ensures
        reply(protocol, format, answer, model, now).str_at("model"@) == Some(model),
{
    laws::lemma_response_names_request_model(answer, model, now);
}

/// An answer goes back in the format of the client, whatever format the provider speaks.
pub proof fn lemma_reply_format(
    protocol: Seq<char>,
    format: ProviderFormat,
    answer: JsonV,
    model: Seq<char>,
    now: u64,
)
    ensures
        ({
            let r = reply(protocol, format, answer, model, now);
            &&& protocol == "anthropic"@ && !(format is Anthropic) ==> r.str_at("type"@) == Some(
                "message"@,
            ) && r.array_at("content"@) is Some
            &&& protocol == "openai"@ && !(format is Openai) ==> r.str_at("object"@) == Some(
                "chat.completion"@,
            ) && r.array_at("choices"@) is Some
            &&& protocol == "openai_responses"@ && !(format is OpenaiResponses) ==> r.str_at(
                "object"@,
            ) == Some("response"@) && r.array_at("output"@) is Some
        }),
{
    keys::lemma_answer_keys();
    keys::lemma_protocols();
}

/// An answer of a provider that speaks the format of the client goes back as it is, but for its
/// model.
pub proof fn lemma_reply_passed(
    protocol: Seq<char>,
    format: ProviderFormat,
    answer: JsonV,
    model: Seq<char>,
    now: u64,
)
    requires
        protocol == "anthropic"@ && format is Anthropic || protocol == "openai"@
            && format is Openai || protocol == "openai_responses"@ && format is OpenaiResponses,
    ensures
        forall|k: Seq<char>|
            k != "model"@ ==> #[trigger] reply(protocol, format, answer, model, now).get(k)
                == answer.get(k),
        !(answer is Obj) ==> reply(protocol, format, answer, model, now) == answer,
{
    keys::lemma_protocols();
}

/// The format that a way of a stream reads, where it reads one.
pub open spec fn read_by(way: StreamWay) -> Option<ProviderFormat> {
    match way {
        StreamWay::ChatToAnthropic => Some(ProviderFormat::Openai),
        StreamWay::ChatToResponses => Some(ProviderFormat::Openai),
        StreamWay::ResponsesToAnthropic => Some(ProviderFormat::OpenaiResponses),
        StreamWay::ResponsesToChat => Some(ProviderFormat::OpenaiResponses),
        StreamWay::AnthropicToResponses => Some(ProviderFormat::Anthropic),
        StreamWay::AnthropicToChat => Some(ProviderFormat::Anthropic),
        StreamWay::Pass => None,
        StreamWay::ReplaceModel => None,
    }
}

/// The format that a way of a stream writes, where it writes one.
pub open spec fn written_by(way: StreamWay) -> Option<ProviderFormat> {
    match way {
        StreamWay::ChatToAnthropic => Some(ProviderFormat::Anthropic),
        StreamWay::ResponsesToAnthropic => Some(ProviderFormat::Anthropic),
        StreamWay::ChatToResponses => Some(ProviderFormat::OpenaiResponses),
        StreamWay::AnthropicToResponses => Some(ProviderFormat::OpenaiResponses),
        StreamWay::ResponsesToChat => Some(ProviderFormat::Openai),
        StreamWay::AnthropicToChat => Some(ProviderFormat::Openai),
        StreamWay::Pass => None,
        StreamWay::ReplaceModel => None,
    }
}

/// The format of a client.
pub open spec fn format_of_client(protocol: Seq<char>) -> Option<ProviderFormat> {
    if protocol == "anthropic"@ {
        Some(ProviderFormat::Anthropic)
    } else if protocol == "openai"@ {
        Some(ProviderFormat::Openai)
    } else if protocol == "openai_responses"@ {
        Some(ProviderFormat::OpenaiResponses)
    } else {
        None
    }
}

/// A stream is read in the format of the provider and written in that of the client; where they
/// are the same it passes.
pub proof fn lemma_stream_way(protocol: Seq<char>, format: ProviderFormat)
    requires
        format_of_client(protocol) is Some,
    ensures
        ({
            let way = way_of_stream(protocol, format);
            &&& format_of_client(protocol) == Some(format) ==> way is Pass
            &&& format_of_client(protocol) != Some(format) ==> read_by(way) == Some(format)
                && written_by(way) == format_of_client(protocol)
        }),
{
    keys::lemma_protocols();
}

} // verus!
