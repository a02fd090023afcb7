//! What goes on to a provider.

use vstd::prelude::*;

use super::bodies;
use super::bodies::{is_normalizable, normalize_roles, strip_thinking};
use super::errors::{ProxyError, ProxyErrorV};
use super::routing;
use super::routing::request_tag;
use crate::config;
use crate::config::{ProviderFormat, ProviderV, Providers, Route, RouteV};
use crate::convert::laws;
use crate::convert::requests::{
    anthropic_chat, anthropic_responses, chat_anthropic, chat_responses, responses_anthropic,
    responses_chat,
};
use crate::convert::{
    anthropic_to_openai_request, anthropic_to_responses_request, openai_to_anthropic_request,
    openai_to_responses_request, responses_to_anthropic_request, responses_to_chat_request,
};
use crate::json::{Json, JsonV};
use crate::keys;
use crate::text;
use crate::text::{concat2, concat3, same, starts_with, trim_slash_end};

verus! {

/// What is read of a request before it goes on.
#[verifier::ext_equal]
pub struct IncomingV {
    pub model: Seq<char>,
    pub streaming: bool,
    pub tag: Seq<char>,
}

/// What is read of a request before it goes on.
pub struct Incoming {
    pub model: String,
    pub streaming: bool,
    pub tag: String,
}

impl View for Incoming {
    type V = IncomingV;

    open spec fn view(&self) -> IncomingV {
        IncomingV { model: self.model@, streaming: self.streaming, tag: self.tag@ }
    }
}

/// Whether a request asks for a stream.
pub open spec fn asks_stream(body: JsonV) -> bool {
    match body.get("stream"@) {
        Some(v) => v == JsonV::Bool(true),
        None => false,
    }
}

/// What is read of a request.
pub open spec fn incoming(body: JsonV, current_tag: Seq<char>) -> IncomingV {
    let model = body.str_or("model"@, ""@);
    IncomingV {
        model,
        streaming: asks_stream(body),
        tag: routing::tag_of_request(model, current_tag),
    }
}

/// Reads what is needed of a request.
pub fn read_request(body: &Json, current_tag: &str) -> (r: Incoming)
    ensures
        r@ == incoming(body@, current_tag@),
{
    let model = body.str_or("model", "");
    let streaming = match body.get("stream") {
        Some(v) => match v.as_bool() {
            Some(b) => b,
            None => false,
        },
        None => false,
    };
    Incoming {
        model: model.to_owned(),
        streaming,
        tag: request_tag(model, current_tag),
    }
}

/// A body with the provider's model.
pub open spec fn with_model(body: JsonV, model: Seq<char>) -> JsonV {
    body.put("model"@, JsonV::Str(model))
}

/// Whether a body takes a model: it is an object, or null.
pub open spec fn takes_model(body: JsonV) -> bool {
    body is Obj || body is Null
}

/// The body that goes on, by the protocol of the client and the format of the provider.
pub open spec fn forwarded_body(
    protocol: Seq<char>,
    format: ProviderFormat,
    body: JsonV,
    model: Seq<char>,
) -> JsonV {
    if protocol == "anthropic"@ {
        match format {
            ProviderFormat::Anthropic => bodies::normalized(with_model(body, model)),
            ProviderFormat::Openai => anthropic_chat::anthropic_as_chat(
                bodies::normalized(body),
                model,
            ),
            ProviderFormat::OpenaiResponses => anthropic_responses::anthropic_as_responses(
                bodies::without_thinking(bodies::normalized(body)),
                model,
            ),
        }
    } else if protocol == "openai"@ {
        match format {
            ProviderFormat::Openai => with_model(body, model),
            ProviderFormat::OpenaiResponses => chat_responses::chat_as_responses(body, model),
            ProviderFormat::Anthropic => chat_anthropic::chat_as_anthropic(body, model),
        }
    } else if protocol == "openai_responses"@ {
        match format {
            ProviderFormat::OpenaiResponses => with_model(body, model),
            ProviderFormat::Openai => responses_chat::responses_as_chat(body, model),
            ProviderFormat::Anthropic => responses_anthropic::responses_as_anthropic(body, model),
        }
    } else {
        bodies::without_thinking(bodies::normalized(with_model(body, model)))
    }
}

/// Whether a body can go on: it takes a model where it goes on in the client's own format,
/// and its messages can be fixed where they have to be.
pub open spec fn forwardable(
    protocol: Seq<char>,
    format: ProviderFormat,
    body: JsonV,
    model: Seq<char>,
) -> bool {
    if protocol == "anthropic"@ {
        match format {
            ProviderFormat::Anthropic => takes_model(body) && bodies::normalizable(
                with_model(body, model),
            ),
            _ => bodies::normalizable(body),
        }
    } else if protocol == "openai"@ {
        format is Openai ==> takes_model(body)
    } else if protocol == "openai_responses"@ {
        format is OpenaiResponses ==> takes_model(body)
    } else {
        takes_model(body) && bodies::normalizable(with_model(body, model))
    }
}

fn set_model(body: &Json, model: &str) -> (r: Json)
    ensures
        r@ == with_model(body@, model@),
{
    body.clone().put("model", Json::str(model))
}

fn can_take_model(body: &Json) -> (r: bool)
    ensures
        r == takes_model(body@),
{
    body.is_object() || body.is_null()
}

/// Whether a body can go on.
pub fn is_forwardable(protocol: &str, format: ProviderFormat, body: &Json, model: &str) -> (r: bool)
    ensures
        r == forwardable(protocol@, format, body@, model@),
{
    if same(protocol, "anthropic") {
        match format {
            ProviderFormat::Anthropic => can_take_model(body) && is_normalizable(
                &set_model(body, model),
            ),
            _ => is_normalizable(body),
        }
    } else if same(protocol, "openai") {
        match format {
            ProviderFormat::Openai => can_take_model(body),
            _ => true,
        }
    } else if same(protocol, "openai_responses") {
        match format {
            ProviderFormat::OpenaiResponses => can_take_model(body),
            _ => true,
        }
    } else {
        can_take_model(body) && is_normalizable(&set_model(body, model))
    }
}

/// Makes the body that goes on from an Anthropic client.
fn forward_anthropic_body(format: ProviderFormat, body: &Json, model: &str) -> (r: Json)
    requires
        forwardable("anthropic"@, format, body@, model@),
    ensures
        r@ == forwarded_body("anthropic"@, format, body@, model@),
{
    match format {
        ProviderFormat::Anthropic => {
            let mut b = set_model(body, model);
            normalize_roles(&mut b);
            b
        },
        ProviderFormat::Openai => {
            let mut b = body.clone();
            normalize_roles(&mut b);
            proof {
                bodies::lemma_normalized_settable(body@);
            }
            anthropic_to_openai_request(&b, model)
        },
        ProviderFormat::OpenaiResponses => {
            let mut b = body.clone();
            normalize_roles(&mut b);
            strip_thinking(&mut b);
            anthropic_to_responses_request(&b, model)
        },
    }
}

/// Makes the body that goes on.
pub fn forward_body(protocol: &str, format: ProviderFormat, body: &Json, model: &str) -> (r: Json)
    requires
        forwardable(protocol@, format, body@, model@),
    ensures
        r@ == forwarded_body(protocol@, format, body@, model@),
{
    proof {
        reveal_strlit("anthropic");
        reveal_strlit("openai");
        reveal_strlit("openai_responses");
        assert("anthropic"@.len() == 9 && "openai"@.len() == 6 && "openai_responses"@.len() == 16);
    }
    if same(protocol, "anthropic") {
        forward_anthropic_body(format, body, model)
    } else if same(protocol, "openai") {
        match format {
            ProviderFormat::Openai => set_model(body, model),
            ProviderFormat::OpenaiResponses => openai_to_responses_request(body, model),
            ProviderFormat::Anthropic => openai_to_anthropic_request(body, model),
        }
    } else if same(protocol, "openai_responses") {
        match format {
            ProviderFormat::OpenaiResponses => set_model(body, model),
            ProviderFormat::Openai => responses_to_chat_request(body, model),
            ProviderFormat::Anthropic => responses_to_anthropic_request(body, model),
        }
    } else {
        let mut b = set_model(body, model);
        normalize_roles(&mut b);
        strip_thinking(&mut b);
        b
    }
}

/// Why tokens are not counted for a protocol.
pub open spec fn not_counted(protocol: Seq<char>, format: ProviderFormat) -> ProxyErrorV {
    ProxyErrorV::Upstream(
        "count_tokens not supported for protocol "@ + protocol + " with format "@ + format.label(),
    )
}

/// Makes the body that goes on to have its tokens counted, which only an Anthropic client
/// can ask for.
pub fn count_tokens_body(
    protocol: &str,
    format: ProviderFormat,
    body: &Json,
    model: &str,
) -> (r: Result<Json, ProxyError>)
    requires
        protocol@ == "anthropic"@ ==> forwardable(protocol@, format, body@, model@),
    ensures
        match r {
            Ok(b) => protocol@ == "anthropic"@ && b@ == forwarded_body(
                protocol@,
                format,
                body@,
                model@,
            ),
            Err(e) => protocol@ != "anthropic"@ && e@ == not_counted(protocol@, format),
        },
{
    if same(protocol, "anthropic") {
        Ok(forward_anthropic_body(format, body, model))
    } else {
        let start = concat2("count_tokens not supported for protocol ", protocol);
        Err(ProxyError::Upstream(concat3(start.as_str(), " with format ", format.name())))
    }
}

/// A request to a provider, but for its body and the headers of the client.
pub struct Attempt {
    pub url: String,
    pub auth_name: String,
    pub auth_value: String,
    pub provider_name: String,
    pub model: String,
    pub format: ProviderFormat,
}

/// A request to a provider, but for its body and the headers of the client.
#[verifier::ext_equal]
pub struct AttemptV {
    pub url: Seq<char>,
    pub auth_name: Seq<char>,
    pub auth_value: Seq<char>,
    pub provider_name: Seq<char>,
    pub model: Seq<char>,
    pub format: ProviderFormat,
}

impl View for Attempt {
    type V = AttemptV;

    open spec fn view(&self) -> AttemptV {
        AttemptV {
            url: self.url@,
            auth_name: self.auth_name@,
            auth_value: self.auth_value@,
            provider_name: self.provider_name@,
            model: self.model@,
            format: self.format,
        }
    }
}

impl Clone for Attempt {
    fn clone(&self) -> (r: Attempt)
        ensures
            r@ == self@,
    {
        Attempt {
            url: self.url.clone(),
            auth_name: self.auth_name.clone(),
            auth_value: self.auth_value.clone(),
            provider_name: self.provider_name.clone(),
            model: self.model.clone(),
            format: self.format,
        }
    }
}

/// Whether a provider has a key that is not a placeholder.
pub open spec fn has_key(p: ProviderV) -> bool {
    p.api_key.len() > 0 && !text::starts(p.api_key, "sk-your-"@)
}

/// Whether a key is none, or a placeholder.
pub fn is_placeholder(api_key: &str) -> (r: bool)
    ensures
        r == (api_key@.len() == 0 || text::starts(api_key@, "sk-your-"@)),
{
    proof {
        reveal_strlit("");
        assert(api_key@.len() == 0 ==> api_key@ =~= ""@);
    }
    same(api_key, "") || starts_with(api_key, "sk-your-")
}

/// The request on a route to a provider with a key; the URL gets an ending.
pub open spec fn attempt_with(p: ProviderV, route: RouteV, ending: Seq<char>) -> AttemptV {
    AttemptV {
        url: text::without_slash_end(p.base_url) + route.endpoint + ending,
        auth_name: p.auth_type.name(),
        auth_value: p.auth_type.value(p.api_key),
        provider_name: p.name,
        model: route.model,
        format: route.format,
    }
}

/// Makes the request on a route to a provider.
pub(crate) fn make_attempt(
    p: &config::Provider,
    route: &Route,
    ending: &str,
) -> (r: Attempt)
    ensures
        r@ == attempt_with(p@, route@, ending@),
{
    Attempt {
        url: concat3(trim_slash_end(p.base_url.as_str()), route.endpoint.as_str(), ending),
        auth_name: p.auth_type.header_name().to_owned(),
        auth_value: p.auth_type.header_value(p.api_key.as_str()),
        provider_name: p.name.clone(),
        model: route.model.clone(),
        format: route.format,
    }
}

/// The request on a route, or why there can be none: its provider is not known, or has no
/// key.
pub open spec fn attempt_on(
    providers: Seq<(Seq<char>, ProviderV)>,
    route: RouteV,
    ending: Seq<char>,
) -> Result<AttemptV, ProxyErrorV> {
    match config::provider_of(providers, route.provider) {
        None => Err(ProxyErrorV::NoProvider(route.provider)),
        Some(p) => if has_key(p) {
            Ok(attempt_with(p, route, ending))
        } else {
            Err(
                ProxyErrorV::NoProvider(
                    "provider '"@ + route.provider + "' has no valid API key configured"@,
                ),
            )
        },
    }
}

/// The view of a request or of why there can be none.
pub open spec fn result_view(r: Result<Attempt, ProxyError>) -> Result<AttemptV, ProxyErrorV> {
    match r {
        Ok(a) => Ok(a@),
        Err(e) => Err(e@),
    }
}

/// Makes the request on a route, or says why there can be none.
pub fn prepare(providers: &Providers, route: &Route, ending: &str) -> (r: Result<
    Attempt,
    ProxyError,
>)
    ensures
        result_view(r) == attempt_on(providers@, route@, ending@),
{
    match providers.get(route.provider.as_str()) {
        None => Err(ProxyError::NoProvider(route.provider.clone())),
        Some(p) => {
            if is_placeholder(p.api_key.as_str()) {
                Err(
                    ProxyError::NoProvider(
                        concat3(
                            "provider '",
                            route.provider.as_str(),
                            "' has no valid API key configured",
                        ),
                    ),
                )
            } else {
                Ok(make_attempt(p, route, ending))
            }
        },
    }
}

/// How many seconds a provider has to answer.
pub fn timeout_seconds(streaming: bool) -> (r: u64)
    ensures
        r == if streaming {
            3600u64
        } else {
            300u64
        },
{
    if streaming {
        3600
    } else {
        300
    }
}

/// Fixing messages leaves the model.
proof fn lemma_normalized_model(v: JsonV, model: Seq<char>)
    requires
        v.str_at("model"@) == Some(model),
    ensures
        bodies::normalized(v).str_at("model"@) == Some(model),
{
    reveal_strlit("model");
    reveal_strlit("messages");
    assert("model"@.len() == 5 && "messages"@.len() == 8);
    reveal_with_fuel(bodies::normalized, 2);
}

/// Taking thinking out leaves the model.
proof fn lemma_stripped_model(v: JsonV, model: Seq<char>)
    requires
        v.str_at("model"@) == Some(model),
    ensures
        bodies::without_thinking(v).str_at("model"@) == Some(model),
{
    reveal_with_fuel(bodies::stripped, 2);
}

/// A body that goes on names the model of the route, whatever model the client named.
pub proof fn lemma_forwarded_model(
    protocol: Seq<char>,
    format: ProviderFormat,
    body: JsonV,
    model: Seq<char>,
)
    requires
        forwardable(protocol, format, body, model),
    ensures
        forwarded_body(protocol, format, body, model).str_at("model"@) == Some(model),
{
    laws::lemma_request_names_target(body, model);
    laws::lemma_request_names_target(bodies::normalized(body), model);
    laws::lemma_request_names_target(bodies::without_thinking(bodies::normalized(body)), model);
    if takes_model(body) {
        let b = with_model(body, model);
        assert(b.str_at("model"@) == Some(model));
        lemma_normalized_model(b, model);
        lemma_stripped_model(bodies::normalized(b), model);
    }
}

/// Between an OpenAI client and a provider of the same format nothing but the model of a
/// body changes.
pub proof fn lemma_passed_body(
    protocol: Seq<char>,
    format: ProviderFormat,
    body: JsonV,
    model: Seq<char>,
)
    requires
        (protocol == "openai"@ && format is Openai) || (protocol == "openai_responses"@
            && format is OpenaiResponses),
    ensures
        forall|k: Seq<char>|
            k != "model"@ ==> #[trigger] forwarded_body(protocol, format, body, model).get(k)
                == body.get(k),
{
    reveal_strlit("anthropic");
    reveal_strlit("openai");
    reveal_strlit("openai_responses");
    assert("anthropic"@.len() == 9 && "openai"@.len() == 6 && "openai_responses"@.len() == 16);
}

/// A route whose provider is known and has a key is tried at the address of the provider and
/// the endpoint of the route, with the key under the header of its kind, for the model and in
/// the format of the route.
pub proof fn lemma_attempt(
    providers: Seq<(Seq<char>, ProviderV)>,
    route: RouteV,
    ending: Seq<char>,
    p: ProviderV,
)
    requires
        config::provider_of(providers, route.provider) == Some(p),
        p.api_key.len() > 0,
        !"sk-your-"@.is_prefix_of(p.api_key),
    ensures
        ({
            let a = attempt_on(providers, route, ending);
            &&& a is Ok
            &&& a->Ok_0.model == route.model
            &&& a->Ok_0.format == route.format
            &&& a->Ok_0.provider_name == p.name
            &&& (p.base_url.len() == 0 || p.base_url.last() != '/') ==> a->Ok_0.url == p.base_url
                + route.endpoint + ending
            &&& p.auth_type is Bearer ==> a->Ok_0.auth_name == "authorization"@
                && a->Ok_0.auth_value == "Bearer "@ + p.api_key
            &&& p.auth_type is XApiKey ==> a->Ok_0.auth_name == "x-api-key"@ && a->Ok_0.auth_value
                == p.api_key
            &&& p.auth_type is XGoogApiKey ==> a->Ok_0.auth_name == "x-goog-api-key"@
                && a->Ok_0.auth_value == p.api_key
        }),
{
    if text::starts(p.api_key, "sk-your-"@) {
        assert("sk-your-"@ =~= p.api_key.take("sk-your-"@.len() as int));
        assert("sk-your-"@.is_prefix_of(p.api_key));
    }
}

/// A route is not tried where its provider is unknown, has no key, or has only the key that
/// stands for one.
pub proof fn lemma_no_attempt(
    providers: Seq<(Seq<char>, ProviderV)>,
    route: RouteV,
    ending: Seq<char>,
)
    ensures
        ({
            let p = config::provider_of(providers, route.provider);
            let a = attempt_on(providers, route, ending);
            &&& p is None ==> a == Err::<AttemptV, ProxyErrorV>(
                ProxyErrorV::NoProvider(route.provider),
            )
            &&& p is Some && (p->0.api_key.len() == 0 || "sk-your-"@.is_prefix_of(p->0.api_key))
                ==> a is Err && a->Err_0 is NoProvider
        }),
{
    match config::provider_of(providers, route.provider) {
        Some(p) => {
            if "sk-your-"@.is_prefix_of(p.api_key) {
                assert(p.api_key.take("sk-your-"@.len() as int) =~= "sk-your-"@);
            }
        },
        None => {},
    }
}

/// What goes to a provider is a request of its format, whatever the client speaks: messages for
/// Anthropic and for chat, input items for Responses.
pub proof fn lemma_forwarded_format(
    protocol: Seq<char>,
    format: ProviderFormat,
    body: JsonV,
    model: Seq<char>,
)
    requires
        protocol == "anthropic"@ && !(format is Anthropic) || protocol == "openai"@ && !(
        format is Openai) || protocol == "openai_responses"@ && !(format is OpenaiResponses),
    ensures
        ({
            let out = forwarded_body(protocol, format, body, model);
            &&& format is OpenaiResponses ==> out.array_at("input"@) is Some && out.get(
                "messages"@,
            ) is None
            &&& !(format is OpenaiResponses) ==> out.array_at("messages"@) is Some && out.get(
                "input"@,
            ) is None
        }),
{
    keys::lemma_request_keys();
    keys::lemma_protocols();
    crate::convert::requests::codex_kept::lemma_no_input(body, model);
}

/// Slashes at the end of the address of a provider do not count.
pub proof fn lemma_attempt_slashes(
    providers: Seq<(Seq<char>, ProviderV)>,
    route: RouteV,
    ending: Seq<char>,
    p: ProviderV,
    base: Seq<char>,
    slashes: Seq<char>,
)
    requires
        config::provider_of(providers, route.provider) == Some(p),
        p.api_key.len() > 0,
        !"sk-your-"@.is_prefix_of(p.api_key),
        p.base_url == base + slashes,
        base.len() == 0 || base.last() != '/',
        forall|i: int| 0 <= i < slashes.len() ==> #[trigger] slashes[i] == '/',
    ensures
        attempt_on(providers, route, ending) is Ok,
        attempt_on(providers, route, ending)->Ok_0.url == base + route.endpoint + ending,
{
    lemma_attempt(providers, route, ending, p);
    text::lemma_slash_end(base, slashes);
}

} // verus!
