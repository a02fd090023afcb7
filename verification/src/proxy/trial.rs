//! A prompt sent through the routes of a tag to see which of them answers.

use vstd::prelude::*;

use super::bodies;
use super::failover;
use super::forward;
use super::forward::{forward_body, is_placeholder, make_attempt, Attempt, AttemptV};
use super::routing;
use super::routing::find_candidate_routes;
use crate::config;
use crate::config::{ProviderFormat, ProviderV, Providers, Route, RouteV};
use crate::convert::parts;
use crate::convert::parts::message;
use crate::convert::responses::to_anthropic;
use crate::convert::{openai_to_anthropic_response, responses_to_anthropic_response};
use crate::json::{self, Json, JsonV};
use crate::text;
use crate::text::{concat2, concat3, cut_bytes, same};
use vstd::string::StringExecFns;

verus! {

/// How a trial went.
#[derive(Debug)]
pub struct TestResult {
    pub success: bool,
    pub tag: String,
    pub provider: String,
    pub model: String,
    pub format: String,
    pub latency_ms: u64,
    pub error: Option<String>,
    pub response: Option<Json>,
}

/// How a trial went.
#[verifier::ext_equal]
pub struct TestResultV {
    pub success: bool,
    pub tag: Seq<char>,
    pub provider: Seq<char>,
    pub model: Seq<char>,
    pub format: Seq<char>,
    pub latency_ms: u64,
    pub error: Option<Seq<char>>,
    pub response: Option<JsonV>,
}

impl View for TestResult {
    type V = TestResultV;

    open spec fn view(&self) -> TestResultV {
        TestResultV {
            success: self.success,
            tag: self.tag@,
            provider: self.provider@,
            model: self.model@,
            format: self.format@,
            latency_ms: self.latency_ms,
            error: text::opt_text(self.error),
            response: json::wire::opt_json(self.response),
        }
    }
}

impl Clone for TestResult {
    fn clone(&self) -> (r: TestResult)
        ensures
            r@ == self@,
    {
        TestResult {
            success: self.success,
            tag: self.tag.clone(),
            provider: self.provider.clone(),
            model: self.model.clone(),
            format: self.format.clone(),
            latency_ms: self.latency_ms,
            error: match &self.error {
                Some(e) => Some(e.clone()),
                None => None,
            },
            response: match &self.response {
                Some(v) => Some(v.clone()),
                None => None,
            },
        }
    }
}

/// A trial that failed before any route was tried.
pub open spec fn no_trial(tag: Seq<char>, error: Seq<char>) -> TestResultV {
    TestResultV {
        success: false,
        tag,
        provider: Seq::empty(),
        model: Seq::empty(),
        format: Seq::empty(),
        latency_ms: 0,
        error: Some(error),
        response: None,
    }
}

fn make_no_trial(tag: &str, error: String) -> (r: TestResult)
    ensures
        r@ == no_trial(tag@, error@),
{
    TestResult {
        success: false,
        tag: tag.to_owned(),
        provider: String::new(),
        model: String::new(),
        format: String::new(),
        latency_ms: 0,
        error: Some(error),
        response: None,
    }
}

/// A trial of a route that failed.
pub open spec fn failed_trial(
    tag: Seq<char>,
    provider: Seq<char>,
    model: Seq<char>,
    format: ProviderFormat,
    latency_ms: u64,
    error: Seq<char>,
) -> TestResultV {
    TestResultV {
        success: false,
        tag,
        provider,
        model,
        format: format.label(),
        latency_ms,
        error: Some(error),
        response: None,
    }
}

fn make_failed_trial(
    tag: &str,
    provider: &str,
    model: &str,
    format: ProviderFormat,
    latency_ms: u64,
    error: String,
) -> (r: TestResult)
    ensures
        r@ == failed_trial(tag@, provider@, model@, format, latency_ms, error@),
{
    TestResult {
        success: false,
        tag: tag.to_owned(),
        provider: provider.to_owned(),
        model: model.to_owned(),
        format: format.name().to_owned(),
        latency_ms,
        error: Some(error),
        response: None,
    }
}

/// What is shown of a key that is none, or a placeholder.
pub open spec fn shown_key(api_key: Seq<char>) -> Seq<char> {
    if api_key.len() == 0 {
        ""@
    } else {
        "sk-your-"@
    }
}

/// The request on a route, or how its trial failed: its provider is not known, or has no
/// key.
pub open spec fn trial_on(
    providers: Seq<(Seq<char>, ProviderV)>,
    route: RouteV,
    tag: Seq<char>,
) -> Result<AttemptV, TestResultV> {
    match config::provider_of(providers, route.provider) {
        None => Err(
            failed_trial(
                tag,
                Seq::empty(),
                route.model,
                route.format,
                0,
                "provider '"@ + route.provider + "' not found"@,
            ),
        ),
        Some(p) => if forward::has_key(p) {
            Ok(forward::attempt_with(p, route, ""@))
        } else {
            Err(
                failed_trial(
                    tag,
                    p.name,
                    route.model,
                    route.format,
                    0,
                    "provider '"@ + route.provider + "' has no valid API key (key='"@ + shown_key(
                        p.api_key,
                    ) + "...')"@,
                ),
            )
        },
    }
}

/// The view of a request or of how a trial failed.
pub open spec fn result_view(r: Result<Attempt, TestResult>) -> Result<AttemptV, TestResultV> {
    match r {
        Ok(a) => Ok(a@),
        Err(t) => Err(t@),
    }
}

fn prepare_trial(providers: &Providers, route: &Route, tag: &str) -> (r: Result<
    Attempt,
    TestResult,
>)
    ensures
        result_view(r) == trial_on(providers@, route@, tag@),
{
    match providers.get(route.provider.as_str()) {
        None => {
            let error = concat3("provider '", route.provider.as_str(), "' not found");
            let t = make_failed_trial(tag, "", route.model.as_str(), route.format, 0, error);
            proof {
                reveal_strlit("");
                assert(""@ =~= Seq::<char>::empty());
            }
            Err(t)
        },
        Some(p) => {
            if is_placeholder(p.api_key.as_str()) {
                let shown = if same(p.api_key.as_str(), "") {
                    ""
                } else {
                    "sk-your-"
                };
                proof {
                    reveal_strlit("");
                    assert(p.api_key@.len() == 0 ==> p.api_key@ =~= ""@);
                }
                let start = concat3(
                    "provider '",
                    route.provider.as_str(),
                    "' has no valid API key (key='",
                );
                let error = concat3(start.as_str(), shown, "...')");
                Err(
                    make_failed_trial(
                        tag,
                        p.name.as_str(),
                        route.model.as_str(),
                        route.format,
                        0,
                        error,
                    ),
                )
            } else {
                Ok(make_attempt(p, route, ""))
            }
        },
    }
}

/// The request that a trial sends, as an Anthropic client would.
pub open spec fn trial_request(tag: Seq<char>, prompt: Seq<char>) -> JsonV {
    json::jobj().put("model"@, JsonV::Str(tag)).put("max_tokens"@, json::jnum(64)).put(
        "messages"@,
        JsonV::Arr(seq![parts::message_v("user"@, JsonV::Str(prompt))]),
    )
}

fn make_trial_request(tag: &str, prompt: &str) -> (r: Json)
    ensures
        r@ == trial_request(tag@, prompt@),
{
    broadcast use json::group_json;

    let mut messages: Vec<Json> = Vec::new();
    messages.push(message("user", Json::str(prompt)));
    assert(json::views(messages@) =~= seq![parts::message_v("user"@, JsonV::Str(prompt@))]);
    Json::object().put("model", Json::str(tag)).put("max_tokens", Json::number(64)).put(
        "messages",
        Json::Arr(messages),
    )
}

/// The request of a trial can go on to a provider of any format.
proof fn lemma_trial_forwardable(tag: Seq<char>, prompt: Seq<char>, format: ProviderFormat, model: Seq<char>)
    ensures
        forward::forwardable("anthropic"@, format, trial_request(tag, prompt), model),
{
    reveal_strlit("model");
    reveal_strlit("max_tokens");
    reveal_strlit("messages");
    reveal_strlit("role");
    reveal_strlit("content");
    assert("model"@.len() == 5 && "max_tokens"@.len() == 10 && "messages"@.len() == 8
        && "role"@.len() == 4 && "content"@.len() == 7);
    let msg = parts::message_v("user"@, JsonV::Str(prompt));
    assert(bodies::normalizable_message(msg)) by {
        let m = msg->Obj_0;
        assert forall|k: Seq<char>| m.contains_key(k) && !bodies::set_right(
            msg,
            k,
        ) implies bodies::normalizable(#[trigger] m[k]) by {
            assert(k == "role"@ || k == "content"@);
        }
    }
    let msgs = seq![msg];
    assert(bodies::normalizable_messages(msgs)) by {
        assert forall|i: int| 0 <= i < msgs.len() implies bodies::normalizable_message(
            #[trigger] msgs[i],
        ) by {
            assert(msgs[i] == msg);
        }
    }
    let body = trial_request(tag, prompt);
    let other = forward::with_model(body, model);
    assert(body->Obj_0["messages"@] == JsonV::Arr(msgs));
    assert(other->Obj_0["messages"@] == JsonV::Arr(msgs));
    assert(bodies::normalizable(body));
    assert(bodies::normalizable(other));
}

/// Makes the body that a trial sends to a provider.
pub fn trial_body(tag: &str, prompt: &str, format: ProviderFormat, model: &str) -> (r: Json)
    ensures
        r@ == forward::forwarded_body(
            "anthropic"@,
            format,
            trial_request(tag@, prompt@),
            model@,
        ),
{
    let body = make_trial_request(tag, prompt);
    proof {
        lemma_trial_forwardable(tag@, prompt@, format, model@);
    }
    forward_body("anthropic", format, &body, model)
}

/// What a provider's answer to a trial becomes: an Anthropic response, or null where it is
/// not JSON and the provider speaks Anthropic's format.
pub open spec fn trial_response(format: ProviderFormat, body: Seq<char>, tag: Seq<char>) -> JsonV {
    let answer = match json::wire::json_of_text(body) {
        Some(v) => v,
        None => JsonV::Null,
    };
    match format {
        ProviderFormat::Openai => to_anthropic::chat_response_as_anthropic(answer, tag),
        ProviderFormat::OpenaiResponses => to_anthropic::responses_response_as_anthropic(
            answer,
            tag,
        ),
        ProviderFormat::Anthropic => answer,
    }
}

fn make_trial_response(format: ProviderFormat, body: &str, tag: &str) -> (r: Json)
    ensures
        r@ == trial_response(format, body@, tag@),
{
    let answer = match Json::parse(body) {
        Some(v) => v,
        None => Json::null(),
    };
    match format {
        ProviderFormat::Openai => openai_to_anthropic_response(&answer, tag),
        ProviderFormat::OpenaiResponses => responses_to_anthropic_response(&answer, tag),
        ProviderFormat::Anthropic => answer,
    }
}

/// A trial on its way through the routes of a tag.
#[verifier::ext_equal]
pub struct TrialV {
    pub tag: Seq<char>,
    /// The routes that were not tried yet.
    pub rest: Seq<RouteV>,
    /// How the trial of the last route went.
    pub last: Option<TestResultV>,
}

/// What a provider answered to a trial.
pub enum TrialAnswerV {
    /// There was no connection.
    NoConnection(Seq<char>),
    /// The body could not be read.
    Unread(Seq<char>),
    /// A status, its text, and the body.
    Answer(u16, Seq<char>, Seq<char>),
}

impl TrialV {
    /// How a trial went when no route is left.
    pub open spec fn end_result(self) -> TestResultV {
        match self.last {
            Some(t) => t,
            None => no_trial(self.tag, "all routes failed for tag '"@ + self.tag + "'"@),
        }
    }

    /// The trial after a route that failed.
    pub open spec fn skipped(self, t: TestResultV) -> TrialV {
        TrialV { rest: self.rest.drop_first(), last: Some(t), ..self }
    }

    /// The next request to a provider: on the first route that has one. Where no route has
    /// one, how the trial went.
    pub open spec fn next(self, providers: Seq<(Seq<char>, ProviderV)>) -> (
        TrialV,
        Result<AttemptV, TestResultV>,
    )
        decreases self.rest.len(),
    {
        if self.rest.len() == 0 {
            (self, Err(self.end_result()))
        } else {
            match trial_on(providers, self.rest[0], self.tag) {
                Ok(a) => (TrialV { rest: self.rest.drop_first(), ..self }, Ok(a)),
                Err(t) => self.skipped(t).next(providers),
            }
        }
    }

    /// How the trial of a route failed.
    pub open spec fn failure(self, a: AttemptV, latency_ms: u64, error: Seq<char>) -> TestResultV {
        failed_trial(self.tag, a.provider_name, a.model, a.format, latency_ms, error)
    }

    /// The trial after an answer, and how it went where that is the end of it: after a
    /// success, and after an answer that another route would not change.
    pub open spec fn answered(
        self,
        a: AttemptV,
        latency_ms: u64,
        answer: TrialAnswerV,
    ) -> (TrialV, Option<TestResultV>) {
        match answer {
            TrialAnswerV::NoConnection(e) => (
                TrialV {
                    last: Some(self.failure(a, latency_ms, "connection error: "@ + e)),
                    ..self
                },
                None,
            ),
            TrialAnswerV::Unread(e) => (
                TrialV {
                    last: Some(self.failure(a, latency_ms, "read response error: "@ + e)),
                    ..self
                },
                None,
            ),
            TrialAnswerV::Answer(status, status_text, body) => if failover::succeeded(status) {
                (
                    self,
                    Some(
                        TestResultV {
                            success: true,
                            tag: self.tag,
                            provider: a.provider_name,
                            model: a.model,
                            format: a.format.label(),
                            latency_ms,
                            error: None,
                            response: Some(trial_response(a.format, body, self.tag)),
                        },
                    ),
                )
            } else {
                let t = self.failure(
                    a,
                    latency_ms,
                    "HTTP "@ + status_text + ": "@ + text::byte_prefix(body, 500),
                );
                if status >= 500 {
                    (TrialV { last: Some(t), ..self }, None)
                } else {
                    (self, Some(t))
                }
            },
        }
    }
}

/// What a provider answered to a trial.
pub enum TrialAnswer {
    /// There was no connection.
    NoConnection(String),
    /// The body could not be read.
    Unread(String),
    /// A status, its text, and the body.
    Answer(u16, String, String),
}

impl View for TrialAnswer {
    type V = TrialAnswerV;

    open spec fn view(&self) -> TrialAnswerV {
        match self {
            TrialAnswer::NoConnection(e) => TrialAnswerV::NoConnection(e@),
            TrialAnswer::Unread(e) => TrialAnswerV::Unread(e@),
            TrialAnswer::Answer(s, t, b) => TrialAnswerV::Answer(*s, t@, b@),
        }
    }
}

/// Whether the start of an answer that tells no success can be shown.
pub open spec fn showable(answer: TrialAnswerV) -> bool {
    match answer {
        TrialAnswerV::Answer(status, _, body) => !failover::succeeded(status)
            ==> text::cuts_clean(body, 500),
        _ => true,
    }
}

/// The view of how a trial went, where it is at its end.
pub open spec fn opt_result(o: Option<TestResult>) -> Option<TestResultV> {
    match o {
        Some(t) => Some(t@),
        None => None,
    }
}

/// A trial on its way through the routes of a tag.
pub struct Trial {
    tag: String,
    routes: Vec<Route>,
    at: usize,
    last: Option<TestResult>,
}

impl View for Trial {
    type V = TrialV;

    closed spec fn view(&self) -> TrialV {
        TrialV {
            tag: self.tag@,
            rest: config::routes_view(self.routes@).skip(self.at as int),
            last: opt_result(self.last),
        }
    }
}

impl Trial {
    #[verifier::type_invariant]
    spec fn inv(self) -> bool {
        self.at <= self.routes@.len()
    }

    /// A trial before any route was tried, or how it went where there is no route.
    pub fn new(routes: &Vec<Route>, tag: &str) -> (r: Result<Trial, TestResult>)
        ensures
            match r {
                Ok(t) => routing::candidates(config::routes_view(routes@), tag@).len() > 0 && t@
                    == (TrialV {
                    tag: tag@,
                    rest: routing::candidates(config::routes_view(routes@), tag@),
                    last: None,
                }),
                Err(t) => routing::candidates(config::routes_view(routes@), tag@).len() == 0 && t@
                    == no_trial(tag@, "no enabled route found for tag '"@ + tag@ + "'"@),
            },
    {
        let found = find_candidate_routes(routes, tag);
        let ghost all = config::routes_view(found@);
        assert(all.len() == found@.len());
        if found.is_empty() {
            return Err(make_no_trial(tag, concat3("no enabled route found for tag '", tag, "'")));
        }
        let t = Trial { tag: tag.to_owned(), routes: found, at: 0, last: None };
        assert(all.skip(0) =~= all);
        Ok(t)
    }

    /// Makes the next request to a provider, or says how the trial went.
    pub fn next(&mut self, providers: &Providers) -> (r: Result<Attempt, TestResult>)
        ensures
            final(self)@ == old(self)@.next(providers@).0,
            result_view(r) == old(self)@.next(providers@).1,
    {
        proof {
            use_type_invariant(&*self);
        }
        let ghost start = self@;
        let ghost all = config::routes_view(self.routes@);
        while self.at < self.routes.len()
            invariant
                self.at <= self.routes@.len(),
                start == old(self)@,
                all == config::routes_view(self.routes@),
                start.next(providers@) == self@.next(providers@),
            decreases self.routes@.len() - self.at,
        {
            let ghost before = self@;
            assert(before.rest[0] == all[self.at as int]);
            assert(all.skip(self.at as int).drop_first() =~= all.skip(self.at + 1));
            let attempt = prepare_trial(providers, &self.routes[self.at], self.tag.as_str());
            self.at = self.at + 1;
            match attempt {
                Ok(a) => {
                    assert(self@ =~= TrialV { rest: before.rest.drop_first(), ..before });
                    return Ok(a);
                },
                Err(t) => {
                    self.last = Some(t);
                    assert(self@ =~= before.skipped(t@));
                },
            }
        }
        match &self.last {
            Some(t) => Err(t.clone()),
            None => Err(
                make_no_trial(
                    self.tag.as_str(),
                    concat3("all routes failed for tag '", self.tag.as_str(), "'"),
                ),
            ),
        }
    }

    fn fail(&self, a: &Attempt, latency_ms: u64, error: String) -> (r: TestResult)
        ensures
            r@ == self@.failure(a@, latency_ms, error@),
    {
        make_failed_trial(
            self.tag.as_str(),
            a.provider_name.as_str(),
            a.model.as_str(),
            a.format,
            latency_ms,
            error,
        )
    }

    /// Takes in an answer, and says how the trial went where that is the end of it.
    pub fn answered(
        &mut self,
        a: &Attempt,
        latency_ms: u64,
        answer: TrialAnswer,
    ) -> (r: Option<TestResult>)
        requires
            showable(answer@),
        ensures
            final(self)@ == old(self)@.answered(a@, latency_ms, answer@).0,
            opt_result(r) == old(self)@.answered(a@, latency_ms, answer@).1,
    {
        proof {
            use_type_invariant(&*self);
        }
        match answer {
            TrialAnswer::NoConnection(e) => {
                let t = self.fail(a, latency_ms, concat2("connection error: ", e.as_str()));
                self.last = Some(t);
                None
            },
            TrialAnswer::Unread(e) => {
                let t = self.fail(a, latency_ms, concat2("read response error: ", e.as_str()));
                self.last = Some(t);
                None
            },
            TrialAnswer::Answer(status, status_text, body) => {
                if failover::is_success(status) {
                    Some(
                        TestResult {
                            success: true,
                            tag: self.tag.clone(),
                            provider: a.provider_name.clone(),
                            model: a.model.clone(),
                            format: a.format.name().to_owned(),
                            latency_ms,
                            error: None,
                            response: Some(
                                make_trial_response(a.format, body.as_str(), self.tag.as_str()),
                            ),
                        },
                    )
                } else {
                    let mut error = concat3("HTTP ", status_text.as_str(), ": ");
                    error.append(cut_bytes(body.as_str(), 500));
                    let t = self.fail(a, latency_ms, error);
                    if status >= 500 {
                        self.last = Some(t);
                        None
                    } else {
                        Some(t)
                    }
                }
            },
        }
    }
}

/// A trial tells success exactly when a provider answered with a status of success.
pub proof fn lemma_trial_success(s: TrialV, a: AttemptV, latency_ms: u64, answer: TrialAnswerV)
    ensures
        (match s.answered(a, latency_ms, answer).1 {
            Some(t) => t.success,
            None => false,
        }) <==> (answer is Answer && failover::succeeded(answer->Answer_0)),
{
}

/// A key is never shown beyond the start that all placeholders share.
pub proof fn lemma_shown_key(p: ProviderV)
    requires
        !forward::has_key(p),
    ensures
        text::starts(p.api_key, shown_key(p.api_key)),
{
    reveal_strlit("");
    assert(p.api_key.take(0) =~= ""@);
    assert(p.api_key.subrange(0, 0) =~= ""@);
}

/// The result of a trial names the tag, and the provider, the model and the time of the route
/// that answered. It succeeded just where the status tells success, and then holds no error but
/// the answer. An error of the server, or of the connection, is held while the next route is
/// tried.
pub proof fn lemma_trial_result(s: TrialV, a: AttemptV, latency_ms: u64, answer: TrialAnswerV)
    ensures
        ({
            let r = s.answered(a, latency_ms, answer);
            let t = if r.1 is Some {
                r.1
            } else {
                r.0.last
            };
            &&& t is Some
            &&& t->0.tag == s.tag
            &&& t->0.provider == a.provider_name
            &&& t->0.model == a.model
            &&& t->0.latency_ms == latency_ms
            &&& t->0.success == t->0.error is None
            &&& t->0.success == t->0.response is Some
            &&& r.0.rest == s.rest
            &&& r.0.tag == s.tag
            &&& match answer {
                TrialAnswerV::Answer(status, _, _) => {
                    &&& t->0.success == (200 <= status < 300)
                    &&& r.1 is Some == (status < 500)
                },
                _ => !t->0.success && r.1 is None,
            }
        }),
{
}

/// The request of a trial says the prompt, for the tag.
pub proof fn lemma_trial_request(tag: Seq<char>, prompt: Seq<char>)
    ensures
        ({
            let r = trial_request(tag, prompt);
            &&& r.str_at("model"@) == Some(tag)
            &&& r.array_at("messages"@) matches Some(ms) && ms.len() == 1 && ms[0].str_at("role"@)
                == Some("user"@) && ms[0].str_at("content"@) == Some(prompt)
        }),
{
    crate::keys::lemma_request_keys();
}

} // verus!
