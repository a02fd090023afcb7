//! The way of one request, from its arrival to its answer: after each thing that happened,
//! what is to be done next.

use vstd::prelude::*;

use super::errors::{ProxyError, ProxyErrorV};
use super::failover;
use super::failover::{is_success, After, AfterV, Failover, FailoverV};
use super::forward;
use super::forward::{
    count_tokens_body, forward_body, is_forwardable, read_request, timeout_seconds, Attempt,
    AttemptV, Incoming, IncomingV,
};
use super::replies;
use super::replies::{answer_at, stream_way, StreamWay};
use crate::clock::{chrono_like_id, unix_seconds};
use crate::config::{AppConfig, ConfigV, ProviderFormat, ProviderV, Providers, RequestLog};
use crate::json::{Json, JsonV};
use crate::text;
use crate::text::same;

verus! {

/// What is to be done next.
pub enum StepV {
    /// Send the request to this provider, and tell what came of it.
    Try(AttemptV),
    /// Read the text of an answer that tells no success.
    ReadRefusal,
    /// Read the bytes of the answer.
    ReadBody,
    /// Send the answer back as a stream.
    Stream(StreamWay),
    /// Answer with a status and a JSON text.
    Reply(u16, Seq<char>),
    /// Answer with a status and what the provider sent.
    ReplyBytes(u16, Seq<u8>),
    /// Answer with an error.
    Fail(ProxyErrorV),
}

/// One request on its way.
#[verifier::ext_equal]
pub struct SessionV {
    pub protocol: Seq<char>,
    pub body: JsonV,
    pub incoming: IncomingV,
    /// Whether its tokens are to be counted, and no more.
    pub counting: bool,
    pub failover: FailoverV,
    /// The request to a provider that was sent last.
    pub current: Option<AttemptV>,
    /// The status of the answer to it.
    pub status: u16,
}

/// What the URLs of a request end with.
pub open spec fn ending(counting: bool) -> Seq<char> {
    if counting {
        "/count_tokens"@
    } else {
        ""@
    }
}

impl SessionV {
    /// A request that arrived.
    pub open spec fn begin(
        protocol: Seq<char>,
        body: JsonV,
        counting: bool,
        config: ConfigV,
    ) -> SessionV {
        let incoming = forward::incoming(body, config.current_tag);
        SessionV {
            protocol,
            body,
            incoming,
            counting,
            failover: FailoverV::begin(config.routes, incoming.tag),
            current: None,
            status: 0,
        }
    }

    /// The next route is tried.
    pub open spec fn try_next(self, providers: Seq<(Seq<char>, ProviderV)>) -> (SessionV, StepV) {
        let n = self.failover.next(providers, ending(self.counting));
        match n.1 {
            Ok(a) => (SessionV { failover: n.0, current: Some(a), ..self }, StepV::Try(a)),
            Err(e) => (SessionV { failover: n.0, ..self }, StepV::Fail(e)),
        }
    }

    /// After an error of the connection: the next route where another may help.
    pub open spec fn lost(
        self,
        providers: Seq<(Seq<char>, ProviderV)>,
        message: Seq<char>,
    ) -> (SessionV, StepV) {
        let a = self.failover.after_error(message);
        let s = SessionV { failover: a.0, ..self };
        match a.1 {
            AfterV::TryNext => s.try_next(providers),
            AfterV::Stop(e) => (s, StepV::Fail(e)),
        }
    }

    /// After the status of an answer. Where tokens are counted, every answer is passed on.
    pub open spec fn answered(self, status: u16) -> (SessionV, StepV) {
        let s = SessionV { status, ..self };
        if self.counting {
            (s, StepV::ReadBody)
        } else if !failover::succeeded(status) {
            (s, StepV::ReadRefusal)
        } else if self.incoming.streaming {
            (s, StepV::Stream(replies::way_of_stream(self.protocol, self.format())))
        } else {
            (s, StepV::ReadBody)
        }
    }

    /// After the text of an answer that tells no success: the next route after an error of
    /// the server, else the answer goes back.
    pub open spec fn refused(
        self,
        providers: Seq<(Seq<char>, ProviderV)>,
        body: Seq<char>,
    ) -> (SessionV, StepV) {
        if self.status >= 500 {
            SessionV {
                failover: self.failover.after_server_error(self.status, body),
                ..self
            }.try_next(providers)
        } else {
            (self, StepV::Reply(self.status, body))
        }
    }

    /// After the bytes of an answer, at a time.
    pub open spec fn read(self, bytes: Seq<u8>, now: u64) -> StepV {
        if self.counting {
            StepV::ReplyBytes(self.status, bytes)
        } else {
            match replies::reply_text(
                self.protocol,
                self.format(),
                bytes,
                self.incoming.model,
                now,
            ) {
                Ok(t) => StepV::Reply(self.status, t),
                Err(e) => StepV::Fail(e),
            }
        }
    }

    /// The format of the provider that the request was sent to.
    pub open spec fn format(self) -> ProviderFormat {
        match self.current {
            Some(a) => a.format,
            None => ProviderFormat::Openai,
        }
    }

    /// Whether the body can go on to the provider that is tried.
    pub open spec fn sendable(self) -> bool {
        match self.current {
            Some(a) => (self.counting && self.protocol != "anthropic"@) || forward::forwardable(
                self.protocol,
                a.format,
                self.body,
                a.model,
            ),
            None => false,
        }
    }

    /// The body that goes on to the provider that is tried.
    pub open spec fn outgoing(self) -> Result<JsonV, ProxyErrorV> {
        let a = self.current->Some_0;
        if self.counting && self.protocol != "anthropic"@ {
            Err(forward::not_counted(self.protocol, a.format))
        } else {
            Ok(forward::forwarded_body(self.protocol, a.format, self.body, a.model))
        }
    }
}

/// What is to be done next.
pub enum Step {
    /// Send the request to this provider, and tell what came of it.
    Try(Attempt),
    /// Read the text of an answer that tells no success.
    ReadRefusal,
    /// Read the bytes of the answer.
    ReadBody,
    /// Send the answer back as a stream.
    Stream(StreamWay),
    /// Answer with a status and a JSON text.
    Reply(u16, String),
    /// Answer with a status and what the provider sent.
    ReplyBytes(u16, Vec<u8>),
    /// Answer with an error.
    Fail(ProxyError),
}

impl View for Step {
    type V = StepV;

    open spec fn view(&self) -> StepV {
        match self {
            Step::Try(a) => StepV::Try(a@),
            Step::ReadRefusal => StepV::ReadRefusal,
            Step::ReadBody => StepV::ReadBody,
            Step::Stream(w) => StepV::Stream(*w),
            Step::Reply(s, t) => StepV::Reply(*s, t@),
            Step::ReplyBytes(s, b) => StepV::ReplyBytes(*s, b@),
            Step::Fail(e) => StepV::Fail(e@),
        }
    }
}

/// One request on its way.
pub struct Session {
    protocol: String,
    body: Json,
    incoming: Incoming,
    counting: bool,
    failover: Failover,
    current: Option<Attempt>,
    status: u16,
}

/// The view of a request to a provider that may be missing.
pub open spec fn opt_attempt(o: Option<Attempt>) -> Option<AttemptV> {
    match o {
        Some(a) => Some(a@),
        None => None,
    }
}

impl View for Session {
    type V = SessionV;

    closed spec fn view(&self) -> SessionV {
        SessionV {
            protocol: self.protocol@,
            body: self.body@,
            incoming: self.incoming@,
            counting: self.counting,
            failover: self.failover@,
            current: opt_attempt(self.current),
            status: self.status,
        }
    }
}

impl Session {
    /// Takes in a request.
    pub fn new(protocol: &str, body: Json, counting: bool, config: &AppConfig) -> (r: Session)
        ensures
            r@ == SessionV::begin(protocol@, body@, counting, config@),
    {
        let incoming = read_request(&body, config.current_tag.as_str());
        let failover = Failover::new(&config.routes, incoming.tag.as_str());
        Session {
            protocol: protocol.to_owned(),
            body,
            incoming,
            counting,
            failover,
            current: None,
            status: 0,
        }
    }

    /// Tries the next route.
    pub fn try_next(&mut self, providers: &Providers) -> (r: Step)
        ensures
            final(self)@ == old(self)@.try_next(providers@).0,
            r@ == old(self)@.try_next(providers@).1,
    {
        let end = if self.counting {
            "/count_tokens"
        } else {
            ""
        };
        match self.failover.next(providers, end) {
            Ok(a) => {
                self.current = Some(a.clone());
                Step::Try(a)
            },
            Err(e) => Step::Fail(e),
        }
    }

    /// Takes in an error of the connection: before an answer, or while its bytes were read.
    pub fn lost(&mut self, providers: &Providers, message: &str) -> (r: Step)
        ensures
            final(self)@ == old(self)@.lost(providers@, message@).0,
            r@ == old(self)@.lost(providers@, message@).1,
    {
        match self.failover.connection_failed(message) {
            After::TryNext => self.try_next(providers),
            After::Stop(e) => Step::Fail(e),
        }
    }

    fn current_format(&self) -> (r: ProviderFormat)
        ensures
            r == self@.format(),
    {
        match &self.current {
            Some(a) => a.format,
            None => ProviderFormat::Openai,
        }
    }

    /// Takes in the status of an answer.
    pub fn answered(&mut self, status: u16) -> (r: Step)
        ensures
            final(self)@ == old(self)@.answered(status).0,
            r@ == old(self)@.answered(status).1,
    {
        self.status = status;
        if self.counting {
            Step::ReadBody
        } else if !is_success(status) {
            Step::ReadRefusal
        } else if self.incoming.streaming {
            Step::Stream(stream_way(self.protocol.as_str(), self.current_format()))
        } else {
            Step::ReadBody
        }
    }

    /// Takes in the text of an answer that tells no success.
    pub fn refused(&mut self, providers: &Providers, body: &str) -> (r: Step)
        requires
            old(self)@.status >= 500 ==> text::cuts_clean(body@, 200),
        ensures
            final(self)@ == old(self)@.refused(providers@, body@).0,
            r@ == old(self)@.refused(providers@, body@).1,
    {
        if self.failover.refused(self.status, body) {
            self.try_next(providers)
        } else {
            Step::Reply(self.status, body.to_owned())
        }
    }

    /// Takes in the bytes of an answer, at a time.
    pub fn read_at(&self, bytes: Vec<u8>, now: u64) -> (r: Step)
        ensures
            r@ == self@.read(bytes@, now),
    {
        if self.counting {
            Step::ReplyBytes(self.status, bytes)
        } else {
            match answer_at(
                self.protocol.as_str(),
                self.current_format(),
                bytes.as_slice(),
                self.incoming.model.as_str(),
                now,
            ) {
                Ok(t) => Step::Reply(self.status, t),
                Err(e) => Step::Fail(e),
            }
        }
    }

    /// Takes in the bytes of an answer, now.
    pub fn read(&self, bytes: Vec<u8>) -> (r: Step)
        ensures
            exists|now: u64| r@ == self@.read(bytes@, now),
    {
        let now: u64 = if same(self.protocol.as_str(), "openai") {
            unix_seconds()
        } else {
            chrono_like_id()
        };
        self.read_at(bytes, now)
    }

    /// Whether the body can go on to the provider that is tried.
    pub fn is_sendable(&self) -> (r: bool)
        ensures
            r == self@.sendable(),
    {
        match &self.current {
            Some(a) => (self.counting && !same(self.protocol.as_str(), "anthropic"))
                || is_forwardable(
                self.protocol.as_str(),
                a.format,
                &self.body,
                a.model.as_str(),
            ),
            None => false,
        }
    }

    /// Makes the body that goes on to the provider that is tried.
    pub fn outgoing_body(&self) -> (r: Result<Json, ProxyError>)
        requires
            self@.sendable(),
        ensures
            replies::result_view(r) == self@.outgoing(),
    {
        match &self.current {
            Some(a) => {
                if self.counting {
                    count_tokens_body(
                        self.protocol.as_str(),
                        a.format,
                        &self.body,
                        a.model.as_str(),
                    )
                } else {
                    Ok(
                        forward_body(
                            self.protocol.as_str(),
                            a.format,
                            &self.body,
                            a.model.as_str(),
                        ),
                    )
                }
            },
            None => Ok(Json::object()),
        }
    }

    /// How many seconds the provider has to answer.
    pub fn timeout_seconds(&self) -> (r: u64)
        ensures
            r == if self@.counting {
                60u64
            } else if self@.incoming.streaming {
                3600u64
            } else {
                300u64
            },
    {
        if self.counting {
            60
        } else {
            timeout_seconds(self.incoming.streaming)
        }
    }

    /// The model that the client asked for.
    pub fn request_model(&self) -> (r: &str)
        ensures
            r@ == self@.incoming.model,
    {
        self.incoming.model.as_str()
    }

    /// Whether the answer is one that is kept in the log: it tells success, and was not asked
    /// for to count tokens.
    pub fn is_logged(&self) -> (r: bool)
        ensures
            r == (!self@.counting && failover::succeeded(self@.status)),
    {
        !self.counting && is_success(self.status)
    }

    /// What is kept of a request that was answered: what the client asked for, and who
    /// answered.
    pub fn log_entry(&self) -> (r: RequestLog)
        ensures
            r@.request_model == self@.incoming.model,
            r@.tag == self@.incoming.tag,
            r@.provider == match self@.current {
                Some(a) => a.provider_name,
                None => ""@,
            },
            r@.target_model == match self@.current {
                Some(a) => a.model,
                None => ""@,
            },
    {
        let (provider, model) = match &self.current {
            Some(a) => (a.provider_name.as_str(), a.model.as_str()),
            None => ("", ""),
        };
        RequestLog::now(
            self.incoming.model.as_str(),
            self.incoming.tag.as_str(),
            provider,
            model,
        )
    }
}

/// A request has an answer after no more requests to providers than it has candidates:
/// each one that is tried leaves fewer of them, and nothing adds to them.
pub proof fn lemma_session_ends(
    s: SessionV,
    providers: Seq<(Seq<char>, ProviderV)>,
    text: Seq<char>,
    status: u16,
)
    ensures
        s.try_next(providers).1 is Try ==> s.try_next(providers).0.failover.rest.len()
            < s.failover.rest.len(),
        s.lost(providers, text).1 is Try ==> s.lost(providers, text).0.failover.rest.len()
            < s.failover.rest.len(),
        s.refused(providers, text).1 is Try ==> s.refused(providers, text).0.failover.rest.len()
            < s.failover.rest.len(),
        s.answered(status).1 !is Try,
        s.answered(status).0.failover == s.failover,
{
    let end = ending(s.counting);
    if s.failover.next(providers, end).1 is Ok {
        failover::lemma_fewer_routes(s.failover, providers, end);
    }
    let l = s.failover.after_error(text).0;
    if l.next(providers, end).1 is Ok {
        failover::lemma_fewer_routes(l, providers, end);
    }
    let r = s.failover.after_server_error(s.status, text);
    if r.next(providers, end).1 is Ok {
        failover::lemma_fewer_routes(r, providers, end);
    }
}

/// An answer of the provider that tells an error of the client goes back with its status
/// and its text, and no other route is tried.
pub proof fn lemma_client_error_goes_back(
    s: SessionV,
    providers: Seq<(Seq<char>, ProviderV)>,
    status: u16,
    body: Seq<char>,
)
    requires
        !s.counting,
        400 <= status < 500,
    ensures
        s.answered(status).1 == StepV::ReadRefusal,
        s.answered(status).0.refused(providers, body).1 == StepV::Reply(status, body),
{
}

/// A request without a stream whose answer is a JSON object goes back as the text of an
/// object that names the model of the request.
pub proof fn lemma_answer_names_request_model(s: SessionV, bytes: Seq<u8>, now: u64)
    requires
        !s.counting,
        replies::answer_of_bytes(bytes) matches Ok(v) && v is Obj,
    ensures
        exists|v: JsonV|
            v.str_at("model"@) == Some(s.incoming.model) && s.read(bytes, now) == StepV::Reply(
                s.status,
                #[trigger] crate::json::wire::json_text(v),
            ),
{
    let a = replies::answer_of_bytes(bytes)->Ok_0;
    replies::lemma_reply_names_request_model(s.protocol, s.format(), a, s.incoming.model, now);
    let v = replies::reply(s.protocol, s.format(), a, s.incoming.model, now);
    assert(s.read(bytes, now) == StepV::Reply(s.status, crate::json::wire::json_text(v)));
}

/// A request that comes in goes by the model that its body names: by the tag of that model, or
/// by the current tag where it has none. Its answer is a stream just where it asks for one.
pub proof fn lemma_session_begins(
    protocol: Seq<char>,
    body: JsonV,
    counting: bool,
    config: ConfigV,
)
    ensures
        ({
            let s = SessionV::begin(protocol, body, counting, config);
            let model = body.str_or("model"@, ""@);
            let tag = super::routing::tag_of_parts(super::routing::model_parts(model));
            &&& s.protocol == protocol
            &&& s.body == body
            &&& s.incoming.model == model
            &&& s.incoming.streaming == (body.get("stream"@) == Some(JsonV::Bool(true)))
            &&& tag is Some ==> s.failover.rest == super::routing::candidates(
                config.routes,
                tag->0,
            )
            &&& tag is None ==> s.failover.rest == super::routing::candidates(
                config.routes,
                config.current_tag,
            )
        }),
{
}

/// An answer that tells success is sent back: as a stream where one was asked for, read in the
/// format of the provider and written in that of the client, and else whole.
pub proof fn lemma_success_goes_back(s: SessionV, status: u16)
    requires
        !s.counting,
        200 <= status < 300,
    ensures
        s.incoming.streaming ==> s.answered(status).1 == StepV::Stream(
            replies::way_of_stream(s.protocol, s.format()),
        ),
        !s.incoming.streaming ==> s.answered(status).1 == StepV::ReadBody,
        s.answered(status).0.status == status,
{
}

/// After an answer that tells an error of the server, the next route is tried, as it would have
/// been before; where there is none left, that error is the answer.
pub proof fn lemma_server_error_tries_next(
    s: SessionV,
    providers: Seq<(Seq<char>, ProviderV)>,
    status: u16,
    body: Seq<char>,
)
    requires
        !s.counting,
        500 <= status,
    ensures
        s.answered(status).1 == StepV::ReadRefusal,
        ({
            let r = s.answered(status).0.refused(providers, body);
            let n = s.try_next(providers);
            &&& n.1 is Try ==> r.1 == n.1
            &&& s.failover.rest.len() == 0 ==> r.1 == StepV::Fail(
                failover::server_error(status, body),
            )
        }),
{
    let f = s.failover;
    let g = f.after_server_error(status, body);
    lemma_next_alike(f, g, providers, ending(s.counting));
}

/// Why the last route failed does not matter for which route is tried next.
proof fn lemma_next_alike(
    f: FailoverV,
    g: FailoverV,
    providers: Seq<(Seq<char>, ProviderV)>,
    end: Seq<char>,
)
    requires
        f.rest == g.rest,
    ensures
        f.next(providers, end).1 is Ok == g.next(providers, end).1 is Ok,
        f.next(providers, end).1 is Ok ==> f.next(providers, end).1 == g.next(providers, end).1,
    decreases f.rest.len(),
{
    if f.rest.len() > 0 {
        match forward::attempt_on(providers, f.rest[0], end) {
            Ok(_) => {},
            Err(e) => {
                lemma_next_alike(f.skipped(e), g.skipped(e), providers, end);
            },
        }
    }
}

/// After a connection that was lost, the next route is tried where the error is one after which
/// that may help; any other error is the answer.
pub proof fn lemma_lost_connection(
    s: SessionV,
    providers: Seq<(Seq<char>, ProviderV)>,
    message: Seq<char>,
)
    ensures
        ({
            let e = ProxyErrorV::Upstream(message);
            let l = s.lost(providers, message);
            let n = s.try_next(providers);
            &&& super::errors::retryable(e) && n.1 is Try ==> l.1 == n.1
            &&& super::errors::retryable(e) && s.failover.rest.len() == 0 ==> l.1 == StepV::Fail(e)
            &&& !super::errors::retryable(e) ==> l.1 == StepV::Fail(e)
        }),
{
    let f = s.failover;
    let g = f.after_error(message).0;
    lemma_next_alike(f, g, providers, ending(s.counting));
}

/// What is sent to a provider is the request in its format, for the model of the route.
pub proof fn lemma_sent_to_route(s: SessionV, a: AttemptV)
    requires
        s.current == Some(a),
        !s.counting,
    ensures
        s.outgoing() == Ok::<JsonV, ProxyErrorV>(
            forward::forwarded_body(s.protocol, a.format, s.body, a.model),
        ),
{
}

/// Where tokens are counted, every answer goes back as it is.
pub proof fn lemma_count_goes_back(s: SessionV, status: u16, bytes: Seq<u8>, now: u64)
    requires
        s.counting,
    ensures
        s.answered(status).1 == StepV::ReadBody,
        s.answered(status).0.read(bytes, now) == StepV::ReplyBytes(status, bytes),
{
}

} // verus!
