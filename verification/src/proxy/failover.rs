//! Which route is tried next, and what becomes of an answer.

use vstd::prelude::*;

use super::errors;
use super::errors::{is_retryable, ProxyError, ProxyErrorV};
use super::forward;
use super::forward::{prepare, Attempt, AttemptV};
use super::routing;
use super::routing::find_candidate_routes;
use crate::config;
use crate::config::{ProviderV, Providers, Route, RouteV};
use crate::text;
use crate::text::{concat3, cut_bytes, to_decimal};
use vstd::string::StringExecFns;

verus! {

/// A request on its way through the routes that may answer it.
#[verifier::ext_equal]
pub struct FailoverV {
    pub tag: Seq<char>,
    /// The routes that were not tried yet.
    pub rest: Seq<RouteV>,
    /// Why the last route that was tried gave no answer.
    pub last: Option<ProxyErrorV>,
}

/// What follows a failure: the next route, or an end.
pub enum AfterV {
    TryNext,
    Stop(ProxyErrorV),
}

impl FailoverV {
    /// A request before any route was tried.
    pub open spec fn begin(routes: Seq<RouteV>, tag: Seq<char>) -> FailoverV {
        FailoverV { tag, rest: routing::candidates(routes, tag), last: None }
    }

    /// Why the request has no answer when no route is left.
    pub open spec fn end_error(self) -> ProxyErrorV {
        match self.last {
            Some(e) => e,
            None => ProxyErrorV::NoRoute(self.tag),
        }
    }

    /// The request after a route that gave an error.
    pub open spec fn skipped(self, e: ProxyErrorV) -> FailoverV {
        FailoverV { rest: self.rest.drop_first(), last: Some(e), ..self }
    }

    /// The next request to a provider: on the first route that has one; the routes before
    /// it are passed over. Where no route has one, why there is no answer.
    pub open spec fn next(
        self,
        providers: Seq<(Seq<char>, ProviderV)>,
        ending: Seq<char>,
    ) -> (FailoverV, Result<AttemptV, ProxyErrorV>)
        decreases self.rest.len(),
    {
        if self.rest.len() == 0 {
            (self, Err(self.end_error()))
        } else {
            match forward::attempt_on(providers, self.rest[0], ending) {
                Ok(a) => (FailoverV { rest: self.rest.drop_first(), ..self }, Ok(a)),
                Err(e) => self.skipped(e).next(providers, ending),
            }
        }
    }

    /// What follows an error of the connection: the next route where another may help.
    pub open spec fn after_error(self, message: Seq<char>) -> (FailoverV, AfterV) {
        let e = ProxyErrorV::Upstream(message);
        if errors::retryable(e) {
            (FailoverV { last: Some(e), ..self }, AfterV::TryNext)
        } else {
            (self, AfterV::Stop(e))
        }
    }

    /// The request after a provider's answer with a status of a server error.
    pub open spec fn after_server_error(self, status: u16, body: Seq<char>) -> FailoverV {
        FailoverV { last: Some(server_error(status, body)), ..self }
    }
}

/// The error that a status of a server error stands for: the status, and the start of the
/// body.
pub open spec fn server_error(status: u16, body: Seq<char>) -> ProxyErrorV {
    ProxyErrorV::Upstream(
        "HTTP "@ + text::decimal(status as nat) + ": "@ + text::byte_prefix(body, 200),
    )
}

/// Whether a status tells success.
pub open spec fn succeeded(status: u16) -> bool {
    200 <= status < 300
}

/// Whether a status tells success.
pub fn is_success(status: u16) -> (r: bool)
    ensures
        r == succeeded(status),
{
    200 <= status && status < 300
}

/// What follows a failure: the next route, or an end.
pub enum After {
    TryNext,
    Stop(ProxyError),
}

impl View for After {
    type V = AfterV;

    open spec fn view(&self) -> AfterV {
        match self {
            After::TryNext => AfterV::TryNext,
            After::Stop(e) => AfterV::Stop(e@),
        }
    }
}

/// A request on its way through the routes that may answer it.
pub struct Failover {
    tag: String,
    routes: Vec<Route>,
    at: usize,
    last: Option<ProxyError>,
}

/// The view of an error that may be missing.
pub open spec fn opt_error(o: Option<ProxyError>) -> Option<ProxyErrorV> {
    match o {
        Some(e) => Some(e@),
        None => None,
    }
}

impl View for Failover {
    type V = FailoverV;

    closed spec fn view(&self) -> FailoverV {
        FailoverV {
            tag: self.tag@,
            rest: config::routes_view(self.routes@).skip(self.at as int),
            last: opt_error(self.last),
        }
    }
}

impl Failover {
    #[verifier::type_invariant]
    spec fn inv(self) -> bool {
        self.at <= self.routes@.len()
    }

    /// A request before any route was tried.
    pub fn new(routes: &Vec<Route>, tag: &str) -> (r: Failover)
        ensures
            r@ == FailoverV::begin(config::routes_view(routes@), tag@),
    {
        let found = find_candidate_routes(routes, tag);
        let ghost all = config::routes_view(found@);
        let r = Failover { tag: tag.to_owned(), routes: found, at: 0, last: None };
        assert(all.skip(0) =~= all);
        r
    }

    /// Makes the next request to a provider, or says why there is no answer.
    pub fn next(&mut self, providers: &Providers, ending: &str) -> (r: Result<Attempt, ProxyError>)
        ensures
            final(self)@ == old(self)@.next(providers@, ending@).0,
            forward::result_view(r) == old(self)@.next(providers@, ending@).1,
    {
        proof {
            use_type_invariant(&*self);
        }
        let ghost start = self@;
        let ghost all = config::routes_view(self.routes@);
        while self.at < self.routes.len()
            invariant
                self.at <= self.routes@.len(),
                start == old(self)@,
                all == config::routes_view(self.routes@),
                start.next(providers@, ending@) == self@.next(providers@, ending@),
            decreases self.routes@.len() - self.at,
        {
            let ghost before = self@;
            assert(before.rest[0] == all[self.at as int]);
            assert(all.skip(self.at as int).drop_first() =~= all.skip(self.at + 1));
            let attempt = prepare(providers, &self.routes[self.at], ending);
            self.at = self.at + 1;
            match attempt {
                Ok(a) => {
                    assert(self@ =~= FailoverV { rest: before.rest.drop_first(), ..before });
                    return Ok(a);
                },
                Err(e) => {
                    self.last = Some(e);
                    assert(self@ =~= before.skipped(e@));
                },
            }
        }
        match &self.last {
            Some(e) => Err(e.clone()),
            None => Err(ProxyError::NoRoute(self.tag.clone())),
        }
    }

    /// Takes in an error of the connection.
    pub fn connection_failed(&mut self, message: &str) -> (r: After)
        ensures
            final(self)@ == old(self)@.after_error(message@).0,
            r@ == old(self)@.after_error(message@).1,
    {
        proof {
            use_type_invariant(&*self);
        }
        let e = ProxyError::Upstream(message.to_owned());
        if is_retryable(&e) {
            self.last = Some(e);
            After::TryNext
        } else {
            After::Stop(e)
        }
    }

    /// Takes in a provider's answer that tells no success, and says whether the next route
    /// is to be tried: it is after an error of the server; else the answer goes back as it
    /// came.
    pub fn refused(&mut self, status: u16, body: &str) -> (r: bool)
        requires
            status >= 500 ==> text::cuts_clean(body@, 200),
        ensures
            r == (status >= 500),
            final(self)@ == if status >= 500 {
                old(self)@.after_server_error(status, body@)
            } else {
                old(self)@
            },
    {
        proof {
            use_type_invariant(&*self);
        }
        if status >= 500 {
            let mut message = concat3("HTTP ", to_decimal(status as u64).as_str(), ": ");
            message.append(cut_bytes(body, 200));
            self.last = Some(ProxyError::Upstream(message));
            true
        } else {
            false
        }
    }
}

/// Routes are tried in their order: a request to a provider is on the first of the routes
/// left that has one, and only the routes after it are left; an error comes where none of
/// the routes left has one, and is that of the last of them.
pub proof fn lemma_order(
    s: FailoverV,
    providers: Seq<(Seq<char>, ProviderV)>,
    ending: Seq<char>,
)
    ensures
        match s.next(providers, ending).1 {
            Ok(a) => exists|k: int|
                0 <= k < s.rest.len() && forward::attempt_on(
                    providers,
                    #[trigger] s.rest[k],
                    ending,
                ) == Ok::<AttemptV, ProxyErrorV>(a) && (forall|j: int|
                    0 <= j < k ==> forward::attempt_on(
                        providers,
                        #[trigger] s.rest[j],
                        ending,
                    ) is Err) && s.next(providers, ending).0.rest == s.rest.skip(k + 1),
            Err(e) => (forall|j: int|
                0 <= j < s.rest.len() ==> forward::attempt_on(
                    providers,
                    #[trigger] s.rest[j],
                    ending,
                ) is Err) && e == if s.rest.len() > 0 {
                forward::attempt_on(providers, s.rest.last(), ending)->Err_0
            } else {
                s.end_error()
            },
        },
    decreases s.rest.len(),
{
    if s.rest.len() > 0 {
        let first = forward::attempt_on(providers, s.rest[0], ending);
        match first {
            Ok(a) => {
                assert(s.rest.drop_first() =~= s.rest.skip(1));
                assert(s.next(providers, ending).1 == Ok::<AttemptV, ProxyErrorV>(a));
                assert(forward::attempt_on(providers, s.rest[0], ending) == first);
            },
            Err(e) => {
                let t = s.skipped(e);
                lemma_order(t, providers, ending);
                assert(s.next(providers, ending) == t.next(providers, ending));
                match s.next(providers, ending).1 {
                    Ok(a) => {
                        let k = choose|k: int|
                            0 <= k < t.rest.len() && forward::attempt_on(
                                providers,
                                #[trigger] t.rest[k],
                                ending,
                            ) == Ok::<AttemptV, ProxyErrorV>(a) && (forall|j: int|
                                0 <= j < k ==> forward::attempt_on(
                                    providers,
                                    #[trigger] t.rest[j],
                                    ending,
                                ) is Err) && t.next(providers, ending).0.rest == t.rest.skip(k + 1);
                        assert(s.rest[k + 1] == t.rest[k]);
                        assert(t.rest.skip(k + 1) =~= s.rest.skip(k + 2));
                        assert forall|j: int| 0 <= j < k + 1 implies forward::attempt_on(
                            providers,
                            #[trigger] s.rest[j],
                            ending,
                        ) is Err by {
                            if j > 0 {
                                assert(t.rest[j - 1] == s.rest[j]);
                            }
                        }
                    },
                    Err(_) => {
                        assert forall|j: int| 0 <= j < s.rest.len() implies forward::attempt_on(
                            providers,
                            #[trigger] s.rest[j],
                            ending,
                        ) is Err by {
                            if j > 0 {
                                assert(t.rest[j - 1] == s.rest[j]);
                            }
                        }
                        if t.rest.len() > 0 {
                            assert(t.rest.last() == s.rest.last());
                        }
                    },
                }
            },
        }
    }
}

/// A tag without any route is answered by an error that names the tag, and a request with
/// a route left never is.
pub proof fn lemma_no_route(
    routes: Seq<RouteV>,
    tag: Seq<char>,
    providers: Seq<(Seq<char>, ProviderV)>,
    ending: Seq<char>,
)
    ensures
        FailoverV::begin(routes, tag).next(providers, ending).1 == Err::<AttemptV, ProxyErrorV>(
            ProxyErrorV::NoRoute(tag),
        ) <==> routing::candidates(routes, tag).len() == 0,
{
    lemma_order(FailoverV::begin(routes, tag), providers, ending);
}

/// Every request to a provider leaves fewer routes, so that there are no more of them than
/// candidates.
pub proof fn lemma_fewer_routes(
    s: FailoverV,
    providers: Seq<(Seq<char>, ProviderV)>,
    ending: Seq<char>,
)
    requires
        s.next(providers, ending).1 is Ok,
    ensures
        s.next(providers, ending).0.rest.len() < s.rest.len(),
{
    lemma_order(s, providers, ending);
}

/// An error of the server tells its status, and its body where that is short.
pub proof fn lemma_server_error(status: u16, body: Seq<char>)
    ensures
        server_error(status, body) is Upstream,
        text::byte_len(body) <= 200 ==> server_error(status, body)->Upstream_0 == "HTTP "@
            + text::decimal(status as nat) + ": "@ + body,
        errors::error_status(server_error(status, body)) == 502,
{
    text::lemma_byte_prefix(body, 200);
}

} // verus!
