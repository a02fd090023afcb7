//! The management API: what may be configured, who may, and what is reported.

use vstd::prelude::*;

use crate::config;
use crate::config::{AppConfig, ConfigV, ProviderV, Providers, Route, RouteV};
use crate::json::{self, Json, JsonV};
use crate::order;
use crate::order::insert_text;
use crate::proxy::errors;
use crate::proxy::errors::make_error_body;
use crate::text;
use crate::text::{concat2, concat3, same, to_decimal, trim};
use vstd::string::StringExecFns;

verus! {

/// The state of the router.
#[derive(Debug)]
pub struct StatusResponse {
    pub current_tag: String,
    pub takeover: TakeoverInfo,
    pub codex_takeover: TakeoverInfo,
}

/// Whether a client's traffic goes through the router, and where to.
#[derive(Debug)]
pub struct TakeoverInfo {
    pub active: bool,
    pub proxy_url: Option<String>,
}

impl Clone for TakeoverInfo {
    fn clone(&self) -> (r: TakeoverInfo)
        ensures
            r.active == self.active,
            text::opt_text(r.proxy_url) == text::opt_text(self.proxy_url),
    {
        TakeoverInfo {
            active: self.active,
            proxy_url: match &self.proxy_url {
                Some(u) => Some(u.clone()),
                None => None,
            },
        }
    }
}

/// A request to make a tag the current one.
#[derive(Debug)]
pub struct SetTagRequest {
    pub tag: String,
}

/// A request to try the routes of a tag.
#[derive(Debug)]
pub struct TestRequest {
    pub tag: String,
    pub prompt: String,
}

/// The prompt of a trial that names none.
pub fn default_test_prompt() -> (r: String)
    ensures
        r@ == "Hi, reply with one word."@,
{
    "Hi, reply with one word.".to_owned()
}

/// Why a request to the API was refused.
#[derive(Debug)]
pub enum ApiError {
    Internal(String),
    Validation(String),
    Unauthorized,
}

/// What an error is.
pub enum ApiErrorV {
    Internal(Seq<char>),
    Validation(Seq<char>),
    Unauthorized,
}

impl View for ApiError {
    type V = ApiErrorV;

    open spec fn view(&self) -> ApiErrorV {
        match self {
            ApiError::Internal(s) => ApiErrorV::Internal(s@),
            ApiError::Validation(s) => ApiErrorV::Validation(s@),
            ApiError::Unauthorized => ApiErrorV::Unauthorized,
        }
    }
}

/// The text of an error.
pub open spec fn error_text(e: ApiErrorV) -> Seq<char> {
    match e {
        ApiErrorV::Internal(s) => s,
        ApiErrorV::Validation(s) => s,
        ApiErrorV::Unauthorized => "unauthorized"@,
    }
}

/// The status that an error is answered with.
pub open spec fn error_status(e: ApiErrorV) -> u16 {
    match e {
        ApiErrorV::Internal(_) => 500,
        ApiErrorV::Validation(_) => 400,
        ApiErrorV::Unauthorized => 401,
    }
}

impl ApiError {
    /// The text of the error.
    pub fn message(&self) -> (r: String)
        ensures
            r@ == error_text(self@),
    {
        match self {
            ApiError::Internal(s) => s.clone(),
            ApiError::Validation(s) => s.clone(),
            ApiError::Unauthorized => "unauthorized".to_owned(),
        }
    }

    /// The status that the error is answered with.
    pub fn status(&self) -> (r: u16)
        ensures
            r == error_status(self@),
    {
        match self {
            ApiError::Internal(_) => 500,
            ApiError::Validation(_) => 400,
            ApiError::Unauthorized => 401,
        }
    }

    /// The body that the error is answered with.
    pub fn body(&self) -> (r: Json)
        ensures
            r@ == errors::error_body(error_text(self@)),
    {
        make_error_body(self.message().as_str())
    }
}

/// The view of a refusal.
pub open spec fn refusal(r: Result<(), ApiError>) -> Result<(), ApiErrorV> {
    match r {
        Ok(()) => Ok(()),
        Err(e) => Err(e@),
    }
}

/// Lets in a request that writes: its key is the one of the configuration. A request
/// without a key that is text has none.
pub fn check_management_key(key: Option<&str>, config: &AppConfig) -> (r: Result<(), ApiError>)
    ensures
        refusal(r) == if json::opt_str(key) == Some(config@.management_key) {
            Ok::<(), ApiErrorV>(())
        } else {
            Err(ApiErrorV::Unauthorized)
        },
{
    match key {
        Some(k) => {
            if same(k, config.management_key.as_str()) {
                Ok(())
            } else {
                Err(ApiError::Unauthorized)
            }
        },
        None => Err(ApiError::Unauthorized),
    }
}

/// Whether a text holds nothing but white space.
pub open spec fn blank(s: Seq<char>) -> bool {
    text::trimmed(s).len() == 0
}

fn is_blank(s: &str) -> (r: bool)
    ensures
        r == blank(s@),
{
    let t = trim(s);
    proof {
        reveal_strlit("");
        assert(t@.len() == 0 ==> t@ =~= ""@);
    }
    same(t, "")
}

/// What is wrong with a provider.
pub open spec fn provider_problem(id: Seq<char>, p: ProviderV) -> Option<Seq<char>> {
    if blank(p.base_url) {
        Some("provider '"@ + id + "' has empty base_url"@)
    } else if blank(p.api_key) {
        Some("provider '"@ + id + "' has empty api_key"@)
    } else {
        None
    }
}

/// What is wrong with the first provider that something is wrong with.
pub open spec fn providers_problem(s: Seq<(Seq<char>, ProviderV)>) -> Option<Seq<char>>
    decreases s.len(),
{
    if s.len() == 0 {
        None
    } else {
        match providers_problem(s.drop_last()) {
            Some(e) => Some(e),
            None => provider_problem(s.last().0, s.last().1),
        }
    }
}

/// The name of a route in messages: its place, counted from one.
pub open spec fn route_name(i: int) -> Seq<char> {
    "route #"@ + text::decimal((i + 1) as nat)
}

/// What is wrong with the route at a place.
pub open spec fn route_problem(
    i: int,
    r: RouteV,
    providers: Seq<(Seq<char>, ProviderV)>,
) -> Option<Seq<char>> {
    if blank(r.model) {
        Some(route_name(i) + " has empty model"@)
    } else if blank(r.provider) {
        Some(route_name(i) + " has empty provider"@)
    } else if config::provider_of(providers, r.provider) is None {
        Some(route_name(i) + " references unknown provider '"@ + r.provider + "'"@)
    } else {
        None
    }
}

/// What is wrong with the first route that something is wrong with.
pub open spec fn routes_problem(
    s: Seq<RouteV>,
    providers: Seq<(Seq<char>, ProviderV)>,
) -> Option<Seq<char>>
    decreases s.len(),
{
    if s.len() == 0 {
        None
    } else {
        match routes_problem(s.drop_last(), providers) {
            Some(e) => Some(e),
            None => route_problem(s.len() - 1, s.last(), providers),
        }
    }
}

/// What is wrong with a configuration: first its port, then its providers, then its routes.
pub open spec fn config_problem(c: ConfigV) -> Option<Seq<char>> {
    if c.port == 0 {
        Some("port cannot be 0"@)
    } else {
        match providers_problem(c.providers) {
            Some(e) => Some(e),
            None => routes_problem(c.routes, c.providers),
        }
    }
}

fn check_provider(id: &str, p: &config::Provider) -> (r: Option<String>)
    ensures
        text::opt_text(r) == provider_problem(id@, p@),
{
    if is_blank(p.base_url.as_str()) {
        Some(concat3("provider '", id, "' has empty base_url"))
    } else if is_blank(p.api_key.as_str()) {
        Some(concat3("provider '", id, "' has empty api_key"))
    } else {
        None
    }
}

fn check_providers(providers: &Providers) -> (r: Option<String>)
    ensures
        text::opt_text(r) == providers_problem(providers@),
{
    let n: usize = providers.len();
    let ghost all = providers@;
    assert(all.take(0) =~= Seq::<(Seq<char>, ProviderV)>::empty());
    for i in 0..n
        invariant
            n == all.len(),
            all == providers@,
            providers_problem(all.take(i as int)) is None,
    {
        let (id, p) = providers.entry(i);
        assert(all.take(i + 1).drop_last() =~= all.take(i as int));
        assert(all.take(i + 1).last() == all[i as int]);
        let e = check_provider(id, p);
        if e.is_some() {
            proof {
                lemma_first_provider(all, i + 1);
            }
            return e;
        }
    }
    assert(all.take(n as int) =~= all);
    None
}

/// What is wrong with the first providers is wrong with all of them.
proof fn lemma_first_provider(s: Seq<(Seq<char>, ProviderV)>, k: int)
    requires
        0 <= k <= s.len(),
        providers_problem(s.take(k)) is Some,
    ensures
        providers_problem(s) == providers_problem(s.take(k)),
    decreases s.len() - k,
{
    if k < s.len() {
        assert(s.take(k + 1).drop_last() =~= s.take(k));
        lemma_first_provider(s, k + 1);
    } else {
        assert(s.take(k) =~= s);
    }
}

/// What is wrong with the first routes is wrong with all of them.
proof fn lemma_first_route(
    s: Seq<RouteV>,
    providers: Seq<(Seq<char>, ProviderV)>,
    k: int,
)
    requires
        0 <= k <= s.len(),
        routes_problem(s.take(k), providers) is Some,
    ensures
        routes_problem(s, providers) == routes_problem(s.take(k), providers),
    decreases s.len() - k,
{
    if k < s.len() {
        assert(s.take(k + 1).drop_last() =~= s.take(k));
        lemma_first_route(s, providers, k + 1);
    } else {
        assert(s.take(k) =~= s);
    }
}

fn check_route(i: usize, r: &Route, providers: &Providers) -> (e: Option<String>)
    requires
        i < usize::MAX,
    ensures
        text::opt_text(e) == route_problem(i as int, r@, providers@),
{
    let name = concat2("route #", to_decimal((i + 1) as u64).as_str());
    if is_blank(r.model.as_str()) {
        Some(concat2(name.as_str(), " has empty model"))
    } else if is_blank(r.provider.as_str()) {
        Some(concat2(name.as_str(), " has empty provider"))
    } else if providers.get(r.provider.as_str()).is_none() {
        let mut e = concat3(
            name.as_str(),
            " references unknown provider '",
            r.provider.as_str(),
        );
        e.append("'");
        Some(e)
    } else {
        None
    }
}

fn check_routes(routes: &Vec<Route>, providers: &Providers) -> (r: Option<String>)
    ensures
        text::opt_text(r) == routes_problem(config::routes_view(routes@), providers@),
{
    let n: usize = routes.len();
    let ghost all = config::routes_view(routes@);
    assert(all.take(0) =~= Seq::<RouteV>::empty());
    for i in 0..n
        invariant
            n == routes@.len(),
            all == config::routes_view(routes@),
            routes_problem(all.take(i as int), providers@) is None,
    {
        assert(all.take(i + 1).drop_last() =~= all.take(i as int));
        assert(all.take(i + 1).last() == routes@[i as int]@);
        let e = check_route(i, &routes[i], providers);
        if e.is_some() {
            proof {
                lemma_first_route(all, providers@, i + 1);
            }
            return e;
        }
    }
    assert(all.take(n as int) =~= all);
    None
}

/// The view of what is wrong.
pub open spec fn problem_view(r: Result<(), String>) -> Option<Seq<char>> {
    match r {
        Ok(()) => None,
        Err(e) => Some(e@),
    }
}

/// Says what is wrong with a configuration, if anything is.
pub fn validate_config(config: &AppConfig) -> (r: Result<(), String>)
    ensures
        problem_view(r) == config_problem(config@),
{
    if config.port == 0 {
        return Err("port cannot be 0".to_owned());
    }
    if let Some(e) = check_providers(&config.providers) {
        return Err(e);
    }
    if let Some(e) = check_routes(&config.routes, &config.providers) {
        return Err(e);
    }
    Ok(())
}

/// Whether a configuration is right: it has a port, its providers have an address and a
/// key, and its routes have a model and lead to a provider that there is.
pub open spec fn valid(c: ConfigV) -> bool {
    &&& c.port != 0
    &&& forall|i: int|
        0 <= i < c.providers.len() ==> !blank((#[trigger] c.providers[i]).1.base_url) && !blank(
            c.providers[i].1.api_key,
        )
    &&& forall|i: int|
        0 <= i < c.routes.len() ==> !blank((#[trigger] c.routes[i]).model) && !blank(
            c.routes[i].provider,
        ) && config::provider_of(c.providers, c.routes[i].provider) is Some
}

proof fn lemma_providers_right(s: Seq<(Seq<char>, ProviderV)>)
    ensures
        providers_problem(s) is None <==> forall|i: int|
            0 <= i < s.len() ==> !blank((#[trigger] s[i]).1.base_url) && !blank(s[i].1.api_key),
    decreases s.len(),
{
    if s.len() > 0 {
        let t = s.drop_last();
        lemma_providers_right(t);
        assert(s[s.len() - 1] == s.last());
        assert forall|i: int| 0 <= i < t.len() implies t[i] == #[trigger] s[i] by {}
        if providers_problem(s) is None {
            assert forall|i: int| 0 <= i < s.len() implies !blank(
                (#[trigger] s[i]).1.base_url,
            ) && !blank(s[i].1.api_key) by {
                if i < t.len() {
                    assert(t[i] == s[i]);
                }
            }
        } else if providers_problem(t) is Some {
            let i = choose|i: int|
                0 <= i < t.len() && !(!blank((#[trigger] t[i]).1.base_url) && !blank(
                    t[i].1.api_key,
                ));
            assert(s[i] == t[i]);
        }
    }
}

proof fn lemma_routes_right(s: Seq<RouteV>, providers: Seq<(Seq<char>, ProviderV)>)
    ensures
        routes_problem(s, providers) is None <==> forall|i: int|
            0 <= i < s.len() ==> !blank((#[trigger] s[i]).model) && !blank(s[i].provider)
                && config::provider_of(providers, s[i].provider) is Some,
    decreases s.len(),
{
    if s.len() > 0 {
        let t = s.drop_last();
        lemma_routes_right(t, providers);
        assert(s[s.len() - 1] == s.last());
        if routes_problem(s, providers) is None {
            assert forall|i: int| 0 <= i < s.len() implies !blank((#[trigger] s[i]).model)
                && !blank(s[i].provider) && config::provider_of(
                providers,
                s[i].provider,
            ) is Some by {
                if i < t.len() {
                    assert(t[i] == s[i]);
                }
            }
        } else if routes_problem(t, providers) is Some {
            let i = choose|i: int|
                0 <= i < t.len() && !(!blank((#[trigger] t[i]).model) && !blank(t[i].provider)
                    && config::provider_of(providers, t[i].provider) is Some);
            assert(s[i] == t[i]);
        }
    }
}

/// A configuration is taken exactly when it is right.
pub proof fn lemma_valid(c: ConfigV)
    ensures
        config_problem(c) is None <==> valid(c),
{
    lemma_providers_right(c.providers);
    lemma_routes_right(c.routes, c.providers);
}

/// Takes a configuration that is right as the new one.
pub fn update_config(current: &mut AppConfig, new_config: AppConfig) -> (r: Result<(), ApiError>)
    ensures
        match config_problem(new_config@) {
            Some(e) => refusal(r) == Err::<(), ApiErrorV>(ApiErrorV::Validation(e))
                && final(current)@ == old(current)@,
            None => refusal(r) == Ok::<(), ApiErrorV>(()) && final(current)@ == new_config@,
        },
{
    match validate_config(&new_config) {
        Err(e) => Err(ApiError::Validation(e)),
        Ok(()) => {
            *current = new_config;
            Ok(())
        },
    }
}

/// Makes a tag the current one.
pub fn set_current_tag(config: &mut AppConfig, req: SetTagRequest)
    ensures
        final(config)@ == (ConfigV { current_tag: req.tag@, ..old(config)@ }),
{
    config.current_tag = req.tag;
}

/// A configuration without its management key.
pub open spec fn exported(c: ConfigV) -> ConfigV {
    ConfigV { management_key: "YOUR_MANAGEMENT_KEY"@, ..c }
}

/// Makes a copy of a configuration without its management key.
pub fn export_config(config: &AppConfig) -> (r: AppConfig)
    ensures
        r@ == exported(config@),
{
    let mut out = config.clone();
    out.management_key = "YOUR_MANAGEMENT_KEY".to_owned();
    out
}

/// What a configuration becomes when it is taken in: without a key of its own, it gets the
/// one of the current configuration.
pub open spec fn imported(current: ConfigV, c: ConfigV) -> ConfigV {
    if c.management_key == "YOUR_MANAGEMENT_KEY"@ {
        ConfigV { management_key: current.management_key, ..c }
    } else {
        c
    }
}

/// Takes in a configuration that is right.
pub fn import_config(current: &mut AppConfig, import: AppConfig) -> (r: Result<(), ApiError>)
    ensures
        match config_problem(import@) {
            Some(e) => refusal(r) == Err::<(), ApiErrorV>(ApiErrorV::Validation(e))
                && final(current)@ == old(current)@,
            None => refusal(r) == Ok::<(), ApiErrorV>(()) && final(current)@ == imported(
                old(current)@,
                import@,
            ),
        },
{
    match validate_config(&import) {
        Err(e) => Err(ApiError::Validation(e)),
        Ok(()) => {
            let mut import = import;
            if same(import.management_key.as_str(), "YOUR_MANAGEMENT_KEY") {
                import.management_key = current.management_key.clone();
            }
            *current = import;
            Ok(())
        },
    }
}

/// A configuration that was exported and is taken in again is what it was, and what it
/// shows in between tells nothing of the key.
pub proof fn lemma_export_import(c: ConfigV, other_key: Seq<char>)
    ensures
        imported(c, exported(c)) == c,
        config_problem(exported(c)) == config_problem(c),
        exported(ConfigV { management_key: other_key, ..c }) == exported(c),
{
}

/// What is reported of the router.
pub fn get_status(config: &AppConfig, claude: TakeoverInfo, codex: TakeoverInfo) -> (r:
    StatusResponse)
    ensures
        r.current_tag@ == config@.current_tag,
        r.takeover == claude,
        r.codex_takeover == codex,
{
    StatusResponse {
        current_tag: config.current_tag.clone(),
        takeover: claude,
        codex_takeover: codex,
    }
}

/// The models of Codex's own catalog, which it looks for in the list.
pub open spec fn codex_models() -> Set<Seq<char>> {
    set!["gpt-5.5"@, "gpt-5.4"@, "gpt-5.4-mini"@, "gpt-5.3-codex"@, "gpt-5.2"@]
}

/// Whether a text is a tag of one of some routes.
pub open spec fn is_tag(routes: Seq<RouteV>, t: Seq<char>) -> bool {
    exists|i: int| 0 <= i < routes.len() && (#[trigger] routes[i]).tags.contains(t)
}

/// Whether a name is in the list of models: the tags of all routes, "auto", and the models
/// of Codex's catalog.
pub open spec fn is_model(routes: Seq<RouteV>, t: Seq<char>) -> bool {
    is_tag(routes, t) || t == "auto"@ || codex_models().contains(t)
}

/// An entry of the list of models.
pub open spec fn model_entry(id: Seq<char>) -> JsonV {
    json::jobj().put("id"@, JsonV::Str(id)).put("object"@, JsonV::Str("model"@)).put(
        "created"@,
        json::jnum(0),
    ).put("owned_by"@, JsonV::Str("model-router"@))
}

pub open spec fn model_entry_fn() -> spec_fn(Seq<char>) -> JsonV {
    |id: Seq<char>| model_entry(id)
}

/// The list of models.
pub open spec fn models_list(ids: Seq<Seq<char>>) -> JsonV {
    json::jobj().put("object"@, JsonV::Str("list"@)).put(
        "data"@,
        JsonV::Arr(ids.map_values(model_entry_fn())),
    )
}

/// Whether names are the models of a list, each once and in their order.
pub open spec fn lists_models(ids: Seq<Seq<char>>, routes: Seq<RouteV>) -> bool {
    order::ascending(ids) && forall|t: Seq<char>| #[trigger] ids.contains(t) <==> is_model(routes, t)
}

/// Puts the tags of a route at their places.
fn insert_tags(list: &mut Vec<String>, tags: &Vec<String>)
    requires
        order::ascending(text::texts(old(list)@)),
    ensures
        order::ascending(text::texts(final(list)@)),
        text::texts(final(list)@).to_set() == text::texts(old(list)@).to_set().union(
            text::texts(tags@).to_set(),
        ),
{
    let ghost start = text::texts(list@).to_set();
    let ghost all = text::texts(tags@);
    let n: usize = tags.len();
    assert(start.union(all.take(0).to_set()) =~= start);
    for i in 0..n
        invariant
            n == tags@.len(),
            all == text::texts(tags@),
            order::ascending(text::texts(list@)),
            text::texts(list@).to_set() == start.union(all.take(i as int).to_set()),
    {
        insert_text(list, tags[i].as_str());
        proof {
            assert(all.take(i + 1) =~= all.take(i as int).push(tags@[i as int]@));
            lemma_push_set(all.take(i as int), tags@[i as int]@);
            assert(text::texts(list@).to_set() =~= start.union(all.take(i + 1).to_set()));
        }
    }
    assert(all.take(n as int) =~= all);
}

proof fn lemma_push_set(s: Seq<Seq<char>>, t: Seq<char>)
    ensures
        s.push(t).to_set() == s.to_set().insert(t),
{
    let r = s.push(t);
    assert forall|x: Seq<char>| r.to_set().contains(x) <==> s.to_set().insert(t).contains(x) by {
        if s.contains(x) {
            let j = choose|j: int| 0 <= j < s.len() && s[j] == x;
            assert(r[j] == x);
        }
        if x == t {
            assert(r[s.len() as int] == x);
        }
    }
    assert(r.to_set() =~= s.to_set().insert(t));
}

/// The names in the list of models, each once and in their order.
pub fn model_ids(routes: &Vec<Route>) -> (r: Vec<String>)
    ensures
        lists_models(text::texts(r@), config::routes_view(routes@)),
{
    let ghost all = config::routes_view(routes@);
    let mut list: Vec<String> = Vec::new();
    let n: usize = routes.len();
    for i in 0..n
        invariant
            n == routes@.len(),
            all == config::routes_view(routes@),
            order::ascending(text::texts(list@)),
            forall|t: Seq<char>|
                #[trigger] text::texts(list@).to_set().contains(t) <==> is_tag(
                    all.take(i as int),
                    t,
                ),
    {
        let ghost before = text::texts(list@).to_set();
        insert_tags(&mut list, &routes[i].tags);
        proof {
            assert(all[i as int] == routes@[i as int]@);
            assert forall|t: Seq<char>| #[trigger] text::texts(list@).to_set().contains(
                t,
            ) <==> is_tag(all.take(i + 1), t) by {
                assert(before.contains(t) <==> is_tag(all.take(i as int), t));
                let s = all.take(i + 1);
                if is_tag(all.take(i as int), t) {
                    let k = choose|k: int|
                        0 <= k < all.take(i as int).len() && (#[trigger] all.take(
                            i as int,
                        )[k]).tags.contains(t);
                    assert(s[k].tags.contains(t));
                }
                if all[i as int].tags.contains(t) {
                    assert(s[i as int].tags.contains(t));
                }
                if is_tag(s, t) {
                    let k = choose|k: int|
                        0 <= k < s.len() && (#[trigger] s[k]).tags.contains(t);
                    if k < i {
                        assert(all.take(i as int)[k].tags.contains(t));
                    }
                }
            }
        }
    }
    assert(all.take(n as int) =~= all);
    let ghost tags = text::texts(list@).to_set();
    insert_text(&mut list, "auto");
    insert_text(&mut list, "gpt-5.5");
    insert_text(&mut list, "gpt-5.4");
    insert_text(&mut list, "gpt-5.4-mini");
    insert_text(&mut list, "gpt-5.3-codex");
    insert_text(&mut list, "gpt-5.2");
    proof {
        let ids = text::texts(list@);
        assert forall|t: Seq<char>| #[trigger] ids.contains(t) <==> is_model(all, t) by {
            assert(ids.contains(t) <==> ids.to_set().contains(t));
            assert(tags.contains(t) <==> is_tag(all, t));
        }
    }
    list
}

/// The list of models for clients that look for theirs.
pub fn get_models(config: &AppConfig) -> (r: Json)
    ensures
        exists|ids: Seq<Seq<char>>|
            lists_models(ids, config@.routes) && r@ == #[trigger] models_list(ids),
{
    broadcast use json::group_json;

    let ids = model_ids(&config.routes);
    let ghost all = text::texts(ids@);
    let ghost f = model_entry_fn();
    let mut data: Vec<Json> = Vec::new();
    let n: usize = ids.len();
    assert(json::views(data@) =~= all.take(0).map_values(f));
    for i in 0..n
        invariant
            n == ids@.len(),
            all == text::texts(ids@),
            f == model_entry_fn(),
            json::views(data@) == all.take(i as int).map_values(f),
    {
        let entry = Json::object().put("id", Json::str(ids[i].as_str())).put(
            "object",
            Json::str("model"),
        ).put("created", Json::number(0)).put("owned_by", Json::str("model-router"));
        proof {
            json::lemma_views_push(data@, entry);
            assert(all.take(i + 1).map_values(f) =~= all.take(i as int).map_values(f).push(
                model_entry(ids@[i as int]@),
            ));
        }
        data.push(entry);
    }
    assert(all.take(n as int) =~= all);
    let r = Json::object().put("object", Json::str("list")).put("data", Json::Arr(data));
    assert(r@ == models_list(all));
    r
}

/// There is one list of models.
pub proof fn lemma_one_list(a: Seq<Seq<char>>, b: Seq<Seq<char>>, routes: Seq<RouteV>)
    requires
        lists_models(a, routes),
        lists_models(b, routes),
    ensures
        a == b,
{
    assert forall|t: Seq<char>| a.to_set().contains(t) <==> b.to_set().contains(t) by {
        assert(a.contains(t) <==> is_model(routes, t));
        assert(b.contains(t) <==> is_model(routes, t));
    }
    assert(a.to_set() =~= b.to_set());
    order::lemma_one_order(a, b);
}

} // verus!
