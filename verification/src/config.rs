//! The configuration: providers, routes and tags, and what is kept while running.

use vstd::prelude::*;

use crate::clock::utc_now;
use crate::text;
use crate::text::{concat2, same};

verus! {

/// How a provider takes its key.
#[derive(Debug, Clone, Copy, PartialEq, Eq, Structural)]
pub enum AuthType {
    Bearer,
    XApiKey,
    XGoogApiKey,
}

impl AuthType {
    /// The name of the header that carries the key.
    pub open spec fn name(self) -> Seq<char> {
        match self {
            AuthType::Bearer => "authorization"@,
            AuthType::XApiKey => "x-api-key"@,
            AuthType::XGoogApiKey => "x-goog-api-key"@,
        }
    }

    /// The value of the header that carries a key.
    pub open spec fn value(self, key: Seq<char>) -> Seq<char> {
        match self {
            AuthType::Bearer => "Bearer "@ + key,
            _ => key,
        }
    }

    /// The name of the header that carries the key.
    pub fn header_name(&self) -> (r: &str)
        ensures
            r@ == self.name(),
    {
        match self {
            AuthType::Bearer => "authorization",
            AuthType::XApiKey => "x-api-key",
            AuthType::XGoogApiKey => "x-goog-api-key",
        }
    }

    /// The value of the header that carries a key.
    pub fn header_value(&self, api_key: &str) -> (r: String)
        ensures
            r@ == self.value(api_key@),
    {
        match self {
            AuthType::Bearer => concat2("Bearer ", api_key),
            _ => api_key.to_owned(),
        }
    }
}

/// The format that a provider speaks.
#[derive(Debug, Clone, Copy, PartialEq, Eq, Structural)]
pub enum ProviderFormat {
    Anthropic,
    Openai,
    OpenaiResponses,
}

impl ProviderFormat {
    /// The name of a format, as it is reported.
    pub open spec fn label(self) -> Seq<char> {
        match self {
            ProviderFormat::Anthropic => "Anthropic"@,
            ProviderFormat::Openai => "Openai"@,
            ProviderFormat::OpenaiResponses => "OpenaiResponses"@,
        }
    }

    /// The name of the format, as it is reported.
    pub fn name(&self) -> (r: &'static str)
        ensures
            r@ == self.label(),
    {
        match self {
            ProviderFormat::Anthropic => "Anthropic",
            ProviderFormat::Openai => "Openai",
            ProviderFormat::OpenaiResponses => "OpenaiResponses",
        }
    }
}

/// A provider of models.
#[derive(Debug)]
pub struct Provider {
    pub name: String,
    pub base_url: String,
    pub api_key: String,
    pub auth_type: AuthType,
}

/// What a provider is.
#[verifier::ext_equal]
pub struct ProviderV {
    pub name: Seq<char>,
    pub base_url: Seq<char>,
    pub api_key: Seq<char>,
    pub auth_type: AuthType,
}

impl View for Provider {
    type V = ProviderV;

    open spec fn view(&self) -> ProviderV {
        ProviderV {
            name: self.name@,
            base_url: self.base_url@,
            api_key: self.api_key@,
            auth_type: self.auth_type,
        }
    }
}

impl Clone for Provider {
    fn clone(&self) -> (r: Provider)
        ensures
            r@ == self@,
    {
        Provider {
            name: self.name.clone(),
            base_url: self.base_url.clone(),
            api_key: self.api_key.clone(),
            auth_type: self.auth_type,
        }
    }
}

/// A way to a model of a provider.
#[derive(Debug)]
pub struct Route {
    pub endpoint: String,
    pub model: String,
    pub provider: String,
    pub tags: Vec<String>,
    pub format: ProviderFormat,
    pub enabled: bool,
}

/// What a route is.
#[verifier::ext_equal]
pub struct RouteV {
    pub endpoint: Seq<char>,
    pub model: Seq<char>,
    pub provider: Seq<char>,
    pub tags: Seq<Seq<char>>,
    pub format: ProviderFormat,
    pub enabled: bool,
}

impl View for Route {
    type V = RouteV;

    open spec fn view(&self) -> RouteV {
        RouteV {
            endpoint: self.endpoint@,
            model: self.model@,
            provider: self.provider@,
            tags: text::texts(self.tags@),
            format: self.format,
            enabled: self.enabled,
        }
    }
}

/// A copy of texts.
pub(crate) fn copy_texts(s: &Vec<String>) -> (r: Vec<String>)
    ensures
        text::texts(r@) == text::texts(s@),
{
    broadcast use text::lemma_texts_push;

    let mut out: Vec<String> = Vec::new();
    let n: usize = s.len();
    for i in 0..n
        invariant
            n == s@.len(),
            text::texts(out@) == text::texts(s@).take(i as int),
    {
        out.push(s[i].clone());
        assert(text::texts(s@).take(i + 1) =~= text::texts(s@).take(i as int).push(s@[i as int]@));
    }
    assert(text::texts(s@).take(n as int) =~= text::texts(s@));
    out
}

impl Clone for Route {
    fn clone(&self) -> (r: Route)
        ensures
            r@ == self@,
    {
        Route {
            endpoint: self.endpoint.clone(),
            model: self.model.clone(),
            provider: self.provider.clone(),
            tags: copy_texts(&self.tags),
            format: self.format,
            enabled: self.enabled,
        }
    }
}

/// A tag that routes are found by.
#[derive(Debug)]
pub struct Tag {
    pub name: String,
    pub color: String,
    pub is_auto: bool,
}

/// What a tag is.
#[verifier::ext_equal]
pub struct TagV {
    pub name: Seq<char>,
    pub color: Seq<char>,
    pub is_auto: bool,
}

impl View for Tag {
    type V = TagV;

    open spec fn view(&self) -> TagV {
        TagV { name: self.name@, color: self.color@, is_auto: self.is_auto }
    }
}

impl Clone for Tag {
    fn clone(&self) -> (r: Tag)
        ensures
            r@ == self@,
    {
        Tag { name: self.name.clone(), color: self.color.clone(), is_auto: self.is_auto }
    }
}

/// Providers by their ids, no id twice.
#[derive(Debug)]
pub struct Providers {
    entries: Vec<(String, Provider)>,
}

/// Providers by their ids, in the order in which they were given.
pub open spec fn distinct_ids(s: Seq<(Seq<char>, ProviderV)>) -> bool {
    forall|i: int, j: int| 0 <= i < j < s.len() ==> (#[trigger] s[i]).0 != (#[trigger] s[j]).0
}

impl View for Providers {
    type V = Seq<(Seq<char>, ProviderV)>;

    closed spec fn view(&self) -> Seq<(Seq<char>, ProviderV)> {
        Seq::new(self.entries@.len(), |i: int| (self.entries@[i].0@, self.entries@[i].1@))
    }
}

/// The provider of an id.
pub open spec fn provider_of(s: Seq<(Seq<char>, ProviderV)>, id: Seq<char>) -> Option<ProviderV>
    decreases s.len(),
{
    if s.len() == 0 {
        None
    } else {
        match provider_of(s.drop_last(), id) {
            Some(p) => Some(p),
            None => if s.last().0 == id {
                Some(s.last().1)
            } else {
                None
            },
        }
    }
}

/// An id is found where it is given, with what is given for it.
pub proof fn lemma_provider_of(s: Seq<(Seq<char>, ProviderV)>, i: int)
    requires
        distinct_ids(s),
        0 <= i < s.len(),
    ensures
        provider_of(s, s[i].0) == Some(s[i].1),
    decreases s.len(),
{
    let t = s.drop_last();
    assert forall|i: int, j: int| 0 <= i < j < t.len() implies (#[trigger] t[i]).0 != (#[trigger] t[j]).0 by {
        assert(s[i].0 != s[j].0);
    }
    if i < s.len() - 1 {
        lemma_provider_of(t, i);
    } else {
        lemma_no_provider(t, s[i].0);
    }
}

/// An id that is not given is not found.
pub proof fn lemma_no_provider(s: Seq<(Seq<char>, ProviderV)>, id: Seq<char>)
    requires
        forall|i: int| 0 <= i < s.len() ==> (#[trigger] s[i]).0 != id,
    ensures
        provider_of(s, id) is None,
    decreases s.len(),
{
    if s.len() > 0 {
        assert(s[s.len() - 1].0 != id);
        assert forall|i: int| 0 <= i < s.drop_last().len() implies (#[trigger] s.drop_last()[i]).0
            != id by {
            assert(s[i].0 != id);
        }
        lemma_no_provider(s.drop_last(), id);
    }
}

/// The view of a provider that may be missing.
pub open spec fn opt_provider(o: Option<&Provider>) -> Option<ProviderV> {
    match o {
        Some(p) => Some(p@),
        None => None,
    }
}

impl Providers {
    #[verifier::type_invariant]
    spec fn inv(self) -> bool {
        distinct_ids(self@)
    }

    /// No providers.
    pub fn new() -> (r: Providers)
        ensures
            r@ == Seq::<(Seq<char>, ProviderV)>::empty(),
    {
        let r = Providers { entries: Vec::new() };
        assert(r@ =~= Seq::<(Seq<char>, ProviderV)>::empty());
        r
    }

    /// How many providers there are.
    pub fn len(&self) -> (r: usize)
        ensures
            r == self@.len(),
    {
        self.entries.len()
    }

    /// Whether there are no providers.
    pub fn is_empty(&self) -> (r: bool)
        ensures
            r == (self@.len() == 0),
    {
        self.entries.len() == 0
    }

    /// The id and the provider at a place.
    pub fn entry(&self, i: usize) -> (r: (&str, &Provider))
        requires
            i < self@.len(),
        ensures
            r.0@ == self@[i as int].0,
            r.1@ == self@[i as int].1,
    {
        (self.entries[i].0.as_str(), &self.entries[i].1)
    }

    /// The provider of an id.
    pub fn get(&self, id: &str) -> (r: Option<&Provider>)
        ensures
            opt_provider(r) == provider_of(self@, id@),
    {
        proof {
            use_type_invariant(self);
        }
        let n: usize = self.entries.len();
        for i in 0..n
            invariant
                n == self.entries@.len(),
                n == self@.len(),
                distinct_ids(self@),
                forall|k: int| 0 <= k < i ==> (#[trigger] self@[k]).0 != id@,
        {
            assert(self@[i as int].0 == self.entries@[i as int].0@);
            if same(self.entries[i].0.as_str(), id) {
                proof {
                    lemma_provider_of(self@, i as int);
                }
                return Some(&self.entries[i].1);
            }
        }
        proof {
            lemma_no_provider(self@, id@);
        }
        None
    }

    /// Adds a provider under an id that has none, or changes the one that it has.
    pub fn insert(&mut self, id: &str, provider: Provider)
        ensures
            final(self)@ == with_provider(old(self)@, id@, provider@),
    {
        proof {
            use_type_invariant(&*self);
        }
        let ghost before = self@;
        let ghost p = provider@;
        let mut entries: Vec<(String, Provider)> = Vec::new();
        let n: usize = self.entries.len();
        let mut at: Option<usize> = None;
        for i in 0..n
            invariant
                n == self.entries@.len(),
                n == before.len(),
                self@ == before,
                distinct_ids(before),
                match at {
                    Some(k) => k < i && before[k as int].0 == id@,
                    None => forall|k: int| 0 <= k < i ==> (#[trigger] before[k]).0 != id@,
                },
        {
            assert(before[i as int].0 == self.entries@[i as int].0@);
            if same(self.entries[i].0.as_str(), id) {
                at = Some(i);
            }
        }
        for i in 0..n
            invariant
                n == self.entries@.len(),
                n == before.len(),
                self@ == before,
                entries@.len() == i,
                forall|k: int| 0 <= k < i ==> (#[trigger] entries@[k]).0@ == before[k].0,
                forall|k: int| 0 <= k < i ==> (#[trigger] entries@[k]).1@ == before[k].1,
        {
            entries.push((self.entries[i].0.clone(), self.entries[i].1.clone()));
        }
        match at {
            Some(k) => {
                entries.set(k, (id.to_owned(), provider));
                proof {
                    lemma_place(before, id@, k as int);
                    let after = Seq::new(
                        entries@.len(),
                        |i: int| (entries@[i].0@, entries@[i].1@),
                    );
                    assert(after =~= before.update(k as int, (id@, p)));
                    assert forall|i: int, j: int| 0 <= i < j < after.len() implies (#[trigger] after[i]).0
                        != (#[trigger] after[j]).0 by {
                        assert(before[i].0 != before[j].0);
                    }
                }
                *self = Providers { entries };
            },
            None => {
                entries.push((id.to_owned(), provider));
                proof {
                    lemma_no_place(before, id@);
                    let after = Seq::new(
                        entries@.len(),
                        |i: int| (entries@[i].0@, entries@[i].1@),
                    );
                    assert(after =~= before.push((id@, p)));
                    assert forall|i: int, j: int| 0 <= i < j < after.len() implies (#[trigger] after[i]).0
                        != (#[trigger] after[j]).0 by {
                        assert(after[i].0 == before[i].0);
                        if j < before.len() {
                            assert(before[i].0 != before[j].0);
                        }
                    }
                }
                *self = Providers { entries };
            },
        }
    }
}

/// Where an id stands, past the end where it does not.
pub open spec fn place_of(s: Seq<(Seq<char>, ProviderV)>, id: Seq<char>) -> int
    decreases s.len(),
{
    if s.len() == 0 {
        0
    } else if s[0].0 == id {
        0
    } else {
        1 + place_of(s.drop_first(), id)
    }
}

proof fn lemma_place(s: Seq<(Seq<char>, ProviderV)>, id: Seq<char>, k: int)
    requires
        distinct_ids(s),
        0 <= k < s.len(),
        s[k].0 == id,
    ensures
        place_of(s, id) == k,
    decreases s.len(),
{
    if k > 0 {
        assert(s[0].0 != s[k].0);
        let t = s.drop_first();
        assert forall|i: int, j: int| 0 <= i < j < t.len() implies (#[trigger] t[i]).0 != (#[trigger] t[j]).0 by {
            assert(s[i + 1].0 != s[j + 1].0);
        }
        lemma_place(t, id, k - 1);
    }
}

proof fn lemma_no_place(s: Seq<(Seq<char>, ProviderV)>, id: Seq<char>)
    requires
        forall|k: int| 0 <= k < s.len() ==> (#[trigger] s[k]).0 != id,
    ensures
        place_of(s, id) == s.len(),
    decreases s.len(),
{
    if s.len() > 0 {
        assert(s[0].0 != id);
        assert forall|k: int| 0 <= k < s.drop_first().len() implies (#[trigger] s.drop_first()[k]).0
            != id by {
            assert(s[k + 1].0 != id);
        }
        lemma_no_place(s.drop_first(), id);
    }
}

/// Providers with one added at the end, or changed where it stands.
pub open spec fn with_provider(
    s: Seq<(Seq<char>, ProviderV)>,
    id: Seq<char>,
    p: ProviderV,
) -> Seq<(Seq<char>, ProviderV)> {
    let k = place_of(s, id);
    if 0 <= k < s.len() {
        s.update(k, (id, p))
    } else {
        s.push((id, p))
    }
}

impl Clone for Providers {
    fn clone(&self) -> (r: Providers)
        ensures
            r@ == self@,
    {
        proof {
            use_type_invariant(self);
        }
        let mut entries: Vec<(String, Provider)> = Vec::new();
        let n: usize = self.entries.len();
        for i in 0..n
            invariant
                n == self.entries@.len(),
                n == self@.len(),
                entries@.len() == i,
                forall|k: int| 0 <= k < i ==> (#[trigger] entries@[k]).0@ == self@[k].0,
                forall|k: int| 0 <= k < i ==> (#[trigger] entries@[k]).1@ == self@[k].1,
        {
            entries.push((self.entries[i].0.clone(), self.entries[i].1.clone()));
        }
        assert(Seq::new(entries@.len(), |i: int| (entries@[i].0@, entries@[i].1@)) =~= self@);
        Providers { entries }
    }
}

/// The configuration.
#[derive(Debug)]
pub struct AppConfig {
    pub port: u16,
    pub providers: Providers,
    pub routes: Vec<Route>,
    pub tags: Vec<Tag>,
    pub current_tag: String,
    pub management_key: String,
}

/// What a configuration is.
#[verifier::ext_equal]
pub struct ConfigV {
    pub port: u16,
    pub providers: Seq<(Seq<char>, ProviderV)>,
    pub routes: Seq<RouteV>,
    pub tags: Seq<TagV>,
    pub current_tag: Seq<char>,
    pub management_key: Seq<char>,
}

/// The views of routes.
pub open spec fn routes_view(s: Seq<Route>) -> Seq<RouteV> {
    Seq::new(s.len(), |i: int| s[i]@)
}

/// The views of tags.
pub open spec fn tags_view(s: Seq<Tag>) -> Seq<TagV> {
    Seq::new(s.len(), |i: int| s[i]@)
}

impl View for AppConfig {
    type V = ConfigV;

    open spec fn view(&self) -> ConfigV {
        ConfigV {
            port: self.port,
            providers: self.providers@,
            routes: routes_view(self.routes@),
            tags: tags_view(self.tags@),
            current_tag: self.current_tag@,
            management_key: self.management_key@,
        }
    }
}

/// A copy of routes.
pub(crate) fn copy_routes(s: &Vec<Route>) -> (r: Vec<Route>)
    ensures
        routes_view(r@) == routes_view(s@),
{
    let mut out: Vec<Route> = Vec::new();
    let n: usize = s.len();
    for i in 0..n
        invariant
            n == s@.len(),
            out@.len() == i,
            forall|k: int| 0 <= k < i ==> (#[trigger] out@[k])@ == s@[k]@,
    {
        out.push(s[i].clone());
    }
    assert(routes_view(out@) =~= routes_view(s@));
    out
}

fn copy_tags(s: &Vec<Tag>) -> (r: Vec<Tag>)
    ensures
        tags_view(r@) == tags_view(s@),
{
    let mut out: Vec<Tag> = Vec::new();
    let n: usize = s.len();
    for i in 0..n
        invariant
            n == s@.len(),
            out@.len() == i,
            forall|k: int| 0 <= k < i ==> (#[trigger] out@[k])@ == s@[k]@,
    {
        out.push(s[i].clone());
    }
    assert(tags_view(out@) =~= tags_view(s@));
    out
}

impl Clone for AppConfig {
    fn clone(&self) -> (r: AppConfig)
        ensures
            r@ == self@,
    {
        AppConfig {
            port: self.port,
            providers: self.providers.clone(),
            routes: copy_routes(&self.routes),
            tags: copy_tags(&self.tags),
            current_tag: self.current_tag.clone(),
            management_key: self.management_key.clone(),
        }
    }
}

/// The format of a route that names none.
pub fn default_format() -> (r: ProviderFormat)
    ensures
        r == ProviderFormat::Openai,
{
    ProviderFormat::Openai
}

/// The port of a configuration that names none.
pub fn default_port() -> (r: u16)
    ensures
        r == 8083,
{
    8083
}

/// The current tag of a configuration that names none.
pub fn default_tag() -> (r: String)
    ensures
        r@ == "auto"@,
{
    "auto".to_owned()
}

/// The management key of a configuration that names none.
pub fn default_management_key() -> (r: String)
    ensures
        r@ == "model-router-local"@,
{
    "model-router-local".to_owned()
}

/// How a provider that does not say so takes its key.
pub fn default_auth_type() -> (r: AuthType)
    ensures
        r == AuthType::Bearer,
{
    AuthType::Bearer
}

/// A provider whose key is still to be set.
pub open spec fn keyless_provider(name: Seq<char>, base_url: Seq<char>) -> ProviderV {
    ProviderV { name, base_url, api_key: "your-key-here"@, auth_type: AuthType::Bearer }
}

fn provider_without_key(name: &str, base_url: &str) -> (r: Provider)
    ensures
        r@ == keyless_provider(name@, base_url@),
{
    Provider {
        name: name.to_owned(),
        base_url: base_url.to_owned(),
        api_key: "your-key-here".to_owned(),
        auth_type: AuthType::Bearer,
    }
}

/// The providers of a configuration that names none.
pub open spec fn default_providers_v() -> Seq<(Seq<char>, ProviderV)> {
    let s = Seq::<(Seq<char>, ProviderV)>::empty();
    let s = with_provider(
        s,
        "deepseek"@,
        keyless_provider("DeepSeek"@, "https://api.deepseek.com"@),
    );
    let s = with_provider(
        s,
        "deepseek_anthropic"@,
        keyless_provider("DeepSeek (Anthropic)"@, "https://api.deepseek.com/anthropic"@),
    );
    let s = with_provider(
        s,
        "zhipu"@,
        keyless_provider("Zhipu GLM"@, "https://open.bigmodel.cn/api/anthropic"@),
    );
    let s = with_provider(
        s,
        "baidu"@,
        keyless_provider("Baidu ERNIE"@, "https://qianfan.baidubce.com/anthropic/coding"@),
    );
    let s = with_provider(s, "kimi"@, keyless_provider("Kimi"@, "https://api.kimi.com/coding"@));
    let s = with_provider(
        s,
        "dashscope"@,
        keyless_provider(
            "Qwen (DashScope)"@,
            "https://dashscope.aliyuncs.com/compatible-mode/v1"@,
        ),
    );
    with_provider(
        s,
        "minimax"@,
        keyless_provider("MiniMax"@, "https://api.minimaxi.com/anthropic"@),
    )
}

/// The providers of a configuration that names none.
pub fn default_providers() -> (r: Providers)
    ensures
        r@ == default_providers_v(),
{
    let mut m = Providers::new();
    m.insert("deepseek", provider_without_key("DeepSeek", "https://api.deepseek.com"));
    m.insert(
        "deepseek_anthropic",
        provider_without_key("DeepSeek (Anthropic)", "https://api.deepseek.com/anthropic"),
    );
    m.insert("zhipu", provider_without_key("Zhipu GLM", "https://open.bigmodel.cn/api/anthropic"));
    m.insert(
        "baidu",
        provider_without_key("Baidu ERNIE", "https://qianfan.baidubce.com/anthropic/coding"),
    );
    m.insert("kimi", provider_without_key("Kimi", "https://api.kimi.com/coding"));
    m.insert(
        "dashscope",
        provider_without_key(
            "Qwen (DashScope)",
            "https://dashscope.aliyuncs.com/compatible-mode/v1",
        ),
    );
    m.insert("minimax", provider_without_key("MiniMax", "https://api.minimaxi.com/anthropic"));
    m
}

/// An enabled route.
pub open spec fn route_v(
    endpoint: Seq<char>,
    model: Seq<char>,
    provider: Seq<char>,
    tags: Seq<Seq<char>>,
    format: ProviderFormat,
) -> RouteV {
    RouteV { endpoint, model, provider, tags, format, enabled: true }
}

fn route(
    endpoint: &str,
    model: &str,
    provider: &str,
    tags: Vec<String>,
    format: ProviderFormat,
) -> (r: Route)
    ensures
        r@ == route_v(endpoint@, model@, provider@, text::texts(tags@), format),
{
    Route {
        endpoint: endpoint.to_owned(),
        model: model.to_owned(),
        provider: provider.to_owned(),
        tags,
        format,
        enabled: true,
    }
}

fn one_tag(t: &str) -> (r: Vec<String>)
    ensures
        text::texts(r@) == seq![t@],
{
    let mut out: Vec<String> = Vec::new();
    out.push(t.to_owned());
    assert(text::texts(out@) =~= seq![t@]);
    out
}

fn two_tags(t: &str, u: &str) -> (r: Vec<String>)
    ensures
        text::texts(r@) == seq![t@, u@],
{
    let mut out: Vec<String> = Vec::new();
    out.push(t.to_owned());
    out.push(u.to_owned());
    assert(text::texts(out@) =~= seq![t@, u@]);
    out
}

/// The routes of a configuration that names none.
pub open spec fn default_routes_v() -> Seq<RouteV> {
    seq![
        route_v(
            "/v1/chat/completions"@,
            "deepseek-v4-pro"@,
            "deepseek"@,
            seq!["sonnet"@, "auto"@],
            ProviderFormat::Openai,
        ),
        route_v(
            "/v1/chat/completions"@,
            "deepseek-v4-flash"@,
            "deepseek"@,
            seq!["haiku"@],
            ProviderFormat::Openai,
        ),
        route_v(
            "/v1/messages"@,
            "glm-5.1"@,
            "zhipu"@,
            seq!["opus"@],
            ProviderFormat::Anthropic,
        ),
        route_v(
            "/v1/chat/completions"@,
            "qwen3.7-max"@,
            "dashscope"@,
            seq!["sonnet"@],
            ProviderFormat::Openai,
        ),
        route_v(
            "/v1/messages"@,
            "K2.6"@,
            "kimi"@,
            seq!["sonnet"@],
            ProviderFormat::Anthropic,
        ),
        route_v(
            "/v1/messages"@,
            "MiniMax-M3"@,
            "minimax"@,
            seq!["haiku"@],
            ProviderFormat::Anthropic,
        ),
    ]
}

/// The routes of a configuration that names none.
pub fn default_routes() -> (r: Vec<Route>)
    ensures
        routes_view(r@) == default_routes_v(),
{
    let mut out: Vec<Route> = Vec::new();
    out.push(
        route(
            "/v1/chat/completions",
            "deepseek-v4-pro",
            "deepseek",
            two_tags("sonnet", "auto"),
            ProviderFormat::Openai,
        ),
    );
    out.push(
        route(
            "/v1/chat/completions",
            "deepseek-v4-flash",
            "deepseek",
            one_tag("haiku"),
            ProviderFormat::Openai,
        ),
    );
    out.push(
        route("/v1/messages", "glm-5.1", "zhipu", one_tag("opus"), ProviderFormat::Anthropic),
    );
    out.push(
        route(
            "/v1/chat/completions",
            "qwen3.7-max",
            "dashscope",
            one_tag("sonnet"),
            ProviderFormat::Openai,
        ),
    );
    out.push(route("/v1/messages", "K2.6", "kimi", one_tag("sonnet"), ProviderFormat::Anthropic));
    out.push(
        route("/v1/messages", "MiniMax-M3", "minimax", one_tag("haiku"), ProviderFormat::Anthropic),
    );
    assert(routes_view(out@) =~= default_routes_v());
    out
}

/// A tag of a colour.
pub open spec fn tag_v(name: Seq<char>, color: Seq<char>, is_auto: bool) -> TagV {
    TagV { name, color, is_auto }
}

fn tag(name: &str, color: &str, is_auto: bool) -> (r: Tag)
    ensures
        r@ == tag_v(name@, color@, is_auto),
{
    Tag { name: name.to_owned(), color: color.to_owned(), is_auto }
}

/// The tags of a configuration that names none.
pub open spec fn default_tags_v() -> Seq<TagV> {
    seq![
        tag_v("opus"@, "#A855F7"@, false),
        tag_v("sonnet"@, "#3B82F6"@, false),
        tag_v("haiku"@, "#22C55E"@, false),
        tag_v("auto"@, "#F59E0B"@, true),
    ]
}

/// The tags of a configuration that names none.
pub fn default_tags() -> (r: Vec<Tag>)
    ensures
        tags_view(r@) == default_tags_v(),
{
    let mut out: Vec<Tag> = Vec::new();
    out.push(tag("opus", "#A855F7", false));
    out.push(tag("sonnet", "#3B82F6", false));
    out.push(tag("haiku", "#22C55E", false));
    out.push(tag("auto", "#F59E0B", true));
    assert(tags_view(out@) =~= default_tags_v());
    out
}

/// The configuration that nothing is set in.
pub open spec fn default_config_v() -> ConfigV {
    ConfigV {
        port: 8083,
        providers: default_providers_v(),
        routes: default_routes_v(),
        tags: default_tags_v(),
        current_tag: "auto"@,
        management_key: "model-router-local"@,
    }
}

impl Default for AppConfig {
    fn default() -> (r: AppConfig)
        ensures
            r@ == default_config_v(),
    {
        AppConfig {
            port: default_port(),
            providers: default_providers(),
            routes: default_routes(),
            tags: default_tags(),
            current_tag: default_tag(),
            management_key: default_management_key(),
        }
    }
}

/// A configuration with what is empty in it filled in.
pub open spec fn backfilled(c: ConfigV) -> ConfigV {
    ConfigV {
        providers: if c.providers.len() == 0 {
            default_providers_v()
        } else {
            c.providers
        },
        routes: if c.routes.len() == 0 {
            default_routes_v()
        } else {
            c.routes
        },
        tags: if c.tags.len() == 0 {
            default_tags_v()
        } else {
            c.tags
        },
        management_key: if c.management_key.len() == 0 {
            "model-router-local"@
        } else {
            c.management_key
        },
        ..c
    }
}

/// Whether something is empty in a configuration that is to be filled in.
pub open spec fn has_gaps(c: ConfigV) -> bool {
    c.providers.len() == 0 || c.routes.len() == 0 || c.tags.len() == 0 || c.management_key.len()
        == 0
}

/// Fills in what is empty in a configuration, and says whether anything was.
pub fn backfill_defaults(config: AppConfig) -> (r: (AppConfig, bool))
    ensures
        r.0@ == backfilled(config@),
        r.1 == has_gaps(config@),
{
    let mut config = config;
    let ghost given = config@;
    let mut dirty: bool = false;
    if config.providers.is_empty() {
        config.providers = default_providers();
        dirty = true;
    }
    if config.routes.is_empty() {
        config.routes = default_routes();
        dirty = true;
    }
    if config.tags.is_empty() {
        config.tags = default_tags();
        dirty = true;
    }
    if config.management_key.as_str().is_empty() {
        config.management_key = default_management_key();
        dirty = true;
    }
    assert(config@ =~= backfilled(given));
    (config, dirty)
}

/// Filling in leaves no gaps, and a configuration without gaps stays as it is.
pub proof fn lemma_backfilled(c: ConfigV)
    ensures
        !has_gaps(backfilled(c)),
        !has_gaps(c) ==> backfilled(c) == c,
        backfilled(backfilled(c)) == backfilled(c),
{
    reveal_strlit("model-router-local");
    assert("model-router-local"@.len() == 18);
    let s = default_providers_v();
    assert(s.len() > 0);
}

/// An entry of the log of requests.
#[derive(Debug)]
pub struct RequestLog {
    pub request_model: String,
    pub tag: String,
    pub provider: String,
    pub target_model: String,
    pub timestamp: String,
}

/// What an entry of the log is.
#[verifier::ext_equal]
pub struct RequestLogV {
    pub request_model: Seq<char>,
    pub tag: Seq<char>,
    pub provider: Seq<char>,
    pub target_model: Seq<char>,
    pub timestamp: Seq<char>,
}

impl View for RequestLog {
    type V = RequestLogV;

    open spec fn view(&self) -> RequestLogV {
        RequestLogV {
            request_model: self.request_model@,
            tag: self.tag@,
            provider: self.provider@,
            target_model: self.target_model@,
            timestamp: self.timestamp@,
        }
    }
}

impl Clone for RequestLog {
    fn clone(&self) -> (r: RequestLog)
        ensures
            r@ == self@,
    {
        RequestLog {
            request_model: self.request_model.clone(),
            tag: self.tag.clone(),
            provider: self.provider.clone(),
            target_model: self.target_model.clone(),
            timestamp: self.timestamp.clone(),
        }
    }
}

impl RequestLog {
    /// An entry of now.
    pub fn now(request_model: &str, tag: &str, provider: &str, target_model: &str) -> (r: RequestLog)
        ensures
            r@.request_model == request_model@,
            r@.tag == tag@,
            r@.provider == provider@,
            r@.target_model == target_model@,
    {
        RequestLog {
            request_model: request_model.to_owned(),
            tag: tag.to_owned(),
            provider: provider.to_owned(),
            target_model: target_model.to_owned(),
            timestamp: utc_now("%Y-%m-%dT%H:%M:%SZ"),
        }
    }
}

/// How many entries the log keeps.
pub const MAX_LOG_ENTRIES: usize = 50;

/// The views of the entries of a log.
pub open spec fn logs_view(s: Seq<RequestLog>) -> Seq<RequestLogV> {
    Seq::new(s.len(), |i: int| s[i]@)
}

/// A log with an entry more: the oldest leaves where there are too many.
pub open spec fn logged(s: Seq<RequestLogV>, e: RequestLogV) -> Seq<RequestLogV> {
    if s.len() >= MAX_LOG_ENTRIES {
        s.push(e).drop_first()
    } else {
        s.push(e)
    }
}

/// What is kept while running.
pub struct AppState {
    pub config: AppConfig,
    pub request_log: Vec<RequestLog>,
}

impl AppState {
    /// The start, with an empty log.
    pub fn new(config: AppConfig) -> (r: AppState)
        ensures
            r.config == config,
            logs_view(r.request_log@) == Seq::<RequestLogV>::empty(),
    {
        let r = AppState { config, request_log: Vec::new() };
        assert(logs_view(r.request_log@) =~= Seq::<RequestLogV>::empty());
        r
    }

    /// Adds an entry to the log.
    pub fn log_request(&mut self, entry: RequestLog)
        ensures
            logs_view(final(self).request_log@) == logged(
                logs_view(old(self).request_log@),
                entry@,
            ),
            final(self).config == old(self).config,
    {
        let ghost before = logs_view(self.request_log@);
        let ghost e = entry@;
        self.request_log.push(entry);
        assert(logs_view(self.request_log@) =~= before.push(e));
        if self.request_log.len() > MAX_LOG_ENTRIES {
            let _ = self.request_log.remove(0);
            assert(logs_view(self.request_log@) =~= before.push(e).drop_first());
        }
    }
}

/// A log after entries one by one, from an empty one.
pub open spec fn logged_all(s: Seq<RequestLogV>) -> Seq<RequestLogV>
    decreases s.len(),
{
    if s.len() == 0 {
        Seq::empty()
    } else {
        logged(logged_all(s.drop_last()), s.last())
    }
}

/// The log is always the newest entries, in the order in which they came, and never more
/// of them than it keeps.
pub proof fn lemma_log_keeps_newest(s: Seq<RequestLogV>)
    ensures
        logged_all(s).len() <= MAX_LOG_ENTRIES,
        s.len() <= MAX_LOG_ENTRIES ==> logged_all(s) == s,
        s.len() > MAX_LOG_ENTRIES ==> logged_all(s) == s.skip(s.len() - MAX_LOG_ENTRIES),
    decreases s.len(),
{
    if s.len() > 0 {
        let t = s.drop_last();
        lemma_log_keeps_newest(t);
        if s.len() <= MAX_LOG_ENTRIES {
            assert(t.push(s.last()) =~= s);
        } else if s.len() == MAX_LOG_ENTRIES + 1 {
            assert(t.push(s.last()) =~= s);
            assert(s.drop_first() =~= s.skip(1));
        } else {
            assert(t.skip(t.len() - MAX_LOG_ENTRIES).push(s.last()).drop_first() =~= s.skip(
                s.len() - MAX_LOG_ENTRIES,
            ));
        }
    }
}

/// After a provider was put under an id, it is found there, and under every other id what was
/// found there before.
pub proof fn lemma_with_provider(
    s: Seq<(Seq<char>, ProviderV)>,
    id: Seq<char>,
    p: ProviderV,
    other: Seq<char>,
)
    requires
        distinct_ids(s),
        other != id,
    ensures
        distinct_ids(with_provider(s, id, p)),
        provider_of(with_provider(s, id, p), id) == Some(p),
        provider_of(with_provider(s, id, p), other) == provider_of(s, other),
{
    let t = with_provider(s, id, p);
    if exists|i: int| 0 <= i < s.len() && (#[trigger] s[i]).0 == id {
        let k = choose|i: int| 0 <= i < s.len() && (#[trigger] s[i]).0 == id;
        assert forall|j: int| 0 <= j < k implies (#[trigger] s[j]).0 != id by {
            assert(s[j].0 != s[k].0);
        }
        lemma_place(s, id, k);
        assert(t == s.update(k, (id, p)));
        lemma_provider_of(t, k);
    } else {
        lemma_no_place(s, id);
        assert(t == s.push((id, p)));
        lemma_provider_of(t, s.len() as int);
    }
    if exists|i: int| 0 <= i < s.len() && (#[trigger] s[i]).0 == other {
        let j = choose|i: int| 0 <= i < s.len() && (#[trigger] s[i]).0 == other;
        lemma_provider_of(s, j);
        assert(t[j] == s[j]);
        lemma_provider_of(t, j);
    } else {
        lemma_no_provider(s, other);
        assert forall|i: int| 0 <= i < t.len() implies (#[trigger] t[i]).0 != other by {
            if i < s.len() && t[i].0 != id {
                assert(t[i] == s[i]);
            }
        }
        lemma_no_provider(t, other);
    }
}

/// Filling the gaps of a configuration changes nothing that it holds.
pub proof fn lemma_backfill_keeps(c: ConfigV)
    ensures
        c.providers.len() > 0 ==> backfilled(c).providers == c.providers,
        c.routes.len() > 0 ==> backfilled(c).routes == c.routes,
        c.tags.len() > 0 ==> backfilled(c).tags == c.tags,
        c.management_key.len() > 0 ==> backfilled(c).management_key == c.management_key,
        backfilled(c).port == c.port,
        backfilled(c).current_tag == c.current_tag,
{
}

} // verus!
