//! From the model that a request names to the routes that may answer it.

use vstd::prelude::*;

use crate::config;
use crate::config::{Route, RouteV};
use crate::seqs;
use crate::text;
use crate::text::{has, same, split_any, starts_with, to_lowercase};

verus! {

/// How often a text stands in a list.
pub open spec fn times(parts: Seq<Seq<char>>, t: Seq<char>) -> nat
    decreases parts.len(),
{
    if parts.len() == 0 {
        0
    } else {
        times(parts.drop_last(), t) + if parts.last() == t {
            1nat
        } else {
            0nat
        }
    }
}

fn count(parts: &Vec<String>, t: &str) -> (r: usize)
    ensures
        r == times(text::texts(parts@), t@),
{
    let ghost all = text::texts(parts@);
    let mut c: usize = 0;
    let n: usize = parts.len();
    assert(all.take(0) =~= Seq::<Seq<char>>::empty());
    for i in 0..n
        invariant
            n == parts@.len(),
            all == text::texts(parts@),
            c <= i,
            c == times(all.take(i as int), t@),
    {
        assert(all.take(i + 1).drop_last() =~= all.take(i as int));
        assert(all.take(i + 1).last() == parts@[i as int]@);
        if same(parts[i].as_str(), t) {
            c = c + 1;
        }
    }
    assert(all.take(n as int) =~= all);
    c
}

/// Whether a part names a model of Kimi.
pub open spec fn is_kimi(p: Seq<char>) -> bool {
    p == "k2"@ || text::starts(p, "kimi"@)
}

fn any_kimi(parts: &Vec<String>) -> (r: bool)
    ensures
        r == exists|i: int|
            0 <= i < text::texts(parts@).len() && is_kimi(#[trigger] text::texts(parts@)[i]),
{
    let ghost all = text::texts(parts@);
    let n: usize = parts.len();
    for i in 0..n
        invariant
            n == parts@.len(),
            all == text::texts(parts@),
            forall|k: int| 0 <= k < i ==> !is_kimi(#[trigger] all[k]),
    {
        assert(all[i as int] == parts@[i as int]@);
        if same(parts[i].as_str(), "k2") || starts_with(parts[i].as_str(), "kimi") {
            assert(is_kimi(text::texts(parts@)[i as int]));
            return true;
        }
    }
    assert forall|i: int| 0 <= i < text::texts(parts@).len() implies !is_kimi(
        #[trigger] text::texts(parts@)[i],
    ) by {
        assert(!is_kimi(all[i]));
    }
    false
}

/// The tag of a model, by the parts of its name.
pub open spec fn tag_of_parts(parts: Seq<Seq<char>>) -> Option<Seq<char>> {
    if parts.contains("opus"@) {
        Some("opus"@)
    } else if parts.contains("sonnet"@) {
        Some("sonnet"@)
    } else if parts.contains("haiku"@) {
        Some("haiku"@)
    } else if parts.contains("gpt"@) {
        if times(parts, "5"@) >= 2 {
            Some("opus"@)
        } else if parts.contains("mini"@) || parts.contains("2"@) {
            Some("haiku"@)
        } else {
            Some("sonnet"@)
        }
    } else if parts.contains("glm"@) {
        Some("sonnet"@)
    } else if parts.contains("deepseek"@) {
        Some("haiku"@)
    } else if exists|i: int| 0 <= i < parts.len() && is_kimi(#[trigger] parts[i]) {
        Some("sonnet"@)
    } else {
        None
    }
}

/// The parts of the name of a model: in lower case, cut at the usual separators.
pub open spec fn model_parts(model: Seq<char>) -> Seq<Seq<char>> {
    text::split(text::lowered(model), "-_. /"@)
}

/// Finds the tag of a model by the parts of its name.
pub fn tag_from_parts(parts: &Vec<String>) -> (r: Option<String>)
    ensures
        text::opt_text(r) == tag_of_parts(text::texts(parts@)),
{
    if has(parts, "opus") {
        Some("opus".to_owned())
    } else if has(parts, "sonnet") {
        Some("sonnet".to_owned())
    } else if has(parts, "haiku") {
        Some("haiku".to_owned())
    } else if has(parts, "gpt") {
        if count(parts, "5") >= 2 {
            Some("opus".to_owned())
        } else if has(parts, "mini") || has(parts, "2") {
            Some("haiku".to_owned())
        } else {
            Some("sonnet".to_owned())
        }
    } else if has(parts, "glm") {
        Some("sonnet".to_owned())
    } else if has(parts, "deepseek") {
        Some("haiku".to_owned())
    } else if any_kimi(parts) {
        Some("sonnet".to_owned())
    } else {
        None
    }
}

/// Finds the tag of a model by its name.
pub fn resolve_tag_from_model(model: &str) -> (r: Option<String>)
    ensures
        text::opt_text(r) == tag_of_parts(model_parts(model@)),
{
    let lower = to_lowercase(model);
    tag_from_parts(&split_any(lower.as_str(), "-_. /"))
}

/// The tag of a request: that of its model, or else the current one.
pub open spec fn tag_of_request(model: Seq<char>, current_tag: Seq<char>) -> Seq<char> {
    match tag_of_parts(model_parts(model)) {
        Some(t) => t,
        None => current_tag,
    }
}

/// Finds the tag of a request.
pub fn request_tag(model: &str, current_tag: &str) -> (r: String)
    ensures
        r@ == tag_of_request(model@, current_tag@),
{
    match resolve_tag_from_model(model) {
        Some(t) => t,
        None => current_tag.to_owned(),
    }
}

/// An enabled route, where it has the tag.
pub open spec fn tagged(r: RouteV, tag: Seq<char>) -> Seq<RouteV> {
    if r.enabled && r.tags.contains(tag) {
        seq![r]
    } else {
        Seq::empty()
    }
}

pub open spec fn tagged_fn(tag: Seq<char>) -> spec_fn(RouteV) -> Seq<RouteV> {
    |r: RouteV| tagged(r, tag)
}

/// A route, where it is enabled.
pub open spec fn enabled_fn() -> spec_fn(RouteV) -> Seq<RouteV> {
    |r: RouteV|
        if r.enabled {
            seq![r]
        } else {
            Seq::empty()
        }
}

/// The routes that may answer a tag, in their order: the enabled ones with the tag; where
/// there is none, those tagged "auto"; where there is none either, all that are enabled.
pub open spec fn candidates(routes: Seq<RouteV>, tag: Seq<char>) -> Seq<RouteV> {
    let exact = seqs::flat(routes, tagged_fn(tag));
    let auto = seqs::flat(routes, tagged_fn("auto"@));
    if exact.len() > 0 {
        exact
    } else if auto.len() > 0 {
        auto
    } else {
        seqs::flat(routes, enabled_fn())
    }
}

fn with_tag(routes: &Vec<Route>, tag: &str) -> (r: Vec<Route>)
    ensures
        config::routes_view(r@) == seqs::flat(config::routes_view(routes@), tagged_fn(tag@)),
{
    let ghost all = config::routes_view(routes@);
    let ghost f = tagged_fn(tag@);
    let mut out: Vec<Route> = Vec::new();
    let n: usize = routes.len();
    proof {
        seqs::lemma_flat_all(all, f);
        assert(config::routes_view(out@) =~= Seq::<RouteV>::empty());
    }
    for i in 0..n
        invariant
            n == routes@.len(),
            all == config::routes_view(routes@),
            f == tagged_fn(tag@),
            config::routes_view(out@) == seqs::flat(all.take(i as int), f),
    {
        let ghost before = config::routes_view(out@);
        if routes[i].enabled && has(&routes[i].tags, tag) {
            out.push(routes[i].clone());
        }
        proof {
            seqs::lemma_flat_step(all, i as int, f);
            assert(config::routes_view(out@) =~= before + f(all[i as int]));
        }
    }
    proof {
        seqs::lemma_flat_all(all, f);
    }
    out
}

fn all_enabled(routes: &Vec<Route>) -> (r: Vec<Route>)
    ensures
        config::routes_view(r@) == seqs::flat(config::routes_view(routes@), enabled_fn()),
{
    let ghost all = config::routes_view(routes@);
    let ghost f = enabled_fn();
    let mut out: Vec<Route> = Vec::new();
    let n: usize = routes.len();
    proof {
        seqs::lemma_flat_all(all, f);
        assert(config::routes_view(out@) =~= Seq::<RouteV>::empty());
    }
    for i in 0..n
        invariant
            n == routes@.len(),
            all == config::routes_view(routes@),
            f == enabled_fn(),
            config::routes_view(out@) == seqs::flat(all.take(i as int), f),
    {
        let ghost before = config::routes_view(out@);
        if routes[i].enabled {
            out.push(routes[i].clone());
        }
        proof {
            seqs::lemma_flat_step(all, i as int, f);
            assert(config::routes_view(out@) =~= before + f(all[i as int]));
        }
    }
    proof {
        seqs::lemma_flat_all(all, f);
    }
    out
}

/// Finds the routes that may answer a tag, in their order.
pub fn find_candidate_routes(routes: &Vec<Route>, tag: &str) -> (r: Vec<Route>)
    ensures
        config::routes_view(r@) == candidates(config::routes_view(routes@), tag@),
{
    let exact = with_tag(routes, tag);
    assert(config::routes_view(exact@).len() == exact@.len());
    if !exact.is_empty() {
        return exact;
    }
    let auto = with_tag(routes, "auto");
    assert(config::routes_view(auto@).len() == auto@.len());
    if !auto.is_empty() {
        return auto;
    }
    all_enabled(routes)
}

/// A model has one of three tags, or none.
pub proof fn lemma_known_tag(model: Seq<char>)
    ensures
        match tag_of_parts(model_parts(model)) {
            Some(t) => t == "opus"@ || t == "sonnet"@ || t == "haiku"@,
            None => true,
        },
{
}

/// The parts of the name of a model, as it is written, each in lower case.
pub open spec fn written_parts(model: Seq<char>) -> Seq<Seq<char>> {
    let parts = text::split(model, "-_. /"@);
    Seq::new(parts.len(), |i: int| text::ascii_lowered(parts[i]))
}

proof fn lemma_separator(c: char)
    requires
        (c as u32) < 128,
    ensures
        "-_. /"@.contains(text::ascii_lower(c)) == "-_. /"@.contains(c),
{
    reveal_strlit("-_. /");
    let seps = "-_. /"@;
    assert(seps =~= seq!['-', '_', '.', ' ', '/']);
    let l = text::ascii_lower(c);
    if 'A' <= c <= 'Z' {
        assert('a' <= l <= 'z');
        if seps.contains(l) {
            let i = choose|i: int| 0 <= i < seps.len() && seps[i] == l;
            assert(false);
        }
        if seps.contains(c) {
            let i = choose|i: int| 0 <= i < seps.len() && seps[i] == c;
            assert(false);
        }
    }
}

proof fn lemma_lowered_pieces(s: Seq<char>)
    requires
        text::is_ascii(s),
    ensures
        ({
            let p = text::pieces(s, "-_. /"@);
            let q = text::pieces(text::ascii_lowered(s), "-_. /"@);
            &&& q.last == text::ascii_lowered(p.last)
            &&& q.before == Seq::new(p.before.len(), |i: int| text::ascii_lowered(p.before[i]))
        }),
    decreases s.len(),
{
    let seps = "-_. /"@;
    let t = text::ascii_lowered(s);
    let p = text::pieces(s, seps);
    let q = text::pieces(t, seps);
    if s.len() == 0 {
        assert(q.last =~= text::ascii_lowered(p.last));
        assert(q.before =~= Seq::new(p.before.len(), |i: int| text::ascii_lowered(p.before[i])));
    } else {
        assert forall|i: int| 0 <= i < s.drop_last().len() implies (#[trigger] s.drop_last()[i]
            as u32) < 128 by {
            assert(s.drop_last()[i] == s[i]);
        }
        lemma_lowered_pieces(s.drop_last());
        assert(t.drop_last() =~= text::ascii_lowered(s.drop_last()));
        assert((s[s.len() - 1] as u32) < 128);
        lemma_separator(s.last());
        assert(t.last() == text::ascii_lower(s.last()));
        assert(q.last =~= text::ascii_lowered(p.last));
        assert(q.before =~= Seq::new(p.before.len(), |i: int| text::ascii_lowered(p.before[i])));
    }
}

/// The parts of a name of ASCII are those that are written, each in lower case.
pub proof fn lemma_written_parts(model: Seq<char>)
    requires
        text::is_ascii(model),
    ensures
        model_parts(model) == written_parts(model),
{
    lemma_lowered_pieces(model);
    assert(model_parts(model) =~= written_parts(model));
}

proof fn lemma_times_counted(parts: Seq<Seq<char>>, t: Seq<char>)
    ensures
        times(parts, t) == parts.to_multiset().count(t),
    decreases parts.len(),
{
    broadcast use vstd::seq_lib::group_to_multiset_ensures;

    if parts.len() > 0 {
        lemma_times_counted(parts.drop_last(), t);
        assert(parts =~= parts.drop_last().push(parts.last()));
    }
}

/// The order of the parts of a name does not matter for its tag.
pub proof fn lemma_part_order(a: Seq<Seq<char>>, b: Seq<Seq<char>>)
    requires
        a.to_multiset() == b.to_multiset(),
    ensures
        tag_of_parts(a) == tag_of_parts(b),
{
    broadcast use vstd::seq_lib::group_to_multiset_ensures;

    assert forall|t: Seq<char>| #[trigger] a.contains(t) == b.contains(t) by {
        assert(a.contains(t) == (a.to_multiset().count(t) > 0));
        assert(b.contains(t) == (b.to_multiset().count(t) > 0));
    }
    lemma_times_counted(a, "5"@);
    lemma_times_counted(b, "5"@);
    let kimi_a = exists|i: int| 0 <= i < a.len() && is_kimi(#[trigger] a[i]);
    let kimi_b = exists|i: int| 0 <= i < b.len() && is_kimi(#[trigger] b[i]);
    if kimi_a {
        let i = choose|i: int| 0 <= i < a.len() && is_kimi(#[trigger] a[i]);
        assert(a.contains(a[i]));
        let k = choose|k: int| 0 <= k < b.len() && b[k] == a[i];
        assert(is_kimi(b[k]));
    }
    if kimi_b {
        let i = choose|i: int| 0 <= i < b.len() && is_kimi(#[trigger] b[i]);
        assert(b.contains(b[i]));
        assert(a.contains(b[i]));
        let k = choose|k: int| 0 <= k < a.len() && a[k] == b[i];
        assert(is_kimi(a[k]));
    }
    assert(a.contains("opus"@) == b.contains("opus"@));
    assert(a.contains("sonnet"@) == b.contains("sonnet"@));
    assert(a.contains("haiku"@) == b.contains("haiku"@));
    assert(a.contains("gpt"@) == b.contains("gpt"@));
    assert(a.contains("mini"@) == b.contains("mini"@));
    assert(a.contains("2"@) == b.contains("2"@));
    assert(a.contains("glm"@) == b.contains("glm"@));
    assert(a.contains("deepseek"@) == b.contains("deepseek"@));
}

/// Two names of ASCII have the same tag where they have the same parts, each as often,
/// whatever their order, the case of their letters, and the separators between them.
pub proof fn lemma_same_tag(a: Seq<char>, b: Seq<char>)
    requires
        text::is_ascii(a),
        text::is_ascii(b),
        written_parts(a).to_multiset() == written_parts(b).to_multiset(),
    ensures
        tag_of_parts(model_parts(a)) == tag_of_parts(model_parts(b)),
{
    lemma_written_parts(a);
    lemma_written_parts(b);
    lemma_part_order(model_parts(a), model_parts(b));
}

/// Whether two names differ at most in the case of letters and in the separators that stand
/// at the same places.
pub open spec fn written_alike(a: Seq<char>, b: Seq<char>) -> bool {
    a.len() == b.len() && forall|i: int|
        0 <= i < a.len() ==> text::ascii_lower(#[trigger] a[i]) == text::ascii_lower(b[i]) || (
        "-_. /"@.contains(a[i]) && "-_. /"@.contains(b[i]))
}

proof fn lemma_alike_pieces(a: Seq<char>, b: Seq<char>)
    requires
        text::is_ascii(a),
        text::is_ascii(b),
        written_alike(a, b),
    ensures
        text::pieces(text::ascii_lowered(a), "-_. /"@) == text::pieces(
            text::ascii_lowered(b),
            "-_. /"@,
        ),
    decreases a.len(),
{
    let x = text::ascii_lowered(a);
    let y = text::ascii_lowered(b);
    if a.len() > 0 {
        let a1 = a.drop_last();
        let b1 = b.drop_last();
        assert forall|i: int| 0 <= i < a1.len() implies (#[trigger] a1[i] as u32) < 128 by {
            assert(a1[i] == a[i]);
        }
        assert forall|i: int| 0 <= i < b1.len() implies (#[trigger] b1[i] as u32) < 128 by {
            assert(b1[i] == b[i]);
        }
        assert(written_alike(a1, b1)) by {
            assert forall|i: int| 0 <= i < a1.len() implies text::ascii_lower(#[trigger] a1[i])
                == text::ascii_lower(b1[i]) || ("-_. /"@.contains(a1[i]) && "-_. /"@.contains(
                b1[i],
            )) by {
                assert(a1[i] == a[i]);
            }
        }
        lemma_alike_pieces(a1, b1);
        assert(x.drop_last() =~= text::ascii_lowered(a1));
        assert(y.drop_last() =~= text::ascii_lowered(b1));
        let n = a.len() - 1;
        assert((a[n] as u32) < 128 && (b[n] as u32) < 128);
        assert(text::ascii_lower(a[n]) == text::ascii_lower(b[n]) || ("-_. /"@.contains(a[n])
            && "-_. /"@.contains(b[n])));
        lemma_separator(a[n]);
        lemma_separator(b[n]);
        assert(x.last() == text::ascii_lower(a[n]) && y.last() == text::ascii_lower(b[n]));
    } else {
        assert(x =~= y);
    }
}

/// The case of letters does not matter for the tag of a name of ASCII, nor which separators
/// stand between its parts.
pub proof fn lemma_case_and_separators(a: Seq<char>, b: Seq<char>)
    requires
        text::is_ascii(a),
        text::is_ascii(b),
        written_alike(a, b),
    ensures
        model_parts(a) == model_parts(b),
        tag_of_parts(model_parts(a)) == tag_of_parts(model_parts(b)),
{
    lemma_alike_pieces(a, b);
}

/// A name with the part "opus", in any case, has that tag, whatever else it holds.
pub proof fn lemma_opus(model: Seq<char>)
    requires
        text::is_ascii(model),
        written_parts(model).contains("opus"@),
    ensures
        tag_of_parts(model_parts(model)) == Some("opus"@),
{
    lemma_written_parts(model);
}

/// A name with the part "sonnet" in any case, and without "opus", has that tag, whatever else
/// it holds.
pub proof fn lemma_sonnet(model: Seq<char>)
    requires
        text::is_ascii(model),
        written_parts(model).contains("sonnet"@),
        !written_parts(model).contains("opus"@),
    ensures
        tag_of_parts(model_parts(model)) == Some("sonnet"@),
{
    lemma_written_parts(model);
}

/// A name with the part "haiku" in any case, and with neither "opus" nor "sonnet", has that
/// tag, whatever else it holds.
pub proof fn lemma_haiku(model: Seq<char>)
    requires
        text::is_ascii(model),
        written_parts(model).contains("haiku"@),
        !written_parts(model).contains("opus"@),
        !written_parts(model).contains("sonnet"@),
    ensures
        tag_of_parts(model_parts(model)) == Some("haiku"@),
{
    lemma_written_parts(model);
}

/// Whether none of the three tags is a part of a name.
pub open spec fn names_no_tag(model: Seq<char>) -> bool {
    let parts = written_parts(model);
    !parts.contains("opus"@) && !parts.contains("sonnet"@) && !parts.contains("haiku"@)
}

/// Of the GPT models that name no tag, those with "5" twice stand for opus, the others with
/// "mini" or "2" for haiku, and the rest for sonnet, whatever else the names hold.
pub proof fn lemma_gpt(model: Seq<char>)
    requires
        text::is_ascii(model),
        names_no_tag(model),
        written_parts(model).contains("gpt"@),
    ensures
        ({
            let parts = written_parts(model);
            let fives = parts.to_multiset().count("5"@);
            let small = parts.contains("mini"@) || parts.contains("2"@);
            let tag = tag_of_parts(model_parts(model));
            &&& fives >= 2 ==> tag == Some("opus"@)
            &&& fives < 2 && small ==> tag == Some("haiku"@)
            &&& fives < 2 && !small ==> tag == Some("sonnet"@)
        }),
{
    lemma_written_parts(model);
    lemma_times_counted(model_parts(model), "5"@);
}

/// The models of other makers that name no tag: GLM stands for sonnet, DeepSeek for haiku, and
/// Kimi, which a part that starts with "kimi" or is "k2" tells, for sonnet, whatever else the
/// names hold.
pub proof fn lemma_other_makers(model: Seq<char>)
    requires
        text::is_ascii(model),
        names_no_tag(model),
        !written_parts(model).contains("gpt"@),
    ensures
        ({
            let parts = written_parts(model);
            let tag = tag_of_parts(model_parts(model));
            let kimi = exists|i: int|
                0 <= i < parts.len() && (#[trigger] parts[i] == "k2"@ || "kimi"@.is_prefix_of(
                    parts[i],
                ));
            &&& parts.contains("glm"@) ==> tag == Some("sonnet"@)
            &&& !parts.contains("glm"@) && parts.contains("deepseek"@) ==> tag == Some("haiku"@)
            &&& !parts.contains("glm"@) && !parts.contains("deepseek"@) && kimi ==> tag == Some(
                "sonnet"@,
            )
            &&& !parts.contains("glm"@) && !parts.contains("deepseek"@) && !kimi ==> tag is None
        }),
{
    lemma_written_parts(model);
    let parts = written_parts(model);
    assert forall|i: int| 0 <= i < parts.len() implies is_kimi(#[trigger] parts[i]) == (parts[i]
        == "k2"@ || "kimi"@.is_prefix_of(parts[i])) by {
        if text::starts(parts[i], "kimi"@) {
            assert(parts[i].take("kimi"@.len() as int) == "kimi"@);
        }
        if "kimi"@.is_prefix_of(parts[i]) {
            assert(parts[i].take("kimi"@.len() as int) =~= "kimi"@);
        }
    }
}

/// A request whose model has a tag goes by it, whatever the current tag is, and any other
/// request by the current tag.
pub proof fn lemma_tag_before_current(model: Seq<char>, current_tag: Seq<char>)
    ensures
        tag_of_parts(model_parts(model)) is None ==> tag_of_request(model, current_tag)
            == current_tag,
        tag_of_parts(model_parts(model)) is Some ==> tag_of_parts(model_parts(model)) == Some(
            tag_of_request(model, current_tag),
        ),
{
}

proof fn lemma_flat_filter(s: Seq<RouteV>, f: spec_fn(RouteV) -> Seq<RouteV>, p: spec_fn(RouteV) -> bool)
    requires
        forall|r: RouteV|
            #[trigger] f(r) == if p(r) {
                seq![r]
            } else {
                Seq::<RouteV>::empty()
            },
    ensures
        seqs::flat(s, f) == s.filter(p),
    decreases s.len(),
{
    reveal(Seq::filter);
    if s.len() > 0 {
        lemma_flat_filter(s.drop_last(), f, p);
        assert(f(s.last()) == if p(s.last()) {
            seq![s.last()]
        } else {
            Seq::<RouteV>::empty()
        });
        assert(seqs::flat(s, f) =~= s.filter(p));
    } else {
        assert(seqs::flat(s, f) =~= s.filter(p));
    }
}

/// The candidates for a tag are the enabled routes with it, all of them and in their order;
/// where there is none, those with "auto"; where there is none of these either, every enabled
/// route.
pub proof fn lemma_candidates(routes: Seq<RouteV>, tag: Seq<char>)
    ensures
        ({
            let own = routes.filter(|r: RouteV| r.enabled && r.tags.contains(tag));
            let auto = routes.filter(|r: RouteV| r.enabled && r.tags.contains("auto"@));
            &&& own.len() > 0 ==> candidates(routes, tag) == own
            &&& own.len() == 0 && auto.len() > 0 ==> candidates(routes, tag) == auto
            &&& own.len() == 0 && auto.len() == 0 ==> candidates(routes, tag) == routes.filter(
                |r: RouteV| r.enabled,
            )
        }),
{
    lemma_flat_filter(
        routes,
        tagged_fn(tag),
        |r: RouteV| r.enabled && r.tags.contains(tag),
    );
    lemma_flat_filter(
        routes,
        tagged_fn("auto"@),
        |r: RouteV| r.enabled && r.tags.contains("auto"@),
    );
    lemma_flat_filter(routes, enabled_fn(), |r: RouteV| r.enabled);
}

/// A request whose model has no tag goes the way of the current tag; where that is "auto",
/// its candidates are the enabled routes with that tag, where there are any.
pub proof fn lemma_unknown_model(model: Seq<char>, routes: Seq<RouteV>)
    requires
        tag_of_parts(model_parts(model)) is None,
        seqs::flat(routes, tagged_fn("auto"@)).len() > 0,
    ensures
        candidates(routes, tag_of_request(model, "auto"@)) == seqs::flat(
            routes,
            tagged_fn("auto"@),
        ),
{
}

proof fn lemma_kept(s: Seq<RouteV>, f: spec_fn(RouteV) -> Seq<RouteV>)
    requires
        forall|r: RouteV| #[trigger] f(r) == Seq::<RouteV>::empty() || (f(r) == seq![r] && r.enabled),
    ensures
        forall|i: int|
            0 <= i < seqs::flat(s, f).len() ==> s.contains(#[trigger] seqs::flat(s, f)[i])
                && seqs::flat(s, f)[i].enabled,
    decreases s.len(),
{
    if s.len() > 0 {
        let t = s.drop_last();
        lemma_kept(t, f);
        assert forall|i: int| 0 <= i < seqs::flat(s, f).len() implies s.contains(
            #[trigger] seqs::flat(s, f)[i],
        ) && seqs::flat(s, f)[i].enabled by {
            if i < seqs::flat(t, f).len() {
                assert(seqs::flat(s, f)[i] == seqs::flat(t, f)[i]);
                let r = seqs::flat(t, f)[i];
                assert(t.contains(r));
                let k = choose|k: int| 0 <= k < t.len() && t[k] == r;
                assert(s[k] == r);
            } else {
                assert(f(s.last()) == seq![s.last()]);
                assert(seqs::flat(s, f)[i] == s.last());
                assert(s[s.len() - 1] == s.last());
            }
        }
    }
}

proof fn lemma_enabled_kept(s: Seq<RouteV>, k: int)
    requires
        0 <= k < s.len(),
        s[k].enabled,
    ensures
        seqs::flat(s, enabled_fn()).len() > 0,
    decreases s.len(),
{
    if k < s.len() - 1 {
        lemma_enabled_kept(s.drop_last(), k);
    } else {
        assert(enabled_fn()(s.last()).len() == 1);
    }
}

/// Every candidate is an enabled route of the configuration.
pub proof fn lemma_candidates_enabled(routes: Seq<RouteV>, tag: Seq<char>)
    ensures
        forall|i: int|
            0 <= i < candidates(routes, tag).len() ==> routes.contains(
                #[trigger] candidates(routes, tag)[i],
            ) && candidates(routes, tag)[i].enabled,
{
    lemma_kept(routes, tagged_fn(tag));
    lemma_kept(routes, tagged_fn("auto"@));
    lemma_kept(routes, enabled_fn());
}

/// No request is lost while a route is enabled: there is then a candidate for every tag.
pub proof fn lemma_no_request_lost(routes: Seq<RouteV>, tag: Seq<char>)
    ensures
        candidates(routes, tag).len() > 0 <==> exists|k: int|
            0 <= k < routes.len() && (#[trigger] routes[k]).enabled,
{
    if exists|k: int| 0 <= k < routes.len() && (#[trigger] routes[k]).enabled {
        let k = choose|k: int| 0 <= k < routes.len() && (#[trigger] routes[k]).enabled;
        lemma_enabled_kept(routes, k);
    }
    if candidates(routes, tag).len() > 0 {
        lemma_candidates_enabled(routes, tag);
        let r = candidates(routes, tag)[0];
        assert(routes.contains(r) && r.enabled);
        let k = choose|k: int| 0 <= k < routes.len() && routes[k] == r;
        assert(routes[k].enabled);
    }
}

/// A word of small letters that stands in a name of ASCII in any case, between separators or at
/// an end of the name, is one of its parts.
pub proof fn lemma_word_is_part(a: Seq<char>, w: Seq<char>, b: Seq<char>, word: Seq<char>)
    requires
        text::is_ascii(a + w + b),
        text::ascii_lowered(w) == word,
        a.len() == 0 || "-_. /"@.contains(a.last()),
        b.len() == 0 || "-_. /"@.contains(b[0]),
        forall|i: int| 0 <= i < w.len() ==> !"-_. /"@.contains(#[trigger] w[i]),
    ensures
        written_parts(a + w + b).contains(word),
{
    text::lemma_part(a, w, b, "-_. /"@);
    let parts = text::split(a + w + b, "-_. /"@);
    let i = choose|i: int| 0 <= i < parts.len() && parts[i] == w;
    assert(written_parts(a + w + b)[i] == word);
}

} // verus!
