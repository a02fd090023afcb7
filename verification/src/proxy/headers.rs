//! The headers of a client that go on to the provider.

use vstd::prelude::*;

use crate::seqs;
use crate::text;
use crate::text::{contains, same, split_any, to_lowercase, trim};

verus! {

/// A header: its name, and its value where that is text.
#[verifier::ext_equal]
pub struct HeaderV {
    pub name: Seq<char>,
    pub value: Option<Seq<char>>,
}

/// A header: its name, and its value where that is text.
pub struct Header {
    pub name: String,
    pub value: Option<String>,
}

impl View for Header {
    type V = HeaderV;

    open spec fn view(&self) -> HeaderV {
        HeaderV {
            name: self.name@,
            value: match self.value {
                Some(s) => Some(s@),
                None => None,
            },
        }
    }
}

/// The headers that end at the proxy: those of one connection alone, and those with keys.
pub open spec fn ends_here(lower: Seq<char>) -> bool {
    lower == "host"@ || lower == "content-length"@ || lower == "transfer-encoding"@ || lower
        == "connection"@ || lower == "accept-encoding"@ || lower == "authorization"@ || lower
        == "x-api-key"@ || lower == "x-goog-api-key"@ || lower == "keep-alive"@ || lower
        == "te"@ || lower == "trailer"@ || lower == "upgrade"@ || lower == "proxy-authenticate"@
        || lower == "proxy-authorization"@
}

fn is_local(lower: &str) -> (r: bool)
    ensures
        r == ends_here(lower@),
{
    same(lower, "host") || same(lower, "content-length") || same(lower, "transfer-encoding")
        || same(lower, "connection") || same(lower, "accept-encoding") || same(
        lower,
        "authorization",
    ) || same(lower, "x-api-key") || same(lower, "x-goog-api-key") || same(
        lower,
        "keep-alive",
    ) || same(lower, "te") || same(lower, "trailer") || same(lower, "upgrade") || same(
        lower,
        "proxy-authenticate",
    ) || same(lower, "proxy-authorization")
}

/// A flag of a list, without white space round it, where it is not about thinking.
pub open spec fn kept_flag(flag: Seq<char>) -> Seq<Seq<char>> {
    let t = text::trimmed(flag);
    if text::holds(t, "thinking"@) {
        Seq::empty()
    } else {
        seq![t]
    }
}

pub open spec fn kept_flag_fn() -> spec_fn(Seq<char>) -> Seq<Seq<char>> {
    |flag: Seq<char>| kept_flag(flag)
}

/// The flags of a list that are not about thinking.
pub open spec fn kept_flags(value: Seq<char>) -> Seq<Seq<char>> {
    seqs::flat(text::split(value, ","@), kept_flag_fn())
}

fn keep_flags(value: &str) -> (r: Vec<String>)
    ensures
        text::texts(r@) == kept_flags(value@),
{
    let flags = split_any(value, ",");
    let ghost all = text::texts(flags@);
    let ghost f = kept_flag_fn();
    let mut out: Vec<String> = Vec::new();
    let n: usize = flags.len();
    proof {
        seqs::lemma_flat_all(all, f);
        assert(text::texts(out@) =~= Seq::<Seq<char>>::empty());
    }
    for i in 0..n
        invariant
            n == flags@.len(),
            all == text::texts(flags@),
            f == kept_flag_fn(),
            text::texts(out@) == seqs::flat(all.take(i as int), f),
    {
        let ghost before = text::texts(out@);
        let t = trim(flags[i].as_str());
        if !contains(t, "thinking") {
            out.push(t.to_owned());
        }
        proof {
            seqs::lemma_flat_step(all, i as int, f);
            assert(text::texts(out@) =~= before + f(all[i as int]));
        }
    }
    proof {
        seqs::lemma_flat_all(all, f);
    }
    out
}

/// The header that a client's header becomes, by its name in lower case: none where it
/// ends at the proxy or is not text, and without what is about thinking.
pub open spec fn passed(h: HeaderV, lower: Seq<char>) -> Option<(Seq<char>, Seq<char>)> {
    match h.value {
        None => None,
        Some(v) => if ends_here(lower) {
            None
        } else if lower == "anthropic-beta"@ {
            if kept_flags(v).len() > 0 {
                Some(("anthropic-beta"@, text::joined(kept_flags(v), ", "@)))
            } else {
                None
            }
        } else {
            Some((h.name, v))
        },
    }
}

/// The header that a client's header becomes.
pub open spec fn forwarded(h: HeaderV) -> Option<(Seq<char>, Seq<char>)> {
    passed(h, text::lowered(h.name))
}

/// The view of a header that may be missing.
pub open spec fn opt_pair(o: Option<(String, String)>) -> Option<(Seq<char>, Seq<char>)> {
    match o {
        Some(p) => Some((p.0@, p.1@)),
        None => None,
    }
}

/// The header that a client's header becomes, by its name in lower case.
pub fn pass_header(h: &Header, lower: &str) -> (r: Option<(String, String)>)
    ensures
        opt_pair(r) == passed(h@, lower@),
{
    match &h.value {
        None => None,
        Some(v) => {
            if is_local(lower) {
                None
            } else if same(lower, "anthropic-beta") {
                let flags = keep_flags(v.as_str());
                assert(text::texts(flags@).len() == flags@.len());
                if flags.is_empty() {
                    None
                } else {
                    Some(("anthropic-beta".to_owned(), text::join(&flags, ", ")))
                }
            } else {
                Some((h.name.clone(), v.clone()))
            }
        },
    }
}

/// The views of headers that go on.
pub open spec fn pairs_view(s: Seq<(String, String)>) -> Seq<(Seq<char>, Seq<char>)> {
    Seq::new(s.len(), |i: int| (s[i].0@, s[i].1@))
}

/// The views of headers of a client.
pub open spec fn headers_view(s: Seq<Header>) -> Seq<HeaderV> {
    Seq::new(s.len(), |i: int| s[i]@)
}

pub open spec fn forwarded_fn() -> spec_fn(HeaderV) -> Seq<(Seq<char>, Seq<char>)> {
    |h: HeaderV|
        match forwarded(h) {
            Some(p) => seq![p],
            None => Seq::empty(),
        }
}

/// The headers of a client that go on to the provider, in their order.
pub fn forward_client_headers(headers: &Vec<Header>) -> (r: Vec<(String, String)>)
    ensures
        pairs_view(r@) == seqs::flat(headers_view(headers@), forwarded_fn()),
{
    let ghost all = headers_view(headers@);
    let ghost f = forwarded_fn();
    let mut out: Vec<(String, String)> = Vec::new();
    let n: usize = headers.len();
    proof {
        seqs::lemma_flat_all(all, f);
        assert(pairs_view(out@) =~= Seq::<(Seq<char>, Seq<char>)>::empty());
    }
    for i in 0..n
        invariant
            n == headers@.len(),
            all == headers_view(headers@),
            f == forwarded_fn(),
            pairs_view(out@) == seqs::flat(all.take(i as int), f),
    {
        let ghost before = pairs_view(out@);
        let lower = to_lowercase(headers[i].name.as_str());
        let p = pass_header(&headers[i], lower.as_str());
        if let Some(p) = p {
            out.push(p);
        }
        proof {
            seqs::lemma_flat_step(all, i as int, f);
            assert(pairs_view(out@) =~= before + f(all[i as int]));
        }
    }
    proof {
        seqs::lemma_flat_all(all, f);
    }
    out
}

/// No header that ends at the proxy goes on, and a header that goes on keeps its name and
/// its value, but for flags about thinking.
pub proof fn lemma_passed_header(h: HeaderV)
    ensures
        match forwarded(h) {
            Some(p) => !ends_here(text::lowered(h.name)) && (text::lowered(h.name)
                != "anthropic-beta"@ ==> p.0 == h.name && h.value == Some(p.1)),
            None => ends_here(text::lowered(h.name)) || h.value is None || text::lowered(h.name)
                == "anthropic-beta"@,
        },
{
}

proof fn lemma_flag_kept(flags: Seq<Seq<char>>, i: int)
    requires
        0 <= i < seqs::flat(flags, kept_flag_fn()).len(),
    ensures
        !text::holds(seqs::flat(flags, kept_flag_fn())[i], "thinking"@),
    decreases flags.len(),
{
    if flags.len() > 0 {
        let before = seqs::flat(flags.drop_last(), kept_flag_fn());
        if i < before.len() {
            lemma_flag_kept(flags.drop_last(), i);
        }
    }
}

/// No flag that goes on is about thinking.
pub proof fn lemma_no_thinking_flag(value: Seq<char>)
    ensures
        forall|i: int|
            0 <= i < kept_flags(value).len() ==> !text::holds(
                #[trigger] kept_flags(value)[i],
                "thinking"@,
            ),
{
    assert forall|i: int| 0 <= i < kept_flags(value).len() implies !text::holds(
        #[trigger] kept_flags(value)[i],
        "thinking"@,
    ) by {
        lemma_flag_kept(text::split(value, ","@), i);
    }
}

/// A flag that is not about thinking goes on, without the white space round it.
pub proof fn lemma_other_flags_kept(value: Seq<char>, i: int)
    requires
        0 <= i < text::split(value, ","@).len(),
        !text::holds(text::trimmed(text::split(value, ","@)[i]), "thinking"@),
    ensures
        kept_flags(value).contains(text::trimmed(text::split(value, ","@)[i])),
{
    let parts = text::split(value, ","@);
    seqs::lemma_flat_holds(parts, kept_flag_fn(), i, 0);
    let t = text::trimmed(parts[i]);
    assert(kept_flag_fn()(parts[i])[0] == t);
    let p = choose|p: int| 0 <= p < kept_flags(value).len() && #[trigger] kept_flags(value)[p] == t;
    assert(kept_flags(value)[p] == t);
}

/// The key of the client never reaches a provider: a header of ASCII that carries one goes no
/// further, however it is written.
pub proof fn lemma_keys_end_here(h: HeaderV)
    requires
        text::is_ascii(h.name),
        is_of_key(text::ascii_lowered(h.name)),
    ensures
        forwarded(h) is None,
{
}

/// Any other header goes on as it is, but for those of the connection and the flags of
/// Anthropic.
pub proof fn lemma_other_headers_pass(h: HeaderV, v: Seq<char>)
    requires
        h.value == Some(v),
        text::is_ascii(h.name),
        !is_of_connection(text::ascii_lowered(h.name)),
        !is_of_key(text::ascii_lowered(h.name)),
        text::ascii_lowered(h.name) != "anthropic-beta"@,
    ensures
        forwarded(h) == Some((h.name, v)),
{
}

/// Whether a header is about one connection only.
pub open spec fn is_of_connection(lower: Seq<char>) -> bool {
    lower == "host"@ || lower == "content-length"@ || lower == "transfer-encoding"@ || lower
        == "connection"@ || lower == "accept-encoding"@ || lower == "keep-alive"@ || lower
        == "te"@ || lower == "trailer"@ || lower == "upgrade"@ || lower == "proxy-authenticate"@
        || lower == "proxy-authorization"@
}

/// Whether a header carries the key of a client.
pub open spec fn is_of_key(lower: Seq<char>) -> bool {
    lower == "authorization"@ || lower == "x-api-key"@ || lower == "x-goog-api-key"@
}

} // verus!
