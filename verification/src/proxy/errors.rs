//! Why a request could not be answered.

use vstd::prelude::*;

use crate::json::{self, Json, JsonV};
use crate::text;
use crate::text::{concat2, concat3, contains, to_chars, to_lowercase};

verus! {

/// Why a request could not be answered.
#[derive(Debug)]
pub enum ProxyError {
    NoRoute(String),
    NoProvider(String),
    Upstream(String),
}

/// What an error is.
pub enum ProxyErrorV {
    NoRoute(Seq<char>),
    NoProvider(Seq<char>),
    Upstream(Seq<char>),
}

impl View for ProxyError {
    type V = ProxyErrorV;

    open spec fn view(&self) -> ProxyErrorV {
        match self {
            ProxyError::NoRoute(s) => ProxyErrorV::NoRoute(s@),
            ProxyError::NoProvider(s) => ProxyErrorV::NoProvider(s@),
            ProxyError::Upstream(s) => ProxyErrorV::Upstream(s@),
        }
    }
}

impl Clone for ProxyError {
    fn clone(&self) -> (r: ProxyError)
        ensures
            r@ == self@,
    {
        match self {
            ProxyError::NoRoute(s) => ProxyError::NoRoute(s.clone()),
            ProxyError::NoProvider(s) => ProxyError::NoProvider(s.clone()),
            ProxyError::Upstream(s) => ProxyError::Upstream(s.clone()),
        }
    }
}

/// The text of an error.
pub open spec fn error_text(e: ProxyErrorV) -> Seq<char> {
    match e {
        ProxyErrorV::NoRoute(s) => "no route for tag '"@ + s + "'"@,
        ProxyErrorV::NoProvider(s) => "provider '"@ + s + "' not found"@,
        ProxyErrorV::Upstream(s) => "upstream error: "@ + s,
    }
}

/// The status that an error is answered with.
pub open spec fn error_status(e: ProxyErrorV) -> u16 {
    match e {
        ProxyErrorV::Upstream(_) => 502,
        _ => 400,
    }
}

/// The body that an error is answered with.
pub open spec fn error_body(message: Seq<char>) -> JsonV {
    json::jobj().put("error"@, JsonV::Str(message))
}

/// Makes the body that an error is answered with.
pub fn make_error_body(message: &str) -> (r: Json)
    ensures
        r@ == error_body(message@),
{
    Json::object().put("error", Json::str(message))
}

impl ProxyError {
    /// The text of the error.
    pub fn message(&self) -> (r: String)
        ensures
            r@ == error_text(self@),
    {
        match self {
            ProxyError::NoRoute(s) => concat3("no route for tag '", s.as_str(), "'"),
            ProxyError::NoProvider(s) => concat3("provider '", s.as_str(), "' not found"),
            ProxyError::Upstream(s) => concat2("upstream error: ", s.as_str()),
        }
    }

    /// The status that the error is answered with.
    pub fn status(&self) -> (r: u16)
        ensures
            r == error_status(self@),
    {
        match self {
            ProxyError::Upstream(_) => 502,
            _ => 400,
        }
    }

    /// The body that the error is answered with.
    pub fn body(&self) -> (r: Json)
        ensures
            r@ == error_body(error_text(self@)),
    {
        make_error_body(self.message().as_str())
    }
}

/// The words that tell an error of the connection.
pub open spec fn retry_words() -> Seq<Seq<char>> {
    seq![
        "connection"@,
        "timeout"@,
        "dns"@,
        "tls"@,
        "reset"@,
        "eof"@,
        "broken pipe"@,
        "refused"@,
        "unreachable"@,
    ]
}

/// Whether a text holds one of some words.
pub open spec fn holds_any(s: Seq<char>, words: Seq<Seq<char>>) -> bool {
    exists|i: int| 0 <= i < words.len() && text::holds(s, #[trigger] words[i])
}

/// Whether a character is a digit.
pub open spec fn is_digit(c: char) -> bool {
    '0' <= c <= '9'
}

/// Whether the status of an error of the server stands at a place in a text.
pub open spec fn server_error_at(s: Seq<char>, i: int) -> bool {
    &&& 0 <= i
    &&& i + 8 <= s.len()
    &&& s.subrange(i, i + 6) == "http 5"@
    &&& is_digit(s[i + 6])
    &&& is_digit(s[i + 7])
}

/// Whether a text tells an error of the server: a status from 500 to 599.
pub open spec fn holds_server_error(s: Seq<char>) -> bool {
    exists|i: int| server_error_at(s, i)
}

/// Whether a text, in lower case, tells an error of the connection, or of the server
/// behind it.
pub open spec fn tells_retry(lower: Seq<char>) -> bool {
    holds_any(lower, retry_words()) || holds_server_error(lower)
}

/// Whether another route may be tried after an error: after one of the connection, or of
/// the server behind it.
pub open spec fn retryable(e: ProxyErrorV) -> bool {
    match e {
        ProxyErrorV::Upstream(s) => tells_retry(text::lowered(s)),
        _ => false,
    }
}

/// Whether a text tells an error of the connection.
fn has_retry_word(lower: &str) -> (r: bool)
    ensures
        r == holds_any(lower@, retry_words()),
{
    let ghost w = retry_words();
    assert(w[0] == "connection"@ && w[1] == "timeout"@ && w[2] == "dns"@ && w[3] == "tls"@ && w[4]
        == "reset"@ && w[5] == "eof"@ && w[6] == "broken pipe"@ && w[7] == "refused"@ && w[8]
        == "unreachable"@);
    assert(w.len() == 9);
    let r = contains(lower, "connection") || contains(lower, "timeout") || contains(lower, "dns")
        || contains(lower, "tls") || contains(lower, "reset") || contains(lower, "eof") || contains(
        lower,
        "broken pipe",
    ) || contains(lower, "refused") || contains(lower, "unreachable");
    r
}

/// Whether a text tells an error of the server.
fn has_server_error(lower: &str) -> (r: bool)
    ensures
        r == holds_server_error(lower@),
{
    proof {
        reveal_strlit("http 5");
    }
    let c = to_chars(lower);
    let n: usize = c.len();
    let mut i: usize = 0;
    while i < n && n - i >= 8
        invariant
            i <= n,
            n == c@.len(),
            c@ == lower@,
            "http 5"@ =~= seq!['h', 't', 't', 'p', ' ', '5'],
            forall|k: int| 0 <= k < i ==> !server_error_at(lower@, k),
        decreases n - i,
    {
        let word = c[i] == 'h' && c[i + 1] == 't' && c[i + 2] == 't' && c[i + 3] == 'p' && c[i + 4]
            == ' ' && c[i + 5] == '5';
        assert(word == (lower@.subrange(i as int, i + 6) == "http 5"@)) by {
            let t = lower@.subrange(i as int, i + 6);
            if word {
                assert(t =~= "http 5"@);
            } else if t == "http 5"@ {
                assert(t[0] == 'h' && t[1] == 't' && t[2] == 't' && t[3] == 'p' && t[4] == ' '
                    && t[5] == '5');
            }
        }
        if word && '0' <= c[i + 6] && c[i + 6] <= '9' && '0' <= c[i + 7] && c[i + 7] <= '9' {
            assert(server_error_at(lower@, i as int));
            return true;
        }
        i = i + 1;
    }
    false
}

/// Whether another route may be tried after an error, by its text in lower case.
pub fn is_retry_text(lower: &str) -> (r: bool)
    ensures
        r == tells_retry(lower@),
{
    has_retry_word(lower) || has_server_error(lower)
}

/// Whether another route may be tried after an error.
pub fn is_retryable(err: &ProxyError) -> (r: bool)
    ensures
        r == retryable(err@),
{
    match err {
        ProxyError::Upstream(s) => is_retry_text(to_lowercase(s.as_str()).as_str()),
        _ => false,
    }
}

/// Every status from 500 to 599 is told as an error after which another route may be
/// tried, whatever stands round it.
pub proof fn lemma_server_error_retried(before: Seq<char>, d: char, e: char, after: Seq<char>)
    requires
        is_digit(d),
        is_digit(e),
    ensures
        tells_retry(before + "http 5"@ + seq![d, e] + after),
{
    reveal_strlit("http 5");
    let s = before + "http 5"@ + seq![d, e] + after;
    let i = before.len() as int;
    assert(s.subrange(i, i + 6) =~= "http 5"@);
    assert(server_error_at(s, i));
}

/// After an answer with a status from 500 to 599 another route may be tried, whatever the
/// answer says in ASCII.
pub proof fn lemma_status_retried(d: char, e: char, body: Seq<char>)
    requires
        is_digit(d),
        is_digit(e),
        text::is_ascii(body),
    ensures
        retryable(ProxyErrorV::Upstream("HTTP 5"@ + seq![d, e] + ": "@ + body)),
{
    reveal_strlit("HTTP 5");
    reveal_strlit("http 5");
    reveal_strlit(": ");
    let s = "HTTP 5"@ + seq![d, e] + ": "@ + body;
    let head = "HTTP 5"@ + seq![d, e] + ": "@;
    assert(text::is_ascii(s)) by {
        assert forall|i: int| 0 <= i < s.len() implies (#[trigger] s[i] as u32) < 128 by {
            if i >= head.len() {
                assert(s[i] == body[i - head.len()]);
            }
        }
    }
    let lower = text::ascii_lowered(s);
    let after = lower.skip(8);
    assert(lower =~= Seq::<char>::empty() + "http 5"@ + seq![d, e] + after);
    lemma_server_error_retried(Seq::empty(), d, e, after);
}

/// An error that tells in ASCII of the connection, of a timeout, of a name that was not found or
/// of the like, in any case of its letters, is one after which another route may be tried.
pub proof fn lemma_words_retried(message: Seq<char>, word: Seq<char>)
    requires
        text::is_ascii(message),
        text::holds(text::ascii_lowered(message), word),
        word == "connection"@ || word == "timeout"@ || word == "dns"@ || word == "tls"@ || word
            == "reset"@ || word == "eof"@ || word == "broken pipe"@ || word == "refused"@ || word
            == "unreachable"@,
    ensures
        retryable(ProxyErrorV::Upstream(message)),
{
    let words = retry_words();
    let k: int = if word == "connection"@ {
        0
    } else if word == "timeout"@ {
        1
    } else if word == "dns"@ {
        2
    } else if word == "tls"@ {
        3
    } else if word == "reset"@ {
        4
    } else if word == "eof"@ {
        5
    } else if word == "broken pipe"@ {
        6
    } else if word == "refused"@ {
        7
    } else {
        8
    };
    assert(words[k] == word);
    assert(holds_any(text::ascii_lowered(message), words));
}

/// An error that tells of none of these, and of no status from 500 to 599, is not.
pub proof fn lemma_others_not_retried(message: Seq<char>)
    requires
        text::is_ascii(message),
        ({
            let lower = text::ascii_lowered(message);
            &&& !text::holds(lower, "connection"@)
            &&& !text::holds(lower, "timeout"@)
            &&& !text::holds(lower, "dns"@)
            &&& !text::holds(lower, "tls"@)
            &&& !text::holds(lower, "reset"@)
            &&& !text::holds(lower, "eof"@)
            &&& !text::holds(lower, "broken pipe"@)
            &&& !text::holds(lower, "refused"@)
            &&& !text::holds(lower, "unreachable"@)
            &&& !text::holds(lower, "http 5"@)
        }),
    ensures
        !retryable(ProxyErrorV::Upstream(message)),
        !retryable(ProxyErrorV::NoRoute(message)),
        !retryable(ProxyErrorV::NoProvider(message)),
{
    let lower = text::ascii_lowered(message);
    if holds_any(lower, retry_words()) {
        let words = retry_words();
        let i = choose|i: int| 0 <= i < words.len() && text::holds(lower, #[trigger] words[i]);
        assert(words.len() == 9);
        assert(false);
    }
    if holds_server_error(lower) {
        let i = choose|i: int| server_error_at(lower, i);
        reveal_strlit("http 5");
        text::lemma_stands(lower, "http 5"@, 0, i);
    }
}

} // verus!
