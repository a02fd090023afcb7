//! Reasoning that a model writes at the start of its text, between `<think` and `</think`.

use vstd::prelude::*;
use vstd::string::StrSliceExecFns;

use crate::text;
use crate::text::{find, is_white, starts_with, to_chars, trim, trim_start};

verus! {

/// The text without the characters at its start that are not white space.
pub open spec fn without_word_start(s: Seq<char>) -> Seq<char>
    decreases s.len(),
{
    if s.len() > 0 && !text::white(s[0]) {
        without_word_start(s.drop_first())
    } else {
        s
    }
}

/// The text without the line ends, tabs and spaces at its start.
pub open spec fn without_blank_start(s: Seq<char>) -> Seq<char>
    decreases s.len(),
{
    if s.len() > 0 && (s[0] == '\r' || s[0] == '\n' || s[0] == '\t' || s[0] == ' ') {
        without_blank_start(s.drop_first())
    } else {
        s
    }
}

fn trim_word_start(s: &str) -> (r: &str)
    ensures
        r@ == without_word_start(s@),
{
    let chars = to_chars(s);
    let n: usize = chars.len();
    let mut i: usize = 0;
    assert(s@.skip(0) =~= s@);
    while i < n && !is_white(chars[i])
        invariant
            i <= n,
            n == s@.len(),
            chars@ == s@,
            without_word_start(s@) == without_word_start(s@.skip(i as int)),
        decreases n - i,
    {
        assert(s@.skip(i as int).drop_first() =~= s@.skip(i + 1));
        i = i + 1;
    }
    assert(s@.skip(i as int) =~= s@.subrange(i as int, n as int));
    s.substring_char(i, n)
}

fn trim_blank_start(s: &str) -> (r: &str)
    ensures
        r@ == without_blank_start(s@),
{
    let chars = to_chars(s);
    let n: usize = chars.len();
    let mut i: usize = 0;
    assert(s@.skip(0) =~= s@);
    while i < n && (chars[i] == '\r' || chars[i] == '\n' || chars[i] == '\t' || chars[i] == ' ')
        invariant
            i <= n,
            n == s@.len(),
            chars@ == s@,
            without_blank_start(s@) == without_blank_start(s@.skip(i as int)),
        decreases n - i,
    {
        assert(s@.skip(i as int).drop_first() =~= s@.skip(i + 1));
        i = i + 1;
    }
    assert(s@.skip(i as int) =~= s@.subrange(i as int, n as int));
    s.substring_char(i, n)
}

/// The text after so many characters.
fn skip(s: &str, n: usize) -> (r: &str)
    requires
        n <= s@.len(),
    ensures
        r@ == s@.skip(n as int),
{
    let total: usize = s.unicode_len();
    assert(s@.skip(n as int) =~= s@.subrange(n as int, total as int));
    s.substring_char(n, total)
}

/// The text without one closing bracket at its start.
fn trim_bracket(s: &str) -> (r: &str)
    ensures
        r@ == without_bracket(s@),
{
    proof {
        reveal_strlit(">");
    }
    if starts_with(s, ">") {
        skip(s, 1)
    } else {
        s
    }
}

/// The text without one closing bracket at its start.
pub open spec fn without_bracket(s: Seq<char>) -> Seq<char> {
    if text::starts(s, ">"@) {
        s.skip(1)
    } else {
        s
    }
}

/// What follows the opening tag: after its bracket, before which a blank may stand, or else
/// after the rest of its word and the white space behind it.
pub open spec fn after_open_tag(s: Seq<char>) -> Seq<char> {
    if text::starts(s, ">"@) {
        s.skip(1)
    } else if text::starts(s, " >"@) {
        s.skip(2)
    } else {
        text::without_white_start(without_word_start(s))
    }
}

/// The reasoning and the answer of a text that starts with reasoning.
pub open spec fn think_block(s: Seq<char>) -> Option<(Seq<char>, Seq<char>)> {
    let start = text::without_white_start(s);
    if !text::starts(start, "<think"@) {
        None
    } else {
        let body = after_open_tag(start.skip(6));
        match text::found(body, "</think"@) {
            None => None,
            Some(k) => Some(
                (
                    text::trimmed(body.take(k)),
                    without_blank_start(without_bracket(text::without_white_start(body.skip(k + 7)))),
                ),
            ),
        }
    }
}

/// Splits a text that starts with reasoning into the reasoning and the answer.
pub fn codex_split_leading_think_block(s: &str) -> (r: Option<(String, String)>)
    ensures
        match r {
            Some(p) => think_block(s@) == Some((p.0@, p.1@)),
            None => think_block(s@) is None,
        },
{
    proof {
        reveal_strlit("<think");
        reveal_strlit("</think");
        reveal_strlit(" >");
        reveal_strlit(">");
    }
    let start = trim_start(s);
    if !starts_with(start, "<think") {
        return None;
    }
    let open = skip(start, 6);
    let body = if starts_with(open, ">") {
        skip(open, 1)
    } else if starts_with(open, " >") {
        skip(open, 2)
    } else {
        trim_start(trim_word_start(open))
    };
    match find(body, "</think") {
        None => None,
        Some(k) => {
            assert(body@.take(k as int) =~= body@.subrange(0, k as int));
            let total: usize = body.unicode_len();
            assert(k + 7 <= total);
            let reasoning = trim(body.substring_char(0, k));
            let after = trim_start(skip(body, k + 7));
            Some((reasoning.to_owned(), trim_blank_start(trim_bracket(after)).to_owned()))
        },
    }
}

/// Whether a text begins with a line end, a tab or a space.
pub open spec fn begins_blank(s: Seq<char>) -> bool {
    s.len() > 0 && (s[0] == '\r' || s[0] == '\n' || s[0] == '\t' || s[0] == ' ')
}

/// A text that begins with thoughts between their tags is those thoughts, without the white
/// space around them, and what follows, without the line ends between the two.
pub proof fn lemma_think_block(thoughts: Seq<char>, answer: Seq<char>)
    requires
        forall|k: int|
            0 <= k < thoughts.len() ==> (#[trigger] (thoughts + "</think>"@ + answer).subrange(
                k,
                k + 7,
            )) != "</think"@,
        !begins_blank(answer),
    ensures
        think_block("<think>"@ + thoughts + "</think>"@ + answer) == Some(
            (text::trimmed(thoughts), answer),
        ),
{
    reveal_strlit("<think>");
    reveal_strlit("<think");
    reveal_strlit("</think>");
    reveal_strlit("</think");
    reveal_strlit(">");
    let s = "<think>"@ + thoughts + "</think>"@ + answer;
    let body = thoughts + "</think>"@ + answer;
    assert(s[0] == '<');
    assert(text::without_white_start(s) == s);
    assert(s.take(6) =~= "<think"@);
    let t = s.skip(6);
    assert(t.take(1) =~= ">"@);
    assert(t.skip(1) =~= body);
    let n = thoughts.len() as int;
    assert(body.subrange(n, n + 7) =~= "</think"@);
    lemma_first(body, "</think"@, 0, n);
    assert(body.take(n) =~= thoughts);
    let rest = body.skip(n + 7);
    assert(rest =~= ">"@ + answer);
    assert(rest[0] == '>');
    assert(text::without_white_start(rest) == rest);
    assert(rest.take(1) =~= ">"@);
    assert(rest.skip(1) =~= answer);
    assert(without_blank_start(answer) == answer);
}

/// A text that begins otherwise holds no thoughts.
pub proof fn lemma_no_think_block(s: Seq<char>)
    requires
        s.len() > 0,
        s[0] != '<',
        !text::white(s[0]),
    ensures
        think_block(s) is None,
{
    reveal_strlit("<think");
    assert(text::without_white_start(s) == s);
    if text::starts(s, "<think"@) {
        assert(s.take(6)[0] == s[0]);
    }
}

proof fn lemma_first(s: Seq<char>, pat: Seq<char>, at: int, k: int)
    requires
        0 <= at <= k,
        k + pat.len() <= s.len(),
        s.subrange(k, k + pat.len()) == pat,
        forall|i: int| at <= i < k ==> (#[trigger] s.subrange(i, i + pat.len())) != pat,
    ensures
        text::found_from(s, pat, at) == Some(k),
    decreases k - at,
{
    if at < k {
        assert(s.subrange(at, at + pat.len()) != pat);
        lemma_first(s, pat, at + 1, k);
    }
}

} // verus!
