//! Text: what the library needs of strings, over sequences of characters.

use vstd::prelude::*;
use vstd::string::{StringExecFns, StrSliceExecFns};

verus! {

/// Whether two texts are the same.
pub(crate) fn same(a: &str, b: &str) -> (r: bool)
    ensures
        r == (a@ == b@),
{
    if a.unicode_len() != b.unicode_len() {
        return false;
    }
    assert(a@.take(a@.len() as int) =~= a@);
    starts_with(a, b)
}

/// `String::push`: the text with one more character at its end.
pub assume_specification[ String::push ](s: &mut String, c: char)
    ensures
        final(s)@ == old(s)@.push(c),
;

/// The characters of a text.
pub fn to_chars(s: &str) -> (r: Vec<char>)
    ensures
        r@ == s@,
{
    let mut out: Vec<char> = Vec::new();
    for c in it: s.chars()
        invariant
            it.seq() == s@,
            out@ == s@.take(it.index()),
    {
        assert(s@.take(it.index() + 1) =~= s@.take(it.index()).push(s@[it.index()]));
        out.push(c);
    }
    assert(s@.take(s@.len() as int) =~= s@);
    out
}

/// The texts of a list of strings.
pub open spec fn texts(s: Seq<String>) -> Seq<Seq<char>> {
    Seq::new(s.len(), |i: int| s[i]@)
}

pub broadcast proof fn lemma_texts_push(s: Seq<String>, t: String)
    ensures
        #[trigger] texts(s.push(t)) == texts(s).push(t@),
{
    assert(texts(s.push(t)) =~= texts(s).push(t@));
}

/// The texts one after the other, a separator between each two.
pub open spec fn joined(parts: Seq<Seq<char>>, sep: Seq<char>) -> Seq<char>
    decreases parts.len(),
{
    if parts.len() == 0 {
        Seq::empty()
    } else if parts.len() == 1 {
        parts[0]
    } else {
        joined(parts.drop_last(), sep) + sep + parts.last()
    }
}

/// The texts one after the other, a separator between each two.
pub fn join(parts: &Vec<String>, sep: &str) -> (r: String)
    ensures
        r@ == joined(texts(parts@), sep@),
{
    let mut out = String::new();
    let n: usize = parts.len();
    for i in 0..n
        invariant
            n == parts@.len(),
            out@ == joined(texts(parts@).take(i as int), sep@),
    {
        let ghost done = texts(parts@).take(i + 1);
        assert(done.drop_last() =~= texts(parts@).take(i as int));
        if i > 0 {
            out.append(sep);
        }
        out.append(parts[i].as_str());
        if i == 0 {
            assert(out@ =~= done[0]);
        }
    }
    assert(texts(parts@).take(n as int) =~= texts(parts@));
    out
}

/// Two texts, one after the other.
pub fn concat2(a: &str, b: &str) -> (r: String)
    ensures
        r@ == a@ + b@,
{
    let mut out = a.to_owned();
    out.append(b);
    out
}

/// Three texts, one after the other.
pub fn concat3(a: &str, b: &str, c: &str) -> (r: String)
    ensures
        r@ == a@ + b@ + c@,
{
    let mut out = concat2(a, b);
    out.append(c);
    out
}

/// Whether a character is white space.
pub open spec fn white(c: char) -> bool {
    ||| '\u{9}' <= c <= '\u{d}'
    ||| c == ' '
    ||| c == '\u{85}'
    ||| c == '\u{a0}'
    ||| c == '\u{1680}'
    ||| '\u{2000}' <= c <= '\u{200a}'
    ||| c == '\u{2028}'
    ||| c == '\u{2029}'
    ||| c == '\u{202f}'
    ||| c == '\u{205f}'
    ||| c == '\u{3000}'
}

/// Whether a character is white space.
pub fn is_white(c: char) -> (r: bool)
    ensures
        r == white(c),
{
    ('\u{9}' <= c && c <= '\u{d}') || c == ' ' || c == '\u{85}' || c == '\u{a0}' || c == '\u{1680}'
        || ('\u{2000}' <= c && c <= '\u{200a}') || c == '\u{2028}' || c == '\u{2029}' || c
        == '\u{202f}' || c == '\u{205f}' || c == '\u{3000}'
}

/// The text without the white space at its start.
pub open spec fn without_white_start(s: Seq<char>) -> Seq<char>
    decreases s.len(),
{
    if s.len() > 0 && white(s[0]) {
        without_white_start(s.drop_first())
    } else {
        s
    }
}

/// The text without the white space at its end.
pub open spec fn without_white_end(s: Seq<char>) -> Seq<char>
    decreases s.len(),
{
    if s.len() > 0 && white(s.last()) {
        without_white_end(s.drop_last())
    } else {
        s
    }
}

/// The text without white space at either end.
pub open spec fn trimmed(s: Seq<char>) -> Seq<char> {
    without_white_end(without_white_start(s))
}

/// The text without the white space at its start.
pub fn trim_start(s: &str) -> (r: &str)
    ensures
        r@ == without_white_start(s@),
{
    let chars = to_chars(s);
    let n: usize = chars.len();
    let mut i: usize = 0;
    assert(s@.skip(0) =~= s@);
    while i < n && is_white(chars[i])
        invariant
            i <= n,
            n == s@.len(),
            chars@ == s@,
            without_white_start(s@) == without_white_start(s@.skip(i as int)),
        decreases n - i,
    {
        assert(s@.skip(i as int).drop_first() =~= s@.skip(i + 1));
        i = i + 1;
    }
    assert(s@.skip(i as int) =~= s@.subrange(i as int, n as int));
    s.substring_char(i, n)
}

/// The text without the white space at its end.
pub fn trim_end(s: &str) -> (r: &str)
    ensures
        r@ == without_white_end(s@),
{
    let chars = to_chars(s);
    let mut n: usize = chars.len();
    assert(s@.take(n as int) =~= s@);
    while n > 0 && is_white(chars[n - 1])
        invariant
            n <= s@.len(),
            chars@ == s@,
            without_white_end(s@) == without_white_end(s@.take(n as int)),
        decreases n,
    {
        assert(s@.take(n as int).drop_last() =~= s@.take(n - 1));
        n = n - 1;
    }
    assert(s@.take(n as int) =~= s@.subrange(0, n as int));
    s.substring_char(0, n)
}

/// The text without white space at either end.
pub fn trim(s: &str) -> (r: &str)
    ensures
        r@ == trimmed(s@),
{
    trim_end(trim_start(s))
}

/// Whether a text starts with another.
pub open spec fn starts(s: Seq<char>, pat: Seq<char>) -> bool {
    pat.len() <= s.len() && s.take(pat.len() as int) == pat
}

/// Whether, in a text, another stands at a place.
fn stands_at(s: &Vec<char>, at: usize, pat: &Vec<char>) -> (r: bool)
    requires
        at + pat@.len() <= s@.len(),
    ensures
        r == (s@.subrange(at as int, at + pat@.len()) == pat@),
{
    let n: usize = pat.len();
    let total: usize = s.len();
    for i in 0..n
        invariant
            n == pat@.len(),
            total == s@.len(),
            at + n <= total,
            forall|k: int| 0 <= k < i ==> s@[at + k] == pat@[k],
    {
        if s[at + i] != pat[i] {
            assert(s@.subrange(at as int, at + n)[i as int] != pat@[i as int]);
            return false;
        }
    }
    assert(s@.subrange(at as int, at + n) =~= pat@);
    true
}

/// Whether a text starts with another.
pub fn starts_with(s: &str, pat: &str) -> (r: bool)
    ensures
        r == starts(s@, pat@),
{
    let s = to_chars(s);
    let pat = to_chars(pat);
    if pat.len() > s.len() {
        return false;
    }
    assert(s@.subrange(0, pat@.len() as int) =~= s@.take(pat@.len() as int));
    stands_at(&s, 0, &pat)
}

/// The first place, from a place on, where another text stands.
pub open spec fn found_from(s: Seq<char>, pat: Seq<char>, at: int) -> Option<int>
    decreases s.len() - at + 1,
{
    if at < 0 || at + pat.len() > s.len() {
        None
    } else if s.subrange(at, at + pat.len()) == pat {
        Some(at)
    } else {
        found_from(s, pat, at + 1)
    }
}

/// The first place where another text stands.
pub open spec fn found(s: Seq<char>, pat: Seq<char>) -> Option<int> {
    found_from(s, pat, 0)
}

/// What is found lies in the text.
pub proof fn lemma_found(s: Seq<char>, pat: Seq<char>, at: int)
    ensures
        found_from(s, pat, at) matches Some(k) ==> 0 <= at <= k && k + pat.len() <= s.len()
            && s.subrange(k, k + pat.len()) == pat,
    decreases s.len() - at + 1,
{
    if at < 0 || at + pat.len() > s.len() {
    } else if s.subrange(at, at + pat.len()) == pat {
    } else {
        lemma_found(s, pat, at + 1);
    }
}

/// A text that stands somewhere is found.
pub proof fn lemma_stands(s: Seq<char>, pat: Seq<char>, at: int, k: int)
    requires
        0 <= at <= k,
        k + pat.len() <= s.len(),
        s.subrange(k, k + pat.len()) == pat,
    ensures
        found_from(s, pat, at) is Some,
    decreases k - at,
{
    if s.subrange(at, at + pat.len()) != pat {
        lemma_stands(s, pat, at + 1, k);
    }
}

/// The first place, in characters, where another text stands.
pub fn find(s: &str, pat: &str) -> (r: Option<usize>)
    ensures
        match r {
            Some(k) => found(s@, pat@) == Some(k as int) && k + pat@.len() <= s@.len(),
            None => found(s@, pat@) is None,
        },
{
    let sc = to_chars(s);
    let pc = to_chars(pat);
    let n: usize = sc.len();
    let m: usize = pc.len();
    if m > n {
        return None;
    }
    let last: usize = n - m;
    for i in 0..last
        invariant
            n == s@.len(),
            m == pat@.len(),
            sc@ == s@,
            pc@ == pat@,
            m <= n,
            last == n - m,
            found(s@, pat@) == found_from(s@, pat@, i as int),
    {
        if stands_at(&sc, i, &pc) {
            return Some(i);
        }
    }
    if stands_at(&sc, last, &pc) {
        Some(last)
    } else {
        assert(found_from(s@, pat@, last + 1) is None);
        None
    }
}

/// The text of a digit.
pub open spec fn digit_char(d: nat) -> char {
    if d == 0 {
        '0'
    } else if d == 1 {
        '1'
    } else if d == 2 {
        '2'
    } else if d == 3 {
        '3'
    } else if d == 4 {
        '4'
    } else if d == 5 {
        '5'
    } else if d == 6 {
        '6'
    } else if d == 7 {
        '7'
    } else if d == 8 {
        '8'
    } else {
        '9'
    }
}

fn digit(d: u64) -> (r: char)
    requires
        d < 10,
    ensures
        r == digit_char(d as nat),
{
    if d == 0 {
        '0'
    } else if d == 1 {
        '1'
    } else if d == 2 {
        '2'
    } else if d == 3 {
        '3'
    } else if d == 4 {
        '4'
    } else if d == 5 {
        '5'
    } else if d == 6 {
        '6'
    } else if d == 7 {
        '7'
    } else if d == 8 {
        '8'
    } else {
        '9'
    }
}

/// A number in decimal digits.
pub open spec fn decimal(n: nat) -> Seq<char>
    decreases n,
{
    if n < 10 {
        seq![digit_char(n)]
    } else {
        decimal(n / 10).push(digit_char(n % 10))
    }
}

/// A number in decimal digits.
pub fn to_decimal(n: u64) -> (r: String)
    ensures
        r@ == decimal(n as nat),
    decreases n,
{
    let mut out = if n < 10 {
        String::new()
    } else {
        to_decimal(n / 10)
    };
    out.push(digit(n % 10));
    assert(out@ =~= decimal(n as nat));
    out
}

/// What follows another text that a text starts with.
pub open spec fn stripped(s: Seq<char>, pat: Seq<char>) -> Option<Seq<char>> {
    if starts(s, pat) {
        Some(s.skip(pat.len() as int))
    } else {
        None
    }
}

/// What follows another text that a text starts with.
pub fn strip_prefix<'a>(s: &'a str, pat: &str) -> (r: Option<&'a str>)
    ensures
        crate::json::opt_str(r) == stripped(s@, pat@),
{
    if starts_with(s, pat) {
        let n: usize = pat.unicode_len();
        let total: usize = s.unicode_len();
        assert(s@.skip(n as int) =~= s@.subrange(n as int, total as int));
        Some(s.substring_char(n, total))
    } else {
        None
    }
}

/// The text of a hexadecimal digit.
pub open spec fn hex_char(d: nat) -> char {
    if d < 10 {
        digit_char(d)
    } else if d == 10 {
        'a'
    } else if d == 11 {
        'b'
    } else if d == 12 {
        'c'
    } else if d == 13 {
        'd'
    } else if d == 14 {
        'e'
    } else {
        'f'
    }
}

/// A number in hexadecimal digits.
pub open spec fn hexadecimal(n: nat) -> Seq<char>
    decreases n,
{
    if n < 16 {
        seq![hex_char(n)]
    } else {
        hexadecimal(n / 16).push(hex_char(n % 16))
    }
}

/// A number in hexadecimal digits.
pub fn to_hexadecimal(n: u128) -> (r: String)
    ensures
        r@ == hexadecimal(n as nat),
    decreases n,
{
    let mut out = if n < 16 {
        String::new()
    } else {
        to_hexadecimal(n / 16)
    };
    let d: u128 = n % 16;
    let c = if d < 10 {
        digit(d as u64)
    } else if d == 10 {
        'a'
    } else if d == 11 {
        'b'
    } else if d == 12 {
        'c'
    } else if d == 13 {
        'd'
    } else if d == 14 {
        'e'
    } else {
        'f'
    };
    out.push(c);
    assert(out@ =~= hexadecimal(n as nat));
    out
}

/// What `String::from_utf8_lossy` makes of bytes: their text, with a replacement
/// character for what is not UTF-8.
pub uninterp spec fn utf8_lossy(b: Seq<u8>) -> Seq<char>;

/// `String::from_utf8_lossy`, under its name. Of bytes that are UTF-8 it makes the text
/// that they are.
#[verifier::external_body]
pub(crate) fn from_utf8_lossy(b: &[u8]) -> (r: String)
    ensures
        r@ == utf8_lossy(b@),
        vstd::utf8::valid_utf8(b@) ==> r@ == vstd::utf8::decode_utf8(b@),
{
    String::from_utf8_lossy(b).into_owned()
}

/// The text of bytes: what they encode, with a replacement character for what is not
/// UTF-8.
pub open spec fn bytes_text(b: Seq<u8>) -> Seq<char> {
    if vstd::utf8::valid_utf8(b) {
        vstd::utf8::decode_utf8(b)
    } else {
        utf8_lossy(b)
    }
}

/// The text of bytes that are UTF-8, one piece after the other, is the text of the pieces.
pub proof fn lemma_bytes_text_add(a: Seq<u8>, b: Seq<u8>)
    requires
        vstd::utf8::valid_utf8(a),
        vstd::utf8::valid_utf8(b),
    ensures
        vstd::utf8::valid_utf8(a + b),
        bytes_text(a + b) == bytes_text(a) + bytes_text(b),
    decreases a.len(),
{
    vstd::utf8::valid_utf8_concat(a, b);
    if a.len() == 0 {
        assert(a + b =~= b);
        assert(bytes_text(a) + bytes_text(b) =~= bytes_text(b));
    } else {
        let rest = vstd::utf8::pop_first_scalar(a);
        lemma_bytes_text_add(rest, b);
        assert(vstd::utf8::pop_first_scalar(a + b) =~= rest + b);
        assert(bytes_text(a + b) =~= bytes_text(a) + bytes_text(b));
    }
}

/// Bytes of ASCII are UTF-8.
pub proof fn lemma_ascii_valid(b: Seq<u8>)
    requires
        forall|i: int| 0 <= i < b.len() ==> #[trigger] b[i] < 128,
    ensures
        vstd::utf8::valid_utf8(b),
    decreases b.len(),
{
    if b.len() > 0 {
        let rest = vstd::utf8::pop_first_scalar(b);
        assert(rest =~= b.skip(1));
        lemma_ascii_valid(rest);
        let x = b[0];
        assert(x < 128);
        assert(vstd::utf8::codepoint_width_1(x) < 128) by {
            assert((x & 0x7f) < 128) by (bit_vector);
        }
    }
}

/// Whether another text stands anywhere in a text.
pub open spec fn holds(s: Seq<char>, pat: Seq<char>) -> bool {
    found(s, pat) is Some
}

/// Whether another text stands anywhere in a text.
pub fn contains(s: &str, pat: &str) -> (r: bool)
    ensures
        r == holds(s@, pat@),
{
    find(s, pat).is_some()
}

/// A text cut at separators: the pieces before the last one, and the last one.
#[verifier::ext_equal]
pub struct Pieces {
    pub before: Seq<Seq<char>>,
    pub last: Seq<char>,
}

/// A text cut at separators.
pub open spec fn pieces(s: Seq<char>, seps: Seq<char>) -> Pieces
    decreases s.len(),
{
    if s.len() == 0 {
        Pieces { before: Seq::empty(), last: Seq::empty() }
    } else {
        let p = pieces(s.drop_last(), seps);
        if seps.contains(s.last()) {
            Pieces { before: p.before.push(p.last), last: Seq::empty() }
        } else {
            Pieces { last: p.last.push(s.last()), ..p }
        }
    }
}

/// The pieces between separators: one more than there are separators.
pub open spec fn split(s: Seq<char>, seps: Seq<char>) -> Seq<Seq<char>> {
    pieces(s, seps).before.push(pieces(s, seps).last)
}

/// The pieces between separators.
pub fn split_any(s: &str, seps: &str) -> (r: Vec<String>)
    ensures
        texts(r@) == split(s@, seps@),
{
    broadcast use lemma_texts_push;

    let chars = to_chars(s);
    let sep_chars = to_chars(seps);
    let n: usize = chars.len();
    let mut out: Vec<String> = Vec::new();
    let mut last = String::new();
    proof {
        assert(s@.take(0) =~= Seq::<char>::empty());
        assert(texts(out@) =~= Seq::<Seq<char>>::empty());
    }
    for i in 0..n
        invariant
            n == s@.len(),
            chars@ == s@,
            sep_chars@ == seps@,
            texts(out@) == pieces(s@.take(i as int), seps@).before,
            last@ == pieces(s@.take(i as int), seps@).last,
    {
        proof {
            assert(s@.take(i + 1).drop_last() =~= s@.take(i as int));
            assert(s@.take(i + 1).last() == s@[i as int]);
        }
        if has_char(&sep_chars, chars[i]) {
            out.push(last);
            last = String::new();
        } else {
            last.push(chars[i]);
        }
    }
    assert(s@.take(n as int) =~= s@);
    out.push(last);
    out
}

fn has_char(chars: &Vec<char>, c: char) -> (r: bool)
    ensures
        r == chars@.contains(c),
{
    let n: usize = chars.len();
    for i in 0..n
        invariant
            n == chars@.len(),
            forall|k: int| 0 <= k < i ==> #[trigger] chars@[k] != c,
    {
        if chars[i] == c {
            assert(chars@[i as int] == c);
            return true;
        }
    }
    false
}

/// Whether a list of texts holds one.
pub fn has(list: &Vec<String>, t: &str) -> (r: bool)
    ensures
        r == texts(list@).contains(t@),
{
    let ghost all = texts(list@);
    let n: usize = list.len();
    for i in 0..n
        invariant
            n == list@.len(),
            all == texts(list@),
            forall|k: int| 0 <= k < i ==> #[trigger] all[k] != t@,
    {
        assert(all[i as int] == list@[i as int]@);
        if same(list[i].as_str(), t) {
            assert(all.contains(t@));
            return true;
        }
    }
    false
}

/// The text without the slashes at its end.
pub open spec fn without_slash_end(s: Seq<char>) -> Seq<char>
    decreases s.len(),
{
    if s.len() > 0 && s.last() == '/' {
        without_slash_end(s.drop_last())
    } else {
        s
    }
}

/// The text without the slashes at its end.
pub fn trim_slash_end(s: &str) -> (r: &str)
    ensures
        r@ == without_slash_end(s@),
{
    let chars = to_chars(s);
    let mut n: usize = chars.len();
    assert(s@.take(n as int) =~= s@);
    while n > 0 && chars[n - 1] == '/'
        invariant
            n <= s@.len(),
            chars@ == s@,
            without_slash_end(s@) == without_slash_end(s@.take(n as int)),
        decreases n,
    {
        assert(s@.take(n as int).drop_last() =~= s@.take(n - 1));
        n = n - 1;
    }
    assert(s@.take(n as int) =~= s@.subrange(0, n as int));
    s.substring_char(0, n)
}

/// The text of a string that may be missing.
pub open spec fn opt_text(o: Option<String>) -> Option<Seq<char>> {
    match o {
        Some(s) => Some(s@),
        None => None,
    }
}

/// How many bytes a character takes in UTF-8.
pub open spec fn char_bytes(c: char) -> nat {
    if (c as u32) < 0x80 {
        1
    } else if (c as u32) < 0x800 {
        2
    } else if (c as u32) < 0x10000 {
        3
    } else {
        4
    }
}

/// How many bytes a text takes in UTF-8.
pub open spec fn byte_len(s: Seq<char>) -> nat
    decreases s.len(),
{
    if s.len() == 0 {
        0
    } else {
        byte_len(s.drop_last()) + char_bytes(s.last())
    }
}

/// Whether the first `n` bytes of a text, or all where there are fewer, end with a whole
/// character.
pub open spec fn cuts_clean(s: Seq<char>, n: nat) -> bool {
    byte_len(s) <= n || exists|k: int| 0 <= k <= s.len() && #[trigger] byte_len(s.take(k)) == n
}

/// How many characters of a text fit into `n` bytes.
pub open spec fn fitting(s: Seq<char>, n: nat) -> nat
    decreases s.len(),
{
    if s.len() == 0 {
        0
    } else if byte_len(s) <= n {
        s.len()
    } else {
        fitting(s.drop_last(), n)
    }
}

/// The characters of a text that fit into its first `n` bytes.
pub open spec fn byte_prefix(s: Seq<char>, n: nat) -> Seq<char> {
    s.take(fitting(s, n) as int)
}

fn bytes_of(c: char) -> (r: usize)
    ensures
        r == char_bytes(c),
        1 <= r <= 4,
{
    let n: u32 = c as u32;
    if n < 0x80 {
        1
    } else if n < 0x800 {
        2
    } else if n < 0x10000 {
        3
    } else {
        4
    }
}

proof fn lemma_byte_len_step(s: Seq<char>, k: int)
    requires
        0 <= k < s.len(),
    ensures
        byte_len(s.take(k + 1)) == byte_len(s.take(k)) + char_bytes(s[k]),
{
    assert(s.take(k + 1).drop_last() =~= s.take(k));
}

proof fn lemma_byte_len_grows(s: Seq<char>, i: int, j: int)
    requires
        0 <= i <= j <= s.len(),
    ensures
        byte_len(s.take(i)) <= byte_len(s.take(j)),
        i < j ==> byte_len(s.take(i)) < byte_len(s.take(j)),
    decreases j - i,
{
    if i < j {
        lemma_byte_len_grows(s, i, j - 1);
        lemma_byte_len_step(s, j - 1);
    }
}

proof fn lemma_fitting(s: Seq<char>, n: nat, k: int)
    requires
        0 <= k <= s.len(),
        byte_len(s.take(k)) <= n,
        k < s.len() ==> byte_len(s.take(k + 1)) > n,
    ensures
        fitting(s, n) == k,
    decreases s.len(),
{
    assert(s.take(s.len() as int) =~= s);
    if s.len() > 0 {
        if k == s.len() {
        } else {
            lemma_byte_len_grows(s, k + 1, s.len() as int);
            let t = s.drop_last();
            assert(t.take(k) =~= s.take(k));
            if k < t.len() {
                assert(t.take(k + 1) =~= s.take(k + 1));
            }
            lemma_fitting(t, n, k);
        }
    }
}

/// How many characters fit into the first `n` bytes, and whether those bytes end with a
/// whole character.
fn measure(s: &str, n: usize) -> (r: (usize, bool))
    ensures
        r.0 == fitting(s@, n as nat),
        r.0 <= s@.len(),
        r.1 == cuts_clean(s@, n as nat),
{
    let chars = to_chars(s);
    let total: usize = chars.len();
    let mut used: usize = 0;
    let mut i: usize = 0;
    proof {
        assert(s@.take(0) =~= Seq::<char>::empty());
    }
    while i < total && bytes_of(chars[i]) <= n - used
        invariant
            i <= total,
            total == s@.len(),
            chars@ == s@,
            used <= n,
            used == byte_len(s@.take(i as int)),
        decreases total - i,
    {
        proof {
            lemma_byte_len_step(s@, i as int);
        }
        used = used + bytes_of(chars[i]);
        i = i + 1;
    }
    proof {
        assert(s@.take(total as int) =~= s@);
        if i < total {
            lemma_byte_len_step(s@, i as int);
            lemma_byte_len_grows(s@, i + 1, total as int);
        }
        lemma_fitting(s@, n as nat, i as int);
        if i < total && used != n {
            assert forall|k: int| 0 <= k <= s@.len() implies #[trigger] byte_len(s@.take(k)) != n by {
                if k <= i {
                    lemma_byte_len_grows(s@, k, i as int);
                } else {
                    lemma_byte_len_grows(s@, i + 1, k);
                }
            }
        }
    }
    (i, i == total || used == n)
}

/// Whether the first `n` bytes of a text end with a whole character.
pub fn is_clean_cut(s: &str, n: usize) -> (r: bool)
    ensures
        r == cuts_clean(s@, n as nat),
{
    measure(s, n).1
}

/// The characters of a text that fit into its first `n` bytes.
pub fn cut_bytes(s: &str, n: usize) -> (r: &str)
    ensures
        r@ == byte_prefix(s@, n as nat),
{
    let k: usize = measure(s, n).0;
    assert(s@.take(k as int) =~= s@.subrange(0, k as int));
    s.substring_char(0, k)
}

/// A character of ASCII in lower case.
pub open spec fn ascii_lower(c: char) -> char {
    if 'A' <= c <= 'Z' {
        ((c as u32) + 32) as char
    } else {
        c
    }
}

/// Whether a text is of ASCII alone.
pub open spec fn is_ascii(s: Seq<char>) -> bool {
    forall|i: int| 0 <= i < s.len() ==> (#[trigger] s[i] as u32) < 128
}

/// A text with the letters from `A` to `Z` in lower case.
pub open spec fn ascii_lowered(s: Seq<char>) -> Seq<char> {
    Seq::new(s.len(), |i: int| ascii_lower(s[i]))
}

/// What `str::to_lowercase` makes of a text.
pub uninterp spec fn lowercase(s: Seq<char>) -> Seq<char>;

/// `str::to_lowercase`, under its name. A text of ASCII has the letters from `A` to `Z`
/// changed, one for one, and nothing else.
#[verifier::external_body]
pub(crate) fn to_lowercase(s: &str) -> (r: String)
    ensures
        r@ == lowercase(s@),
        is_ascii(s@) ==> r@ == ascii_lowered(s@),
{
    s.to_lowercase()
}

/// A text in lower case.
pub open spec fn lowered(s: Seq<char>) -> Seq<char> {
    if is_ascii(s) {
        ascii_lowered(s)
    } else {
        lowercase(s)
    }
}

/// A part between separators, or at the start or the end of a text, is one of its pieces.
pub proof fn lemma_part(a: Seq<char>, w: Seq<char>, b: Seq<char>, seps: Seq<char>)
    requires
        a.len() == 0 || seps.contains(a.last()),
        b.len() == 0 || seps.contains(b[0]),
        forall|i: int| 0 <= i < w.len() ==> !seps.contains(#[trigger] w[i]),
    ensures
        split(a + w + b, seps).contains(w),
    decreases b.len(),
{
    let s = a + w + b;
    if b.len() == 0 {
        assert(s =~= a + w);
        lemma_last_part(a, w, seps);
        let p = pieces(s, seps);
        assert(split(s, seps)[p.before.len() as int] == w);
    } else {
        lemma_before_part(a, w, b, seps);
        let p = pieces(s, seps);
        let i = choose|i: int| 0 <= i < p.before.len() && p.before[i] == w;
        assert(split(s, seps)[i] == w);
    }
}

proof fn lemma_last_part(a: Seq<char>, w: Seq<char>, seps: Seq<char>)
    requires
        a.len() == 0 || seps.contains(a.last()),
        forall|i: int| 0 <= i < w.len() ==> !seps.contains(#[trigger] w[i]),
    ensures
        pieces(a + w, seps).last == w,
    decreases w.len(),
{
    let s = a + w;
    if w.len() == 0 {
        assert(s =~= a);
        assert(pieces(s, seps).last =~= w);
    } else {
        let v = w.drop_last();
        assert forall|i: int| 0 <= i < v.len() implies !seps.contains(#[trigger] v[i]) by {
            assert(v[i] == w[i]);
        }
        lemma_last_part(a, v, seps);
        assert(s.drop_last() =~= a + v);
        assert(s.last() == w[w.len() - 1]);
        assert(pieces(s, seps).last =~= w);
    }
}

proof fn lemma_before_part(a: Seq<char>, w: Seq<char>, b: Seq<char>, seps: Seq<char>)
    requires
        a.len() == 0 || seps.contains(a.last()),
        b.len() > 0,
        seps.contains(b[0]),
        forall|i: int| 0 <= i < w.len() ==> !seps.contains(#[trigger] w[i]),
    ensures
        pieces(a + w + b, seps).before.contains(w),
    decreases b.len(),
{
    let s = a + w + b;
    assert(s.drop_last() =~= a + w + b.drop_last());
    assert(s.last() == b.last());
    let p = pieces(s.drop_last(), seps);
    let q = pieces(s, seps);
    if b.len() == 1 {
        assert(a + w + b.drop_last() =~= a + w);
        lemma_last_part(a, w, seps);
        assert(q.before[p.before.len() as int] == w);
    } else {
        lemma_before_part(a, w, b.drop_last(), seps);
        let i = choose|i: int| 0 <= i < p.before.len() && p.before[i] == w;
        assert(q.before[i] == w);
    }
}

/// White space around a text is what trimming takes away, and nothing else.
pub proof fn lemma_trimmed(a: Seq<char>, s: Seq<char>, b: Seq<char>)
    requires
        forall|i: int| 0 <= i < a.len() ==> white(#[trigger] a[i]),
        forall|i: int| 0 <= i < b.len() ==> white(#[trigger] b[i]),
        s.len() > 0 ==> !white(s[0]) && !white(s.last()),
    ensures
        trimmed(a + s + b) == s,
{
    assert(a + s + b =~= a + (s + b));
    lemma_white_start(a, s + b);
    if s.len() > 0 {
        assert((s + b)[0] == s[0]);
        lemma_white_end(s, b);
    } else {
        assert(s + b =~= b + s);
        lemma_white_start(b, s);
        assert(without_white_start(s) == s);
        assert(without_white_end(s) == s);
    }
}

proof fn lemma_white_start(a: Seq<char>, t: Seq<char>)
    requires
        forall|i: int| 0 <= i < a.len() ==> white(#[trigger] a[i]),
    ensures
        without_white_start(a + t) == without_white_start(t),
    decreases a.len(),
{
    if a.len() == 0 {
        assert(a + t =~= t);
    } else {
        assert((a + t)[0] == a[0]);
        assert((a + t).drop_first() =~= a.drop_first() + t);
        lemma_white_start(a.drop_first(), t);
    }
}

proof fn lemma_white_end(s: Seq<char>, b: Seq<char>)
    requires
        forall|i: int| 0 <= i < b.len() ==> white(#[trigger] b[i]),
        s.len() > 0,
        !white(s.last()),
    ensures
        without_white_end(s + b) == s,
    decreases b.len(),
{
    if b.len() == 0 {
        assert(s + b =~= s);
    } else {
        assert((s + b).last() == b[b.len() - 1]);
        assert((s + b).drop_last() =~= s + b.drop_last());
        lemma_white_end(s, b.drop_last());
    }
}

/// A text cut to a number of bytes is the longest start of it that takes no more: all of it
/// where it fits.
pub proof fn lemma_byte_prefix(s: Seq<char>, n: nat)
    ensures
        byte_prefix(s, n).is_prefix_of(s),
        byte_len(byte_prefix(s, n)) <= n,
        byte_len(s) <= n ==> byte_prefix(s, n) == s,
        byte_prefix(s, n).len() < s.len() ==> byte_len(
            s.take(byte_prefix(s, n).len() as int + 1),
        ) > n,
    decreases s.len(),
{
    let k = fitting(s, n) as int;
    if s.len() == 0 {
        assert(s.take(0) =~= s);
    } else if byte_len(s) <= n {
        assert(s.take(k) =~= s);
    } else {
        let t = s.drop_last();
        lemma_byte_prefix(t, n);
        assert(byte_prefix(t, n).len() <= t.len());
        lemma_fits_within(t, n);
        assert(t.take(k) =~= s.take(k));
        if k < t.len() {
            assert(t.take(k + 1) =~= s.take(k + 1));
        } else {
            assert(s.take(k + 1) =~= s);
        }
    }
    lemma_fits_within(s, n);
}

proof fn lemma_fits_within(s: Seq<char>, n: nat)
    ensures
        fitting(s, n) <= s.len(),
    decreases s.len(),
{
    if s.len() > 0 && byte_len(s) > n {
        lemma_fits_within(s.drop_last(), n);
    }
}

/// The number that digits tell, the last of them for the ones.
pub open spec fn told_number(s: Seq<char>) -> int
    decreases s.len(),
{
    if s.len() == 0 {
        0
    } else {
        10 * told_number(s.drop_last()) + (s.last() as u32 - '0' as u32)
    }
}

/// A number in decimal digits tells that number, and begins with a zero only where it is zero.
pub proof fn lemma_decimal(n: nat)
    ensures
        told_number(decimal(n)) == n,
        forall|i: int| 0 <= i < decimal(n).len() ==> '0' <= #[trigger] decimal(n)[i] <= '9',
        decimal(n).len() > 0,
        decimal(n)[0] == '0' ==> n == 0,
    decreases n,
{
    let d = decimal(n);
    if n < 10 {
        assert(d.drop_last() =~= Seq::<char>::empty());
        assert(told_number(d.drop_last()) == 0);
    } else {
        lemma_decimal(n / 10);
        assert(d.drop_last() =~= decimal(n / 10));
        assert(d[0] == decimal(n / 10)[0]);
    }
}

/// Slashes at the end of a text are what is taken away there, and nothing else.
pub proof fn lemma_slash_end(s: Seq<char>, slashes: Seq<char>)
    requires
        s.len() == 0 || s.last() != '/',
        forall|i: int| 0 <= i < slashes.len() ==> #[trigger] slashes[i] == '/',
    ensures
        without_slash_end(s + slashes) == s,
    decreases slashes.len(),
{
    if slashes.len() == 0 {
        assert(s + slashes =~= s);
    } else {
        assert((s + slashes).last() == slashes[slashes.len() - 1]);
        assert((s + slashes).drop_last() =~= s + slashes.drop_last());
        lemma_slash_end(s, slashes.drop_last());
    }
}

} // verus!
