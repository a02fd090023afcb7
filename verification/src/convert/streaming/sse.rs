//! Lines of a stream of server-sent events.

use vstd::prelude::*;

use crate::json::{self, Json, JsonV};
use crate::text;
use crate::text::{concat3, from_utf8_lossy, strip_prefix, trim};
use vstd::string::StringExecFns;

verus! {

/// Text cut into lines: the lines that are complete, and what follows the last of them.
#[verifier::ext_equal]
pub struct Lines {
    pub lines: Seq<Seq<char>>,
    pub rest: Seq<char>,
}

/// Lines with one character more.
pub open spec fn with_char(l: Lines, c: char) -> Lines {
    if c == '\n' {
        Lines { lines: l.lines.push(l.rest), rest: Seq::empty() }
    } else {
        Lines { rest: l.rest.push(c), ..l }
    }
}

/// Lines with a text more.
pub open spec fn with_text(l: Lines, s: Seq<char>) -> Lines
    decreases s.len(),
{
    if s.len() == 0 {
        l
    } else {
        with_char(with_text(l, s.drop_last()), s.last())
    }
}

/// The lines that a text completes after what was left before it.
pub open spec fn cut(rest: Seq<char>, s: Seq<char>) -> Lines {
    with_text(Lines { lines: Seq::empty(), rest }, s)
}

/// Two texts one after the other cut like the first, and then the second.
pub proof fn lemma_with_text_add(l: Lines, a: Seq<char>, b: Seq<char>)
    ensures
        with_text(l, a + b) == with_text(with_text(l, a), b),
    decreases b.len(),
{
    if b.len() == 0 {
        assert(a + b =~= a);
    } else {
        lemma_with_text_add(l, a, b.drop_last());
        assert((a + b).drop_last() =~= a + b.drop_last());
    }
}

/// Lines that are complete stay before what comes.
pub proof fn lemma_with_text_lines(l: Lines, s: Seq<char>)
    ensures
        with_text(l, s).lines == l.lines + cut(l.rest, s).lines,
        with_text(l, s).rest == cut(l.rest, s).rest,
    decreases s.len(),
{
    if s.len() == 0 {
        assert(l.lines + Seq::<Seq<char>>::empty() =~= l.lines);
    } else {
        lemma_with_text_lines(l, s.drop_last());
        let before = cut(l.rest, s.drop_last());
        assert((l.lines + before.lines).push(before.rest) =~= l.lines + before.lines.push(
            before.rest,
        ));
    }
}

/// However a text comes in pieces, its lines are the same: those of the first piece, then
/// those of the second after what the first left.
pub proof fn lemma_cut_add(rest: Seq<char>, a: Seq<char>, b: Seq<char>)
    ensures
        cut(rest, a + b).lines == cut(rest, a).lines + cut(cut(rest, a).rest, b).lines,
        cut(rest, a + b).rest == cut(cut(rest, a).rest, b).rest,
{
    lemma_with_text_add(Lines { lines: Seq::empty(), rest }, a, b);
    lemma_with_text_lines(cut(rest, a), b);
}

/// No line holds a line end, and neither does the rest.
pub proof fn lemma_cut_no_newline(rest: Seq<char>, s: Seq<char>)
    requires
        !rest.contains('\n'),
    ensures
        !cut(rest, s).rest.contains('\n'),
        forall|i: int| 0 <= i < cut(rest, s).lines.len() ==> !(#[trigger] cut(rest, s).lines[i]).contains(
            '\n',
        ),
    decreases s.len(),
{
    if s.len() > 0 {
        lemma_cut_no_newline(rest, s.drop_last());
        let before = cut(rest, s.drop_last());
        let after = cut(rest, s);
        if s.last() == '\n' {
            assert forall|i: int| 0 <= i < after.lines.len() implies !(#[trigger] after.lines[i]).contains(
                '\n',
            ) by {
                if i < before.lines.len() {
                    assert(after.lines[i] == before.lines[i]);
                }
            }
        } else {
            assert(after.lines == before.lines);
            if after.rest.contains('\n') {
                let k = choose|k: int| 0 <= k < after.rest.len() && after.rest[k] == '\n';
                if k < before.rest.len() {
                    assert(before.rest[k] == '\n');
                }
            }
        }
    }
}

/// A conversion that reads lines one by one.
pub trait LineReader: Sized {
    /// The state after a line.
    spec fn line(self, l: Seq<char>) -> Self;
}

/// The state after lines.
pub open spec fn read_lines<M: LineReader>(m: M, ls: Seq<Seq<char>>) -> M
    decreases ls.len(),
{
    if ls.len() == 0 {
        m
    } else {
        read_lines(m, ls.drop_last()).line(ls.last())
    }
}

/// Lines one after the other are read like the first, and then the second.
pub proof fn lemma_read_lines_add<M: LineReader>(m: M, a: Seq<Seq<char>>, b: Seq<Seq<char>>)
    ensures
        read_lines(m, a + b) == read_lines(read_lines(m, a), b),
    decreases b.len(),
{
    if b.len() == 0 {
        assert(a + b =~= a);
    } else {
        lemma_read_lines_add(m, a, b.drop_last());
        assert((a + b).drop_last() =~= a + b.drop_last());
    }
}

/// A conversion in the middle of a stream: its state, and the line that is not complete.
pub struct Reading<M> {
    pub machine: M,
    pub rest: Seq<char>,
}

/// The conversion after a piece of the stream.
pub open spec fn fed<M: LineReader>(r: Reading<M>, s: Seq<char>) -> Reading<M> {
    let l = cut(r.rest, s);
    Reading { machine: read_lines(r.machine, l.lines), rest: l.rest }
}

/// However a stream comes in pieces, the conversion ends in the same state, with the same
/// events behind it.
pub proof fn lemma_fed_add<M: LineReader>(r: Reading<M>, a: Seq<char>, b: Seq<char>)
    ensures
        fed(r, a + b) == fed(fed(r, a), b),
{
    lemma_cut_add(r.rest, a, b);
    lemma_read_lines_add(r.machine, cut(r.rest, a).lines, cut(cut(r.rest, a).rest, b).lines);
}

/// The part of a stream after its last line end.
pub struct LineBuffer {
    rest: String,
}

impl View for LineBuffer {
    type V = Seq<char>;

    closed spec fn view(&self) -> Seq<char> {
        self.rest@
    }
}

impl LineBuffer {
    /// The buffer at the start of a stream.
    pub fn new() -> (r: LineBuffer)
        ensures
            r@ == Seq::<char>::empty(),
    {
        LineBuffer { rest: String::new() }
    }

    /// Takes in a text and gives out the lines that it completes.
    pub fn push_text(&mut self, s: &str) -> (r: Vec<String>)
        ensures
            text::texts(r@) == cut(old(self)@, s@).lines,
            final(self)@ == cut(old(self)@, s@).rest,
    {
        broadcast use text::lemma_texts_push;

        let ghost start = self@;
        let chars = text::to_chars(s);
        let n: usize = chars.len();
        let mut lines: Vec<String> = Vec::new();
        proof {
            assert(s@.take(0) =~= Seq::<char>::empty());
            assert(text::texts(lines@) =~= Seq::<Seq<char>>::empty());
        }
        for i in 0..n
            invariant
                n == s@.len(),
                chars@ == s@,
                text::texts(lines@) == cut(start, s@.take(i as int)).lines,
                self@ == cut(start, s@.take(i as int)).rest,
        {
            proof {
                assert(s@.take(i + 1).drop_last() =~= s@.take(i as int));
                assert(s@.take(i + 1).last() == s@[i as int]);
            }
            if chars[i] == '\n' {
                lines.push(self.rest.clone());
                self.rest = String::new();
            } else {
                self.rest.push(chars[i]);
            }
        }
        assert(s@.take(n as int) =~= s@);
        lines
    }

    /// Takes in bytes and gives out the lines that they complete.
    pub fn push_bytes(&mut self, b: &[u8]) -> (r: Vec<String>)
        ensures
            text::texts(r@) == cut(old(self)@, text::bytes_text(b@)).lines,
            final(self)@ == cut(old(self)@, text::bytes_text(b@)).rest,
    {
        let s = from_utf8_lossy(b);
        self.push_text(s.as_str())
    }
}

/// The data of a line, without white space round it.
pub open spec fn data_of(line: Seq<char>) -> Option<Seq<char>> {
    match text::stripped(line, "data:"@) {
        Some(d) => Some(text::trimmed(d)),
        None => None,
    }
}

/// The data of a line, without white space round it.
pub fn data_in(line: &str) -> (r: Option<&str>)
    ensures
        json::opt_str(r) == data_of(line@),
{
    match strip_prefix(line, "data:") {
        Some(d) => Some(trim(d)),
        None => None,
    }
}

/// The data of a line that has no white space round it: after one space as it is, else
/// without white space round it.
pub open spec fn exact_data_of(line: Seq<char>) -> Option<Seq<char>> {
    match text::stripped(line, "data: "@) {
        Some(d) => Some(d),
        None => data_of(line),
    }
}

/// The data of a line that has no white space round it.
pub fn exact_data_in(line: &str) -> (r: Option<&str>)
    ensures
        json::opt_str(r) == exact_data_of(line@),
{
    match strip_prefix(line, "data: ") {
        Some(d) => Some(d),
        None => data_in(line),
    }
}

/// The text of an event.
pub open spec fn event_text(name: Seq<char>, data: JsonV) -> Seq<char> {
    "event: "@ + name + "\ndata: "@ + json::wire::json_text(data) + "\n\n"@
}

/// Writes the text of an event.
pub fn to_event_text(name: &str, data: &Json) -> (r: String)
    ensures
        r@ == event_text(name@, data@),
{
    let mut out = concat3("event: ", name, "\ndata: ");
    out.append(data.to_text().as_str());
    out.append("\n\n");
    out
}

/// The text of data without the name of an event.
pub open spec fn data_text(data: JsonV) -> Seq<char> {
    "data: "@ + json::wire::json_text(data) + "\n\n"@
}

/// Writes the text of data without the name of an event.
pub fn to_data_text(data: &Json) -> (r: String)
    ensures
        r@ == data_text(data@),
{
    concat3("data: ", data.to_text().as_str(), "\n\n")
}

/// The lines of a text, each with its line end, and what follows the last of them are the text,
/// after what was left before it: nothing is lost and nothing comes twice.
pub proof fn lemma_cut_whole(rest: Seq<char>, s: Seq<char>)
    ensures
        crate::seqs::flat(cut(rest, s).lines, |l: Seq<char>| l.push('\n')) + cut(rest, s).rest
            == rest + s,
    decreases s.len(),
{
    let f = |l: Seq<char>| l.push('\n');
    let c = cut(rest, s);
    if s.len() == 0 {
        assert(crate::seqs::flat(c.lines, f) =~= Seq::<char>::empty());
        assert(Seq::<char>::empty() + rest =~= rest + s);
    } else {
        let first = s.drop_last();
        lemma_cut_whole(rest, first);
        let b = cut(rest, first);
        assert(rest + s =~= (rest + first).push(s.last()));
        if s.last() == '\n' {
            assert(c.lines.drop_last() =~= b.lines);
            assert(crate::seqs::flat(c.lines, f) + c.rest =~= (crate::seqs::flat(b.lines, f)
                + b.rest).push('\n'));
        } else {
            assert(crate::seqs::flat(c.lines, f) + c.rest =~= (crate::seqs::flat(b.lines, f)
                + b.rest).push(s.last()));
        }
    }
}

/// The data of a line is what follows "data:", with a space behind it or without.
pub proof fn lemma_data_of(d: Seq<char>)
    requires
        text::trimmed(d) == d,
        d.len() == 0 || d[0] != ' ',
    ensures
        data_of("data:"@ + d) == Some(d),
        data_of("data: "@ + d) == Some(d),
        exact_data_of("data:"@ + d) == Some(d),
        exact_data_of("data: "@ + d) == Some(d),
{
    reveal_strlit("data:");
    reveal_strlit("data: ");
    let a = "data:"@ + d;
    let b = "data: "@ + d;
    assert(a.take(5) =~= "data:"@);
    assert(a.skip(5) =~= d);
    assert(b.take(5) =~= "data:"@);
    assert(b.skip(5) =~= seq![' '] + d);
    assert((seq![' '] + d).drop_first() =~= d);
    assert(text::without_white_start(seq![' '] + d) == text::without_white_start(d));
    assert(b.take(6) =~= "data: "@);
    assert(b.skip(6) =~= d);
    if text::starts(a, "data: "@) {
        assert(a.take(6)[5] == ' ');
        assert(a[5] == d[0]);
    }
}

} // verus!
