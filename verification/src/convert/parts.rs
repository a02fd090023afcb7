//! Pieces that several conversions share.

use vstd::prelude::*;

use crate::json::arrays::gather_texts;
use crate::json::{self, Json, JsonV};
use crate::seqs;
use crate::text;

verus! {

/// A message of a role.
pub open spec fn message_v(role: Seq<char>, content: JsonV) -> JsonV {
    json::jobj().put("role"@, JsonV::Str(role)).put("content"@, content)
}

/// A message of a role.
pub(crate) fn message(role: &str, content: Json) -> (r: Json)
    ensures
        r@ == message_v(role@, content@),
{
    Json::object().put("role", Json::str(role)).put("content", content)
}

/// A message has its role and its content.
pub proof fn lemma_message(role: Seq<char>, content: JsonV)
    ensures
        message_v(role, content).get("role"@) == Some(JsonV::Str(role)),
        message_v(role, content).get("content"@) == Some(content),
{
    reveal_strlit("role");
    reveal_strlit("content");
    assert("role"@.len() != "content"@.len());
}

/// A block of text under a type.
pub open spec fn text_block_v(kind: Seq<char>, t: Seq<char>) -> JsonV {
    json::jobj().put("type"@, JsonV::Str(kind)).put("text"@, JsonV::Str(t))
}

/// A block of text under a type.
pub(crate) fn text_block(kind: &str, t: &str) -> (r: Json)
    ensures
        r@ == text_block_v(kind@, t@),
{
    Json::object().put("type", Json::str(kind)).put("text", Json::str(t))
}

/// The text of a content block: what stands under "text", or the block itself where it
/// is a string.
pub open spec fn block_text(b: JsonV) -> Seq<Seq<char>> {
    match b.str_at("text"@) {
        Some(t) => seq![t],
        None => match b.as_str() {
            Some(s) => seq![s],
            None => Seq::empty(),
        },
    }
}

pub open spec fn block_text_fn() -> spec_fn(JsonV) -> Seq<Seq<char>> {
    |b: JsonV| block_text(b)
}

fn text_of_block(b: &Json) -> (r: Vec<String>)
    ensures
        text::texts(r@) == block_text(b@),
{
    let mut out: Vec<String> = Vec::new();
    if let Some(t) = b.str_at("text") {
        out.push(t.to_owned());
    } else if let Some(s) = b.as_str() {
        out.push(s.to_owned());
    }
    assert(text::texts(out@) =~= block_text(b@));
    out
}

/// The plain text of a content: a string, or an array of blocks.
pub open spec fn content_text(content: JsonV) -> Seq<char> {
    match content {
        JsonV::Str(s) => s,
        JsonV::Arr(blocks) => text::joined(seqs::flat(blocks, block_text_fn()), ""@),
        _ => ""@,
    }
}

/// Extracts the plain text of a content: a string, or an array of blocks.
pub fn extract_text_from_content(content: &Json) -> (r: String)
    ensures
        r@ == content_text(content@),
{
    broadcast use json::group_json;

    match content {
        Json::Str(s) => s.clone(),
        Json::Arr(blocks) => {
            let parts = gather_texts(blocks, text_of_block, Ghost(block_text_fn()));
            text::join(&parts, "")
        },
        _ => "".to_owned(),
    }
}

/// The JSON text of a value, without quotes where it is a string.
pub open spec fn plain_text(j: JsonV) -> Seq<char> {
    match j {
        JsonV::Str(s) => s,
        other => json::wire::json_text(other),
    }
}

/// The plain text of a value that may be missing, or another text.
pub open spec fn plain_text_or(o: Option<JsonV>, other: Seq<char>) -> Seq<char> {
    match o {
        Some(j) => plain_text(j),
        None => other,
    }
}

/// The text of a value: a string as it is, another value as JSON.
pub(crate) fn as_plain_text(o: Option<&Json>, other: &str) -> (r: String)
    ensures
        r@ == plain_text_or(json::opt_view(o), other@),
{
    broadcast use json::group_json;

    match o {
        Some(Json::Str(s)) => s.clone(),
        Some(j) => j.to_text(),
        None => other.to_owned(),
    }
}

} // verus!
