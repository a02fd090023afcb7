//! Paths that are none of the API's: the pages of the user interface.

use vstd::prelude::*;

use crate::json::Json;
use crate::proxy::errors;
use crate::proxy::errors::make_error_body;
use crate::text::{concat2, concat3, same, to_chars};
use vstd::string::StrSliceExecFns;

verus! {

/// The body for a path that is not found.
pub fn not_found_body(method: &str, path: &str) -> (r: Json)
    ensures
        r@ == errors::error_body("not found: "@ + method@ + " "@ + path@),
{
    let start = concat2("not found: ", method);
    make_error_body(concat3(start.as_str(), " ", path).as_str())
}

/// The text without the slashes at its start.
pub open spec fn without_slash_start(s: Seq<char>) -> Seq<char>
    decreases s.len(),
{
    if s.len() > 0 && s[0] == '/' {
        without_slash_start(s.drop_first())
    } else {
        s
    }
}

fn trim_slash_start(s: &str) -> (r: &str)
    ensures
        r@ == without_slash_start(s@),
{
    let chars = to_chars(s);
    let n: usize = chars.len();
    let mut i: usize = 0;
    assert(s@.skip(0) =~= s@);
    while i < n && chars[i] == '/'
        invariant
            chars@ == s@,
            n == s@.len(),
            i <= n,
            without_slash_start(s@) == without_slash_start(s@.skip(i as int)),
        decreases n - i,
    {
        assert(s@.skip(i as int).drop_first() =~= s@.skip(i + 1));
        i = i + 1;
    }
    assert(s@.skip(i as int) =~= s@.subrange(i as int, n as int));
    s.substring_char(i, n)
}

/// The file that a path asks for.
pub open spec fn asset_of_path(path: Seq<char>) -> Seq<char> {
    let name = without_slash_start(path);
    if name.len() == 0 {
        "index.html"@
    } else {
        name
    }
}

/// The file that a path asks for.
pub fn asset_name(path: &str) -> (r: &str)
    ensures
        r@ == asset_of_path(path@),
{
    let name = trim_slash_start(path);
    proof {
        reveal_strlit("");
        assert(name@.len() == 0 ==> name@ =~= ""@);
    }
    if same(name, "") {
        "index.html"
    } else {
        name
    }
}

/// What is served for a path.
#[derive(Debug, Clone, Copy, PartialEq, Eq, Structural)]
pub enum Page {
    /// The file that the path asks for.
    Asset,
    /// The start page, which finds its own way from the path.
    Index,
    Missing,
}

/// Chooses what is served: the file where there is one, else the start page for a path
/// without a file extension.
pub fn choose_page(has_asset: bool, has_extension: bool, has_index: bool) -> (r: Page)
    ensures
        r == if has_asset {
            Page::Asset
        } else if !has_extension && has_index {
            Page::Index
        } else {
            Page::Missing
        },
{
    if has_asset {
        Page::Asset
    } else if !has_extension && has_index {
        Page::Index
    } else {
        Page::Missing
    }
}

/// A path asks for what stands behind the slashes at its start; slashes alone ask for the start
/// page.
pub proof fn lemma_asset_of_path(slashes: Seq<char>, name: Seq<char>)
    requires
        forall|i: int| 0 <= i < slashes.len() ==> #[trigger] slashes[i] == '/',
        name.len() == 0 || name[0] != '/',
    ensures
        name.len() > 0 ==> asset_of_path(slashes + name) == name,
        name.len() == 0 ==> asset_of_path(slashes + name) == "index.html"@,
{
    lemma_slashes(slashes, name);
}

proof fn lemma_slashes(slashes: Seq<char>, name: Seq<char>)
    requires
        forall|i: int| 0 <= i < slashes.len() ==> #[trigger] slashes[i] == '/',
        name.len() == 0 || name[0] != '/',
    ensures
        without_slash_start(slashes + name) == name,
    decreases slashes.len(),
{
    let s = slashes + name;
    if slashes.len() == 0 {
        assert(s =~= name);
    } else {
        assert(s[0] == '/');
        assert(s.drop_first() =~= slashes.drop_first() + name);
        lemma_slashes(slashes.drop_first(), name);
    }
}

} // verus!
