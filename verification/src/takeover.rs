//! Settings of clients that lead to the router, and whether they lead to it still.

use vstd::prelude::*;

use crate::text;
use crate::text::{concat2, contains, to_decimal};

verus! {

/// Whether the settings of the Anthropic client, which do not lead to the router now, did so
/// before.
pub open spec fn claude_stale(settings: Seq<char>) -> bool {
    text::holds(settings, "model-router"@) || text::holds(settings, "127.0.0.1"@)
}

/// Whether the settings of the Anthropic client, which do not lead to the router now, did so
/// before.
pub fn is_claude_stale(settings: &str) -> (r: bool)
    ensures
        r == claude_stale(settings@),
{
    contains(settings, "model-router") || contains(settings, "127.0.0.1")
}

/// Whether the configuration of Codex leads to the router at another port.
pub open spec fn codex_stale(config: Seq<char>, port: u16) -> bool {
    text::holds(config, "model-router"@) && !text::holds(
        config,
        "127.0.0.1:"@ + text::decimal(port as nat),
    )
}

/// Whether the configuration of Codex leads to the router at another port.
pub fn is_codex_stale(config: &str, port: u16) -> (r: bool)
    ensures
        r == codex_stale(config@, port),
{
    let address = concat2("127.0.0.1:", to_decimal(port as u64).as_str());
    contains(config, "model-router") && !contains(config, address.as_str())
}

} // verus!
