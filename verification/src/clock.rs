//! The clock.

use vstd::prelude::*;

verus! {

/// `SystemTime::now` since `UNIX_EPOCH`, in milliseconds; zero where the clock stands
/// before the epoch. Nothing is promised of what the clock says.
#[verifier::external_body]
pub(crate) fn unix_millis() -> (r: u128) {
    std::time::SystemTime::now().duration_since(std::time::UNIX_EPOCH).unwrap_or_default().as_millis()
}

/// The low 64 bits of a number.
pub open spec fn cut_to_64(n: u128) -> u64 {
    (n % 0x1_0000_0000_0000_0000) as u64
}

/// The whole seconds in milliseconds.
pub open spec fn whole_seconds(millis: u128) -> u128 {
    millis / 1000
}

/// The number for ids that milliseconds since the epoch make: cut to 64 bits.
pub fn id_of_millis(millis: u128) -> (r: u64)
    ensures
        r == cut_to_64(millis),
{
    (millis % 0x1_0000_0000_0000_0000) as u64
}

/// The whole seconds in milliseconds since the epoch, cut to 64 bits.
pub fn seconds_of_millis(millis: u128) -> (r: u64)
    ensures
        r == cut_to_64(whole_seconds(millis)),
{
    id_of_millis(millis / 1000)
}

/// A number for ids: the milliseconds since the epoch, cut to 64 bits. Which they are,
/// the clock says.
pub fn chrono_like_id() -> (r: u64)
    ensures
        exists|millis: u128| r == #[trigger] cut_to_64(millis),
{
    id_of_millis(unix_millis())
}

/// The whole seconds since the epoch, cut to 64 bits. Which they are, the clock says.
pub fn unix_seconds() -> (r: u64)
    ensures
        exists|millis: u128| r == cut_to_64(#[trigger] whole_seconds(millis)),
{
    seconds_of_millis(unix_millis())
}

/// `chrono::Utc::now` written with a format: the time of now. Nothing is promised of what
/// the clock says. Only this format is asked for, which `chrono` can write.
#[verifier::external_body]
pub(crate) fn utc_now(format: &str) -> (r: String)
    requires
        format@ == "%Y-%m-%dT%H:%M:%SZ"@,
{
    chrono::Utc::now().format(format).to_string()
}

} // verus!
