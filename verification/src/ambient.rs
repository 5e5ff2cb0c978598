//! Calls whose results come from the environment: fresh ids and the
//! clock. Nothing downstream depends on more than what is stated here;
//! every caller states what holds whatever value comes back.

use vstd::prelude::*;

verus! {

/// Relies on `uuid::Uuid::new_v4` and its hyphenated text form: a fresh
/// random identifier, always 36 characters.
#[verifier::external_body]
pub fn new_monitor_id() -> (r: String)
    ensures
        r@.len() == 36,
{
    uuid::Uuid::new_v4().to_string()
}

/// Relies on `chrono::Utc::now` and `DateTime::to_rfc3339`: the current
/// instant, written as RFC 3339 text. The result depends on the clock,
/// so nothing is claimed of it.
#[verifier::external_body]
pub fn now_rfc3339() -> (r: String) {
    chrono::Utc::now().to_rfc3339()
}

/// Relies on `chrono::Utc::now`, `TimeDelta::minutes` and the addition
/// of a delta to a `DateTime`: the instant the given number of minutes
/// from now, written as RFC 3339 text. The bound on `minutes` keeps the
/// delta and the shifted date inside chrono's representable range, so
/// the call cannot panic. The result depends on the clock, so nothing
/// is claimed of it.
#[verifier::external_body]
pub fn rfc3339_after_minutes(minutes: i64) -> (r: String)
    requires
        -0x8000_0000 <= minutes <= 0x7fff_ffff,
{
    (chrono::Utc::now() + chrono::TimeDelta::minutes(minutes)).to_rfc3339()
}

} // verus!
