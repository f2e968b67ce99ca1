//! Timestamps.
use vstd::prelude::*;
use crate::text::{decimal, owned, push_decimal, push_str};

verus! {

/// Seconds since the Unix epoch on the system clock, from std's
/// `SystemTime::now`; 0 when the clock reads before the epoch. Nothing is
/// promised of the value: it is whatever the clock says.
#[verifier::external_body]
fn unix_seconds_now() -> (secs: u64) {
    std::time::SystemTime::now().duration_since(std::time::UNIX_EPOCH).unwrap_or_default().as_secs()
}

/// The timestamp text for `secs` seconds after the Unix epoch:
/// `1970-01-01T00:00:00Z+<secs>s`.
pub open spec fn timestamp_text(secs: nat) -> Seq<char> {
    "1970-01-01T00:00:00Z+"@ + decimal(secs) + "s"@
}

/// Whether `t` is a timestamp text.
pub open spec fn is_timestamp(t: Seq<char>) -> bool {
    exists|secs: nat| t == timestamp_text(secs)
}

/// The timestamp text for a given number of seconds after the epoch.
pub fn timestamp_for(secs: u64) -> (r: String)
    ensures
        r@ == timestamp_text(secs as nat),
{
    let mut r = owned("1970-01-01T00:00:00Z+");
    push_decimal(&mut r, secs);
    push_str(&mut r, "s");
    r
}

/// The current time as a timestamp text (second precision, relative to the
/// Unix epoch); stable in format and non-decreasing with the clock.
pub fn now_iso() -> (r: String)
    ensures
        is_timestamp(r@),
{
    let secs = unix_seconds_now();
    let r = timestamp_for(secs);
    proof {
        assert(r@ == timestamp_text(secs as nat));
    }
    r
}

} // verus!
