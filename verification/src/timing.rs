//! Plain-value time model of the protocol.
//!
//! A UTC instant is held as whole seconds since the Unix epoch plus a
//! subsecond nanosecond count; a duration as whole seconds plus nanoseconds.
//! On the schema'd wire form durations travel as milliseconds, so conversion
//! drops sub-millisecond precision by design.

use vstd::prelude::*;

verus! {

/// A UTC instant: seconds since the Unix epoch and a subsecond part.
#[derive(Clone, Copy, Debug, PartialEq, Eq, Structural)]
pub struct UtcInstant {
    pub secs: i64,
    pub nanos: u32,
}

impl UtcInstant {
    /// The subsecond part stays below one second.
    pub open spec fn wf(self) -> bool {
        self.nanos < 1_000_000_000
    }

    /// The current UTC time.
    pub fn now() -> (r: UtcInstant)
        ensures
            r.wf(),
    {
        let (secs, nanos) = now_unix();
        // A leap second reads as a subsecond count of one second or more;
        // hold it at the last representable instant of its second.
        let capped: u32 = if nanos >= 1_000_000_000 {
            999_999_999
        } else {
            nanos
        };
        UtcInstant { secs, nanos: capped }
    }
}

/// Relies on chrono::Utc::now, chrono::DateTime::timestamp and
/// chrono::DateTime::timestamp_subsec_nanos: the subsecond count is below
/// two billion nanoseconds (one billion or more only during a leap second).
#[verifier::external_body]
fn now_unix() -> (r: (i64, u32))
    ensures
        r.1 < 2_000_000_000,
{
    let now = chrono::Utc::now();
    (now.timestamp(), now.timestamp_subsec_nanos())
}

/// A span of time: whole seconds and a subsecond part.
#[derive(Clone, Copy, Debug, PartialEq, Eq, Structural)]
pub struct PorDuration {
    pub secs: u64,
    pub nanos: u32,
}

impl PorDuration {
    /// The subsecond part stays below one second.
    pub open spec fn wf(self) -> bool {
        self.nanos < 1_000_000_000
    }

    /// The duration as whole milliseconds, exact only above the
    /// millisecond precision floor.
    pub open spec fn spec_as_millis(self) -> int {
        self.secs * 1000 + self.nanos / 1_000_000
    }
}

/// The duration in whole milliseconds, truncated to 64 bits.
pub fn duration_to_millis(d: PorDuration) -> (r: u64)
    ensures
        r == d.spec_as_millis() % 0x1_0000_0000_0000_0000,
{
    let total: u128 = (d.secs as u128) * 1000 + ((d.nanos / 1_000_000) as u128);
    (total % 0x1_0000_0000_0000_0000) as u64
}

/// The duration a whole-millisecond wire value stands for.
pub open spec fn spec_millis_to_duration(ms: u64) -> PorDuration {
    PorDuration { secs: (ms / 1000) as u64, nanos: ((ms % 1000) * 1_000_000) as u32 }
}

/// The duration of exactly the given number of milliseconds.
pub fn millis_to_duration(ms: u64) -> (r: PorDuration)
    ensures
        r == spec_millis_to_duration(ms),
        r.wf(),
        r.secs == ms / 1000,
        r.nanos == (ms % 1000) * 1_000_000,
        r.spec_as_millis() == ms,
{
    PorDuration { secs: ms / 1000, nanos: (ms % 1000) as u32 * 1_000_000 }
}

} // verus!
