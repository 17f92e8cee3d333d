//! A span of time, as the limiters and their storages read it: whole seconds
//! plus a sub-second part in nanoseconds.
use vstd::prelude::*;

verus! {

/// Nanoseconds in one second.
pub const NANOS_PER_SEC: u32 = 1_000_000_000;

/// Nanoseconds in one millisecond.
pub const NANOS_PER_MILLI: u32 = 1_000_000;

/// A span of time: `secs` whole seconds and `nanos` nanoseconds, with
/// `nanos` below one second.
#[derive(Clone, Copy, Debug, PartialEq, Eq)]
pub struct Duration {
    secs: u64,
    nanos: u32,
}

impl Duration {
    #[verifier::type_invariant]
    spec fn well_formed(self) -> bool {
        self.nanos < NANOS_PER_SEC
    }

    /// The whole seconds of the span.
    pub closed spec fn whole_secs(self) -> u64 {
        self.secs
    }

    /// The nanoseconds beyond the whole seconds.
    pub closed spec fn subsec(self) -> u32 {
        self.nanos
    }

    /// The span in whole milliseconds.
    pub open spec fn total_millis(self) -> nat {
        (self.whole_secs() * 1000 + self.subsec() / NANOS_PER_MILLI) as nat
    }

    /// Builds `secs` seconds plus `nanos` nanoseconds; nanoseconds of one
    /// second or more are carried into the seconds.
    pub fn new(secs: u64, nanos: u32) -> (d: Duration)
        requires
            secs + nanos / NANOS_PER_SEC <= u64::MAX,
        ensures
            d.whole_secs() == secs + nanos / NANOS_PER_SEC,
            d.subsec() == nanos % NANOS_PER_SEC,
    {
        Duration { secs: secs + (nanos / NANOS_PER_SEC) as u64, nanos: nanos % NANOS_PER_SEC }
    }

    /// A span of `secs` whole seconds.
    pub fn from_secs(secs: u64) -> (d: Duration)
        ensures
            d.whole_secs() == secs,
            d.subsec() == 0,
    {
        Duration { secs, nanos: 0 }
    }

    /// The whole seconds of the span.
    pub fn as_secs(&self) -> (s: u64)
        ensures
            s == self.whole_secs(),
    {
        self.secs
    }

    /// The nanoseconds beyond the whole seconds.
    pub fn subsec_nanos(&self) -> (n: u32)
        ensures
            n == self.subsec(),
            n < NANOS_PER_SEC,
    {
        proof {
            use_type_invariant(self);
        }
        self.nanos
    }

    /// The span in whole milliseconds.
    pub fn as_millis(&self) -> (m: u128)
        ensures
            m == self.total_millis(),
    {
        self.secs as u128 * 1000 + (self.nanos / NANOS_PER_MILLI) as u128
    }
}

} // verus!
