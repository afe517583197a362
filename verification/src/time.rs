//! The two clocks of the daemon, as plain numbers.

use vstd::prelude::*;

verus! {

pub const NANOS_PER_SEC: u64 = 1_000_000_000;

pub const NANOS_PER_MILLI: u64 = 1_000_000;

/// A reading of the wall clock: nanoseconds since the Unix epoch.
#[derive(Clone, Copy, Debug, PartialEq, Eq, Structural)]
pub struct WallTime {
    pub nanos: u64,
}

/// A reading of the monotonic clock: nanoseconds since an origin that is
/// fixed for the life of the process.
#[derive(Clone, Copy, Debug, PartialEq, Eq, Structural)]
pub struct MonoTime {
    pub nanos: u64,
}

impl WallTime {
    /// Whole seconds since the Unix epoch.
    pub open spec fn spec_secs(self) -> u64 {
        self.nanos / NANOS_PER_SEC
    }

    /// The whole seconds of this reading.
    pub fn secs(self) -> (secs: u64)
        ensures
            secs == self.spec_secs(),
    {
        self.nanos / NANOS_PER_SEC
    }
}

impl MonoTime {
    /// Nanoseconds from `earlier` to `self`, zero where `earlier` is later.
    pub open spec fn spec_since(self, earlier: MonoTime) -> nat {
        if self.nanos >= earlier.nanos {
            (self.nanos - earlier.nanos) as nat
        } else {
            0
        }
    }

    /// The time from `earlier` to this reading, zero where `earlier` is later.
    pub fn saturating_since(self, earlier: MonoTime) -> (nanos: u64)
        ensures
            nanos == self.spec_since(earlier),
    {
        if self.nanos >= earlier.nanos {
            self.nanos - earlier.nanos
        } else {
            0
        }
    }
}

/// The time between two readings is what must be added to the earlier to get
/// the later; nothing lies between a reading and one that is not earlier.
pub proof fn law_time_passes_forward(earlier: MonoTime, later: MonoTime)
    ensures
        earlier.nanos <= later.nanos ==> earlier.nanos + later.spec_since(earlier) == later.nanos,
        earlier.nanos >= later.nanos ==> later.spec_since(earlier) == 0,
{
}

/// The whole seconds of a reading are those that have passed.
pub proof fn law_seconds_are_whole(at: WallTime)
    ensures
        at.spec_secs() * 1_000_000_000 <= at.nanos < (at.spec_secs() + 1) * 1_000_000_000,
{
}

/// A length of time: whole seconds and nanoseconds below a second.
#[derive(Clone, Copy, Debug, PartialEq, Eq)]
pub struct Span {
    whole: u64,
    sub: u32,
}

impl Span {
    #[verifier::type_invariant]
    spec fn valid(self) -> bool {
        self.sub < NANOS_PER_SEC
    }

    /// The whole seconds.
    pub closed spec fn secs(self) -> u64 {
        self.whole
    }

    /// The nanoseconds below a second.
    pub closed spec fn nanos(self) -> u32 {
        self.sub
    }

    /// The span of `secs` seconds and `nanos` nanoseconds, where the latter
    /// make up less than a second.
    pub fn new(secs: u64, nanos: u32) -> (span: Option<Span>)
        ensures
            match span {
                Some(s) => nanos < NANOS_PER_SEC && s.secs() == secs && s.nanos() == nanos,
                None => nanos >= NANOS_PER_SEC,
            },
    {
        if (nanos as u64) < NANOS_PER_SEC {
            Some(Span { whole: secs, sub: nanos })
        } else {
            None
        }
    }

    /// The seconds and the nanoseconds below a second.
    pub fn parts(self) -> (parts: (u64, u32))
        ensures
            parts.0 == self.secs(),
            parts.1 == self.nanos(),
            parts.1 < NANOS_PER_SEC,
    {
        proof {
            use_type_invariant(&self);
        }
        (self.whole, self.sub)
    }
}

} // verus!
