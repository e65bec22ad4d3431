//! A span of time with nanosecond precision, as the download engine measures
//! elapsed transfer time and retry delays.

use vstd::prelude::*;

verus! {

/// Whole seconds plus a sub-second part below one second, like `std::time::Duration`.
#[derive(Clone, Copy, Debug, PartialEq, Eq)]
pub struct Elapsed {
    secs: u64,
    nanos: u32,
}

impl Elapsed {
    #[verifier::type_invariant]
    spec fn well_formed(self) -> bool {
        self.nanos < 1_000_000_000
    }

    /// Whole seconds.
    pub closed spec fn spec_secs(self) -> nat {
        self.secs as nat
    }

    /// Nanoseconds past the whole seconds.
    pub closed spec fn spec_subsec_nanos(self) -> nat {
        self.nanos as nat
    }

    /// The whole span in nanoseconds.
    pub open spec fn total_nanos(self) -> int {
        (self.spec_secs() * 1_000_000_000 + self.spec_subsec_nanos()) as int
    }

    /// The whole span in milliseconds, rounded down.
    pub open spec fn total_millis(self) -> int {
        self.total_nanos() / 1_000_000
    }

    /// `secs` seconds and `nanos` nanoseconds, with `nanos` below one second.
    pub fn new(secs: u64, nanos: u32) -> (e: Elapsed)
        requires
            nanos < 1_000_000_000,
        ensures
            e.spec_secs() == secs,
            e.spec_subsec_nanos() == nanos,
    {
        Elapsed { secs, nanos }
    }

    /// A span of `ms` milliseconds.
    pub fn from_millis(ms: u64) -> (e: Elapsed)
        ensures
            e.total_nanos() == ms * 1_000_000,
            e.spec_secs() == ms / 1000,
    {
        let nanos = ((ms % 1000) as u32) * 1_000_000;
        Elapsed { secs: ms / 1000, nanos }
    }

    /// A span of `secs` whole seconds.
    pub fn from_secs(secs: u64) -> (e: Elapsed)
        ensures
            e.spec_secs() == secs,
            e.spec_subsec_nanos() == 0,
    {
        Elapsed { secs, nanos: 0 }
    }

    /// Whole seconds.
    pub fn as_secs(&self) -> (s: u64)
        ensures
            s == self.spec_secs(),
    {
        self.secs
    }

    /// Nanoseconds past the whole seconds.
    pub fn subsec_nanos(&self) -> (n: u32)
        ensures
            n == self.spec_subsec_nanos(),
            n < 1_000_000_000,
    {
        proof {
            use_type_invariant(self);
        }
        self.nanos
    }

    /// Milliseconds past the whole seconds.
    pub fn subsec_millis(&self) -> (m: u32)
        ensures
            m == self.spec_subsec_nanos() / 1_000_000,
            m < 1000,
    {
        proof {
            use_type_invariant(self);
        }
        self.nanos / 1_000_000
    }

    /// The whole span in milliseconds, rounded down.
    pub fn as_millis(&self) -> (m: u128)
        ensures
            m == self.total_millis(),
    {
        proof {
            use_type_invariant(self);
        }
        (self.secs as u128) * 1000 + (self.nanos / 1_000_000) as u128
    }
}

} // verus!
