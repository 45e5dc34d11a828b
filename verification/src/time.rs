//! Time spans and points in time, counted in whole nanoseconds.
use vstd::prelude::*;

verus! {

#[verifier::external_type_specification]
#[verifier::external_body]
pub struct ExSystemTimeError(std::time::SystemTimeError);

/// A span of time.
#[derive(Clone, Copy, Debug, PartialEq, Eq, Hash, Structural)]
pub struct Duration {
    nanos: u128,
}

impl View for Duration {
    type V = nat;

    closed spec fn view(&self) -> nat {
        self.nanos as nat
    }
}

impl Duration {
    /// The empty span.
    pub fn zero() -> (r: Self)
        ensures
            r@ == 0,
    {
        Duration { nanos: 0 }
    }

    /// A span of `nanos` nanoseconds.
    pub fn from_nanos(nanos: u64) -> (r: Self)
        ensures
            r@ == nanos,
    {
        Duration { nanos: nanos as u128 }
    }

    /// A span of `micros` microseconds.
    pub fn from_micros(micros: u64) -> (r: Self)
        ensures
            r@ == micros * 1_000,
    {
        Duration { nanos: (micros as u128) * 1_000 }
    }

    /// The span of `millis` milliseconds.
    pub closed spec fn from_millis_spec(millis: u64) -> Duration {
        Duration { nanos: (millis * 1_000_000) as u128 }
    }

    /// A span of `millis` milliseconds.
    pub fn from_millis(millis: u64) -> (r: Self)
        ensures
            r@ == millis * 1_000_000,
            r == Self::from_millis_spec(millis),
    {
        Duration { nanos: (millis as u128) * 1_000_000 }
    }

    /// A span of `secs` seconds.
    pub fn from_secs(secs: u64) -> (r: Self)
        ensures
            r@ == secs * 1_000_000_000,
    {
        Duration { nanos: (secs as u128) * 1_000_000_000 }
    }

    /// The span in nanoseconds.
    pub fn as_nanos(&self) -> (r: u128)
        ensures
            r == self@,
    {
        self.nanos
    }

    /// The span in whole milliseconds.
    pub fn as_millis(&self) -> (r: u128)
        ensures
            r == self@ / 1_000_000,
    {
        self.nanos / 1_000_000
    }
}

/// A point in time: nanoseconds since the UNIX epoch on the system clock.
#[derive(Clone, Copy, Debug, PartialEq, Eq, Hash, Structural)]
pub struct Instant {
    nanos: u128,
}

impl View for Instant {
    type V = nat;

    closed spec fn view(&self) -> nat {
        self.nanos as nat
    }
}

/// The span from `earlier` to `later`, or zero when `later` is not after `earlier`.
pub open spec fn span_between(earlier: nat, later: nat) -> nat {
    if later >= earlier {
        (later - earlier) as nat
    } else {
        0
    }
}

/// Calls `SystemTime::elapsed` on `std::time::UNIX_EPOCH`; the reading depends on the clock, so
/// nothing is stated of it.
#[verifier::external_body]
fn read_system_clock() -> (r: Result<std::time::Duration, std::time::SystemTimeError>) {
    std::time::UNIX_EPOCH.elapsed()
}

/// Calls `Duration::as_nanos` of std. `std::time::Duration` is opaque here, so the contract
/// states nothing of the count it returns.
#[verifier::external_body]
fn std_duration_nanos(d: &std::time::Duration) -> (r: u128) {
    d.as_nanos()
}

impl Instant {
    /// The point `nanos` nanoseconds after the UNIX epoch.
    pub fn from_nanos(nanos: u128) -> (r: Self)
        ensures
            r@ == nanos,
    {
        Instant { nanos }
    }

    /// Nanoseconds since the UNIX epoch.
    pub fn as_nanos(&self) -> (r: u128)
        ensures
            r == self@,
    {
        self.nanos
    }

    /// The current point in time, read from the system clock (the epoch itself when the clock
    /// stands before it).
    pub fn now() -> (r: Self) {
        match read_system_clock() {
            Ok(d) => Instant { nanos: std_duration_nanos(&d) },
            Err(_) => Instant { nanos: 0 },
        }
    }

    /// `true` when `self` lies strictly before `other`.
    pub fn is_before(&self, other: &Instant) -> (r: bool)
        ensures
            r == (self@ < other@),
    {
        self.nanos < other.nanos
    }

    /// The later of `self` and `other`.
    pub fn later(&self, other: &Instant) -> (r: Instant)
        ensures
            r == (if self@ < other@ { *other } else { *self }),
    {
        if self.nanos < other.nanos {
            *other
        } else {
            *self
        }
    }

    /// The span from `earlier` to `self`, zero when `earlier` is not before `self`.
    pub closed spec fn span_since(self, earlier: Instant) -> Duration {
        Duration { nanos: if self.nanos >= earlier.nanos { (self.nanos - earlier.nanos) as u128 } else { 0 } }
    }

    /// The span from `earlier` to `self` counts the nanoseconds between them.
    pub proof fn lemma_span_since(self, earlier: Instant)
        ensures
            #[trigger] self.span_since(earlier)@ == span_between(earlier@, self@),
    {
    }

    /// The span from `earlier` to `self`, zero when `earlier` is not before `self`.
    pub fn duration_since(&self, earlier: &Instant) -> (r: Duration)
        ensures
            r@ == span_between(earlier@, self@),
            r == self.span_since(*earlier),
    {
        if self.nanos >= earlier.nanos {
            Duration { nanos: self.nanos - earlier.nanos }
        } else {
            Duration { nanos: 0 }
        }
    }

    /// The span from `self` to the current point in time; the reading depends on the clock.
    pub fn elapsed(&self) -> (r: Duration)
        ensures
            exists|now: Instant| r@ == #[trigger] span_between(self@, now@),
    {
        Instant::now().duration_since(self)
    }
}

} // verus!
