//! The monotonic clock that windows and token lifetimes are measured by.
use std::time::Instant;

use vstd::prelude::*;

verus! {

/// `std`'s monotonic instant, carried through unread.
#[verifier::external_type_specification]
#[verifier::external_body]
pub struct ExInstant(std::time::Instant);

/// `Instant::now`: the present instant. Which one it is, is the machine's.
pub assume_specification[ Instant::now ]() -> Instant;

/// `Instant::elapsed`, in nanoseconds: the time since the instant. How much
/// it is, is the machine's.
#[verifier::external_body]
fn nanos_since(start: &Instant) -> (r: u128) {
    start.elapsed().as_nanos()
}

/// A clock that counts nanoseconds from its start. Its readings do not go
/// back.
#[derive(Debug)]
pub struct Clock {
    start: Instant,
    /// The latest reading.
    latest: u128,
}

impl Clock {
    /// The latest reading; zero before the first.
    pub(crate) closed spec fn latest(&self) -> u128 {
        self.latest
    }

    /// Starts the clock, before its first reading.
    pub(crate) fn start() -> (r: Clock)
        ensures
            r.latest() == 0,
    {
        Clock { start: Instant::now(), latest: 0 }
    }

    /// Reads the clock: the nanoseconds since its start, which are no fewer
    /// than at any reading before. By how many they are more, is the
    /// machine's.
    pub(crate) fn now(&mut self) -> (r: u128)
        ensures
            r >= old(self).latest(),
            final(self).latest() == r,
    {
        let elapsed: u128 = nanos_since(&self.start);
        if elapsed > self.latest {
            self.latest = elapsed;
        }
        self.latest
    }
}

} // verus!
