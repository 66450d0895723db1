//! A clock that runs with the machine's monotonic clock.
//!
//! A moment is a number of nanoseconds on a clock. What a clock shows is not known
//! beforehand. A [`Reading`] is made by reading a clock and in no other way, so that
//! whoever holds one has asked the clock.
use std::time::Instant;

use vstd::prelude::*;

verus! {

/// A moment of the machine's monotonic clock.
#[verifier::external_type_specification]
#[verifier::external_body]
pub struct ExInstant(Instant);

/// A clock that shows the nanoseconds since its start.
#[derive(Debug, Clone, Copy)]
pub struct Clock {
    start: Instant,
}

impl View for Clock {
    type V = Instant;

    /// The start of the clock.
    closed spec fn view(&self) -> Instant {
        self.start
    }
}

/// A reading of a clock.
pub struct Reading {
    start: Instant,
    nanos: u128,
}

/// The contents of a [`Reading`].
pub struct ReadingView {
    /// The start of the clock that was read.
    pub clock: Instant,
    /// The nanoseconds that it showed.
    pub nanos: u128,
}

impl View for Reading {
    type V = ReadingView;

    closed spec fn view(&self) -> ReadingView {
        ReadingView { clock: self.start, nanos: self.nanos }
    }
}

impl Clock {
    /// The clock that was started at `start`.
    pub fn started_at(start: Instant) -> (clock: Clock)
        ensures
            clock@ == start,
    {
        Clock { start }
    }
}

impl Reading {
    /// The nanoseconds that the clock showed.
    pub fn nanos(&self) -> (nanos: u128)
        ensures
            nanos == self@.nanos,
    {
        self.nanos
    }
}

/// `std::time::Instant::now`: a clock that is started now. Which moment that is depends on
/// when it is asked for, and is not said.
#[verifier::external_body]
pub(crate) fn start_clock() -> (clock: Clock) {
    Clock { start: Instant::now() }
}

/// `std::time::Instant::elapsed`: the time since the start of a clock, in nanoseconds. It is
/// said which clock was read. What it showed depends on when it was read, and is not said.
#[verifier::external_body]
pub(crate) fn read_clock(clock: &Clock) -> (now: Reading)
    ensures
        now@.clock == clock@,
{
    Reading { start: clock.start, nanos: clock.start.elapsed().as_nanos() }
}

/// The time from one moment to another, and none where `start` is the later of the two.
pub open spec fn time_since(start: nat, now: nat) -> nat {
    if start <= now {
        (now - start) as nat
    } else {
        0
    }
}

/// The time from one moment to another, and none where `start` is the later of the two.
pub fn since(start: u128, now: u128) -> (nanos: u128)
    ensures
        nanos == time_since(start as nat, now as nat),
{
    if start <= now {
        now - start
    } else {
        0
    }
}

/// The time since a moment is what has to be added to it to get the present one, and nothing
/// where the moment lies ahead.
pub proof fn law_time_since(start: nat, now: nat)
    ensures
        start <= now ==> start + time_since(start, now) == now,
        now <= start ==> time_since(start, now) == 0,
{
}

/// What is said of a clock, and of a reading, is what they hold.
proof fn law_clocks_are_seen_whole(clock: Clock, reading: Reading)
    ensures
        clock@ == clock.start,
        reading@.clock == reading.start,
        reading@.nanos == reading.nanos,
{
}

} // verus!
