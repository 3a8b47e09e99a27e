use vstd::prelude::*;

verus! {

/// A source of timestamps for dispatched events.
///
/// Exactly one clock is shared across all dispatches of a single watcher.
/// The `Utc` variant reads the wall clock; the `Fixed` variant always
/// returns the instant it was built with, so a run can be replayed
/// deterministically.
#[derive(Clone, Copy, Debug, PartialEq, Eq, Structural)]
pub enum Clock {
    Utc,
    Fixed(i64),
}

/// Relies on `std::time::SystemTime`: the wall-clock time now, as
/// milliseconds since the Unix epoch. The result depends on the moment of
/// the call, so nothing is promised of it.
#[verifier::external_body]
fn wall_clock_millis() -> i64 {
    match std::time::UNIX_EPOCH.elapsed() {
        Ok(d) => d.as_millis() as i64,
        Err(_) => 0,
    }
}

impl Clock {
    /// The current time: the wall clock for `Utc`, the configured instant
    /// for `Fixed`.
    pub fn now(&self) -> (ts: i64)
        ensures
            (match *self {
                Clock::Fixed(t0) => ts == t0,
                Clock::Utc => true,
            }),
    {
        match *self {
            Clock::Utc => wall_clock_millis(),
            Clock::Fixed(t0) => t0,
        }
    }
}

} // verus!
