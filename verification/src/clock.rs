//! Boot-time counter clock: the number of counter ticks in 100 ms, measured
//! once, and the millisecond timestamps derived from it.

use vstd::prelude::*;
use crate::result::{ErrorDetail, ErrorType, TraceLocation, Wirt};

verus! {

/// Counter clock calibrated against a 100 ms wait.
#[derive(Debug, Default, Clone, Copy, PartialEq, Eq)]
pub struct TSC {
    clock_in_100ms: Option<u64>,
}

impl TSC {
    /// Ticks in 100 ms, once measured; never zero.
    pub closed spec fn ticks_per_100ms(&self) -> Option<u64> {
        self.clock_in_100ms
    }

    /// A measured rate is never zero.
    pub closed spec fn wf(&self) -> bool {
        self.clock_in_100ms matches Some(c) ==> c > 0
    }

    /// A clock whose rate is not known yet.
    pub fn new() -> (r: TSC)
        ensures
            r.wf(),
            r.ticks_per_100ms() is None,
    {
        TSC { clock_in_100ms: None }
    }

    /// Ticks in 100 ms, once measured.
    pub fn clock_in_100ms(&self) -> (r: Option<u64>)
        ensures
            r == self.ticks_per_100ms(),
    {
        self.clock_in_100ms
    }

    /// Records the counter readings `start` and `end` taken around a 100 ms
    /// wait. Equal readings are a `DeviceError` raised at `loc`, and the
    /// clock stays as it was.
    pub fn init(&mut self, start: u64, end: u64, loc: TraceLocation) -> (r: Wirt<()>)
        requires
            old(self).wf(),
            start <= end,
        ensures
            final(self).wf(),
            end > start ==> final(self).ticks_per_100ms() == Some((end - start) as u64) && r.outcome()
                == Ok::<(), ErrorDetail>(()),
            end == start ==> final(self).ticks_per_100ms() == old(self).ticks_per_100ms(),
            end == start ==> (r.outcome() matches Err(d) && d.ty is DeviceError && d.log@ == seq![loc]
                && (d.desc matches Some(s) && s@ == "100ms clock is zero"@)),
    {
        let diff = end - start;
        if diff != 0 {
            self.clock_in_100ms = Some(diff);
            Wirt::new_ok(())
        } else {
            Wirt::new_err(ErrorType::DeviceError, Some("100ms clock is zero"), loc)
        }
    }
}

/// Milliseconds since counter zero that the log stamps on a record: the
/// counter reading divided by the ticks per millisecond, 0 while the clock
/// is unknown.
pub open spec fn log_millis(ticks_per_100ms: Option<u64>, now: u64) -> nat {
    match ticks_per_100ms {
        Some(c) => now as nat / (c as nat / 100),
        None => 0,
    }
}

/// Timestamp of a log record taken at counter reading `now`.
pub fn log_time(timer: Option<&TSC>, now: u64) -> (r: u64)
    requires
        timer matches Some(t) ==> (t.ticks_per_100ms() matches Some(c) ==> c >= 100),
    ensures
        r == log_millis(
            match timer {
                Some(t) => t.ticks_per_100ms(),
                None => None,
            },
            now,
        ),
{
    match timer {
        Some(t) => match t.clock_in_100ms() {
            Some(clock) => {
                let tsc_per_ms = clock / 100;
                now / tsc_per_ms
            },
            None => 0,
        },
        None => 0,
    }
}

} // verus!
