//! Time-stamp counter timer: calibration on each processor, conversion of
//! counter readings to time, busy-wait targets and the UTC offset.
//! Durations are counted in nanoseconds.

use vstd::prelude::*;
use crate::timer::TimerConstTimeStampInfo;

verus! {

/// Nanoseconds in the longest duration the kernel represents
/// (`u64::MAX` seconds and 999 999 999 nanoseconds).
pub open spec fn max_duration_nanos() -> nat {
    u64::MAX as nat * 1_000_000_000 + 999_999_999
}

/// Per-processor calibration of a counter that is not invariant.
#[derive(Debug, Default, Clone, Copy, PartialEq, Eq)]
pub struct TscGsData {
    pub par_100ns: u64,
    pub adjust: u64,
}

/// The counter timer shared by all processors.
#[derive(Debug, Clone, Copy, PartialEq, Eq)]
pub struct Tsc {
    /// The counter runs at the same rate on all processors and in all states.
    pub is_invariant: bool,
    /// Counts per 100 ns, once measured (invariant counters only).
    pub par_100ns: u64,
    /// UTC time at counter zero, 0 while unknown.
    pub utc_offset_nanos: u128,
}

/// Counts per 100 ns that the timer uses on a processor.
pub open spec fn counts_per_100ns(tsc: Tsc, gs: TscGsData) -> int {
    if tsc.is_invariant {
        tsc.par_100ns as int
    } else {
        gs.par_100ns + gs.adjust
    }
}

/// Nanoseconds since counter zero for a counter reading, truncated to 64 bits;
/// 0 while the rate is unknown.
pub open spec fn tsc_nanos(tsc: Tsc, gs: TscGsData, current_tsc: u64) -> nat {
    if counts_per_100ns(tsc, gs) == 0 {
        0
    } else {
        ((current_tsc * 100 / counts_per_100ns(tsc, gs)) % 0x1_0000_0000_0000_0000) as nat
    }
}

impl Tsc {
    /// A timer that has not been calibrated and knows no UTC time.
    pub fn new(is_invariant: bool) -> (r: Tsc)
        ensures
            r.is_invariant == is_invariant,
            r.par_100ns == 0,
            r.utc_offset_nanos == 0,
    {
        Tsc { is_invariant, par_100ns: 0, utc_offset_nanos: 0 }
    }

    /// Resolution of the timer, in nanoseconds.
    pub fn accuracy(&self) -> (r: u64)
        ensures
            r == 100,
    {
        100
    }

    /// A UTC timestamp needs a reference time first.
    pub fn utc_supported(&self) -> (r: TimerConstTimeStampInfo)
        ensures
            r == TimerConstTimeStampInfo::NeedInit,
    {
        TimerConstTimeStampInfo::NeedInit
    }

    /// A local timestamp needs a reference time first.
    pub fn lts_supported(&self) -> (r: TimerConstTimeStampInfo)
        ensures
            r == TimerConstTimeStampInfo::NeedInit,
    {
        TimerConstTimeStampInfo::NeedInit
    }

    /// Whether this processor still has to measure the counter rate: not
    /// when it already did, nor when an invariant counter was measured by
    /// another processor.
    pub fn needs_calibration(&self, gs_tsc_init: bool) -> (r: bool)
        ensures
            r == (!gs_tsc_init && !(self.is_invariant && self.par_100ns > 0)),
    {
        if gs_tsc_init {
            return false;
        }
        if self.is_invariant && self.par_100ns > 0 {
            return false;
        }
        true
    }

    /// Records a rate measurement: the counter read `start` and `end` around
    /// a wait of `wait_nanos`. Nothing changes when the processor needs no
    /// calibration (see `needs_calibration`) or the wait is shorter than
    /// 100 ns. Otherwise the processor is marked calibrated and the counts per
    /// 100 ns are stored, in the shared timer for an invariant counter and in
    /// the processor's own data otherwise.
    pub fn init_for_ap(&mut self, gs_tsc_init: &mut bool, gs: &mut TscGsData, start: u64, end: u64, wait_nanos: u128)
        ensures
            ({
                let count: int = (end - start) % 0x1_0000_0000_0000_0000;
                let units: int = (wait_nanos / 100) as int % 0x1_0000_0000_0000_0000;
                if *old(gs_tsc_init) || (old(self).is_invariant && old(self).par_100ns > 0) || units == 0 {
                    &&& *final(self) == *old(self)
                    &&& *final(gs_tsc_init) == *old(gs_tsc_init)
                    &&& *final(gs) == *old(gs)
                } else {
                    &&& *final(gs_tsc_init)
                    &&& final(self).is_invariant == old(self).is_invariant
                    &&& final(self).utc_offset_nanos == old(self).utc_offset_nanos
                    &&& if old(self).is_invariant {
                        &&& final(self).par_100ns == count / units
                        &&& *final(gs) == *old(gs)
                    } else {
                        &&& final(self).par_100ns == old(self).par_100ns
                        &&& final(gs).par_100ns == count / units
                        &&& final(gs).adjust == old(gs).adjust
                    }
                }
            }),
    {
        if !self.needs_calibration(*gs_tsc_init) {
            return;
        }
        let count = end.wrapping_sub(start);
        assert(count as int == (end - start) % 0x1_0000_0000_0000_0000int);
        let units = (wait_nanos / 100) as u64;
        let q = wait_nanos / 100;
        assert(q as u64 as u128 == q % 0x1_0000_0000_0000_0000u128) by (bit_vector);
        if units == 0 {
            return;
        }
        let par_100ns_value = count / units;
        *gs_tsc_init = true;
        if self.is_invariant {
            self.par_100ns = par_100ns_value;
        } else {
            gs.par_100ns = par_100ns_value;
        }
    }

    /// Counts per 100 ns on this processor.
    pub fn get_val(&self, gs: &TscGsData) -> (r: u64)
        requires
            !self.is_invariant ==> gs.par_100ns + gs.adjust <= u64::MAX,
        ensures
            r == counts_per_100ns(*self, *gs),
    {
        if self.is_invariant {
            self.par_100ns
        } else {
            gs.par_100ns + gs.adjust
        }
    }

    /// Nanoseconds since counter zero for the reading `current_tsc`.
    pub fn get_time(&self, gs: &TscGsData, current_tsc: u64) -> (r: u64)
        requires
            !self.is_invariant ==> gs.par_100ns + gs.adjust <= u64::MAX,
        ensures
            r == tsc_nanos(*self, *gs, current_tsc),
    {
        let counts = self.get_val(gs) as u128;
        if counts == 0 {
            return 0;
        }
        let nanos = (current_tsc as u128 * 100) / counts;
        assert(nanos as u64 as u128 == nanos % 0x1_0000_0000_0000_0000u128) by (bit_vector);
        nanos as u64
    }

    /// Counter value at which a wait of `wait_nanos` that began at
    /// `start_tsc` is over.
    pub fn spin_target(&self, gs: &TscGsData, start_tsc: u64, wait_nanos: u128) -> (r: u128)
        requires
            !self.is_invariant ==> gs.par_100ns + gs.adjust <= u64::MAX,
            wait_nanos * counts_per_100ns(*self, *gs) <= u128::MAX,
        ensures
            r == start_tsc + wait_nanos * counts_per_100ns(*self, *gs) / 100,
    {
        let counts = self.get_val(gs) as u128;
        let wait_counts = (wait_nanos * counts) / 100;
        start_tsc as u128 + wait_counts
    }

    /// Sets the UTC time now to `utc_nanos`, the counter reading now being
    /// `current_tsc`: the offset is the UTC time minus the timer's time.
    pub fn option_init_time_stamp(&mut self, gs: &TscGsData, utc_nanos: u128, current_tsc: u64)
        requires
            !old(self).is_invariant ==> gs.par_100ns + gs.adjust <= u64::MAX,
            tsc_nanos(*old(self), *gs, current_tsc) <= utc_nanos,
        ensures
            final(self).utc_offset_nanos == utc_nanos - tsc_nanos(*old(self), *gs, current_tsc),
            final(self).is_invariant == old(self).is_invariant,
            final(self).par_100ns == old(self).par_100ns,
    {
        let current_time = self.get_time(gs, current_tsc);
        self.utc_offset_nanos = utc_nanos - current_time as u128;
    }

    /// UTC time for the counter reading `current_tsc`, unknown while no UTC
    /// reference was given.
    pub fn get_world_time_utc(&self, gs: &TscGsData, current_tsc: u64) -> (r: Option<u128>)
        requires
            !self.is_invariant ==> gs.par_100ns + gs.adjust <= u64::MAX,
            self.utc_offset_nanos + tsc_nanos(*self, *gs, current_tsc) <= max_duration_nanos(),
        ensures
            self.utc_offset_nanos == 0 ==> r is None,
            self.utc_offset_nanos != 0 ==> r == Some((self.utc_offset_nanos + tsc_nanos(*self, *gs, current_tsc)) as u128),
    {
        if self.utc_offset_nanos == 0 {
            return None;
        }
        Some(self.utc_offset_nanos + self.get_time(gs, current_tsc) as u128)
    }
}

/// The timer never runs backwards: a later counter reading gives at least
/// the time of an earlier one, as long as the time fits in 64 bits.
pub proof fn lemma_tsc_time_monotonic(tsc: Tsc, gs: TscGsData, c1: u64, c2: u64)
    requires
        c1 <= c2,
        counts_per_100ns(tsc, gs) > 0,
        c2 * 100 / counts_per_100ns(tsc, gs) < 0x1_0000_0000_0000_0000,
    ensures
        tsc_nanos(tsc, gs, c1) <= tsc_nanos(tsc, gs, c2),
{
    let d = counts_per_100ns(tsc, gs);
    vstd::arithmetic::div_mod::lemma_div_is_ordered(c1 * 100, c2 * 100, d);
    vstd::arithmetic::div_mod::lemma_div_pos_is_pos(c1 * 100, d);
}

/// After the UTC time is set from a counter reading, reading the UTC time
/// with the same counter reading gives back the time that was set (when it
/// was not the counter's own zero).
pub proof fn lemma_utc_round_trip(tsc: Tsc, set: Tsc, gs: TscGsData, utc_nanos: u128, current_tsc: u64)
    requires
        tsc_nanos(tsc, gs, current_tsc) <= utc_nanos,
        set.utc_offset_nanos == utc_nanos - tsc_nanos(tsc, gs, current_tsc),
        set.is_invariant == tsc.is_invariant,
        set.par_100ns == tsc.par_100ns,
        set.utc_offset_nanos != 0,
    ensures
        set.utc_offset_nanos + tsc_nanos(set, gs, current_tsc) == utc_nanos,
{
}

} // verus!
