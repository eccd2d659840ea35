//! CMOS real-time clock: BCD encoding, decoding of the date registers into
//! seconds since the Unix epoch, and the register writes that set the clock.

use vstd::prelude::*;
use crate::timer::TimerConstTimeStampInfo;
use crate::calendar::{
    days_before_month, days_before_year_closed_form, is_leap, lemma_days_before_month_leap,
    lemma_days_before_year_closed_form, month_length, unix_seconds,
};

verus! {

/// Value of a packed BCD byte: low nibble plus ten times the high nibble.
pub open spec fn bcd_value(bcd: u8) -> nat {
    (bcd % 16) as nat + (bcd / 16) as nat * 10
}

/// Both nibbles hold a decimal digit.
pub open spec fn is_valid_bcd(bcd: u8) -> bool {
    bcd % 16 <= 9 && bcd / 16 <= 9
}

/// BCD byte produced for a binary value: the tens digit shifted into the high
/// nibble (bits above the byte are lost), the units digit in the low nibble.
pub open spec fn bcd_encoding(bin: u8) -> nat {
    ((bin / 10) as nat * 16) % 256 + (bin % 10) as nat
}

/// Leap-year test of the RTC driver.
pub fn is_leap_year(year: u64) -> (r: bool)
    ensures
        r == is_leap(year as nat),
{
    (year % 4 == 0 && year % 100 != 0) || (year % 400 == 0)
}

/// Converts a packed BCD byte to binary.
pub fn bcd_to_bin(bcd: u8) -> (r: u8)
    ensures
        r as nat == bcd_value(bcd),
{
    assert(bcd & 0x0F == bcd % 16) by (bit_vector);
    assert(bcd >> 4u8 == bcd / 16) by (bit_vector);
    (bcd & 0x0F) + ((bcd >> 4) * 10)
}

/// Converts a binary value to packed BCD.
pub fn bin_to_bcd(bin: u8) -> (r: u8)
    ensures
        r as nat == bcd_encoding(bin),
{
    assert((((bin / 10) << 4u8) | (bin % 10)) as nat == (((bin / 10) as nat * 16) % 256) + (bin
        % 10) as nat) by (bit_vector);
    ((bin / 10) << 4) | (bin % 10)
}

/// Encoding a value below 100 and decoding it gives the value back.
pub proof fn lemma_bcd_round_trip(bin: u8)
    requires
        bin < 100,
    ensures
        bcd_encoding(bin) < 256,
        is_valid_bcd(bcd_encoding(bin) as u8),
        bcd_value(bcd_encoding(bin) as u8) == bin,
{
    assert((((bin / 10) as nat * 16) % 256 + (bin % 10) as nat) == ((bin / 10) * 16 + bin % 10)
        as nat) by (bit_vector)
        requires
            bin < 100u8,
    ;
    let e: u8 = ((bin / 10) * 16 + bin % 10) as u8;
    assert(e % 16 == bin % 10 && e / 16 == bin / 10 && e % 16 <= 9 && e / 16 <= 9) by (bit_vector)
        requires
            bin < 100u8,
            e == ((bin / 10) * 16 + bin % 10) as u8,
    ;
}

/// Decoding a valid BCD byte and encoding the result gives the byte back.
pub proof fn lemma_bcd_decode_encode(bcd: u8)
    requires
        is_valid_bcd(bcd),
    ensures
        bcd_value(bcd) < 100,
        bcd_encoding(bcd_value(bcd) as u8) == bcd,
{
    let v: u8 = ((bcd % 16) + (bcd / 16) * 10) as u8;
    assert(v < 100 && v / 10 == bcd / 16 && v % 10 == bcd % 16) by (bit_vector)
        requires
            bcd % 16 <= 9u8,
            bcd / 16 <= 9u8,
            v == ((bcd % 16) + (bcd / 16) * 10) as u8,
    ;
    assert(bcd == (bcd / 16) * 16 + bcd % 16) by (bit_vector);
}


/// Register index of the seconds counter.
pub const REG_SEC: u8 = 0x00;
/// Register index of the minutes counter.
pub const REG_MIN: u8 = 0x02;
/// Register index of the hours counter.
pub const REG_HOUR: u8 = 0x04;
/// Register index of the day of month.
pub const REG_DAY: u8 = 0x07;
/// Register index of the month.
pub const REG_MONTH: u8 = 0x08;
/// Register index of the year within the century.
pub const REG_YEAR: u8 = 0x09;
/// Register index of status register A (bit 7: update in progress).
pub const REG_STAT_A: u8 = 0x0A;
/// Register index of status register B (bit 7: updates halted).
pub const REG_STAT_B: u8 = 0x0B;
/// Register index of the century.
pub const REG_CENTURY: u8 = 0x32;

/// Status register A reports an update cycle in progress (bit 7).
pub fn is_updating(status_a: u8) -> (r: bool)
    ensures
        r == (status_a & 0x80 != 0),
{
    (status_a & 0x80) != 0
}

/// Hour in 24-hour form: the BCD hour in bits 0..=6, plus twelve when bit 7
/// (the PM flag) is set.
pub open spec fn decoded_hour(raw: u8) -> nat {
    bcd_value(raw & 0x7F) + if raw & 0x80 != 0 {
        12nat
    } else {
        0nat
    }
}

/// Raw contents of the CMOS date and time registers, as read from the chip.
#[derive(Clone, Copy, Debug, PartialEq, Eq)]
pub struct RtcRegisters {
    pub sec: u8,
    pub min: u8,
    pub hour: u8,
    pub day: u8,
    pub month: u8,
    pub year: u8,
    pub century: u8,
}

impl RtcRegisters {
    /// Full year: century register times 100 plus the year register.
    pub open spec fn year_value(self) -> nat {
        bcd_value(self.century) * 100 + bcd_value(self.year)
    }

    /// The registers describe a date the driver can convert: from 1970 on,
    /// a month register of at most 13 and a day of at least 1.
    pub open spec fn decodable(self) -> bool {
        &&& self.year_value() >= 1970
        &&& bcd_value(self.month) <= 13
        &&& bcd_value(self.day) >= 1
    }

    /// Seconds since the Unix epoch that the registers denote.
    pub open spec fn seconds(self) -> int {
        unix_seconds(
            self.year_value(),
            bcd_value(self.month),
            bcd_value(self.day),
            decoded_hour(self.hour),
            bcd_value(self.min),
            bcd_value(self.sec),
        )
    }

    /// Whether `Rtc::get_time` accepts these registers.
    pub fn is_decodable(&self) -> (r: bool)
        ensures
            r == self.decodable(),
    {
        let year = (bcd_to_bin(self.century) as u64) * 100 + bcd_to_bin(self.year) as u64;
        year >= 1970 && bcd_to_bin(self.month) <= 13 && bcd_to_bin(self.day) >= 1
    }
}

/// One write to a CMOS register.
#[derive(Clone, Copy, Debug, PartialEq, Eq)]
pub struct RtcWrite {
    pub reg: u8,
    pub value: u8,
}

/// Progress of the wait for the start of a fresh second.
#[derive(Clone, Copy, Debug, PartialEq, Eq)]
pub enum SyncState {
    /// The first stable reading of the seconds register is still to be taken.
    AwaitInitial,
    /// Waiting for the seconds register to move away from the reading held.
    AwaitTick(u8),
    /// A new second has begun: the clock can be read.
    Ready,
}

/// Next state of the second-boundary wait after one reading of status
/// register A and of the seconds register.
pub open spec fn sync_next(state: SyncState, status_a: u8, sec: u8) -> SyncState {
    match state {
        SyncState::AwaitInitial => if status_a & 0x80 != 0 {
            SyncState::AwaitInitial
        } else {
            SyncState::AwaitTick(sec)
        },
        SyncState::AwaitTick(initial) => if status_a & 0x80 != 0 || sec == initial {
            SyncState::AwaitTick(initial)
        } else {
            SyncState::Ready
        },
        SyncState::Ready => SyncState::Ready,
    }
}

/// The wait for a fresh second: a reading taken while status register A
/// shows no update in progress (bit 7 clear) ends the wait exactly when the
/// seconds register differs from the reading held, whether it went up or
/// rolled over; a reading during an update changes nothing; the first stable
/// reading is the one held.
pub proof fn lemma_sync_wait(held: u8, status_a: u8, sec: u8)
    ensures
        status_a < 0x80 && sec != held ==> sync_next(SyncState::AwaitTick(held), status_a, sec) == SyncState::Ready,
        status_a < 0x80 && sec == held ==> sync_next(SyncState::AwaitTick(held), status_a, sec) == SyncState::AwaitTick(held),
        status_a >= 0x80 ==> sync_next(SyncState::AwaitTick(held), status_a, sec) == SyncState::AwaitTick(held),
        status_a < 0x80 ==> sync_next(SyncState::AwaitInitial, status_a, sec) == SyncState::AwaitTick(sec),
        status_a >= 0x80 ==> sync_next(SyncState::AwaitInitial, status_a, sec) == SyncState::AwaitInitial,
        sync_next(SyncState::Ready, status_a, sec) == SyncState::Ready,
{
    assert(status_a & 0x80 == 0 <==> status_a < 0x80) by (bit_vector);
}

/// The register writes that set the clock, in order: halt updates, the six
/// date fields in BCD, then restore status register B with updates running.
pub open spec fn set_time_writes(status_b: u8, year: u64, month: u8, day: u8, hour: u8, min: u8, sec: u8) -> Seq<RtcWrite> {
    seq![
        RtcWrite { reg: REG_STAT_B, value: status_b | 0x80 },
        RtcWrite { reg: REG_SEC, value: bcd_encoding(sec) as u8 },
        RtcWrite { reg: REG_MIN, value: bcd_encoding(min) as u8 },
        RtcWrite { reg: REG_HOUR, value: bcd_encoding(hour) as u8 },
        RtcWrite { reg: REG_DAY, value: bcd_encoding(day) as u8 },
        RtcWrite { reg: REG_MONTH, value: bcd_encoding(month) as u8 },
        RtcWrite { reg: REG_YEAR, value: bcd_encoding((year % 100) as u8) as u8 },
        RtcWrite { reg: REG_CENTURY, value: bcd_encoding(((year / 100) % 256) as u8) as u8 },
        RtcWrite { reg: REG_STAT_B, value: status_b & 0x7F },
    ]
}

/// The registers that `set_time` fills, read back by `get_time`.
pub open spec fn registers_after_set_time(writes: Seq<RtcWrite>) -> RtcRegisters {
    RtcRegisters {
        sec: writes[1].value,
        min: writes[2].value,
        hour: writes[3].value,
        day: writes[4].value,
        month: writes[5].value,
        year: writes[6].value,
        century: writes[7].value,
    }
}

/// Setting the clock and reading it back gives the time that was set: for a
/// date from 1970 through 9999 and a valid time of day, the registers written
/// by `set_time` decode to the Unix time of that date and time.
pub proof fn lemma_set_time_then_get_time(status_b: u8, year: u64, month: u8, day: u8, hour: u8, min: u8, sec: u8)
    requires
        1970 <= year <= 9999,
        1 <= month <= 12,
        1 <= day <= 31,
        hour < 24,
        min < 60,
        sec < 60,
    ensures
        ({
            let regs = registers_after_set_time(set_time_writes(status_b, year, month, day, hour, min, sec));
            &&& regs.decodable()
            &&& regs.seconds() == unix_seconds(year as nat, month as nat, day as nat, hour as nat, min as nat, sec as nat)
        }),
{
    let regs = registers_after_set_time(set_time_writes(status_b, year, month, day, hour, min, sec));
    lemma_bcd_round_trip(sec);
    lemma_bcd_round_trip(min);
    lemma_bcd_round_trip(hour);
    lemma_bcd_round_trip(day);
    lemma_bcd_round_trip(month);
    let yr = (year % 100) as u8;
    let cen = ((year / 100) % 256) as u8;
    assert(cen == year / 100);
    lemma_bcd_round_trip(yr);
    lemma_bcd_round_trip(cen);
    let h = regs.hour;
    assert(h == bcd_encoding(hour) as u8);
    assert(h < 0x40);
    assert(h & 0x7F == h && h & 0x80 == 0) by (bit_vector)
        requires
            h < 0x40u8,
    ;
    assert(regs.year_value() == year);
}

/// Driver of the CMOS real-time clock.
#[derive(Debug, Default)]
pub struct Rtc {}

impl Rtc {
    /// The clock; it holds no state of its own.
    pub fn new() -> (r: Rtc)
        ensures
            r == (Rtc {}),
    {
        Rtc {}
    }

    /// Resolution of the clock, in nanoseconds: one second.
    pub fn accuracy(&self) -> (r: u64)
        ensures
            r == 1_000_000_000,
    {
        1_000_000_000
    }

    /// The RTC keeps no UTC time.
    pub fn get_world_time_utc(&self) -> (r: Option<u128>)
        ensures
            r is None,
    {
        None
    }

    /// The RTC keeps no UTC timestamp.
    pub fn utc_supported(&self) -> (r: TimerConstTimeStampInfo)
        ensures
            r == TimerConstTimeStampInfo::NotSupported,
    {
        TimerConstTimeStampInfo::NotSupported
    }

    /// The RTC keeps no local timestamp.
    pub fn lts_supported(&self) -> (r: TimerConstTimeStampInfo)
        ensures
            r == TimerConstTimeStampInfo::NotSupported,
    {
        TimerConstTimeStampInfo::NotSupported
    }

    /// Register writes that set the clock to the given date and time, given
    /// the current value of status register B.
    pub fn set_time(&self, status_b: u8, year: u64, month: u8, day: u8, hour: u8, min: u8, sec: u8) -> (writes: Vec<RtcWrite>)
        ensures
            writes@ == set_time_writes(status_b, year, month, day, hour, min, sec),
    {
        let mut writes: Vec<RtcWrite> = Vec::new();
        writes.push(RtcWrite { reg: REG_STAT_B, value: status_b | 0x80 });
        writes.push(RtcWrite { reg: REG_SEC, value: bin_to_bcd(sec) });
        writes.push(RtcWrite { reg: REG_MIN, value: bin_to_bcd(min) });
        writes.push(RtcWrite { reg: REG_HOUR, value: bin_to_bcd(hour) });
        writes.push(RtcWrite { reg: REG_DAY, value: bin_to_bcd(day) });
        writes.push(RtcWrite { reg: REG_MONTH, value: bin_to_bcd(month) });
        writes.push(RtcWrite { reg: REG_YEAR, value: bin_to_bcd((year % 100) as u8) });
        let century = year / 100;
        assert(century as u8 == (century % 256) as u8) by (bit_vector);
        writes.push(RtcWrite { reg: REG_CENTURY, value: bin_to_bcd(century as u8) });
        writes.push(RtcWrite { reg: REG_STAT_B, value: status_b & 0x7F });
        assert(writes@ =~= set_time_writes(status_b, year, month, day, hour, min, sec));
        writes
    }

    /// One step of the wait for a second boundary that precedes reading the
    /// clock: feed it status register A and the seconds register until it
    /// answers `Ready`.
    pub fn sync_step(&self, state: SyncState, status_a: u8, sec: u8) -> (next: SyncState)
        ensures
            next == sync_next(state, status_a, sec),
    {
        match state {
            SyncState::AwaitInitial => {
                if is_updating(status_a) {
                    SyncState::AwaitInitial
                } else {
                    SyncState::AwaitTick(sec)
                }
            },
            SyncState::AwaitTick(initial) => {
                if is_updating(status_a) || sec == initial {
                    SyncState::AwaitTick(initial)
                } else {
                    SyncState::Ready
                }
            },
            SyncState::Ready => SyncState::Ready,
        }
    }

    /// Seconds since the Unix epoch denoted by the date registers.
    pub fn get_time(&self, regs: &RtcRegisters) -> (secs: u64)
        requires
            regs.decodable(),
        ensures
            secs as int == regs.seconds(),
    {
        let sec = bcd_to_bin(regs.sec);
        let min = bcd_to_bin(regs.min);
        let day = bcd_to_bin(regs.day);
        let month = bcd_to_bin(regs.month);

        let mut hour = regs.hour;
        let is_pm = hour & 0x80 != 0;
        hour = bcd_to_bin(hour & 0x7F);
        if is_pm {
            hour += 12;
        }
        let century = bcd_to_bin(regs.century) as u64;
        let year_short = bcd_to_bin(regs.year) as u64;
        let year = (century * 100) + year_short;

        proof {
            lemma_days_before_year_closed_form(year as nat);
            assert(days_before_year_closed_form(year as int) <= (year - 1970) * 366)
                by (nonlinear_arith)
                requires
                    year >= 1970,
                    days_before_year_closed_form(year as int) == (year - 1970) * 365 + (year
                        - 1969) / 4 - (year - 1901) / 100 + (year - 1601) / 400,
            ;
        }
        let mut total_days = (year - 1970) * 365 + (year - 1969) / 4 - (year - 1901) / 100 + (year
            - 1601) / 400;
        let ghost base = total_days;

        let month_days: [u64; 13] = [0, 31, 28, 31, 30, 31, 30, 31, 31, 30, 31, 30, 31];
        let m = month as usize;
        let mut i: usize = 1;
        while i < m
            invariant
                1 <= i,
                i <= 13,
                m <= 13,
                m < i ==> i == 1,
                base <= 16665 * 366,
                total_days == base + days_before_month(i as nat, false),
                days_before_month(i as nat, false) <= 31 * i,
                month_days@ == seq![0u64, 31, 28, 31, 30, 31, 30, 31, 31, 30, 31, 30, 31],
            decreases m - i,
        {
            assert(month_days@[i as int] == month_length(i as nat, false));
            total_days += month_days[i];
            i += 1;
        }
        assert(total_days == base + days_before_month(month as nat, false));
        proof {
            lemma_days_before_month_leap(month as nat);
        }
        if month > 2 && is_leap_year(year) {
            total_days += 1;
        }
        total_days += (day - 1) as u64;

        total_days * 86400 + (hour as u64) * 3600 + (min as u64) * 60 + (sec as u64)
    }
}

} // verus!
