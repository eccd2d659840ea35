use kernel_core::rtc::{
    bcd_to_bin, bin_to_bcd, is_leap_year, is_updating, Rtc, RtcRegisters, RtcWrite, SyncState,
    REG_CENTURY, REG_DAY, REG_HOUR, REG_MIN, REG_MONTH, REG_SEC, REG_STAT_B, REG_YEAR,
};
use kernel_core::timer::TimerConstTimeStampInfo;

#[test]
fn bcd_conversions() {
    assert_eq!(bcd_to_bin(0x59), 59);
    assert_eq!(bcd_to_bin(0x00), 0);
    assert_eq!(bcd_to_bin(0x99), 99);
    assert_eq!(bin_to_bcd(59), 0x59);
    assert_eq!(bin_to_bcd(7), 0x07);
    for v in 0u8..100 {
        assert_eq!(bcd_to_bin(bin_to_bcd(v)), v);
    }
}

#[test]
fn bcd_of_large_value_loses_high_bits() {
    // 250 / 10 = 25, shifted into the high nibble, loses bits above the byte.
    assert_eq!(bin_to_bcd(250), 0x90);
}

#[test]
fn leap_years() {
    assert!(is_leap_year(2024));
    assert!(!is_leap_year(2023));
    assert!(!is_leap_year(1900));
    assert!(is_leap_year(2000));
}

#[test]
fn status_a_update_flag() {
    assert!(is_updating(0x80));
    assert!(is_updating(0xA6));
    assert!(!is_updating(0x26));
}

fn regs(century: u8, year: u8, month: u8, day: u8, hour: u8, min: u8, sec: u8) -> RtcRegisters {
    RtcRegisters { sec, min, hour, day, month, year, century }
}

#[test]
fn rtc_epoch_start() {
    let rtc = Rtc::new();
    let r = regs(0x19, 0x70, 0x01, 0x01, 0x00, 0x00, 0x00);
    assert!(r.is_decodable());
    assert_eq!(rtc.get_time(&r), 0);
}

#[test]
fn rtc_leap_day() {
    let rtc = Rtc::new();
    let r = regs(0x20, 0x24, 0x02, 0x29, 0x12, 0x34, 0x56);
    assert_eq!(rtc.get_time(&r), 1709210096);
}

#[test]
fn rtc_end_of_century_year() {
    let rtc = Rtc::new();
    assert_eq!(rtc.get_time(&regs(0x20, 0x00, 0x12, 0x31, 0x23, 0x59, 0x59)), 978307199);
    assert_eq!(rtc.get_time(&regs(0x21, 0x00, 0x03, 0x01, 0x00, 0x00, 0x00)), 4107542400);
}

#[test]
fn rtc_pm_flag_adds_twelve_hours() {
    let rtc = Rtc::new();
    let am = rtc.get_time(&regs(0x20, 0x24, 0x01, 0x01, 0x01, 0x00, 0x00));
    let pm = rtc.get_time(&regs(0x20, 0x24, 0x01, 0x01, 0x81, 0x00, 0x00));
    assert_eq!(pm - am, 12 * 3600);
}

#[test]
fn rtc_undecodable_registers() {
    assert!(!regs(0x19, 0x69, 0x12, 0x31, 0, 0, 0).is_decodable());
    assert!(!regs(0x20, 0x24, 0x01, 0x00, 0, 0, 0).is_decodable());
    assert!(!regs(0x20, 0x24, 0x14, 0x01, 0, 0, 0).is_decodable());
    assert!(regs(0x20, 0x24, 0x13, 0x01, 0, 0, 0).is_decodable());
}

#[test]
fn rtc_set_time_writes() {
    let rtc = Rtc::new();
    let w = rtc.set_time(0x02, 2024, 2, 29, 12, 34, 56);
    let expected = vec![
        RtcWrite { reg: REG_STAT_B, value: 0x82 },
        RtcWrite { reg: REG_SEC, value: 0x56 },
        RtcWrite { reg: REG_MIN, value: 0x34 },
        RtcWrite { reg: REG_HOUR, value: 0x12 },
        RtcWrite { reg: REG_DAY, value: 0x29 },
        RtcWrite { reg: REG_MONTH, value: 0x02 },
        RtcWrite { reg: REG_YEAR, value: 0x24 },
        RtcWrite { reg: REG_CENTURY, value: 0x20 },
        RtcWrite { reg: REG_STAT_B, value: 0x02 },
    ];
    assert_eq!(w, expected);
}

#[test]
fn rtc_set_then_read_back() {
    let rtc = Rtc::new();
    let w = rtc.set_time(0x82, 2031, 7, 15, 8, 9, 10);
    let r = regs(w[7].value, w[6].value, w[5].value, w[4].value, w[3].value, w[2].value, w[1].value);
    assert_eq!(rtc.get_time(&r), 1941869350);
    assert_eq!(w[8].value, 0x02);
}

#[test]
fn rtc_sync_waits_for_a_new_second() {
    let rtc = Rtc::new();
    let mut s = SyncState::AwaitInitial;
    s = rtc.sync_step(s, 0x80, 5);
    assert_eq!(s, SyncState::AwaitInitial);
    s = rtc.sync_step(s, 0x00, 5);
    assert_eq!(s, SyncState::AwaitTick(5));
    s = rtc.sync_step(s, 0x00, 5);
    assert_eq!(s, SyncState::AwaitTick(5));
    s = rtc.sync_step(s, 0x80, 6);
    assert_eq!(s, SyncState::AwaitTick(5));
    s = rtc.sync_step(s, 0x00, 6);
    assert_eq!(s, SyncState::Ready);
    assert_eq!(rtc.sync_step(s, 0x80, 0), SyncState::Ready);
}

#[test]
fn rtc_capabilities() {
    let rtc = Rtc::new();
    assert_eq!(rtc.utc_supported(), TimerConstTimeStampInfo::NotSupported);
    assert_eq!(rtc.lts_supported(), TimerConstTimeStampInfo::NotSupported);
    assert_eq!(rtc.accuracy(), 1_000_000_000);
    assert_eq!(rtc.get_world_time_utc(), None);
}

#[test]
fn rtc_month_thirteen_is_next_january() {
    let rtc = Rtc::new();
    let a = rtc.get_time(&regs(0x20, 0x23, 0x13, 0x01, 0x00, 0x00, 0x00));
    let b = rtc.get_time(&regs(0x20, 0x24, 0x01, 0x01, 0x00, 0x00, 0x00));
    assert_eq!(a, b);
    let c = rtc.get_time(&regs(0x20, 0x24, 0x13, 0x01, 0x00, 0x00, 0x00));
    assert_eq!(c - b, 366 * 86400);
}
