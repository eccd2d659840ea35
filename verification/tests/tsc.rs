use kernel_core::timer::TimerConstTimeStampInfo;
use kernel_core::tsc::{Tsc, TscGsData};

#[test]
fn tsc_invariant_calibration() {
    let mut tsc = Tsc::new(true);
    let mut init = false;
    let mut gs = TscGsData::default();
    assert!(tsc.needs_calibration(init));
    // 50 000 counts over 10 000 ns: 500 counts per 100 ns.
    tsc.init_for_ap(&mut init, &mut gs, 1_000, 51_000, 10_000);
    assert!(init);
    assert_eq!(tsc.par_100ns, 500);
    assert_eq!(gs, TscGsData::default());
    assert!(!tsc.needs_calibration(false));
    assert_eq!(tsc.get_val(&gs), 500);
}

#[test]
fn tsc_per_processor_calibration() {
    let mut tsc = Tsc::new(false);
    let mut init = false;
    let mut gs = TscGsData { par_100ns: 0, adjust: 3 };
    tsc.init_for_ap(&mut init, &mut gs, 10, 2_010, 1_000);
    assert!(init);
    assert_eq!(gs.par_100ns, 200);
    assert_eq!(tsc.par_100ns, 0);
    assert_eq!(tsc.get_val(&gs), 203);
    assert!(!tsc.needs_calibration(init));
}

#[test]
fn tsc_calibrated_processor_is_left_alone() {
    let mut tsc = Tsc::new(false);
    let mut init = true;
    let mut gs = TscGsData { par_100ns: 7, adjust: 1 };
    tsc.init_for_ap(&mut init, &mut gs, 0, 1000, 1000);
    assert!(init);
    assert_eq!(gs, TscGsData { par_100ns: 7, adjust: 1 });
    assert_eq!(tsc.par_100ns, 0);

    let mut shared = Tsc::new(true);
    shared.par_100ns = 42;
    let mut init = false;
    let mut gs = TscGsData::default();
    shared.init_for_ap(&mut init, &mut gs, 0, 1000, 1000);
    assert!(!init);
    assert_eq!(shared.par_100ns, 42);
    assert_eq!(gs, TscGsData::default());
}

#[test]
fn tsc_short_wait_is_ignored() {
    let mut tsc = Tsc::new(true);
    let mut init = false;
    let mut gs = TscGsData::default();
    tsc.init_for_ap(&mut init, &mut gs, 0, 1000, 99);
    assert!(!init);
    assert_eq!(tsc.par_100ns, 0);
}

#[test]
fn tsc_counter_wraps() {
    let mut tsc = Tsc::new(true);
    let mut init = false;
    let mut gs = TscGsData::default();
    tsc.init_for_ap(&mut init, &mut gs, u64::MAX - 99, 100, 100);
    assert_eq!(tsc.par_100ns, 200);
}

#[test]
fn tsc_time_and_spin() {
    let mut tsc = Tsc::new(true);
    let gs = TscGsData::default();
    assert_eq!(tsc.get_time(&gs, 12345), 0);
    tsc.par_100ns = 300;
    assert_eq!(tsc.get_time(&gs, 3_000_000), 1_000_000);
    assert_eq!(tsc.spin_target(&gs, 1000, 1_000_000), 1000 + 3_000_000);
}

#[test]
fn tsc_utc_round_trip() {
    let mut tsc = Tsc::new(true);
    let gs = TscGsData::default();
    tsc.par_100ns = 10;
    assert_eq!(tsc.get_world_time_utc(&gs, 1000), None);
    let utc = 1_700_000_000_000_000_000u128;
    tsc.option_init_time_stamp(&gs, utc, 1000);
    assert_eq!(tsc.get_world_time_utc(&gs, 1000), Some(utc));
    assert_eq!(tsc.get_world_time_utc(&gs, 2000), Some(utc + 10_000));
}

#[test]
fn tsc_capabilities() {
    let tsc = Tsc::new(false);
    assert_eq!(tsc.accuracy(), 100);
    assert_eq!(tsc.utc_supported(), TimerConstTimeStampInfo::NeedInit);
    assert_eq!(tsc.lts_supported(), TimerConstTimeStampInfo::NeedInit);
}

#[test]
fn tsc_time_never_runs_backwards() {
    let mut tsc = Tsc::new(true);
    tsc.par_100ns = 7;
    let gs = TscGsData::default();
    let mut last = 0;
    for c in (0..100_000u64).step_by(997) {
        let t = tsc.get_time(&gs, c);
        assert!(t >= last);
        last = t;
    }
}
