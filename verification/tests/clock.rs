use kernel_core::clock::TSC;
use kernel_core::result::{ErrorType, TraceLocation};

fn loc() -> TraceLocation {
    TraceLocation { file: "t.rs".to_string(), line: 2, column: 3 }
}

#[test]
fn clock_calibration() {
    let mut t = TSC::new();
    assert_eq!(t.clock_in_100ms(), None);
    assert!(t.init(100, 350, loc()).is_ok());
    assert_eq!(t.clock_in_100ms(), Some(250));
}

#[test]
fn clock_zero_interval_is_a_device_error() {
    let mut t = TSC::new();
    let r = t.init(7, 7, loc());
    let d = r.unwrap_err();
    assert!(matches!(d.ty, ErrorType::DeviceError));
    assert_eq!(d.desc.as_deref(), Some("100ms clock is zero"));
    assert_eq!(t.clock_in_100ms(), None);
}
