use kernel_core::result::{trace_push, ErrorType, TraceLocation, WarnItem, Wirt, BACK_TRACE_MAX};
use std::collections::VecDeque;
use std::ops::ControlFlow;

fn trail_lines<T>(w: &Wirt<T>) -> Vec<u32> {
    match w.detail() {
        Some(d) => d.log.iter().map(|l| l.line).collect(),
        None => Vec::new(),
    }
}

fn loc(line: u32) -> TraceLocation {
    TraceLocation { file: "a.rs".to_string(), line, column: 1 }
}

#[test]
fn wirt_ok_and_err() {
    let ok: Wirt<u32> = Wirt::new_ok(5);
    assert!(ok.is_ok());
    assert!(!ok.is_err());
    assert!(ok.err().is_none());
    assert_eq!(ok.ok(), Some(5));

    let err: Wirt<u32> = Wirt::new_err(ErrorType::NotFound, Some("missing"), loc(3));
    assert!(err.is_err());
    assert!(err.err().is_some());
    assert_eq!(trail_lines(&err), vec![3]);
    let d = err.get_error_desc().unwrap();
    assert!(matches!(d.ty, ErrorType::NotFound));
    assert_eq!(d.desc.as_deref(), Some("missing"));
    assert_eq!(d.log[0].line, 3);
}

#[test]
fn wirt_err_string() {
    let err: Wirt<()> = Wirt::Err_string(ErrorType::InvalidData, Some("bad".to_string()), loc(9));
    let d = err.unwrap_err();
    assert!(matches!(d.ty, ErrorType::InvalidData));
    assert_eq!(d.desc.as_deref(), Some("bad"));
}

#[test]
fn wirt_warnings() {
    let mut w: Wirt<u8> = Wirt::new_ok(1);
    assert!(!w.have_warn());
    w.add_warn(WarnItem::NoWarning);
    w.add_warns(vec![WarnItem::NoWarning, WarnItem::NoWarning]);
    assert!(w.have_warn());
    assert_eq!(w.warn().len(), 3);
    assert_eq!(w.unwrap(), 1);
}

#[test]
fn wirt_unwrap_variants() {
    let w: Wirt<&str> = Wirt::new_ok("x");
    assert_eq!(w.expect("value"), "x");
    let w: Wirt<&str> = Wirt::from_output("y");
    assert_eq!(w.unwrap_unchecked(), "y");
}

#[test]
fn wirt_trace_deduplicates_and_caps() {
    let mut w: Wirt<()> = Wirt::new_err(ErrorType::Timeout, None, loc(1));
    w.log(loc(1));
    assert_eq!(trail_lines(&w), vec![1]);
    w.log(loc(2));
    w.log(loc(2));
    w.log(loc(3));
    let lines = trail_lines(&w);
    assert_eq!(lines, vec![1, 2, 3]);

    let mut ok: Wirt<()> = Wirt::new_ok(());
    ok.log(loc(7));
    assert!(trail_lines(&ok).is_empty());
}

#[test]
fn trace_keeps_origin_when_full() {
    let mut log: VecDeque<TraceLocation> = VecDeque::new();
    for i in 0..(BACK_TRACE_MAX as u32) {
        trace_push(&mut log, loc(i));
    }
    assert_eq!(log.len(), BACK_TRACE_MAX);
    trace_push(&mut log, loc(5000));
    assert_eq!(log.len(), BACK_TRACE_MAX);
    assert_eq!(log[0].line, 0);
    assert_eq!(log[1].line, 2);
    assert_eq!(log[BACK_TRACE_MAX - 1].line, 5000);
}

#[test]
fn trace_location_comparison() {
    let a = loc(4);
    let mut b = loc(4);
    assert!(a.same_place(&b));
    b.file = "b.rs".to_string();
    assert!(!a.same_place(&b));
}

#[test]
fn wirt_branch_and_residual() {
    let ok: Wirt<u8> = Wirt::new_ok(4);
    match ok.branch() {
        ControlFlow::Continue(v) => assert_eq!(v, 4),
        ControlFlow::Break(_) => panic!("expected a value"),
    }
    let mut err: Wirt<u8> = Wirt::new_err(ErrorType::IoError, Some("io"), loc(10));
    err.add_warn(WarnItem::NoWarning);
    let broken = match err.branch() {
        ControlFlow::Continue(_) => panic!("expected an error"),
        ControlFlow::Break(w) => w,
    };
    let passed: Wirt<String> = Wirt::from_residual(broken, loc(20));
    assert!(passed.is_err());
    assert_eq!(passed.warn().len(), 1);
    let lines = trail_lines(&passed);
    assert_eq!(lines, vec![10, 20]);
    let d = passed.unwrap_err();
    assert!(matches!(d.ty, ErrorType::IoError));
    assert_eq!(d.desc.as_deref(), Some("io"));
}

#[test]
fn wirt_from_option() {
    let w: Wirt<u8> = Wirt::from_option(Some(1), ErrorType::NotFound, None, loc(1));
    assert_eq!(w.ok(), Some(1));
    let w: Wirt<u8> = Wirt::from_option(None, ErrorType::NotFound, Some("none"), loc(2));
    let d = w.unwrap_err();
    assert!(matches!(d.ty, ErrorType::NotFound));
    assert_eq!(d.desc.as_deref(), Some("none"));
}

#[test]
fn wirt_try_raise() {
    let r: Result<u8, uefi::Error> = Err(uefi::Error::from(uefi::Status::NOT_FOUND));
    let w = Wirt::try_raise_uefi(r, Some("locate"), loc(1));
    let d = w.unwrap_err();
    match d.ty {
        ErrorType::UefiError(e) => assert_eq!(e.status(), uefi::Status::NOT_FOUND),
        _ => panic!("expected a UEFI error"),
    }
    let w = Wirt::try_raise_uefi(Ok::<u8, uefi::Error>(3), None, loc(1));
    assert_eq!(w.ok(), Some(3));

    let w: Wirt<u8> = Wirt::try_raise_acpi(Err("no rsdp".to_string()), Some("acpi"), loc(1));
    assert!(matches!(w.unwrap_err().ty, ErrorType::AcpiError(ref s) if s == "no rsdp"));
    let w: Wirt<u8> = Wirt::try_raise_aml(Err("bad opcode".to_string()), None, loc(1));
    assert!(matches!(w.unwrap_err().ty, ErrorType::AmlError(ref s) if s == "bad opcode"));
    let w: Wirt<u8> = Wirt::try_raise_aml(Ok(9), None, loc(1));
    assert_eq!(w.ok(), Some(9));
}

#[test]
fn error_type_default_is_success() {
    assert!(matches!(ErrorType::default(), ErrorType::Success));
}

#[test]
fn wirt_default_is_an_unfilled_error() {
    let w: Wirt<u8> = Wirt::default();
    assert!(w.is_err());
    assert!(!w.have_warn());
    let d = w.unwrap_err();
    assert!(matches!(d.ty, ErrorType::Success));
    assert!(d.desc.is_none());
    assert!(d.log.is_empty());
}
