use kernel_core::boot::{
    classify_init_failure, get_boot_entropy, main_allocation_size, main_placement, Gs,
    InitFailure, InterruptHelper, InterruptHelperOnce, State, WatchingItem, STATE_DEST, STATE_ERR, STATE_RUNNING,
};
use kernel_core::result::{ErrorType, TraceLocation};

#[test]
fn watching_item_scrambling() {
    let w = WatchingItem::new(0x1000, 3);
    assert_eq!(w.ptr, (0x1000 ^ 3 ^ 7) as u64);
    assert_eq!(w.reversed_ptr, (0x1000usize).reverse_bits() as u64);
    assert_eq!(w.level, 3);
    assert!(!w.is_none());
    assert!(!w.is_dest() && !w.is_running() && !w.is_err());
    let z = WatchingItem::new(4, 3);
    assert!(z.is_none());
    let mut s = w;
    s.state = State { bits: STATE_DEST | STATE_ERR };
    assert!(s.is_dest() && s.is_err() && !s.is_running());
    s.state = State { bits: STATE_RUNNING };
    assert!(s.is_running());
    assert!(State::empty().contains(State::empty()));
}

#[test]
fn main_structure_placement() {
    let (entropy, total) = main_allocation_size(0x12345, 200, 16);
    assert_eq!(entropy, 0x2340);
    assert_eq!(total, 1024 + 0x2340 + 200 + 16);
    let base = 0x10000usize;
    let (stack_top, addr) = main_placement(base, entropy, 16);
    assert_eq!(stack_top, base + 1024);
    assert_eq!(addr, base + 1024 + 0x2340 + 16);
    assert!(addr + 200 <= base + total);
    let (top2, addr2) = main_placement(0x10007, 0x10, 64);
    assert_eq!(top2, 0x10400);
    assert_eq!(addr2 % 64, 0);
    assert!(addr2 > top2 + 0x10);
}

#[test]
fn boot_entropy_mix() {
    assert_eq!(get_boot_entropy(Some(0b1100), 0b1010, Some(0b0001)), 0b0111);
    assert_eq!(get_boot_entropy(None, 5, None), 5);
}

#[test]
fn init_failures() {
    assert_eq!(classify_init_failure(3), InitFailure::Fatal);
    assert_eq!(classify_init_failure(1), InitFailure::MicrocodeWarning);
    assert_eq!(classify_init_failure(0), InitFailure::Warning);
    assert_eq!(classify_init_failure(4), InitFailure::Warning);
}

#[test]
fn gs_area() {
    let g = Gs::new(0x1000, 0x2000);
    assert_eq!(g.self_ptr, 0);
    assert_eq!(g.app_stack, 0x1000);
    assert_eq!(g.kernel_stack, 0x2000);
}

#[test]
fn interrupt_helper_only_once() {
    let loc = TraceLocation { file: "i.rs".to_string(), line: 1, column: 1 };
    let mut once = InterruptHelperOnce::new();
    assert!(!once.is_created());
    assert!(InterruptHelper::init(&mut once, loc.clone()).is_ok());
    assert!(once.is_created());
    for _ in 0..3 {
        let d = InterruptHelper::init(&mut once, loc.clone()).unwrap_err();
        assert!(matches!(d.ty, ErrorType::AlreadyUsed));
        assert_eq!(d.desc.as_deref(), Some("interrupt helper already created."));
        assert!(once.is_created());
    }
}
