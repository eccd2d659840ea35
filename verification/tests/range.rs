use kernel_core::range::{MemData, MemMap, MemRangeData, SmartPtr};

#[test]
fn mem_range_data_test_1() {
    let data: MemRangeData<u64> = MemRangeData::new(50, 60);
    let data2: MemRangeData<u64> =
        MemRangeData::new_start_end(50, 110).expect("data is good. but returned none.");

    assert_eq!(data.len(), 60, "basic fails(1)");
    assert_eq!(data.start(), 50, "basic fails(2)");
    assert_eq!(data.end(), 110, "basic fails(3)");

    assert_eq!(data2, data, "this is eq, but shown not eq");

    let fail: Option<MemRangeData<u64>> = MemRangeData::new_start_end(50, 40);
    assert!(fail.is_none(), "data is invalid, but not error raised.");
}

#[test]
fn smart_ptr() {
    // 64 bytes aligned to 16, viewed as eight u64 values.
    let smart_ptr = SmartPtr::<u64>::new(0x1000, 64, 16);
    assert!(smart_ptr.is_some(), "SmartPtr::new() broken.");
    let mut smart_ptr = smart_ptr.unwrap();
    assert_eq!(smart_ptr.get_addr(), 0x1000);
    assert_eq!(smart_ptr.get_ptr(), Some(0x1000));
    assert_eq!(smart_ptr.get_mut_ptr(), 0x1000);
    let slice = smart_ptr.get_slice::<u64>();
    assert!(slice.is_some(), "slice system is broken.");
    assert_eq!(slice.unwrap(), (0x1000, 8));
}

#[test]
fn smart_ptr_rejects_null_and_empty() {
    assert!(SmartPtr::<u64>::new(0, 64, 16).is_none());
    assert!(SmartPtr::<u64>::new(0x1000, 0, 16).is_none());
    assert!(SmartPtr::<u8>::new(0x1000, 16, 16).is_none());
    assert!(SmartPtr::<u8>::new(0x10, 16, 16).is_some());
}

#[test]
fn smart_ptr_slice_needs_whole_elements() {
    let p = SmartPtr::<u64>::new(0x2000, 12, 8).unwrap();
    assert!(p.get_slice::<u64>().is_none());
    assert_eq!(p.get_slice::<u32>(), Some((0x2000, 3)));
    assert!(p.get_slice::<()>().is_none());
}

#[test]
fn mem_range_set_end_and_len() {
    let mut r: MemRangeData<u32> = MemRangeData::new(100, 5);
    assert!(r.set_end(150));
    assert_eq!(r.len(), 50);
    assert_eq!(r.end(), 150);
    assert!(!r.set_end(99));
    assert_eq!(r.len(), 50);
    r.set_start(10);
    assert_eq!(r.end(), 60);
    r.set_len(1);
    assert_eq!(r.end(), 11);
    assert_eq!(r.start(), 10);
}

#[test]
fn mem_range_start_equals_end() {
    let r: MemRangeData<u8> = MemRangeData::new_start_end(7, 7).unwrap();
    assert_eq!(r.len(), 0);
    assert_eq!(r.end(), 7);
}

#[test]
fn mem_region_conversions_round_trip() {
    let d: MemData<u64> = MemData { start: 0x1000, len: 0x200 };
    let m = MemMap::from_mem_data(d);
    assert_eq!(m.start, 0x1000);
    assert_eq!(m.end, 0x1200);
    let d2 = MemData::from_mem_map(m);
    assert_eq!(d2, d);
}
