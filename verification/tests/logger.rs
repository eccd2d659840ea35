use kernel_core::clock::{log_time, TSC};
use kernel_core::logger::{log_frame, LogBuffer, LogIterator, OsLog, LOG_CAPACITY};
use kernel_core::result::TraceLocation;

fn record(level: &str, data: &str) -> OsLog {
    OsLog {
        level: level.to_string(),
        by: "test".to_string(),
        tag: "core".to_string(),
        data: data.to_string(),
        file: "test.rs".to_string(),
        time: 0,
        line: 0,
        column: 0,
        cpu_acpi_id: 0,
    }
}

#[test]
fn test_log_rotation() {
    let mut buf = LogBuffer::with_capacity(3);

    for i in 0..4 {
        buf.add_log(record("info", &i.to_string()));
    }

    assert_eq!(buf.get_log_min_id(), 1);
    assert_eq!(buf.len(), 3);
}

#[test]
fn log_default_capacity() {
    let mut buf = LogBuffer::new();
    assert_eq!(LOG_CAPACITY, 5000);
    for i in 0..5001 {
        buf.add_log(record("info", &i.to_string()));
    }
    assert_eq!(buf.len(), 5000);
    assert_eq!(buf.get_log_min_id(), 1);
    assert!(buf.read_log(0).is_none());
    assert_eq!(buf.read_log(5000).unwrap().data, "5000");
}

#[test]
fn log_read_after_add() {
    let mut buf = LogBuffer::with_capacity(2);
    buf.add_log(record("info", "a"));
    buf.add_log(record("warn", "b"));
    assert_eq!(buf.read_log(0).unwrap().data, "a");
    assert_eq!(buf.read_log(1).unwrap().data, "b");
    assert!(buf.read_log(2).is_none());
    buf.add_log(record("error", "c"));
    assert!(buf.read_log(0).is_none());
    assert_eq!(buf.read_log(1).unwrap().data, "b");
    assert_eq!(buf.read_log(2).unwrap().data, "c");
}

#[test]
fn log_iterator_filters_by_kind() {
    let mut buf = LogBuffer::with_capacity(10);
    buf.add_log(record("info", "0"));
    buf.add_log(record("s", "1"));
    buf.add_log(record("warn", "2"));
    buf.add_log(record("s", "3"));

    let mut user = LogIterator::new(0, false);
    assert_eq!(user.next(&buf).unwrap().data, "0");
    assert_eq!(user.next(&buf).unwrap().data, "2");
    assert!(user.next(&buf).is_none());
    assert_eq!(user.next_id, 4);

    let mut system = LogIterator::new(0, true);
    assert_eq!(system.next(&buf).unwrap().data, "1");
    assert_eq!(system.next_id, 2);
    assert_eq!(system.next(&buf).unwrap().data, "3");
    assert!(system.next(&buf).is_none());
}

#[test]
fn log_iterator_stops_behind_the_oldest_record() {
    let mut buf = LogBuffer::with_capacity(1);
    buf.add_log(record("info", "0"));
    buf.add_log(record("info", "1"));
    let mut it = LogIterator::new(0, false);
    assert!(it.next(&buf).is_none());
    assert_eq!(it.next_id, 0);
}

#[test]
fn log_short_string() {
    let mut r = record("warn", "disk slow");
    r.cpu_acpi_id = 12;
    assert_eq!(r.to_short_string(), "(12) [warn] core: disk slow");
    r.cpu_acpi_id = 0;
    assert_eq!(r.to_short_string(), "(0) [warn] core: disk slow");
    r.cpu_acpi_id = 4294967295;
    assert_eq!(r.to_short_string(), "(4294967295) [warn] core: disk slow");
}

#[test]
fn log_system_level() {
    assert!(record("s", "").is_system());
    assert!(!record("ss", "").is_system());
    assert!(!record("info", "").is_system());
    assert!(!record("", "").is_system());
}

#[test]
fn log_frame_layout() {
    let payload: Vec<u8> = vec![1, 2, 3];
    assert_eq!(log_frame(&payload), vec![0xAA, 0xBB, 0xCC, 0xEE, 3, 0, 0, 0, 1, 2, 3]);
    let big: Vec<u8> = vec![7; 0x1_0203];
    let f = log_frame(&big);
    assert_eq!(&f[0..8], &[0xAA, 0xBB, 0xCC, 0xEE, 0x03, 0x02, 0x01, 0x00]);
    assert_eq!(f.len(), 8 + 0x1_0203);
}

#[test]
fn log_timestamps() {
    let mut t = TSC::new();
    assert_eq!(log_time(Some(&t), 123456), 0);
    assert_eq!(log_time(None, 123456), 0);
    let loc = TraceLocation { file: "clock.rs".to_string(), line: 1, column: 1 };
    assert!(t.init(1000, 1000 + 250_000_000, loc).is_ok());
    // 2 500 000 ticks per millisecond.
    assert_eq!(log_time(Some(&t), 25_000_000), 10);
}

#[test]
fn log_ids_stay_stable_over_many_adds() {
    let capacity = 4;
    let mut buf = LogBuffer::with_capacity(capacity);
    for n in 1..=11usize {
        let before = buf.get_log_min_id();
        buf.add_log(record("info", &(n - 1).to_string()));
        let kept = n.min(capacity);
        assert_eq!(buf.len(), kept);
        assert_eq!(buf.get_log_min_id(), n - kept);
        assert!(buf.get_log_min_id() <= before + 1);
        for id in 0..n {
            match buf.read_log(id) {
                Some(l) => {
                    assert!(id >= n - kept);
                    assert_eq!(l.data, id.to_string());
                }
                None => assert!(id < n - kept),
            }
        }
        assert!(buf.read_log(n).is_none());
    }
}
