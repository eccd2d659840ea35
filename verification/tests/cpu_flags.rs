use kernel_core::cpu_flags::{cache_words, define_cpu_flags, CpuFlagCache, FlagTree};

fn leaf(n: &str) -> FlagTree {
    FlagTree::Leaf(n.to_string())
}

#[test]
fn flag_numbering() {
    let trees = vec![
        FlagTree::Node("apic".to_string(), vec![leaf("X2Supported"), leaf("Present")]),
        FlagTree::Node("tsc".to_string(), vec![leaf("InvariantTsc"), FlagTree::Node("deep".to_string(), vec![leaf("A")])]),
        leaf("Sse"),
    ];
    let flat = define_cpu_flags(&trees);
    let expected: Vec<(u32, String)> = vec![
        (0, "apic_X2Supported".to_string()),
        (1, "apic_Present".to_string()),
        (2, "tsc_InvariantTsc".to_string()),
        (3, "tsc_deep_A".to_string()),
        (4, "Sse".to_string()),
    ];
    assert_eq!(flat, expected);
    assert!(define_cpu_flags(&vec![]).is_empty());
    assert!(define_cpu_flags(&vec![FlagTree::Node("empty".to_string(), vec![])]).is_empty());
}

#[test]
fn flag_cache_words() {
    assert_eq!(cache_words(0), 0);
    assert_eq!(cache_words(1), 1);
    assert_eq!(cache_words(64), 1);
    assert_eq!(cache_words(65), 2);
}

#[test]
fn flag_cache_remembers() {
    let mut cache = CpuFlagCache::new(2);
    assert_eq!(cache.lookup(70), None);
    cache.record(70, true);
    cache.record(6, false);
    assert_eq!(cache.lookup(70), Some(true));
    assert_eq!(cache.lookup(6), Some(false));
    assert_eq!(cache.lookup(7), None);
    cache.record(70, false);
    assert_eq!(cache.lookup(70), Some(false));
}

#[test]
fn flag_cache_detects_once() {
    let mut cache = CpuFlagCache::new(1);
    assert!(cache.has(3, || true));
    assert!(cache.has(3, || false));
    assert!(!cache.has(4, || false));
    assert_eq!(cache.lookup(4), Some(false));
}
