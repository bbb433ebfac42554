use foundry_tempo::coverage::{
    clear_coverage_map, is_active, record_hit, set_coverage_map, trace_pc_guard,
    trace_pc_guard_init, CoverageMap, CoverageMapGuard, GuardCounter, COVERAGE_MAP_SIZE,
};

#[test]
fn new_map_is_inactive() {
    let state = CoverageMap::new();
    assert!(!is_active(&state));
    assert!(state.buffer().is_none());
}

#[test]
fn set_then_clear_round_trip() {
    let mut state = CoverageMap::new();
    let previous = set_coverage_map(&mut state, vec![1, 2, 3]);
    assert!(previous.is_none());
    assert!(is_active(&state));
    assert_eq!(state.buffer(), Some(&vec![1, 2, 3]));
    let removed = clear_coverage_map(&mut state);
    assert_eq!(removed, Some(vec![1, 2, 3]));
    assert!(!is_active(&state));
    assert_eq!(clear_coverage_map(&mut state), None);
}

#[test]
fn set_hands_back_previous_buffer() {
    let mut state = CoverageMap::new();
    set_coverage_map(&mut state, vec![7]);
    let previous = set_coverage_map(&mut state, vec![0, 0]);
    assert_eq!(previous, Some(vec![7]));
    assert_eq!(state.buffer(), Some(&vec![0, 0]));
}

#[test]
fn record_hit_bumps_slot_modulo_len() {
    let mut state = CoverageMap::new();
    set_coverage_map(&mut state, vec![0; 4]);
    record_hit(&mut state, 1);
    record_hit(&mut state, 5);
    record_hit(&mut state, 6);
    assert_eq!(state.buffer(), Some(&vec![0, 2, 1, 0]));
}

#[test]
fn record_hit_wraps_at_256() {
    let mut state = CoverageMap::new();
    set_coverage_map(&mut state, vec![255, 254]);
    record_hit(&mut state, 0);
    record_hit(&mut state, 1);
    assert_eq!(state.buffer(), Some(&vec![0, 255]));
}

#[test]
fn record_hit_inactive_or_empty_does_nothing() {
    let mut state = CoverageMap::new();
    record_hit(&mut state, 3);
    assert!(!is_active(&state));
    set_coverage_map(&mut state, Vec::new());
    record_hit(&mut state, 3);
    assert!(is_active(&state));
    assert_eq!(state.buffer(), Some(&Vec::new()));
}

#[test]
fn record_hit_large_guard_id() {
    let mut state = CoverageMap::new();
    set_coverage_map(&mut state, vec![0; COVERAGE_MAP_SIZE]);
    record_hit(&mut state, u32::MAX);
    let buf = state.buffer().unwrap();
    assert_eq!(buf[(u32::MAX as usize) % COVERAGE_MAP_SIZE], 1);
    assert_eq!(buf.iter().map(|&b| b as u32).sum::<u32>(), 1);
}

#[test]
fn trace_pc_guard_ignores_zero() {
    let mut state = CoverageMap::new();
    set_coverage_map(&mut state, vec![0; 3]);
    trace_pc_guard(&mut state, 0);
    assert_eq!(state.buffer(), Some(&vec![0, 0, 0]));
    trace_pc_guard(&mut state, 4);
    assert_eq!(state.buffer(), Some(&vec![0, 1, 0]));
}

#[test]
fn guard_ids_start_at_one_and_continue() {
    let mut counter = GuardCounter::new();
    let mut first = vec![0u32; 3];
    trace_pc_guard_init(&mut counter, &mut first);
    assert_eq!(first, vec![1, 2, 3]);
    let mut second = vec![9u32; 2];
    trace_pc_guard_init(&mut counter, &mut second);
    assert_eq!(second, vec![4, 5]);
    let mut none: Vec<u32> = Vec::new();
    trace_pc_guard_init(&mut counter, &mut none);
    let mut third = vec![0u32; 1];
    trace_pc_guard_init(&mut counter, &mut third);
    assert_eq!(third, vec![6]);
}

#[test]
fn coverage_map_guard_installs_and_releases() {
    let mut state = CoverageMap::new();
    let (guard, previous) = CoverageMapGuard::new(&mut state, vec![0; 8]);
    assert!(previous.is_none());
    assert!(is_active(&state));
    record_hit(&mut state, 10);
    let removed = guard.release(&mut state);
    assert!(!is_active(&state));
    assert_eq!(removed, Some(vec![0, 0, 1, 0, 0, 0, 0, 0]));
}
