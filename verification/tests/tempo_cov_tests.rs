use foundry_tempo::coverage::{is_active, record_hit, CoverageMap};
use foundry_tempo::tempo_cov::{attach_cmp_values, TempoCoverageGuard};

fn merge(cov: &mut Option<Vec<u8>>, hits: &Vec<u8>) {
    let mut cmp: Option<Vec<u64>> = None;
    TempoCoverageGuard::merge_into(cov, hits, &mut cmp, Vec::new());
    assert_eq!(cmp, None);
}

#[test]
fn guard_zeroes_and_installs_buffer() {
    let mut state = CoverageMap::new();
    let (guard, previous) = TempoCoverageGuard::new(&mut state, vec![5, 6, 7]);
    assert!(previous.is_none());
    assert_eq!(state.buffer(), Some(&vec![0, 0, 0]));
    record_hit(&mut state, 2);
    let hits = guard.release(&mut state).unwrap();
    assert!(!is_active(&state));
    assert_eq!(hits, vec![0, 0, 1]);
}

#[test]
fn merge_without_hits_changes_nothing() {
    let mut none: Option<Vec<u8>> = None;
    merge(&mut none, &vec![0, 0, 0]);
    assert_eq!(none, None);
    let mut some = Some(vec![1, 2]);
    merge(&mut some, &vec![0, 0]);
    assert_eq!(some, Some(vec![1, 2]));
}

#[test]
fn merge_into_empty_coverage_copies_hits() {
    let mut cov: Option<Vec<u8>> = None;
    merge(&mut cov, &vec![0, 3, 0]);
    assert_eq!(cov, Some(vec![0, 3, 0]));
}

#[test]
fn merge_adds_saturating() {
    let mut cov = Some(vec![250, 1, 0]);
    merge(&mut cov, &vec![10, 2, 0]);
    assert_eq!(cov, Some(vec![255, 3, 0]));
}

#[test]
fn merge_stops_at_shorter_length() {
    let mut cov = Some(vec![1, 1, 1, 1]);
    merge(&mut cov, &vec![1, 1]);
    assert_eq!(cov, Some(vec![2, 2, 1, 1]));
    let mut short = Some(vec![1]);
    merge(&mut short, &vec![0, 5]);
    assert_eq!(short, Some(vec![1]));
}

#[test]
fn cmp_values_attach_only_when_present() {
    let mut slot: Option<Vec<u64>> = None;
    attach_cmp_values(&mut slot, Vec::new());
    assert_eq!(slot, None);
    attach_cmp_values(&mut slot, vec![3, 4]);
    assert_eq!(slot, Some(vec![3, 4]));
    attach_cmp_values(&mut slot, Vec::new());
    assert_eq!(slot, Some(vec![3, 4]));
}

#[test]
fn recorded_hit_reaches_edge_coverage() {
    let mut state = CoverageMap::new();
    let (guard, _) = TempoCoverageGuard::new(&mut state, vec![9; 16]);
    record_hit(&mut state, 21);
    let hits = guard.release(&mut state).unwrap();
    let mut cov = Some(vec![0u8; 16]);
    merge(&mut cov, &hits);
    assert_eq!(cov.unwrap()[5], 1);
}

#[test]
fn merge_attaches_operands_even_without_hits() {
    let mut cov: Option<Vec<u8>> = None;
    let mut cmp: Option<Vec<u64>> = None;
    TempoCoverageGuard::merge_into(&mut cov, &vec![0, 0], &mut cmp, vec![7, 8]);
    assert_eq!(cov, None);
    assert_eq!(cmp, Some(vec![7, 8]));
    TempoCoverageGuard::merge_into(&mut cov, &vec![0, 1], &mut cmp, Vec::new());
    assert_eq!(cov, Some(vec![0, 1]));
    assert_eq!(cmp, Some(vec![7, 8]));
}
