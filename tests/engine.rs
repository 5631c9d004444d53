use peelfuzz::{ExitKind, FuzzerState, SchedulerType, Step, Verdict, MAP_SIZE};

fn zero_map() -> Vec<u8> {
    vec![0u8; MAP_SIZE]
}

fn edge_map(cell: usize) -> Vec<u8> {
    let mut m = zero_map();
    m[cell] = 1;
    m
}

fn admitted(v: &Verdict) -> Option<usize> {
    v.admitted
}

#[test]
fn single_edge_target_admits_one_entry_and_no_findings() {
    let mut state = FuzzerState::new(SchedulerType::Queue);
    let runs = [zero_map(), zero_map(), edge_map(42), zero_map(), edge_map(42), edge_map(42)];
    let mut admissions = vec![];
    for (i, map) in runs.iter().enumerate() {
        let v = state.evaluate(vec![i as u8], map, ExitKind::Returned, 10);
        assert!(v.finding.is_none(), "a normal return is no finding");
        if let Some(id) = v.admitted {
            admissions.push((id, i));
        }
    }
    assert_eq!(admissions, vec![(0, 2)]);
    assert_eq!(state.corpus_len(), 1);
    assert_eq!(state.entry(0), &vec![2u8]);
    assert_eq!(state.findings_count(), 0);
}

#[test]
fn admission_raises_the_envelope() {
    let mut state = FuzzerState::new(SchedulerType::Weighted);
    let mut map = zero_map();
    map[7] = 3;
    assert_eq!(admitted(&state.evaluate(vec![1], &map, ExitKind::Returned, 5)), Some(0));
    assert_eq!(state.envelope_cell(7), 3);
    map[7] = 2;
    map[8] = 1;
    assert_eq!(admitted(&state.evaluate(vec![2], &map, ExitKind::Returned, 5)), Some(1));
    assert_eq!(state.envelope_cell(7), 3);
    assert_eq!(state.envelope_cell(8), 1);
    let v = state.evaluate(vec![3], &map, ExitKind::Returned, 5);
    assert_eq!(v.admitted, None);
    assert!(v.finding.is_none());
}

#[test]
fn crash_with_new_coverage_is_admitted_and_persisted() {
    let mut state = FuzzerState::new(SchedulerType::Queue);
    let child = b"FUZZ\x00\xff".to_vec();
    let v = state.evaluate(child.clone(), &edge_map(3), ExitKind::Crash, 1);
    assert_eq!(v.finding, Some((child.clone(), 0)));
    assert_eq!(v.admitted, Some(0));
    assert_eq!(state.corpus_len(), 1);
    assert_eq!(state.entry(0), &child);
    assert_eq!(state.envelope_cell(3), 1);
    assert_eq!(state.findings_count(), 1);
}

#[test]
fn crash_without_new_coverage_is_only_persisted() {
    let mut state = FuzzerState::new(SchedulerType::Queue);
    let v = state.evaluate(b"abc".to_vec(), &zero_map(), ExitKind::Crash, 1);
    assert_eq!(v.finding, Some((b"abc".to_vec(), 0)));
    assert_eq!(v.admitted, None);
    assert_eq!(state.corpus_len(), 0);
}

#[test]
fn every_timeout_is_a_finding() {
    let mut state = FuzzerState::new(SchedulerType::Queue);
    for i in 0..10u64 {
        let v = state.evaluate(vec![i as u8; 4], &edge_map(i as usize), ExitKind::Timeout, 100_000);
        assert_eq!(v.finding, Some((vec![i as u8; 4], i)));
    }
    assert_eq!(state.findings_count(), 10);
    // Each map covers a cell no earlier map did, so every input is also admitted.
    assert_eq!(state.corpus_len(), 10);
}

#[test]
fn queue_picks_parents_in_order_and_wraps() {
    let mut state = FuzzerState::new(SchedulerType::Queue);
    for i in 0..4usize {
        let v = state.evaluate(vec![i as u8], &edge_map(i + 1), ExitKind::Returned, 1);
        assert_eq!(v.admitted, Some(i));
    }
    let picks: Vec<usize> = (0..10).map(|_| state.next_parent(0)).collect();
    assert_eq!(picks, vec![0, 1, 2, 3, 0, 1, 2, 3, 0, 1]);
}

#[test]
fn queue_takes_new_entries_at_once() {
    let mut state = FuzzerState::new(SchedulerType::Queue);
    state.evaluate(vec![0], &edge_map(1), ExitKind::Returned, 1);
    state.evaluate(vec![1], &edge_map(2), ExitKind::Returned, 1);
    assert_eq!(state.next_parent(0), 0);
    assert_eq!(state.next_parent(0), 1);
    state.evaluate(vec![2], &edge_map(3), ExitKind::Returned, 1);
    assert_eq!(state.next_parent(0), 2);
    assert_eq!(state.next_parent(0), 0);
}

#[test]
fn weighted_state_picks_within_corpus() {
    let mut state = FuzzerState::new(SchedulerType::Weighted);
    state.evaluate(vec![0], &edge_map(1), ExitKind::Returned, 0);
    state.evaluate(vec![1], &edge_map(2), ExitKind::Returned, 0);
    assert_eq!(state.next_parent(0), 0);
    assert_eq!(state.next_parent(u64::MAX), 1);
}

#[test]
fn empty_corpus_asks_for_a_fresh_input() {
    let mut state = FuzzerState::new(SchedulerType::Queue);
    assert_eq!(state.next_step(7), Step::Generate);
    state.evaluate(vec![9], &zero_map(), ExitKind::Returned, 1);
    assert_eq!(state.next_step(7), Step::Generate);
    state.evaluate(vec![5], &edge_map(4), ExitKind::Returned, 1);
    assert_eq!(state.next_step(7), Step::Mutate(0));
    assert_eq!(state.next_step(7), Step::Mutate(0));
}

#[test]
fn admitted_entries_carry_their_run_duration() {
    let mut state = FuzzerState::new(SchedulerType::Queue);
    state.evaluate(vec![0], &edge_map(1), ExitKind::Returned, 250);
    state.evaluate(vec![1], &edge_map(1), ExitKind::Returned, 999);
    state.evaluate(vec![2], &edge_map(2), ExitKind::Returned, 40);
    assert_eq!(state.corpus_len(), 2);
    assert_eq!(state.duration(0), 250);
    assert_eq!(state.duration(1), 40);
}

#[test]
fn crash_on_magic_prefix_is_persisted_with_that_prefix() {
    let mut state = FuzzerState::new(SchedulerType::Queue);
    let crashes = |input: &[u8]| input.len() >= 3 && &input[..3] == b"FUZ";
    let inputs: Vec<Vec<u8>> = vec![b"FUN".to_vec(), b"AFUZ".to_vec(), b"FUZZ!".to_vec(), b"FU".to_vec()];
    let mut persisted = vec![];
    for (i, input) in inputs.into_iter().enumerate() {
        let exit = if crashes(&input) { ExitKind::Crash } else { ExitKind::Returned };
        if let Some((bytes, _)) = state.evaluate(input, &edge_map(i + 1), exit, 3).finding {
            persisted.push(bytes);
        }
    }
    assert_eq!(persisted.len(), 1);
    assert_eq!(&persisted[0][..3], b"FUZ");
    assert_eq!(state.corpus_len(), 4);
}
