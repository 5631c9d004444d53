use peelfuzz::{bound_draw, weight, QueueScheduler, WeightedScheduler};

#[test]
fn bound_draw_takes_the_high_word() {
    assert_eq!(bound_draw(0, 10), 0);
    assert_eq!(bound_draw(u64::MAX, 10), 9);
    assert_eq!(bound_draw(1u64 << 63, 10), 5);
    assert_eq!(bound_draw(1u64 << 62, 2050), 512);
}

#[test]
fn weight_formula() {
    assert_eq!(weight(0, 0), 1025);
    assert_eq!(weight(2500, 3), 1366);
    assert_eq!(weight(999, 1), 2049);
    assert_eq!(weight(0, 1_000_000), 67109889);
    assert_eq!(weight(u64::MAX, 0), 1);
}

#[test]
fn weighted_pick_by_share_lower_first() {
    let mut w = WeightedScheduler::new();
    w.add(0, 0);
    w.add(0, 0);
    assert_eq!(w.len(), 2);
    assert_eq!(w.total(), 2050);
    assert_eq!(w.next(0), 0);
    // The draw lands exactly on the boundary of the two shares.
    assert_eq!(w.next(1u64 << 63), 1);
    assert_eq!(w.next((1u64 << 63) - 1), 0);
    assert_eq!(w.next(u64::MAX), 1);
}

#[test]
fn weighted_favours_fast_high_gain_entries() {
    let mut w = WeightedScheduler::new();
    w.add(50_000, 0); // slow, no gain: weight 21
    w.add(0, 9); // fast, some gain: weight 10241
    assert_eq!(w.total(), 21 + 10241);
    assert_eq!(w.next(1u64 << 60), 1);
    assert_eq!(w.next(0), 0);
}

#[test]
fn queue_scheduler_round_robin() {
    let mut q = QueueScheduler::new();
    let picks: Vec<usize> = (0..9).map(|_| q.next(4)).collect();
    assert_eq!(picks, vec![0, 1, 2, 3, 0, 1, 2, 3, 0]);
}
