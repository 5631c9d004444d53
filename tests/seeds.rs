use peelfuzz::{seed_plan, PeelFuzzConfig, HarnessType, SchedulerType, SeedBatch};

fn plan(n: usize) -> Vec<(usize, usize)> {
    seed_plan(n).iter().map(|b: &SeedBatch| (b.size, b.count)).collect()
}

#[test]
fn default_seed_count_spreads_two_two_two_one_one() {
    let cfg = PeelFuzzConfig {
        harness_type: HarnessType::ByteSize,
        scheduler_type: SchedulerType::Queue,
        timeout_ms: 0,
        crash_dir: None,
        seed_count: 0,
        core_count: 0,
        use_tui: false,
    };
    let n = cfg.seed_count_or_default();
    assert_eq!(plan(n), vec![(4, 2), (16, 2), (32, 2), (64, 1), (128, 1)]);
}

#[test]
fn seven_seeds_spread_two_two_one_one_one() {
    assert_eq!(plan(7), vec![(4, 2), (16, 2), (32, 1), (64, 1), (128, 1)]);
}

#[test]
fn seed_plan_edges() {
    assert_eq!(plan(0), vec![(4, 0), (16, 0), (32, 0), (64, 0), (128, 0)]);
    assert_eq!(plan(5), vec![(4, 1), (16, 1), (32, 1), (64, 1), (128, 1)]);
    assert_eq!(plan(3), vec![(4, 1), (16, 1), (32, 1), (64, 0), (128, 0)]);
    let total: usize = seed_plan(1234).iter().map(|b| b.count).sum();
    assert_eq!(total, 1234);
}
