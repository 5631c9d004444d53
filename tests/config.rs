use peelfuzz::{launch_plan, HarnessType, LaunchPlan, PeelFuzzConfig, SchedulerType};

fn config(timeout_ms: u64, seed_count: u32, core_count: u32, crash_dir: Option<&str>) -> PeelFuzzConfig {
    PeelFuzzConfig {
        harness_type: HarnessType::ByteSize,
        scheduler_type: SchedulerType::Queue,
        timeout_ms,
        crash_dir: crash_dir.map(|d| d.to_string()),
        seed_count,
        core_count,
        use_tui: false,
    }
}

#[test]
fn timeout_zero_means_one_second() {
    assert_eq!(config(0, 0, 0, None).timeout_ms_or_default(), 1000);
}

#[test]
fn timeout_configured_is_kept() {
    assert_eq!(config(100, 0, 0, None).timeout_ms_or_default(), 100);
    assert_eq!(config(2000, 0, 0, None).timeout_ms_or_default(), 2000);
}

#[test]
fn seed_count_zero_means_eight() {
    assert_eq!(config(0, 0, 0, None).seed_count_or_default(), 8);
    assert_eq!(config(0, 7, 0, None).seed_count_or_default(), 7);
}

#[test]
fn core_count_zero_means_all_available() {
    assert_eq!(config(0, 0, 0, None).core_count_or_default(Some(12)), 12);
    assert_eq!(config(0, 0, 3, None).core_count_or_default(Some(12)), 3);
    assert_eq!(config(0, 0, 0, None).core_count_or_default(None), 1);
    assert_eq!(config(0, 0, 3, None).core_count_or_default(None), 3);
}

#[test]
fn crash_dir_defaults_to_crashes() {
    assert_eq!(config(0, 0, 0, None).crash_dir_or_default(), "./crashes");
    assert_eq!(config(0, 0, 0, Some("/tmp/out")).crash_dir_or_default(), "/tmp/out");
}

#[test]
fn tags_decode_and_unknown_ones_are_refused() {
    assert_eq!(HarnessType::from_tag(0), Some(HarnessType::ByteSize));
    assert_eq!(HarnessType::from_tag(1), Some(HarnessType::String));
    assert_eq!(HarnessType::from_tag(2), None);
    assert_eq!(SchedulerType::from_tag(0), Some(SchedulerType::Queue));
    assert_eq!(SchedulerType::from_tag(1), Some(SchedulerType::Weighted));
    assert_eq!(SchedulerType::from_tag(7), None);
}

#[test]
fn core_count_zero_forks_one_worker_per_available_core() {
    let n = config(0, 0, 0, None).core_count_or_default(Some(3));
    assert_eq!(launch_plan(n, true), LaunchPlan::MultiCore(vec![0, 1, 2]));
}
