use peelfuzz::{finding_name, launch_plan, monitor_choice, LaunchPlan, MonitorKind, Throttle};

#[test]
fn one_core_runs_in_process() {
    assert_eq!(launch_plan(0, true), LaunchPlan::SingleCore { fell_back: false });
    assert_eq!(launch_plan(1, true), LaunchPlan::SingleCore { fell_back: false });
}

#[test]
fn many_cores_without_fork_fall_back() {
    assert_eq!(launch_plan(4, false), LaunchPlan::SingleCore { fell_back: true });
}

#[test]
fn many_cores_pin_one_worker_each() {
    assert_eq!(launch_plan(4, true), LaunchPlan::MultiCore(vec![0, 1, 2, 3]));
    assert_eq!(launch_plan(2, true), LaunchPlan::MultiCore(vec![0, 1]));
}

#[test]
fn tui_falls_back_to_simple() {
    assert_eq!(monitor_choice(false, true), (MonitorKind::Simple, false));
    assert_eq!(monitor_choice(true, true), (MonitorKind::Tui, false));
    assert_eq!(monitor_choice(true, false), (MonitorKind::Simple, true));
}

#[test]
fn throttle_renders_at_most_once_per_second() {
    let mut t = Throttle::new();
    assert!(t.should_render(5000));
    assert!(!t.should_render(5001));
    assert!(!t.should_render(5999));
    assert!(t.should_render(6000));
    assert!(!t.should_render(100));
    assert!(t.should_render(7500));
}

#[test]
fn finding_names_are_fixed_width_hex() {
    let name = String::from_utf8(finding_name(1, 47)).unwrap();
    assert_eq!(name, "w00000001-000000000000002f");
    let last = String::from_utf8(finding_name(u32::MAX, u64::MAX)).unwrap();
    assert_eq!(last, "wffffffff-ffffffffffffffff");
}

#[test]
fn two_workers_never_share_a_finding_name() {
    let mut names = std::collections::HashSet::new();
    for worker in 0..2u32 {
        for seq in 0..50u64 {
            assert!(names.insert(finding_name(worker, seq)));
        }
    }
    assert_eq!(names.len(), 100);
}
