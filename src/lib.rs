//! PeelFuzz: the decision logic of a coverage-guided, in-process fuzzing
//! engine for native targets, with its contracts proved.
//!
//! The process-wide plumbing (instrumentation symbols with C linkage, the
//! in-process executor, the launcher) lives in the application crate and
//! calls into the verified functions here.

pub mod config;
pub mod coverage;
pub mod engine;
pub mod feedback;
pub mod findings;
pub mod harness;
pub mod launcher;
pub mod monitor;
pub mod scheduler;
pub mod seeds;

pub use config::{HarnessType, PeelFuzzConfig, SchedulerType};
pub use coverage::{init_guards, map_index, mark_coverage, reset_coverage, trace_pc_guard, MAP_SIZE};
pub use engine::{FuzzerState, Step, Verdict, GENERATED_SIZE};
pub use feedback::{is_objective, Envelope};
pub use findings::finding_name;
pub use harness::{nul_terminated, ExitKind};
pub use launcher::{launch_plan, monitor_choice, LaunchPlan, MonitorKind};
pub use monitor::Throttle;
pub use scheduler::{bound_draw, weight, QueueScheduler, WeightedScheduler};
pub use seeds::{seed_plan, SeedBatch};
