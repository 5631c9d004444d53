//! How many workers run, on which cores, and which monitor reports on them.
use vstd::prelude::*;
use crate::config::PeelFuzzConfig;

verus! {

/// The core ids `0, 1, ..., n - 1`.
pub open spec fn first_cores(n: nat) -> Seq<usize> {
    Seq::new(n, |i: int| i as usize)
}

/// Relies on `libafl_bolts::core_affinity::Cores::from_cmdline`: the
/// command line `0-N` splits into two parts that both parse as `usize`, so
/// it always succeeds and lists the core ids `0, 1, ..., N` in order.
#[verifier::external_body]
fn cores_through(last: usize) -> (r: Option<Vec<usize>>)
    ensures
        r is Some,
        r matches Some(v) ==> v@ == first_cores((last + 1) as nat),
{
    libafl_bolts::core_affinity::Cores::from_cmdline(&format!("0-{last}"))
        .ok()
        .map(|c| c.ids.iter().map(|id| id.0).collect())
}

/// How the workers are laid out.
#[derive(Debug, PartialEq, Eq)]
pub enum LaunchPlan {
    /// One worker in this process; `fell_back` is set when more were asked
    /// for and could not be had.
    SingleCore { fell_back: bool },
    /// One forked worker pinned to each listed core.
    MultiCore(Vec<usize>),
}

/// The layout of `core_count` workers: one in-process worker for a count
/// of at most one; a fallback to one worker when forking is not available;
/// otherwise one forked worker on each of the cores `0..core_count`.
pub open spec fn planned(core_count: usize, fork_available: bool, r: LaunchPlan) -> bool {
    if core_count <= 1 {
        r == (LaunchPlan::SingleCore { fell_back: false })
    } else if !fork_available {
        r == (LaunchPlan::SingleCore { fell_back: true })
    } else {
        match r {
            LaunchPlan::MultiCore(cores) => cores@ == first_cores(core_count as nat),
            LaunchPlan::SingleCore { .. } => false,
        }
    }
}

/// Lays out `core_count` workers. Forking is used exactly when more than one
/// worker is asked for and `fork_available` says the process can fork.
pub fn launch_plan(core_count: usize, fork_available: bool) -> (r: LaunchPlan)
    ensures
        planned(core_count, fork_available, r),
{
    if core_count <= 1 {
        return LaunchPlan::SingleCore { fell_back: false };
    }
    if !fork_available {
        return LaunchPlan::SingleCore { fell_back: true };
    }
    match cores_through(core_count - 1) {
        Some(cores) => LaunchPlan::MultiCore(cores),
        None => LaunchPlan::SingleCore { fell_back: true },
    }
}

/// With a configured core count of 0 and more than one available core on a
/// machine that can fork, every available core gets one worker, pinned to
/// cores `0..available`.
pub proof fn lemma_zero_core_count_uses_every_core(
    cfg: PeelFuzzConfig,
    available: usize,
    r: LaunchPlan,
)
    requires
        cfg.core_count == 0,
        available > 1,
        planned(cfg.spec_core_count(Some(available)), true, r),
    ensures
        cfg.spec_core_count(Some(available)) == available,
        r matches LaunchPlan::MultiCore(cores) && cores@ == first_cores(available as nat),
{
}

/// The monitor that renders the statistics.
#[derive(Debug, Clone, Copy, PartialEq, Eq, Structural)]
pub enum MonitorKind {
    /// Plain lines on standard output, at most one per second.
    Simple,
    /// The terminal UI panel.
    Tui,
}

/// Picks the monitor: the terminal UI when it was asked for and is
/// available, else the plain printer. The flag is set when the terminal UI
/// was asked for and could not be had.
pub fn monitor_choice(use_tui: bool, tui_available: bool) -> (r: (MonitorKind, bool))
    ensures
        r.0 == (if use_tui && tui_available { MonitorKind::Tui } else { MonitorKind::Simple }),
        r.1 == (use_tui && !tui_available),
{
    if use_tui && tui_available {
        (MonitorKind::Tui, false)
    } else {
        (MonitorKind::Simple, use_tui)
    }
}

} // verus!
