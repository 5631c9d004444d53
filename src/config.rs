//! Engine configuration and its defaults.
use vstd::prelude::*;

verus! {

/// Timeout used when the configured one is zero.
pub const DEFAULT_TIMEOUT_MS: u64 = 1000;

/// Seed count used when the configured one is zero.
pub const DEFAULT_SEED_COUNT: usize = 8;

/// How the target expects its input.
#[derive(Debug, Clone, Copy, PartialEq, Eq, Structural)]
pub enum HarnessType {
    /// `(pointer, length)` of the input bytes.
    ByteSize,
    /// A NUL-terminated copy of the input bytes.
    String,
}

/// Which scheduler picks the next parent input.
#[derive(Debug, Clone, Copy, PartialEq, Eq, Structural)]
pub enum SchedulerType {
    /// Strict FIFO over the corpus, wrapping to the head.
    Queue,
    /// Weighted random sampling favouring fast, high-coverage entries.
    Weighted,
}

/// The engine's configuration record, with the target itself left to the
/// caller that owns it.
pub struct PeelFuzzConfig {
    pub harness_type: HarnessType,
    pub scheduler_type: SchedulerType,
    /// Executor timeout in milliseconds; 0 selects the default.
    pub timeout_ms: u64,
    /// Directory for findings; `None` selects `./crashes`.
    pub crash_dir: Option<String>,
    /// Number of initial seed inputs; 0 selects the default.
    pub seed_count: u32,
    /// Number of workers; 0 selects every available core.
    pub core_count: u32,
    /// Whether the terminal UI monitor was requested.
    pub use_tui: bool,
}

impl HarnessType {
    /// Decodes the harness tag of the C configuration record: 0 is a
    /// byte-buffer target, 1 a string target, anything else is refused.
    pub fn from_tag(tag: u32) -> (r: Option<HarnessType>)
        ensures
            tag == 0 ==> r == Some(HarnessType::ByteSize),
            tag == 1 ==> r == Some(HarnessType::String),
            tag > 1 ==> r is None,
    {
        if tag == 0 {
            Some(HarnessType::ByteSize)
        } else if tag == 1 {
            Some(HarnessType::String)
        } else {
            None
        }
    }
}

impl SchedulerType {
    /// Decodes the scheduler tag of the C configuration record: 0 is the
    /// queue, 1 the weighted scheduler, anything else is refused.
    pub fn from_tag(tag: u32) -> (r: Option<SchedulerType>)
        ensures
            tag == 0 ==> r == Some(SchedulerType::Queue),
            tag == 1 ==> r == Some(SchedulerType::Weighted),
            tag > 1 ==> r is None,
    {
        if tag == 0 {
            Some(SchedulerType::Queue)
        } else if tag == 1 {
            Some(SchedulerType::Weighted)
        } else {
            None
        }
    }
}

/// The path used when no findings directory is configured.
pub open spec fn default_crash_dir() -> Seq<char> {
    seq!['.', '/', 'c', 'r', 'a', 's', 'h', 'e', 's']
}

impl PeelFuzzConfig {
    pub open spec fn spec_timeout_ms(&self) -> u64 {
        if self.timeout_ms == 0 { DEFAULT_TIMEOUT_MS } else { self.timeout_ms }
    }

    pub open spec fn spec_seed_count(&self) -> usize {
        if self.seed_count == 0 { DEFAULT_SEED_COUNT } else { self.seed_count as usize }
    }

    pub open spec fn spec_core_count(&self, available: Option<usize>) -> usize {
        if self.core_count != 0 {
            self.core_count as usize
        } else {
            match available {
                Some(n) if n > 0 => n,
                _ => 1,
            }
        }
    }

    pub open spec fn spec_crash_dir(&self) -> Seq<char> {
        match self.crash_dir {
            Some(d) => d@,
            None => default_crash_dir(),
        }
    }

    /// The executor timeout in milliseconds: 0 means 1000.
    pub fn timeout_ms_or_default(&self) -> (r: u64)
        ensures
            r == self.spec_timeout_ms(),
            r > 0,
    {
        if self.timeout_ms == 0 {
            DEFAULT_TIMEOUT_MS
        } else {
            self.timeout_ms
        }
    }

    /// The number of seeds to generate: 0 means 8.
    pub fn seed_count_or_default(&self) -> (r: usize)
        ensures
            r == self.spec_seed_count(),
            r > 0,
    {
        if self.seed_count == 0 {
            DEFAULT_SEED_COUNT
        } else {
            self.seed_count as usize
        }
    }

    /// The number of workers: 0 means every available core, as reported by
    /// the caller's probe of the machine (`available`), or one core when the
    /// probe could not tell.
    pub fn core_count_or_default(&self, available: Option<usize>) -> (r: usize)
        ensures
            r == self.spec_core_count(available),
            r >= 1,
    {
        if self.core_count != 0 {
            self.core_count as usize
        } else {
            match available {
                Some(n) => if n > 0 { n } else { 1 },
                None => 1,
            }
        }
    }

    /// The findings directory: the configured one, or `./crashes`.
    pub fn crash_dir_or_default(&self) -> (r: String)
        ensures
            r@ == self.spec_crash_dir(),
    {
        match &self.crash_dir {
            Some(d) => d.clone(),
            None => {
                let r = "./crashes".to_owned();
                proof {
                    reveal_strlit("./crashes");
                }
                r
            },
        }
    }
}

} // verus!
