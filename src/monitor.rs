//! Rate limiting for the plain statistics printer.
use vstd::prelude::*;

verus! {

/// Least time between two rendered lines, in milliseconds.
pub const RENDER_INTERVAL_MS: u64 = 1000;

/// Remembers when a line was last rendered.
pub struct Throttle {
    last_ms: Option<u64>,
}

impl Throttle {
    /// When a line was last rendered, if ever.
    pub closed spec fn last(&self) -> Option<u64> {
        self.last_ms
    }

    /// A throttle that has rendered nothing yet.
    pub fn new() -> (r: Throttle)
        ensures
            r.last() is None,
    {
        Throttle { last_ms: None }
    }

    /// Whether a line is rendered at time `now_ms`: the first one is, and
    /// after that one a full interval after the last rendered line.
    pub fn should_render(&mut self, now_ms: u64) -> (r: bool)
        ensures
            r == match old(self).last() {
                None => true,
                Some(t) => now_ms as int >= t as int + RENDER_INTERVAL_MS as int,
            },
            r ==> final(self).last() == Some(now_ms),
            !r ==> final(self).last() == old(self).last(),
    {
        let render = match self.last_ms {
            None => true,
            Some(t) => now_ms >= t && now_ms - t >= RENDER_INTERVAL_MS,
        };
        if render {
            self.last_ms = Some(now_ms);
        }
        render
    }
}

} // verus!
