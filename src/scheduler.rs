//! The two schedulers that pick the next parent input from the corpus.
use vstd::prelude::*;
use crate::coverage::MAP_SIZE;

verus! {

/// 2^64, the range of a raw random draw.
pub open spec fn draw_range() -> int {
    0x1_0000_0000_0000_0000
}

/// The index a raw random draw `rand` maps to in `[0, n)`.
pub open spec fn spec_fast_bound(rand: u64, n: u64) -> int {
    (rand as int * n as int) / draw_range()
}

/// Maps a raw 64-bit draw onto `[0, n)` by multiply-shift: the high 64
/// bits of the 128-bit product `rand * n`.
pub fn bound_draw(rand: u64, n: u64) -> (r: u64)
    requires
        n > 0,
    ensures
        r as int == spec_fast_bound(rand, n),
        r < n,
{
    proof {
        lemma_fast_bound_below(rand, n);
    }
    let p: u128 = (rand as u128) * (n as u128);
    (p / 0x1_0000_0000_0000_0000u128) as u64
}

proof fn lemma_fast_bound_below(rand: u64, n: u64)
    requires
        n > 0,
    ensures
        0 <= spec_fast_bound(rand, n) < n,
{
    let p = rand as int * n as int;
    assert(0 <= p) by (nonlinear_arith)
        requires
            rand >= 0,
            n > 0,
            p == rand as int * n as int,
    ;
    assert(p < draw_range() * n as int) by (nonlinear_arith)
        requires
            rand < draw_range(),
            n > 0,
            p == rand as int * n as int,
    ;
    assert(p / draw_range() < n as int) by (nonlinear_arith)
        requires
            0 <= p < draw_range() * n as int,
            draw_range() > 0,
    ;
    assert(p / draw_range() >= 0) by (nonlinear_arith)
        requires
            0 <= p,
            draw_range() > 0,
    ;
}

// ---------------------------------------------------------------- queue

/// The entry the queue picks when its cursor is at `pos` and the corpus
/// holds `len` entries: the cursor, or the head once the cursor ran off.
pub open spec fn queue_pick(pos: usize, len: usize) -> usize {
    if pos < len { pos } else { 0 }
}

/// Strict FIFO over the corpus, wrapping to the head.
pub struct QueueScheduler {
    cursor: usize,
}

impl QueueScheduler {
    /// The position of the next entry to pick.
    pub closed spec fn position(&self) -> usize {
        self.cursor
    }

    /// A scheduler that starts at the head of the corpus: for any corpus
    /// size, it is where a fresh queue stands before its first pick.
    pub fn new() -> (r: QueueScheduler)
        ensures
            r.position() == 0,
            forall|len: usize| r.position() == #[trigger] queue_cursor_after(0, len),
    {
        QueueScheduler { cursor: 0 }
    }

    /// Picks the next parent among `corpus_len` entries; entries appended
    /// since the last pick are eligible at once.
    pub fn next(&mut self, corpus_len: usize) -> (r: usize)
        requires
            corpus_len > 0,
        ensures
            r == queue_pick(old(self).position(), corpus_len),
            r < corpus_len,
            final(self).position() == r + 1,
            forall|k: nat|
                old(self).position() == #[trigger] queue_cursor_after(k, corpus_len) ==> r == k
                    % (corpus_len as nat) && final(self).position() == queue_cursor_after(
                    k + 1,
                    corpus_len,
                ),
    {
        proof {
            assert forall|k: nat|
                old(self).position() == #[trigger] queue_cursor_after(k, corpus_len) implies queue_pick(
                    old(self).position(),
                    corpus_len,
                ) == k % (corpus_len as nat) && queue_pick(old(self).position(), corpus_len) + 1
                    == queue_cursor_after(k + 1, corpus_len) by {
                lemma_queue_round_robin(k, corpus_len);
            }
        }
        let r = if self.cursor < corpus_len { self.cursor } else { 0 };
        self.cursor = r + 1;
        r
    }
}

/// The cursor of a fresh queue after `k` picks over a corpus of `len`.
pub open spec fn queue_cursor_after(k: nat, len: usize) -> usize
    decreases k,
{
    if k == 0 {
        0
    } else {
        (queue_pick(queue_cursor_after((k - 1) as nat, len), len) + 1) as usize
    }
}

/// Over a corpus of fixed size, a fresh queue picks entries
/// 0, 1, ..., len - 1, 0, 1, ...: pick number `k` is `k mod len`.
pub proof fn lemma_queue_round_robin(k: nat, len: usize)
    requires
        len > 0,
    ensures
        queue_pick(queue_cursor_after(k, len), len) == k % (len as nat),
        queue_cursor_after(k, len) <= len,
    decreases k,
{
    if k > 0 {
        lemma_queue_round_robin((k - 1) as nat, len);
        let prev = ((k - 1) as nat) % (len as nat);
        assert(queue_cursor_after(k, len) == prev + 1);
        vstd::arithmetic::div_mod::lemma_add_mod_noop_right(1, (k - 1) as int, len as int);
        assert(((1 + prev) as int) % (len as int) == (k as int) % (len as int));
        if prev + 1 < len {
            vstd::arithmetic::div_mod::lemma_small_mod((prev + 1) as nat, len as nat);
        } else {
            vstd::arithmetic::div_mod::lemma_mod_self_0(len as int);
        }
    }
}

// ---------------------------------------------------------------- weighted

/// Largest weight an entry can get.
pub const MAX_WEIGHT: u64 = 67109889;

/// Most entries a weighted scheduler can hold.
pub const MAX_ENTRIES: usize = 0xffff_ffff;

/// The weight of a corpus entry whose run took `exec_us` microseconds and
/// raised `gain` cells of the coverage envelope:
/// `(min(gain, MAP_SIZE) + 1) * 1024 / (exec_us / 1000 + 1) + 1`.
/// Faster runs and larger contributions weigh more; every weight is at least 1.
pub open spec fn spec_weight(exec_us: u64, gain: usize) -> int {
    let g = if gain < MAP_SIZE { gain as int } else { MAP_SIZE as int };
    (g + 1) * 1024 / (exec_us as int / 1000 + 1) + 1
}

/// The sum of the first `k` weights.
pub open spec fn prefix_sum(w: Seq<u64>, k: int) -> int
    decreases k,
{
    if k <= 0 || w.len() == 0 {
        0
    } else if k > w.len() {
        prefix_sum(w, w.len() as int)
    } else {
        prefix_sum(w, k - 1) + w[k - 1]
    }
}

/// The sum of all weights.
pub open spec fn total_weight(w: Seq<u64>) -> int {
    prefix_sum(w, w.len() as int)
}

proof fn lemma_prefix_sum_push(w: Seq<u64>, x: u64, k: int)
    requires
        0 <= k <= w.len(),
    ensures
        prefix_sum(w.push(x), k) == prefix_sum(w, k),
    decreases k,
{
    if k > 0 {
        lemma_prefix_sum_push(w, x, k - 1);
    }
}

/// Computes the weight of an entry.
pub fn weight(exec_us: u64, gain: usize) -> (r: u64)
    ensures
        r as int == spec_weight(exec_us, gain),
        1 <= r <= MAX_WEIGHT,
{
    let g: u64 = if gain < MAP_SIZE { gain as u64 } else { MAP_SIZE as u64 };
    let num: u64 = (g + 1) * 1024;
    let den: u64 = exec_us / 1000 + 1;
    let q: u64 = num / den;
    assert(q <= num) by (nonlinear_arith)
        requires
            q == num / den,
            den >= 1,
    ;
    q + 1
}

/// Weighted random choice of the next parent: entry `i` is drawn with
/// probability proportional to its weight. The draw's range is split into
/// consecutive shares laid out in identifier order, lower identifiers first,
/// so entries of equal weight are ordered by identifier and every draw
/// value belongs to exactly one share. An entry's weight depends on its own run alone, so
/// refreshing the weights when an entry is admitted leaves the older weights
/// as they were and only adds the new one.
pub struct WeightedScheduler {
    weights: Vec<u64>,
    total: u64,
}

impl View for WeightedScheduler {
    type V = Seq<u64>;

    closed spec fn view(&self) -> Seq<u64> {
        self.weights@
    }
}

impl WeightedScheduler {
    /// The scheduler's internal consistency: its running total is the sum
    /// of the weights, and each weight is in `[1, MAX_WEIGHT]`.
    pub closed spec fn wf(&self) -> bool {
        &&& self.weights@.len() <= MAX_ENTRIES
        &&& self.total as int == total_weight(self.weights@)
        &&& self.total as int <= self.weights@.len() * (MAX_WEIGHT as int)
        &&& forall|i: int| 0 <= i < self.weights@.len() ==> 1 <= #[trigger] self.weights@[i] <= MAX_WEIGHT
    }

    /// A scheduler over an empty corpus.
    pub fn new() -> (r: WeightedScheduler)
        ensures
            r.wf(),
            r@.len() == 0,
    {
        WeightedScheduler { weights: Vec::new(), total: 0 }
    }

    /// Number of entries.
    pub fn len(&self) -> (r: usize)
        ensures
            r == self@.len(),
    {
        self.weights.len()
    }

    /// The sum of all weights.
    pub fn total(&self) -> (r: u64)
        requires
            self.wf(),
        ensures
            r as int == total_weight(self@),
    {
        self.total
    }

    /// Registers a newly admitted entry, which is eligible at once.
    pub fn add(&mut self, exec_us: u64, gain: usize)
        requires
            old(self).wf(),
            old(self)@.len() < MAX_ENTRIES,
        ensures
            final(self).wf(),
            final(self)@ == old(self)@.push(spec_weight(exec_us, gain) as u64),
    {
        let w = weight(exec_us, gain);
        proof {
            lemma_prefix_sum_push(self.weights@, w, self.weights@.len() as int);
        }
        self.weights.push(w);
        self.total = self.total + w;
    }

    /// Picks the entry that the raw draw `rand` selects: the draw is mapped
    /// onto `[0, total)` and the entry whose share of that range holds it is
    /// returned; a lower index comes first.
    pub fn next(&self, rand: u64) -> (r: usize)
        requires
            self.wf(),
            self@.len() > 0,
        ensures
            r < self@.len(),
            prefix_sum(self@, r as int) <= spec_fast_bound(rand, total_weight(self@) as u64)
                < prefix_sum(self@, r + 1),
    {
        let n = self.weights.len();
        assert(self.weights@[0] >= 1);
        assert(self.total > 0) by {
            assert(prefix_sum(self.weights@, 1) == prefix_sum(self.weights@, 0) + self.weights@[0]);
            lemma_prefix_sum_nonneg_mono(self.weights@, 1, n as int);
        }
        let t = bound_draw(rand, self.total);
        let mut acc: u64 = 0;
        let mut i: usize = 0;
        while i < n
            invariant
                self.wf(),
                n == self@.len(),
                i <= n,
                acc as int == prefix_sum(self@, i as int),
                acc <= t,
                (t as int) < self.total as int,
                t as int == spec_fast_bound(rand, self.total),
            decreases n - i,
        {
            let w = self.weights[i];
            proof {
                lemma_prefix_sum_nonneg_mono(self.weights@, (i + 1) as int, n as int);
            }
            assert(prefix_sum(self@, i + 1) == prefix_sum(self@, i as int) + w);
            if t < acc + w {
                assert(t as int == spec_fast_bound(rand, total_weight(self@) as u64));
                return i;
            }
            acc = acc + w;
            i = i + 1;
        }
        proof {
            assert(prefix_sum(self@, n as int) == total_weight(self@));
        }
        0
    }
}

proof fn lemma_prefix_sum_nonneg_mono(w: Seq<u64>, j: int, k: int)
    requires
        0 <= j <= k <= w.len(),
    ensures
        0 <= prefix_sum(w, j) <= prefix_sum(w, k),
    decreases k - j,
{
    if j < k {
        lemma_prefix_sum_nonneg_mono(w, j, k - 1);
    } else {
        lemma_prefix_sum_nonneg(w, j);
    }
}

proof fn lemma_prefix_sum_nonneg(w: Seq<u64>, k: int)
    requires
        0 <= k <= w.len(),
    ensures
        0 <= prefix_sum(w, k),
    decreases k,
{
    if k > 0 {
        lemma_prefix_sum_nonneg(w, k - 1);
    }
}

} // verus!
