//! The max-map feedback, which decides corpus admission, and the objective,
//! which decides persistence.
use vstd::prelude::*;
use crate::harness::ExitKind;

verus! {

/// Some cell of `map` is above the same cell of `env`.
pub open spec fn exceeds(map: Seq<u8>, env: Seq<u8>) -> bool {
    exists|i: int| 0 <= i < map.len() && i < env.len() && map[i] > env[i]
}

/// The cell-wise maximum of `env` and `map`.
pub open spec fn join(env: Seq<u8>, map: Seq<u8>) -> Seq<u8> {
    Seq::new(env.len(), |i: int| if i < map.len() && map[i] > env[i] { map[i] } else { env[i] })
}

/// Every cell of `a` is at most the same cell of `b`.
pub open spec fn dominated(a: Seq<u8>, b: Seq<u8>) -> bool {
    a.len() == b.len() && forall|i: int| 0 <= i < a.len() ==> a[i] <= b[i]
}

/// `new` is `old` grown strictly: no cell lower, some cell higher.
pub open spec fn strictly_grown(old: Seq<u8>, new: Seq<u8>) -> bool {
    dominated(old, new) && exists|i: int| 0 <= i < old.len() && old[i] < new[i]
}

/// How many of the first `k` cells of `map` are above `env`.
pub open spec fn gain_upto(map: Seq<u8>, env: Seq<u8>, k: int) -> nat
    decreases k,
{
    if k <= 0 {
        0
    } else {
        gain_upto(map, env, k - 1) + if map[k - 1] > env[k - 1] { 1nat } else { 0nat }
    }
}

/// How many cells `map` raises the envelope `env` in.
pub open spec fn gain(map: Seq<u8>, env: Seq<u8>) -> nat {
    gain_upto(map, env, if map.len() < env.len() { map.len() as int } else { env.len() as int })
}

/// The objective fires on a crash or a timeout, never on a normal return.
pub open spec fn spec_is_objective(exit: ExitKind) -> bool {
    exit is Crash || exit is Timeout
}

/// The running cell-wise maximum of every coverage map admitted so far.
pub struct Envelope {
    max: Vec<u8>,
}

impl View for Envelope {
    type V = Seq<u8>;

    closed spec fn view(&self) -> Seq<u8> {
        self.max@
    }
}

impl Envelope {
    /// An envelope of `len` cells, all zero.
    pub fn new(len: usize) -> (r: Envelope)
        ensures
            r@.len() == len,
            forall|i: int| 0 <= i < len ==> r@[i] == 0,
    {
        let mut max: Vec<u8> = Vec::new();
        let mut i: usize = 0;
        while i < len
            invariant
                i <= len,
                max@.len() == i,
                forall|j: int| 0 <= j < i ==> max@[j] == 0,
            decreases len - i,
        {
            max.push(0);
            i = i + 1;
        }
        Envelope { max }
    }

    /// Number of cells.
    pub fn len(&self) -> (r: usize)
        ensures
            r == self@.len(),
    {
        self.max.len()
    }

    /// The value of cell `i`.
    pub fn cell(&self, i: usize) -> (r: u8)
        requires
            i < self@.len(),
        ensures
            r == self@[i as int],
    {
        self.max[i]
    }

    /// Whether `map` raises the envelope in at least one cell.
    pub fn is_interesting(&self, map: &[u8]) -> (r: bool)
        ensures
            r == exceeds(map@, self@),
    {
        let n = if map.len() < self.max.len() { map.len() } else { self.max.len() };
        let mut i: usize = 0;
        while i < n
            invariant
                n <= map@.len(),
                n <= self@.len(),
                n == map@.len() || n == self@.len(),
                i <= n,
                forall|j: int| 0 <= j < i ==> map@[j] <= self@[j],
            decreases n - i,
        {
            if map[i] > self.max[i] {
                return true;
            }
            i = i + 1;
        }
        false
    }

    /// How many cells `map` raises the envelope in.
    pub fn gain(&self, map: &[u8]) -> (r: usize)
        ensures
            r == gain(map@, self@),
    {
        let n = if map.len() < self.max.len() { map.len() } else { self.max.len() };
        let mut i: usize = 0;
        let mut count: usize = 0;
        while i < n
            invariant
                n <= map@.len(),
                n <= self@.len(),
                n == (if map@.len() < self@.len() { map@.len() } else { self@.len() }),
                i <= n,
                count == gain_upto(map@, self@, i as int),
                count <= i,
            decreases n - i,
        {
            if map[i] > self.max[i] {
                count = count + 1;
            }
            i = i + 1;
        }
        count
    }

    /// Raises every cell to at least the same cell of `map`.
    pub fn update(&mut self, map: &[u8])
        ensures
            final(self)@ == join(old(self)@, map@),
    {
        let n = self.max.len();
        let mut i: usize = 0;
        while i < n
            invariant
                n == self@.len(),
                n == old(self)@.len(),
                i <= n,
                forall|j: int| 0 <= j < i ==> self@[j] == join(old(self)@, map@)[j],
                forall|j: int| i <= j < n ==> self@[j] == old(self)@[j],
            decreases n - i,
        {
            if i < map.len() && map[i] > self.max[i] {
                self.max.set(i, map[i]);
            }
            i = i + 1;
        }
        assert(self@ =~= join(old(self)@, map@));
    }
}

/// Whether the run's outcome makes the input a finding.
pub fn is_objective(exit: ExitKind) -> (r: bool)
    ensures
        r == spec_is_objective(exit),
{
    match exit {
        ExitKind::Returned => false,
        ExitKind::Crash => true,
        ExitKind::Timeout => true,
    }
}

/// Admitting an interesting map grows the envelope strictly.
pub proof fn lemma_join_strictly_grows(env: Seq<u8>, map: Seq<u8>)
    requires
        exceeds(map, env),
    ensures
        strictly_grown(env, join(env, map)),
{
    let i = choose|i: int| 0 <= i < map.len() && i < env.len() && map[i] > env[i];
    assert(env[i] < join(env, map)[i]);
}

/// Once a map is absorbed, no map that it dominates is interesting again.
pub proof fn lemma_absorbed_not_interesting(env: Seq<u8>, map: Seq<u8>, later: Seq<u8>)
    requires
        map.len() == env.len(),
        dominated(later, map),
    ensures
        !exceeds(later, join(env, map)),
{
}

/// An all-zero map is never interesting.
pub proof fn lemma_zero_map_not_interesting(env: Seq<u8>, map: Seq<u8>)
    requires
        forall|i: int| 0 <= i < map.len() ==> map[i] == 0,
    ensures
        !exceeds(map, env),
{
}

} // verus!
