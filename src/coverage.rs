//! The coverage map protocol: guard numbering at startup, hit marking on
//! every instrumented edge, and the reset between inputs.
use vstd::prelude::*;

verus! {

/// Number of cells in the coverage map.
pub const MAP_SIZE: usize = 65536;

/// A map with every cell zero.
pub open spec fn all_zero(m: Seq<u8>) -> bool {
    forall|i: int| 0 <= i < m.len() ==> m[i] == 0
}

/// The map after a reset: same length, every cell zero.
pub open spec fn spec_reset(m: Seq<u8>) -> Seq<u8> {
    Seq::new(m.len(), |i: int| 0u8)
}

/// The cell that a guard holding `g` marks, if any.
pub open spec fn spec_map_index(g: u32) -> Option<usize> {
    if g == 0 { None } else { Some((g as usize) % MAP_SIZE) }
}

/// The map after the edge whose guard holds `g` has been reached.
pub open spec fn spec_hit(m: Seq<u8>, g: u32) -> Seq<u8> {
    match spec_map_index(g) {
        Some(i) => if i < m.len() { m.update(i as int, 1u8) } else { m },
        None => m,
    }
}

/// A guard region after initialization: an empty or already numbered region
/// is kept; otherwise guard `i` holds `i + 1`.
pub open spec fn spec_init_guards(s: Seq<u32>) -> Seq<u32> {
    if s.len() == 0 || s[0] != 0 {
        s
    } else {
        Seq::new(s.len(), |i: int| (i + 1) as u32)
    }
}

/// The map cell that the guard value `g` addresses: none for an unassigned
/// guard, otherwise `g mod MAP_SIZE`.
pub fn map_index(g: u32) -> (r: Option<usize>)
    ensures
        r == spec_map_index(g),
        g == 0 <==> r is None,
        r matches Some(i) ==> i < MAP_SIZE,
{
    if g == 0 {
        None
    } else {
        Some((g as usize) % MAP_SIZE)
    }
}

/// Marks cell `idx` as hit; an index past the map is ignored.
pub fn mark_coverage(map: &mut [u8], idx: usize)
    ensures
        final(map)@ == (if idx < old(map)@.len() {
            old(map)@.update(idx as int, 1u8)
        } else {
            old(map)@
        }),
{
    if idx < map.len() {
        map[idx] = 1;
    }
}

/// The edge callback: marks the cell of the guard value `g`, or nothing when
/// the guard is unassigned.
pub fn trace_pc_guard(map: &mut [u8], g: u32)
    ensures
        final(map)@ == spec_hit(old(map)@, g),
{
    match map_index(g) {
        Some(i) => mark_coverage(map, i),
        None => {},
    }
}

/// Zeros every cell of the map.
pub fn reset_coverage(map: &mut [u8])
    ensures
        final(map)@ == spec_reset(old(map)@),
        all_zero(final(map)@),
{
    let n = map.len();
    let mut i: usize = 0;
    while i < n
        invariant
            n == map@.len(),
            n == old(map)@.len(),
            i <= n,
            forall|j: int| 0 <= j < i ==> map@[j] == 0,
        decreases n - i,
    {
        map[i] = 0;
        i = i + 1;
    }
    assert(map@ =~= spec_reset(old(map)@));
}

/// The startup callback over one guard region: numbers the guards from 1
/// unless the region is empty or already numbered.
pub fn init_guards(guards: &mut [u32])
    requires
        old(guards)@.len() <= u32::MAX,
    ensures
        final(guards)@ == spec_init_guards(old(guards)@),
{
    let n = guards.len();
    if n == 0 || guards[0] != 0 {
        return;
    }
    let mut i: usize = 0;
    while i < n
        invariant
            n == guards@.len(),
            n == old(guards)@.len(),
            n <= u32::MAX,
            i <= n,
            forall|j: int| 0 <= j < i ==> guards@[j] == (j + 1) as u32,
        decreases n - i,
    {
        guards[i] = (i + 1) as u32;
        i = i + 1;
    }
    assert(guards@ =~= spec_init_guards(old(guards)@));
}

/// Initializing a guard region twice numbers it as initializing it once.
pub proof fn lemma_init_guards_idempotent(s: Seq<u32>)
    requires
        s.len() <= u32::MAX,
    ensures
        spec_init_guards(spec_init_guards(s)) == spec_init_guards(s),
{
    if s.len() != 0 && s[0] == 0 {
        assert(spec_init_guards(s)[0] == 1u32);
    }
}

/// After initialization every guard of a fresh region holds an index in
/// `[1, total_guards]`.
pub proof fn lemma_init_guards_range(s: Seq<u32>, i: int)
    requires
        s.len() <= u32::MAX,
        s.len() > 0,
        s[0] == 0,
        0 <= i < s.len(),
    ensures
        1 <= spec_init_guards(s)[i] <= s.len(),
{
}

/// The cell marked for a guard value `g` is `g mod MAP_SIZE`, and the value
/// 0 marks no cell.
pub proof fn lemma_hit_cell(m: Seq<u8>, g: u32)
    requires
        m.len() == MAP_SIZE,
    ensures
        g == 0 ==> spec_hit(m, g) == m,
        g != 0 ==> spec_hit(m, g) == m.update((g as int) % (MAP_SIZE as int), 1u8),
{
}

/// Two resets back to back leave the map all zero, as one does.
pub proof fn lemma_reset_idempotent(m: Seq<u8>)
    ensures
        spec_reset(spec_reset(m)) == spec_reset(m),
        all_zero(spec_reset(spec_reset(m))),
{
    assert(spec_reset(spec_reset(m)) =~= spec_reset(m));
}

} // verus!
