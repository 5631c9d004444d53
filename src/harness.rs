//! The harness adapter: what the target is handed, and how a run ended.
use vstd::prelude::*;

verus! {

/// How one execution of the target ended.
#[derive(Debug, Clone, Copy, PartialEq, Eq, Structural)]
pub enum ExitKind {
    /// The target returned within the timeout.
    Returned,
    /// The target hit a fatal signal or an equivalent fault.
    Crash,
    /// The timer expired before the target returned.
    Timeout,
}

/// The length of the C string at the start of `s`: the position of its first
/// zero byte.
pub open spec fn c_str_len(s: Seq<u8>, n: int) -> bool {
    0 <= n < s.len() && s[n] == 0 && forall|j: int| 0 <= j < n ==> s[j] != 0
}

/// The buffer handed to a string target: a copy of the input followed by a
/// single zero byte.
pub fn nul_terminated(input: &[u8]) -> (r: Vec<u8>)
    requires
        input@.len() < usize::MAX,
    ensures
        r@ == input@.push(0u8),
{
    let mut r: Vec<u8> = Vec::new();
    let mut i: usize = 0;
    while i < input.len()
        invariant
            i <= input@.len(),
            r@ == input@.subrange(0, i as int),
        decreases input@.len() - i,
    {
        r.push(input[i]);
        i = i + 1;
        assert(r@ =~= input@.subrange(0, i as int));
    }
    assert(input@.subrange(0, input@.len() as int) =~= input@);
    r.push(0);
    r
}

/// A string target that reads up to the first zero byte of the buffer built
/// from an input without zero bytes reads exactly the input, and stops.
pub proof fn lemma_nul_terminated_reads_input(input: Seq<u8>)
    requires
        forall|j: int| 0 <= j < input.len() ==> input[j] != 0,
    ensures
        c_str_len(input.push(0u8), input.len() as int),
        input.push(0u8).subrange(0, input.len() as int) == input,
{
    assert(input.push(0u8).subrange(0, input.len() as int) =~= input);
}

} // verus!
