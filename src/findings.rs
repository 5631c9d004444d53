//! Names of the files in the findings directory: a per-worker prefix and a
//! per-worker sequence number, both in fixed-width lower-case hex, so that
//! workers sharing the directory never collide.
use vstd::prelude::*;

verus! {

/// `16^k`.
pub open spec fn pow16(k: nat) -> nat
    decreases k,
{
    if k == 0 { 1 } else { 16 * pow16((k - 1) as nat) }
}

/// The ASCII lower-case hex digit of `d` in `[0, 16)`.
pub open spec fn hex_digit(d: nat) -> u8 {
    if d < 10 { (48 + d) as u8 } else { (87 + d) as u8 }
}

/// The last `k` hex digits of `n`, most significant first.
pub open spec fn hex_digits(n: nat, k: nat) -> Seq<u8>
    decreases k,
{
    if k == 0 {
        Seq::empty()
    } else {
        hex_digits(n / 16, (k - 1) as nat).push(hex_digit(n % 16))
    }
}

/// The file name of finding number `seq` of worker `worker`:
/// `w`, eight hex digits of the worker, `-`, sixteen hex digits of `seq`.
pub open spec fn spec_finding_name(worker: u32, seq: u64) -> Seq<u8> {
    seq![119u8] + hex_digits(worker as nat, 8) + seq![45u8] + hex_digits(seq as nat, 16)
}

fn hex_byte(d: u64) -> (r: u8)
    requires
        d < 16,
    ensures
        r == hex_digit(d as nat),
{
    if d < 10 {
        (48 + d) as u8
    } else {
        (87 + d) as u8
    }
}

fn push_hex(out: &mut Vec<u8>, n: u64, k: usize)
    ensures
        final(out)@ == old(out)@ + hex_digits(n as nat, k as nat),
    decreases k,
{
    if k > 0 {
        push_hex(out, n / 16, k - 1);
        out.push(hex_byte(n % 16));
        assert(final(out)@ =~= old(out)@ + hex_digits(n as nat, k as nat));
    } else {
        assert(out@ =~= old(out)@ + hex_digits(n as nat, k as nat));
    }
}

/// The file name, as ASCII bytes, of finding number `seq` of worker `worker`.
pub fn finding_name(worker: u32, seq: u64) -> (r: Vec<u8>)
    ensures
        r@ == spec_finding_name(worker, seq),
{
    let mut r: Vec<u8> = Vec::new();
    r.push(119);
    push_hex(&mut r, worker as u64, 8);
    r.push(45);
    push_hex(&mut r, seq, 16);
    assert(r@ =~= spec_finding_name(worker, seq));
    r
}

proof fn lemma_hex_digits_len(n: nat, k: nat)
    ensures
        hex_digits(n, k).len() == k,
    decreases k,
{
    if k > 0 {
        lemma_hex_digits_len(n / 16, (k - 1) as nat);
    }
}

proof fn lemma_hex_digits_injective(a: nat, b: nat, k: nat)
    requires
        a < pow16(k),
        b < pow16(k),
        hex_digits(a, k) == hex_digits(b, k),
    ensures
        a == b,
    decreases k,
{
    if k > 0 {
        let p = pow16((k - 1) as nat);
        assert(hex_digits(a, k).last() == hex_digit(a % 16));
        assert(hex_digits(b, k).last() == hex_digit(b % 16));
        assert(a % 16 == b % 16);
        assert(hex_digits(a, k).drop_last() =~= hex_digits(a / 16, (k - 1) as nat));
        assert(hex_digits(b, k).drop_last() =~= hex_digits(b / 16, (k - 1) as nat));
        assert(a / 16 < p) by (nonlinear_arith)
            requires
                a < 16 * p,
        ;
        assert(b / 16 < p) by (nonlinear_arith)
            requires
                b < 16 * p,
        ;
        lemma_hex_digits_injective(a / 16, b / 16, (k - 1) as nat);
    }
}

/// Two findings with different workers or different sequence numbers get
/// different file names.
pub proof fn lemma_finding_names_unique(w1: u32, s1: u64, w2: u32, s2: u64)
    requires
        w1 != w2 || s1 != s2,
    ensures
        spec_finding_name(w1, s1) != spec_finding_name(w2, s2),
{
    reveal_with_fuel(pow16, 17);
    assert(pow16(8) == 0x1_0000_0000);
    assert(pow16(16) == 0x1_0000_0000_0000_0000);
    lemma_hex_digits_len(w1 as nat, 8);
    lemma_hex_digits_len(w2 as nat, 8);
    lemma_hex_digits_len(s1 as nat, 16);
    lemma_hex_digits_len(s2 as nat, 16);
    let n1 = spec_finding_name(w1, s1);
    let n2 = spec_finding_name(w2, s2);
    if n1 == n2 {
        assert(n1.subrange(1, 9) =~= hex_digits(w1 as nat, 8));
        assert(n2.subrange(1, 9) =~= hex_digits(w2 as nat, 8));
        assert(n1.subrange(10, 26) =~= hex_digits(s1 as nat, 16));
        assert(n2.subrange(10, 26) =~= hex_digits(s2 as nat, 16));
        lemma_hex_digits_injective(w1 as nat, w2 as nat, 8);
        lemma_hex_digits_injective(s1 as nat, s2 as nat, 16);
    }
}

} // verus!
