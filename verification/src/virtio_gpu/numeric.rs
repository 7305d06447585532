//! Powers of two and alignment.
use vstd::prelude::*;

verus! {

/// Two to the power `k`.
pub open spec fn pow2_of(k: nat) -> nat
    decreases k,
{
    if k == 0 {
        1
    } else {
        2 * pow2_of((k - 1) as nat)
    }
}

/// Whether `n` is a power of two.
pub open spec fn is_power_of_two(n: int) -> bool {
    exists|k: nat| n == pow2_of(k)
}

proof fn lemma_pow2_of_monotone(a: nat, b: nat)
    requires
        a <= b,
    ensures
        pow2_of(a) <= pow2_of(b),
        1 <= pow2_of(a),
    decreases b,
{
    if b > a {
        lemma_pow2_of_monotone(a, (b - 1) as nat);
    } else if a > 0 {
        lemma_pow2_of_monotone((a - 1) as nat, (a - 1) as nat);
    }
}

/// Whether `x` is a power of two (`0` is not).
pub fn is_power_of_two_u16(x: u16) -> (r: bool)
    ensures
        r == is_power_of_two(x as int),
{
    let mut p: u32 = 1;
    let mut k: u32 = 0;
    while k < 16
        invariant
            k <= 16,
            p == pow2_of(k as nat),
            forall|j: nat| j < k ==> pow2_of(j) != x,
        decreases 16 - k,
    {
        if p == x as u32 {
            assert(x as int == pow2_of(k as nat));
            return true;
        }
        assert(pow2_of((k + 1) as nat) == 2 * pow2_of(k as nat));
        assert(p < 0x10000) by {
            lemma_pow2_of_monotone(k as nat, 15);
            reveal_with_fuel(pow2_of, 16);
        }
        p = p * 2;
        k = k + 1;
    }
    assert forall|j: nat| x as int != pow2_of(j) by {
        if j >= 16 {
            lemma_pow2_of_monotone(16, j);
            reveal_with_fuel(pow2_of, 17);
        }
    }
    false
}

/// `value` rounded up to a multiple of `alignment`.
pub open spec fn spec_align_up(value: int, alignment: int) -> int {
    ((value + alignment - 1) / alignment) * alignment
}

} // verus!
