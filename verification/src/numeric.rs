//! Powers of two and alignment.

use vstd::arithmetic::power2::{is_pow2, pow2};
use vstd::prelude::*;

verus! {

/// Whether `value` is a power of two.
pub fn is_power_of_two(value: u64) -> (yes: bool)
    ensures
        yes == is_pow2(value as int),
{
    let mut rest: u64 = value;
    proof {
        reveal(is_pow2);
    }
    if rest == 0 {
        return false;
    }
    while rest % 2 == 0
        invariant
            rest > 0,
            is_pow2(value as int) == is_pow2(rest as int),
        decreases rest,
    {
        proof {
            reveal(is_pow2);
        }
        rest = rest / 2;
    }
    proof {
        reveal(is_pow2);
    }
    rest == 1
}


/// The greatest multiple of `alignment` that is at most `value`.
pub open spec fn aligned_down(value: int, alignment: int) -> int {
    value - value % alignment
}

/// The least multiple of `alignment` that is at least `value`.
pub open spec fn aligned_up(value: int, alignment: int) -> int {
    aligned_down(value + alignment - 1, alignment)
}

pub(crate) proof fn lemma_aligned_down(value: int, alignment: int)
    requires
        alignment > 0,
    ensures
        aligned_down(value, alignment) <= value < aligned_down(value, alignment) + alignment,
        aligned_down(value, alignment) % alignment == 0,
        forall|a: int| a <= value && #[trigger] (a % alignment) == 0 ==> a <= aligned_down(
            value,
            alignment,
        ),
{
    let down = aligned_down(value, alignment);
    let q = value / alignment;
    vstd::arithmetic::div_mod::lemma_fundamental_div_mod(value, alignment);
    assert(down == alignment * q);
    assert(down % alignment == 0) by {
        vstd::arithmetic::div_mod::lemma_mod_multiples_basic(q, alignment);
        assert(alignment * q == q * alignment) by (nonlinear_arith);
    }
    assert forall|a: int| a <= value && #[trigger] (a % alignment) == 0 implies a <= down by {
        vstd::arithmetic::div_mod::lemma_fundamental_div_mod(a, alignment);
        let k = a / alignment;
        if a > down {
            assert(alignment * k >= alignment * q + alignment) by (nonlinear_arith)
                requires
                    alignment * k > alignment * q,
                    alignment > 0,
            ;
        }
    }
}

pub(crate) proof fn lemma_aligned_up(value: int, alignment: int)
    requires
        alignment > 0,
    ensures
        value <= aligned_up(value, alignment) < value + alignment,
        aligned_up(value, alignment) % alignment == 0,
        forall|a: int| a >= value && #[trigger] (a % alignment) == 0 ==> a >= aligned_up(
            value,
            alignment,
        ),
{
    let up = aligned_up(value, alignment);
    lemma_aligned_down(value + alignment - 1, alignment);
    assert forall|a: int| a >= value && #[trigger] (a % alignment) == 0 implies a >= up by {
        if a < up {
            vstd::arithmetic::div_mod::lemma_fundamental_div_mod(a, alignment);
            vstd::arithmetic::div_mod::lemma_fundamental_div_mod(up, alignment);
            let k = a / alignment;
            let q = up / alignment;
            assert(alignment * q >= alignment * k + alignment) by (nonlinear_arith)
                requires
                    alignment * q > alignment * k,
                    alignment > 0,
            ;
        }
    }
}

/// Adding two multiples, or a multiple of a multiple, keeps alignment.
pub(crate) proof fn lemma_aligned_offset(base: int, k: int, alignment: int)
    requires
        alignment > 0,
        base % alignment == 0,
    ensures
        (base + k * alignment) % alignment == 0,
{
    vstd::arithmetic::div_mod::lemma_mod_multiples_vanish(k, base, alignment);
    assert(k * alignment == alignment * k) by (nonlinear_arith);
}

/// A power of two that fits 64 bits divides `2^64`.
proof fn lemma_pow2_divides_word(alignment: u64)
    requires
        is_pow2(alignment as int),
    ensures
        0x1_0000_0000_0000_0000int % (alignment as int) == 0,
{
    vstd::arithmetic::power2::is_pow2_equiv(alignment as int);
    let k = choose|k: nat| vstd::arithmetic::power::pow(2, k) == alignment;
    vstd::arithmetic::power2::lemma_pow2(k);
    vstd::arithmetic::power2::lemma2_to64();
    if k >= 64 {
        if k > 64 {
            vstd::arithmetic::power2::lemma_pow2_strictly_increases(64, k);
        }
        assert(false);
    }
    vstd::arithmetic::power2::lemma_pow2_adds(k, (64 - k) as nat);
    let rest = pow2((64 - k) as nat) as int;
    assert(0x1_0000_0000_0000_0000int == pow2(64));
    assert(0x1_0000_0000_0000_0000int == rest * alignment) by (nonlinear_arith)
        requires
            0x1_0000_0000_0000_0000int == alignment * rest,
    ;
    vstd::arithmetic::div_mod::lemma_mod_multiples_basic(rest, alignment as int);
}

/// Round `value` down to a multiple of `alignment`, a power of two.
pub fn align_down(value: u64, alignment: u64) -> (aligned: Option<u64>)
    ensures
        match aligned {
            Some(a) => is_pow2(alignment as int) && a == aligned_down(
                value as int,
                alignment as int,
            ),
            None => !is_pow2(alignment as int),
        },
{
    if !is_power_of_two(alignment) {
        return None;
    }
    proof {
        reveal(is_pow2);
        lemma_aligned_down(value as int, alignment as int);
        assert(0int % (alignment as int) == 0);
    }
    Some(value - value % alignment)
}

/// Round `value` up to a multiple of `alignment`, a power of two.
///
/// Fails for other alignments and where the multiple does not fit.
pub fn align_up(value: u64, alignment: u64) -> (aligned: Option<u64>)
    ensures
        match aligned {
            Some(a) => is_pow2(alignment as int) && a == aligned_up(
                value as int,
                alignment as int,
            ),
            None => !is_pow2(alignment as int) || aligned_up(value as int, alignment as int)
                > u64::MAX,
        },
{
    proof {
        reveal(is_pow2);
    }
    let less: u64 = match alignment.checked_sub(1) {
        Some(less) => less,
        None => return None,
    };
    match value.checked_add(less) {
        Some(rounded) => align_down(rounded, alignment),
        None => {
            proof {
                if is_pow2(alignment as int) {
                    lemma_pow2_divides_word(alignment);
                    lemma_aligned_up(value as int, alignment as int);
                    lemma_aligned_down(value + alignment - 1, alignment as int);
                    assert(aligned_up(value as int, alignment as int)
                        >= 0x1_0000_0000_0000_0000int);
                }
            }
            None
        },
    }
}

/// Aligning down gives the largest multiple that is not above the value, and
/// aligning up the smallest that is not below it.
pub proof fn alignment_finds_the_nearest_multiples(value: int, alignment: int)
    requires
        0 <= value,
        alignment > 0,
    ensures
        aligned_down(value, alignment) % alignment == 0,
        aligned_down(value, alignment) <= value < aligned_down(value, alignment) + alignment,
        aligned_up(value, alignment) % alignment == 0,
        aligned_up(value, alignment) - alignment < value <= aligned_up(value, alignment),
{
    vstd::arithmetic::div_mod::lemma_fundamental_div_mod(value, alignment);
    vstd::arithmetic::div_mod::lemma_fundamental_div_mod(value + alignment - 1, alignment);
    vstd::arithmetic::div_mod::lemma_mod_bound(value, alignment);
    vstd::arithmetic::div_mod::lemma_mod_bound(value + alignment - 1, alignment);
    vstd::arithmetic::div_mod::lemma_mod_multiples_basic(value / alignment, alignment);
    vstd::arithmetic::div_mod::lemma_mod_multiples_basic(
        (value + alignment - 1) / alignment,
        alignment,
    );
    vstd::arithmetic::mul::lemma_mul_is_commutative(alignment, value / alignment);
    vstd::arithmetic::mul::lemma_mul_is_commutative(
        alignment,
        (value + alignment - 1) / alignment,
    );
}

} // verus!
