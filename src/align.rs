//! Rounding of addresses to power-of-two boundaries.
use vstd::prelude::*;
use vstd::arithmetic::power2::{pow2, lemma_pow2_pos, lemma_pow2_adds, lemma2_to64};
use vstd::arithmetic::div_mod::{
    lemma_fundamental_div_mod, lemma_mod_bound, lemma_mod_multiples_basic, lemma_mod_multiples_vanish,
    lemma_small_mod,
};
use vstd::bits::{low_bits_mask, lemma_usize_low_bits_mask_is_mod};

verus! {

/// `a` is a power of two that a `usize` can hold.
pub open spec fn is_pow2(a: int) -> bool {
    exists|k: nat| k < usize::BITS && a == pow2(k)
}

/// The largest multiple of `a` that is not above `v`.
pub open spec fn spec_align_down(v: int, a: int) -> int {
    v - v % a
}

/// The smallest multiple of `a` that is not below `v`.
pub open spec fn spec_align_up(v: int, a: int) -> int {
    spec_align_down(v + a - 1, a)
}

/// A power of two is positive.
pub proof fn lemma_pow2_positive(a: int)
    requires
        is_pow2(a),
    ensures
        a > 0,
{
    let k = choose|k: nat| k < usize::BITS && a == pow2(k);
    lemma_pow2_pos(k);
}

/// Masking off the low bits of `v` below a power of two `a` rounds `v` down
/// to a multiple of `a`.
proof fn lemma_mask_rounds_down(v: usize, a: usize)
    requires
        is_pow2(a as int),
    ensures
        a > 0,
        v & !((a - 1) as usize) == spec_align_down(v as int, a as int),
{
    let k = choose|k: nat| k < usize::BITS && a == pow2(k);
    lemma_pow2_pos(k);
    assert(low_bits_mask(k) == a - 1);
    lemma_usize_low_bits_mask_is_mod(v, k);
    let m = (a - 1) as usize;
    assert((v & !m) + (v & m) == v) by (bit_vector);
}

/// Facts about rounding down that callers reason with.
pub proof fn lemma_align_down_bounds(v: int, a: int)
    requires
        a > 0,
    ensures
        spec_align_down(v, a) <= v,
        v - spec_align_down(v, a) < a,
        spec_align_down(v, a) % a == 0,
        v >= 0 ==> spec_align_down(v, a) >= 0,
{
    lemma_mod_bound(v, a);
    lemma_fundamental_div_mod(v, a);
    assert(spec_align_down(v, a) == a * (v / a));
    lemma_mod_multiples_basic(v / a, a);
    assert((v / a) * a == a * (v / a)) by (nonlinear_arith);
}

/// Facts about rounding up that callers reason with.
pub proof fn lemma_align_up_bounds(v: int, a: int)
    requires
        a > 0,
    ensures
        v <= spec_align_up(v, a),
        spec_align_up(v, a) < v + a,
        spec_align_up(v, a) % a == 0,
        v % a == 0 ==> spec_align_up(v, a) == v,
{
    lemma_align_down_bounds(v + a - 1, a);
    if v % a == 0 {
        lemma_fundamental_div_mod(v, a);
        lemma_mod_multiples_vanish(v / a, a - 1, a);
        assert(a * (v / a) + (a - 1) == v + a - 1);
        lemma_small_mod((a - 1) as nat, a as nat);
    }
}

/// When `v + a - 1` passes the largest `usize`, so does `v` rounded up to a
/// multiple of the power of two `a`.
pub proof fn lemma_align_up_past_max(v: int, a: int)
    requires
        is_pow2(a),
        v + a - 1 > usize::MAX,
    ensures
        spec_align_up(v, a) > usize::MAX,
{
    let k = choose|k: nat| k < usize::BITS && a == pow2(k);
    lemma_pow2_pos(k);
    lemma2_to64();
    let n = pow2(usize::BITS as nat) as int;
    assert(usize::MAX + 1 == n);
    let m = pow2((usize::BITS - k) as nat) as int;
    lemma_pow2_adds(k, (usize::BITS - k) as nat);
    assert(a * m == n);
    let u = spec_align_up(v, a);
    lemma_align_up_bounds(v, a);
    if u <= usize::MAX {
        let q = u / a;
        lemma_fundamental_div_mod(u, a);
        assert(u == a * q);
        assert(q < m) by (nonlinear_arith)
            requires
                a * q < a * m,
                a > 0,
        ;
        assert(a * q <= a * m - a) by (nonlinear_arith)
            requires
                q < m,
                a > 0,
        ;
    }
}

/// Rounds `val` down to a multiple of the power of two `align`.
pub fn align_down(val: usize, align: usize) -> (r: usize)
    requires
        is_pow2(align as int),
    ensures
        r == spec_align_down(val as int, align as int),
{
    proof {
        lemma_mask_rounds_down(val, align);
    }
    val & !(align - 1)
}

/// Rounds `val` up to a multiple of the power of two `align`; the sum
/// `val + align - 1` must fit in a `usize`.
pub fn align_up(val: usize, align: usize) -> (r: usize)
    requires
        is_pow2(align as int),
        val + align - 1 <= usize::MAX,
    ensures
        r == spec_align_up(val as int, align as int),
{
    proof {
        lemma_mask_rounds_down(val, align);
    }
    let sum = val + (align - 1);
    proof {
        lemma_mask_rounds_down(sum, align);
    }
    sum & !(align - 1)
}

} // verus!
