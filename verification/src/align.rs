//! Alignment arithmetic shared by the byte side and the page side of the
//! allocator: rounding an address up or down to a multiple of an alignment.

use vstd::prelude::*;
use vstd::arithmetic::div_mod::*;
use vstd::arithmetic::mul::*;
use vstd::arithmetic::power2::*;

verus! {

/// True exactly of 1, 2, 4, 8, ...: the alignments the allocator accepts.
pub open spec fn is_power_of_two(n: int) -> bool
    decreases n,
{
    if n <= 0 {
        false
    } else if n == 1 {
        true
    } else {
        n % 2 == 0 && is_power_of_two(n / 2)
    }
}

/// The smallest multiple of `a` that is at least `v` (for `a > 0`, `v >= 0`).
pub open spec fn align_up_spec(v: int, a: int) -> int {
    if v % a == 0 {
        v
    } else {
        v + a - (v % a)
    }
}

/// The largest multiple of `a` that is at most `v` (for `a > 0`, `v >= 0`).
pub open spec fn align_down_spec(v: int, a: int) -> int {
    v - (v % a)
}

/// Every power of two is positive.
pub proof fn lemma_power_of_two_pos(n: int)
    requires
        is_power_of_two(n),
    ensures
        n >= 1,
    decreases n,
{
    if n > 1 {
        lemma_power_of_two_pos(n / 2);
    }
}

/// Every `pow2(e)` satisfies `is_power_of_two`: the bridge from vstd's
/// power-of-two function to the allocator's alignment predicate.
pub proof fn lemma_pow2_is_power_of_two(e: nat)
    ensures
        is_power_of_two(pow2(e) as int),
    decreases e,
{
    if e == 0 {
        lemma2_to64();
    } else {
        lemma_pow2_is_power_of_two((e - 1) as nat);
        lemma_pow2_unfold(e);
        lemma_pow2_pos((e - 1) as nat);
    }
}

/// Rounding up moves by less than one alignment and lands on a multiple.
pub proof fn lemma_align_up_properties(v: int, a: int)
    requires
        a >= 1,
        v >= 0,
    ensures
        v <= align_up_spec(v, a) < v + a,
        align_up_spec(v, a) % a == 0,
{
    lemma_mod_bound(v, a);
    if v % a != 0 {
        lemma_fundamental_div_mod(v, a);
        assert(v + a - (v % a) == a * (v / a + 1)) by {
            lemma_mul_is_distributive_add(a, v / a, 1);
        }
        lemma_mod_multiples_basic(v / a + 1, a);
        lemma_mul_is_commutative(a, v / a + 1);
    }
}

/// Rounding down moves by less than one alignment and lands on a multiple.
pub proof fn lemma_align_down_properties(v: int, a: int)
    requires
        a >= 1,
        v >= 0,
    ensures
        v - a < align_down_spec(v, a) <= v,
        0 <= align_down_spec(v, a),
        align_down_spec(v, a) % a == 0,
{
    lemma_mod_bound(v, a);
    lemma_fundamental_div_mod(v, a);
    lemma_div_pos_is_pos(v, a);
    lemma_mul_nonnegative(a, v / a);
    lemma_mod_multiples_basic(v / a, a);
    lemma_mul_is_commutative(a, v / a);
}

} // verus!
