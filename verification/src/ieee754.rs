//! Order and conversion facts about IEEE-754 binary64 values, held as their bit
//! patterns (`f64::to_bits`). Values that the protocol carries as doubles are
//! stored this way, and the few comparisons that the logic makes on them are
//! decided exactly on the bits.
use vstd::prelude::*;

verus! {

/// Bits of `0.0`.
pub const F64_ZERO: u64 = 0;

/// Bits of `0.5`.
pub const F64_HALF: u64 = 0x3FE0_0000_0000_0000;

/// Bits of `1.0`.
pub const F64_ONE: u64 = 0x3FF0_0000_0000_0000;

/// Bits of `+inf`.
pub const F64_POS_INF: u64 = 0x7FF0_0000_0000_0000;

/// Bits of the smallest negative pattern (`-0.0`).
pub const F64_SIGN: u64 = 0x8000_0000_0000_0000;

/// Bits of `-inf`.
pub const F64_NEG_INF: u64 = 0xFFF0_0000_0000_0000;

/// The pattern is a NaN: all exponent bits set and a non-zero fraction.
pub open spec fn is_nan(b: u64) -> bool {
    (F64_POS_INF < b && b < F64_SIGN) || F64_NEG_INF < b
}

/// An integer that orders non-NaN patterns as their values are ordered
/// (both zeros map to 0; negative values map below 0).
pub open spec fn order_key(b: u64) -> int {
    if b < F64_SIGN {
        b as int
    } else {
        -((b - F64_SIGN) as int)
    }
}

/// `a <= b` on the doubles (false when either is NaN).
pub open spec fn le(a: u64, b: u64) -> bool {
    !is_nan(a) && !is_nan(b) && order_key(a) <= order_key(b)
}

/// `a < b` on the doubles (false when either is NaN).
pub open spec fn lt(a: u64, b: u64) -> bool {
    !is_nan(a) && !is_nan(b) && order_key(a) < order_key(b)
}

pub fn is_nan_exec(b: u64) -> (r: bool)
    ensures
        r == is_nan(b),
{
    (F64_POS_INF < b && b < F64_SIGN) || F64_NEG_INF < b
}

/// `a <= b` on the doubles held by the two patterns.
pub fn f64_le(a: u64, b: u64) -> (r: bool)
    ensures
        r == le(a, b),
{
    if is_nan_exec(a) || is_nan_exec(b) {
        return false;
    }
    if a < F64_SIGN && b < F64_SIGN {
        a <= b
    } else if a >= F64_SIGN && b >= F64_SIGN {
        a - F64_SIGN >= b - F64_SIGN
    } else if a < F64_SIGN {
        // a >= +0, b <= -0
        a == 0 && b == F64_SIGN
    } else {
        true
    }
}

/// `a < b` on the doubles held by the two patterns.
pub fn f64_lt(a: u64, b: u64) -> (r: bool)
    ensures
        r == lt(a, b),
{
    if is_nan_exec(a) || is_nan_exec(b) {
        return false;
    }
    if a < F64_SIGN && b < F64_SIGN {
        a < b
    } else if a >= F64_SIGN && b >= F64_SIGN {
        a - F64_SIGN > b - F64_SIGN
    } else if a < F64_SIGN {
        false
    } else {
        !(a == F64_SIGN && b == 0)
    }
}

/// `m / 2^k`, rounding down.
pub open spec fn shift_down(m: nat, k: nat) -> nat
    decreases k,
{
    if k == 0 {
        m
    } else {
        shift_down(m / 2, (k - 1) as nat)
    }
}

/// 2^52: the implicit leading bit of a normal double's significand.
pub const F64_HIDDEN_BIT: u64 = 0x10_0000_0000_0000;

/// `x as u32` for the double `x` with pattern `b`: NaN and values below 1 give 0,
/// values at or above 2^32 give `u32::MAX`, and the rest are truncated toward zero.
pub open spec fn as_u32_saturating(b: u64) -> u32 {
    if is_nan(b) || b >= F64_SIGN {
        0
    } else {
        let e = b / F64_HIDDEN_BIT;
        let frac = b % F64_HIDDEN_BIT;
        if e < 1023 {
            0
        } else if e >= 1055 {
            u32::MAX
        } else {
            shift_down((F64_HIDDEN_BIT + frac) as nat, (1075 - e) as nat) as u32
        }
    }
}

proof fn lemma_shift_down_bound(m: nat, k: nat, bound: nat)
    requires
        m < bound * pow2_nat(k),
    ensures
        shift_down(m, k) < bound,
    decreases k,
{
    if k == 0 {
        assert(bound * 1 == bound);
    } else {
        assert(pow2_nat(k) == 2 * pow2_nat((k - 1) as nat));
        assert(m < bound * (2 * pow2_nat((k - 1) as nat)));
        assert(m / 2 < bound * pow2_nat((k - 1) as nat)) by (nonlinear_arith)
            requires
                m < bound * (2 * pow2_nat((k - 1) as nat)),
        ;
        lemma_shift_down_bound(m / 2, (k - 1) as nat, bound);
    }
}

/// 2^k.
pub open spec fn pow2_nat(k: nat) -> nat
    decreases k,
{
    if k == 0 {
        1
    } else {
        2 * pow2_nat((k - 1) as nat)
    }
}

proof fn lemma_pow2_add(a: nat, b: nat)
    ensures
        pow2_nat(a + b) == pow2_nat(a) * pow2_nat(b),
    decreases a,
{
    if a == 0 {
        assert(1 * pow2_nat(b) == pow2_nat(b));
    } else {
        lemma_pow2_add((a - 1) as nat, b);
        assert((a + b - 1) as nat == (a - 1 + b) as nat);
        assert(pow2_nat(a + b) == 2 * pow2_nat((a - 1 + b) as nat));
        assert(pow2_nat(a) == 2 * pow2_nat((a - 1) as nat));
        assert(2 * (pow2_nat((a - 1) as nat) * pow2_nat(b)) == (2 * pow2_nat((a - 1) as nat))
            * pow2_nat(b)) by (nonlinear_arith);
    }
}

/// `x as u32` for the double whose pattern is `b` (Rust's saturating cast).
pub fn f64_as_u32(b: u64) -> (r: u32)
    ensures
        r == as_u32_saturating(b),
{
    if is_nan_exec(b) || b >= F64_SIGN {
        return 0;
    }
    let e = b / F64_HIDDEN_BIT;
    let frac = b % F64_HIDDEN_BIT;
    if e < 1023 {
        return 0;
    }
    if e >= 1055 {
        return u32::MAX;
    }
    let k: u64 = 1075 - e;
    let mut m: u64 = F64_HIDDEN_BIT + frac;
    let mut i: u64 = 0;
    proof {
        assert(pow2_nat(21) == 0x20_0000) by {
            reveal_with_fuel(pow2_nat, 22);
        }
        lemma_pow2_add(21, (k - 21) as nat);
        assert((F64_HIDDEN_BIT + frac) < 0x20_0000_0000_0000);
        assert(pow2_nat(k as nat) == pow2_nat(21) * pow2_nat((k - 21) as nat));
        assert(pow2_nat((k - 21) as nat) >= 1) by {
            lemma_pow2_pos((k - 21) as nat);
        }
        assert((F64_HIDDEN_BIT + frac) < 0x1_0000_0000 * pow2_nat(k as nat)) by (nonlinear_arith)
            requires
                (F64_HIDDEN_BIT + frac) < 0x20_0000_0000_0000,
                pow2_nat(k as nat) == 0x20_0000 * pow2_nat((k - 21) as nat),
                pow2_nat((k - 21) as nat) >= 1,
        ;
        lemma_shift_down_bound((F64_HIDDEN_BIT + frac) as nat, k as nat, 0x1_0000_0000);
    }
    while i < k
        invariant
            i <= k,
            shift_down(m as nat, (k - i) as nat) == shift_down(
                (F64_HIDDEN_BIT + frac) as nat,
                k as nat,
            ),
        decreases k - i,
    {
        m = m / 2;
        i = i + 1;
    }
    m as u32
}

proof fn lemma_pow2_pos(k: nat)
    ensures
        pow2_nat(k) >= 1,
    decreases k,
{
    if k > 0 {
        lemma_pow2_pos((k - 1) as nat);
    }
}

} // verus!
