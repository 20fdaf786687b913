//! Reals as their IEEE 754 double-precision bits.
//!
//! Storage compares an integer with a real the way converting an integer to a double and
//! the total order on doubles do. Both are stated here over the bits, with integer
//! arithmetic: the conversion rounds to nearest, ties to even, and the total
//! order puts every negative below every positive, `-0` just below `+0`.

use vstd::prelude::*;

use vstd::arithmetic::div_mod::{lemma_div_is_ordered, lemma_div_multiples_vanish, lemma_multiply_divide_lt};
use vstd::arithmetic::power2::{lemma2_to64, lemma2_to64_rest, lemma_pow2_adds, lemma_pow2_pos, lemma_pow2_strictly_increases, lemma_pow2_unfold, pow2};

verus! {

/// The bits of negative zero; also the sign bit.
pub const NEGATIVE_ZERO: u64 = 0x8000_0000_0000_0000;

/// The implicit leading bit of a normal significand, 2^52.
pub const HIDDEN_BIT: u64 = 0x10_0000_0000_0000;

/// How many binary digits `a` has.
pub open spec fn bit_length(a: nat) -> nat
    decreases a,
{
    if a == 0 {
        0
    } else {
        1 + bit_length(a / 2)
    }
}

pub proof fn lemma_bit_length(a: nat)
    requires
        a > 0,
    ensures
        bit_length(a) >= 1,
        pow2((bit_length(a) - 1) as nat) <= a < pow2(bit_length(a)),
    decreases a,
{
    let n = bit_length(a);
    if a == 1 {
        assert(bit_length(0) == 0);
        lemma2_to64();
    } else {
        lemma_bit_length(a / 2);
        let k = bit_length(a / 2);
        lemma_pow2_unfold(k);
        lemma_pow2_unfold(n);
        if k >= 1 {
            lemma_pow2_unfold((n - 1) as nat);
        }
    }
}

/// `a / 2^s` rounded to the nearest integer, ties to the even one.
pub open spec fn rounded_quotient(a: nat, s: nat) -> nat {
    let d = pow2(s);
    let q = a / d;
    let r = a % d;
    if 2 * r > d || (2 * r == d && q % 2 == 1) {
        q + 1
    } else {
        q
    }
}

/// The normal significand (between 2^52 and 2^53) and the unbiased exponent
/// of the double nearest to `a`, which is positive.
pub open spec fn significand_and_exponent(a: nat) -> (nat, nat) {
    let n = bit_length(a);
    if n <= 53 {
        (a * pow2((53 - n) as nat), (n - 1) as nat)
    } else {
        let q = rounded_quotient(a, (n - 53) as nat);
        if q == pow2(53) {
            (pow2(52), n)
        } else {
            (q, (n - 1) as nat)
        }
    }
}

/// The bits of the double nearest to `i`: what converting `i` to a double gives.
pub open spec fn real_bits_of(i: int) -> u64 {
    if i == 0 {
        0
    } else {
        let a = if i < 0 { -i } else { i };
        let (m, e) = significand_and_exponent(a as nat);
        let sign: int = if i < 0 { NEGATIVE_ZERO as int } else { 0 };
        (sign + (1023 + e) * HIDDEN_BIT + (m - HIDDEN_BIT)) as u64
    }
}

/// Where the total order on doubles puts the double with these bits, as an integer:
/// the bits themselves for a positive sign, and below every positive for a
/// negative one, the further below the larger its magnitude.
pub open spec fn total_rank(bits: u64) -> int {
    if bits < NEGATIVE_ZERO {
        bits as int
    } else {
        -1 - (bits - NEGATIVE_ZERO)
    }
}

/// 2^k.
fn pow2_u64(k: u32) -> (p: u64)
    requires
        k < 64,
    ensures
        p == pow2(k as nat),
{
    proof {
        lemma2_to64();
    }
    let mut p: u64 = 1;
    let mut j: u32 = 0;
    while j < k
        invariant
            j <= k < 64,
            p == pow2(j as nat),
        decreases k - j,
    {
        proof {
            lemma2_to64();
            lemma_pow2_unfold((j + 1) as nat);
            lemma_pow2_strictly_increases((j + 1) as nat, 64);
        }
        p = p * 2;
        j = j + 1;
    }
    p
}

/// The bits of `i` converted to a double: the one nearest to `i`, ties to even.
pub fn real_bits(i: i64) -> (b: u64)
    ensures
        b == real_bits_of(i as int),
{
    if i == 0 {
        return 0;
    }
    let negative = i < 0;
    let a: u64 = if i == i64::MIN {
        NEGATIVE_ZERO
    } else if negative {
        (-i) as u64
    } else {
        i as u64
    };
    assert(a as int == if i < 0 { -i } else { i as int });
    proof {
        lemma_bit_length(a as nat);
        lemma2_to64();
        if bit_length(a as nat) > 64 {
            lemma_pow2_strictly_increases(64, (bit_length(a as nat) - 1) as nat);
        }
    }
    let mut n: u32 = 0;
    let mut t: u64 = a;
    while t > 0
        invariant
            bit_length(a as nat) <= 64,
            bit_length(a as nat) == n + bit_length(t as nat),
        decreases t,
    {
        t = t / 2;
        n = n + 1;
    }
    assert(bit_length(0) == 0);
    let m: u64;
    let e: u64;
    if n <= 53 {
        let p = pow2_u64(53 - n);
        proof {
            lemma_pow2_adds(n as nat, (53 - n) as nat);
            lemma_pow2_adds((n - 1) as nat, (53 - n) as nat);
            lemma2_to64_rest();
            assert(pow2(n as nat) * pow2((53 - n) as nat) == pow2(53));
            assert(pow2((n - 1) as nat) * pow2((53 - n) as nat) == pow2(52));
            lemma_pow2_pos((53 - n) as nat);
            let lo = pow2((n - 1) as nat);
            let hi = pow2(n as nat);
            assert(lo * p <= a * p) by (nonlinear_arith)
                requires
                    lo <= a,
                    p > 0,
            ;
            assert(a * p < hi * p) by (nonlinear_arith)
                requires
                    a < hi,
                    p > 0,
            ;
        }
        m = a * p;
        e = (n - 1) as u64;
    } else {
        let s = n - 53;
        let d = pow2_u64(s);
        proof {
            lemma_pow2_strictly_increases(s as nat, 12);
            lemma_pow2_adds(53, s as nat);
            lemma_pow2_adds(52, s as nat);
            assert(d * pow2(53) == pow2(n as nat)) by (nonlinear_arith)
                requires
                    pow2(53) * d == pow2((53 + s) as nat),
                    n == 53 + s,
            ;
            assert(d * pow2(52) == pow2((n - 1) as nat)) by (nonlinear_arith)
                requires
                    pow2(52) * d == pow2((52 + s) as nat),
                    n - 1 == 52 + s,
            ;
            lemma_multiply_divide_lt(a as int, d as int, pow2(53) as int);
            lemma_div_is_ordered((d * pow2(52)) as int, a as int, d as int);
            lemma_div_multiples_vanish(pow2(52) as int, d as int);
            lemma2_to64_rest();
        }
        let q = a / d;
        let r = a % d;
        let up = 2 * r > d || (2 * r == d && q % 2 == 1);
        let rounded = if up { q + 1 } else { q };
        assert(rounded == rounded_quotient(a as nat, s as nat));
        if rounded == 0x20_0000_0000_0000 {
            m = HIDDEN_BIT;
            e = n as u64;
        } else {
            m = rounded;
            e = (n - 1) as u64;
        }
    }
    assert(HIDDEN_BIT <= m < 0x20_0000_0000_0000);
    assert((m as nat, e as nat) == significand_and_exponent(a as nat));
    let sign: u64 = if negative { NEGATIVE_ZERO } else { 0 };
    sign + (1023 + e) * HIDDEN_BIT + (m - HIDDEN_BIT)
}

} // verus!
