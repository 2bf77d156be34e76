//! The IEEE-754 double nearest to an integer, as its 64 bits, computed
//! with integer arithmetic only.

use vstd::prelude::*;
use vstd::arithmetic::power2::{pow2, lemma_pow2_unfold, lemma_pow2_adds, lemma_pow2_pos, lemma2_to64, lemma2_to64_rest, lemma_pow2_strictly_increases};

verus! {

/// The number of binary digits of `m` (none for 0).
pub open spec fn bit_length(m: nat) -> nat
    decreases m,
{
    if m == 0 {
        0
    } else {
        1 + bit_length(m / 2)
    }
}

/// `q`, plus one when the remainder `r` of a division by `2 * half` is
/// more than half of it, or exactly half and `q` is odd (round half to
/// even).
pub open spec fn round_half_even(q: nat, r: nat, half: nat) -> nat {
    if r > half || (r == half && q % 2 == 1) {
        q + 1
    } else {
        q
    }
}

/// The bits of the double nearest to `i` (ties to an even significand):
/// sign, biased exponent `e + 1023` where `2^e <= |i| < 2^(e+1)`, and the
/// 52 bits of the significand after its leading one. Above `2^53` the
/// significand is `|i| / 2^(e-52)` rounded, which may carry into the
/// exponent.
pub open spec fn int_to_double_bits(i: int) -> u64 {
    if i == 0 {
        0
    } else {
        let sign: int = if i < 0 { 1 } else { 0 };
        let m: nat = if i < 0 { (-i) as nat } else { i as nat };
        let e: nat = (bit_length(m) - 1) as nat;
        let exp_frac: (int, int) = if e <= 52 {
            (e as int, m * pow2((52 - e) as nat) - pow2(52))
        } else {
            let s: nat = (e - 52) as nat;
            let q = round_half_even(m / pow2(s), m % pow2(s), pow2((s - 1) as nat));
            if q == pow2(53) {
                ((e + 1) as int, 0int)
            } else {
                (e as int, q - pow2(52))
            }
        };
        (sign * pow2(63) + (exp_frac.0 + 1023) * pow2(52) + exp_frac.1) as u64
    }
}

proof fn lemma_bit_length(m: nat, e: nat)
    requires
        pow2(e) <= m < pow2(e + 1),
    ensures
        bit_length(m) == e + 1,
    decreases e,
{
    lemma_pow2_unfold(e + 1);
    if e == 0 {
        lemma2_to64();
        assert(m == 1);
        assert(bit_length(0) == 0);
    } else {
        lemma_pow2_unfold(e);
        let h = m / 2;
        assert(pow2((e - 1) as nat) <= h < pow2(e)) by (nonlinear_arith)
            requires
                h == m / 2,
                pow2(e) <= m < pow2(e + 1),
                pow2(e) == 2 * pow2((e - 1) as nat),
                pow2(e + 1) == 2 * pow2(e),
        ;
        lemma_bit_length(h, (e - 1) as nat);
    }
}

/// `2^k`.
fn pow2_u64(k: u64) -> (p: u64)
    requires
        k <= 63,
    ensures
        p == pow2(k as nat),
{
    let mut p: u64 = 1;
    let mut j: u64 = 0;
    proof {
        lemma2_to64();
        lemma2_to64_rest();
    }
    while j < k
        invariant
            j <= k <= 63,
            p == pow2(j as nat),
            pow2(63) == 0x8000_0000_0000_0000,
        decreases k - j,
    {
        proof {
            lemma_pow2_unfold((j + 1) as nat);
            if j + 1 < 63 {
                lemma_pow2_strictly_increases((j + 1) as nat, 63);
            }
        }
        p = p * 2;
        j = j + 1;
    }
    p
}

/// The bits of the double nearest to `i`, ties to even: the value of
/// `i as f64`.
pub fn int_to_f64_bits(i: i64) -> (bits: u64)
    ensures
        bits == int_to_double_bits(i as int),
{
    if i == 0 {
        return 0;
    }
    proof {
        lemma2_to64();
        lemma2_to64_rest();
    }
    let sign: u64 = if i < 0 { 1 } else { 0 };
    let m: u64 = if i == i64::MIN {
        0x8000_0000_0000_0000
    } else if i < 0 {
        (-i) as u64
    } else {
        i as u64
    };
    let ghost mi: nat = if i < 0 { (-i) as nat } else { i as nat };
    assert(m == mi);
    let mut e: u64 = 0;
    let mut p: u64 = 1;
    while p <= m / 2
        invariant
            1 <= p <= m,
            p == pow2(e as nat),
            e <= 63,
            pow2(64) == 0x1_0000_0000_0000_0000,
        decreases m - p,
    {
        proof {
            lemma_pow2_unfold((e + 1) as nat);
            if e + 1 >= 64 {
                if e + 1 > 64 {
                    lemma_pow2_strictly_increases(64, (e + 1) as nat);
                }
            }
        }
        p = p * 2;
        e = e + 1;
    }
    proof {
        lemma_pow2_unfold((e + 1) as nat);
        lemma_bit_length(mi, e as nat);
    }
    let ghost pe = pow2(e as nat);
    if e <= 52 {
        let scale = pow2_u64(52 - e);
        proof {
            lemma_pow2_adds((e + 1) as nat, (52 - e) as nat);
            lemma_pow2_adds(e as nat, (52 - e) as nat);
            assert(m * scale < 0x20_0000_0000_0000) by (nonlinear_arith)
                requires
                    m < pow2((e + 1) as nat),
                    scale == pow2((52 - e) as nat),
                    pow2((e + 1) as nat) * pow2((52 - e) as nat) == pow2(53),
                    pow2(53) == 0x20_0000_0000_0000,
                    scale > 0,
            ;
            assert(m * scale >= 0x10_0000_0000_0000) by (nonlinear_arith)
                requires
                    m >= pow2(e as nat),
                    scale == pow2((52 - e) as nat),
                    pow2(e as nat) * pow2((52 - e) as nat) == pow2(52),
                    pow2(52) == 0x10_0000_0000_0000,
                    scale > 0,
            ;
        }
        let frac = m * scale - 0x10_0000_0000_0000;
        sign * 0x8000_0000_0000_0000 + (e + 1023) * 0x10_0000_0000_0000 + frac
    } else {
        let s = e - 52;
        let d = pow2_u64(s);
        let q = m / d;
        let r = m % d;
        let half = d / 2;
        proof {
            lemma_pow2_pos(s as nat);
            lemma_pow2_unfold(s as nat);
            lemma_pow2_adds(52, s as nat);
            lemma_pow2_adds(53, s as nat);
            assert(52 + s == e);
            assert(q >= 0x10_0000_0000_0000 && q < 0x20_0000_0000_0000) by (nonlinear_arith)
                requires
                    d > 0,
                    q == m / d,
                    pow2(52) * d <= m,
                    m < pow2(53) * d,
                    pow2(52) == 0x10_0000_0000_0000,
                    pow2(53) == 0x20_0000_0000_0000,
            ;
            assert(half == pow2((s - 1) as nat));
        }
        let q2 = if r > half || (r == half && q % 2 == 1) { q + 1 } else { q };
        assert(q2 == round_half_even(q as nat, r as nat, half as nat));
        if q2 == 0x20_0000_0000_0000 {
            sign * 0x8000_0000_0000_0000 + (e + 1 + 1023) * 0x10_0000_0000_0000
        } else {
            sign * 0x8000_0000_0000_0000 + (e + 1023) * 0x10_0000_0000_0000 + (q2 - 0x10_0000_0000_0000)
        }
    }
}

/// The sign bit of a double.
pub open spec fn double_negative(b: u64) -> bool {
    b as int >= pow2(63)
}

/// The biased exponent field of a double.
pub open spec fn double_exponent(b: u64) -> int {
    (b as int / (pow2(52) as int)) % 2048
}

/// The 52 fraction bits of a double.
pub open spec fn double_fraction(b: u64) -> int {
    b as int % (pow2(52) as int)
}

/// Integers of magnitude below `2^53` convert exactly: the double's
/// significand `1.fraction` times `2^(exponent - 1023)` is the integer.
pub proof fn lemma_small_int_exact(i: int)
    requires
        0 < (if i < 0 { -i } else { i }) < 0x20_0000_0000_0000,
    ensures
        ({
            let b = int_to_double_bits(i);
            let m = if i < 0 { -i } else { i };
            &&& double_negative(b) == (i < 0)
            &&& 1023 <= double_exponent(b) <= 1075
            &&& (pow2(52) + double_fraction(b)) * pow2((double_exponent(b) - 1023) as nat) == m * pow2(52)
        }),
{
    lemma2_to64();
    lemma2_to64_rest();
    let m: nat = if i < 0 { (-i) as nat } else { i as nat };
    let e: nat = (bit_length(m) - 1) as nat;
    lemma_bit_length_bounds(m);
    assert(e <= 52) by {
        if e > 52 {
            lemma_pow2_strictly_increases(53, e);
        }
    }
    let sign: int = if i < 0 { 1 } else { 0 };
    let frac: int = m * pow2((52 - e) as nat) - pow2(52);
    lemma_pow2_adds((e + 1) as nat, (52 - e) as nat);
    lemma_pow2_adds(e, (52 - e) as nat);
    lemma_pow2_pos((52 - e) as nat);
    assert(0 <= frac < pow2(52)) by (nonlinear_arith)
        requires
            frac == m * pow2((52 - e) as nat) - pow2(52),
            pow2(e) <= m < pow2(e + 1),
            pow2(e + 1) * pow2((52 - e) as nat) == pow2(53),
            pow2(e) * pow2((52 - e) as nat) == pow2(52),
            pow2(53) == 2 * pow2(52),
            pow2((52 - e) as nat) > 0,
    ;
    let top: int = sign * 2048 + e + 1023;
    let b: int = sign * pow2(63) + (e + 1023) * pow2(52) + frac;
    assert(pow2(63) == 2048 * pow2(52));
    assert(b == top * pow2(52) + frac);
    assert(b < 0x1_0000_0000_0000_0000);
    assert(int_to_double_bits(i) as int == b);
    vstd::arithmetic::div_mod::lemma_fundamental_div_mod_converse(b, pow2(52) as int, top, frac);
    vstd::arithmetic::div_mod::lemma_fundamental_div_mod_converse(top, 2048, sign, (e + 1023) as int);
    assert((pow2(52) + frac) * pow2(e) == m * pow2(52)) by (nonlinear_arith)
        requires
            frac == m * pow2((52 - e) as nat) - pow2(52),
            pow2(e) * pow2((52 - e) as nat) == pow2(52),
    ;
}

proof fn lemma_bit_length_bounds(m: nat)
    requires
        m > 0,
    ensures
        bit_length(m) >= 1,
        pow2((bit_length(m) - 1) as nat) <= m < pow2(bit_length(m)),
    decreases m,
{
    lemma_pow2_unfold(bit_length(m));
    if m == 1 {
        lemma2_to64();
        assert(bit_length(0) == 0);
    } else {
        let h = m / 2;
        lemma_bit_length_bounds(h);
        let k = bit_length(h);
        lemma_pow2_unfold(k);
        assert(pow2(k) <= m < pow2(k + 1)) by (nonlinear_arith)
            requires
                h == m / 2,
                pow2((k - 1) as nat) <= h < pow2(k),
                pow2(k) == 2 * pow2((k - 1) as nat),
                pow2(k + 1) == 2 * pow2(k),
                k >= 1,
        ;
    }
}

/// Rounding picks the nearest multiple: the rounded quotient times the
/// divisor `2 * half` is within `half` of the dividend `q * 2 * half + r`,
/// and on a tie the rounded quotient is even.
pub proof fn lemma_round_half_even_nearest(q: nat, r: nat, half: nat)
    requires
        half > 0,
        r < 2 * half,
    ensures
        ({
            let n = round_half_even(q, r, half);
            let diff = n * (2 * half) - (q * (2 * half) + r);
            &&& -(half as int) <= diff <= half
            &&& (diff == half || diff == -(half as int)) ==> n % 2 == 0
        }),
{
    let n = round_half_even(q, r, half);
    assert((q + 1) * (2 * half) == q * (2 * half) + 2 * half) by (nonlinear_arith);
}

/// Zero converts to the bits of positive zero.
pub proof fn lemma_zero_bits()
    ensures
        int_to_double_bits(0) == 0,
{
}

} // verus!
