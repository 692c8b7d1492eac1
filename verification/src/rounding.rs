//! The value that an integer takes when it is converted to `f32`.
//!
//! When a cell of an integer column is read as an `f32`, the integer
//! is rounded to the nearest `f32`, ties going to an even significand. Every
//! `f32` obtained from an integer is itself an integer, so the conversion is
//! modelled here with integers.

use vstd::prelude::*;
use vstd::arithmetic::div_mod::{lemma_div_denominator, lemma_fundamental_div_mod};
use vstd::arithmetic::power2::{
    lemma2_to64, lemma_pow2_adds, lemma_pow2_pos, lemma_pow2_strictly_increases, lemma_pow2_unfold,
    pow2,
};

verus! {

/// 2^24: the first integer past the run of 24-bit significands.
pub open spec fn significand_limit() -> nat {
    0x1000000
}

/// The spacing of the `f32` values around a magnitude `m`: the power of two
/// by which `m` must be divided to leave a quotient below 2^24.
pub open spec fn f32_scale(m: nat) -> nat
    decreases m,
{
    if m < significand_limit() {
        1
    } else {
        2 * f32_scale(m / 2)
    }
}

/// The `f32` nearest to the magnitude `m`, ties going to the even significand.
pub open spec fn round_magnitude(m: nat) -> nat {
    let s = f32_scale(m);
    let q = m / s;
    let r = m % s;
    if 2 * r > s || (2 * r == s && q % 2 == 1) {
        (q + 1) * s
    } else {
        q * s
    }
}

/// The value of `x as f32`, for an integer `x`.
pub open spec fn f32_round(x: int) -> int {
    if x < 0 {
        -(round_magnitude((-x) as nat) as int)
    } else {
        round_magnitude(x as nat) as int
    }
}

/// The integers that an integer column can hold: those of `i64` and `u64`.
pub open spec fn in_integer_column_range(x: int) -> bool {
    i64::MIN <= x <= u64::MAX
}

/// The scale of a magnitude is a power of two that leaves a quotient with
/// exactly 24 significant bits, or the magnitude itself when it has fewer.
pub proof fn lemma_f32_scale_window(m: nat)
    ensures
        f32_scale(m) >= 1,
        exists|k: nat| f32_scale(m) == pow2(k),
        m / f32_scale(m) < significand_limit(),
        f32_scale(m) > 1 ==> m / f32_scale(m) >= significand_limit() / 2,
    decreases m,
{
    if m < significand_limit() {
        lemma2_to64();
        assert(f32_scale(m) == pow2(0));
    } else {
        lemma_f32_scale_window(m / 2);
        let k = choose|k: nat| f32_scale(m / 2) == pow2(k);
        lemma_pow2_unfold(k + 1);
        assert(f32_scale(m) == pow2(k + 1));
        lemma_div_denominator(m as int, 2, f32_scale(m / 2) as int);
        assert((m / 2) / f32_scale(m / 2) == m / (2 * f32_scale(m / 2)));
        if f32_scale(m / 2) == 1 {
            assert(m / 2 >= significand_limit() / 2);
        }
    }
}

/// Integers of magnitude up to 2^24 are `f32` values themselves.
pub proof fn lemma_f32_round_exact_small(x: int)
    requires
        -significand_limit() <= x <= significand_limit(),
    ensures
        f32_round(x) == x,
{
    let m: nat = if x < 0 { (-x) as nat } else { x as nat };
    if m == significand_limit() {
        assert(f32_scale(m / 2) == 1);
        assert(f32_scale(m) == 2);
    } else {
        assert(f32_scale(m) == 1);
    }
}

/// The rounded value is a multiple of the scale, no farther from `x` than
/// half the scale, and keeps at most 24 significant bits.
pub proof fn lemma_f32_round_nearest(x: int)
    ensures
        ({
            let m: nat = if x < 0 { (-x) as nat } else { x as nat };
            let s = f32_scale(m);
            let v = f32_round(x);
            &&& 2 * (if x >= v { x - v } else { v - x }) <= s
            &&& (if v < 0 { -v } else { v }) % (s as int) == 0
            &&& (if v < 0 { -v } else { v }) <= significand_limit() * s
            &&& (x < 0 ==> v <= 0)
            &&& (x >= 0 ==> v >= 0)
        }),
{
    let m: nat = if x < 0 { (-x) as nat } else { x as nat };
    let s = f32_scale(m);
    lemma_f32_scale_window(m);
    lemma_fundamental_div_mod(m as int, s as int);
    let q = m / s;
    let r = m % s;
    assert(m == s * q + r);
    if 2 * r > s || (2 * r == s && q % 2 == 1) {
        assert(round_magnitude(m) == (q + 1) * s);
        assert((q + 1) * s == q * s + s) by (nonlinear_arith);
        assert((((q + 1) * s) as int) % (s as int) == 0) by {
            vstd::arithmetic::div_mod::lemma_mod_multiples_basic((q + 1) as int, s as int);
        }
        assert((q + 1) * s <= significand_limit() * s) by (nonlinear_arith)
            requires
                q + 1 <= significand_limit(),
        ;
    } else {
        assert(round_magnitude(m) == q * s);
        assert(((q * s) as int) % (s as int) == 0) by {
            vstd::arithmetic::div_mod::lemma_mod_multiples_basic(q as int, s as int);
        }
        assert(q * s <= significand_limit() * s) by (nonlinear_arith)
            requires
                q <= significand_limit(),
        ;
        assert(s * q == q * s) by (nonlinear_arith);
    }
}

/// Negating an integer negates its `f32` value.
pub proof fn lemma_f32_round_odd(x: int)
    ensures
        f32_round(-x) == -f32_round(x),
{
    if x == 0 {
        assert(f32_scale(0) == 1);
    }
}

/// The scale grows with the magnitude, and when it grows it at least doubles.
pub proof fn lemma_f32_scale_monotonic(m1: nat, m2: nat)
    requires
        m1 <= m2,
    ensures
        f32_scale(m1) == f32_scale(m2) || 2 * f32_scale(m1) <= f32_scale(m2),
    decreases m2,
{
    if m2 >= significand_limit() {
        lemma_f32_scale_window(m2 / 2);
        if m1 >= significand_limit() {
            lemma_f32_scale_monotonic(m1 / 2, m2 / 2);
        }
    }
}

/// Rounding a magnitude to `f32` keeps the order of magnitudes.
pub proof fn lemma_round_magnitude_monotonic(m1: nat, m2: nat)
    requires
        m1 <= m2,
    ensures
        round_magnitude(m1) <= round_magnitude(m2),
{
    let s1 = f32_scale(m1);
    let s2 = f32_scale(m2);
    lemma_f32_scale_window(m1);
    lemma_f32_scale_window(m2);
    lemma_f32_scale_monotonic(m1, m2);
    lemma_fundamental_div_mod(m1 as int, s1 as int);
    lemma_fundamental_div_mod(m2 as int, s2 as int);
    let q1 = m1 / s1;
    let r1 = m1 % s1;
    let q2 = m2 / s2;
    let r2 = m2 % s2;
    lemma_f32_round_nearest(m1 as int);
    lemma_f32_round_nearest(m2 as int);
    if s1 == s2 {
        if q1 < q2 {
            assert(q1 * s1 <= (q1 + 1) * s1) by (nonlinear_arith);
            assert(round_magnitude(m1) <= (q1 + 1) * s1);
            assert(q2 * s2 <= round_magnitude(m2));
            assert((q1 + 1) * s1 <= q2 * s1) by (nonlinear_arith)
                requires
                    q1 + 1 <= q2,
            ;
        } else {
            assert(q1 <= q2) by {
                vstd::arithmetic::div_mod::lemma_div_is_ordered(m1 as int, m2 as int, s1 as int);
            }
            assert(q1 == q2);
            assert(r1 <= r2);
        }
    } else {
        assert(round_magnitude(m1) <= significand_limit() * s1);
        assert(q2 >= significand_limit() / 2);
        assert(q2 * s2 <= round_magnitude(m2));
        assert(significand_limit() * s1 <= q2 * s2) by (nonlinear_arith)
            requires
                2 * s1 <= s2,
                q2 >= significand_limit() / 2,
                significand_limit() == 0x1000000,
        ;
    }
}

/// Converting integers to `f32` keeps their order.
pub proof fn lemma_f32_round_monotonic(x: int, y: int)
    requires
        x <= y,
    ensures
        f32_round(x) <= f32_round(y),
{
    if x >= 0 {
        lemma_round_magnitude_monotonic(x as nat, y as nat);
    } else if y < 0 {
        lemma_round_magnitude_monotonic((-y) as nat, (-x) as nat);
    }
}

/// The integers that `f32` represents: a significand below 2^24 times a
/// power of two, with either sign.
pub open spec fn is_f32_integer(y: int) -> bool {
    exists|k: nat, j: nat|
        k < significand_limit() && (y == #[trigger] scaled(k, j) || y == -scaled(k, j))
}

/// The significand `k` scaled by 2^`j`.
pub open spec fn scaled(k: nat, j: nat) -> int {
    (k * pow2(j)) as int
}

/// The distance between two integers.
pub open spec fn distance(a: int, b: int) -> int {
    if a >= b {
        a - b
    } else {
        b - a
    }
}

/// No `f32` integer of either sign is nearer to a magnitude than its rounding.
proof fn lemma_round_magnitude_nearest(m: nat, k: nat, j: nat)
    requires
        k < significand_limit(),
    ensures
        distance(m as int, round_magnitude(m) as int) <= distance(m as int, (k * pow2(j)) as int),
        distance(m as int, round_magnitude(m) as int) <= m,
{
    let s = f32_scale(m);
    lemma_f32_scale_window(m);
    lemma_fundamental_div_mod(m as int, s as int);
    lemma_f32_round_nearest(m as int);
    let q = m / s;
    let r = m % s;
    let lo = q * s;
    let hi = (q + 1) * s;
    let y = k * pow2(j);
    assert(lo == m - r) by {
        assert(s * q == q * s) by (nonlinear_arith);
    }
    assert(hi == lo + s) by (nonlinear_arith)
        requires
            lo == q * s,
            hi == (q + 1) * s,
    ;
    let ks = choose|ks: nat| f32_scale(m) == pow2(ks);
    lemma_pow2_pos(j);
    if s > 1 {
        assert(m >= s) by (nonlinear_arith)
            requires
                m >= s * q,
                q >= significand_limit() / 2,
                s >= 1,
        ;
    } else {
        assert(r == 0);
    }
    if lo < y && y < hi {
        if j >= ks {
            lemma_pow2_adds(ks, (j - ks) as nat);
            let t = k * pow2((j - ks) as nat);
            assert(y == t * s) by (nonlinear_arith)
                requires
                    y == k * pow2(j),
                    pow2(j) == pow2(ks) * pow2((j - ks) as nat),
                    s == pow2(ks),
                    t == k * pow2((j - ks) as nat),
            ;
            assert(false) by (nonlinear_arith)
                requires
                    q * s < t * s,
                    t * s < (q + 1) * s,
                    s >= 1,
            ;
        } else {
            assert(ks >= 1);
            if j < ks - 1 {
                lemma_pow2_strictly_increases(j, (ks - 1) as nat);
            }
            lemma_pow2_unfold(ks);
            assert(2 * pow2(j) <= s);
            assert(s > 1);
            assert(y < (significand_limit() / 2) * s) by (nonlinear_arith)
                requires
                    y == k * pow2(j),
                    k < significand_limit(),
                    2 * pow2(j) <= s,
                    pow2(j) > 0,
                    significand_limit() == 0x1000000,
            ;
            assert((significand_limit() / 2) * s <= lo) by (nonlinear_arith)
                requires
                    q >= significand_limit() / 2,
                    lo == q * s,
            ;
        }
    }
}

/// Converting an integer to `f32` gives an integer that `f32` represents, and
/// no such integer is nearer to the one converted.
pub proof fn lemma_f32_round_is_nearest(x: int, y: int)
    requires
        is_f32_integer(y),
    ensures
        is_f32_integer(f32_round(x)),
        distance(x, f32_round(x)) <= distance(x, y),
{
    let m: nat = if x < 0 { (-x) as nat } else { x as nat };
    let (k, j) = choose|k: nat, j: nat|
        k < significand_limit() && (y == #[trigger] scaled(k, j) || y == -scaled(k, j));
    lemma_round_magnitude_nearest(m, k, j);
    lemma_pow2_pos(j);
    let s = f32_scale(m);
    lemma_f32_scale_window(m);
    lemma_f32_round_nearest(m as int);
    let ks = choose|ks: nat| f32_scale(m) == pow2(ks);
    let q = m / s;
    let v = round_magnitude(m);
    if v == (q + 1) * s {
        if q + 1 == significand_limit() {
            lemma_pow2_unfold(ks + 1);
            assert(v == (significand_limit() / 2) * pow2(ks + 1)) by (nonlinear_arith)
                requires
                    v == (q + 1) * s,
                    q + 1 == significand_limit(),
                    pow2(ks + 1) == 2 * s,
                    significand_limit() == 0x1000000,
            ;
            assert(is_f32_integer(v as int) && is_f32_integer(-(v as int))) by {
                let kk: nat = significand_limit() / 2;
                assert(v == scaled(kk, ks + 1));
            }
        } else {
            assert(is_f32_integer(v as int) && is_f32_integer(-(v as int))) by {
                let kk: nat = (q + 1) as nat;
                assert(kk < significand_limit());
                assert(v == scaled(kk, ks));
            }
        }
    } else {
        assert(v == q * s);
        assert(is_f32_integer(v as int) && is_f32_integer(-(v as int))) by {
            let kk: nat = q;
            assert(kk < significand_limit());
            assert(v == scaled(kk, ks));
        }
    }
}

/// The `f32` value of a magnitude of at most 2^64.
fn round_magnitude_exec(m: u128) -> (v: u128)
    requires
        m <= 0x1_0000_0000_0000_0000,
    ensures
        v == round_magnitude(m as nat),
        v <= 0x2_0000_0000_0000_0000,
{
    let mut q: u128 = m;
    let mut p: u128 = 1;
    proof {
        assert(m / 1 == m);
    }
    while q >= 0x1000000
        invariant
            m <= 0x1_0000_0000_0000_0000,
            p >= 1,
            q == m / p,
            f32_scale(m as nat) == p * f32_scale(q as nat),
            p * q <= m,
            p == 1 || p * 0x800000 <= m,
        decreases q,
    {
        proof {
            assert(p * 0x1000000 <= m) by (nonlinear_arith)
                requires
                    p * q <= m,
                    q >= 0x1000000,
                    p >= 1,
            ;
            lemma_div_denominator(m as int, p as int, 2);
            assert(f32_scale(q as nat) == 2 * f32_scale((q / 2) as nat));
            assert(p * (2 * f32_scale((q / 2) as nat)) == (p * 2) * f32_scale((q / 2) as nat))
                by (nonlinear_arith);
            assert((p * 2) * (q / 2) <= p * q) by (nonlinear_arith)
                requires
                    p >= 1,
            ;
        }
        q = q / 2;
        p = p * 2;
    }
    proof {
        assert(f32_scale(q as nat) == 1);
        assert(p * f32_scale(q as nat) == p) by (nonlinear_arith)
            requires
                f32_scale(q as nat) == 1,
        ;
        lemma_fundamental_div_mod(m as int, p as int);
        lemma_f32_scale_window(m as nat);
        assert(q * p == p * q) by (nonlinear_arith);
    }
    let r = m - q * p;
    proof {
        assert(p == f32_scale(m as nat));
        assert(q == (m as nat) / f32_scale(m as nat));
        assert(r == m % p);
        assert(r == (m as nat) % f32_scale(m as nat));
        assert(r < p);
        assert(q < 0x1000000);
        assert(p <= 0x200_0000_0000) by (nonlinear_arith)
            requires
                p == 1 || p * 0x800000 <= m,
                m <= 0x1_0000_0000_0000_0000,
        ;
    }
    if 2 * r > p || (2 * r == p && q % 2 == 1) {
        proof {
            assert((q + 1) * p <= 0x2_0000_0000_0000_0000) by (nonlinear_arith)
                requires
                    q + 1 <= 0x1000000,
                    p <= 0x200_0000_0000,
            ;
            lemma_f32_round_nearest(m as int);
        }
        (q + 1) * p
    } else {
        proof {
            assert(q * p <= m);
            lemma_f32_round_nearest(m as int);
        }
        q * p
    }
}

/// The value of `x as f32` for an integer `x` of an integer column.
pub fn f32_value_of_integer(x: i128) -> (v: i128)
    requires
        in_integer_column_range(x as int),
    ensures
        v == f32_round(x as int),
{
    if x < 0 {
        let m = (-x) as u128;
        let r = round_magnitude_exec(m);
        -(r as i128)
    } else {
        let m = x as u128;
        let r = round_magnitude_exec(m);
        r as i128
    }
}

} // verus!
