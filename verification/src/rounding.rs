//! Rounding of a ratio of natural numbers to a single-precision magnitude.
//!
//! Every finite single-precision number is a whole multiple of the smallest
//! subnormal.  That smallest subnormal is the unit of this module: an exact
//! result is a ratio `n / d` counted in units, and rounding picks the nearest
//! magnitude that the format can hold, ties going to the even significand.
use vstd::arithmetic::power2::*;
use vstd::arithmetic::div_mod::*;
use vstd::arithmetic::mul::*;
use vstd::prelude::*;

verus! {

/// Encoded magnitude of infinity; every magnitude below it is finite.
pub const INFINITE_MAGNITUDE: u32 = 0x7f80_0000;

/// Number of significands that share one quantum, `2^23`.
pub const SIGNIFICAND_SPAN: u32 = 0x80_0000;

/// The number of units that the finite magnitude `m` stands for.
pub open spec fn magnitude_units(m: nat) -> nat {
    if m < 0x80_0000 {
        m
    } else {
        (m % 0x80_0000 + 0x80_0000) * pow2((m / 0x80_0000 - 1) as nat)
    }
}

/// `n / d` rounded to the nearest natural number, ties to the even one.
pub open spec fn half_even(n: nat, d: nat) -> nat {
    let q = n / d;
    let r = n % d;
    if 2 * r < d || (2 * r == d && q % 2 == 0) {
        q
    } else {
        q + 1
    }
}

/// The exponent of the quantum of `n / d`: the least `k` for which `n / d` is
/// below `2^(24 + k)`, so that 24 significant bits reach down to `2^k`.
pub open spec fn quantum_exponent(n: nat, d: nat) -> nat
    decreases n - d,
{
    if d == 0 || n < d * 0x100_0000 {
        0
    } else {
        1 + quantum_exponent(n, 2 * d)
    }
}

/// The encoded magnitude nearest to `n / d` units; infinity when the nearest
/// significand lies past the largest finite one.
pub open spec fn nearest_magnitude(n: nat, d: nat) -> nat {
    let k = quantum_exponent(n, d);
    let m = k * 0x80_0000 + half_even(n, d * pow2(k));
    if m < 0x7f80_0000 {
        m
    } else {
        0x7f80_0000
    }
}

/// Numerator of `m * 2^e` written as a ratio of natural numbers.
pub open spec fn scaled_numerator(m: nat, e: int) -> nat {
    if e >= 0 {
        m * pow2(e as nat)
    } else {
        m
    }
}

/// Denominator of `m * 2^e` written as a ratio of natural numbers.
pub open spec fn scaled_denominator(e: int) -> nat {
    if e >= 0 {
        1
    } else {
        pow2((-e) as nat)
    }
}

/// The quantum exponent is the only one that leaves between 23 and 24 bits.
pub proof fn lemma_quantum_exponent(n: nat, d: nat, k: nat)
    requires
        d > 0,
        n < d * pow2(24 + k),
        k == 0 || n >= d * pow2((23 + k) as nat),
    ensures
        quantum_exponent(n, d) == k,
    decreases k,
{
    lemma2_to64();
    if k == 0 {
    } else {
        lemma_pow2_adds(24, (k - 1) as nat);
        lemma_pow2_pos((k - 1) as nat);
        let p = pow2((k - 1) as nat);
        assert(d * (0x100_0000 * p) >= d * 0x100_0000) by (nonlinear_arith)
            requires
                p >= 1,
        ;
        lemma_pow2_unfold((24 + k) as nat);
        lemma_pow2_unfold((23 + k) as nat);
        assert(d * pow2((24 + k) as nat) == (2 * d) * pow2((24 + (k - 1)) as nat))
            by (nonlinear_arith)
            requires
                pow2((24 + k) as nat) == 2 * pow2((24 + (k - 1)) as nat),
        ;
        if k > 1 {
            assert(d * pow2((23 + k) as nat) == (2 * d) * pow2((23 + (k - 1)) as nat))
                by (nonlinear_arith)
                requires
                    pow2((23 + k) as nat) == 2 * pow2((23 + (k - 1)) as nat),
            ;
        }
        lemma_quantum_exponent(n, 2 * d, (k - 1) as nat);
    }
}

/// Every ratio has its quantum exponent where [`lemma_quantum_exponent`] puts it.
pub proof fn lemma_quantum_bounds(n: nat, d: nat)
    requires
        d > 0,
    ensures
        n < d * pow2(24 + quantum_exponent(n, d)),
        quantum_exponent(n, d) > 0 ==> n >= d * pow2((23 + quantum_exponent(n, d)) as nat),
    decreases n - d,
{
    lemma2_to64();
    if n < d * 0x100_0000 {
    } else {
        lemma_quantum_bounds(n, 2 * d);
        let j = quantum_exponent(n, 2 * d);
        lemma_pow2_unfold((25 + j) as nat);
        lemma_pow2_unfold((24 + j) as nat);
        assert((2 * d) * pow2((24 + j) as nat) == d * pow2((25 + j) as nat)) by (nonlinear_arith)
            requires
                pow2((25 + j) as nat) == 2 * pow2((24 + j) as nat),
        ;
        if j > 0 {
            assert((2 * d) * pow2((23 + j) as nat) == d * pow2((24 + j) as nat))
                by (nonlinear_arith)
                requires
                    pow2((24 + j) as nat) == 2 * pow2((23 + j) as nat),
            ;
        }
    }
}

/// Rounding does not depend on a common factor of the ratio.
pub proof fn lemma_half_even_scales(c: nat, n: nat, d: nat)
    requires
        c > 0,
        d > 0,
    ensures
        half_even(c * n, c * d) == half_even(n, d),
{
    let q = n / d;
    let r = n % d;
    lemma_fundamental_div_mod(n as int, d as int);
    assert(c * n == q * (c * d) + c * r) by (nonlinear_arith)
        requires
            n == d * q + r,
    ;
    assert(0 <= c * r < c * d) by (nonlinear_arith)
        requires
            0 <= r < d,
            c > 0,
    ;
    lemma_fundamental_div_mod_converse((c * n) as int, (c * d) as int, q as int, (c * r) as int);
    assert((2 * (c * r) < c * d) == (2 * r < d)) by (nonlinear_arith)
        requires
            c > 0,
    ;
    assert((2 * (c * r) == c * d) == (2 * r == d)) by (nonlinear_arith)
        requires
            c > 0,
    ;
}

/// The nearest magnitude does not depend on a common factor of the ratio.
pub proof fn lemma_nearest_scales(c: nat, n: nat, d: nat)
    requires
        c > 0,
        d > 0,
    ensures
        nearest_magnitude(c * n, c * d) == nearest_magnitude(n, d),
{
    let k = quantum_exponent(n, d);
    lemma_quantum_bounds(n, d);
    lemma_pow2_pos(k);
    assert(c * n < (c * d) * pow2((24 + k) as nat)) by (nonlinear_arith)
        requires
            n < d * pow2((24 + k) as nat),
            c > 0,
    ;
    if k > 0 {
        assert(c * n >= (c * d) * pow2((23 + k) as nat)) by (nonlinear_arith)
            requires
                n >= d * pow2((23 + k) as nat),
                c > 0,
        ;
    }
    assert(c * d > 0) by (nonlinear_arith)
        requires
            c > 0,
            d > 0,
    ;
    lemma_quantum_exponent(c * n, c * d, k);
    assert((c * d) * pow2(k) == c * (d * pow2(k))) by (nonlinear_arith);
    assert(d * pow2(k) > 0) by (nonlinear_arith)
        requires
            d > 0,
            pow2(k) > 0,
    ;
    lemma_half_even_scales(c, n, d * pow2(k));
}

/// A whole number of quanta rounds to itself.
pub proof fn lemma_half_even_exact(q: nat, d: nat)
    requires
        d > 0,
    ensures
        half_even(q * d, d) == q,
{
    lemma_fundamental_div_mod_converse((q * d) as int, d as int, q as int, 0);
}

/// The value of `2^n` for every `n` that keeps it in 64 bits.
pub fn power_of_two(n: u32) -> (r: u64)
    requires
        n < 64,
    ensures
        r == pow2(n as nat),
{
    let r: u64 = 1u64 << (n as u64);
    proof {
        vstd::bits::lemma_u64_pow2_no_overflow(n as nat);
        vstd::bits::lemma_u64_shl_is_mul(1u64, n as u64);
    }
    r
}

/// Number of bits of `m`: the least `len` with `m < 2^len`.
pub fn bit_length(m: u64) -> (len: u32)
    ensures
        len <= 64,
        m < pow2(len as nat),
        len > 0 ==> m >= pow2((len - 1) as nat),
{
    let mut len: u32 = 0;
    let mut rest: u64 = m;
    proof {
        lemma2_to64();
        lemma2_to64_rest();
        assert(m < pow2(64));
    }
    while rest > 0
        invariant
            len <= 64,
            rest == m as int / pow2(len as nat) as int,
            len > 0 ==> m >= pow2((len - 1) as nat),
            m < pow2(64),
        decreases rest,
    {
        proof {
            lemma_pow2_pos(len as nat);
            lemma_pow2_unfold((len + 1) as nat);
            lemma_fundamental_div_mod(m as int, pow2(len as nat) as int);
            let p = pow2(len as nat) as int;
            assert(m as int >= p) by (nonlinear_arith)
                requires
                    m as int == p * (m as int / p) + m as int % p,
                    m as int / p >= 1,
                    m as int % p >= 0,
                    p > 0,
            ;
            if len == 64 {
                assert(false);
            }
            lemma_div_denominator(m as int, p, 2);
        }
        rest = rest / 2;
        len = len + 1;
    }
    proof {
        lemma_pow2_pos(len as nat);
        lemma_small_div_converse(m as int, pow2(len as nat) as int);
    }
    len
}

/// `n / d` rounded to the nearest whole number, ties to the even one.
pub fn divide_half_even(n: u64, d: u64) -> (r: u64)
    requires
        0 < d,
        n < u64::MAX,
    ensures
        r == half_even(n as nat, d as nat),
{
    let q: u64 = n / d;
    let rem: u64 = n % d;
    let rest: u64 = d - rem;
    proof {
        lemma_div_nonincreasing(n as int, d as int);
    }
    if rem < rest || (rem == rest && q % 2 == 0) {
        q
    } else {
        q + 1
    }
}

/// Where the quantum of `m * 2^e` lies, for an `m` of `len` bits.
proof fn lemma_scaled_quantum(m: nat, e: int, len: nat, k: nat)
    requires
        len > 0,
        pow2((len - 1) as nat) <= m < pow2(len),
        k == if len + e - 24 > 0 {
            len + e - 24
        } else {
            0
        },
    ensures
        quantum_exponent(scaled_numerator(m, e), scaled_denominator(e)) == k,
{
    let n = scaled_numerator(m, e);
    let d = scaled_denominator(e);
    if e >= 0 {
        let p = pow2(e as nat);
        lemma_pow2_pos(e as nat);
        lemma_pow2_adds(len, e as nat);
        assert(m * p < pow2(len) * p) by (nonlinear_arith)
            requires
                m < pow2(len),
                p > 0,
        ;
        if len + e < 24 + k {
            lemma_pow2_strictly_increases((len + e) as nat, 24 + k);
        }
        if k > 0 {
            lemma_pow2_adds((len - 1) as nat, e as nat);
            assert(m * p >= pow2((len - 1) as nat) * p) by (nonlinear_arith)
                requires
                    m >= pow2((len - 1) as nat),
                    p > 0,
            ;
        }
    } else {
        lemma_pow2_pos((-e) as nat);
        lemma_pow2_adds((-e) as nat, 24 + k);
        if len < (-e) + 24 + k {
            lemma_pow2_strictly_increases(len, (-e + 24 + k) as nat);
        }
        if k > 0 {
            lemma_pow2_adds((-e) as nat, (23 + k) as nat);
        }
    }
    lemma_quantum_exponent(n, d, k);
}

/// With the quantum at or below `2^e` the significand is `m` shifted left.
proof fn lemma_scaled_left(m: nat, e: int, len: nat, k: nat)
    requires
        0 < len,
        m < pow2(len),
        k <= e,
        len + e - 24 <= k,
    ensures
        half_even(scaled_numerator(m, e), scaled_denominator(e) * pow2(k)) == m * pow2(
            (e - k) as nat,
        ),
        m * pow2((e - k) as nat) < 0x100_0000,
        e - k < 24,
{
    lemma2_to64();
    let p = pow2((e - k) as nat);
    lemma_pow2_pos((e - k) as nat);
    lemma_pow2_pos(k);
    lemma_pow2_adds((e - k) as nat, k);
    assert(m * (p * pow2(k)) == (m * p) * pow2(k)) by (nonlinear_arith);
    lemma_half_even_exact(m * p, pow2(k));
    lemma_pow2_adds(len, (e - k) as nat);
    assert(m * p < pow2(len) * p) by (nonlinear_arith)
        requires
            m < pow2(len),
            p > 0,
    ;
    if len + (e - k) < 24 {
        lemma_pow2_strictly_increases((len + (e - k)) as nat, 24);
    }
}

/// With the quantum above `2^e` the significand is `m` shifted right, rounded.
proof fn lemma_scaled_right(m: nat, e: int, k: nat)
    requires
        k > e,
    ensures
        half_even(scaled_numerator(m, e), scaled_denominator(e) * pow2(k)) == half_even(
            m,
            pow2((k - e) as nat),
        ),
{
    lemma_pow2_pos((k - e) as nat);
    if e >= 0 {
        let p = pow2(e as nat);
        lemma_pow2_pos(e as nat);
        lemma_pow2_adds(e as nat, (k - e) as nat);
        lemma_half_even_scales(p, m, pow2((k - e) as nat));
        assert(m * p == p * m) by (nonlinear_arith);
        lemma_mul_basics(pow2(k) as int);
        assert(scaled_denominator(e) * pow2(k) == p * pow2((k - e) as nat));
        assert(scaled_numerator(m, e) == p * m);
    } else {
        lemma_pow2_adds((-e) as nat, k);
        assert(scaled_denominator(e) * pow2(k) == pow2((k - e) as nat));
    }
}

/// What is below half a quantum rounds to zero.
proof fn lemma_half_even_vanishes(m: nat, s: nat)
    requires
        m < 0x8000_0000_0000_0000,
        s >= 64,
    ensures
        half_even(m, pow2(s)) == 0,
{
    lemma2_to64();
    lemma2_to64_rest();
    lemma_pow2_unfold(64);
    if s > 64 {
        lemma_pow2_strictly_increases(64, s);
    }
    lemma_fundamental_div_mod_converse(m as int, pow2(s) as int, 0, m as int);
}

/// A rounded significand needs at most 24 bits and one carry.
proof fn lemma_significand_bound(n: nat, d: nat)
    requires
        d > 0,
    ensures
        half_even(n, d * pow2(quantum_exponent(n, d))) <= 0x100_0000,
{
    let k = quantum_exponent(n, d);
    lemma2_to64();
    lemma_quantum_bounds(n, d);
    lemma_pow2_pos(k);
    lemma_pow2_adds(24, k);
    let w = d * pow2(k);
    assert(w > 0) by (nonlinear_arith)
        requires
            d > 0,
            pow2(k) > 0,
            w == d * pow2(k),
    ;
    assert(d * (0x100_0000 * pow2(k)) == 0x100_0000 * w) by (nonlinear_arith)
        requires
            w == d * pow2(k),
    ;
    lemma_fundamental_div_mod(n as int, w as int);
    assert(n / w < 0x100_0000) by (nonlinear_arith)
        requires
            n < 0x100_0000 * w,
            n == w * (n / w) + n % w,
            n % w >= 0,
            w > 0,
    ;
}

/// The encoded magnitude nearest to `m * 2^e` units.
pub fn round_scaled(m: u64, e: i32) -> (r: u32)
    requires
        m < 0x8000_0000_0000_0000,
        -4000 <= e <= 4000,
    ensures
        r == nearest_magnitude(scaled_numerator(m as nat, e as int), scaled_denominator(e as int)),
        r <= INFINITE_MAGNITUDE,
{
    let ghost n = scaled_numerator(m as nat, e as int);
    let ghost d = scaled_denominator(e as int);
    proof {
        lemma2_to64();
        lemma2_to64_rest();
        if e < 0 {
            lemma_pow2_pos((-e) as nat);
        }
    }
    if m == 0 {
        proof {
            assert(n == 0) by {
                if e >= 0 {
                    lemma_mul_basics(pow2(e as nat) as int);
                }
            }
            assert(quantum_exponent(0, d) == 0);
            assert(d * pow2(0) == d);
            lemma_half_even_exact(0, d);
        }
        return 0;
    }
    let len: u32 = bit_length(m);
    let top: i32 = len as i32 + e - 24;
    let k: i32 = if top > 0 {
        top
    } else {
        0
    };
    proof {
        lemma_scaled_quantum(m as nat, e as int, len as nat, k as nat);
        lemma_significand_bound(n, d);
    }
    if k >= 255 {
        return INFINITE_MAGNITUDE;
    }
    let shift: i32 = k - e;
    let q: u64 = if shift <= 0 {
        proof {
            lemma_scaled_left(m as nat, e as int, len as nat, k as nat);
        }
        m * power_of_two((e - k) as u32)
    } else if shift >= 64 {
        proof {
            lemma_scaled_right(m as nat, e as int, k as nat);
            lemma_half_even_vanishes(m as nat, shift as nat);
        }
        0
    } else {
        proof {
            lemma_scaled_right(m as nat, e as int, k as nat);
            lemma_pow2_pos(shift as nat);
        }
        divide_half_even(m, power_of_two(shift as u32))
    };
    let r: u32 = (k as u32) * SIGNIFICAND_SPAN + (q as u32);
    if r < INFINITE_MAGNITUDE {
        r
    } else {
        INFINITE_MAGNITUDE
    }
}

/// Rounding `t / d` to a multiple of `2 * h` only needs the whole part of
/// `t / d` and the knowledge that it is not whole.
proof fn lemma_sticky_half_even(t: nat, d: nat, h: nat)
    requires
        d > 0,
        h > 0,
        t % d > 0,
    ensures
        half_even(t, d * (2 * h)) == half_even(2 * (t / d) + 1, 4 * h),
{
    let q = t / d;
    let r = t % d;
    lemma_fundamental_div_mod(t as int, d as int);
    let w = q % (2 * h);
    let whole = q / (2 * h);
    lemma_fundamental_div_mod(q as int, (2 * h) as int);
    assert(t == (d * (2 * h)) * whole + (d * w + r)) by (nonlinear_arith)
        requires
            t == d * q + r,
            q == (2 * h) * whole + w,
    ;
    assert(0 <= d * w + r < d * (2 * h)) by (nonlinear_arith)
        requires
            0 <= w,
            w + 1 <= 2 * h,
            0 <= r < d,
    ;
    assert(t == whole * (d * (2 * h)) + (d * w + r)) by (nonlinear_arith)
        requires
            t == (d * (2 * h)) * whole + (d * w + r),
    ;
    lemma_fundamental_div_mod_converse(
        t as int,
        (d * (2 * h)) as int,
        whole as int,
        (d * w + r) as int,
    );
    assert(2 * q + 1 == whole * (4 * h) + (2 * w + 1)) by (nonlinear_arith)
        requires
            q == (2 * h) * whole + w,
    ;
    lemma_fundamental_div_mod_converse(
        (2 * q + 1) as int,
        (4 * h) as int,
        whole as int,
        (2 * w + 1) as int,
    );
    if w < h {
        assert(2 * (d * w + r) < d * (2 * h)) by (nonlinear_arith)
            requires
                w + 1 <= h,
                0 <= r < d,
        ;
    } else {
        assert(2 * (d * w + r) > d * (2 * h)) by (nonlinear_arith)
            requires
                w >= h,
                0 < r < d,
        ;
    }
}

/// A quotient that is not whole lies on the same side of a power of two as its
/// whole part with half a unit added.
proof fn lemma_sticky_side(t: nat, d: nat, a: nat, b: nat)
    requires
        d > 0,
        t % d > 0,
        t / d >= 1,
    ensures
        (t * pow2(a) < d * pow2(b)) == ((2 * (t / d) + 1) * pow2(a) < 2 * pow2(b)),
{
    let q = t / d;
    let r = t % d;
    lemma_fundamental_div_mod(t as int, d as int);
    lemma_pow2_pos(a);
    lemma_pow2_pos(b);
    if a <= b {
        let y = pow2((b - a) as nat);
        let p = pow2(a);
        lemma_pow2_adds(a, (b - a) as nat);
        lemma_pow2_pos((b - a) as nat);
        assert(pow2(b) == p * y);
        assert((t * p < d * (p * y)) == (t < d * y)) by (nonlinear_arith)
            requires
                p > 0,
        ;
        assert(((2 * q + 1) * p < 2 * (p * y)) == (2 * q + 1 < 2 * y)) by (nonlinear_arith)
            requires
                p > 0,
        ;
        if q < y {
            assert(t < d * y) by (nonlinear_arith)
                requires
                    t == d * q + r,
                    r < d,
                    q + 1 <= y,
            ;
        } else {
            assert(t >= d * y) by (nonlinear_arith)
                requires
                    t == d * q + r,
                    r >= 0,
                    q >= y,
            ;
        }
    } else {
        lemma_pow2_strictly_increases(b, a);
        let p = pow2(a);
        let s = pow2(b);
        assert(t >= d) by (nonlinear_arith)
            requires
                t == d * q + r,
                q >= 1,
                r >= 0,
        ;
        assert(t * p >= d * s) by (nonlinear_arith)
            requires
                t >= d,
                p >= s,
        ;
        assert((2 * q + 1) * p >= 2 * s) by (nonlinear_arith)
            requires
                q >= 1,
                p >= s,
        ;
    }
}

/// Rounding `(t / d) * 2^e` only needs the whole part `q` of `t / d` and the
/// knowledge that the division is not exact: `(q + 1/2) * 2^e` rounds alike,
/// as long as `q` has bits to spare.
pub proof fn lemma_sticky(t: nat, d: nat, e: int)
    requires
        d > 0,
        t % d > 0,
        t / d >= 0x200_0000,
    ensures
        nearest_magnitude(scaled_numerator(t, e), d * scaled_denominator(e)) == nearest_magnitude(
            scaled_numerator(2 * (t / d) + 1, e - 1),
            scaled_denominator(e - 1),
        ),
{
    let q = t / d;
    let x = 2 * q + 1;
    let a: nat = if e >= 0 {
        (e + 1) as nat
    } else {
        1
    };
    let b: nat = (a - e) as nat;
    let n1 = t * pow2(a);
    let d1 = d * pow2(b);
    let n2 = x * pow2(a);
    let d2 = 2 * pow2(b);
    lemma_pow2_pos(a);
    lemma_pow2_pos(b);
    lemma_scale_up(t, d, e, a, b);
    lemma_scale_up(x, 1, e - 1, a, (b + 1) as nat);
    lemma_pow2_unfold((b + 1) as nat);
    assert(1 * scaled_denominator(e - 1) == scaled_denominator(e - 1));
    lemma_mul_basics(pow2((b + 1) as nat) as int);
    assert(nearest_magnitude(scaled_numerator(t, e), d * scaled_denominator(e))
        == nearest_magnitude(n1, d1));
    assert(nearest_magnitude(scaled_numerator(x, e - 1), scaled_denominator(e - 1))
        == nearest_magnitude(n2, d2));
    assert(d1 > 0) by (nonlinear_arith)
        requires
            d > 0,
            pow2(b) > 0,
            d1 == d * pow2(b),
    ;
    let k = quantum_exponent(n1, d1);
    lemma_quantum_bounds(n1, d1);
    // The same quantum on both sides.
    lemma_pow2_adds(b, 24 + k);
    lemma_sticky_side(t, d, a, b + 24 + k);
    assert(d1 * pow2(24 + k) == d * pow2(b + 24 + k)) by (nonlinear_arith)
        requires
            d1 == d * pow2(b),
            pow2(b + 24 + k) == pow2(b) * pow2(24 + k),
    ;
    assert(d2 * pow2(24 + k) == 2 * pow2(b + 24 + k)) by (nonlinear_arith)
        requires
            d2 == 2 * pow2(b),
            pow2(b + 24 + k) == pow2(b) * pow2(24 + k),
    ;
    if k > 0 {
        let j = (23 + k) as nat;
        lemma_pow2_adds(b, j);
        lemma_sticky_side(t, d, a, b + j);
        assert(d1 * pow2(j) == d * pow2(b + j)) by (nonlinear_arith)
            requires
                d1 == d * pow2(b),
                pow2(b + j) == pow2(b) * pow2(j),
        ;
        assert(d2 * pow2(j) == 2 * pow2(b + j)) by (nonlinear_arith)
            requires
                d2 == 2 * pow2(b),
                pow2(b + j) == pow2(b) * pow2(j),
        ;
    }
    lemma_quantum_exponent(n2, d2, k);
    // The quantum lies above the unit of the whole part.
    if b + k <= a {
        lemma2_to64();
        lemma_pow2_adds(24, b + k);
        if b + k < a {
            lemma_pow2_strictly_increases(b + k, a);
        }
        let p = pow2(a);
        let s = pow2(b + k);
        assert(pow2(b + 24 + k) == 0x100_0000 * s) by {
            lemma_pow2_adds(24, b + k);
        }
        lemma_fundamental_div_mod(t as int, d as int);
        assert(t * p >= d * (0x100_0000 * s)) by (nonlinear_arith)
            requires
                t >= d * q,
                q >= 0x200_0000,
                p >= s,
                d > 0,
                s >= 0,
        ;
        assert(false);
    }
    let s = (b + k - a) as nat;
    let h = pow2((s - 1) as nat);
    lemma_pow2_pos((s - 1) as nat);
    lemma_pow2_unfold(s);
    lemma_pow2_unfold((s + 1) as nat);
    lemma_pow2_adds(a, s);
    lemma_pow2_adds(b, k);
    assert(d1 * pow2(k) == pow2(a) * (d * (2 * h))) by (nonlinear_arith)
        requires
            d1 == d * pow2(b),
            pow2(b) * pow2(k) == pow2(a) * pow2(s),
            pow2(s) == 2 * h,
    ;
    assert(d2 * pow2(k) == pow2(a) * (4 * h)) by (nonlinear_arith)
        requires
            d2 == 2 * pow2(b),
            pow2(b) * pow2(k) == pow2(a) * pow2(s),
            pow2(s) == 2 * h,
    ;
    assert(n1 == pow2(a) * t) by (nonlinear_arith)
        requires
            n1 == t * pow2(a),
    ;
    assert(n2 == pow2(a) * x) by (nonlinear_arith)
        requires
            n2 == x * pow2(a),
    ;
    assert(d * (2 * h) > 0) by (nonlinear_arith)
        requires
            d > 0,
            h > 0,
    ;
    lemma_half_even_scales(pow2(a), t, d * (2 * h));
    lemma_half_even_scales(pow2(a), x, 4 * h);
    lemma_sticky_half_even(t, d, h);
}

/// `(m / d) * 2^e` as a ratio over any pair of powers `2^a`, `2^b` with
/// `a - b == e`.
pub proof fn lemma_scale_up(m: nat, d: nat, e: int, a: nat, b: nat)
    requires
        d > 0,
        a - b == e,
    ensures
        nearest_magnitude(scaled_numerator(m, e), d * scaled_denominator(e)) == nearest_magnitude(
            m * pow2(a),
            d * pow2(b),
        ),
{
    if e >= 0 {
        let c = pow2(b);
        lemma_pow2_pos(b);
        lemma_pow2_adds(e as nat, b);
        lemma_mul_basics(d as int);
        lemma_nearest_scales(c, m * pow2(e as nat), d);
        assert(c * (m * pow2(e as nat)) == m * pow2(a)) by (nonlinear_arith)
            requires
                pow2(a) == pow2(e as nat) * c,
        ;
        assert(c * d == d * c) by (nonlinear_arith);
    } else {
        let c = pow2(a);
        lemma_pow2_pos(a);
        lemma_pow2_pos((-e) as nat);
        lemma_pow2_adds((-e) as nat, a);
        assert(d * pow2((-e) as nat) > 0) by (nonlinear_arith)
            requires
                d > 0,
                pow2((-e) as nat) > 0,
        ;
        lemma_nearest_scales(c, m, d * pow2((-e) as nat));
        assert(c * m == m * c) by (nonlinear_arith);
        assert(c * (d * pow2((-e) as nat)) == d * pow2(b)) by (nonlinear_arith)
            requires
                pow2(b) == pow2((-e) as nat) * c,
        ;
    }
}

/// A full significand absorbs an addend that lies far below it: the nearest
/// magnitude to `m * 2^e + delta` is that of `m * 2^e`.
pub proof fn lemma_absorbed(m: nat, e: nat, delta: int, n: nat)
    requires
        0x80_0000 <= m < 0x100_0000,
        2 <= e <= 253,
        n == m * pow2(e) + delta,
        -(pow2((e - 2) as nat) as int) < delta < pow2((e - 2) as nat),
    ensures
        nearest_magnitude(n, 1) == e * 0x80_0000 + m,
{
    let p = pow2(e);
    let f = pow2((e - 2) as nat);
    lemma2_to64();
    lemma_pow2_pos((e - 2) as nat);
    lemma_pow2_adds(2, (e - 2) as nat);
    lemma_pow2_adds(24, e);
    lemma_pow2_adds(23, e);
    lemma_pow2_unfold(e);
    assert(p == 4 * f);
    assert(m * p <= 0xff_ffff * p) by (nonlinear_arith)
        requires
            m <= 0xff_ffff,
            p >= 0,
    ;
    assert(m * p >= 0x80_0000 * p) by (nonlinear_arith)
        requires
            m >= 0x80_0000,
            p >= 0,
    ;
    if delta >= 0 {
        lemma_quantum_exponent(n, 1, e);
        lemma_fundamental_div_mod_converse(n as int, p as int, m as int, delta);
    } else if m > 0x80_0000 {
        assert(m * p >= 0x80_0001 * p) by (nonlinear_arith)
            requires
                m >= 0x80_0001,
                p >= 0,
        ;
        lemma_quantum_exponent(n, 1, e);
        assert(n == (m - 1) * p + (p + delta)) by (nonlinear_arith)
            requires
                n == m * p + delta,
        ;
        lemma_fundamental_div_mod_converse(n as int, p as int, m - 1, p + delta);
    } else {
        let g = pow2((e - 1) as nat);
        lemma_pow2_adds(1, (e - 2) as nat);
        lemma_pow2_adds(24, (e - 1) as nat);
        lemma_pow2_adds(23, (e - 1) as nat);
        assert(g == 2 * f);
        lemma_quantum_exponent(n, 1, (e - 1) as nat);
        assert(n == 0xff_ffff * g + (g + delta));
        lemma_fundamental_div_mod_converse(n as int, g as int, 0xff_ffff, g + delta);
    }
}

/// The units of a magnitude written as a significand over a quantum, the carry
/// into the next quantum included.
proof fn lemma_encoded_units(k: nat, q: nat)
    requires
        k <= 254,
        q <= 0x100_0000,
        k == 0 || q >= 0x80_0000,
    ensures
        magnitude_units(k * 0x80_0000 + q) == q * pow2(k),
{
    lemma2_to64();
    let m = k * 0x80_0000 + q;
    lemma_mul_basics(q as int);
    if q == 0x100_0000 {
        lemma_fundamental_div_mod_converse(m as int, 0x80_0000, (k + 2) as int, 0);
        lemma_pow2_unfold((k + 1) as nat);
        assert((m / 0x80_0000 - 1) as nat == (k + 1) as nat);
        assert(magnitude_units(m) == 0x80_0000 * pow2((k + 1) as nat));
    } else if q >= 0x80_0000 {
        lemma_fundamental_div_mod_converse(m as int, 0x80_0000, (k + 1) as int, q - 0x80_0000);
        assert((m / 0x80_0000 - 1) as nat == k);
        assert(m % 0x80_0000 + 0x80_0000 == q);
    } else {
        assert(q * pow2(k) == q * 1);
    }
}

/// Every finite magnitude is a significand over a quantum.
pub proof fn lemma_magnitude_form(m: nat) -> (r: (nat, nat))
    requires
        m < 0x7f80_0000,
    ensures
        m == r.0 * 0x80_0000 + r.1,
        r.0 <= 253,
        r.1 < 0x100_0000,
        r.0 == 0 || r.1 >= 0x80_0000,
        magnitude_units(m) == r.1 * pow2(r.0),
{
    if m < 0x80_0000 {
        lemma_encoded_units(0, m);
        (0, m)
    } else {
        let k = (m / 0x80_0000 - 1) as nat;
        let q = m % 0x80_0000 + 0x80_0000;
        lemma_encoded_units(k, q);
        (k, q)
    }
}

/// A larger magnitude stands for more units.
pub proof fn lemma_units_increase(a: nat, b: nat)
    requires
        a < b < 0x7f80_0000,
    ensures
        magnitude_units(a) < magnitude_units(b),
{
    let (ka, qa) = lemma_magnitude_form(a);
    let (kb, qb) = lemma_magnitude_form(b);
    let pa = pow2(ka);
    let pb = pow2(kb);
    lemma_pow2_pos(ka);
    if ka == kb {
        assert(qa * pa < qb * pa) by (nonlinear_arith)
            requires
                qa < qb,
                pa > 0,
        ;
    } else {
        assert(ka < kb);
        lemma_pow2_adds(1, (kb - 1) as nat);
        lemma2_to64();
        if ka < kb - 1 {
            lemma_pow2_strictly_increases(ka, (kb - 1) as nat);
        }
        assert(qa * pa < qb * pb) by (nonlinear_arith)
            requires
                qa < 0x100_0000,
                qb >= 0x80_0000,
                pb >= 2 * pa,
                pa > 0,
        ;
    }
}

/// How far apart two numbers are.
pub open spec fn distance(a: int, b: int) -> int {
    if a < b {
        b - a
    } else {
        a - b
    }
}

/// `half_even` picks a whole number of `d`s that is nearest to `n`.
proof fn lemma_half_even_nearest(n: nat, d: nat, j: nat)
    requires
        d > 0,
    ensures
        distance(n as int, (d * half_even(n, d)) as int) <= distance(n as int, (d * j) as int),
{
    let q = n / d;
    let r = n % d;
    lemma_fundamental_div_mod(n as int, d as int);
    assert(d * (q + 1) == d * q + d) by (nonlinear_arith);
    if j <= q {
        assert(d * j <= d * q) by (nonlinear_arith)
            requires
                j <= q,
        ;
    } else {
        assert(d * j >= d * (q + 1)) by (nonlinear_arith)
            requires
                j >= q + 1,
        ;
    }
}

/// No finite magnitude is nearer to `n / d` units than the one that rounding
/// picks: both sides are distances from `n / d`, multiplied by `d`.
pub proof fn law_rounding_is_nearest(n: nat, d: nat, other: nat)
    requires
        d > 0,
        nearest_magnitude(n, d) < 0x7f80_0000,
        other < 0x7f80_0000,
    ensures
        distance(n as int, (d * magnitude_units(nearest_magnitude(n, d))) as int) <= distance(
            n as int,
            (d * magnitude_units(other)) as int,
        ),
{
    let k = quantum_exponent(n, d);
    let w = pow2(k);
    let q = half_even(n, d * w);
    lemma2_to64();
    lemma_quantum_bounds(n, d);
    lemma_pow2_pos(k);
    lemma_significand_bound(n, d);
    assert(d * w > 0) by (nonlinear_arith)
        requires
            d > 0,
            w > 0,
    ;
    if k > 0 {
        lemma_pow2_adds(23, k);
        lemma_fundamental_div_mod(n as int, (d * w) as int);
        assert(n / (d * w) >= 0x80_0000) by (nonlinear_arith)
            requires
                n == (d * w) * (n / (d * w)) + n % (d * w),
                n % (d * w) < d * w,
                n >= d * (0x80_0000 * w),
                d * w > 0,
        ;
    }
    lemma_encoded_units(k, q);
    assert(d * (q * w) == (d * w) * q) by (nonlinear_arith);
    let (ko, qo) = lemma_magnitude_form(other);
    let u = qo * pow2(ko);
    if ko >= k {
        let j = qo * pow2((ko - k) as nat);
        lemma_pow2_adds((ko - k) as nat, k);
        assert(d * u == (d * w) * j) by (nonlinear_arith)
            requires
                u == qo * pow2(ko),
                pow2(ko) == pow2((ko - k) as nat) * w,
                j == qo * pow2((ko - k) as nat),
        ;
        lemma_half_even_nearest(n, d * w, j);
    } else {
        // Below the quantum, `other` lies under the least full significand,
        // which lies under `n / d`.
        let po = pow2(ko);
        lemma_pow2_pos(ko);
        lemma_pow2_adds(1, (k - 1) as nat);
        if ko < k - 1 {
            lemma_pow2_strictly_increases(ko, (k - 1) as nat);
        }
        assert(u <= 0x80_0000 * w) by (nonlinear_arith)
            requires
                u == qo * po,
                qo < 0x100_0000,
                w >= 2 * po,
                po > 0,
        ;
        assert(d * u <= (d * w) * 0x80_0000) by (nonlinear_arith)
            requires
                u <= 0x80_0000 * w,
        ;
        assert(n >= (d * w) * 0x80_0000) by (nonlinear_arith)
            requires
                n >= d * pow2((23 + k) as nat),
                pow2((23 + k) as nat) == 0x80_0000 * w,
        ;
        lemma_half_even_nearest(n, d * w, 0x80_0000);
    }
}

/// A whole number of 24 bits is a magnitude of its own: rounding leaves it as it
/// is.  One is `2^149` units.
pub proof fn lemma_whole_exact(w: nat)
    requires
        w < 0x100_0000,
    ensures
        nearest_magnitude(w * pow2(149), 1) < 0x7f80_0000,
        magnitude_units(nearest_magnitude(w * pow2(149), 1)) == w * pow2(149),
{
    let n = w * pow2(149);
    let k = quantum_exponent(n, 1);
    lemma2_to64();
    lemma_quantum_bounds(n, 1);
    lemma_pow2_pos(k);
    lemma_pow2_pos(149);
    lemma_pow2_adds(24, 149);
    assert(n < 0x100_0000 * pow2(149)) by (nonlinear_arith)
        requires
            n == w * pow2(149),
            w < 0x100_0000,
            pow2(149) > 0,
    ;
    if k > 149 {
        if k > 150 {
            lemma_pow2_strictly_increases(173, (23 + k) as nat);
        }
        assert(false);
    }
    lemma_pow2_adds((149 - k) as nat, k);
    let q: nat = w * pow2((149 - k) as nat);
    assert(n == q * pow2(k)) by (nonlinear_arith)
        requires
            n == w * pow2(149),
            pow2(149) == pow2((149 - k) as nat) * pow2(k),
            q == w * pow2((149 - k) as nat),
    ;
    lemma_half_even_exact(q, pow2(k));
    lemma_mul_basics(pow2(k) as int);
    lemma_pow2_adds(24, k);
    assert(q < 0x100_0000) by (nonlinear_arith)
        requires
            q * pow2(k) < 0x100_0000 * pow2(k),
            pow2(k) > 0,
    ;
    if k > 0 {
        lemma_pow2_adds(23, k);
        assert(q >= 0x80_0000) by (nonlinear_arith)
            requires
                q * pow2(k) >= 0x80_0000 * pow2(k),
                pow2(k) > 0,
        ;
    }
    lemma_encoded_units(k, q);
    assert(nearest_magnitude(n, 1) == k * 0x80_0000 + q);
}

/// What is no more than a finite magnitude is not rounded past it.
pub proof fn lemma_nearest_at_most(n: nat, m: nat)
    requires
        m < 0x7f80_0000,
        n <= magnitude_units(m),
    ensures
        nearest_magnitude(n, 1) <= m,
{
    let k = quantum_exponent(n, 1);
    let w = pow2(k);
    let q = half_even(n, 1 * w);
    let (km, qm) = lemma_magnitude_form(m);
    lemma2_to64();
    lemma_quantum_bounds(n, 1);
    lemma_significand_bound(n, 1);
    lemma_pow2_pos(k);
    lemma_pow2_pos(km);
    lemma_pow2_adds(24, km);
    assert(n < 0x100_0000 * pow2(km)) by (nonlinear_arith)
        requires
            n <= qm * pow2(km),
            qm < 0x100_0000,
            pow2(km) > 0,
    ;
    if k > km {
        if k > km + 1 {
            lemma_pow2_strictly_increases((24 + km) as nat, (23 + k) as nat);
        }
        assert(false);
    }
    if k == km {
        assert(q <= qm) by {
            lemma_half_even_exact(qm, w);
            lemma_half_even_nearest(n, w, qm);
            assert(w * q <= w * qm) by {
                assert(qm * pow2(km) == w * qm) by (nonlinear_arith)
                    requires
                        w == pow2(km),
                ;
            }
            assert(q <= qm) by (nonlinear_arith)
                requires
                    w * q <= w * qm,
                    w > 0,
            ;
        }
    }
    if nearest_magnitude(n, 1) > m {
        assert(nearest_magnitude(n, 1) < 0x7f80_0000);
        lemma_units_increase(m, nearest_magnitude(n, 1));
        law_rounding_is_nearest(n, 1, m);
    }
}

/// What is no less than a finite magnitude is not rounded below it.
pub proof fn lemma_nearest_at_least(n: nat, m: nat)
    requires
        m < 0x7f80_0000,
        n >= magnitude_units(m),
    ensures
        nearest_magnitude(n, 1) >= m,
{
    if nearest_magnitude(n, 1) < m {
        lemma_units_increase(nearest_magnitude(n, 1), m);
        law_rounding_is_nearest(n, 1, m);
    }
}

} // verus!
