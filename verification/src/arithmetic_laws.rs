//! What the arithmetic on [`Scalar`] computes, against the numbers themselves.
//!
//! Values are whole numbers of the smallest step; one is `2^149` of them.
use crate::rounding::distance;
use crate::scalar::{Double, Scalar};
use vstd::arithmetic::power2::*;
use vstd::prelude::*;

verus! {

/// No number is nearer to the true sum than the one that comes out.
pub proof fn law_sum_is_nearest(a: Scalar, b: Scalar, other: Scalar)
    requires
        a.finite(),
        b.finite(),
        a.sum(b).finite(),
        other.finite(),
    ensures
        distance(a.value() + b.value(), a.sum(b).value()) <= distance(
            a.value() + b.value(),
            other.value(),
        ),
{
    let total = a.value() + b.value();
    let u = other.units();
    if total > 0 {
        crate::rounding::law_rounding_is_nearest(total as nat, 1, other.magnitude());
        assert(a.sum(b).units() == 1 * a.sum(b).units() && u == 1 * u);
    } else if total < 0 {
        crate::rounding::law_rounding_is_nearest((-total) as nat, 1, other.magnitude());
        assert(a.sum(b).units() == 1 * a.sum(b).units() && u == 1 * u);
    }
}

/// The order of the terms does not matter.
pub proof fn law_sum_commutes(a: Scalar, b: Scalar)
    ensures
        a.sum(b) == b.sum(a),
        a.product(b) == b.product(a),
{
    assert(a.units() * b.units() == b.units() * a.units()) by (nonlinear_arith);
}

/// No number is nearer to the true product than the one that comes out, and its sign is
/// that of the product.
#[verifier::rlimit(40)]
pub proof fn law_product_is_nearest(a: Scalar, b: Scalar, other: Scalar)
    requires
        a.finite(),
        b.finite(),
        a.product(b).finite(),
        other.finite(),
    ensures
        distance(a.value() * b.value(), pow2(149) * a.product(b).value()) <= distance(
            a.value() * b.value(),
            pow2(149) * other.value(),
        ),
        a.product(b).negative() == (a.negative() != b.negative()),
{
    lemma_pow2_pos(149);
    let one = pow2(149) as int;
    let (x, y) = (a.units() as int, b.units() as int);
    let p = a.product(b);
    let (r, u) = (p.units() as int, other.units() as int);
    crate::rounding::law_rounding_is_nearest(a.units() * b.units(), pow2(149), other.magnitude());
    assert(a.value() * b.value() == if p.negative() {
        -(x * y)
    } else {
        x * y
    }) by {
        assert((-x) * y == -(x * y) && x * (-y) == -(x * y) && (-x) * (-y) == x * y)
            by (nonlinear_arith);
    }
    assert(one * (-r) == -(one * r) && one * (-u) == -(one * u)) by (nonlinear_arith);
    assert(x * y >= 0 && one * r >= 0 && one * u >= 0) by (nonlinear_arith)
        requires
            x >= 0,
            y >= 0,
            one >= 0,
            r >= 0,
            u >= 0,
    ;
}

/// No number is nearer to the true quotient than the one that comes out: both distances
/// are multiplied by the divisor.
#[verifier::rlimit(40)]
pub proof fn law_quotient_is_nearest(a: Scalar, b: Scalar, other: Scalar)
    requires
        a.finite(),
        b.finite(),
        !b.zero_valued(),
        a.quotient(b).finite(),
        other.finite(),
    ensures
        distance(a.value() * pow2(149), b.value() * a.quotient(b).value()) <= distance(
            a.value() * pow2(149),
            b.value() * other.value(),
        ),
        a.quotient(b).negative() == (a.negative() != b.negative()),
{
    lemma_pow2_pos(149);
    let one = pow2(149) as int;
    let (x, y) = (a.units() as int, b.units() as int);
    let q = a.quotient(b);
    let (r, u) = (q.units() as int, other.units() as int);
    crate::rounding::lemma_units_increase(0, b.magnitude());
    crate::rounding::law_rounding_is_nearest(a.units() * pow2(149), b.units(), other.magnitude());
    assert((-x) * one == -(x * one)) by (nonlinear_arith);
    assert((-y) * r == -(y * r) && y * (-r) == -(y * r) && (-y) * (-r) == y * r)
        by (nonlinear_arith);
    assert((-y) * u == -(y * u) && y * (-u) == -(y * u) && (-y) * (-u) == y * u)
        by (nonlinear_arith);
    assert(x * one >= 0 && y * r >= 0 && y * u >= 0) by (nonlinear_arith)
        requires
            x >= 0,
            y >= 0,
            one >= 0,
            r >= 0,
            u >= 0,
    ;
}

/// The opposite of a number is as far on the other side of zero, the number without its
/// sign is as far on the right side, and a difference is the sum with the opposite.
pub proof fn law_opposite_and_absolute(a: Scalar, b: Scalar)
    ensures
        a.opposite().opposite() == a,
        a.opposite() != a,
        a.finite() ==> a.opposite().finite() && a.opposite().value() == -a.value(),
        a.finite() ==> a.absolute().finite() && a.absolute().value() == if a.value() < 0 {
            -a.value()
        } else {
            a.value()
        },
        a.difference(b) == a.sum(b.opposite()),
        a.infinite() ==> a.absolute().infinite() && !a.absolute().negative(),
        a.not_a_number() <==> a.opposite().not_a_number(),
{
}

/// What is not a number comes out of every operation that it goes into, and compares with
/// nothing; neither does the difference of two infinities, zero times an infinity, or zero
/// over zero give a number.
pub proof fn law_not_a_number_spreads(a: Scalar, b: Scalar)
    requires
        a.not_a_number(),
    ensures
        a.sum(b).not_a_number() && b.sum(a).not_a_number(),
        a.product(b).not_a_number() && b.product(a).not_a_number(),
        a.quotient(b).not_a_number() && b.quotient(a).not_a_number(),
        !a.below(b) && !b.below(a) && !a.at_most(b) && !b.at_most(a) && !a.same_number(b),
        !a.positive(),
        b.infinite() ==> b.difference(b).not_a_number() && b.product(
            Scalar { bits: 0 },
        ).not_a_number(),
        b.zero_valued() ==> b.quotient(b).not_a_number(),
{
}

/// The order of numbers, infinities included: of two numbers one is below the other or
/// they are the same, an infinity lies beyond every finite number on its side, and a
/// number is above zero exactly where zero is below it.
pub proof fn law_order_is_total(a: Scalar, b: Scalar)
    requires
        !a.not_a_number(),
        !b.not_a_number(),
    ensures
        a.below(b) || b.below(a) || a.same_number(b),
        !(a.below(b) && b.below(a)),
        a.at_most(b) <==> a.below(b) || a.same_number(b),
        a.finite() && b.infinite() ==> (a.below(b) <==> !b.negative()) && (b.below(a)
            <==> b.negative()),
        a.positive() <==> (Scalar { bits: 0 }).below(a),
        a.zero_valued() <==> a.same_number(Scalar { bits: 0 }),
{
}

/// A whole number of 32 bits becomes the number nearest to it.
pub proof fn law_whole_number_is_nearest(n: u32, other: Scalar)
    requires
        other.finite(),
        Scalar::of_u32(n).finite(),
    ensures
        distance(n * pow2(149), Scalar::of_u32(n).value()) <= distance(
            n * pow2(149),
            other.value(),
        ),
{
    lemma_pow2_pos(149);
    let exact = n as nat * pow2(149);
    crate::rounding::law_rounding_is_nearest(exact, 1, other.magnitude());
    let r = Scalar::of_u32(n);
    assert(r.units() == 1 * r.units() && other.units() == 1 * other.units());
}

/// The whole part of a number is the greatest whole number that is not above it, held
/// between zero and the largest of 32 bits.
pub proof fn law_whole_part(s: Scalar)
    requires
        s.finite(),
    ensures
        0 <= s.whole_u32() <= 0xffff_ffff,
        s.value() <= 0 ==> s.whole_u32() == 0,
        s.value() >= 0 && !s.negative() ==> s.whole_u32() * pow2(149) <= s.value(),
        s.value() >= 0 && !s.negative() && s.whole_u32() < 0xffff_ffff ==> s.value() < (
        s.whole_u32() + 1) * pow2(149),
{
    lemma_pow2_pos(149);
    let one = pow2(149) as int;
    let n = s.units() as int;
    let q = n / one;
    assert(q * one <= n && n < (q + 1) * one) by (nonlinear_arith)
        requires
            one > 0,
            q == n / one,
    ;
    assert(n >= 0 && one > 0 ==> n / one >= 0) by (nonlinear_arith);
    if q > 0xffff_ffff {
        assert(0xffff_ffff * one <= q * one) by (nonlinear_arith)
            requires
                q > 0xffff_ffff,
                one > 0,
        ;
    }
}

/// A double that is narrowed becomes the number nearest to it, on its side of zero: both
/// distances are in the steps of a double.
pub proof fn law_narrowed_is_nearest(d: Double, other: Scalar)
    requires
        d.magnitude() < 0x7ff0_0000_0000_0000,
        d.narrowed().finite(),
        other.finite(),
    ensures
        d.narrowed().negative() == d.negative(),
        distance(d.units() as int, (pow2(925) * d.narrowed().units()) as int) <= distance(
            d.units() as int,
            (pow2(925) * other.units()) as int,
        ),
{
    lemma_pow2_pos(925);
    crate::rounding::law_rounding_is_nearest(d.units(), pow2(925), other.magnitude());
}

/// A double that is rounded up becomes the least whole number that is not below it, as
/// long as that has no more digits than a number holds; one is `2^1074` steps of a double.
#[verifier::rlimit(40)]
pub proof fn law_double_is_rounded_up(d: Double)
    requires
        d.units() < 0xff_ffff * pow2(1074),
        d.magnitude() < 0x7ff0_0000_0000_0000,
    ensures
        ({
            let r = d.rounded_up_narrowed();
            let value = if d.negative() {
                -(d.units() as int)
            } else {
                d.units() as int
            };
            &&& r.finite() && r.units() % pow2(149) == 0
            &&& r.negative() == d.negative()
            &&& exists|whole: int| #[trigger]
                (whole * pow2(149)) == r.value() && value <= whole * pow2(1074) && whole * pow2(
                    1074,
                ) < value + pow2(1074)
        }),
{
    lemma_pow2_pos(149);
    lemma_pow2_pos(1074);
    let one = pow2(1074) as int;
    let n = d.units() as int;
    let q = n / one;
    let rest = n % one;
    assert(n == one * q + rest && 0 <= rest < one && 0 <= q < 0xff_ffff) by (nonlinear_arith)
        requires
            one > 0,
            0 <= n < 0xff_ffff * one,
            q == n / one,
            rest == n % one,
    ;
    let up: nat = if rest > 0 && !d.negative() {
        (q + 1) as nat
    } else {
        q as nat
    };
    crate::rounding::lemma_whole_exact(up);
    let r = d.rounded_up_narrowed();
    assert(r.units() == up * pow2(149));
    let p = pow2(149) as int;
    assert((up * p) % p == 0) by (nonlinear_arith)
        requires
            p > 0,
            up >= 0,
    ;
    let whole: int = if d.negative() {
        -(up as int)
    } else {
        up as int
    };
    assert((-(up as int)) * p == -(up * p)) by (nonlinear_arith);
    assert(whole * pow2(149) == r.value());
    assert((q + 1) * one == one * q + one && q * one == one * q && (-q) * one == -(one * q))
        by (nonlinear_arith);
}

} // verus!
