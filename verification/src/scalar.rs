//! Single-precision numbers, held by their bit pattern.
//!
//! The draw protocol carries single-precision numbers.  [`Scalar`] holds one by
//! its IEEE 754 bit pattern and computes on it in integer arithmetic, so that
//! every operation is proved to give the correctly rounded result.  Operations
//! whose result is not a number give the quiet pattern [`NAN_BITS`].
use crate::rounding::{round_scaled, INFINITE_MAGNITUDE, SIGNIFICAND_SPAN};
use vstd::arithmetic::div_mod::*;
use vstd::arithmetic::mul::*;
use vstd::arithmetic::power2::*;
use vstd::prelude::*;

verus! {

/// Bit pattern of the sign.
pub const SIGN_BIT: u32 = 0x8000_0000;

/// Bit pattern of the quiet not-a-number that operations return.
pub const NAN_BITS: u32 = 0x7fc0_0000;

/// Bit pattern of one.
pub const ONE_BITS: u32 = 0x3f80_0000;

/// Bit pattern of minus one.
pub const MINUS_ONE_BITS: u32 = 0xbf80_0000;

/// Bit pattern of two to the power 32.
pub const TWO_TO_32_BITS: u32 = 0x4f80_0000;

/// Bit pattern of two.
pub const TWO_BITS: u32 = 0x4000_0000;

/// Bit pattern of one half.
pub const HALF_BITS: u32 = 0x3f00_0000;

/// Bit pattern of the number of radians in a degree.
pub const RADIANS_PER_DEGREE_BITS: u32 = 0x3c8e_fa35;

/// Bit pattern of the largest finite number.
pub const LARGEST_BITS: u32 = 0x7f7f_ffff;

/// A single-precision number.
#[derive(Clone, Copy, Debug, PartialEq, Eq, Structural)]
pub struct Scalar {
    /// The IEEE 754 bit pattern.
    pub bits: u32,
}

/// A double-precision number, held by its bit pattern.
#[derive(Clone, Copy, Debug, PartialEq, Eq, Structural)]
pub struct Double {
    /// The IEEE 754 bit pattern.
    pub bits: u64,
}

impl Scalar {
    /// Whether the sign bit is set.
    pub open spec fn negative(self) -> bool {
        self.bits >= 0x8000_0000
    }

    /// The bit pattern without the sign.
    pub open spec fn magnitude(self) -> nat {
        if self.negative() {
            (self.bits - 0x8000_0000) as nat
        } else {
            self.bits as nat
        }
    }

    pub open spec fn not_a_number(self) -> bool {
        self.magnitude() > 0x7f80_0000
    }

    pub open spec fn infinite(self) -> bool {
        self.magnitude() == 0x7f80_0000
    }

    pub open spec fn finite(self) -> bool {
        self.magnitude() < 0x7f80_0000
    }

    pub open spec fn zero_valued(self) -> bool {
        self.magnitude() == 0
    }

    /// The absolute value of a finite number, in units of the smallest subnormal.
    pub open spec fn units(self) -> nat {
        crate::rounding::magnitude_units(self.magnitude())
    }

    /// The value of a finite number, in units of the smallest subnormal.
    pub open spec fn value(self) -> int {
        if self.negative() {
            -(self.units() as int)
        } else {
            self.units() as int
        }
    }

    /// Position of a number on the number line, infinities included; both zeros
    /// stand at the same place.
    pub open spec fn ordinal(self) -> int {
        if self.negative() {
            -(self.magnitude() as int)
        } else {
            self.magnitude() as int
        }
    }

    /// The quiet not-a-number.
    pub open spec fn nan() -> Scalar {
        Scalar { bits: NAN_BITS }
    }

    pub open spec fn infinity(negative: bool) -> Scalar {
        if negative {
            Scalar { bits: 0xff80_0000 }
        } else {
            Scalar { bits: 0x7f80_0000 }
        }
    }

    pub open spec fn zero(negative: bool) -> Scalar {
        if negative {
            Scalar { bits: 0x8000_0000 }
        } else {
            Scalar { bits: 0 }
        }
    }

    /// The number nearest to `n / d` units, with the given sign.
    pub open spec fn nearest(negative: bool, n: nat, d: nat) -> Scalar {
        let m = crate::rounding::nearest_magnitude(n, d);
        Scalar {
            bits: (if negative {
                m + 0x8000_0000
            } else {
                m
            }) as u32,
        }
    }

    /// `self + other`, correctly rounded.
    pub open spec fn sum(self, other: Scalar) -> Scalar {
        if self.not_a_number() || other.not_a_number() {
            Scalar::nan()
        } else if self.infinite() {
            if other.infinite() && self.negative() != other.negative() {
                Scalar::nan()
            } else {
                self
            }
        } else if other.infinite() {
            other
        } else {
            let total = self.value() + other.value();
            if total == 0 {
                Scalar::zero(self.negative() && other.negative())
            } else if total < 0 {
                Scalar::nearest(true, (-total) as nat, 1)
            } else {
                Scalar::nearest(false, total as nat, 1)
            }
        }
    }

    /// The number with the opposite sign.
    pub open spec fn opposite(self) -> Scalar {
        if self.negative() {
            Scalar { bits: (self.bits - 0x8000_0000) as u32 }
        } else {
            Scalar { bits: (self.bits + 0x8000_0000) as u32 }
        }
    }

    /// `self - other`, correctly rounded.
    pub open spec fn difference(self, other: Scalar) -> Scalar {
        self.sum(other.opposite())
    }

    /// `self * other`, correctly rounded.
    pub open spec fn product(self, other: Scalar) -> Scalar {
        let negative = self.negative() != other.negative();
        if self.not_a_number() || other.not_a_number() {
            Scalar::nan()
        } else if self.infinite() || other.infinite() {
            if self.zero_valued() || other.zero_valued() {
                Scalar::nan()
            } else {
                Scalar::infinity(negative)
            }
        } else {
            Scalar::nearest(negative, self.units() * other.units(), pow2(149))
        }
    }

    /// `self / other`, correctly rounded.
    pub open spec fn quotient(self, other: Scalar) -> Scalar {
        let negative = self.negative() != other.negative();
        if self.not_a_number() || other.not_a_number() {
            Scalar::nan()
        } else if self.infinite() {
            if other.infinite() {
                Scalar::nan()
            } else {
                Scalar::infinity(negative)
            }
        } else if other.infinite() {
            Scalar::zero(negative)
        } else if other.zero_valued() {
            if self.zero_valued() {
                Scalar::nan()
            } else {
                Scalar::infinity(negative)
            }
        } else {
            Scalar::nearest(negative, self.units() * pow2(149), other.units())
        }
    }

    /// The angle in radians of an angle in degrees.
    pub open spec fn in_radians(self) -> Scalar {
        self.product(Scalar { bits: RADIANS_PER_DEGREE_BITS })
    }

    /// The number without its sign.
    pub open spec fn absolute(self) -> Scalar {
        Scalar { bits: self.magnitude() as u32 }
    }

    pub open spec fn below(self, other: Scalar) -> bool {
        !self.not_a_number() && !other.not_a_number() && self.ordinal() < other.ordinal()
    }

    pub open spec fn at_most(self, other: Scalar) -> bool {
        !self.not_a_number() && !other.not_a_number() && self.ordinal() <= other.ordinal()
    }

    pub open spec fn same_number(self, other: Scalar) -> bool {
        !self.not_a_number() && !other.not_a_number() && self.ordinal() == other.ordinal()
    }

    /// Whether the number is above zero.
    pub open spec fn positive(self) -> bool {
        0 < self.bits <= 0x7f80_0000
    }

    /// The number nearest to `n`.
    pub open spec fn of_u32(n: u32) -> Scalar {
        Scalar::nearest(false, n as nat * pow2(149), 1)
    }

    /// The whole part, held to the range of 32 unsigned bits; zero for what is
    /// not a number.
    pub open spec fn whole_u32(self) -> int {
        if self.not_a_number() || self.negative() {
            0
        } else if self.infinite() || self.units() / pow2(149) > 0xffff_ffff {
            0xffff_ffff
        } else {
            self.units() as int / pow2(149) as int
        }
    }

    /// The least whole number that is not below `self`.
    pub open spec fn rounded_up(self) -> Scalar {
        if self.finite() {
            let whole = self.units() / pow2(149);
            let rest = self.units() % pow2(149);
            Scalar::nearest(
                self.negative(),
                (if rest > 0 && !self.negative() {
                    whole + 1
                } else {
                    whole
                }) * pow2(149),
                1,
            )
        } else {
            self
        }
    }

    /// The nearest whole number, halves going away from zero.
    pub open spec fn rounded(self) -> Scalar {
        if self.finite() {
            let whole = self.units() / pow2(149);
            let rest = self.units() % pow2(149);
            Scalar::nearest(
                self.negative(),
                (if 2 * rest >= pow2(149) {
                    whole + 1
                } else {
                    whole
                }) * pow2(149),
                1,
            )
        } else {
            self
        }
    }
}

/// The significand and exponent of a finite magnitude.
fn split_magnitude(magnitude: u32) -> (r: (u32, u32))
    requires
        magnitude < INFINITE_MAGNITUDE,
    ensures
        crate::rounding::magnitude_units(magnitude as nat) == r.0 * pow2(r.1 as nat),
        r.0 < 0x100_0000,
        r.1 <= 253,
        r.1 > 0 ==> r.0 >= 0x80_0000,
        magnitude == r.1 * 0x80_0000 + r.0,
        magnitude == 0 <==> r.0 == 0,
{
    proof {
        lemma2_to64();
        lemma_mul_basics(magnitude as int);
    }
    if magnitude < SIGNIFICAND_SPAN {
        (magnitude, 0)
    } else {
        (magnitude % SIGNIFICAND_SPAN + SIGNIFICAND_SPAN, magnitude / SIGNIFICAND_SPAN - 1)
    }
}

impl Scalar {
    /// The angle in radians of an angle in degrees.
    pub fn to_radians(self) -> (r: Scalar)
        ensures
            r == self.in_radians(),
    {
        self.times(Scalar { bits: RADIANS_PER_DEGREE_BITS })
    }

    pub fn is_negative(self) -> (r: bool)
        ensures
            r == self.negative(),
    {
        self.bits >= SIGN_BIT
    }

    /// The number without its sign.
    pub fn abs(self) -> (r: Scalar)
        ensures
            r == self.absolute(),
    {
        if self.bits >= SIGN_BIT {
            Scalar { bits: self.bits - SIGN_BIT }
        } else {
            self
        }
    }

    pub fn is_nan(self) -> (r: bool)
        ensures
            r == self.not_a_number(),
    {
        self.abs().bits > INFINITE_MAGNITUDE
    }

    pub fn is_infinite(self) -> (r: bool)
        ensures
            r == self.infinite(),
    {
        self.abs().bits == INFINITE_MAGNITUDE
    }

    pub fn is_zero(self) -> (r: bool)
        ensures
            r == self.zero_valued(),
    {
        self.abs().bits == 0
    }

    pub fn is_positive(self) -> (r: bool)
        ensures
            r == self.positive(),
            r == (Scalar { bits: 0 }).below(self),
    {
        0 < self.bits && self.bits <= INFINITE_MAGNITUDE
    }

    /// The number with the opposite sign.
    pub fn negated(self) -> (r: Scalar)
        ensures
            r == self.opposite(),
    {
        if self.bits >= SIGN_BIT {
            Scalar { bits: self.bits - SIGN_BIT }
        } else {
            Scalar { bits: self.bits + SIGN_BIT }
        }
    }

    /// Whether `self < other`.
    pub fn less_than(self, other: Scalar) -> (r: bool)
        ensures
            r == self.below(other),
    {
        if self.is_nan() || other.is_nan() {
            false
        } else if self.is_negative() {
            if other.is_negative() {
                self.bits > other.bits
            } else {
                self.bits > SIGN_BIT || other.bits > 0
            }
        } else if other.is_negative() {
            false
        } else {
            self.bits < other.bits
        }
    }

    /// Whether `self == other` as numbers.
    pub fn equals(self, other: Scalar) -> (r: bool)
        ensures
            r == self.same_number(other),
    {
        !self.is_nan() && !other.is_nan() && (self.bits == other.bits || (self.is_zero()
            && other.is_zero()))
    }

    /// Whether `self <= other`.
    pub fn less_or_equal(self, other: Scalar) -> (r: bool)
        ensures
            r == self.at_most(other),
    {
        self.less_than(other) || self.equals(other)
    }

    /// Puts a sign on a magnitude.
    fn signed(negative: bool, magnitude: u32) -> (r: Scalar)
        requires
            magnitude <= INFINITE_MAGNITUDE,
        ensures
            r.bits == if negative {
                magnitude + 0x8000_0000
            } else {
                magnitude as int
            },
    {
        if negative {
            Scalar { bits: magnitude + SIGN_BIT }
        } else {
            Scalar { bits: magnitude }
        }
    }

    /// `self * other`, correctly rounded.
    pub fn times(self, other: Scalar) -> (r: Scalar)
        ensures
            r == self.product(other),
    {
        let negative: bool = self.is_negative() != other.is_negative();
        if self.is_nan() || other.is_nan() {
            return Scalar { bits: NAN_BITS };
        }
        if self.is_infinite() || other.is_infinite() {
            if self.is_zero() || other.is_zero() {
                return Scalar { bits: NAN_BITS };
            }
            return Scalar::signed(negative, INFINITE_MAGNITUDE);
        }
        let (ma, ea) = split_magnitude(self.abs().bits);
        let (mb, eb) = split_magnitude(other.abs().bits);
        proof {
            assert(ma * mb < 0x1_0000_0000_0000) by (nonlinear_arith)
                requires
                    0 <= ma < 0x100_0000,
                    0 <= mb < 0x100_0000,
            ;
        }
        let m: u64 = (ma as u64) * (mb as u64);
        let e: i32 = ea as i32 + eb as i32 - 149;
        let magnitude: u32 = round_scaled(m, e);
        proof {
            let a = (ea + eb) as nat;
            lemma_pow2_adds(ea as nat, eb as nat);
            assert(self.units() * other.units() == m as nat * pow2(a)) by (nonlinear_arith)
                requires
                    self.units() == ma * pow2(ea as nat),
                    other.units() == mb * pow2(eb as nat),
                    m == ma * mb,
                    pow2(a) == pow2(ea as nat) * pow2(eb as nat),
            ;
            crate::rounding::lemma_scale_up(m as nat, 1, e as int, a, 149);
            lemma_mul_basics(pow2(149) as int);
            lemma_mul_basics(crate::rounding::scaled_denominator(e as int) as int);
        }
        Scalar::signed(negative, magnitude)
    }

    /// `self + other`, correctly rounded.
    pub fn plus(self, other: Scalar) -> (r: Scalar)
        ensures
            r == self.sum(other),
    {
        if self.is_nan() || other.is_nan() {
            return Scalar { bits: NAN_BITS };
        }
        if self.is_infinite() {
            if other.is_infinite() && self.is_negative() != other.is_negative() {
                return Scalar { bits: NAN_BITS };
            }
            return self;
        }
        if other.is_infinite() {
            return other;
        }
        if self.abs().bits >= other.abs().bits {
            self.plus_smaller(other)
        } else {
            other.plus_smaller(self)
        }
    }

    /// The sum of two finite numbers of which `self` is at least as far from
    /// zero as `other`.
    fn plus_smaller(self, other: Scalar) -> (r: Scalar)
        requires
            self.finite(),
            other.finite(),
            self.magnitude() >= other.magnitude(),
        ensures
            r == self.sum(other),
    {
        let (ma, ea) = split_magnitude(self.abs().bits);
        let (mb, eb) = split_magnitude(other.abs().bits);
        let ghost pa = pow2(ea as nat);
        let ghost pb = pow2(eb as nat);
        let ghost total = self.value() + other.value();
        proof {
            lemma2_to64();
            lemma_pow2_pos(ea as nat);
            lemma_pow2_pos(eb as nat);
            assert(ea >= eb) by {
                if ea < eb {
                    assert(ea * 0x80_0000 + ma < eb * 0x80_0000 + mb);
                }
            }
        }
        let gap: u32 = ea - eb;
        if gap > 37 {
            proof {
                let delta: int = if self.negative() == other.negative() {
                    other.units() as int
                } else {
                    -(other.units() as int)
                };
                let n = (self.units() + delta) as nat;
                lemma_pow2_adds(24, eb as nat);
                assert(mb * pb <= 0xff_ffff * pb) by (nonlinear_arith)
                    requires
                        mb <= 0xff_ffff,
                        pb >= 0,
                ;
                lemma_pow2_strictly_increases((24 + eb) as nat, (ea - 2) as nat);
                lemma_pow2_adds(2, (ea - 2) as nat);
                lemma_pow2_pos((ea - 2) as nat);
                assert(ma * pa >= pa) by (nonlinear_arith)
                    requires
                        ma >= 1,
                        pa >= 0,
                ;
                crate::rounding::lemma_absorbed(ma as nat, ea as nat, delta, n);
                assert(total == if self.negative() {
                    -(n as int)
                } else {
                    n as int
                });
            }
            return self;
        }
        proof {
            lemma2_to64_rest();
            lemma_pow2_adds(gap as nat, eb as nat);
            if gap < 37 {
                lemma_pow2_strictly_increases(gap as nat, 37);
            }
            lemma_pow2_pos(gap as nat);
            assert(1 <= pow2(gap as nat) <= 0x20_0000_0000);
            assert(0 <= ma * pow2(gap as nat) <= 0x1fff_ffe0_0000_0000) by (nonlinear_arith)
                requires
                    0 <= ma <= 0xff_ffff,
                    1 <= pow2(gap as nat) <= 0x20_0000_0000,
            ;
        }
        let wide: u64 = (ma as u64) * crate::rounding::power_of_two(gap);
        let ghost g = pow2(gap as nat);
        proof {
            assert(self.units() == wide as nat * pb) by (nonlinear_arith)
                requires
                    self.units() == ma * pa,
                    pa == g * pb,
                    wide == ma * g,
            ;
            assert(wide >= mb) by {
                if gap == 0 {
                    lemma_mul_basics(ma as int);
                } else {
                    lemma_pow2_unfold(gap as nat);
                    lemma_pow2_pos((gap - 1) as nat);
                    assert(ma * g >= ma * 2) by (nonlinear_arith)
                        requires
                            g >= 2,
                            ma >= 0,
                    ;
                }
            }
        }
        let same_sign: bool = self.is_negative() == other.is_negative();
        let m: u64 = if same_sign {
            wide + (mb as u64)
        } else {
            wide - (mb as u64)
        };
        proof {
            let joined: int = if same_sign {
                self.units() as int + other.units()
            } else {
                self.units() - other.units()
            };
            assert(m as nat * pb == joined) by (nonlinear_arith)
                requires
                    self.units() == wide as nat * pb,
                    other.units() == mb * pb,
                    joined == if same_sign {
                        self.units() as int + other.units()
                    } else {
                        self.units() - other.units()
                    },
                    m == if same_sign {
                        wide + mb
                    } else {
                        wide - mb
                    },
            ;
            assert(total == if self.negative() {
                -joined
            } else {
                joined
            });
            assert(m == 0 <==> total == 0) by (nonlinear_arith)
                requires
                    pb > 0,
                    m as nat * pb == total || m as nat * pb == -total,
            ;
        }
        if m == 0 {
            return Scalar::signed(self.is_negative() && other.is_negative(), 0);
        }
        proof {
            assert(m as nat * pb > 0) by (nonlinear_arith)
                requires
                    m > 0,
                    pb > 0,
            ;
        }
        Scalar::signed(self.is_negative(), round_scaled(m, eb as i32))
    }

    /// `self - other`, correctly rounded.
    pub fn minus(self, other: Scalar) -> (r: Scalar)
        ensures
            r == self.difference(other),
    {
        self.plus(other.negated())
    }

    /// `self / other`, correctly rounded.
    pub fn over(self, other: Scalar) -> (r: Scalar)
        ensures
            r == self.quotient(other),
    {
        let negative: bool = self.is_negative() != other.is_negative();
        if self.is_nan() || other.is_nan() {
            return Scalar { bits: NAN_BITS };
        }
        if self.is_infinite() {
            if other.is_infinite() {
                return Scalar { bits: NAN_BITS };
            }
            return Scalar::signed(negative, INFINITE_MAGNITUDE);
        }
        if other.is_infinite() {
            return Scalar::signed(negative, 0);
        }
        if other.is_zero() {
            if self.is_zero() {
                return Scalar { bits: NAN_BITS };
            }
            return Scalar::signed(negative, INFINITE_MAGNITUDE);
        }
        Scalar::signed(negative, Scalar::divide_magnitudes(self.abs().bits, other.abs().bits))
    }

    /// The quotient of two finite magnitudes, rounded.
    fn divide_magnitudes(a: u32, b: u32) -> (r: u32)
        requires
            a < INFINITE_MAGNITUDE,
            0 < b < INFINITE_MAGNITUDE,
        ensures
            r <= INFINITE_MAGNITUDE,
            r == crate::rounding::nearest_magnitude(
                crate::rounding::magnitude_units(a as nat) * pow2(149),
                crate::rounding::magnitude_units(b as nat),
            ),
    {
        let (ma, ea) = split_magnitude(a);
        let (mb, eb) = split_magnitude(b);
        let len: u32 = crate::rounding::bit_length(ma as u64);
        proof {
            lemma2_to64();
            if len > 24 {
                if len > 25 {
                    lemma_pow2_strictly_increases(24, (len - 1) as nat);
                }
            }
        }
        // Widen the dividend to 62 bits, so that the whole part of the
        // quotient keeps more bits than a significand.
        let widen: u32 = 62 - len;
        let ghost g = pow2(widen as nat);
        proof {
            lemma2_to64_rest();
            lemma_pow2_adds(len as nat, widen as nat);
            lemma_pow2_pos(widen as nat);
            assert(ma * g < pow2(62)) by (nonlinear_arith)
                requires
                    0 <= ma < pow2(len as nat),
                    g > 0,
                    pow2(len as nat) * g == pow2(62),
            ;
        }
        let t: u64 = (ma as u64) * crate::rounding::power_of_two(widen);
        let d: u64 = mb as u64;
        let q: u64 = t / d;
        let rest: u64 = t % d;
        let e: i32 = ea as i32 - eb as i32 + 149 - widen as i32;
        proof {
            Scalar::lemma_quotient_scaled(
                ma as nat,
                ea as nat,
                mb as nat,
                eb as nat,
                widen as nat,
                t as nat,
                e as int,
            );
            lemma_div_nonincreasing(t as int, d as int);
        }
        if rest == 0 {
            proof {
                lemma_fundamental_div_mod(t as int, d as int);
                let n = crate::rounding::scaled_numerator(q as nat, e as int);
                let w = crate::rounding::scaled_denominator(e as int);
                if e < 0 {
                    lemma_pow2_pos((-e) as nat);
                }
                crate::rounding::lemma_nearest_scales(d as nat, n, w);
                assert(d as nat * n == crate::rounding::scaled_numerator(t as nat, e as int)) by {
                    if e >= 0 {
                        let p = pow2(e as nat);
                        assert(d as nat * (q as nat * p) == t as nat * p) by (nonlinear_arith)
                            requires
                                t == d * q,
                        ;
                    } else {
                        assert(d as nat * q as nat == t as nat);
                    }
                }
            }
            round_scaled(q, e)
        } else {
            proof {
                assert(len > 0) by {
                    if len == 0 {
                        assert(t == 0) by (nonlinear_arith)
                            requires
                                t == ma * g,
                                ma == 0,
                        ;
                        lemma_small_mod(0, d as nat);
                    }
                }
                lemma_pow2_adds((len - 1) as nat, widen as nat);
                assert(ma * g >= pow2(61)) by (nonlinear_arith)
                    requires
                        ma >= pow2((len - 1) as nat),
                        g > 0,
                        pow2((len - 1) as nat) * g == pow2(61),
                ;
                lemma_fundamental_div_mod(t as int, d as int);
                assert(q >= 0x200_0000) by (nonlinear_arith)
                    requires
                        t >= 0x2000_0000_0000_0000,
                        t == d * q + rest,
                        rest < d,
                        0 < d < 0x100_0000,
                ;
                assert(q < 0x4000_0000_0000_0000);
                crate::rounding::lemma_sticky(t as nat, d as nat, e as int);
            }
            round_scaled(2 * q + 1, e - 1)
        }
    }

    /// A quotient of split magnitudes as a scaled quotient of whole numbers.
    proof fn lemma_quotient_scaled(
        ma: nat,
        ea: nat,
        mb: nat,
        eb: nat,
        widen: nat,
        t: nat,
        e: int,
    )
        requires
            mb > 0,
            t == ma * pow2(widen),
            e == ea - eb + 149 - widen,
        ensures
            crate::rounding::nearest_magnitude((ma * pow2(ea)) * pow2(149), mb * pow2(eb))
                == crate::rounding::nearest_magnitude(
                crate::rounding::scaled_numerator(t, e),
                mb * crate::rounding::scaled_denominator(e),
            ),
    {
        let a = ea + 149;
        let b = eb + widen;
        let w = pow2(widen);
        lemma_pow2_pos(widen);
        lemma_pow2_pos(eb);
        lemma_pow2_adds(ea, 149);
        lemma_pow2_adds(eb, widen);
        let n = (ma * pow2(ea)) * pow2(149);
        let d = mb * pow2(eb);
        assert(d > 0) by (nonlinear_arith)
            requires
                mb > 0,
                pow2(eb) > 0,
                d == mb * pow2(eb),
        ;
        crate::rounding::lemma_nearest_scales(w, n, d);
        assert(w * n == t * pow2(a)) by (nonlinear_arith)
            requires
                n == (ma * pow2(ea)) * pow2(149),
                pow2(a) == pow2(ea) * pow2(149),
                t == ma * w,
        ;
        assert(w * d == mb * pow2(b)) by (nonlinear_arith)
            requires
                d == mb * pow2(eb),
                pow2(b) == pow2(eb) * w,
        ;
        crate::rounding::lemma_scale_up(t, mb, e, a, b);
    }

    /// The number nearest to `n`.
    pub fn from_u32(n: u32) -> (r: Scalar)
        ensures
            r == Scalar::of_u32(n),
    {
        Scalar::signed(false, round_scaled(n as u64, 149))
    }

    /// The whole part and what is left of it, for a finite magnitude with a
    /// quantum below one.  `rest` is counted in quanta and `one` is one in quanta;
    /// a quantum too fine for `one` to matter leaves the whole part zero.
    fn split_whole(m: u32, e: u32) -> (r: (u64, u64, u64))
        requires
            m < 0x100_0000,
            e < 149,
        ensures
            r.0 == (m * pow2(e as nat)) as int / pow2(149) as int,
            r.1 > 0 <==> (m * pow2(e as nat)) as int % pow2(149) as int > 0,
            2 * r.1 >= r.2 <==> 2 * ((m * pow2(e as nat)) as int % pow2(149) as int) >= pow2(149),
            r.0 < 0x100_0000,
            r.1 < 0x100_0000,
            r.2 <= 0x8000_0000_0000_0000,
    {
        let s: u32 = 149 - e;
        let ghost p = pow2(e as nat);
        let ghost one = pow2(s as nat);
        proof {
            lemma2_to64();
            lemma2_to64_rest();
            lemma_pow2_adds(s as nat, e as nat);
            lemma_pow2_pos(e as nat);
            lemma_pow2_pos(s as nat);
            let q = m as int / one as int;
            let w = m as int % one as int;
            lemma_fundamental_div_mod(m as int, one as int);
            assert(m * p == q * (one * p) + w * p) by (nonlinear_arith)
                requires
                    m == one * q + w,
            ;
            assert(0 <= w * p < one * p) by (nonlinear_arith)
                requires
                    0 <= w < one,
                    p > 0,
            ;
            lemma_fundamental_div_mod_converse((m * p) as int, (one * p) as int, q, w * p);
            assert(w * p > 0 <==> w > 0) by (nonlinear_arith)
                requires
                    p > 0,
            ;
            assert(2 * (w * p) >= one * p <==> 2 * w >= one) by (nonlinear_arith)
                requires
                    p > 0,
            ;
        }
        if s > 63 {
            proof {
                lemma_pow2_strictly_increases(63, s as nat);
                lemma_small_mod(m as nat, one);
                lemma_basic_div(m as int, one as int);
            }
            (0, m as u64, 0x8000_0000_0000_0000)
        } else {
            proof {
                if s < 63 {
                    lemma_pow2_strictly_increases(s as nat, 63);
                }
                lemma_div_nonincreasing(m as int, one as int);
                lemma_mod_decreases(m as nat, one);
            }
            let d: u64 = crate::rounding::power_of_two(s);
            ((m as u64) / d, (m as u64) % d, d)
        }
    }

    /// The whole part, held to the range of 32 unsigned bits; zero for what is
    /// not a number.
    pub fn to_u32(self) -> (r: u32)
        ensures
            r == self.whole_u32(),
    {
        if self.is_nan() || self.is_negative() {
            return 0;
        }
        if self.is_infinite() {
            return u32::MAX;
        }
        let (m, e) = split_magnitude(self.bits);
        if e < 149 {
            Scalar::split_whole(m, e).0 as u32
        } else {
            let left: u32 = e - 149;
            let ghost p = pow2(left as nat);
            proof {
                lemma2_to64();
                lemma_pow2_pos(149);
                lemma_pow2_adds(left as nat, 149);
                assert(self.units() == (m * p) * pow2(149)) by (nonlinear_arith)
                    requires
                        self.units() == m * pow2(e as nat),
                        pow2(e as nat) == p * pow2(149),
                ;
                lemma_div_multiples_vanish((m * p) as int, pow2(149) as int);
                assert((m * p) * pow2(149) == pow2(149) * (m * p)) by (nonlinear_arith);
            }
            if left >= 9 {
                proof {
                    if left > 9 {
                        lemma_pow2_strictly_increases(9, left as nat);
                    }
                    assert(m * p > 0xffff_ffff) by (nonlinear_arith)
                        requires
                            m >= 0x80_0000,
                            p >= 512,
                    ;
                }
                u32::MAX
            } else {
                proof {
                    if left < 9 {
                        lemma_pow2_strictly_increases(left as nat, 9);
                    }
                    assert(m * p <= 0xffff_ffff) by (nonlinear_arith)
                        requires
                            m <= 0xff_ffff,
                            0 <= p <= 256,
                    ;
                }
                ((m as u64) * crate::rounding::power_of_two(left)) as u32
            }
        }
    }

    /// A finite number whose quantum is at least one is whole.
    proof fn lemma_whole(self, m: nat, e: nat)
        requires
            self.finite(),
            self.units() == m * pow2(e),
            0x80_0000 <= m < 0x100_0000,
            149 <= e <= 253,
            self.magnitude() == e * 0x80_0000 + m,
        ensures
            self.units() % pow2(149) == 0,
            Scalar::nearest(self.negative(), (self.units() / pow2(149)) * pow2(149), 1) == self,
    {
        lemma_pow2_pos(149);
        lemma_pow2_adds((e - 149) as nat, 149);
        let w = m * pow2((e - 149) as nat);
        assert(self.units() == w * pow2(149)) by (nonlinear_arith)
            requires
                self.units() == m * pow2(e),
                pow2(e) == pow2((e - 149) as nat) * pow2(149),
                w == m * pow2((e - 149) as nat),
        ;
        lemma_fundamental_div_mod_converse(self.units() as int, pow2(149) as int, w as int, 0);
        lemma_pow2_pos((e - 2) as nat);
        crate::rounding::lemma_absorbed(m, e, 0, self.units());
    }

    /// The least whole number that is not below `self`.
    pub fn ceil(self) -> (r: Scalar)
        ensures
            r == self.rounded_up(),
    {
        if self.is_nan() || self.is_infinite() {
            return self;
        }
        let (m, e) = split_magnitude(self.abs().bits);
        if e >= 149 {
            proof {
                self.lemma_whole(m as nat, e as nat);
            }
            return self;
        }
        let (whole, rest, _) = Scalar::split_whole(m, e);
        let up: u64 = if rest > 0 && !self.is_negative() {
            whole + 1
        } else {
            whole
        };
        Scalar::signed(self.is_negative(), round_scaled(up, 149))
    }

    /// The nearest whole number, halves going away from zero.
    pub fn round(self) -> (r: Scalar)
        ensures
            r == self.rounded(),
    {
        if self.is_nan() || self.is_infinite() {
            return self;
        }
        let (m, e) = split_magnitude(self.abs().bits);
        if e >= 149 {
            proof {
                lemma_pow2_pos(149);
                self.lemma_whole(m as nat, e as nat);
            }
            return self;
        }
        let (whole, rest, one) = Scalar::split_whole(m, e);
        let near: u64 = if rest + rest >= one {
            whole + 1
        } else {
            whole
        };
        Scalar::signed(self.is_negative(), round_scaled(near, 149))
    }
}

/// The order of finite numbers is the order of their values.
pub proof fn law_order_of_values(a: Scalar, b: Scalar)
    requires
        a.finite(),
        b.finite(),
    ensures
        a.below(b) <==> a.value() < b.value(),
        a.at_most(b) <==> a.value() <= b.value(),
        a.same_number(b) <==> a.value() == b.value(),
{
    let x = a.magnitude();
    let y = b.magnitude();
    if x < y {
        crate::rounding::lemma_units_increase(x, y);
    }
    if y < x {
        crate::rounding::lemma_units_increase(y, x);
    }
    if x > 0 {
        crate::rounding::lemma_units_increase(0, x);
    }
    if y > 0 {
        crate::rounding::lemma_units_increase(0, y);
    }
}

/// A sum lies above one of its terms only where the other one is above zero.
pub proof fn law_sum_above(a: Scalar, b: Scalar)
    requires
        a.below(a.sum(b)),
    ensures
        b.positive(),
{
    if !b.positive() && a.finite() && b.finite() {
        let total = a.value() + b.value();
        law_order_of_values(a, Scalar { bits: 0 });
        if total < 0 {
            if a.value() < 0 {
                crate::rounding::lemma_nearest_at_least((-total) as nat, a.magnitude());
            } else {
                crate::rounding::lemma_nearest_at_least((-total) as nat, 0);
            }
        } else if total > 0 {
            crate::rounding::lemma_nearest_at_most(total as nat, a.magnitude());
        }
    }
}

/// The product of two numbers above zero is a number, and not below zero.
pub proof fn law_product_of_positive(a: Scalar, b: Scalar)
    requires
        a.positive(),
        b.positive(),
    ensures
        !a.product(b).not_a_number(),
        !a.product(b).negative(),
{
}

/// The parts of a finite number that has digits after the point: the number of
/// whole units is below `2^23`.
proof fn lemma_small_whole(s: Scalar) -> (r: bool)
    requires
        s.finite(),
    ensures
        r ==> s.units() / pow2(149) < 0x80_0000,
        !r ==> s.units() % pow2(149) == 0 && s.rounded() == s && s.rounded_up() == s,
{
    let (k, q) = crate::rounding::lemma_magnitude_form(s.magnitude());
    lemma_pow2_pos(149);
    if k >= 149 {
        s.lemma_whole(q, k);
        false
    } else {
        lemma2_to64();
        lemma_pow2_pos(k);
        lemma_pow2_adds(23, 149);
        lemma_pow2_adds(24, k);
        lemma_pow2_adds(24, 148);
        if k < 148 {
            lemma_pow2_strictly_increases((24 + k) as nat, 172);
        }
        assert(q * pow2(k) < 0x100_0000 * pow2(k)) by (nonlinear_arith)
            requires
                q < 0x100_0000,
                pow2(k) > 0,
        ;
        assert(s.units() < 0x80_0000 * pow2(149));
        lemma_fundamental_div_mod(s.units() as int, pow2(149) as int);
        assert(s.units() / pow2(149) < 0x80_0000) by (nonlinear_arith)
            requires
                s.units() == pow2(149) * (s.units() / pow2(149)) + s.units() % pow2(149),
                s.units() % pow2(149) >= 0,
                s.units() < 0x80_0000 * pow2(149),
                pow2(149) > 0,
        ;
        true
    }
}

/// What is left after a whole number of `d`s was taken away.
proof fn lemma_whole_remainder(w: nat, d: nat)
    requires
        d > 0,
    ensures
        (w * d) % d == 0,
{
    lemma_fundamental_div_mod_converse((w * d) as int, d as int, w as int, 0);
}

/// Rounding gives a whole number, no more than one half away; one is `2^149`
/// units.
pub proof fn law_rounded_is_whole(s: Scalar)
    requires
        s.finite(),
    ensures
        s.rounded().finite(),
        s.rounded().units() % pow2(149) == 0,
        s.rounded().negative() == s.negative(),
        2 * crate::rounding::distance(s.rounded().units() as int, s.units() as int) <= pow2(149),
{
    lemma_pow2_pos(149);
    if lemma_small_whole(s) {
        let whole = s.units() / pow2(149);
        let rest = s.units() % pow2(149);
        let near: nat = if 2 * rest >= pow2(149) {
            whole + 1
        } else {
            whole
        };
        crate::rounding::lemma_whole_exact(near);
        lemma_whole_remainder(near, pow2(149));
        assert(s.rounded().units() == near * pow2(149));
        lemma_fundamental_div_mod(s.units() as int, pow2(149) as int);
        assert(whole * pow2(149) == pow2(149) * whole) by (nonlinear_arith);
        assert((whole + 1) * pow2(149) == pow2(149) * whole + pow2(149)) by (nonlinear_arith);
    }
}

/// Halves are rounded away from zero, whole numbers stay, and so does what is no finite
/// number.
pub proof fn law_halves_go_away_from_zero(s: Scalar)
    ensures
        s.finite() && 2 * (s.units() % pow2(149)) == pow2(149) ==> s.rounded().units() > s.units(),
        s.finite() && s.units() % pow2(149) == 0 ==> s.rounded() == s && s.rounded_up() == s,
        !s.finite() ==> s.rounded() == s && s.rounded_up() == s,
{
    lemma_pow2_pos(149);
    if s.finite() {
        let whole = s.units() / pow2(149);
        lemma_fundamental_div_mod(s.units() as int, pow2(149) as int);
        assert((whole + 1) * pow2(149) == pow2(149) * whole + pow2(149)) by (nonlinear_arith);
        assert(whole * pow2(149) == pow2(149) * whole) by (nonlinear_arith);
        if lemma_small_whole(s) {
            crate::rounding::lemma_whole_exact(whole + 1);
            if s.units() % pow2(149) == 0 {
                crate::rounding::lemma_nearest_at_most(s.units(), s.magnitude());
                crate::rounding::lemma_nearest_at_least(s.units(), s.magnitude());
            }
        }
    }
}

/// Rounding up gives a whole number that is not below, and less than one above.
pub proof fn law_rounded_up_is_whole(s: Scalar)
    requires
        s.finite(),
    ensures
        s.rounded_up().finite(),
        s.rounded_up().units() % pow2(149) == 0,
        s.value() <= s.rounded_up().value() < s.value() + pow2(149),
{
    lemma_pow2_pos(149);
    if lemma_small_whole(s) {
        let whole = s.units() / pow2(149);
        let rest = s.units() % pow2(149);
        let up: nat = if rest > 0 && !s.negative() {
            whole + 1
        } else {
            whole
        };
        crate::rounding::lemma_whole_exact(up);
        lemma_whole_remainder(up, pow2(149));
        assert(s.rounded_up().units() == up * pow2(149));
        lemma_fundamental_div_mod(s.units() as int, pow2(149) as int);
        assert(whole * pow2(149) == pow2(149) * whole) by (nonlinear_arith);
        assert((whole + 1) * pow2(149) == pow2(149) * whole + pow2(149)) by (nonlinear_arith);
    }
}

impl Double {
    /// Whether the sign bit is set.
    pub open spec fn negative(self) -> bool {
        self.bits >= 0x8000_0000_0000_0000
    }

    /// The bit pattern without the sign.
    pub open spec fn magnitude(self) -> nat {
        if self.negative() {
            (self.bits - 0x8000_0000_0000_0000) as nat
        } else {
            self.bits as nat
        }
    }

    /// The absolute value of a finite number, in units of the smallest
    /// double-precision subnormal.
    pub open spec fn units(self) -> nat {
        let m = self.magnitude();
        if m < 0x10_0000_0000_0000 {
            m
        } else {
            (m % 0x10_0000_0000_0000 + 0x10_0000_0000_0000) * pow2(
                (m / 0x10_0000_0000_0000 - 1) as nat,
            )
        }
    }

    /// The single-precision number nearest to `self`.
    pub open spec fn narrowed(self) -> Scalar {
        if self.magnitude() > 0x7ff0_0000_0000_0000 {
            Scalar::nan()
        } else if self.magnitude() == 0x7ff0_0000_0000_0000 {
            Scalar::infinity(self.negative())
        } else {
            // 2^-149 is 2^925 times 2^-1074.
            Scalar::nearest(self.negative(), self.units(), pow2(925))
        }
    }

    /// The single-precision number nearest to the least whole number that is not
    /// below `self`.
    pub open spec fn rounded_up_narrowed(self) -> Scalar {
        if self.magnitude() > 0x7ff0_0000_0000_0000 {
            Scalar::nan()
        } else if self.magnitude() == 0x7ff0_0000_0000_0000 {
            Scalar::infinity(self.negative())
        } else {
            let whole = self.units() / pow2(1074);
            let rest = self.units() % pow2(1074);
            Scalar::nearest(
                self.negative(),
                (if rest > 0 && !self.negative() {
                    whole + 1
                } else {
                    whole
                }) * pow2(149),
                1,
            )
        }
    }

    /// The single-precision number nearest to the least whole number that is not
    /// below `self`.
    pub fn ceil_to_scalar(self) -> (r: Scalar)
        ensures
            r == self.rounded_up_narrowed(),
    {
        let negative: bool = self.bits >= 0x8000_0000_0000_0000;
        let magnitude: u64 = if negative {
            self.bits - 0x8000_0000_0000_0000
        } else {
            self.bits
        };
        if magnitude >= 0x7ff0_0000_0000_0000 {
            return self.to_scalar();
        }
        let m: u64 = if magnitude < 0x10_0000_0000_0000 {
            magnitude
        } else {
            magnitude % 0x10_0000_0000_0000 + 0x10_0000_0000_0000
        };
        let e: u64 = if magnitude < 0x10_0000_0000_0000 {
            0
        } else {
            magnitude / 0x10_0000_0000_0000 - 1
        };
        let ghost p = pow2(e as nat);
        proof {
            lemma2_to64();
            lemma2_to64_rest();
            lemma_mul_basics(m as int);
            assert(self.units() == m * p);
        }
        if e >= 1074 {
            proof {
                let w: nat = (m as nat) * pow2((e - 1074) as nat);
                lemma_pow2_adds((e - 1074) as nat, 1074);
                lemma_pow2_adds(149, 925);
                lemma_pow2_pos(1074);
                lemma_pow2_pos(925);
                assert(self.units() == w * pow2(1074)) by (nonlinear_arith)
                    requires
                        self.units() == m * p,
                        p == pow2((e - 1074) as nat) * pow2(1074),
                        w == m * pow2((e - 1074) as nat),
                ;
                lemma_fundamental_div_mod_converse(
                    self.units() as int,
                    pow2(1074) as int,
                    w as int,
                    0,
                );
                crate::rounding::lemma_nearest_scales(pow2(925), w * pow2(149), 1);
                assert(pow2(925) * (w * pow2(149)) == self.units()) by (nonlinear_arith)
                    requires
                        self.units() == w * pow2(1074),
                        pow2(1074) == pow2(149) * pow2(925),
                ;
                lemma_mul_basics(pow2(925) as int);
            }
            return self.to_scalar();
        }
        let s: u64 = 1074 - e;
        let ghost one = pow2(s as nat);
        proof {
            lemma_pow2_adds(s as nat, e as nat);
            lemma_pow2_pos(e as nat);
            lemma_pow2_pos(s as nat);
            let q = m as int / one as int;
            let w = m as int % one as int;
            lemma_fundamental_div_mod(m as int, one as int);
            assert(m * p == q * (one * p) + w * p) by (nonlinear_arith)
                requires
                    m == one * q + w,
            ;
            assert(0 <= w * p < one * p) by (nonlinear_arith)
                requires
                    0 <= w < one,
                    p > 0,
            ;
            lemma_fundamental_div_mod_converse((m * p) as int, (one * p) as int, q, w * p);
            assert(w * p > 0 <==> w > 0) by (nonlinear_arith)
                requires
                    p > 0,
            ;
        }
        let (whole, rest): (u64, u64) = if s > 63 {
            proof {
                lemma_pow2_strictly_increases(63, s as nat);
                lemma_small_mod(m as nat, one);
                lemma_basic_div(m as int, one as int);
            }
            (0, m)
        } else {
            proof {
                if s < 63 {
                    lemma_pow2_strictly_increases(s as nat, 63);
                }
                lemma_div_nonincreasing(m as int, one as int);
            }
            let d: u64 = crate::rounding::power_of_two(s as u32);
            (m / d, m % d)
        };
        let up: u64 = if rest > 0 && !negative {
            whole + 1
        } else {
            whole
        };
        Scalar::signed(negative, round_scaled(up, 149))
    }

    /// The single-precision number nearest to `self`.
    pub fn to_scalar(self) -> (r: Scalar)
        ensures
            r == self.narrowed(),
    {
        let negative: bool = self.bits >= 0x8000_0000_0000_0000;
        let magnitude: u64 = if negative {
            self.bits - 0x8000_0000_0000_0000
        } else {
            self.bits
        };
        if magnitude > 0x7ff0_0000_0000_0000 {
            return Scalar { bits: NAN_BITS };
        }
        if magnitude == 0x7ff0_0000_0000_0000 {
            return Scalar::signed(negative, INFINITE_MAGNITUDE);
        }
        let m: u64 = if magnitude < 0x10_0000_0000_0000 {
            magnitude
        } else {
            magnitude % 0x10_0000_0000_0000 + 0x10_0000_0000_0000
        };
        let e: u64 = if magnitude < 0x10_0000_0000_0000 {
            0
        } else {
            magnitude / 0x10_0000_0000_0000 - 1
        };
        let exponent: i32 = e as i32 - 925;
        proof {
            lemma2_to64();
            lemma_mul_basics(m as int);
            crate::rounding::lemma_scale_up(m as nat, 1, exponent as int, e as nat, 925);
            lemma_mul_basics(pow2(925) as int);
            lemma_mul_basics(crate::rounding::scaled_denominator(exponent as int) as int);
        }
        Scalar::signed(negative, round_scaled(m, exponent))
    }
}

} // verus!
