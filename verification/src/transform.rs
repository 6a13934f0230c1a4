//! Where what is drawn lies on the screen.
//!
//! A [`Transform`] maps the coordinates that an item draws in to those of the
//! window.  Both are logical pixels.
use crate::geometry::{Point, Rect, Size, Vector};
use crate::scalar::{Scalar, ONE_BITS};
use vstd::arithmetic::power2::*;
use vstd::prelude::*;

verus! {

/// Maps the point `(p, q)` to `(a * p + c * q + x, b * p + d * q + y)`.
#[derive(Clone, Copy, Debug, PartialEq, Eq, Structural)]
pub struct Transform {
    pub a: Scalar,
    pub b: Scalar,
    pub c: Scalar,
    pub d: Scalar,
    pub x: Scalar,
    pub y: Scalar,
}

impl Transform {
    /// The transform that leaves every point where it is.
    pub open spec fn unmoved() -> Transform {
        let zero = Scalar { bits: 0 };
        let one = Scalar { bits: ONE_BITS };
        Transform { a: one, b: zero, c: zero, d: one, x: zero, y: zero }
    }

    /// After the origin moved.
    pub open spec fn moved(self, by: Vector) -> Transform {
        Transform {
            x: self.a.product(by.x).sum(self.c.product(by.y)).sum(self.x),
            y: self.b.product(by.x).sum(self.d.product(by.y)).sum(self.y),
            ..self
        }
    }

    /// After a rotation about the origin, by the angle of this sine and cosine.
    pub open spec fn turned(self, sin: Scalar, cos: Scalar) -> Transform {
        Transform {
            a: self.a.product(cos).sum(self.c.product(sin)),
            b: self.b.product(cos).sum(self.d.product(sin)),
            c: self.c.product(cos).difference(self.a.product(sin)),
            d: self.d.product(cos).difference(self.b.product(sin)),
            ..self
        }
    }

    /// After both axes were scaled.
    pub open spec fn stretched(self, scale_x: Scalar, scale_y: Scalar) -> Transform {
        Transform {
            a: self.a.product(scale_x),
            b: self.b.product(scale_x),
            c: self.c.product(scale_y),
            d: self.d.product(scale_y),
            ..self
        }
    }

    /// Where a rectangle of this size at the origin lies: the upright rectangle
    /// around its four corners.
    pub open spec fn region(self, size: Size) -> Rect {
        let zero = Scalar { bits: 0 };
        let (ax, ay) = (self.a.product(size.width), self.b.product(size.width));
        let (bx, by) = (self.c.product(size.height), self.d.product(size.height));
        let left = crate::encoder::least_of(zero, ax, bx, ax.sum(bx));
        let top = crate::encoder::least_of(zero, ay, by, ay.sum(by));
        let right = crate::encoder::greatest_of(zero, ax, bx, ax.sum(bx));
        let bottom = crate::encoder::greatest_of(zero, ay, by, ay.sum(by));
        Rect {
            origin: Point { x: left.sum(self.x), y: top.sum(self.y) },
            size: Size { width: right.difference(left), height: bottom.difference(top) },
        }
    }

    /// Whether the transform does nothing but move.
    pub open spec fn only_moves(self) -> bool {
        self == Transform { x: self.x, y: self.y, ..Transform::unmoved() }
    }

    /// The transform that leaves every point where it is.
    pub fn identity() -> (r: Transform)
        ensures
            r == Transform::unmoved(),
    {
        let zero: Scalar = Scalar { bits: 0 };
        let one: Scalar = Scalar { bits: ONE_BITS };
        Transform { a: one, b: zero, c: zero, d: one, x: zero, y: zero }
    }

    /// Move the origin.
    pub fn translate(self, by: Vector) -> (r: Transform)
        ensures
            r == self.moved(by),
    {
        Transform {
            x: self.a.times(by.x).plus(self.c.times(by.y)).plus(self.x),
            y: self.b.times(by.x).plus(self.d.times(by.y)).plus(self.y),
            ..self
        }
    }

    /// Rotate about the origin.
    pub fn rotate(self, sin: Scalar, cos: Scalar) -> (r: Transform)
        ensures
            r == self.turned(sin, cos),
    {
        Transform {
            a: self.a.times(cos).plus(self.c.times(sin)),
            b: self.b.times(cos).plus(self.d.times(sin)),
            c: self.c.times(cos).minus(self.a.times(sin)),
            d: self.d.times(cos).minus(self.b.times(sin)),
            ..self
        }
    }

    /// Scale both axes.
    pub fn scale(self, scale_x: Scalar, scale_y: Scalar) -> (r: Transform)
        ensures
            r == self.stretched(scale_x, scale_y),
    {
        Transform {
            a: self.a.times(scale_x),
            b: self.b.times(scale_x),
            c: self.c.times(scale_y),
            d: self.d.times(scale_y),
            ..self
        }
    }

    /// Where a rectangle of this size at the origin lies.
    pub fn region_of(self, size: Size) -> (r: Rect)
        ensures
            r == self.region(size),
    {
        let zero: Scalar = Scalar { bits: 0 };
        let ax: Scalar = self.a.times(size.width);
        let ay: Scalar = self.b.times(size.width);
        let bx: Scalar = self.c.times(size.height);
        let by: Scalar = self.d.times(size.height);
        let left: Scalar = crate::encoder::min_of_four(zero, ax, bx, ax.plus(bx));
        let top: Scalar = crate::encoder::min_of_four(zero, ay, by, ay.plus(by));
        let right: Scalar = crate::encoder::max_of_four(zero, ax, bx, ax.plus(bx));
        let bottom: Scalar = crate::encoder::max_of_four(zero, ay, by, ay.plus(by));
        Rect {
            origin: Point { x: left.plus(self.x), y: top.plus(self.y) },
            size: Size { width: right.minus(left), height: bottom.minus(top) },
        }
    }
}

/// The product with one, and the sum with zero, of a finite number is the number.
pub proof fn lemma_neutral(s: Scalar, zero: Scalar)
    requires
        s.finite(),
        zero.zero_valued(),
    ensures
        (Scalar { bits: ONE_BITS }).product(s) == s,
        zero.product(s).zero_valued(),
        s.sum(zero).same_number(s),
        zero.sum(s).same_number(s),
        !s.zero_valued() ==> s.sum(zero) == s && zero.sum(s) == s,
{
    let one = Scalar { bits: ONE_BITS };
    crate::rounding::lemma_nearest_at_most(s.units(), s.magnitude());
    crate::rounding::lemma_nearest_at_least(s.units(), s.magnitude());
    crate::rounding::lemma_nearest_at_most(0, 0);
    lemma_pow2_pos(149);
    assert(one.units() == pow2(149)) by {
        lemma2_to64();
        lemma_pow2_adds(23, 126);
        assert(one.magnitude() / 0x80_0000 == 127 && one.magnitude() % 0x80_0000 == 0);
    }
    crate::rounding::lemma_nearest_scales(pow2(149), s.units(), 1);
    crate::rounding::lemma_nearest_scales(pow2(149), 0, 1);
    let none = zero.units() * s.units();
    assert(none == 0 && none == pow2(149) * 0) by (nonlinear_arith)
        requires
            none == zero.units() * s.units(),
            zero.units() == 0,
    ;
}

/// Where nothing but the origin was moved, what is drawn lies on the screen where
/// the moves add up to, at its own size.
pub proof fn law_moved_region(t: Transform, by: Vector, size: Size)
    requires
        t.only_moves(),
        t.x.finite(),
        t.y.finite(),
        by.x.finite(),
        by.y.finite(),
        size.width.finite() && size.width.positive(),
        size.height.finite() && size.height.positive(),
    ensures
        t.moved(by).only_moves(),
        t.moved(by).x.same_number(by.x.sum(t.x)),
        t.moved(by).y.same_number(by.y.sum(t.y)),
        t.region(size).size == size,
        t.region(size).origin.x.same_number(t.x),
        t.region(size).origin.y.same_number(t.y),
{
    let zero = Scalar { bits: 0 };
    lemma_neutral(t.x, zero);
    lemma_neutral(t.y, zero);
    lemma_neutral(by.x, zero);
    lemma_neutral(by.y, zero);
    lemma_neutral(by.x, zero.product(by.y));
    lemma_neutral(by.y, zero.product(by.x));
    if by.x.zero_valued() {
        lemma_neutral(t.x, by.x);
        lemma_neutral(t.x, t.a.product(by.x).sum(t.c.product(by.y)));
    }
    if by.y.zero_valued() {
        lemma_neutral(t.y, by.y);
        lemma_neutral(t.y, t.b.product(by.x).sum(t.d.product(by.y)));
    }
    lemma_neutral(size.width, zero);
    lemma_neutral(size.height, zero);
    lemma_neutral(size.width, zero.opposite());
    lemma_neutral(size.height, zero.opposite());
    lemma_neutral(size.width, zero.product(size.height));
    lemma_neutral(size.height, zero.product(size.width));
}

} // verus!
