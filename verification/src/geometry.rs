//! Points, sizes, rectangles and corner radii over [`Scalar`].
//!
//! Logical and physical pixels share these types; the names below say which of
//! the two a field or parameter is in.
use crate::scalar::{Scalar, TWO_BITS};
use vstd::prelude::*;

verus! {

/// Bit pattern of the tolerance up to which two radii count as equal: two to the
/// power of minus 23, the distance from one to the next larger number.
pub const RADIUS_TOLERANCE_BITS: u32 = 0x3400_0000;

#[derive(Clone, Copy, Debug, PartialEq, Eq, Structural)]
pub struct Point {
    pub x: Scalar,
    pub y: Scalar,
}

#[derive(Clone, Copy, Debug, PartialEq, Eq, Structural)]
pub struct Vector {
    pub x: Scalar,
    pub y: Scalar,
}

#[derive(Clone, Copy, Debug, PartialEq, Eq, Structural)]
pub struct Size {
    pub width: Scalar,
    pub height: Scalar,
}

#[derive(Clone, Copy, Debug, PartialEq, Eq, Structural)]
pub struct Rect {
    pub origin: Point,
    pub size: Size,
}

/// The four corner radii of a rounded rectangle.
#[derive(Clone, Copy, Debug, PartialEq, Eq, Structural)]
pub struct BorderRadius {
    pub top_left: Scalar,
    pub top_right: Scalar,
    pub bottom_right: Scalar,
    pub bottom_left: Scalar,
}

/// Lengths, points and rectangles of draw commands, in physical pixels.
pub type PhysicalLength = Scalar;

pub type PhysicalPoint = Point;

pub type PhysicalSize = Size;

pub type PhysicalRect = Rect;

pub type PhysicalBorderRadius = BorderRadius;

/// Points, sizes and rectangles of the item tree, in logical pixels.
pub type LogicalPoint = Point;

pub type LogicalVector = Vector;

pub type LogicalSize = Size;

pub type LogicalRect = Rect;

pub type LogicalBorderRadius = BorderRadius;

/// The lesser of two numbers; the second where they do not compare.
pub open spec fn lesser(a: Scalar, b: Scalar) -> Scalar {
    if a.at_most(b) {
        a
    } else {
        b
    }
}

/// The greater of two numbers; the second where they do not compare.
pub open spec fn greater(a: Scalar, b: Scalar) -> Scalar {
    if b.at_most(a) {
        a
    } else {
        b
    }
}

pub fn lesser_of(a: Scalar, b: Scalar) -> (r: Scalar)
    ensures
        r == lesser(a, b),
{
    if a.less_or_equal(b) {
        a
    } else {
        b
    }
}

pub fn greater_of(a: Scalar, b: Scalar) -> (r: Scalar)
    ensures
        r == greater(a, b),
{
    if b.less_or_equal(a) {
        a
    } else {
        b
    }
}

impl Point {
    pub open spec fn spec_origin() -> Point {
        Point { x: Scalar { bits: 0 }, y: Scalar { bits: 0 } }
    }

    /// The point at zero.
    pub fn origin() -> (r: Point)
        ensures
            r == Point::spec_origin(),
    {
        Point { x: Scalar { bits: 0 }, y: Scalar { bits: 0 } }
    }
}

impl Size {
    /// Both sides multiplied by `factor`.
    pub open spec fn magnified(self, factor: Scalar) -> Size {
        Size { width: self.width.product(factor), height: self.height.product(factor) }
    }

    /// Whether the size covers nothing: a side is not above zero.
    pub open spec fn covers_nothing(self) -> bool {
        !(self.width.positive() && self.height.positive())
    }

    pub fn scaled(self, factor: Scalar) -> (r: Size)
        ensures
            r == self.magnified(factor),
    {
        Size { width: self.width.times(factor), height: self.height.times(factor) }
    }

    pub fn is_empty(self) -> (r: bool)
        ensures
            r == self.covers_nothing(),
    {
        !(self.width.is_positive() && self.height.is_positive())
    }
}

impl Vector {
    pub open spec fn magnified(self, factor: Scalar) -> Vector {
        Vector { x: self.x.product(factor), y: self.y.product(factor) }
    }

    pub fn scaled(self, factor: Scalar) -> (r: Vector)
        ensures
            r == self.magnified(factor),
    {
        Vector { x: self.x.times(factor), y: self.y.times(factor) }
    }
}

impl Rect {
    /// The rectangle of the given size at the origin.
    pub open spec fn at_origin(size: Size) -> Rect {
        Rect { origin: Point::spec_origin(), size }
    }

    /// The rectangle without extent at the origin.
    pub open spec fn spec_nothing() -> Rect {
        Rect::at_origin(Size { width: Scalar { bits: 0 }, height: Scalar { bits: 0 } })
    }

    pub open spec fn right(self) -> Scalar {
        self.origin.x.sum(self.size.width)
    }

    pub open spec fn bottom(self) -> Scalar {
        self.origin.y.sum(self.size.height)
    }

    /// Whether the point lies inside; the left and top edges belong to the
    /// rectangle, the right and bottom edges do not.
    pub open spec fn covers(self, p: Point) -> bool {
        &&& self.origin.x.at_most(p.x)
        &&& p.x.below(self.right())
        &&& self.origin.y.at_most(p.y)
        &&& p.y.below(self.bottom())
    }

    /// Whether the two rectangles overlap.
    pub open spec fn overlaps(self, other: Rect) -> bool {
        &&& self.origin.x.below(other.right())
        &&& other.origin.x.below(self.right())
        &&& self.origin.y.below(other.bottom())
        &&& other.origin.y.below(self.bottom())
    }

    /// What both rectangles cover, or `None` where that is nothing.
    pub open spec fn common(self, other: Rect) -> Option<Rect> {
        let left = greater(self.origin.x, other.origin.x);
        let top = greater(self.origin.y, other.origin.y);
        let right = lesser(self.right(), other.right());
        let bottom = lesser(self.bottom(), other.bottom());
        if left.below(right) && top.below(bottom) {
            Some(
                Rect {
                    origin: Point { x: left, y: top },
                    size: Size { width: right.difference(left), height: bottom.difference(top) },
                },
            )
        } else {
            None
        }
    }

    pub open spec fn moved(self, by: Vector) -> Rect {
        Rect {
            origin: Point { x: self.origin.x.sum(by.x), y: self.origin.y.sum(by.y) },
            size: self.size,
        }
    }

    pub open spec fn magnified(self, factor: Scalar) -> Rect {
        Rect {
            origin: Point {
                x: self.origin.x.product(factor),
                y: self.origin.y.product(factor),
            },
            size: self.size.magnified(factor),
        }
    }

    pub open spec fn middle(self) -> Point {
        let two = Scalar { bits: TWO_BITS };
        Point {
            x: self.origin.x.sum(self.size.width.quotient(two)),
            y: self.origin.y.sum(self.size.height.quotient(two)),
        }
    }

    /// The corner at the right and the bottom; it does not belong to the rectangle.
    pub open spec fn far_corner(self) -> Point {
        Point { x: self.right(), y: self.bottom() }
    }

    /// Width times height.
    pub open spec fn extent(self) -> Scalar {
        self.size.width.product(self.size.height)
    }

    /// The rectangle of the given size at the origin.
    pub fn from_size(size: Size) -> (r: Rect)
        ensures
            r == Rect::at_origin(size),
    {
        Rect { origin: Point::origin(), size }
    }

    /// The rectangle without extent at the origin.
    pub fn nothing() -> (r: Rect)
        ensures
            r == Rect::spec_nothing(),
    {
        Rect::from_size(Size { width: Scalar { bits: 0 }, height: Scalar { bits: 0 } })
    }

    pub fn max_x(self) -> (r: Scalar)
        ensures
            r == self.right(),
    {
        self.origin.x.plus(self.size.width)
    }

    pub fn max_y(self) -> (r: Scalar)
        ensures
            r == self.bottom(),
    {
        self.origin.y.plus(self.size.height)
    }

    pub fn contains(self, p: Point) -> (r: bool)
        ensures
            r == self.covers(p),
    {
        self.origin.x.less_or_equal(p.x) && p.x.less_than(self.max_x())
            && self.origin.y.less_or_equal(p.y) && p.y.less_than(self.max_y())
    }

    pub fn intersects(self, other: Rect) -> (r: bool)
        ensures
            r == self.overlaps(other),
    {
        self.origin.x.less_than(other.max_x()) && other.origin.x.less_than(self.max_x())
            && self.origin.y.less_than(other.max_y()) && other.origin.y.less_than(self.max_y())
    }

    pub fn intersection(self, other: Rect) -> (r: Option<Rect>)
        ensures
            r == self.common(other),
    {
        let left: Scalar = greater_of(self.origin.x, other.origin.x);
        let top: Scalar = greater_of(self.origin.y, other.origin.y);
        let right: Scalar = lesser_of(self.max_x(), other.max_x());
        let bottom: Scalar = lesser_of(self.max_y(), other.max_y());
        if left.less_than(right) && top.less_than(bottom) {
            Some(
                Rect {
                    origin: Point { x: left, y: top },
                    size: Size { width: right.minus(left), height: bottom.minus(top) },
                },
            )
        } else {
            None
        }
    }

    pub fn translated(self, by: Vector) -> (r: Rect)
        ensures
            r == self.moved(by),
    {
        Rect {
            origin: Point { x: self.origin.x.plus(by.x), y: self.origin.y.plus(by.y) },
            size: self.size,
        }
    }

    pub fn scaled(self, factor: Scalar) -> (r: Rect)
        ensures
            r == self.magnified(factor),
    {
        Rect {
            origin: Point { x: self.origin.x.times(factor), y: self.origin.y.times(factor) },
            size: self.size.scaled(factor),
        }
    }

    /// The point in the middle of the rectangle.
    pub fn center(self) -> (r: Point)
        ensures
            r == self.middle(),
    {
        let two: Scalar = Scalar { bits: TWO_BITS };
        Point {
            x: self.origin.x.plus(self.size.width.over(two)),
            y: self.origin.y.plus(self.size.height.over(two)),
        }
    }

    /// The corner at the right and the bottom; it does not belong to the rectangle.
    pub fn corner_outside(self) -> (r: Point)
        ensures
            r == self.far_corner(),
            !self.covers(r),
    {
        Point { x: self.max_x(), y: self.max_y() }
    }

    /// Width times height.
    pub fn area(self) -> (r: Scalar)
        ensures
            r == self.extent(),
    {
        self.size.width.times(self.size.height)
    }
}

/// A rectangle that covers a point has sides above zero, and its area is a number.
pub proof fn law_covering_rectangle_has_area(r: Rect, p: Point)
    requires
        r.covers(p),
    ensures
        r.size.width.positive(),
        r.size.height.positive(),
        !r.extent().not_a_number(),
{
    crate::scalar::law_sum_above(r.origin.x, r.size.width);
    crate::scalar::law_sum_above(r.origin.y, r.size.height);
    crate::scalar::law_product_of_positive(r.size.width, r.size.height);
}

/// Whether two radii differ by no more than the tolerance.
pub open spec fn radii_close(a: Scalar, b: Scalar) -> bool {
    a.difference(b).absolute().at_most(Scalar { bits: RADIUS_TOLERANCE_BITS })
}

fn are_radii_close(a: Scalar, b: Scalar) -> (r: bool)
    ensures
        r == radii_close(a, b),
{
    a.minus(b).abs().less_or_equal(Scalar { bits: RADIUS_TOLERANCE_BITS })
}

impl BorderRadius {
    /// The one radius of all corners, where they are close to each other.
    pub open spec fn uniform(self) -> Option<Scalar> {
        if radii_close(self.top_left, self.top_right) && radii_close(
            self.top_left,
            self.bottom_right,
        ) && radii_close(self.top_left, self.bottom_left) {
            Some(self.top_left)
        } else {
            None
        }
    }

    /// Whether every corner is square, within the tolerance.
    pub open spec fn square(self) -> bool {
        let zero = Scalar { bits: 0 };
        &&& radii_close(self.top_left, zero)
        &&& radii_close(self.top_right, zero)
        &&& radii_close(self.bottom_right, zero)
        &&& radii_close(self.bottom_left, zero)
    }

    pub fn as_uniform(self) -> (r: Option<Scalar>)
        ensures
            r == self.uniform(),
    {
        if are_radii_close(self.top_left, self.top_right) && are_radii_close(
            self.top_left,
            self.bottom_right,
        ) && are_radii_close(self.top_left, self.bottom_left) {
            Some(self.top_left)
        } else {
            None
        }
    }

    pub fn is_zero(self) -> (r: bool)
        ensures
            r == self.square(),
    {
        let zero: Scalar = Scalar { bits: 0 };
        are_radii_close(self.top_left, zero) && are_radii_close(self.top_right, zero)
            && are_radii_close(self.bottom_right, zero) && are_radii_close(self.bottom_left, zero)
    }
}

} // verus!
