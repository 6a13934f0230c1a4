//! What rectangles cover, by their edges.
use crate::geometry::{BorderRadius, Point, Rect, Size, Vector};
use crate::scalar::Scalar;
use vstd::prelude::*;

verus! {

/// A point is covered from the left and the top edge on, and before the right and the
/// bottom edge; the far corner is not.
pub proof fn law_rectangle_covers_between_its_edges(r: Rect, p: Point)
    ensures
        r.covers(p) <==> {
            &&& r.origin.x.at_most(p.x) && p.x.below(r.origin.x.sum(r.size.width))
            &&& r.origin.y.at_most(p.y) && p.y.below(r.origin.y.sum(r.size.height))
        },
        r.right() == r.origin.x.sum(r.size.width),
        r.bottom() == r.origin.y.sum(r.size.height),
        r.far_corner().x == r.right() && r.far_corner().y == r.bottom(),
        !r.covers(r.far_corner()),
{
}

/// Two rectangles overlap, each the other, where each begins before the other ends, on
/// both axes; two that cover one point do.
pub proof fn law_overlap_is_mutual(a: Rect, b: Rect, p: Point)
    ensures
        a.overlaps(b) == b.overlaps(a),
        a.overlaps(b) <==> {
            &&& a.origin.x.below(b.origin.x.sum(b.size.width))
            &&& b.origin.x.below(a.origin.x.sum(a.size.width))
            &&& a.origin.y.below(b.origin.y.sum(b.size.height))
            &&& b.origin.y.below(a.origin.y.sum(a.size.height))
        },
        a.covers(p) && b.covers(p) ==> a.overlaps(b) && a.common(b) is Some,
{
}

/// What two rectangles have in common begins at the later of their left and of their top
/// edges, and its sides reach from there to the earlier of their right and of their bottom
/// edges.  It is something only where it has an inside.
pub proof fn law_common_part_lies_in_both(a: Rect, b: Rect)
    ensures
        a.common(b) matches Some(c) ==> {
            &&& crate::state_laws::overlap(
                c.origin.x,
                c.size.width,
                a.origin.x,
                a.size.width,
                b.origin.x,
                b.size.width,
            )
            &&& crate::state_laws::overlap(
                c.origin.y,
                c.size.height,
                a.origin.y,
                a.size.height,
                b.origin.y,
                b.size.height,
            )
        },
{
    if let Some(c) = a.common(b) {
        let right = crate::geometry::lesser(a.right(), b.right());
        let bottom = crate::geometry::lesser(a.bottom(), b.bottom());
        assert(crate::state_laws::earlier(
            right,
            a.origin.x.sum(a.size.width),
            b.origin.x.sum(b.size.width),
        ));
        assert(crate::state_laws::earlier(
            bottom,
            a.origin.y.sum(a.size.height),
            b.origin.y.sum(b.size.height),
        ));
    }
}

/// A rectangle that is moved moves its left edge across and its top edge down and keeps
/// its sides; one that is magnified has its edges and its sides multiplied.
pub proof fn law_moved_and_magnified(r: Rect, by: Vector, factor: Scalar)
    ensures
        r.moved(by).origin.x == r.origin.x.sum(by.x),
        r.moved(by).origin.y == r.origin.y.sum(by.y),
        r.moved(by).size.width == r.size.width,
        r.moved(by).size.height == r.size.height,
        r.magnified(factor).origin.x == r.origin.x.product(factor),
        r.magnified(factor).origin.y == r.origin.y.product(factor),
        r.magnified(factor).size.width == r.size.width.product(factor),
        r.magnified(factor).size.height == r.size.height.product(factor),
        r.size.magnified(factor).width == r.size.width.product(factor),
        r.size.magnified(factor).height == r.size.height.product(factor),
        by.magnified(factor).x == by.x.product(factor),
        by.magnified(factor).y == by.y.product(factor),
{
}

/// The middle is half a side from the left and from the top edge, and the area is the
/// product of the sides.
pub proof fn law_middle_and_area(r: Rect)
    ensures
        crate::message_laws::is_middle(r, r.middle()),
        crate::message_laws::is_far_corner(r, r.far_corner()),
        r.extent() == r.size.width.product(r.size.height),
{
}

/// A size covers something exactly where both of its sides are above zero; the rectangle
/// of a size lies at the origin, and the one without extent covers no point.
pub proof fn law_rectangle_of_a_size(size: Size, p: Point)
    ensures
        size.covers_nothing() <==> !(Scalar { bits: 0 }).below(size.width) || !(Scalar {
            bits: 0,
        }).below(size.height),
        Rect::at_origin(size).origin.x.bits == 0,
        Rect::at_origin(size).origin.y.bits == 0,
        Rect::at_origin(size).size == size,
        !Rect::spec_nothing().covers(p),
        Rect::spec_nothing().size.covers_nothing(),
{
    let zero = Scalar { bits: 0 };
    assert(zero.sum(zero) == zero);
}

/// Corners count as one radius, that of the top left one, exactly where each of the others
/// differs from it by no more than the distance from one to the next number; they count as
/// square exactly where each differs from zero by no more.
pub proof fn law_uniform_corners(c: BorderRadius)
    ensures
        ({
            let limit = Scalar { bits: 0x3400_0000 };
            let zero = Scalar { bits: 0 };
            let even = c.top_left.difference(c.top_right).absolute().at_most(limit)
                && c.top_left.difference(c.bottom_right).absolute().at_most(limit)
                && c.top_left.difference(c.bottom_left).absolute().at_most(limit);
            &&& c.uniform() == if even {
                Some(c.top_left)
            } else {
                None
            }
            &&& c.square() <==> {
                &&& c.top_left.difference(zero).absolute().at_most(limit)
                &&& c.top_right.difference(zero).absolute().at_most(limit)
                &&& c.bottom_right.difference(zero).absolute().at_most(limit)
                &&& c.bottom_left.difference(zero).absolute().at_most(limit)
            }
        }),
{
}

} // verus!
