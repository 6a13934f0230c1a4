//! Brushes resolved against the shape they fill, and their paints.
use crate::geometry::PhysicalPoint;
use crate::scalar::Scalar;
use crate::scene::{
    color_to_u8_array, Color, GradientStop, LineCapDesc, LineJoinDesc, PaintDesc, PaintModel,
    StopModel,
};
use vstd::prelude::*;

verus! {

/// A colour stop of a resolved gradient.
#[derive(Clone, Copy, Debug, PartialEq, Eq, Structural)]
pub struct ResolvedStop {
    pub position: Scalar,
    pub color: Color,
}

/// A brush resolved against the shape it fills, in physical pixels.
#[allow(inconsistent_fields)]
#[derive(Debug)]
pub enum ResolvedBrush {
    SolidColor(Color),
    LinearGradient { start: PhysicalPoint, end: PhysicalPoint, stops: Vec<ResolvedStop> },
    RadialGradient { center: PhysicalPoint, radius: Scalar, stops: Vec<ResolvedStop> },
    ConicGradient { center: PhysicalPoint, stops: Vec<ResolvedStop> },
}

/// Line caps of the item tree.
#[derive(Clone, Copy, Debug, PartialEq, Eq, Structural)]
pub enum LineCap {
    Butt,
    Round,
    Square,
    /// A style that the protocol does not know.
    Other,
}

/// Line joins of the item tree.
#[derive(Clone, Copy, Debug, PartialEq, Eq, Structural)]
pub enum LineJoin {
    Miter,
    Round,
    Bevel,
    /// A style that the protocol does not know.
    Other,
}

/// The paint that stands for one colour.
pub open spec fn solid(c: Color) -> PaintModel {
    PaintModel::Solid { r: c.red, g: c.green, b: c.blue, a: c.alpha }
}

/// The stops of a gradient, in the order they were resolved in.
pub open spec fn gradient_stops(stops: Seq<ResolvedStop>) -> Seq<StopModel> {
    stops.map_values(
        |s: ResolvedStop| StopModel { offset: s.position, color: s.color.channels() },
    )
}

impl ResolvedBrush {
    /// The paint of the brush.  A conic gradient has none of its own: it is
    /// painted with its first colour, transparent black when it has no stop.
    pub open spec fn paint(self) -> PaintModel {
        match self {
            ResolvedBrush::SolidColor(c) => solid(c),
            ResolvedBrush::LinearGradient { start, end, stops } => PaintModel::LinearGradient {
                start_x: start.x,
                start_y: start.y,
                end_x: end.x,
                end_y: end.y,
                stops: gradient_stops(stops@),
            },
            ResolvedBrush::RadialGradient { center, radius, stops } => PaintModel::RadialGradient {
                cx: center.x,
                cy: center.y,
                radius,
                stops: gradient_stops(stops@),
            },
            ResolvedBrush::ConicGradient { center, stops } => if stops@.len() > 0 {
                solid(stops@[0].color)
            } else {
                PaintModel::Solid { r: 0, g: 0, b: 0, a: 0 }
            },
        }
    }
}

/// The paint of a brush that may be fully transparent.
pub open spec fn optional_paint(brush: Option<ResolvedBrush>) -> Option<PaintModel> {
    match brush {
        Some(b) => Some(b.paint()),
        None => None,
    }
}

/// The stops of a gradient as the protocol carries them.
pub fn stops_to_gradient_stops(stops: &Vec<ResolvedStop>) -> (r: Vec<GradientStop>)
    ensures
        crate::scene::stop_models(r@) == gradient_stops(stops@),
{
    let mut r: Vec<GradientStop> = Vec::new();
    let mut i: usize = 0;
    while i < stops.len()
        invariant
            i <= stops.len(),
            r.len() == i,
            forall|j: int|
                0 <= j < i ==> (#[trigger] r@[j]).model() == (StopModel {
                    offset: stops@[j].position,
                    color: stops@[j].color.channels(),
                }),
        decreases stops.len() - i,
    {
        let s: ResolvedStop = stops[i];
        r.push(GradientStop { offset: s.position, color: color_to_u8_array(s.color) });
        i = i + 1;
    }
    proof {
        assert(crate::scene::stop_models(r@) =~= gradient_stops(stops@));
    }
    r
}

fn solid_paint(c: Color) -> (r: PaintDesc)
    ensures
        r@ == solid(c),
{
    PaintDesc::Solid { r: c.red, g: c.green, b: c.blue, a: c.alpha }
}

/// The paint of a resolved brush; `None` for a fully transparent brush.
pub fn brush_to_paint_desc(brush: &Option<ResolvedBrush>) -> (r: Option<PaintDesc>)
    ensures
        r is Some <==> *brush is Some,
        r is Some ==> Some(r->0@) == optional_paint(*brush),
{
    match brush {
        None => None,
        Some(ResolvedBrush::SolidColor(c)) => Some(solid_paint(*c)),
        Some(ResolvedBrush::LinearGradient { start, end, stops }) => {
            Some(
                PaintDesc::LinearGradient {
                    start_x: start.x,
                    start_y: start.y,
                    end_x: end.x,
                    end_y: end.y,
                    stops: stops_to_gradient_stops(stops),
                },
            )
        },
        Some(ResolvedBrush::RadialGradient { center, radius, stops }) => {
            Some(
                PaintDesc::RadialGradient {
                    cx: center.x,
                    cy: center.y,
                    radius: *radius,
                    stops: stops_to_gradient_stops(stops),
                },
            )
        },
        Some(ResolvedBrush::ConicGradient { center: _, stops }) => {
            if stops.len() > 0 {
                Some(solid_paint(stops[0].color))
            } else {
                Some(solid_paint(Color { red: 0, green: 0, blue: 0, alpha: 0 }))
            }
        },
    }
}

/// The line cap as the protocol carries it; butt for an unknown style.
pub fn femtovg_line_cap(cap: LineCap) -> (r: LineCapDesc)
    ensures
        r is Round <==> cap is Round,
        r is Square <==> cap is Square,
        r is Butt <==> cap is Butt || cap is Other,
{
    match cap {
        LineCap::Round => LineCapDesc::Round,
        LineCap::Square => LineCapDesc::Square,
        LineCap::Butt => LineCapDesc::Butt,
        LineCap::Other => LineCapDesc::Butt,
    }
}

/// The line join as the protocol carries it; miter for an unknown style.
pub fn femtovg_line_join(join: LineJoin) -> (r: LineJoinDesc)
    ensures
        r is Round <==> join is Round,
        r is Bevel <==> join is Bevel,
        r is Miter <==> join is Miter || join is Other,
{
    match join {
        LineJoin::Round => LineJoinDesc::Round,
        LineJoin::Bevel => LineJoinDesc::Bevel,
        LineJoin::Miter => LineJoinDesc::Miter,
        LineJoin::Other => LineJoinDesc::Miter,
    }
}

} // verus!
