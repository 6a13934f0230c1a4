//! From what is drawn to what the canvas is asked for.
//!
//! The laws follow an item through the scene: what its commands make a replay ask of
//! the canvas is given by the brush, the edges and the numbers of the item itself.
use crate::brush::{LineCap, LineJoin, ResolvedBrush, ResolvedStop};
use crate::canvas::{OpModel, PaintSettings, ShapeModel, SourceModel, Target};
use crate::encoder::EncoderModel;
use crate::encoder_draw::{
    BorderLayout, FittedEvent, FittedPath, GlyphBrush, LayoutGlyph, PathStyle, PixelBuffer,
    PixelFormat, ShadowOptions, WindowBackground,
};
use crate::geometry::{BorderRadius, Rect, Size, Vector};
use crate::replay::{CacheModel, OutcomeModel, TaskModel};
use crate::scalar::Scalar;
use crate::scene::{
    Color, CommandModel, FontModel, LineCapDesc, LineJoinDesc, PaintDesc, PathEvent,
    PositionedGlyph, StopModel,
};
use crate::transform::Transform;
use vstd::prelude::*;

verus! {

/// Whether two colours agree channel by channel.
pub open spec fn same_color(a: Color, b: Color) -> bool {
    a.red == b.red && a.green == b.green && a.blue == b.blue && a.alpha == b.alpha
}

/// Whether the stops are these, in this order: as many, each at its position, with its
/// red, green, blue and alpha.
pub open spec fn same_stops(painted: Seq<StopModel>, stops: Seq<ResolvedStop>) -> bool {
    &&& painted.len() == stops.len()
    &&& forall|i: int|
        0 <= i < stops.len() ==> {
            &&& (#[trigger] painted[i]).offset == stops[i].position
            &&& painted[i].color.len() == 4
            &&& painted[i].color[0] == stops[i].color.red
            &&& painted[i].color[1] == stops[i].color.green
            &&& painted[i].color[2] == stops[i].color.blue
            &&& painted[i].color[3] == stops[i].color.alpha
        }
}

/// Whether this is how the brush looks: a colour is that colour, a gradient along a line
/// starts and ends where the brush does, one around a centre grows from the centre of
/// the brush to its radius, and a conic one is its first colour, or transparent.
pub open spec fn looks_like(source: SourceModel, brush: ResolvedBrush) -> bool {
    match brush {
        ResolvedBrush::SolidColor(c) => source matches SourceModel::Color(d) && same_color(d, c),
        ResolvedBrush::LinearGradient { start: p, end: q, stops: s } => {
            source matches SourceModel::Linear { start, end, stops } && start.x == p.x && start.y
                == p.y && end.x == q.x && end.y == q.y && same_stops(stops, s@)
        },
        ResolvedBrush::RadialGradient { center: p, radius, stops: s } => {
            source matches SourceModel::Radial { center, inner, outer, stops } && center.x == p.x
                && center.y == p.y && inner.bits == 0 && outer == radius && same_stops(stops, s@)
        },
        ResolvedBrush::ConicGradient { stops: s, .. } => {
            source matches SourceModel::Color(d) && same_color(
                d,
                if s@.len() > 0 {
                    s@[0].color
                } else {
                    Color { red: 0, green: 0, blue: 0, alpha: 0 }
                },
            )
        },
    }
}

/// Every brush is painted as it looks.
pub proof fn law_brush_is_painted(brush: ResolvedBrush)
    ensures
        crate::canvas::source_of(brush.paint()) matches Some(source) && looks_like(source, brush),
{
}

/// A gradient along a line that is carried from one point to another is painted from
/// the one to the other, with the stops that were carried.
pub proof fn law_line_of_a_gradient(
    start_x: Scalar,
    start_y: Scalar,
    end_x: Scalar,
    end_y: Scalar,
    stops: Vec<crate::scene::GradientStop>,
)
    ensures
        ({
            let paint = (PaintDesc::LinearGradient { start_x, start_y, end_x, end_y, stops })@;
            &&& crate::canvas::source_of(paint) matches Some(
                SourceModel::Linear { start, end, stops: painted },
            ) && start.x == start_x && start.y == start_y && end.x == end_x && end.y == end_y
                && carried_stops(painted, stops@)
        }),
{
}

/// A gradient around a centre that is carried is painted from there to its radius, with
/// the stops that were carried.
pub proof fn law_centre_of_a_gradient(
    cx: Scalar,
    cy: Scalar,
    radius: Scalar,
    stops: Vec<crate::scene::GradientStop>,
)
    ensures
        ({
            let paint = (PaintDesc::RadialGradient { cx, cy, radius, stops })@;
            &&& crate::canvas::source_of(paint) matches Some(
                SourceModel::Radial { center, inner, outer, stops: painted },
            ) && center.x == cx && center.y == cy && inner.bits == 0 && outer == radius
                && carried_stops(painted, stops@)
        }),
{
}

/// Whether the stops are these, in this order, each at its offset with its channels.
pub open spec fn carried_stops(
    painted: Seq<StopModel>,
    stops: Seq<crate::scene::GradientStop>,
) -> bool {
    &&& painted.len() == stops.len()
    &&& forall|i: int|
        0 <= i < stops.len() ==> (#[trigger] painted[i]).offset == stops[i].offset
            && painted[i].color == stops[i].color@
}

/// A colour that is carried is painted channel by channel, and a texture is no paint.
pub proof fn law_color_of_a_paint(r: u8, g: u8, b: u8, a: u8, paint: PaintDesc)
    ensures
        crate::canvas::source_of((PaintDesc::Solid { r, g, b, a })@) matches Some(
            SourceModel::Color(c),
        ) && c.red == r && c.green == g && c.blue == b && c.alpha == a,
        crate::canvas::source_of(paint@) is None <==> paint is ImagePaint,
{
}

/// Whether the tasks are to fill this one shape so that it looks like the brush, with
/// these settings.
pub open spec fn fills(
    tasks: Seq<TaskModel>,
    outline: ShapeModel,
    brush: ResolvedBrush,
    wanted: PaintSettings,
) -> bool {
    &&& tasks.len() == 1
    &&& tasks[0] matches TaskModel::Perform(OpModel::Fill { shape, source, settings }) && shape
        == outline && looks_like(source, brush) && settings == wanted
}

/// Whether the tasks are to stroke this one shape so that it looks like the brush, with
/// these settings.
pub open spec fn strokes(
    tasks: Seq<TaskModel>,
    outline: ShapeModel,
    brush: ResolvedBrush,
    wanted: PaintSettings,
) -> bool {
    &&& tasks.len() == 1
    &&& tasks[0] matches TaskModel::Perform(OpModel::Stroke { shape, source, settings }) && shape
        == outline && looks_like(source, brush) && settings == wanted
}

/// Settings in which nothing but anti-aliasing is switched.
pub open spec fn smooth(anti_alias: bool) -> PaintSettings {
    PaintSettings {
        anti_alias: Some(anti_alias),
        even_odd: None,
        line_width: None,
        miter_limit: None,
        line_cap: None,
        line_join: None,
        font_size: None,
    }
}

/// Whether nothing but the commands changed, and those before are still there.
pub open spec fn only_draws(n: EncoderModel, m: EncoderModel) -> bool {
    &&& n == EncoderModel { commands: n.commands, ..m }
    &&& n.commands.len() >= m.commands.len()
    &&& n.commands.take(m.commands.len() as int) == m.commands
}

/// A rectangle is filled at the origin with its brush, both sides times the scale
/// factor, without anti-aliasing.  One without extent, or without a brush, is not drawn.
pub proof fn law_rectangle_is_filled(
    m: EncoderModel,
    brush: Option<ResolvedBrush>,
    size: Size,
    target: Target,
)
    ensures
        ({
            let n = m.with_rectangle(brush, size);
            let count = m.commands.len() as int;
            let (width, height) = (
                size.width.product(m.scale_factor),
                size.height.product(m.scale_factor),
            );
            let zero = Scalar { bits: 0 };
            let drawn = brush is Some && zero.below(width) && zero.below(height);
            &&& only_draws(n, m)
            &&& n.commands.len() == if drawn {
                count + 1
            } else {
                count
            }
            &&& drawn ==> fills(
                crate::replay::expansion(n.commands[count], target),
                ShapeModel::Rect(
                    Rect {
                        origin: crate::geometry::Point { x: zero, y: zero },
                        size: Size { width, height },
                    },
                ),
                brush->0,
                smooth(false),
            )
        }),
{
    let n = m.with_rectangle(brush, size);
    assert(n.commands.take(m.commands.len() as int) =~= m.commands);
    if let Some(b) = brush {
        law_brush_is_painted(b);
    }
}

/// Whether the outline is that of the rectangle: square, or with one radius above zero
/// at all corners, which are close to each other then, or with the four radii given.
pub open spec fn outlines(shape: ShapeModel, rect: Rect, radius: BorderRadius) -> bool {
    let close = |a: Scalar, b: Scalar|
        a.difference(b).absolute().at_most(Scalar { bits: 0x3400_0000 });
    let even = close(radius.top_left, radius.top_right) && close(
        radius.top_left,
        radius.bottom_right,
    ) && close(radius.top_left, radius.bottom_left);
    match shape {
        ShapeModel::Rect(r) => r == rect && even && !(Scalar { bits: 0 }).below(radius.top_left),
        ShapeModel::Rounded(r, one) => {
            r == rect && even && one == radius.top_left && (Scalar { bits: 0 }).below(one)
        },
        ShapeModel::Varying(r, four) => r == rect && !even && four == radius,
        ShapeModel::Path(_) => false,
    }
}

/// A rounded rectangle has the edges that it was given, whatever its corners.
pub proof fn law_rounded_rectangle_keeps_its_edges(rect: Rect, radius: BorderRadius)
    ensures
        outlines(crate::canvas::rounded_outline(rect, radius), rect, radius),
{
}

/// A rectangle with a border is its background, filled with the background's brush, edges
/// and corners, and on top of it the border, stroked with the border's brush, edges,
/// corners and width.  Either is left out where it has no brush, and the border where
/// its width is not above zero.
#[verifier::rlimit(40)]
pub proof fn law_border_lies_on_its_background(
    m: EncoderModel,
    layout: Option<BorderLayout>,
    background: Option<ResolvedBrush>,
    border: Option<ResolvedBrush>,
    target: Target,
)
    ensures
        ({
            let n = m.with_border_rectangle(layout, background, border);
            let count = m.commands.len() as int;
            let fill: int = if layout is Some && background is Some {
                1
            } else {
                0
            };
            let stroke: int = if layout is Some && border is Some && (Scalar { bits: 0 }).below(
                layout->0.border_width,
            ) {
                1
            } else {
                0
            };
            let l = layout->0;
            &&& only_draws(n, m)
            &&& n.commands.len() == count + fill + stroke
            &&& fill == 1 ==> exists|outline: ShapeModel| #[trigger]
                outlines(outline, l.background_rect, l.background_radius) && fills(
                    crate::replay::expansion(n.commands[count], target),
                    outline,
                    background->0,
                    smooth(true),
                )
            &&& stroke == 1 ==> exists|outline: ShapeModel| #[trigger]
                outlines(outline, l.border_rect, l.border_radius) && strokes(
                    crate::replay::expansion(n.commands[count + fill], target),
                    outline,
                    border->0,
                    PaintSettings { line_width: Some(l.border_width), ..smooth(true) },
                )
        }),
{
    let n = m.with_border_rectangle(layout, background, border);
    assert(n.commands.take(m.commands.len() as int) =~= m.commands);
    if let Some(l) = layout {
        let outline = crate::canvas::rounded_outline(l.background_rect, l.background_radius);
        let edge = crate::canvas::rounded_outline(l.border_rect, l.border_radius);
        law_rounded_rectangle_keeps_its_edges(l.background_rect, l.background_radius);
        law_rounded_rectangle_keeps_its_edges(l.border_rect, l.border_radius);
        assert(outlines(outline, l.background_rect, l.background_radius));
        assert(outlines(edge, l.border_rect, l.border_radius));
        if let Some(b) = background {
            law_brush_is_painted(b);
        }
        if let Some(b) = border {
            law_brush_is_painted(b);
        }
    }
}

/// A background of one colour becomes the colour that the window is cleared to; any other
/// is filled over the whole window, from the origin to its width and its height in
/// physical pixels; and a transparent one draws nothing.
pub proof fn law_window_background(
    m: EncoderModel,
    background: WindowBackground,
    target: Target,
)
    ensures
        ({
            let n = m.with_backdrop(background);
            let count = m.commands.len() as int;
            let zero = Scalar { bits: 0 };
            match background {
                WindowBackground::Solid(color) => {
                    &&& n == EncoderModel { background: n.background, ..m }
                    &&& n.background matches Some(c) && c.len() == 4 && c[0] == color.red && c[1]
                        == color.green && c[2] == color.blue && c[3] == color.alpha
                },
                WindowBackground::Brush(Some(brush)) => {
                    &&& only_draws(n, m)
                    &&& n.commands.len() == count + 1
                    &&& fills(
                        crate::replay::expansion(n.commands[count], target),
                        ShapeModel::Rect(
                            Rect {
                                origin: crate::geometry::Point { x: zero, y: zero },
                                size: Size {
                                    width: Scalar::of_u32(m.width),
                                    height: Scalar::of_u32(m.height),
                                },
                            },
                        ),
                        brush,
                        smooth(false),
                    )
                },
                WindowBackground::Brush(None) => n == m,
            }
        }),
{
    let n = m.with_backdrop(background);
    assert(n.commands.take(m.commands.len() as int) =~= m.commands);
    if let WindowBackground::Brush(Some(b)) = background {
        law_brush_is_painted(b);
    }
}

/// How far the moves that are open at the end of a list of commands have moved, across
/// and down: those of a save that was restored count no more.
pub open spec fn open_moves(commands: Seq<CommandModel>) -> Seq<Seq<(Scalar, Scalar)>>
    decreases commands.len(),
{
    if commands.len() == 0 {
        seq![Seq::<(Scalar, Scalar)>::empty()]
    } else {
        let before = open_moves(commands.drop_last());
        match commands.last() {
            CommandModel::Save => before.push(Seq::empty()),
            CommandModel::Restore => if before.len() > 0 {
                before.drop_last()
            } else {
                before
            },
            CommandModel::Translate(x, y) => if before.len() > 0 {
                before.drop_last().push(before.last().push((x, y)))
            } else {
                before
            },
            _ => before,
        }
    }
}

/// How a cap, and a join, of an item look on the canvas.
pub open spec fn same_ends(
    cap: LineCap,
    drawn: LineCapDesc,
    join: LineJoin,
    joined: LineJoinDesc,
) -> bool {
    &&& drawn == LineCapDesc::Round <==> cap == LineCap::Round
    &&& drawn == LineCapDesc::Square <==> cap == LineCap::Square
    &&& joined == LineJoinDesc::Round <==> join == LineJoin::Round
    &&& joined == LineJoinDesc::Bevel <==> join == LineJoin::Bevel
}

/// Whether the tasks fill the path with the brush, under the rule and with the
/// anti-aliasing of the style.
pub open spec fn fills_path(
    tasks: Seq<TaskModel>,
    path: Seq<PathEvent>,
    brush: ResolvedBrush,
    style: PathStyle,
) -> bool {
    fills(
        tasks,
        ShapeModel::Path(path),
        brush,
        PaintSettings { even_odd: Some(style.even_odd), ..smooth(style.anti_alias) },
    )
}

/// Whether the tasks stroke the path with the brush: as wide as the style says times the
/// scale factor, with its miter limit, its ends and its anti-aliasing.
pub open spec fn strokes_path(
    tasks: Seq<TaskModel>,
    path: Seq<PathEvent>,
    brush: ResolvedBrush,
    style: PathStyle,
    scale_factor: Scalar,
) -> bool {
    exists|cap: LineCapDesc, join: LineJoinDesc| #[trigger]
        same_ends(style.line_cap, cap, style.line_join, join) && strokes(
            tasks,
            ShapeModel::Path(path),
            brush,
            PaintSettings {
                line_width: Some(style.stroke_width.product(scale_factor)),
                miter_limit: Some(style.miter_limit),
                line_cap: Some(cap),
                line_join: Some(join),
                ..smooth(style.anti_alias)
            },
        )
}

/// A path is drawn at its offset.  Where either component of the offset times the scale
/// factor is not zero, a save, a move by both components, the fill, the stroke and a
/// restore are emitted in this order; where both are zero, the fill and the stroke alone.
/// The fill shows the fill's brush and the stroke the stroke's brush, and either is left
/// out where it has none.
#[verifier::rlimit(40)]
pub proof fn law_path_is_drawn_at_its_offset(
    m: EncoderModel,
    path: FittedPath,
    fill: Option<ResolvedBrush>,
    stroke: Option<ResolvedBrush>,
    style: PathStyle,
    target: Target,
)
    ensures
        ({
            let n = m.with_path(path, fill, stroke, style);
            let count = m.commands.len() as int;
            let x = path.offset.x.product(m.scale_factor);
            let y = path.offset.y.product(m.scale_factor);
            let moves = !x.zero_valued() || !y.zero_valued();
            let first: int = if moves {
                count + 2
            } else {
                count
            };
            let second: int = if fill is Some {
                first + 1
            } else {
                first
            };
            let end: int = if stroke is Some {
                second + 1
            } else {
                second
            };
            let events = crate::encoder_draw::path_events(path.events@, m.scale_factor);
            &&& only_draws(n, m)
            &&& n.commands.len() == if moves {
                end + 1
            } else {
                end
            }
            &&& moves ==> n.commands[count] is Save
            &&& moves ==> n.commands[count + 1] == CommandModel::Translate(x, y)
            &&& moves ==> n.commands[end] is Restore
            &&& fill is Some ==> n.commands[first] is FillPath && fills_path(
                crate::replay::expansion(n.commands[first], target),
                events,
                fill->0,
                style,
            )
            &&& stroke is Some ==> n.commands[second] is StrokePath && strokes_path(
                crate::replay::expansion(n.commands[second], target),
                events,
                stroke->0,
                style,
                m.scale_factor,
            )
        }),
{
    let n = m.with_path(path, fill, stroke, style);
    assert(n.commands.take(m.commands.len() as int) =~= m.commands);
    let cap = crate::encoder_draw::carried_cap(style.line_cap);
    let join = crate::encoder_draw::carried_join(style.line_join);
    assert(same_ends(style.line_cap, cap, style.line_join, join));
    if let Some(b) = fill {
        law_brush_is_painted(b);
    }
    if let Some(b) = stroke {
        law_brush_is_painted(b);
    }
}

/// The moves that are open where a path is filled and where it is stroked are those that
/// were open before it and, in a save of their own, a move by both components of its
/// offset times the scale factor; none of its own where both of these are zero.  What
/// was open before is open again after the path.
#[verifier::rlimit(40)]
pub proof fn law_open_moves_of_a_path(
    m: EncoderModel,
    path: FittedPath,
    fill: Option<ResolvedBrush>,
    stroke: Option<ResolvedBrush>,
    style: PathStyle,
    at: int,
)
    requires
        m.commands.len() <= at < m.with_path(path, fill, stroke, style).commands.len(),
        m.with_path(path, fill, stroke, style).commands[at] is FillPath || m.with_path(
            path,
            fill,
            stroke,
            style,
        ).commands[at] is StrokePath,
    ensures
        ({
            let n = m.with_path(path, fill, stroke, style);
            let x = path.offset.x.product(m.scale_factor);
            let y = path.offset.y.product(m.scale_factor);
            let own = if !x.zero_valued() || !y.zero_valued() {
                seq![seq![(x, y)]]
            } else {
                Seq::empty()
            };
            &&& open_moves(n.commands.take(at)) == open_moves(m.commands) + own
            &&& open_moves(n.commands) == open_moves(m.commands)
        }),
{
    let n = m.with_path(path, fill, stroke, style);
    let count = m.commands.len() as int;
    let x = path.offset.x.product(m.scale_factor);
    let y = path.offset.y.product(m.scale_factor);
    law_path_is_drawn_at_its_offset(m, path, fill, stroke, style, Target::Screen);
    let base = open_moves(m.commands);
    let c = n.commands;
    assert(c.take(count) =~= m.commands);
    if !x.zero_valued() || !y.zero_valued() {
        assert(c.take(count + 1).drop_last() =~= c.take(count));
        assert(c.take(count + 2).drop_last() =~= c.take(count + 1));
        let inner = base.push(seq![(x, y)]);
        assert(open_moves(c.take(count + 1)) == base.push(Seq::empty()));
        assert(open_moves(c.take(count + 2)) =~= inner) by {
            assert(base.push(Seq::<(Scalar, Scalar)>::empty()).drop_last() =~= base);
            assert(Seq::<(Scalar, Scalar)>::empty().push((x, y)) =~= seq![(x, y)]);
        }
        if c.len() > count + 3 {
            assert(c.take(count + 3).drop_last() =~= c.take(count + 2));
            assert(open_moves(c.take(count + 3)) == inner);
        }
        if c.len() > count + 4 {
            assert(c.take(count + 4).drop_last() =~= c.take(count + 3));
            assert(open_moves(c.take(count + 4)) == inner);
        }
        assert(c.drop_last() =~= c.take(c.len() - 1));
        assert(open_moves(c) =~= base) by {
            assert(inner.drop_last() =~= base);
        }
        assert(inner =~= base + seq![seq![(x, y)]]);
    } else {
        if c.len() > count {
            assert(c.take(count + 1).drop_last() =~= c.take(count));
            assert(open_moves(c.take(count + 1)) == base);
        }
        if c.len() > count + 1 {
            assert(c.take(count + 2).drop_last() =~= c.take(count + 1));
            assert(open_moves(c.take(count + 2)) == base);
        }
        assert(c.take(c.len() as int) =~= c);
        assert(base + Seq::<Seq<(Scalar, Scalar)>>::empty() =~= base);
    }
}

/// Each event of a path becomes one, in order, with every coordinate times the scale
/// factor; a subpath that ends open becomes none.  A path without events stays without.
pub proof fn law_path_is_scaled_event_by_event(
    events: Seq<FittedEvent>,
    e: FittedEvent,
    sf: Scalar,
)
    ensures
        crate::encoder_draw::path_events(Seq::<FittedEvent>::empty(), sf).len() == 0,
        ({
            let before = crate::encoder_draw::path_events(events, sf);
            let all = crate::encoder_draw::path_events(events.push(e), sf);
            let count = before.len() as int;
            &&& all.len() >= count && all.take(count) == before
            &&& all.len() == if e == FittedEvent::End(false) {
                count
            } else {
                count + 1
            }
            &&& match e {
                FittedEvent::Begin(p) => all[count] matches PathEvent::MoveTo(x, y) && x
                    == p.x.product(sf) && y == p.y.product(sf),
                FittedEvent::Line(p) => all[count] matches PathEvent::LineTo(x, y) && x
                    == p.x.product(sf) && y == p.y.product(sf),
                FittedEvent::Quadratic(c, p) => all[count] matches PathEvent::QuadTo(cx, cy, x, y)
                    && cx == c.x.product(sf) && cy == c.y.product(sf) && x == p.x.product(sf) && y
                    == p.y.product(sf),
                FittedEvent::Cubic(c, d, p) => all[count] matches PathEvent::CubicTo(
                    cx,
                    cy,
                    dx,
                    dy,
                    x,
                    y,
                ) && cx == c.x.product(sf) && cy == c.y.product(sf) && dx == d.x.product(sf) && dy
                    == d.y.product(sf) && x == p.x.product(sf) && y == p.y.product(sf),
                FittedEvent::End(closed) => closed ==> all[count] is Close,
            }
        }),
{
    assert(events.push(e).drop_last() =~= events);
    let before = crate::encoder_draw::path_events(events, sf);
    let all = crate::encoder_draw::path_events(events.push(e), sf);
    assert(all.take(before.len() as int) =~= before);
}

/// Pixels of three channels keep them and get an opaque alpha, pixel by pixel; pixels of
/// four channels stay as they are.
pub proof fn law_pixels_keep_their_channels(buffer: PixelBuffer, pixel: int)
    requires
        buffer.complete(),
        0 <= pixel,
    ensures
        ({
            let four = buffer.four_channels();
            &&& buffer.format == PixelFormat::Rgb8 ==> 3 * four.len() == 4 * buffer.pixels@.len()
            &&& buffer.format == PixelFormat::Rgb8 && 3 * pixel + 2 < buffer.pixels@.len()
                ==> four[4 * pixel] == buffer.pixels@[3 * pixel] && four[4 * pixel + 1]
                == buffer.pixels@[3 * pixel + 1] && four[4 * pixel + 2] == buffer.pixels@[3 * pixel
                + 2] && four[4 * pixel + 3] == 255
            &&& buffer.format != PixelFormat::Rgb8 ==> four == buffer.pixels@
        }),
{
    if buffer.format == PixelFormat::Rgb8 && 3 * pixel + 2 < buffer.pixels@.len() {
        let rgb = buffer.pixels@;
        assert((4 * pixel) / 4 == pixel && (4 * pixel) % 4 == 0);
        assert((4 * pixel + 1) / 4 == pixel && (4 * pixel + 1) % 4 == 1);
        assert((4 * pixel + 2) / 4 == pixel && (4 * pixel + 2) % 4 == 2);
        assert((4 * pixel + 3) % 4 == 3);
        assert(4 * pixel + 3 < (rgb.len() / 3) * 4);
    }
}

/// Whether the last two commands of `n` bring these pixels to the canvas under a key of
/// their own and draw the whole of them over the rectangle of this size at the origin.
pub open spec fn brings_image(
    n: EncoderModel,
    m: EncoderModel,
    pixels: Seq<u8>,
    width: u32,
    height: u32,
    drawn: Size,
) -> bool {
    let count = m.commands.len() as int;
    let zero = Scalar { bits: 0 };
    &&& n.commands.len() == count + 2
    &&& n.commands.take(count) == m.commands
    &&& n.commands[count] == (CommandModel::UploadPixmap { key: m.next_key, pixels, width, height })
    &&& n.commands[count + 1] matches CommandModel::BlitPixmap { key, params } && key
        == m.next_key && params.len() == 9 && params[0] == zero && params[1] == zero && params[2]
        == drawn.width && params[3] == drawn.height && params[4] == zero && params[5] == zero
        && params[6] == Scalar::of_u32(width) && params[7] == Scalar::of_u32(height) && params[8]
        == zero
    &&& n.next_key == if m.next_key == u64::MAX {
        0
    } else {
        m.next_key + 1
    }
    &&& n.states == m.states && n.fonts == m.fonts && n.background == m.background
    &&& n.width == m.width && n.height == m.height && n.scale_factor == m.scale_factor
}

/// An image item brings its pixels, at the size that they have, and draws them at the size
/// of the item times the scale factor; its region is recorded under its id.  Without
/// pixels, or with a side that is zero or below, it draws nothing and is not recorded.
pub proof fn law_image_is_drawn_over_its_item(
    m: EncoderModel,
    size: Size,
    buffer: Option<PixelBuffer>,
    id: u64,
)
    ensures
        ({
            let n = m.with_image(size, buffer, id);
            let zero = Scalar { bits: 0 };
            let count = m.controls.len() as int;
            let shown = buffer is Some && !size.width.at_most(zero) && !size.height.at_most(zero);
            &&& !shown ==> n == m
            &&& shown ==> brings_image(
                n,
                m,
                buffer->0.four_channels(),
                buffer->0.width,
                buffer->0.height,
                Size {
                    width: size.width.product(m.scale_factor),
                    height: size.height.product(m.scale_factor),
                },
            )
            &&& shown ==> n.controls.len() == count + 1 && n.controls.take(count) == m.controls
                && n.controls[count].id == id
            &&& shown && m.states.len() > 0 ==> n.controls[count].geometry
                == m.states.last().transform.region(size)
            &&& shown && m.states.len() == 0 ==> n.controls[count].geometry == (Transform {
                a: Scalar { bits: 0x3f80_0000 },
                b: zero,
                c: zero,
                d: Scalar { bits: 0x3f80_0000 },
                x: zero,
                y: zero,
            }).region(size)
        }),
{
    let n = m.with_image(size, buffer, id);
    assert(n.commands.take(m.commands.len() as int) =~= m.commands);
    assert(n.controls.take(m.controls.len() as int) =~= m.controls);
}

/// An image without an item is drawn at the size that was asked for times the scale
/// factor, and a pixmap of a custom widget at the size that it has; neither is recorded.
pub proof fn law_image_without_item(
    m: EncoderModel,
    width: u32,
    height: u32,
    buffer: Option<PixelBuffer>,
    pixmap: Option<(u32, u32, Seq<u8>)>,
)
    ensures
        ({
            let n = m.with_direct_image(width, height, buffer);
            let shown = buffer is Some && width != 0 && height != 0;
            &&& n.controls == m.controls
            &&& !shown ==> n == m
            &&& shown ==> brings_image(
                n,
                m,
                buffer->0.four_channels(),
                buffer->0.width,
                buffer->0.height,
                Size {
                    width: Scalar::of_u32(width).product(m.scale_factor),
                    height: Scalar::of_u32(height).product(m.scale_factor),
                },
            )
        }),
        ({
            let n = m.with_own_pixmap(pixmap);
            &&& n.controls == m.controls
            &&& pixmap is None ==> n == m
            &&& pixmap matches Some((w, h, pixels)) ==> brings_image(
                n,
                m,
                pixels,
                w,
                h,
                Size { width: Scalar::of_u32(w), height: Scalar::of_u32(h) },
            )
        }),
{
    let n = m.with_direct_image(width, height, buffer);
    assert(n.commands.take(m.commands.len() as int) =~= m.commands);
    let p = m.with_own_pixmap(pixmap);
    assert(p.commands.take(m.commands.len() as int) =~= m.commands);
}

/// A blit that finds its texture, and hears that it is still there, fills the rectangle of
/// its first four parameters with the part of the texture that its next four name, opaque
/// and without anti-aliasing.
#[verifier::rlimit(40)]
pub proof fn law_blit_fills_its_rectangle(
    key: u64,
    params: Seq<Scalar>,
    cache: CacheModel,
    outcome: OutcomeModel,
    target: Target,
)
    requires
        cache.textures.contains_key(key),
        outcome == OutcomeModel::Valid(true),
    ensures
        ({
            let command = crate::replay::expansion(CommandModel::BlitPixmap { key, params }, target);
            let asked = crate::replay::step_of(command[0], cache, OutcomeModel::Done);
            let drawn = crate::replay::step_of(asked.tasks[0], cache, outcome);
            &&& command.len() == 1
            &&& asked.op == Some(OpModel::CheckImage(cache.textures[key]))
            &&& asked.tasks.len() == 1 && drawn.op is None && drawn.tasks.len() == 1
            &&& asked.cache == cache && drawn.cache == cache
            &&& drawn.tasks[0] matches TaskModel::Perform(OpModel::Fill { shape, source, settings })
                && settings == smooth(false) && (shape matches ShapeModel::Rect(r) && r.origin.x
                == params[0] && r.origin.y == params[1] && r.size.width == params[2]
                && r.size.height == params[3]) && (source matches SourceModel::Image {
                image,
                rect,
                part,
                alpha,
            } && image == cache.textures[key] && rect.origin.x == params[0] && rect.origin.y
                == params[1] && rect.size.width == params[2] && rect.size.height == params[3]
                && part.origin.x == params[4] && part.origin.y == params[5] && part.size.width
                == params[6] && part.size.height == params[7] && alpha.bits == 0x3f80_0000)
        }),
{
}

/// A blit whose texture is not there draws nothing and asks for nothing.
pub proof fn law_blit_without_texture(key: u64, params: Seq<Scalar>, cache: CacheModel)
    requires
        !cache.textures.contains_key(key),
    ensures
        ({
            let s = crate::replay::step_of(
                TaskModel::Blit { key, params },
                cache,
                OutcomeModel::Done,
            );
            s.op is None && s.tasks.len() == 0 && s.cache == cache
        }),
{
}

/// A run of glyphs is carried with its font, its size, its variations, its offset and its
/// brush; each glyph keeps its place and the low 16 bits of its id.  Whether it is
/// stroked is whether its brush strokes.
pub proof fn law_glyph_run_is_carried(
    m: EncoderModel,
    font: FontModel,
    font_size: Scalar,
    normalized_coords: Seq<i16>,
    brush: GlyphBrush,
    y_offset: Scalar,
    glyphs: Seq<LayoutGlyph>,
)
    ensures
        ({
            let n = m.with_glyph_run(font, font_size, normalized_coords, brush, y_offset, glyphs);
            let count = m.commands.len() as int;
            &&& n.commands.len() == count + 1 && n.commands.take(count) == m.commands
            &&& n.commands[count] matches CommandModel::DrawGlyphRun {
                font_blob_id,
                font_index,
                font_size: size,
                normalized_coords: coords,
                paint,
                y_offset: lower,
                glyphs: run,
                is_stroke,
            } && font_blob_id == font.blob_id && font_index == font.font_index && size == font_size
                && coords == normalized_coords && lower == y_offset && same_glyphs(run, glyphs)
                && match brush {
                GlyphBrush::Fill(p) => paint == p@ && !is_stroke,
                GlyphBrush::Stroke(p) => paint == p@ && is_stroke,
            }
            &&& n.fonts == m.with_font(font.blob_id, font.font_index, font.data).fonts
            &&& n == EncoderModel { commands: n.commands, fonts: n.fonts, ..m }
        }),
{
    let n = m.with_glyph_run(font, font_size, normalized_coords, brush, y_offset, glyphs);
    assert(n.commands.take(m.commands.len() as int) =~= m.commands);
}

/// Whether these are the glyphs, in this order, each at its place with the low 16 bits of
/// its id.
pub open spec fn same_glyphs(run: Seq<PositionedGlyph>, glyphs: Seq<LayoutGlyph>) -> bool {
    &&& run.len() == glyphs.len()
    &&& forall|i: int|
        0 <= i < glyphs.len() ==> {
            &&& (#[trigger] run[i]).x == glyphs[i].x
            &&& run[i].y == glyphs[i].y
            &&& run[i].id as int == glyphs[i].id as int % 65536
        }
}

/// A rectangle that belongs to text keeps its edges, its radius and its paint, and its
/// border keeps its own paint and width.  It is filled, and the border stroked on top of
/// it along the same outline, which is rounded where the radius is above zero.
#[verifier::rlimit(40)]
pub proof fn law_text_rectangle_is_drawn(
    m: EncoderModel,
    rect: Rect,
    brush: GlyphBrush,
    radius: Scalar,
    border: Option<(GlyphBrush, Scalar)>,
    target: Target,
)
    ensures
        ({
            let n = m.with_text_rectangle(rect, brush, radius, border);
            let count = m.commands.len() as int;
            let tasks = crate::replay::expansion(n.commands[count], target);
            let outline = if (Scalar { bits: 0 }).below(radius) {
                ShapeModel::Rounded(rect, radius)
            } else {
                ShapeModel::Rect(rect)
            };
            let inside = crate::canvas::source_of(
                match brush {
                    GlyphBrush::Fill(p) => p@,
                    GlyphBrush::Stroke(p) => p@,
                },
            );
            let around = match border {
                Some((GlyphBrush::Fill(p), _)) => crate::canvas::source_of(p@),
                Some((GlyphBrush::Stroke(p), _)) => crate::canvas::source_of(p@),
                None => None,
            };
            &&& only_draws(n, m) && n.commands.len() == count + 1
            &&& inside is None ==> tasks.len() == 0
            &&& inside is Some ==> tasks.len() == if around is Some {
                2int
            } else {
                1
            }
            &&& inside is Some ==> tasks[0] == TaskModel::Perform(
                OpModel::Fill { shape: outline, source: inside->0, settings: no_settings() },
            )
            &&& inside is Some && around is Some ==> tasks[1] == TaskModel::Perform(
                OpModel::Stroke {
                    shape: outline,
                    source: around->0,
                    settings: PaintSettings { line_width: Some((border->0).1), ..no_settings() },
                },
            )
        }),
{
    let n = m.with_text_rectangle(rect, brush, radius, border);
    assert(n.commands.take(m.commands.len() as int) =~= m.commands);
}

/// Settings in which nothing is switched.
pub open spec fn no_settings() -> PaintSettings {
    PaintSettings {
        anti_alias: None,
        even_odd: None,
        line_width: None,
        miter_limit: None,
        line_cap: None,
        line_join: None,
        font_size: None,
    }
}

/// A box shadow that is not inset, and that blurs or moves on either axis, is carried with
/// its colour, blur, sides and corners, and its offset times the scale factor.  Any other
/// draws nothing.
pub proof fn law_shadow_is_carried(
    m: EncoderModel,
    options: Option<ShadowOptions>,
    offset: Vector,
)
    ensures
        ({
            let n = m.with_shadow(options, offset);
            let count = m.commands.len() as int;
            let x = offset.x.product(m.scale_factor);
            let y = offset.y.product(m.scale_factor);
            let o = options->0;
            let shown = options is Some && !o.inset && !(o.blur.zero_valued() && x.zero_valued()
                && y.zero_valued());
            &&& !shown ==> n == m
            &&& shown ==> only_draws(n, m) && n.commands.len() == count + 1
            &&& shown ==> n.commands[count] == (CommandModel::DrawBoxShadow {
                color: o.color,
                blur: o.blur,
                offset_x: x,
                offset_y: y,
                width: o.width,
                height: o.height,
                radius: o.radius,
            })
        }),
{
    let n = m.with_shadow(options, offset);
    assert(n.commands.take(m.commands.len() as int) =~= m.commands);
}

} // verus!
