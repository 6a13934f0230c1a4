//! The operations that a replay asks of a canvas.
use crate::geometry::{PhysicalBorderRadius, PhysicalPoint, PhysicalRect, Point, Rect, Size};
use crate::scalar::Scalar;
use crate::scene::{
    Color, GradientStop, LineCapDesc, LineJoinDesc, PaintDesc, PaintModel, PathEvent,
    PositionedGlyph, StopModel,
};
use vstd::prelude::*;

verus! {

/// The outline of what is filled or stroked.
pub enum Shape<'a> {
    Rect(PhysicalRect),
    /// A rectangle with four equal corners.
    Rounded(PhysicalRect, Scalar),
    /// A rectangle with a radius of its own at each corner.
    Varying(PhysicalRect, PhysicalBorderRadius),
    Path(&'a Vec<PathEvent>),
}

/// The model of a [`Shape`].
pub enum ShapeModel {
    Rect(PhysicalRect),
    Rounded(PhysicalRect, Scalar),
    Varying(PhysicalRect, PhysicalBorderRadius),
    Path(Seq<PathEvent>),
}

/// What a canvas draws into.
#[derive(Clone, Copy, Debug, PartialEq, Eq, Structural)]
pub enum Target {
    /// The surface of the window.
    Screen,
    /// An image of the canvas.
    Image(u64),
}

/// What a shape is painted with.
#[allow(inconsistent_fields)]
pub enum PaintSource<'a> {
    Color(Color),
    Linear { start: PhysicalPoint, end: PhysicalPoint, stops: &'a Vec<GradientStop> },
    Radial { center: PhysicalPoint, inner: Scalar, outer: Scalar, stops: &'a Vec<GradientStop> },
    /// A part of an image, in the image's own pixels, stretched upright over a
    /// rectangle.
    Image { image: u64, rect: PhysicalRect, part: Rect, alpha: Scalar },
}

/// The model of a [`PaintSource`].
#[allow(inconsistent_fields)]
pub enum SourceModel {
    Color(Color),
    Linear { start: PhysicalPoint, end: PhysicalPoint, stops: Seq<StopModel> },
    Radial { center: PhysicalPoint, inner: Scalar, outer: Scalar, stops: Seq<StopModel> },
    Image { image: u64, rect: PhysicalRect, part: Rect, alpha: Scalar },
}

/// The settings of a paint; `None` leaves what a new paint has.
#[derive(Clone, Copy, Debug, PartialEq, Eq, Structural)]
pub struct PaintSettings {
    pub anti_alias: Option<bool>,
    pub even_odd: Option<bool>,
    pub line_width: Option<Scalar>,
    pub miter_limit: Option<Scalar>,
    pub line_cap: Option<LineCapDesc>,
    pub line_join: Option<LineJoinDesc>,
    pub font_size: Option<Scalar>,
}

/// One operation on a canvas, its window or its text shaper.
#[allow(inconsistent_fields)]
pub enum CanvasOp<'a> {
    SetSize { width: u32, height: u32, dpi: Scalar },
    Reset,
    /// Clear the rectangle of this size at the origin.
    Clear { width: u32, height: u32, color: Color },
    Save,
    Restore,
    Translate(Scalar, Scalar),
    /// An angle in radians.
    Rotate(Scalar),
    Scale(Scalar, Scalar),
    SetGlobalAlpha(Scalar),
    IntersectScissor(PhysicalRect),
    Fill { shape: Shape<'a>, source: PaintSource<'a>, settings: PaintSettings },
    Stroke { shape: Shape<'a>, source: PaintSource<'a>, settings: PaintSettings },
    /// Draw glyphs of a font that was added.
    Glyphs {
        font: u64,
        normalized_coords: Vec<i16>,
        glyphs: Vec<PositionedGlyph>,
        source: PaintSource<'a>,
        settings: PaintSettings,
        stroke: bool,
    },
    ResetTransform,
    SetTransform([Scalar; 6]),
    /// Answered by [`Outcome::Transform`].
    QueryTransform,
    /// Answered by [`Outcome::Font`].
    AddFont { data: Vec<u8>, font_index: u32 },
    /// Answered by [`Outcome::Image`].
    CreateImage { pixels: &'a Vec<u8>, width: u32, height: u32 },
    /// Answered by [`Outcome::Image`].
    CreateEmptyImage { width: u32, height: u32, flip_y: bool },
    /// Whether the image is still there; answered by [`Outcome::Valid`].
    CheckImage(u64),
    SetRenderTarget(Target),
    BlurImage { target: u64, sigma: Scalar, source: u64 },
    DeleteImage(u64),
    /// Keep only what is drawn inside of what is there.
    CompositeSourceIn,
    /// Shape a text whose sizes are multiplied by the scale factor; answered by
    /// [`Outcome::Shaped`].
    ShapeText { text: &'a String, font_size: Scalar, scale_factor: Scalar, max_width: Option<Scalar> },
    Flush,
    SwapBuffers,
    PrePresentNotify,
}

/// The model of a [`CanvasOp`].
#[allow(inconsistent_fields)]
pub enum OpModel {
    SetSize { width: u32, height: u32, dpi: Scalar },
    Reset,
    Clear { width: u32, height: u32, color: Color },
    Save,
    Restore,
    Translate(Scalar, Scalar),
    Rotate(Scalar),
    Scale(Scalar, Scalar),
    SetGlobalAlpha(Scalar),
    IntersectScissor(PhysicalRect),
    Fill { shape: ShapeModel, source: SourceModel, settings: PaintSettings },
    Stroke { shape: ShapeModel, source: SourceModel, settings: PaintSettings },
    Glyphs {
        font: u64,
        normalized_coords: Seq<i16>,
        glyphs: Seq<PositionedGlyph>,
        source: SourceModel,
        settings: PaintSettings,
        stroke: bool,
    },
    ResetTransform,
    SetTransform(Seq<Scalar>),
    QueryTransform,
    AddFont { data: Seq<u8>, font_index: u32 },
    CreateImage { pixels: Seq<u8>, width: u32, height: u32 },
    CreateEmptyImage { width: u32, height: u32, flip_y: bool },
    CheckImage(u64),
    SetRenderTarget(Target),
    BlurImage { target: u64, sigma: Scalar, source: u64 },
    DeleteImage(u64),
    CompositeSourceIn,
    ShapeText { text: Seq<char>, font_size: Scalar, scale_factor: Scalar, max_width: Option<Scalar> },
    Flush,
    SwapBuffers,
    PrePresentNotify,
}

impl<'a> Shape<'a> {
    pub open spec fn model(self) -> ShapeModel {
        match self {
            Shape::Rect(r) => ShapeModel::Rect(r),
            Shape::Rounded(r, radius) => ShapeModel::Rounded(r, radius),
            Shape::Varying(r, radius) => ShapeModel::Varying(r, radius),
            Shape::Path(events) => ShapeModel::Path(events@),
        }
    }
}

impl<'a> PaintSource<'a> {
    pub open spec fn model(self) -> SourceModel {
        match self {
            PaintSource::Color(c) => SourceModel::Color(c),
            PaintSource::Linear { start, end, stops } => {
                SourceModel::Linear { start, end, stops: crate::scene::stop_models(stops@) }
            },
            PaintSource::Radial { center, inner, outer, stops } => {
                SourceModel::Radial {
                    center,
                    inner,
                    outer,
                    stops: crate::scene::stop_models(stops@),
                }
            },
            PaintSource::Image { image, rect, part, alpha } => {
                SourceModel::Image { image, rect, part, alpha }
            },
        }
    }
}

impl<'a> CanvasOp<'a> {
    pub open spec fn model(self) -> OpModel {
        match self {
            CanvasOp::SetSize { width, height, dpi } => OpModel::SetSize { width, height, dpi },
            CanvasOp::Reset => OpModel::Reset,
            CanvasOp::Clear { width, height, color } => OpModel::Clear { width, height, color },
            CanvasOp::Save => OpModel::Save,
            CanvasOp::Restore => OpModel::Restore,
            CanvasOp::Translate(x, y) => OpModel::Translate(x, y),
            CanvasOp::Rotate(angle) => OpModel::Rotate(angle),
            CanvasOp::Scale(x, y) => OpModel::Scale(x, y),
            CanvasOp::SetGlobalAlpha(alpha) => OpModel::SetGlobalAlpha(alpha),
            CanvasOp::IntersectScissor(rect) => OpModel::IntersectScissor(rect),
            CanvasOp::Fill { shape, source, settings } => {
                OpModel::Fill { shape: shape.model(), source: source.model(), settings }
            },
            CanvasOp::Stroke { shape, source, settings } => {
                OpModel::Stroke { shape: shape.model(), source: source.model(), settings }
            },
            CanvasOp::Glyphs { font, normalized_coords, glyphs, source, settings, stroke } => {
                OpModel::Glyphs {
                    font,
                    normalized_coords: normalized_coords@,
                    glyphs: glyphs@,
                    source: source.model(),
                    settings,
                    stroke,
                }
            },
            CanvasOp::ResetTransform => OpModel::ResetTransform,
            CanvasOp::SetTransform(t) => OpModel::SetTransform(t@),
            CanvasOp::QueryTransform => OpModel::QueryTransform,
            CanvasOp::AddFont { data, font_index } => OpModel::AddFont { data: data@, font_index },
            CanvasOp::CreateImage { pixels, width, height } => {
                OpModel::CreateImage { pixels: pixels@, width, height }
            },
            CanvasOp::CreateEmptyImage { width, height, flip_y } => {
                OpModel::CreateEmptyImage { width, height, flip_y }
            },
            CanvasOp::CheckImage(image) => OpModel::CheckImage(image),
            CanvasOp::SetRenderTarget(target) => OpModel::SetRenderTarget(target),
            CanvasOp::BlurImage { target, sigma, source } => {
                OpModel::BlurImage { target, sigma, source }
            },
            CanvasOp::DeleteImage(image) => OpModel::DeleteImage(image),
            CanvasOp::CompositeSourceIn => OpModel::CompositeSourceIn,
            CanvasOp::ShapeText { text, font_size, scale_factor, max_width } => {
                OpModel::ShapeText { text: text@, font_size, scale_factor, max_width }
            },
            CanvasOp::Flush => OpModel::Flush,
            CanvasOp::SwapBuffers => OpModel::SwapBuffers,
            CanvasOp::PrePresentNotify => OpModel::PrePresentNotify,
        }
    }
}

impl PaintSettings {
    /// The settings of a new paint.
    pub open spec fn untouched() -> PaintSettings {
        PaintSettings {
            anti_alias: None,
            even_odd: None,
            line_width: None,
            miter_limit: None,
            line_cap: None,
            line_join: None,
            font_size: None,
        }
    }

    /// The settings of a new paint.
    pub fn fresh() -> (r: PaintSettings)
        ensures
            r == PaintSettings::untouched(),
    {
        PaintSettings {
            anti_alias: None,
            even_odd: None,
            line_width: None,
            miter_limit: None,
            line_cap: None,
            line_join: None,
            font_size: None,
        }
    }
}

/// What a paint of the protocol paints with; images are painted by blits only.
pub open spec fn source_of(paint: PaintModel) -> Option<SourceModel> {
    match paint {
        PaintModel::Solid { r, g, b, a } => Some(
            SourceModel::Color(Color { red: r, green: g, blue: b, alpha: a }),
        ),
        PaintModel::LinearGradient { start_x, start_y, end_x, end_y, stops } => Some(
            SourceModel::Linear {
                start: crate::geometry::Point { x: start_x, y: start_y },
                end: crate::geometry::Point { x: end_x, y: end_y },
                stops,
            },
        ),
        PaintModel::RadialGradient { cx, cy, radius, stops } => Some(
            SourceModel::Radial {
                center: crate::geometry::Point { x: cx, y: cy },
                inner: Scalar { bits: 0 },
                outer: radius,
                stops,
            },
        ),
        PaintModel::ImagePaint { .. } => None,
    }
}

/// What a paint of the protocol paints with; `None` for an image.
pub fn desc_to_paint<'a>(desc: &'a PaintDesc) -> (r: Option<PaintSource<'a>>)
    ensures
        r is Some <==> source_of(desc@) is Some,
        r matches Some(s) ==> Some(s.model()) == source_of(desc@),
{
    match desc {
        PaintDesc::Solid { r, g, b, a } => Some(
            PaintSource::Color(Color { red: *r, green: *g, blue: *b, alpha: *a }),
        ),
        PaintDesc::LinearGradient { start_x, start_y, end_x, end_y, stops } => Some(
            PaintSource::Linear {
                start: crate::geometry::Point { x: *start_x, y: *start_y },
                end: crate::geometry::Point { x: *end_x, y: *end_y },
                stops,
            },
        ),
        PaintDesc::RadialGradient { cx, cy, radius, stops } => Some(
            PaintSource::Radial {
                center: crate::geometry::Point { x: *cx, y: *cy },
                inner: Scalar { bits: 0 },
                outer: *radius,
                stops,
            },
        ),
        PaintDesc::ImagePaint { .. } => None,
    }
}

/// The outline of a rectangle with these corners: one radius where they are
/// uniform, square where that is not above zero.
pub open spec fn rounded_outline(rect: PhysicalRect, radius: PhysicalBorderRadius) -> ShapeModel {
    match radius.uniform() {
        Some(r) => if r.positive() {
            ShapeModel::Rounded(rect, r)
        } else {
            ShapeModel::Rect(rect)
        },
        None => ShapeModel::Varying(rect, radius),
    }
}

/// The outline of a rectangle with these corners.
pub fn rounded_rect_to_femtovg_path<'a>(
    rect: PhysicalRect,
    radius: PhysicalBorderRadius,
) -> (r: Shape<'a>)
    ensures
        r.model() == rounded_outline(rect, radius),
{
    match radius.as_uniform() {
        Some(r) => {
            if r.is_positive() {
                Shape::Rounded(rect, r)
            } else {
                Shape::Rect(rect)
            }
        },
        None => Shape::Varying(rect, radius),
    }
}

/// Where the whole of an image of this size lies when a part of it is stretched
/// over a rectangle; over the rectangle itself where the part is empty.
pub open spec fn whole_image(rect: PhysicalRect, part: Rect, width: u32, height: u32) -> Rect {
    if part.size.covers_nothing() {
        rect
    } else {
        let across = rect.size.width.quotient(part.size.width);
        let down = rect.size.height.quotient(part.size.height);
        Rect {
            origin: Point {
                x: rect.origin.x.difference(part.origin.x.product(across)),
                y: rect.origin.y.difference(part.origin.y.product(down)),
            },
            size: Size {
                width: Scalar::of_u32(width).product(across),
                height: Scalar::of_u32(height).product(down),
            },
        }
    }
}

/// Where the whole of an image lies when a part of it is stretched over a
/// rectangle.
pub fn place_whole_image(rect: PhysicalRect, part: Rect, width: u32, height: u32) -> (r: Rect)
    ensures
        r == whole_image(rect, part, width, height),
{
    if part.size.is_empty() {
        rect
    } else {
        let across: Scalar = rect.size.width.over(part.size.width);
        let down: Scalar = rect.size.height.over(part.size.height);
        Rect {
            origin: Point {
                x: rect.origin.x.minus(part.origin.x.times(across)),
                y: rect.origin.y.minus(part.origin.y.times(down)),
            },
            size: Size {
                width: Scalar::from_u32(width).times(across),
                height: Scalar::from_u32(height).times(down),
            },
        }
    }
}

} // verus!
