//! The retained scene: what a snapshot of the item tree holds.
//!
//! A scene is a list of draw commands with the fonts they refer to and the
//! regions of the controls that it shows.  All lengths and coordinates of draw
//! commands are in physical pixels.
use crate::geometry::{
    LogicalRect, PhysicalBorderRadius, PhysicalPoint, PhysicalRect, Point, Rect,
};
use crate::scalar::Scalar;
use vstd::prelude::*;

verus! {

/// A colour with straight alpha.
#[derive(Clone, Copy, Debug, PartialEq, Eq, Structural)]
pub struct Color {
    pub red: u8,
    pub green: u8,
    pub blue: u8,
    pub alpha: u8,
}

impl Color {
    /// The channels in the order red, green, blue, alpha.
    pub open spec fn channels(self) -> Seq<u8> {
        seq![self.red, self.green, self.blue, self.alpha]
    }
}

/// The channels in the order red, green, blue, alpha.
pub fn color_to_u8_array(c: Color) -> (r: [u8; 4])
    ensures
        r@ == c.channels(),
{
    [c.red, c.green, c.blue, c.alpha]
}

/// Frame metadata returned after a present, for diagnostics.
pub struct Frame {
    /// The size at which the frame was presented.
    pub width: u32,
    pub height: u32,
    /// Empty: a frame that was presented is not read back.
    pub pixels: Vec<u8>,
}

/// A single gradient colour stop.
#[derive(Clone, Copy, Debug)]
pub struct GradientStop {
    pub offset: Scalar,
    /// Red, green, blue, alpha.
    pub color: [u8; 4],
}

/// How a shape is painted.
#[allow(inconsistent_fields)]
#[derive(Debug)]
pub enum PaintDesc {
    /// One colour.
    Solid { r: u8, g: u8, b: u8, a: u8 },
    /// A gradient along a line.
    LinearGradient {
        start_x: Scalar,
        start_y: Scalar,
        end_x: Scalar,
        end_y: Scalar,
        stops: Vec<GradientStop>,
    },
    /// A gradient around a centre.
    RadialGradient { cx: Scalar, cy: Scalar, radius: Scalar, stops: Vec<GradientStop> },
    /// A texture.
    ImagePaint {
        texture_key: u64,
        x: Scalar,
        y: Scalar,
        w: Scalar,
        h: Scalar,
        tex_x: Scalar,
        tex_y: Scalar,
        tex_w: Scalar,
        tex_h: Scalar,
        flags: u32,
    },
}

/// One segment of a vector path.
#[derive(Clone, Copy, Debug, PartialEq, Eq, Structural)]
pub enum PathEvent {
    MoveTo(Scalar, Scalar),
    LineTo(Scalar, Scalar),
    QuadTo(Scalar, Scalar, Scalar, Scalar),
    CubicTo(Scalar, Scalar, Scalar, Scalar, Scalar, Scalar),
    Close,
}

/// A glyph at its place in a run.
#[derive(Clone, Copy, Debug, PartialEq, Eq, Structural)]
pub struct PositionedGlyph {
    pub x: Scalar,
    pub y: Scalar,
    pub id: u16,
}

/// Line cap style for strokes.
#[derive(Clone, Copy, Debug, PartialEq, Eq, Structural)]
pub enum LineCapDesc {
    Butt,
    Round,
    Square,
}

/// Line join style for strokes.
#[derive(Clone, Copy, Debug, PartialEq, Eq, Structural)]
pub enum LineJoinDesc {
    Miter,
    Round,
    Bevel,
}

/// The screen region of a control.
#[derive(Clone, Copy, Debug, PartialEq, Eq, Structural)]
pub struct ControlRegion {
    /// Opaque handle of the item behind the control.
    pub id: u64,
    pub geometry: LogicalRect,
}

/// An entry of the shared coordinate table, in logical pixels.
#[derive(Clone, Copy, Debug, PartialEq, Eq, Structural)]
pub struct ControlCoord {
    pub x: Scalar,
    pub y: Scalar,
    pub width: Scalar,
    pub height: Scalar,
    /// Current pointer-interaction state of the control.
    pub hovered: bool,
    pub pressed: bool,
}

impl Default for ControlCoord {
    fn default() -> (r: ControlCoord)
        ensures
            r.x.bits == 0,
            r.y.bits == 0,
            r.width.bits == 0,
            r.height.bits == 0,
            !r.hovered,
            !r.pressed,
    {
        let zero: Scalar = Scalar { bits: 0 };
        ControlCoord {
            x: zero,
            y: zero,
            width: zero,
            height: zero,
            hovered: false,
            pressed: false,
        }
    }
}

impl ControlCoord {
    /// The rectangle of the control.
    pub open spec fn rect(self) -> Rect {
        Rect {
            origin: Point { x: self.x, y: self.y },
            size: crate::geometry::Size { width: self.width, height: self.height },
        }
    }

    /// True when the logical point is inside this control's rectangle.
    pub fn contains(&self, px: Scalar, py: Scalar) -> (r: bool)
        ensures
            r == self.rect().covers(Point { x: px, y: py }),
    {
        self.x.less_or_equal(px) && px.less_than(self.x.plus(self.width))
            && self.y.less_or_equal(py) && py.less_than(self.y.plus(self.height))
    }
}

/// One unique font payload of a frame.
#[derive(Debug)]
pub struct SceneFont {
    /// Stable id of the font data.
    pub blob_id: u64,
    /// Index of the font in a collection, or 0 for a single font.
    pub font_index: u32,
    pub data: Vec<u8>,
}

/// A single draw command of a scene.
#[allow(inconsistent_fields)]
#[derive(Debug)]
pub enum DrawCommand {
    /// Push the canvas state.
    Save,
    /// Pop the canvas state.
    Restore,
    Translate(Scalar, Scalar),
    /// An angle in radians.
    Rotate(Scalar),
    Scale(Scalar, Scalar),
    /// Set the global alpha.
    SetGlobalAlpha(Scalar),
    /// Intersect the clip with a rectangle.
    CombineClip(PhysicalRect),
    /// Fill a rectangle with square corners.
    FillRect { rect: PhysicalRect, paint: PaintDesc, anti_alias: bool },
    /// Fill a rounded rectangle.
    FillRoundedRect {
        rect: PhysicalRect,
        paint: PaintDesc,
        radius: PhysicalBorderRadius,
        anti_alias: bool,
    },
    /// Stroke a rounded rectangle.
    StrokeRoundedRect {
        rect: PhysicalRect,
        paint: PaintDesc,
        radius: PhysicalBorderRadius,
        line_width: Scalar,
        anti_alias: bool,
    },
    /// Stroke a path.
    StrokePath {
        path: Vec<PathEvent>,
        paint: PaintDesc,
        line_width: Scalar,
        line_cap: LineCapDesc,
        line_join: LineJoinDesc,
        miter_limit: Scalar,
        anti_alias: bool,
    },
    /// Fill a path; `fill_rule` 1 is even-odd, anything else non-zero.
    FillPath { path: Vec<PathEvent>, paint: PaintDesc, fill_rule: u8, anti_alias: bool },
    /// Draw a glyph run with a font of the frame.
    DrawGlyphRun {
        font_blob_id: u64,
        font_index: u32,
        font_size: Scalar,
        normalized_coords: Vec<i16>,
        paint: PaintDesc,
        y_offset: Scalar,
        glyphs: Vec<PositionedGlyph>,
        is_stroke: bool,
    },
    /// Fill a rectangle that belongs to text: an underline, a cursor.
    FillTextRect {
        rect: PhysicalRect,
        paint: PaintDesc,
        radius: Scalar,
        border: Option<(PaintDesc, Scalar)>,
    },
    /// Draw a string that the render thread shapes itself.  `x`/`y` is the
    /// baseline origin of the first line; `max_width` wraps the line.  All of them
    /// are physical pixels, and so is the font size.
    DrawText {
        x: Scalar,
        y: Scalar,
        text: String,
        font_size: Scalar,
        paint: PaintDesc,
        max_width: Option<Scalar>,
    },
    /// Upload four-channel pixels to the texture cache.
    UploadPixmap { key: u64, pixels: Vec<u8>, width: u32, height: u32 },
    /// Draw a part of an uploaded pixmap over a rectangle.  The parameters are x, y,
    /// width, height of the rectangle, x, y, width, height of the part in the
    /// pixmap's own pixels, and flags, none of which is defined.
    BlitPixmap { key: u64, params: [Scalar; 9] },
    /// Draw commands into an offscreen layer and blend it at `origin` into the
    /// target that the command was replayed into.
    Layer {
        width: u32,
        height: u32,
        origin: PhysicalPoint,
        alpha_tint: Scalar,
        commands: Vec<DrawCommand>,
    },
    /// Draw a drop shadow.
    DrawBoxShadow {
        color: Color,
        blur: Scalar,
        offset_x: Scalar,
        offset_y: Scalar,
        width: Scalar,
        height: Scalar,
        radius: PhysicalBorderRadius,
    },
    /// Upload a pixmap unless it is cached.  The command has no place to draw it at:
    /// it is blitted with parameters that are all zero, over nothing.
    CachedPixmap { key: u64, width: u32, height: u32, pixels: Vec<u8> },
}

/// Complete scene for one frame.
#[derive(Debug)]
pub struct SceneFrame {
    pub width: u32,
    pub height: u32,
    pub scale_factor: Scalar,
    /// Window background (red, green, blue, alpha), cleared before the commands
    /// replay.  `None` means that the commands carry the background instead.
    pub background: Option<[u8; 4]>,
    /// Fonts that the glyph runs refer to, each once.
    pub fonts: Vec<SceneFont>,
    pub commands: Vec<DrawCommand>,
    pub controls: Vec<ControlRegion>,
}

/// A compositing layer drawn on top of the scene of the user interface.
///
/// A new overlay replaces the previous one; an empty command list removes it.
#[derive(Debug)]
pub struct OverlayFrame {
    /// Fonts that the glyph runs in `commands` refer to.
    pub fonts: Vec<SceneFont>,
    pub commands: Vec<DrawCommand>,
}

impl Default for OverlayFrame {
    fn default() -> (r: OverlayFrame)
        ensures
            r.fonts@.len() == 0,
            r.commands@.len() == 0,
    {
        OverlayFrame { fonts: Vec::new(), commands: Vec::new() }
    }
}

/// The model of a [`GradientStop`].
pub struct StopModel {
    pub offset: Scalar,
    pub color: Seq<u8>,
}

/// The model of a [`PaintDesc`].
#[allow(inconsistent_fields)]
pub enum PaintModel {
    Solid { r: u8, g: u8, b: u8, a: u8 },
    LinearGradient {
        start_x: Scalar,
        start_y: Scalar,
        end_x: Scalar,
        end_y: Scalar,
        stops: Seq<StopModel>,
    },
    RadialGradient { cx: Scalar, cy: Scalar, radius: Scalar, stops: Seq<StopModel> },
    ImagePaint {
        texture_key: u64,
        x: Scalar,
        y: Scalar,
        w: Scalar,
        h: Scalar,
        tex_x: Scalar,
        tex_y: Scalar,
        tex_w: Scalar,
        tex_h: Scalar,
        flags: u32,
    },
}

/// The model of a [`SceneFont`].
pub struct FontModel {
    pub blob_id: u64,
    pub font_index: u32,
    pub data: Seq<u8>,
}

/// The model of a [`DrawCommand`].
#[allow(inconsistent_fields)]
pub enum CommandModel {
    Save,
    Restore,
    Translate(Scalar, Scalar),
    Rotate(Scalar),
    Scale(Scalar, Scalar),
    SetGlobalAlpha(Scalar),
    CombineClip(PhysicalRect),
    FillRect { rect: PhysicalRect, paint: PaintModel, anti_alias: bool },
    FillRoundedRect {
        rect: PhysicalRect,
        paint: PaintModel,
        radius: PhysicalBorderRadius,
        anti_alias: bool,
    },
    StrokeRoundedRect {
        rect: PhysicalRect,
        paint: PaintModel,
        radius: PhysicalBorderRadius,
        line_width: Scalar,
        anti_alias: bool,
    },
    StrokePath {
        path: Seq<PathEvent>,
        paint: PaintModel,
        line_width: Scalar,
        line_cap: LineCapDesc,
        line_join: LineJoinDesc,
        miter_limit: Scalar,
        anti_alias: bool,
    },
    FillPath { path: Seq<PathEvent>, paint: PaintModel, fill_rule: u8, anti_alias: bool },
    DrawGlyphRun {
        font_blob_id: u64,
        font_index: u32,
        font_size: Scalar,
        normalized_coords: Seq<i16>,
        paint: PaintModel,
        y_offset: Scalar,
        glyphs: Seq<PositionedGlyph>,
        is_stroke: bool,
    },
    FillTextRect {
        rect: PhysicalRect,
        paint: PaintModel,
        radius: Scalar,
        border: Option<(PaintModel, Scalar)>,
    },
    DrawText {
        x: Scalar,
        y: Scalar,
        text: Seq<char>,
        font_size: Scalar,
        paint: PaintModel,
        max_width: Option<Scalar>,
    },
    UploadPixmap { key: u64, pixels: Seq<u8>, width: u32, height: u32 },
    BlitPixmap { key: u64, params: Seq<Scalar> },
    Layer {
        width: u32,
        height: u32,
        origin: PhysicalPoint,
        alpha_tint: Scalar,
        commands: Seq<CommandModel>,
    },
    DrawBoxShadow {
        color: Color,
        blur: Scalar,
        offset_x: Scalar,
        offset_y: Scalar,
        width: Scalar,
        height: Scalar,
        radius: PhysicalBorderRadius,
    },
    CachedPixmap { key: u64, width: u32, height: u32, pixels: Seq<u8> },
}

impl GradientStop {
    pub open spec fn model(self) -> StopModel {
        StopModel { offset: self.offset, color: self.color@ }
    }
}

/// The models of a list of stops.
pub open spec fn stop_models(stops: Seq<GradientStop>) -> Seq<StopModel> {
    stops.map_values(|s: GradientStop| s.model())
}

impl View for PaintDesc {
    type V = PaintModel;

    open spec fn view(&self) -> PaintModel {
        match *self {
            PaintDesc::Solid { r, g, b, a } => PaintModel::Solid { r, g, b, a },
            PaintDesc::LinearGradient { start_x, start_y, end_x, end_y, stops } => {
                PaintModel::LinearGradient {
                    start_x,
                    start_y,
                    end_x,
                    end_y,
                    stops: stop_models(stops@),
                }
            },
            PaintDesc::RadialGradient { cx, cy, radius, stops } => {
                PaintModel::RadialGradient { cx, cy, radius, stops: stop_models(stops@) }
            },
            PaintDesc::ImagePaint {
                texture_key,
                x,
                y,
                w,
                h,
                tex_x,
                tex_y,
                tex_w,
                tex_h,
                flags,
            } => {
                PaintModel::ImagePaint {
                    texture_key,
                    x,
                    y,
                    w,
                    h,
                    tex_x,
                    tex_y,
                    tex_w,
                    tex_h,
                    flags,
                }
            },
        }
    }
}

impl View for SceneFont {
    type V = FontModel;

    open spec fn view(&self) -> FontModel {
        FontModel { blob_id: self.blob_id, font_index: self.font_index, data: self.data@ }
    }
}

impl DrawCommand {
    pub open spec fn model(self) -> CommandModel
        decreases self,
    {
        match self {
            DrawCommand::Save => CommandModel::Save,
            DrawCommand::Restore => CommandModel::Restore,
            DrawCommand::Translate(x, y) => CommandModel::Translate(x, y),
            DrawCommand::Rotate(a) => CommandModel::Rotate(a),
            DrawCommand::Scale(x, y) => CommandModel::Scale(x, y),
            DrawCommand::SetGlobalAlpha(a) => CommandModel::SetGlobalAlpha(a),
            DrawCommand::CombineClip(rect) => CommandModel::CombineClip(rect),
            DrawCommand::FillRect { rect, paint, anti_alias } => {
                CommandModel::FillRect { rect, paint: paint@, anti_alias }
            },
            DrawCommand::FillRoundedRect { rect, paint, radius, anti_alias } => {
                CommandModel::FillRoundedRect { rect, paint: paint@, radius, anti_alias }
            },
            DrawCommand::StrokeRoundedRect { rect, paint, radius, line_width, anti_alias } => {
                CommandModel::StrokeRoundedRect {
                    rect,
                    paint: paint@,
                    radius,
                    line_width,
                    anti_alias,
                }
            },
            DrawCommand::StrokePath {
                path,
                paint,
                line_width,
                line_cap,
                line_join,
                miter_limit,
                anti_alias,
            } => {
                CommandModel::StrokePath {
                    path: path@,
                    paint: paint@,
                    line_width,
                    line_cap,
                    line_join,
                    miter_limit,
                    anti_alias,
                }
            },
            DrawCommand::FillPath { path, paint, fill_rule, anti_alias } => {
                CommandModel::FillPath { path: path@, paint: paint@, fill_rule, anti_alias }
            },
            DrawCommand::DrawGlyphRun {
                font_blob_id,
                font_index,
                font_size,
                normalized_coords,
                paint,
                y_offset,
                glyphs,
                is_stroke,
            } => {
                CommandModel::DrawGlyphRun {
                    font_blob_id,
                    font_index,
                    font_size,
                    normalized_coords: normalized_coords@,
                    paint: paint@,
                    y_offset,
                    glyphs: glyphs@,
                    is_stroke,
                }
            },
            DrawCommand::FillTextRect { rect, paint, radius, border } => {
                CommandModel::FillTextRect {
                    rect,
                    paint: paint@,
                    radius,
                    border: match border {
                        Some((p, w)) => Some((p@, w)),
                        None => None,
                    },
                }
            },
            DrawCommand::DrawText { x, y, text, font_size, paint, max_width } => {
                CommandModel::DrawText { x, y, text: text@, font_size, paint: paint@, max_width }
            },
            DrawCommand::UploadPixmap { key, pixels, width, height } => {
                CommandModel::UploadPixmap { key, pixels: pixels@, width, height }
            },
            DrawCommand::BlitPixmap { key, params } => {
                CommandModel::BlitPixmap { key, params: params@ }
            },
            DrawCommand::Layer { width, height, origin, alpha_tint, commands } => {
                CommandModel::Layer {
                    width,
                    height,
                    origin,
                    alpha_tint,
                    commands: Seq::new(
                        commands@.len(),
                        |i: int|
                            if 0 <= i < commands@.len() {
                                commands@[i].model()
                            } else {
                                CommandModel::Save
                            },
                    ),
                }
            },
            DrawCommand::DrawBoxShadow { color, blur, offset_x, offset_y, width, height, radius } => {
                CommandModel::DrawBoxShadow {
                    color,
                    blur,
                    offset_x,
                    offset_y,
                    width,
                    height,
                    radius,
                }
            },
            DrawCommand::CachedPixmap { key, width, height, pixels } => {
                CommandModel::CachedPixmap { key, width, height, pixels: pixels@ }
            },
        }
    }
}

impl View for DrawCommand {
    type V = CommandModel;

    open spec fn view(&self) -> CommandModel {
        self.model()
    }
}

/// The models of a list of commands.
pub open spec fn command_models(commands: Seq<DrawCommand>) -> Seq<CommandModel> {
    commands.map_values(|c: DrawCommand| c@)
}

/// The models of a list of fonts.
pub open spec fn font_models(fonts: Seq<SceneFont>) -> Seq<FontModel> {
    fonts.map_values(|f: SceneFont| f@)
}

/// The model of a [`SceneFrame`].
pub struct SceneModel {
    pub width: u32,
    pub height: u32,
    pub scale_factor: Scalar,
    pub background: Option<Seq<u8>>,
    pub fonts: Seq<FontModel>,
    pub commands: Seq<CommandModel>,
    pub controls: Seq<ControlRegion>,
}

/// The model of an [`OverlayFrame`].
pub struct OverlayModel {
    pub fonts: Seq<FontModel>,
    pub commands: Seq<CommandModel>,
}

/// The channels of an optional background.
pub open spec fn background_model(background: Option<[u8; 4]>) -> Option<Seq<u8>> {
    match background {
        Some(channels) => Some(channels@),
        None => None,
    }
}

impl View for SceneFrame {
    type V = SceneModel;

    open spec fn view(&self) -> SceneModel {
        SceneModel {
            width: self.width,
            height: self.height,
            scale_factor: self.scale_factor,
            background: background_model(self.background),
            fonts: font_models(self.fonts@),
            commands: command_models(self.commands@),
            controls: self.controls@,
        }
    }
}

impl View for OverlayFrame {
    type V = OverlayModel;

    open spec fn view(&self) -> OverlayModel {
        OverlayModel {
            fonts: font_models(self.fonts@),
            commands: command_models(self.commands@),
        }
    }
}

} // verus!
