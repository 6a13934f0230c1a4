//! Replaying a scene against a canvas, one operation at a time.
//!
//! A [`Replay`] is a list of pending tasks.  Each step takes the first task and
//! what the canvas answered to the operation before, and gives back the next
//! operation, if the task asks for one.  Fonts and textures that the canvas
//! holds are remembered in a [`ReplayCache`] across replays.  A task that draws into
//! an image of its own remembers the target that it was started from, and the
//! canvas returns there before the image is drawn.
use crate::canvas::{
    desc_to_paint, rounded_rect_to_femtovg_path, CanvasOp, OpModel, PaintSettings, PaintSource,
    Shape, ShapeModel, SourceModel, Target,
};
use crate::encoder_draw::LayoutGlyph;
use crate::geometry::{PhysicalBorderRadius, PhysicalPoint, PhysicalRect, Point, Rect, Size};
use crate::scalar::{Scalar, HALF_BITS, ONE_BITS};
use crate::scene::{
    Color, CommandModel, DrawCommand, FontModel, OverlayFrame, OverlayModel, PaintDesc,
    PaintModel, PositionedGlyph, SceneFont, SceneFrame, SceneModel,
};
use std::collections::HashMap;
use vstd::prelude::*;

verus! {

/// Bit pattern of the tolerance below which a transform only translates, one
/// thousandth.
pub const TRANSLATION_TOLERANCE_BITS: u32 = 0x3a83_126f;

/// A run of glyphs that the render thread shaped itself.
pub struct ShapedRun {
    pub blob_id: u64,
    pub font_index: u32,
    /// The font's own bytes.
    pub data: Vec<u8>,
    pub font_size: Scalar,
    pub glyphs: Vec<LayoutGlyph>,
}

/// The model of a [`ShapedRun`].
pub struct RunModel {
    pub blob_id: u64,
    pub font_index: u32,
    pub data: Seq<u8>,
    pub font_size: Scalar,
    pub glyphs: Seq<LayoutGlyph>,
}

/// What the canvas answered to the last operation.  An answer that does not
/// belong to the operation counts as a failure of it.
pub enum Outcome {
    /// The operation has no answer.
    Done,
    /// The handle of the font, if it could be added.
    Font(Option<u64>),
    /// The handle of the image, if it could be created.
    Image(Option<u64>),
    /// Whether the image is there.
    Valid(bool),
    /// The current transform.
    Transform([Scalar; 6]),
    /// The runs of a shaped text, line by line.
    Shaped(Vec<ShapedRun>),
}

/// The model of an [`Outcome`].
pub enum OutcomeModel {
    Done,
    Font(Option<u64>),
    Image(Option<u64>),
    Valid(bool),
    Transform(Seq<Scalar>),
    Shaped(Seq<RunModel>),
}

/// The fonts and textures that the canvas holds.
pub struct ReplayCache {
    fonts: HashMap<u128, u64>,
    textures: HashMap<u64, u64>,
}

/// The model of a [`ReplayCache`].
#[verifier::ext_equal]
pub struct CacheModel {
    /// Handles of fonts by [`font_key`].
    pub fonts: Map<u128, u64>,
    /// Handles of textures by their keys.
    pub textures: Map<u64, u64>,
}

/// The key of a font in the cache.
pub open spec fn font_key(blob_id: u64, font_index: u32) -> u128 {
    (blob_id * 0x1_0000_0000 + font_index) as u128
}

/// What is left of a replay to do.
#[allow(inconsistent_fields)]
enum Task<'a> {
    Perform(CanvasOp<'a>),
    Fonts { fonts: &'a Vec<SceneFont>, at: usize },
    Commands { commands: &'a Vec<DrawCommand>, at: usize, target: Target },
    Command(&'a DrawCommand, Target),
    RegisterFont { blob_id: u64, font_index: u32, data: Vec<u8> },
    FontAdded { blob_id: u64, font_index: u32 },
    Upload { key: u64, pixels: &'a Vec<u8>, width: u32, height: u32 },
    Uploaded { key: u64 },
    Blit { key: u64, params: [Scalar; 9] },
    BlitChecked { image: u64, params: [Scalar; 9] },
    GlyphRun {
        blob_id: u64,
        font_index: u32,
        font_size: Scalar,
        normalized_coords: Vec<i16>,
        paint: &'a PaintDesc,
        y_offset: Scalar,
        glyphs: Vec<PositionedGlyph>,
        stroke: bool,
    },
    /// The glyphs are drawn once the transform is known.
    GlyphsPlaced { draw: CanvasOp<'a> },
    Text {
        x: Scalar,
        y: Scalar,
        text: &'a String,
        font_size: Scalar,
        paint: &'a PaintDesc,
        max_width: Option<Scalar>,
    },
    TextShaped { x: Scalar, y: Scalar, paint: &'a PaintDesc },
    Layer {
        width: u32,
        height: u32,
        origin: PhysicalPoint,
        alpha_tint: Scalar,
        commands: &'a Vec<DrawCommand>,
        target: Target,
    },
    LayerCreated {
        width: u32,
        height: u32,
        origin: PhysicalPoint,
        alpha_tint: Scalar,
        commands: &'a Vec<DrawCommand>,
        target: Target,
    },
    ShadowCreated(Shadow),
    ShadowBlurred { shadow: Shadow, sharp: u64 },
}

/// The model of a task.
#[allow(inconsistent_fields)]
pub enum TaskModel {
    /// One operation.
    Perform(OpModel),
    /// Register each of these fonts.
    Fonts(Seq<FontModel>),
    /// Replay each of these commands into this target.
    Commands(Seq<CommandModel>, Target),
    Command(CommandModel, Target),
    /// Add a font to the canvas unless it is there.
    RegisterFont(FontModel),
    /// Remember the font that was added.
    FontAdded { blob_id: u64, font_index: u32 },
    /// Create a texture unless it is there.
    Upload { key: u64, pixels: Seq<u8>, width: u32, height: u32 },
    /// Remember the texture that was created.
    Uploaded { key: u64 },
    /// Draw a texture if it is there.
    Blit { key: u64, params: Seq<Scalar> },
    BlitChecked { image: u64, params: Seq<Scalar> },
    /// Draw glyphs if their font is there.
    GlyphRun {
        blob_id: u64,
        font_index: u32,
        font_size: Scalar,
        normalized_coords: Seq<i16>,
        paint: PaintModel,
        y_offset: Scalar,
        glyphs: Seq<PositionedGlyph>,
        stroke: bool,
    },
    /// Draw glyphs now that the transform is known.
    GlyphsPlaced { draw: OpModel },
    /// Shape a text.
    Text {
        x: Scalar,
        y: Scalar,
        text: Seq<char>,
        font_size: Scalar,
        paint: PaintModel,
        max_width: Option<Scalar>,
    },
    /// Draw the text that was shaped.
    TextShaped { x: Scalar, y: Scalar, paint: PaintModel },
    /// Create an offscreen layer.
    Layer {
        width: u32,
        height: u32,
        origin: PhysicalPoint,
        alpha_tint: Scalar,
        commands: Seq<CommandModel>,
        target: Target,
    },
    /// Draw into the layer that was created.
    LayerCreated {
        width: u32,
        height: u32,
        origin: PhysicalPoint,
        alpha_tint: Scalar,
        commands: Seq<CommandModel>,
        target: Target,
    },
    /// Draw into the shadow image that was created.
    ShadowCreated(Shadow),
    /// Draw the shadow that was blurred out of the sharp one.
    ShadowBlurred { shadow: Shadow, sharp: u64 },
}

/// A box shadow with the size of its image and the target that it is drawn into.
#[derive(Clone, Copy, Debug, PartialEq, Eq, Structural)]
pub struct Shadow {
    pub color: Color,
    pub blur: Scalar,
    pub offset_x: Scalar,
    pub offset_y: Scalar,
    pub width: Scalar,
    pub height: Scalar,
    pub radius: PhysicalBorderRadius,
    pub image_width: u32,
    pub image_height: u32,
    pub target: Target,
}

impl ShapedRun {
    pub open spec fn model(self) -> RunModel {
        RunModel {
            blob_id: self.blob_id,
            font_index: self.font_index,
            data: self.data@,
            font_size: self.font_size,
            glyphs: self.glyphs@,
        }
    }
}

/// The models of a list of runs.
pub open spec fn run_models(runs: Seq<ShapedRun>) -> Seq<RunModel> {
    runs.map_values(|r: ShapedRun| r.model())
}

impl View for Outcome {
    type V = OutcomeModel;

    open spec fn view(&self) -> OutcomeModel {
        match *self {
            Outcome::Done => OutcomeModel::Done,
            Outcome::Font(handle) => OutcomeModel::Font(handle),
            Outcome::Image(handle) => OutcomeModel::Image(handle),
            Outcome::Valid(valid) => OutcomeModel::Valid(valid),
            Outcome::Transform(t) => OutcomeModel::Transform(t@),
            Outcome::Shaped(runs) => OutcomeModel::Shaped(run_models(runs@)),
        }
    }
}

/// What is left of a list from a position on.
pub open spec fn left_from<T>(list: Seq<T>, at: int) -> Seq<T> {
    if 0 <= at <= list.len() {
        list.skip(at)
    } else {
        Seq::empty()
    }
}

impl<'a> Task<'a> {
    spec fn model(self) -> TaskModel {
        match self {
            Task::Perform(op) => TaskModel::Perform(op.model()),
            Task::Fonts { fonts, at } => TaskModel::Fonts(
                left_from(crate::scene::font_models(fonts@), at as int),
            ),
            Task::Commands { commands, at, target } => TaskModel::Commands(
                left_from(crate::scene::command_models(commands@), at as int),
                target,
            ),
            Task::Command(c, target) => TaskModel::Command(c@, target),
            Task::RegisterFont { blob_id, font_index, data } => {
                TaskModel::RegisterFont(FontModel { blob_id, font_index, data: data@ })
            },
            Task::FontAdded { blob_id, font_index } => {
                TaskModel::FontAdded { blob_id, font_index }
            },
            Task::Upload { key, pixels, width, height } => {
                TaskModel::Upload { key, pixels: pixels@, width, height }
            },
            Task::Uploaded { key } => TaskModel::Uploaded { key },
            Task::Blit { key, params } => TaskModel::Blit { key, params: params@ },
            Task::BlitChecked { image, params } => {
                TaskModel::BlitChecked { image, params: params@ }
            },
            Task::GlyphRun {
                blob_id,
                font_index,
                font_size,
                normalized_coords,
                paint,
                y_offset,
                glyphs,
                stroke,
            } => {
                TaskModel::GlyphRun {
                    blob_id,
                    font_index,
                    font_size,
                    normalized_coords: normalized_coords@,
                    paint: paint@,
                    y_offset,
                    glyphs: glyphs@,
                    stroke,
                }
            },
            Task::GlyphsPlaced { draw } => TaskModel::GlyphsPlaced { draw: draw.model() },
            Task::Text { x, y, text, font_size, paint, max_width } => {
                TaskModel::Text { x, y, text: text@, font_size, paint: paint@, max_width }
            },
            Task::TextShaped { x, y, paint } => TaskModel::TextShaped { x, y, paint: paint@ },
            Task::Layer { width, height, origin, alpha_tint, commands, target } => {
                TaskModel::Layer {
                    width,
                    height,
                    origin,
                    alpha_tint,
                    commands: crate::scene::command_models(commands@),
                    target,
                }
            },
            Task::LayerCreated { width, height, origin, alpha_tint, commands, target } => {
                TaskModel::LayerCreated {
                    width,
                    height,
                    origin,
                    alpha_tint,
                    commands: crate::scene::command_models(commands@),
                    target,
                }
            },
            Task::ShadowCreated(shadow) => TaskModel::ShadowCreated(shadow),
            Task::ShadowBlurred { shadow, sharp } => {
                TaskModel::ShadowBlurred { shadow, sharp }
            },
        }
    }
}

/// One operation as a list of tasks.
pub open spec fn just(op: OpModel) -> Seq<TaskModel> {
    seq![TaskModel::Perform(op)]
}

/// Nothing to do.
pub open spec fn nothing() -> Seq<TaskModel> {
    Seq::empty()
}

/// Paint settings with anti-aliasing switched.
pub open spec fn aliased(anti_alias: bool) -> PaintSettings {
    PaintSettings { anti_alias: Some(anti_alias), ..PaintSettings::untouched() }
}

/// Fill a shape; nothing where the paint is an image.
pub open spec fn filled(shape: ShapeModel, paint: PaintModel, settings: PaintSettings) -> Seq<
    TaskModel,
> {
    match crate::canvas::source_of(paint) {
        Some(source) => just(OpModel::Fill { shape, source, settings }),
        None => nothing(),
    }
}

/// Stroke a shape; nothing where the paint is an image.
pub open spec fn stroked(shape: ShapeModel, paint: PaintModel, settings: PaintSettings) -> Seq<
    TaskModel,
> {
    match crate::canvas::source_of(paint) {
        Some(source) => just(OpModel::Stroke { shape, source, settings }),
        None => nothing(),
    }
}

/// The parameters of a cached pixmap's blit.
pub open spec fn no_params() -> Seq<Scalar> {
    Seq::new(9, |i: int| Scalar { bits: 0 })
}

/// The box shadow with the size of its image, or `None` where there is nothing
/// to draw: it neither blurs nor moves, or its image would be empty.
pub open spec fn shadow_of(
    color: Color,
    blur: Scalar,
    offset_x: Scalar,
    offset_y: Scalar,
    width: Scalar,
    height: Scalar,
    radius: PhysicalBorderRadius,
    target: Target,
) -> Option<Shadow> {
    let image_width = width.sum(blur).rounded_up().whole_u32();
    let image_height = height.sum(blur).rounded_up().whole_u32();
    if (blur.zero_valued() && offset_x.zero_valued() && offset_y.zero_valued()) || image_width == 0
        || image_height == 0 {
        None
    } else {
        Some(
            Shadow {
                color,
                blur,
                offset_x,
                offset_y,
                width,
                height,
                radius,
                image_width: image_width as u32,
                image_height: image_height as u32,
                target,
            },
        )
    }
}

/// What a command that is replayed into this target asks to do.
pub open spec fn expansion(command: CommandModel, target: Target) -> Seq<TaskModel> {
    match command {
        CommandModel::Save => just(OpModel::Save),
        CommandModel::Restore => just(OpModel::Restore),
        CommandModel::Translate(x, y) => just(OpModel::Translate(x, y)),
        CommandModel::Rotate(angle) => just(OpModel::Rotate(angle)),
        CommandModel::Scale(x, y) => just(OpModel::Scale(x, y)),
        CommandModel::SetGlobalAlpha(alpha) => just(OpModel::SetGlobalAlpha(alpha)),
        CommandModel::CombineClip(rect) => just(OpModel::IntersectScissor(rect)),
        CommandModel::FillRect { rect, paint, anti_alias } => {
            filled(ShapeModel::Rect(rect), paint, aliased(anti_alias))
        },
        CommandModel::FillRoundedRect { rect, paint, radius, anti_alias } => {
            filled(crate::canvas::rounded_outline(rect, radius), paint, aliased(anti_alias))
        },
        CommandModel::StrokeRoundedRect { rect, paint, radius, line_width, anti_alias } => {
            stroked(
                crate::canvas::rounded_outline(rect, radius),
                paint,
                PaintSettings { line_width: Some(line_width), ..aliased(anti_alias) },
            )
        },
        CommandModel::StrokePath {
            path,
            paint,
            line_width,
            line_cap,
            line_join,
            miter_limit,
            anti_alias,
        } => {
            stroked(
                ShapeModel::Path(path),
                paint,
                PaintSettings {
                    line_width: Some(line_width),
                    miter_limit: Some(miter_limit),
                    line_cap: Some(line_cap),
                    line_join: Some(line_join),
                    ..aliased(anti_alias)
                },
            )
        },
        CommandModel::FillPath { path, paint, fill_rule, anti_alias } => {
            filled(
                ShapeModel::Path(path),
                paint,
                PaintSettings { even_odd: Some(fill_rule == 1), ..aliased(anti_alias) },
            )
        },
        CommandModel::DrawGlyphRun {
            font_blob_id,
            font_index,
            font_size,
            normalized_coords,
            paint,
            y_offset,
            glyphs,
            is_stroke,
        } => {
            seq![
                TaskModel::GlyphRun {
                    blob_id: font_blob_id,
                    font_index,
                    font_size,
                    normalized_coords,
                    paint,
                    y_offset,
                    glyphs,
                    stroke: is_stroke,
                },
            ]
        },
        CommandModel::FillTextRect { rect, paint, radius, border } => {
            let shape = if radius.positive() {
                ShapeModel::Rounded(rect, radius)
            } else {
                ShapeModel::Rect(rect)
            };
            if crate::canvas::source_of(paint) is None {
                nothing()
            } else {
                filled(shape, paint, PaintSettings::untouched()) + match border {
                    Some((border_paint, width)) => stroked(
                        shape,
                        border_paint,
                        PaintSettings { line_width: Some(width), ..PaintSettings::untouched() },
                    ),
                    None => nothing(),
                }
            }
        },
        CommandModel::DrawText { x, y, text, font_size, paint, max_width } => {
            if text.len() == 0 {
                nothing()
            } else {
                seq![TaskModel::Text { x, y, text, font_size, paint, max_width }]
            }
        },
        CommandModel::UploadPixmap { key, pixels, width, height } => {
            seq![TaskModel::Upload { key, pixels, width, height }]
        },
        CommandModel::BlitPixmap { key, params } => seq![TaskModel::Blit { key, params }],
        CommandModel::Layer { width, height, origin, alpha_tint, commands } => {
            seq![TaskModel::Layer { width, height, origin, alpha_tint, commands, target }]
        },
        CommandModel::DrawBoxShadow { color, blur, offset_x, offset_y, width, height, radius } => {
            match shadow_of(color, blur, offset_x, offset_y, width, height, radius, target) {
                Some(s) => seq![
                    TaskModel::Perform(
                        OpModel::CreateEmptyImage {
                            width: s.image_width,
                            height: s.image_height,
                            flip_y: false,
                        },
                    ),
                    TaskModel::ShadowCreated(s),
                ],
                None => nothing(),
            }
        },
        CommandModel::CachedPixmap { key, width, height, pixels } => {
            seq![
                TaskModel::Upload { key, pixels, width, height },
                TaskModel::Blit { key, params: no_params() },
            ]
        },
    }
}

/// A colour in which nothing shows.
pub open spec fn transparent() -> Color {
    Color { red: 0, green: 0, blue: 0, alpha: 0 }
}

pub open spec fn white() -> Color {
    Color { red: 255, green: 255, blue: 255, alpha: 255 }
}

/// Draw a part of an image over a rectangle, without anti-aliasing.
pub open spec fn image_drawn(image: u64, rect: PhysicalRect, part: Rect, alpha: Scalar) -> Seq<
    TaskModel,
> {
    just(
        OpModel::Fill {
            shape: ShapeModel::Rect(rect),
            source: SourceModel::Image { image, rect, part, alpha },
            settings: aliased(false),
        },
    )
}

/// The rectangle of an image of this size at a point.
pub open spec fn image_rect(origin: PhysicalPoint, width: u32, height: u32) -> PhysicalRect {
    Rect { origin, size: Size { width: Scalar::of_u32(width), height: Scalar::of_u32(height) } }
}

/// Start to draw into an offscreen image.
pub open spec fn offscreen(image: u64, width: u32, height: u32) -> Seq<TaskModel> {
    seq![
        TaskModel::Perform(OpModel::Save),
        TaskModel::Perform(OpModel::SetRenderTarget(Target::Image(image))),
        TaskModel::Perform(OpModel::Reset),
        TaskModel::Perform(OpModel::Clear { width, height, color: transparent() }),
    ]
}

/// Draw commands into a layer, return to the target that it was started from, and
/// draw the layer there at its origin.
pub open spec fn layer_drawn(
    image: u64,
    width: u32,
    height: u32,
    origin: PhysicalPoint,
    alpha_tint: Scalar,
    commands: Seq<CommandModel>,
    target: Target,
) -> Seq<TaskModel> {
    offscreen(image, width, height) + just(
        OpModel::Translate(origin.x.opposite(), origin.y.opposite()),
    ) + seq![TaskModel::Commands(commands, Target::Image(image))] + just(OpModel::Restore) + just(
        OpModel::SetRenderTarget(target),
    ) + image_drawn(
        image,
        image_rect(origin, width, height),
        image_rect(Point::spec_origin(), width, height),
        alpha_tint,
    ) + just(OpModel::DeleteImage(image))
}

/// Draw the sharp shadow into its image, then blur it or draw it.
pub open spec fn shadow_drawn(s: Shadow, image: u64) -> Seq<TaskModel> {
    offscreen(image, s.image_width, s.image_height) + just(
        OpModel::Fill {
            shape: crate::canvas::rounded_outline(
                Rect::at_origin(Size { width: s.width, height: s.height }),
                s.radius,
            ),
            source: SourceModel::Color(white()),
            settings: PaintSettings::untouched(),
        },
    ) + if s.blur.positive() {
        seq![
            TaskModel::Perform(
                OpModel::CreateEmptyImage {
                    width: s.image_width,
                    height: s.image_height,
                    flip_y: false,
                },
            ),
            TaskModel::ShadowBlurred { shadow: s, sharp: image },
        ]
    } else {
        shadow_finished(s, image)
    }
}

/// Tint the shadow, return to the target that it was started from, and draw it
/// there at its offset.
pub open spec fn shadow_finished(s: Shadow, image: u64) -> Seq<TaskModel> {
    let at = Point { x: s.offset_x.difference(s.blur), y: s.offset_y.difference(s.blur) };
    seq![
        TaskModel::Perform(OpModel::Save),
        TaskModel::Perform(OpModel::CompositeSourceIn),
        TaskModel::Perform(
            OpModel::Fill {
                shape: ShapeModel::Rect(
                    image_rect(Point::spec_origin(), s.image_width, s.image_height),
                ),
                source: SourceModel::Color(s.color),
                settings: PaintSettings::untouched(),
            },
        ),
        TaskModel::Perform(OpModel::Restore),
        TaskModel::Perform(OpModel::Restore),
        TaskModel::Perform(OpModel::SetRenderTarget(s.target)),
    ] + image_drawn(
        image,
        image_rect(at, s.image_width, s.image_height),
        image_rect(Point::spec_origin(), s.image_width, s.image_height),
        Scalar { bits: ONE_BITS },
    ) + just(OpModel::DeleteImage(image))
}

/// Whether a number is within the tolerance of zero.
pub open spec fn negligible(a: Scalar) -> bool {
    a.absolute().below(Scalar { bits: TRANSLATION_TOLERANCE_BITS })
}

/// Whether a transform only translates.
pub open spec fn only_translates(t: Seq<Scalar>) -> bool {
    let one = Scalar { bits: ONE_BITS };
    &&& negligible(t[0].difference(one))
    &&& negligible(t[1])
    &&& negligible(t[2])
    &&& negligible(t[3].difference(one))
}

/// The transform on the pixel grid.
pub open spec fn on_grid(t: Seq<Scalar>) -> Seq<Scalar> {
    t.map_values(|s: Scalar| s.rounded())
}

/// Draw glyphs: on the pixel grid where the transform only translates, and as
/// they stand otherwise.
pub open spec fn glyphs_drawn(draw: OpModel, t: Seq<Scalar>) -> Seq<TaskModel> {
    if only_translates(t) {
        seq![
            TaskModel::Perform(OpModel::ResetTransform),
            TaskModel::Perform(OpModel::SetTransform(on_grid(t))),
            TaskModel::Perform(draw),
            TaskModel::Perform(OpModel::ResetTransform),
            TaskModel::Perform(OpModel::SetTransform(t)),
        ]
    } else {
        just(draw)
    }
}

/// Glyphs moved down by an offset.
pub open spec fn lowered(glyphs: Seq<PositionedGlyph>, y_offset: Scalar) -> Seq<PositionedGlyph> {
    glyphs.map_values(
        |g: PositionedGlyph| PositionedGlyph { x: g.x, y: g.y.sum(y_offset), id: g.id },
    )
}

/// Whether one of the runs has this font.
pub open spec fn has_run_with(runs: Seq<RunModel>, blob_id: u64, font_index: u32) -> bool {
    exists|i: int|
        0 <= i < runs.len() && (#[trigger] runs[i]).blob_id == blob_id && runs[i].font_index
            == font_index
}

/// The baseline of the first line: that of the first glyph, if there is any.
pub open spec fn first_baseline(runs: Seq<RunModel>) -> Option<Scalar>
    decreases runs.len(),
{
    if runs.len() == 0 {
        None
    } else {
        match first_baseline(runs.drop_last()) {
            Some(y) => Some(y),
            None => if runs.last().glyphs.len() > 0 {
                Some(runs.last().glyphs[0].y)
            } else {
                None
            },
        }
    }
}

/// The glyphs of a shaped run, moved right.
pub open spec fn shifted(glyphs: Seq<LayoutGlyph>, x: Scalar) -> Seq<PositionedGlyph> {
    glyphs.map_values(
        |g: LayoutGlyph| PositionedGlyph { x: x.sum(g.x), y: g.y, id: (g.id % 65536) as u16 },
    )
}

/// Draw the runs of a shaped text.  Each font is registered where it comes first,
/// and the lines stack below the baseline of the first one.
pub open spec fn text_drawn(runs: Seq<RunModel>, x: Scalar, y: Scalar, paint: PaintModel) -> Seq<
    TaskModel,
>
    decreases runs.len(),
{
    if runs.len() == 0 {
        nothing()
    } else {
        let earlier = runs.drop_last();
        let run = runs.last();
        text_drawn(earlier, x, y, paint) + (if has_run_with(earlier, run.blob_id, run.font_index) {
            nothing()
        } else {
            seq![
                TaskModel::RegisterFont(
                    FontModel {
                        blob_id: run.blob_id,
                        font_index: run.font_index,
                        data: run.data,
                    },
                ),
            ]
        }) + (if run.glyphs.len() == 0 {
            nothing()
        } else {
            seq![
                TaskModel::GlyphRun {
                    blob_id: run.blob_id,
                    font_index: run.font_index,
                    font_size: run.font_size,
                    normalized_coords: Seq::empty(),
                    paint,
                    y_offset: y.difference(first_baseline(runs)->0),
                    glyphs: shifted(run.glyphs, x),
                    stroke: false,
                },
            ]
        })
    }
}

/// What a step leads to.
#[verifier::ext_equal]
pub struct StepModel {
    /// What is pending instead of the first task.
    pub tasks: Seq<TaskModel>,
    pub cache: CacheModel,
    /// The operation to perform, if any.
    pub op: Option<OpModel>,
}

/// No operation, but other tasks first.
pub open spec fn becoming(tasks: Seq<TaskModel>, cache: CacheModel) -> StepModel {
    StepModel { tasks, cache, op: None }
}

/// An operation, and then other tasks first.
pub open spec fn performing(op: OpModel, tasks: Seq<TaskModel>, cache: CacheModel) -> StepModel {
    StepModel { tasks, cache, op: Some(op) }
}

/// What the first task leads to, given the answer to the operation before.
pub open spec fn step_of(
    task: TaskModel,
    cache: CacheModel,
    outcome: OutcomeModel,
) -> StepModel {
    match task {
        TaskModel::Perform(op) => performing(op, nothing(), cache),
        TaskModel::Fonts(fonts) => if fonts.len() == 0 {
            becoming(nothing(), cache)
        } else {
            becoming(
                seq![TaskModel::RegisterFont(fonts[0]), TaskModel::Fonts(fonts.skip(1))],
                cache,
            )
        },
        TaskModel::Commands(commands, target) => if commands.len() == 0 {
            becoming(nothing(), cache)
        } else {
            becoming(
                seq![
                    TaskModel::Command(commands[0], target),
                    TaskModel::Commands(commands.skip(1), target),
                ],
                cache,
            )
        },
        TaskModel::Command(command, target) => becoming(expansion(command, target), cache),
        TaskModel::RegisterFont(font) => if cache.fonts.contains_key(
            font_key(font.blob_id, font.font_index),
        ) {
            becoming(nothing(), cache)
        } else {
            performing(
                OpModel::AddFont { data: font.data, font_index: font.font_index },
                seq![
                    TaskModel::FontAdded { blob_id: font.blob_id, font_index: font.font_index },
                ],
                cache,
            )
        },
        TaskModel::FontAdded { blob_id, font_index } => becoming(
            nothing(),
            match outcome {
                OutcomeModel::Font(Some(handle)) => CacheModel {
                    fonts: cache.fonts.insert(font_key(blob_id, font_index), handle),
                    ..cache
                },
                _ => cache,
            },
        ),
        TaskModel::Upload { key, pixels, width, height } => if cache.textures.contains_key(key) {
            becoming(nothing(), cache)
        } else {
            performing(
                OpModel::CreateImage { pixels, width, height },
                seq![TaskModel::Uploaded { key }],
                cache,
            )
        },
        TaskModel::Uploaded { key } => becoming(
            nothing(),
            match outcome {
                OutcomeModel::Image(Some(handle)) => CacheModel {
                    textures: cache.textures.insert(key, handle),
                    ..cache
                },
                _ => cache,
            },
        ),
        TaskModel::Blit { key, params } => if cache.textures.contains_key(key) {
            performing(
                OpModel::CheckImage(cache.textures[key]),
                seq![TaskModel::BlitChecked { image: cache.textures[key], params }],
                cache,
            )
        } else {
            becoming(nothing(), cache)
        },
        TaskModel::BlitChecked { image, params } => becoming(
            match outcome {
                OutcomeModel::Valid(true) => image_drawn(
                    image,
                    Rect {
                        origin: Point { x: params[0], y: params[1] },
                        size: Size { width: params[2], height: params[3] },
                    },
                    Rect {
                        origin: Point { x: params[4], y: params[5] },
                        size: Size { width: params[6], height: params[7] },
                    },
                    Scalar { bits: ONE_BITS },
                ),
                _ => nothing(),
            },
            cache,
        ),
        TaskModel::GlyphRun {
            blob_id,
            font_index,
            font_size,
            normalized_coords,
            paint,
            y_offset,
            glyphs,
            stroke,
        } => if crate::canvas::source_of(paint) is Some && cache.fonts.contains_key(
            font_key(blob_id, font_index),
        ) {
            performing(
                OpModel::QueryTransform,
                seq![
                    TaskModel::GlyphsPlaced {
                        draw: OpModel::Glyphs {
                            font: cache.fonts[font_key(blob_id, font_index)],
                            normalized_coords,
                            glyphs: lowered(glyphs, y_offset),
                            source: crate::canvas::source_of(paint)->0,
                            settings: PaintSettings {
                                font_size: Some(font_size),
                                ..PaintSettings::untouched()
                            },
                            stroke,
                        },
                    },
                ],
                cache,
            )
        } else {
            becoming(nothing(), cache)
        },
        TaskModel::GlyphsPlaced { draw } => becoming(
            match outcome {
                OutcomeModel::Transform(t) => glyphs_drawn(draw, t),
                _ => nothing(),
            },
            cache,
        ),
        TaskModel::Text { x, y, text, font_size, paint, max_width } => performing(
            OpModel::ShapeText {
                text,
                font_size,
                scale_factor: Scalar { bits: ONE_BITS },
                max_width,
            },
            seq![TaskModel::TextShaped { x, y, paint }],
            cache,
        ),
        TaskModel::TextShaped { x, y, paint } => becoming(
            match outcome {
                OutcomeModel::Shaped(runs) => text_drawn(runs, x, y, paint),
                _ => nothing(),
            },
            cache,
        ),
        TaskModel::Layer { width, height, origin, alpha_tint, commands, target } => performing(
            OpModel::CreateEmptyImage { width, height, flip_y: true },
            seq![TaskModel::LayerCreated { width, height, origin, alpha_tint, commands, target }],
            cache,
        ),
        TaskModel::LayerCreated { width, height, origin, alpha_tint, commands, target } => becoming(
            match outcome {
                OutcomeModel::Image(Some(image)) => layer_drawn(
                    image,
                    width,
                    height,
                    origin,
                    alpha_tint,
                    commands,
                    target,
                ),
                _ => nothing(),
            },
            cache,
        ),
        TaskModel::ShadowCreated(shadow) => becoming(
            match outcome {
                OutcomeModel::Image(Some(image)) => shadow_drawn(shadow, image),
                _ => nothing(),
            },
            cache,
        ),
        TaskModel::ShadowBlurred { shadow, sharp } => becoming(
            match outcome {
                OutcomeModel::Image(Some(image)) => just(
                    OpModel::BlurImage {
                        target: image,
                        sigma: shadow.blur.product(Scalar { bits: HALF_BITS }),
                        source: sharp,
                    },
                ) + just(OpModel::SetRenderTarget(Target::Image(image))) + just(
                    OpModel::DeleteImage(sharp),
                ) + shadow_finished(shadow, image),
                _ => seq![
                    TaskModel::Perform(OpModel::Restore),
                    TaskModel::Perform(OpModel::SetRenderTarget(shadow.target)),
                    TaskModel::Perform(OpModel::DeleteImage(sharp)),
                ],
            },
            cache,
        ),
    }
}

/// What a step of a list of tasks leads to: its first task gives way to what it
/// becomes, and the others wait.
pub open spec fn step(
    pending: Seq<TaskModel>,
    cache: CacheModel,
    outcome: OutcomeModel,
) -> StepModel {
    let s = step_of(pending[0], cache, outcome);
    StepModel { tasks: s.tasks + pending.skip(1), ..s }
}

/// The tasks of a frame: its fonts and those of the overlay, the background, its
/// commands, those of the overlay on top, and then the frame is presented.
pub open spec fn frame_tasks(
    width: u32,
    height: u32,
    scale_factor: Scalar,
    frame: SceneModel,
    overlay: OverlayModel,
) -> Seq<TaskModel> {
    let color = match frame.background {
        Some(c) => Color { red: c[0], green: c[1], blue: c[2], alpha: c[3] },
        None => white(),
    };
    seq![
        TaskModel::Fonts(frame.fonts),
        TaskModel::Fonts(overlay.fonts),
        TaskModel::Perform(OpModel::SetSize { width, height, dpi: scale_factor.rounded_up() }),
        TaskModel::Perform(OpModel::Reset),
        TaskModel::Perform(OpModel::Clear { width, height, color }),
        TaskModel::Commands(frame.commands, Target::Screen),
        TaskModel::Commands(overlay.commands, Target::Screen),
        TaskModel::Perform(OpModel::Flush),
        TaskModel::Perform(OpModel::SwapBuffers),
        TaskModel::Perform(OpModel::PrePresentNotify),
    ]
}

/// The models of a list of tasks.
spec fn task_models<'a>(tasks: Seq<Task<'a>>) -> Seq<TaskModel> {
    tasks.map_values(|t: Task<'a>| t.model())
}

impl ReplayCache {
    pub closed spec fn model(self) -> CacheModel {
        CacheModel { fonts: self.fonts@, textures: self.textures@ }
    }
}

impl View for ReplayCache {
    type V = CacheModel;

    open spec fn view(&self) -> CacheModel {
        self.model()
    }
}

fn key_of_font(blob_id: u64, font_index: u32) -> (r: u128)
    ensures
        r == font_key(blob_id, font_index),
{
    (blob_id as u128) * 0x1_0000_0000 + font_index as u128
}

impl ReplayCache {
    /// The cache of a new canvas.
    pub fn new() -> (r: ReplayCache)
        ensures
            r@ == (CacheModel { fonts: Map::empty(), textures: Map::empty() }),
    {
        ReplayCache { fonts: HashMap::new(), textures: HashMap::new() }
    }

    /// The handle of a font, if it was added.
    pub fn get_or_create_font(&self, blob_id: u64, font_index: u32) -> (r: Option<u64>)
        ensures
            r == if self@.fonts.contains_key(font_key(blob_id, font_index)) {
                Some(self@.fonts[font_key(blob_id, font_index)])
            } else {
                None
            },
    {
        match self.fonts.get(&key_of_font(blob_id, font_index)) {
            Some(handle) => Some(*handle),
            None => None,
        }
    }
}

fn perform<'a>(op: CanvasOp<'a>) -> (r: Vec<Task<'a>>)
    ensures
        task_models(r@) == just(op.model()),
{
    let mut tasks: Vec<Task<'a>> = Vec::new();
    tasks.push(Task::Perform(op));
    proof {
        assert(task_models(tasks@) =~= just(op.model()));
    }
    tasks
}

fn no_tasks<'a>() -> (r: Vec<Task<'a>>)
    ensures
        task_models(r@) == nothing(),
{
    let tasks: Vec<Task<'a>> = Vec::new();
    proof {
        assert(task_models(tasks@) =~= nothing());
    }
    tasks
}

fn one_task<'a>(task: Task<'a>) -> (r: Vec<Task<'a>>)
    ensures
        task_models(r@) == seq![task.model()],
{
    let mut tasks: Vec<Task<'a>> = Vec::new();
    tasks.push(task);
    proof {
        assert(task_models(tasks@) =~= seq![task.model()]);
    }
    tasks
}

fn then_push<'a>(tasks: &mut Vec<Task<'a>>, task: Task<'a>)
    ensures
        task_models(final(tasks)@) == task_models(old(tasks)@) + seq![task.model()],
{
    tasks.push(task);
    proof {
        assert(task_models(tasks@) =~= task_models(old(tasks)@) + seq![task.model()]);
    }
}

fn with_anti_alias(anti_alias: bool) -> (r: PaintSettings)
    ensures
        r == aliased(anti_alias),
{
    let mut settings: PaintSettings = PaintSettings::fresh();
    settings.anti_alias = Some(anti_alias);
    settings
}

fn fill<'a>(shape: Shape<'a>, paint: &'a PaintDesc, settings: PaintSettings) -> (r: Vec<Task<'a>>)
    ensures
        task_models(r@) == filled(shape.model(), paint@, settings),
{
    match desc_to_paint(paint) {
        Some(source) => perform(CanvasOp::Fill { shape, source, settings }),
        None => no_tasks(),
    }
}

fn stroke<'a>(shape: Shape<'a>, paint: &'a PaintDesc, settings: PaintSettings) -> (r: Vec<
    Task<'a>,
>)
    ensures
        task_models(r@) == stroked(shape.model(), paint@, settings),
{
    match desc_to_paint(paint) {
        Some(source) => perform(CanvasOp::Stroke { shape, source, settings }),
        None => no_tasks(),
    }
}

fn text_rect_shape<'a>(rect: PhysicalRect, radius: Scalar) -> (r: Shape<'a>)
    ensures
        r.model() == if radius.positive() {
            ShapeModel::Rounded(rect, radius)
        } else {
            ShapeModel::Rect(rect)
        },
{
    if radius.is_positive() {
        Shape::Rounded(rect, radius)
    } else {
        Shape::Rect(rect)
    }
}

fn expand_text_rect<'a>(
    rect: PhysicalRect,
    paint: &'a PaintDesc,
    radius: Scalar,
    border: &'a Option<(PaintDesc, Scalar)>,
    target: Target,
) -> (r: Vec<Task<'a>>)
    ensures
        task_models(r@) == expansion(
            CommandModel::FillTextRect {
                rect,
                paint: paint@,
                radius,
                border: match *border {
                    Some((p, w)) => Some((p@, w)),
                    None => None,
                },
            },
            target,
        ),
{
    let source: PaintSource<'a> = match desc_to_paint(paint) {
        Some(s) => s,
        None => {
            return no_tasks();
        },
    };
    let mut tasks: Vec<Task<'a>> = perform(
        CanvasOp::Fill {
            shape: text_rect_shape(rect, radius),
            source,
            settings: PaintSettings::fresh(),
        },
    );
    let ghost fill_only = task_models(tasks@);
    if let Some((border_paint, width)) = border {
        let mut settings: PaintSettings = PaintSettings::fresh();
        settings.line_width = Some(*width);
        if let Some(border_source) = desc_to_paint(border_paint) {
            then_push(
                &mut tasks,
                Task::Perform(
                    CanvasOp::Stroke {
                        shape: text_rect_shape(rect, radius),
                        source: border_source,
                        settings,
                    },
                ),
            );
        }
    }
    proof {
        assert(fill_only + nothing() =~= fill_only);
    }
    tasks
}

fn expand_shadow<'a>(
    color: Color,
    blur: Scalar,
    offset_x: Scalar,
    offset_y: Scalar,
    width: Scalar,
    height: Scalar,
    radius: PhysicalBorderRadius,
    target: Target,
) -> (r: Vec<Task<'a>>)
    ensures
        task_models(r@) == expansion(
            CommandModel::DrawBoxShadow { color, blur, offset_x, offset_y, width, height, radius },
            target,
        ),
{
    if blur.is_zero() && offset_x.is_zero() && offset_y.is_zero() {
        return no_tasks();
    }
    let image_width: u32 = width.plus(blur).ceil().to_u32();
    let image_height: u32 = height.plus(blur).ceil().to_u32();
    if image_width == 0 || image_height == 0 {
        return no_tasks();
    }
    let shadow: Shadow = Shadow {
        color,
        blur,
        offset_x,
        offset_y,
        width,
        height,
        radius,
        image_width,
        image_height,
        target,
    };
    let mut tasks: Vec<Task<'a>> = perform(
        CanvasOp::CreateEmptyImage { width: image_width, height: image_height, flip_y: false },
    );
    then_push(&mut tasks, Task::ShadowCreated(shadow));
    proof {
        assert(task_models(tasks@) =~= expansion(
            CommandModel::DrawBoxShadow { color, blur, offset_x, offset_y, width, height, radius },
            target,
        ));
    }
    tasks
}

/// What a command asks to do.
#[verifier::rlimit(40)]
fn replay_command<'a>(command: &'a DrawCommand, target: Target) -> (r: Vec<Task<'a>>)
    ensures
        task_models(r@) == expansion(command@, target),
{
    match command {
        DrawCommand::Save => perform(CanvasOp::Save),
        DrawCommand::Restore => perform(CanvasOp::Restore),
        DrawCommand::Translate(x, y) => perform(CanvasOp::Translate(*x, *y)),
        DrawCommand::Rotate(angle) => perform(CanvasOp::Rotate(*angle)),
        DrawCommand::Scale(x, y) => perform(CanvasOp::Scale(*x, *y)),
        DrawCommand::SetGlobalAlpha(alpha) => perform(CanvasOp::SetGlobalAlpha(*alpha)),
        DrawCommand::CombineClip(rect) => perform(CanvasOp::IntersectScissor(*rect)),
        DrawCommand::FillRect { rect, paint, anti_alias } => {
            fill(Shape::Rect(*rect), paint, with_anti_alias(*anti_alias))
        },
        DrawCommand::FillRoundedRect { rect, paint, radius, anti_alias } => {
            fill(
                rounded_rect_to_femtovg_path(*rect, *radius),
                paint,
                with_anti_alias(*anti_alias),
            )
        },
        DrawCommand::StrokeRoundedRect { rect, paint, radius, line_width, anti_alias } => {
            let mut settings: PaintSettings = with_anti_alias(*anti_alias);
            settings.line_width = Some(*line_width);
            stroke(rounded_rect_to_femtovg_path(*rect, *radius), paint, settings)
        },
        DrawCommand::StrokePath {
            path,
            paint,
            line_width,
            line_cap,
            line_join,
            miter_limit,
            anti_alias,
        } => {
            let mut settings: PaintSettings = with_anti_alias(*anti_alias);
            settings.line_width = Some(*line_width);
            settings.miter_limit = Some(*miter_limit);
            settings.line_cap = Some(*line_cap);
            settings.line_join = Some(*line_join);
            stroke(Shape::Path(path), paint, settings)
        },
        DrawCommand::FillPath { path, paint, fill_rule, anti_alias } => {
            let mut settings: PaintSettings = with_anti_alias(*anti_alias);
            settings.even_odd = Some(*fill_rule == 1);
            fill(Shape::Path(path), paint, settings)
        },
        DrawCommand::DrawGlyphRun {
            font_blob_id,
            font_index,
            font_size,
            normalized_coords,
            paint,
            y_offset,
            glyphs,
            is_stroke,
        } => {
            one_task(
                Task::GlyphRun {
                    blob_id: *font_blob_id,
                    font_index: *font_index,
                    font_size: *font_size,
                    normalized_coords: crate::scene_clone::copy_vec(normalized_coords),
                    paint,
                    y_offset: *y_offset,
                    glyphs: crate::scene_clone::copy_vec(glyphs),
                    stroke: *is_stroke,
                },
            )
        },
        DrawCommand::FillTextRect { rect, paint, radius, border } => {
            expand_text_rect(*rect, paint, *radius, border, target)
        },
        DrawCommand::DrawText { x, y, text, font_size, paint, max_width } => {
            if text.as_str().is_empty() {
                no_tasks()
            } else {
                one_task(
                    Task::Text {
                        x: *x,
                        y: *y,
                        text,
                        font_size: *font_size,
                        paint,
                        max_width: *max_width,
                    },
                )
            }
        },
        DrawCommand::UploadPixmap { key, pixels, width, height } => {
            one_task(Task::Upload { key: *key, pixels, width: *width, height: *height })
        },
        DrawCommand::BlitPixmap { key, params } => {
            one_task(Task::Blit { key: *key, params: *params })
        },
        DrawCommand::Layer { width, height, origin, alpha_tint, commands } => {
            let task: Task<'a> = Task::Layer {
                width: *width,
                height: *height,
                origin: *origin,
                alpha_tint: *alpha_tint,
                commands,
                target,
            };
            proof {
                if let CommandModel::Layer { commands: models, .. } = command@ {
                    assert(models =~= crate::scene::command_models(commands@));
                }
            }
            one_task(task)
        },
        DrawCommand::DrawBoxShadow { color, blur, offset_x, offset_y, width, height, radius } => {
            expand_shadow(*color, *blur, *offset_x, *offset_y, *width, *height, *radius, target)
        },
        DrawCommand::CachedPixmap { key, width, height, pixels } => {
            let zero: Scalar = Scalar { bits: 0 };
            let params: [Scalar; 9] = [zero, zero, zero, zero, zero, zero, zero, zero, zero];
            let mut tasks: Vec<Task<'a>> = one_task(
                Task::Upload { key: *key, pixels, width: *width, height: *height },
            );
            then_push(&mut tasks, Task::Blit { key: *key, params });
            proof {
                assert(params@ =~= no_params());
                assert(task_models(tasks@) =~= expansion(command@, target));
            }
            tasks
        },
    }
}

fn transparent_color() -> (r: Color)
    ensures
        r == transparent(),
{
    Color { red: 0, green: 0, blue: 0, alpha: 0 }
}

fn rect_of_image(origin: PhysicalPoint, width: u32, height: u32) -> (r: PhysicalRect)
    ensures
        r == image_rect(origin, width, height),
{
    Rect {
        origin,
        size: Size { width: Scalar::from_u32(width), height: Scalar::from_u32(height) },
    }
}

fn draw_image<'a>(image: u64, rect: PhysicalRect, part: Rect, alpha: Scalar) -> (r: Task<'a>)
    ensures
        seq![r.model()] == image_drawn(image, rect, part, alpha),
{
    let task: Task<'a> = Task::Perform(
        CanvasOp::Fill {
            shape: Shape::Rect(rect),
            source: PaintSource::Image { image, rect, part, alpha },
            settings: with_anti_alias(false),
        },
    );
    proof {
        assert(seq![task.model()] =~= image_drawn(image, rect, part, alpha));
    }
    task
}

fn draw_offscreen<'a>(image: u64, width: u32, height: u32) -> (r: Vec<Task<'a>>)
    ensures
        task_models(r@) == offscreen(image, width, height),
{
    let mut tasks: Vec<Task<'a>> = Vec::new();
    tasks.push(Task::Perform(CanvasOp::Save));
    tasks.push(Task::Perform(CanvasOp::SetRenderTarget(Target::Image(image))));
    tasks.push(Task::Perform(CanvasOp::Reset));
    tasks.push(Task::Perform(CanvasOp::Clear { width, height, color: transparent_color() }));
    proof {
        assert(task_models(tasks@) =~= offscreen(image, width, height));
    }
    tasks
}

fn render_layer<'a>(
    image: u64,
    width: u32,
    height: u32,
    origin: PhysicalPoint,
    alpha_tint: Scalar,
    commands: &'a Vec<DrawCommand>,
    target: Target,
) -> (r: Vec<Task<'a>>)
    ensures
        task_models(r@) == layer_drawn(
            image,
            width,
            height,
            origin,
            alpha_tint,
            crate::scene::command_models(commands@),
            target,
        ),
{
    let mut tasks: Vec<Task<'a>> = draw_offscreen(image, width, height);
    then_push(
        &mut tasks,
        Task::Perform(CanvasOp::Translate(origin.x.negated(), origin.y.negated())),
    );
    proof {
        let models = crate::scene::command_models(commands@);
        assert(left_from(models, 0) =~= models);
    }
    then_push(&mut tasks, Task::Commands { commands, at: 0, target: Target::Image(image) });
    then_push(&mut tasks, Task::Perform(CanvasOp::Restore));
    then_push(&mut tasks, Task::Perform(CanvasOp::SetRenderTarget(target)));
    then_push(
        &mut tasks,
        draw_image(
            image,
            rect_of_image(origin, width, height),
            rect_of_image(Point::origin(), width, height),
            alpha_tint,
        ),
    );
    then_push(&mut tasks, Task::Perform(CanvasOp::DeleteImage(image)));
    tasks
}

fn finish_shadow<'a>(tasks: &mut Vec<Task<'a>>, s: Shadow, image: u64)
    ensures
        task_models(final(tasks)@) == task_models(old(tasks)@) + shadow_finished(s, image),
{
    let ghost before = task_models(old(tasks)@);
    let at: PhysicalPoint = Point { x: s.offset_x.minus(s.blur), y: s.offset_y.minus(s.blur) };
    then_push(tasks, Task::Perform(CanvasOp::Save));
    then_push(tasks, Task::Perform(CanvasOp::CompositeSourceIn));
    then_push(
        tasks,
        Task::Perform(
            CanvasOp::Fill {
                shape: Shape::Rect(
                    rect_of_image(Point::origin(), s.image_width, s.image_height),
                ),
                source: PaintSource::Color(s.color),
                settings: PaintSettings::fresh(),
            },
        ),
    );
    then_push(tasks, Task::Perform(CanvasOp::Restore));
    then_push(tasks, Task::Perform(CanvasOp::Restore));
    then_push(tasks, Task::Perform(CanvasOp::SetRenderTarget(s.target)));
    then_push(
        tasks,
        draw_image(
            image,
            rect_of_image(at, s.image_width, s.image_height),
            rect_of_image(Point::origin(), s.image_width, s.image_height),
            Scalar { bits: ONE_BITS },
        ),
    );
    then_push(tasks, Task::Perform(CanvasOp::DeleteImage(image)));
    proof {
        assert(task_models(tasks@) =~= before + shadow_finished(s, image));
    }
}

fn render_box_shadow<'a>(s: Shadow, image: u64) -> (r: Vec<Task<'a>>)
    ensures
        task_models(r@) == shadow_drawn(s, image),
{
    let mut tasks: Vec<Task<'a>> = draw_offscreen(image, s.image_width, s.image_height);
    let rect: PhysicalRect = Rect::from_size(Size { width: s.width, height: s.height });
    then_push(
        &mut tasks,
        Task::Perform(
            CanvasOp::Fill {
                shape: rounded_rect_to_femtovg_path(rect, s.radius),
                source: PaintSource::Color(
                    Color { red: 255, green: 255, blue: 255, alpha: 255 },
                ),
                settings: PaintSettings::fresh(),
            },
        ),
    );
    if s.blur.is_positive() {
        then_push(
            &mut tasks,
            Task::Perform(
                CanvasOp::CreateEmptyImage {
                    width: s.image_width,
                    height: s.image_height,
                    flip_y: false,
                },
            ),
        );
        then_push(&mut tasks, Task::ShadowBlurred { shadow: s, sharp: image });
    } else {
        finish_shadow(&mut tasks, s, image);
    }
    proof {
        assert(task_models(tasks@) =~= shadow_drawn(s, image));
    }
    tasks
}

fn is_negligible(a: Scalar) -> (r: bool)
    ensures
        r == negligible(a),
{
    a.abs().less_than(Scalar { bits: TRANSLATION_TOLERANCE_BITS })
}

fn is_translation(t: &[Scalar; 6]) -> (r: bool)
    ensures
        r == only_translates(t@),
{
    let one: Scalar = Scalar { bits: ONE_BITS };
    is_negligible(t[0].minus(one)) && is_negligible(t[1]) && is_negligible(t[2])
        && is_negligible(t[3].minus(one))
}

fn draw_glyphs<'a>(draw: CanvasOp<'a>, t: [Scalar; 6]) -> (r: Vec<Task<'a>>)
    ensures
        task_models(r@) == glyphs_drawn(draw.model(), t@),
{
    if is_translation(&t) {
        let grid: [Scalar; 6] = [
            t[0].round(),
            t[1].round(),
            t[2].round(),
            t[3].round(),
            t[4].round(),
            t[5].round(),
        ];
        proof {
            assert(grid@ =~= on_grid(t@));
        }
        let mut tasks: Vec<Task<'a>> = Vec::new();
        tasks.push(Task::Perform(CanvasOp::ResetTransform));
        tasks.push(Task::Perform(CanvasOp::SetTransform(grid)));
        tasks.push(Task::Perform(draw));
        tasks.push(Task::Perform(CanvasOp::ResetTransform));
        tasks.push(Task::Perform(CanvasOp::SetTransform(t)));
        proof {
            assert(task_models(tasks@) =~= glyphs_drawn(draw.model(), t@));
        }
        tasks
    } else {
        perform(draw)
    }
}

fn lower_glyphs(glyphs: &Vec<PositionedGlyph>, y_offset: Scalar) -> (r: Vec<PositionedGlyph>)
    ensures
        r@ == lowered(glyphs@, y_offset),
{
    let mut r: Vec<PositionedGlyph> = Vec::new();
    let mut i: usize = 0;
    while i < glyphs.len()
        invariant
            i <= glyphs.len(),
            r@ == lowered(glyphs@, y_offset).take(i as int),
        decreases glyphs.len() - i,
    {
        let g: PositionedGlyph = glyphs[i];
        r.push(PositionedGlyph { x: g.x, y: g.y.plus(y_offset), id: g.id });
        i = i + 1;
        proof {
            assert(r@ =~= lowered(glyphs@, y_offset).take(i as int));
        }
    }
    proof {
        assert(lowered(glyphs@, y_offset).take(i as int) =~= lowered(glyphs@, y_offset));
    }
    r
}

fn shift_glyphs(glyphs: &Vec<LayoutGlyph>, x: Scalar) -> (r: Vec<PositionedGlyph>)
    ensures
        r@ == shifted(glyphs@, x),
{
    let mut r: Vec<PositionedGlyph> = Vec::new();
    let mut i: usize = 0;
    while i < glyphs.len()
        invariant
            i <= glyphs.len(),
            r@ == shifted(glyphs@, x).take(i as int),
        decreases glyphs.len() - i,
    {
        let g: LayoutGlyph = glyphs[i];
        r.push(PositionedGlyph { x: x.plus(g.x), y: g.y, id: (g.id % 65536) as u16 });
        i = i + 1;
        proof {
            assert(r@ =~= shifted(glyphs@, x).take(i as int));
        }
    }
    proof {
        assert(shifted(glyphs@, x).take(i as int) =~= shifted(glyphs@, x));
    }
    r
}

fn seen_before(runs: &Vec<ShapedRun>, at: usize) -> (r: bool)
    requires
        at < runs.len(),
    ensures
        r == has_run_with(
            run_models(runs@).take(at as int),
            runs@[at as int].blob_id,
            runs@[at as int].font_index,
        ),
{
    let ghost earlier = run_models(runs@).take(at as int);
    let mut i: usize = 0;
    while i < at
        invariant
            i <= at < runs.len(),
            earlier == run_models(runs@).take(at as int),
            forall|j: int|
                0 <= j < i ==> !((#[trigger] earlier[j]).blob_id == runs@[at as int].blob_id
                    && earlier[j].font_index == runs@[at as int].font_index),
        decreases at - i,
    {
        proof {
            assert(earlier[i as int] == runs@[i as int].model());
        }
        if runs[i].blob_id == runs[at].blob_id && runs[i].font_index == runs[at].font_index {
            return true;
        }
        i = i + 1;
    }
    false
}

fn replay_text<'a>(runs: &Vec<ShapedRun>, x: Scalar, y: Scalar, paint: &'a PaintDesc) -> (r: Vec<
    Task<'a>,
>)
    ensures
        task_models(r@) == text_drawn(run_models(runs@), x, y, paint@),
{
    let ghost models = run_models(runs@);
    let mut tasks: Vec<Task<'a>> = no_tasks();
    let mut baseline: Option<Scalar> = None;
    let mut i: usize = 0;
    while i < runs.len()
        invariant
            i <= runs.len(),
            models == run_models(runs@),
            task_models(tasks@) == text_drawn(models.take(i as int), x, y, paint@),
            baseline == first_baseline(models.take(i as int)),
        decreases runs.len() - i,
    {
        let ghost earlier = models.take(i as int);
        let ghost upto = models.take(i + 1);
        proof {
            assert(upto.drop_last() =~= earlier);
            assert(upto.last() == runs@[i as int].model());
        }
        let run: &ShapedRun = &runs[i];
        if !seen_before(runs, i) {
            then_push(
                &mut tasks,
                Task::RegisterFont {
                    blob_id: run.blob_id,
                    font_index: run.font_index,
                    data: crate::scene_clone::copy_vec(&run.data),
                },
            );
        }
        if run.glyphs.len() > 0 {
            let first: Scalar = match baseline {
                Some(b) => b,
                None => run.glyphs[0].y,
            };
            baseline = Some(first);
            then_push(
                &mut tasks,
                Task::GlyphRun {
                    blob_id: run.blob_id,
                    font_index: run.font_index,
                    font_size: run.font_size,
                    normalized_coords: Vec::new(),
                    paint,
                    y_offset: y.minus(first),
                    glyphs: shift_glyphs(&run.glyphs, x),
                    stroke: false,
                },
            );
        }
        i = i + 1;
        proof {
            assert(task_models(tasks@) =~= text_drawn(upto, x, y, paint@));
        }
    }
    proof {
        assert(models.take(i as int) =~= models);
    }
    tasks
}

/// What a task leads to: the tasks instead of it, and the operation to perform.
#[verifier::rlimit(40)]
fn advance<'a>(
    task: Task<'a>,
    cache: &mut ReplayCache,
    outcome: Outcome,
) -> (r: (Vec<Task<'a>>, Option<CanvasOp<'a>>))
    ensures
        ({
            let s = step_of(task.model(), old(cache)@, outcome@);
            &&& task_models(r.0@) == s.tasks
            &&& final(cache)@ == s.cache
            &&& (r.1 is Some <==> s.op is Some)
            &&& (r.1 matches Some(op) ==> Some(op.model()) == s.op)
        }),
{
    match task {
        Task::Perform(op) => (no_tasks(), Some(op)),
        Task::Fonts { fonts, at } => {
            if at < fonts.len() {
                let font: &'a SceneFont = &fonts[at];
                let mut tasks: Vec<Task<'a>> = one_task(
                    Task::RegisterFont {
                        blob_id: font.blob_id,
                        font_index: font.font_index,
                        data: crate::scene_clone::copy_vec(&font.data),
                    },
                );
                then_push(&mut tasks, Task::Fonts { fonts, at: at + 1 });
                proof {
                    let models = crate::scene::font_models(fonts@);
                    let left = left_from(models, at as int);
                    assert(left[0] == font@);
                    assert(left.skip(1) =~= left_from(models, at + 1));
                    assert(task_models(tasks@) =~= seq![
                        TaskModel::RegisterFont(left[0]),
                        TaskModel::Fonts(left.skip(1)),
                    ]);
                }
                (tasks, None)
            } else {
                (no_tasks(), None)
            }
        },
        Task::Commands { commands, at, target } => {
            if at < commands.len() {
                let mut tasks: Vec<Task<'a>> = one_task(Task::Command(&commands[at], target));
                then_push(&mut tasks, Task::Commands { commands, at: at + 1, target });
                proof {
                    let models = crate::scene::command_models(commands@);
                    let left = left_from(models, at as int);
                    assert(left[0] == commands@[at as int]@);
                    assert(left.skip(1) =~= left_from(models, at + 1));
                    assert(task_models(tasks@) =~= seq![
                        TaskModel::Command(left[0], target),
                        TaskModel::Commands(left.skip(1), target),
                    ]);
                }
                (tasks, None)
            } else {
                (no_tasks(), None)
            }
        },
        Task::Command(command, target) => (replay_command(command, target), None),
        Task::RegisterFont { blob_id, font_index, data } => {
            if cache.fonts.contains_key(&key_of_font(blob_id, font_index)) {
                (no_tasks(), None)
            } else {
                (
                    one_task(Task::FontAdded { blob_id, font_index }),
                    Some(CanvasOp::AddFont { data, font_index }),
                )
            }
        },
        Task::FontAdded { blob_id, font_index } => {
            if let Outcome::Font(Some(handle)) = outcome {
                cache.fonts.insert(key_of_font(blob_id, font_index), handle);
            }
            (no_tasks(), None)
        },
        Task::Upload { key, pixels, width, height } => {
            if cache.textures.contains_key(&key) {
                (no_tasks(), None)
            } else {
                (
                    one_task(Task::Uploaded { key }),
                    Some(CanvasOp::CreateImage { pixels, width, height }),
                )
            }
        },
        Task::Uploaded { key } => {
            if let Outcome::Image(Some(handle)) = outcome {
                cache.textures.insert(key, handle);
            }
            (no_tasks(), None)
        },
        Task::Blit { key, params } => {
            let cached: Option<u64> = match cache.textures.get(&key) {
                Some(image) => Some(*image),
                None => None,
            };
            match cached {
                Some(image) => (
                    one_task(Task::BlitChecked { image, params }),
                    Some(CanvasOp::CheckImage(image)),
                ),
                None => (no_tasks(), None),
            }
        },
        Task::BlitChecked { image, params } => {
            if let Outcome::Valid(true) = outcome {
                let rect: PhysicalRect = Rect {
                    origin: Point { x: params[0], y: params[1] },
                    size: Size { width: params[2], height: params[3] },
                };
                let part: Rect = Rect {
                    origin: Point { x: params[4], y: params[5] },
                    size: Size { width: params[6], height: params[7] },
                };
                (one_task(draw_image(image, rect, part, Scalar { bits: ONE_BITS })), None)
            } else {
                (no_tasks(), None)
            }
        },
        Task::GlyphRun {
            blob_id,
            font_index,
            font_size,
            normalized_coords,
            paint,
            y_offset,
            glyphs,
            stroke,
        } => {
            let source: PaintSource<'a> = match desc_to_paint(paint) {
                Some(s) => s,
                None => {
                    return (no_tasks(), None);
                },
            };
            let mut settings: PaintSettings = PaintSettings::fresh();
            settings.font_size = Some(font_size);
            match cache.get_or_create_font(blob_id, font_index) {
                Some(font) => {
                    let draw: CanvasOp<'a> = CanvasOp::Glyphs {
                        font,
                        normalized_coords,
                        glyphs: lower_glyphs(&glyphs, y_offset),
                        source,
                        settings,
                        stroke,
                    };
                    (one_task(Task::GlyphsPlaced { draw }), Some(CanvasOp::QueryTransform))
                },
                None => (no_tasks(), None),
            }
        },
        Task::GlyphsPlaced { draw } => {
            if let Outcome::Transform(t) = outcome {
                (draw_glyphs(draw, t), None)
            } else {
                (no_tasks(), None)
            }
        },
        Task::Text { x, y, text, font_size, paint, max_width } => (
            one_task(Task::TextShaped { x, y, paint }),
            Some(
                CanvasOp::ShapeText {
                    text,
                    font_size,
                    scale_factor: Scalar { bits: ONE_BITS },
                    max_width,
                },
            ),
        ),
        Task::TextShaped { x, y, paint } => {
            if let Outcome::Shaped(runs) = outcome {
                (replay_text(&runs, x, y, paint), None)
            } else {
                (no_tasks(), None)
            }
        },
        Task::Layer { width, height, origin, alpha_tint, commands, target } => (
            one_task(Task::LayerCreated { width, height, origin, alpha_tint, commands, target }),
            Some(CanvasOp::CreateEmptyImage { width, height, flip_y: true }),
        ),
        Task::LayerCreated { width, height, origin, alpha_tint, commands, target } => {
            if let Outcome::Image(Some(image)) = outcome {
                (render_layer(image, width, height, origin, alpha_tint, commands, target), None)
            } else {
                (no_tasks(), None)
            }
        },
        Task::ShadowCreated(shadow) => {
            if let Outcome::Image(Some(image)) = outcome {
                (render_box_shadow(shadow, image), None)
            } else {
                (no_tasks(), None)
            }
        },
        Task::ShadowBlurred { shadow, sharp } => {
            if let Outcome::Image(Some(image)) = outcome {
                let half: Scalar = Scalar { bits: HALF_BITS };
                let mut tasks: Vec<Task<'a>> = perform(
                    CanvasOp::BlurImage {
                        target: image,
                        sigma: shadow.blur.times(half),
                        source: sharp,
                    },
                );
                then_push(
                    &mut tasks,
                    Task::Perform(CanvasOp::SetRenderTarget(Target::Image(image))),
                );
                then_push(&mut tasks, Task::Perform(CanvasOp::DeleteImage(sharp)));
                finish_shadow(&mut tasks, shadow, image);
                (tasks, None)
            } else {
                let mut tasks: Vec<Task<'a>> = perform(CanvasOp::Restore);
                then_push(&mut tasks, Task::Perform(CanvasOp::SetRenderTarget(shadow.target)));
                then_push(&mut tasks, Task::Perform(CanvasOp::DeleteImage(sharp)));
                proof {
                    assert(task_models(tasks@) =~= step_of(
                        task.model(),
                        old(cache)@,
                        outcome@,
                    ).tasks);
                }
                (tasks, None)
            }
        },
    }
}

/// What a step of a replay came to.
pub enum Progress<'a> {
    /// Nothing is left to do.
    Finished,
    /// Step again.
    Continue,
    /// Perform the operation, and step again with its outcome.
    Perform(CanvasOp<'a>),
}

/// A replay under way.
pub struct Replay<'a> {
    /// The tasks, the next one last.
    pending: Vec<Task<'a>>,
}

impl<'a> Replay<'a> {
    /// The tasks that are left, the next one first.
    pub closed spec fn tasks(self) -> Seq<TaskModel> {
        Seq::new(
            self.pending@.len(),
            |i: int| self.pending@[self.pending@.len() - 1 - i].model(),
        )
    }

    fn prepend(&mut self, tasks: Vec<Task<'a>>)
        ensures
            final(self).tasks() == task_models(tasks@) + old(self).tasks(),
    {
        let ghost all = task_models(tasks@);
        let ghost waiting = old(self).tasks();
        let mut rest: Vec<Task<'a>> = tasks;
        proof {
            assert(all.skip(rest@.len() as int) + waiting =~= waiting);
        }
        while rest.len() > 0
            invariant
                rest@.len() <= all.len(),
                task_models(rest@) == all.take(rest@.len() as int),
                self.tasks() == all.skip(rest@.len() as int) + waiting,
            decreases rest.len(),
        {
            let ghost held = self.tasks();
            let ghost n = rest@.len() as int;
            let ghost models = task_models(rest@);
            if let Some(task) = rest.pop() {
                proof {
                    assert(models[n - 1] == task.model());
                    assert(all.take(n)[n - 1] == all[n - 1]);
                    assert(task_models(rest@) =~= all.take(n - 1)) by {
                        assert(forall|k: int|
                            0 <= k < n - 1 ==> task_models(rest@)[k] == #[trigger] models[k]);
                        assert(forall|k: int|
                            0 <= k < n - 1 ==> #[trigger] models[k] == all.take(n)[k]);
                    }
                }
                self.pending.push(task);
                proof {
                    assert(self.tasks() =~= seq![task.model()] + held);
                    assert(seq![task.model()] + all.skip(n) =~= all.skip(n - 1));
                    assert(self.tasks() =~= all.skip(n - 1) + waiting);
                }
            }
        }
        proof {
            assert(all.skip(0) =~= all);
        }
    }

    /// Replay a scene and the overlay on top of it into a window of this size,
    /// and present them.
    pub fn composite_and_present(
        width: u32,
        height: u32,
        scale_factor: Scalar,
        frame: &'a SceneFrame,
        overlay: &'a OverlayFrame,
    ) -> (r: Replay<'a>)
        ensures
            r.tasks() == frame_tasks(width, height, scale_factor, frame@, overlay@),
    {
        let color: Color = match frame.background {
            Some(c) => Color { red: c[0], green: c[1], blue: c[2], alpha: c[3] },
            None => Color { red: 255, green: 255, blue: 255, alpha: 255 },
        };
        let mut replay: Replay<'a> = Replay { pending: Vec::new() };
        let mut tasks: Vec<Task<'a>> = Vec::new();
        tasks.push(Task::Fonts { fonts: &frame.fonts, at: 0 });
        tasks.push(Task::Fonts { fonts: &overlay.fonts, at: 0 });
        tasks.push(
            Task::Perform(CanvasOp::SetSize { width, height, dpi: scale_factor.ceil() }),
        );
        tasks.push(Task::Perform(CanvasOp::Reset));
        tasks.push(Task::Perform(CanvasOp::Clear { width, height, color }));
        tasks.push(Task::Commands { commands: &frame.commands, at: 0, target: Target::Screen });
        tasks.push(
            Task::Commands { commands: &overlay.commands, at: 0, target: Target::Screen },
        );
        tasks.push(Task::Perform(CanvasOp::Flush));
        tasks.push(Task::Perform(CanvasOp::SwapBuffers));
        tasks.push(Task::Perform(CanvasOp::PrePresentNotify));
        let ghost nothing_before = replay.tasks();
        proof {
            assert(left_from(frame@.fonts, 0) =~= frame@.fonts);
            assert(left_from(overlay@.fonts, 0) =~= overlay@.fonts);
            assert(left_from(frame@.commands, 0) =~= frame@.commands);
            assert(left_from(overlay@.commands, 0) =~= overlay@.commands);
            assert(task_models(tasks@) =~= frame_tasks(
                width,
                height,
                scale_factor,
                frame@,
                overlay@,
            ));
            assert(task_models(tasks@) + nothing_before =~= task_models(tasks@));
        }
        replay.prepend(tasks);
        replay
    }

    /// Take one step, given what the canvas answered to the operation before.
    pub fn step(&mut self, cache: &mut ReplayCache, outcome: Outcome) -> (r: Progress<'a>)
        ensures
            r is Finished <==> old(self).tasks().len() == 0,
            old(self).tasks().len() == 0 ==> final(self).tasks() == old(self).tasks()
                && final(cache)@ == old(cache)@,
            old(self).tasks().len() > 0 ==> ({
                let s = step(old(self).tasks(), old(cache)@, outcome@);
                &&& final(self).tasks() == s.tasks
                &&& final(cache)@ == s.cache
                &&& (r is Perform <==> s.op is Some)
                &&& (r matches Progress::Perform(op) ==> Some(op.model()) == s.op)
            }),
    {
        let ghost before = self.tasks();
        match self.pending.pop() {
            None => Progress::Finished,
            Some(task) => {
                proof {
                    assert(before[0] == task.model());
                    assert(self.tasks() =~= before.skip(1));
                }
                let (tasks, op) = advance(task, cache, outcome);
                self.prepend(tasks);
                match op {
                    Some(op) => Progress::Perform(op),
                    None => Progress::Continue,
                }
            },
        }
    }
}

} // verus!
