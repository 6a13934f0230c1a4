//! A model holds what its value holds, part by part.
use crate::canvas::{
    CanvasOp, OpModel, PaintSettings, PaintSource, Shape, ShapeModel, SourceModel, Target,
};
use crate::geometry::{BorderRadius, Point, Rect};
use crate::host::{MessageModel, RenderMessage};
use crate::property::{
    AssignmentModel, ControlPropertyValue, PropertyAssignment, PropertyValueModel,
};
use crate::render_core::{ActionModel, CoordinateMap, PointerEvent, RenderAction};
use crate::replay::{Outcome, OutcomeModel, ShapedRun};
use crate::scalar::{Double, Scalar};
use crate::scene::{
    Color, CommandModel, DrawCommand, Frame, GradientStop, LineCapDesc, LineJoinDesc, OverlayFrame,
    PaintDesc, PaintModel, PathEvent, PositionedGlyph, SceneFont, SceneFrame, StopModel,
};
use crate::setup::{StageResult, StageResultModel};
use vstd::prelude::*;

verus! {

/// Whether the models of stops are those of the stops, in order.
pub open spec fn models_stops(models: Seq<StopModel>, stops: Seq<GradientStop>) -> bool {
    &&& models.len() == stops.len()
    &&& forall|i: int|
        0 <= i < stops.len() ==> (#[trigger] models[i]).offset == stops[i].offset && models[i].color
            == stops[i].color@
}

/// The model of a paint.
pub proof fn law_model_of_a_paint(
    r: u8,
    g: u8,
    b: u8,
    a: u8,
    sx: Scalar,
    sy: Scalar,
    ex: Scalar,
    ey: Scalar,
    stops: Vec<GradientStop>,
)
    ensures
        (PaintDesc::Solid { r, g, b, a })@ == (PaintModel::Solid { r, g, b, a }),
        (PaintDesc::LinearGradient { start_x: sx, start_y: sy, end_x: ex, end_y: ey, stops })@
            matches PaintModel::LinearGradient { start_x, start_y, end_x, end_y, stops: models }
            && start_x == sx && start_y == sy && end_x == ex && end_y == ey && models_stops(
            models,
            stops@,
        ),
        (PaintDesc::RadialGradient { cx: sx, cy: sy, radius: ex, stops })@ matches
            PaintModel::RadialGradient { cx, cy, radius, stops: models } && cx == sx && cy == sy
            && radius == ex && models_stops(models, stops@),
{
}

/// The model of a command that changes the state of the canvas.
pub proof fn law_model_of_a_state_command(x: Scalar, y: Scalar, rect: Rect)
    ensures
        DrawCommand::Save@ == CommandModel::Save,
        DrawCommand::Restore@ == CommandModel::Restore,
        DrawCommand::Translate(x, y)@ == CommandModel::Translate(x, y),
        DrawCommand::Rotate(x)@ == CommandModel::Rotate(x),
        DrawCommand::Scale(x, y)@ == CommandModel::Scale(x, y),
        DrawCommand::SetGlobalAlpha(x)@ == CommandModel::SetGlobalAlpha(x),
        DrawCommand::CombineClip(rect)@ == CommandModel::CombineClip(rect),
{
}

/// The model of a command that fills or strokes.
pub proof fn law_model_of_a_shape_command(
    rect: Rect,
    paint: PaintDesc,
    radius: BorderRadius,
    line_width: Scalar,
    path: Vec<PathEvent>,
    line_cap: LineCapDesc,
    line_join: LineJoinDesc,
    miter_limit: Scalar,
    fill_rule: u8,
    anti_alias: bool,
)
    ensures
        (DrawCommand::FillRect { rect, paint, anti_alias })@ == (CommandModel::FillRect {
            rect,
            paint: paint@,
            anti_alias,
        }),
        (DrawCommand::FillRoundedRect { rect, paint, radius, anti_alias })@ == (
        CommandModel::FillRoundedRect { rect, paint: paint@, radius, anti_alias }),
        (DrawCommand::StrokeRoundedRect { rect, paint, radius, line_width, anti_alias })@ == (
        CommandModel::StrokeRoundedRect { rect, paint: paint@, radius, line_width, anti_alias }),
        (DrawCommand::StrokePath {
            path,
            paint,
            line_width,
            line_cap,
            line_join,
            miter_limit,
            anti_alias,
        })@ == (CommandModel::StrokePath {
            path: path@,
            paint: paint@,
            line_width,
            line_cap,
            line_join,
            miter_limit,
            anti_alias,
        }),
        (DrawCommand::FillPath { path, paint, fill_rule, anti_alias })@ == (CommandModel::FillPath {
            path: path@,
            paint: paint@,
            fill_rule,
            anti_alias,
        }),
{
}

/// The model of a command that draws text.
pub proof fn law_model_of_a_text_command(
    font_blob_id: u64,
    font_index: u32,
    font_size: Scalar,
    normalized_coords: Vec<i16>,
    paint: PaintDesc,
    y_offset: Scalar,
    glyphs: Vec<PositionedGlyph>,
    is_stroke: bool,
    rect: Rect,
    radius: Scalar,
    border_paint: PaintDesc,
    width: Scalar,
    x: Scalar,
    y: Scalar,
    text: String,
    max_width: Option<Scalar>,
)
    ensures
        (DrawCommand::DrawGlyphRun {
            font_blob_id,
            font_index,
            font_size,
            normalized_coords,
            paint,
            y_offset,
            glyphs,
            is_stroke,
        })@ == (CommandModel::DrawGlyphRun {
            font_blob_id,
            font_index,
            font_size,
            normalized_coords: normalized_coords@,
            paint: paint@,
            y_offset,
            glyphs: glyphs@,
            is_stroke,
        }),
        (DrawCommand::FillTextRect { rect, paint, radius, border: Some((border_paint, width)) })@
            == (CommandModel::FillTextRect {
            rect,
            paint: paint@,
            radius,
            border: Some((border_paint@, width)),
        }),
        (DrawCommand::FillTextRect { rect, paint, radius, border: None })@ == (
        CommandModel::FillTextRect { rect, paint: paint@, radius, border: None }),
        (DrawCommand::DrawText { x, y, text, font_size, paint, max_width })@ == (
        CommandModel::DrawText { x, y, text: text@, font_size, paint: paint@, max_width }),
{
}

/// The model of a command that draws through an image.
pub proof fn law_model_of_an_image_command(
    key: u64,
    pixels: Vec<u8>,
    w: u32,
    h: u32,
    params: [Scalar; 9],
    point: Point,
    tint: Scalar,
    commands: Vec<DrawCommand>,
    color: Color,
    blur: Scalar,
    offset_x: Scalar,
    offset_y: Scalar,
    width: Scalar,
    height: Scalar,
    radius: BorderRadius,
    at: int,
)
    ensures
        (DrawCommand::UploadPixmap { key, pixels, width: w, height: h })@ == (
        CommandModel::UploadPixmap { key, pixels: pixels@, width: w, height: h }),
        (DrawCommand::BlitPixmap { key, params })@ == (CommandModel::BlitPixmap {
            key,
            params: params@,
        }),
        (DrawCommand::CachedPixmap { key, width: w, height: h, pixels })@ == (
        CommandModel::CachedPixmap { key, width: w, height: h, pixels: pixels@ }),
        (DrawCommand::DrawBoxShadow { color, blur, offset_x, offset_y, width, height, radius })@
            == (CommandModel::DrawBoxShadow {
            color,
            blur,
            offset_x,
            offset_y,
            width,
            height,
            radius,
        }),
        (DrawCommand::Layer { width: w, height: h, origin: point, alpha_tint: tint, commands })@
            matches CommandModel::Layer { width, height, origin, alpha_tint, commands: models }
            && width == w && height == h && origin == point && alpha_tint == tint && models.len()
            == commands@.len() && (0 <= at < commands@.len() ==> models[at] == commands@[at]@),
{
    reveal_with_fuel(DrawCommand::model, 2);
}

/// The model of a scene, of an overlay and of a font.
pub proof fn law_model_of_a_scene(frame: SceneFrame, overlay: OverlayFrame, font: SceneFont, at: int)
    ensures
        frame@.width == frame.width,
        frame@.height == frame.height,
        frame@.scale_factor == frame.scale_factor,
        frame.background matches Some(c) ==> frame@.background == Some(c@),
        frame.background is None ==> frame@.background is None,
        frame@.controls == frame.controls@,
        frame@.fonts.len() == frame.fonts@.len(),
        frame@.commands.len() == frame.commands@.len(),
        0 <= at < frame.fonts@.len() ==> frame@.fonts[at] == frame.fonts@[at]@,
        0 <= at < frame.commands@.len() ==> frame@.commands[at] == frame.commands@[at]@,
        overlay@.fonts.len() == overlay.fonts@.len(),
        overlay@.commands.len() == overlay.commands@.len(),
        0 <= at < overlay.fonts@.len() ==> overlay@.fonts[at] == overlay.fonts@[at]@,
        0 <= at < overlay.commands@.len() ==> overlay@.commands[at] == overlay.commands@[at]@,
        font@.blob_id == font.blob_id,
        font@.font_index == font.font_index,
        font@.data == font.data@,
{
}

/// The model of an outline and of what it is painted with.
pub proof fn law_model_of_a_source<'a>(
    rect: Rect,
    part: Rect,
    radius: Scalar,
    corners: BorderRadius,
    path: &'a Vec<PathEvent>,
    color: Color,
    p: Point,
    q: Point,
    r: Scalar,
    stops: &'a Vec<GradientStop>,
    image: u64,
)
    ensures
        Shape::Rect(rect).model() == ShapeModel::Rect(rect),
        Shape::Rounded(rect, radius).model() == ShapeModel::Rounded(rect, radius),
        Shape::Varying(rect, corners).model() == ShapeModel::Varying(rect, corners),
        Shape::Path(path).model() == ShapeModel::Path(path@),
        PaintSource::Color(color).model() == SourceModel::Color(color),
        (PaintSource::Linear { start: p, end: q, stops }).model() matches SourceModel::Linear {
            start,
            end,
            stops: models,
        } && start == p && end == q && models_stops(models, stops@),
        (PaintSource::Radial { center: p, inner: radius, outer: r, stops }).model() matches
            SourceModel::Radial { center, inner, outer, stops: models } && center == p && inner
            == radius && outer == r && models_stops(models, stops@),
        (PaintSource::Image { image, rect, part, alpha: r }).model() == (SourceModel::Image {
            image,
            rect,
            part,
            alpha: r,
        }),
{
}

/// The model of an operation that changes the state of the canvas.
pub proof fn law_model_of_a_state_operation(
    width: u32,
    height: u32,
    x: Scalar,
    y: Scalar,
    color: Color,
    rect: Rect,
    t: [Scalar; 6],
    target: Target,
)
    ensures
        (CanvasOp::SetSize { width, height, dpi: x }).model() == (OpModel::SetSize {
            width,
            height,
            dpi: x,
        }),
        CanvasOp::Reset.model() == OpModel::Reset,
        (CanvasOp::Clear { width, height, color }).model() == (OpModel::Clear {
            width,
            height,
            color,
        }),
        CanvasOp::Save.model() == OpModel::Save,
        CanvasOp::Restore.model() == OpModel::Restore,
        CanvasOp::Translate(x, y).model() == OpModel::Translate(x, y),
        CanvasOp::Rotate(x).model() == OpModel::Rotate(x),
        CanvasOp::Scale(x, y).model() == OpModel::Scale(x, y),
        CanvasOp::SetGlobalAlpha(x).model() == OpModel::SetGlobalAlpha(x),
        CanvasOp::IntersectScissor(rect).model() == OpModel::IntersectScissor(rect),
        CanvasOp::ResetTransform.model() == OpModel::ResetTransform,
        CanvasOp::SetTransform(t).model() == OpModel::SetTransform(t@),
        CanvasOp::QueryTransform.model() == OpModel::QueryTransform,
        CanvasOp::SetRenderTarget(target).model() == OpModel::SetRenderTarget(target),
        CanvasOp::CompositeSourceIn.model() == OpModel::CompositeSourceIn,
        CanvasOp::Flush.model() == OpModel::Flush,
        CanvasOp::SwapBuffers.model() == OpModel::SwapBuffers,
        CanvasOp::PrePresentNotify.model() == OpModel::PrePresentNotify,
{
}

/// The model of an operation that draws, or that makes what is drawn with.
pub proof fn law_model_of_a_drawing_operation<'a>(
    shape: Shape<'a>,
    source: PaintSource<'a>,
    settings: PaintSettings,
    font: u64,
    normalized_coords: Vec<i16>,
    glyphs: Vec<PositionedGlyph>,
    stroke: bool,
    data: Vec<u8>,
    font_index: u32,
    pixels: &'a Vec<u8>,
    width: u32,
    height: u32,
    flip_y: bool,
    image: u64,
    sharp: u64,
    sigma: Scalar,
    text: &'a String,
    font_size: Scalar,
    scale_factor: Scalar,
    max_width: Option<Scalar>,
)
    ensures
        (CanvasOp::Fill { shape, source, settings }).model() == (OpModel::Fill {
            shape: shape.model(),
            source: source.model(),
            settings,
        }),
        (CanvasOp::Stroke { shape, source, settings }).model() == (OpModel::Stroke {
            shape: shape.model(),
            source: source.model(),
            settings,
        }),
        (CanvasOp::Glyphs { font, normalized_coords, glyphs, source, settings, stroke }).model()
            == (OpModel::Glyphs {
            font,
            normalized_coords: normalized_coords@,
            glyphs: glyphs@,
            source: source.model(),
            settings,
            stroke,
        }),
        (CanvasOp::AddFont { data, font_index }).model() == (OpModel::AddFont {
            data: data@,
            font_index,
        }),
        (CanvasOp::CreateImage { pixels, width, height }).model() == (OpModel::CreateImage {
            pixels: pixels@,
            width,
            height,
        }),
        (CanvasOp::CreateEmptyImage { width, height, flip_y }).model() == (
        OpModel::CreateEmptyImage { width, height, flip_y }),
        CanvasOp::CheckImage(image).model() == OpModel::CheckImage(image),
        (CanvasOp::BlurImage { target: image, sigma, source: sharp }).model() == (
        OpModel::BlurImage { target: image, sigma, source: sharp }),
        CanvasOp::DeleteImage(image).model() == OpModel::DeleteImage(image),
        (CanvasOp::ShapeText { text, font_size, scale_factor, max_width }).model() == (
        OpModel::ShapeText { text: text@, font_size, scale_factor, max_width }),
{
}

/// The model of an answer of the canvas.
pub proof fn law_model_of_an_answer(
    handle: Option<u64>,
    valid: bool,
    t: [Scalar; 6],
    runs: Vec<ShapedRun>,
    at: int,
)
    ensures
        Outcome::Done@ == OutcomeModel::Done,
        Outcome::Font(handle)@ == OutcomeModel::Font(handle),
        Outcome::Image(handle)@ == OutcomeModel::Image(handle),
        Outcome::Valid(valid)@ == OutcomeModel::Valid(valid),
        Outcome::Transform(t)@ == OutcomeModel::Transform(t@),
        Outcome::Shaped(runs)@ matches OutcomeModel::Shaped(models) && models.len() == runs@.len()
            && (0 <= at < runs@.len() ==> models[at].blob_id == runs@[at].blob_id
            && models[at].font_index == runs@[at].font_index && models[at].data
            == runs@[at].data@ && models[at].font_size == runs@[at].font_size && models[at].glyphs
            == runs@[at].glyphs@),
{
}

/// The model of a message.
pub proof fn law_model_of_a_message(
    width: u32,
    height: u32,
    scale_factor: Double,
    frame: SceneFrame,
    overlay: OverlayFrame,
    id: u64,
    hovered: bool,
    pressed: bool,
    property: String,
    value: ControlPropertyValue,
    color: Color,
    x: Scalar,
    y: Scalar,
)
    ensures
        (RenderMessage::Configure { width, height, scale_factor })@ == (MessageModel::Configure {
            width,
            height,
            scale_factor,
        }),
        (RenderMessage::Resize { width, height })@ == (MessageModel::Resize { width, height }),
        (RenderMessage::RenderScene { frame })@ == (MessageModel::RenderScene { frame: frame@ }),
        (RenderMessage::SetOverlay { overlay })@ == (MessageModel::SetOverlay {
            overlay: overlay@,
        }),
        RenderMessage::User@ == MessageModel::User,
        RenderMessage::AttachComponent@ == MessageModel::AttachComponent,
        (RenderMessage::ApplyControlState { id, hovered, pressed })@ == (
        MessageModel::ApplyControlState { id, hovered, pressed }),
        (RenderMessage::SetControlProperty { id, property, value })@ == (
        MessageModel::SetControlProperty { id, property: property@, value: value@ }),
        RenderMessage::RequestRedraw@ == MessageModel::RequestRedraw,
        (RenderMessage::SetAccent { color })@ == (MessageModel::SetAccent { color }),
        (RenderMessage::HitTest { x, y })@ == (MessageModel::HitTest { x, y }),
        RenderMessage::Suspend@ == MessageModel::Suspend,
        RenderMessage::Quit@ == MessageModel::Quit,
{
}

/// The model of a value that is lent to a control, and of what it assigns to.
pub proof fn law_model_of_a_loan(text: String, r: u8, g: u8, b: u8, a: u8, on: bool, n: Scalar)
    ensures
        ControlPropertyValue::Text(text)@ == PropertyValueModel::Text(text@),
        (ControlPropertyValue::Color { r, g, b, a })@ == PropertyValueModel::Color(
            Color { red: r, green: g, blue: b, alpha: a },
        ),
        ControlPropertyValue::Bool(on)@ == PropertyValueModel::Bool(on),
        ControlPropertyValue::Number(n)@ == PropertyValueModel::Number(n),
        PropertyAssignment::Text(text)@ == AssignmentModel::Text(text@),
        PropertyAssignment::Background(Color { red: r, green: g, blue: b, alpha: a })@
            == AssignmentModel::Background(Color { red: r, green: g, blue: b, alpha: a }),
        PropertyAssignment::Color(Color { red: r, green: g, blue: b, alpha: a })@
            == AssignmentModel::Color(Color { red: r, green: g, blue: b, alpha: a }),
        PropertyAssignment::Enabled(on)@ == AssignmentModel::Enabled(on),
        PropertyAssignment::Pressed(on)@ == AssignmentModel::Pressed(on),
        PropertyAssignment::HasHover(on)@ == AssignmentModel::HasHover(on),
{
}

/// The model of an action.
pub proof fn law_model_of_an_action(
    width: u32,
    height: u32,
    scale_factor: Double,
    dpi: Scalar,
    frame: Frame,
    table: CoordinateMap,
    color: Color,
    event: PointerEvent,
    id: u64,
    assignment: PropertyAssignment,
    applied: bool,
    hit: Option<u64>,
    text: String,
)
    ensures
        (RenderAction::CreateContext { width, height, scale_factor })@ == (
        ActionModel::CreateContext { width, height, scale_factor }),
        (RenderAction::ResizeSurface { width, height })@ == (ActionModel::ResizeSurface {
            width,
            height,
        }),
        (RenderAction::SetCanvasSize { width, height, dpi })@ == (ActionModel::SetCanvasSize {
            width,
            height,
            dpi,
        }),
        RenderAction::Present@ == ActionModel::Present,
        RenderAction::QueueFrame(frame)@ == (ActionModel::QueueFrame {
            width: frame.width,
            height: frame.height,
            pixels: frame.pixels@,
        }),
        RenderAction::PublishCoordinates(table)@ == ActionModel::PublishCoordinates(table@),
        RenderAction::ClearCoordinates@ == ActionModel::ClearCoordinates,
        RenderAction::RequestUiRedraw@ == ActionModel::RequestUiRedraw,
        RenderAction::SetAccentColor(color)@ == ActionModel::SetAccentColor(color),
        RenderAction::BuildComponent@ == ActionModel::BuildComponent,
        RenderAction::DispatchPointer(event)@ == ActionModel::DispatchPointer(event),
        RenderAction::EncodeMirror@ == ActionModel::EncodeMirror,
        (RenderAction::AssignProperty { id, assignment })@ == (ActionModel::AssignProperty {
            id,
            assignment: assignment@,
        }),
        RenderAction::ReplyAssigned(applied)@ == ActionModel::ReplyAssigned(applied),
        RenderAction::ReplyHit(hit)@ == ActionModel::ReplyHit(hit),
        RenderAction::RunUser@ == ActionModel::RunUser,
        RenderAction::Release@ == ActionModel::Release,
        RenderAction::Report(text)@ == ActionModel::Report(text@),
        RenderAction::Stop@ == ActionModel::Stop,
{
}

/// The models of actions are those of the actions, in order.
pub proof fn law_models_of_actions(actions: Seq<RenderAction>, at: int)
    ensures
        crate::render_core::action_models(actions).len() == actions.len(),
        0 <= at < actions.len() ==> crate::render_core::action_models(actions)[at]
            == actions[at]@,
{
}

/// The model of what a stage of the setup came to.
pub proof fn law_model_of_a_stage_result(text: String)
    ensures
        StageResult::Done@ == StageResultModel::Done,
        StageResult::NothingFound@ == StageResultModel::NothingFound,
        StageResult::Failed(text)@ == StageResultModel::Failed(text@),
{
}

} // verus!
