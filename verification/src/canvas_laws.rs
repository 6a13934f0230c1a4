//! What a replay asks of the canvas for each command, and in which order.
//!
//! The laws give the operations by the values that the command carries and by what the
//! canvas answered.
use crate::canvas::{OpModel, PaintSettings, ShapeModel, SourceModel, Target};
use crate::drawing_laws::{no_settings, outlines, smooth};
use crate::encoder_draw::LayoutGlyph;
use crate::geometry::{BorderRadius, Point, Rect};
use crate::replay::{CacheModel, OutcomeModel, RunModel, Shadow, StepModel, TaskModel};
use crate::scalar::Scalar;
use crate::scene::{
    Color, CommandModel, FontModel, LineCapDesc, LineJoinDesc, OverlayModel, PaintModel, PathEvent,
    PositionedGlyph, SceneModel,
};
use vstd::prelude::*;

verus! {

/// Whether the tasks are this one operation.
pub open spec fn only(tasks: Seq<TaskModel>, op: OpModel) -> bool {
    tasks.len() == 1 && tasks[0] == TaskModel::Perform(op)
}

/// Whether a step performs this operation first and leaves this one task behind, and
/// the cache as it was.
pub open spec fn asks_first(s: StepModel, op: OpModel, next: TaskModel, cache: CacheModel) -> bool {
    s.op == Some(op) && s.tasks.len() == 1 && s.tasks[0] == next && s.cache == cache
}

/// A command that changes the state of the canvas is that one change, with the numbers
/// that it carries in their order, whatever the target.
pub proof fn law_state_command_is_one_change(
    x: Scalar,
    y: Scalar,
    rect: Rect,
    target: Target,
)
    ensures
        only(crate::replay::expansion(CommandModel::Save, target), OpModel::Save),
        only(crate::replay::expansion(CommandModel::Restore, target), OpModel::Restore),
        only(
            crate::replay::expansion(CommandModel::Translate(x, y), target),
            OpModel::Translate(x, y),
        ),
        only(crate::replay::expansion(CommandModel::Rotate(x), target), OpModel::Rotate(x)),
        only(crate::replay::expansion(CommandModel::Scale(x, y), target), OpModel::Scale(x, y)),
        only(
            crate::replay::expansion(CommandModel::SetGlobalAlpha(x), target),
            OpModel::SetGlobalAlpha(x),
        ),
        only(
            crate::replay::expansion(CommandModel::CombineClip(rect), target),
            OpModel::IntersectScissor(rect),
        ),
{
}

/// A rectangle that is filled has the edges and the anti-aliasing of its command and the
/// look of its paint; one whose paint is a texture is not drawn.
pub proof fn law_rectangle_command(
    rect: Rect,
    paint: PaintModel,
    anti_alias: bool,
    target: Target,
)
    ensures
        ({
            let tasks = crate::replay::expansion(
                CommandModel::FillRect { rect, paint, anti_alias },
                target,
            );
            &&& crate::canvas::source_of(paint) is None ==> tasks.len() == 0
            &&& crate::canvas::source_of(paint) matches Some(source) ==> only(
                tasks,
                OpModel::Fill {
                    shape: ShapeModel::Rect(rect),
                    source,
                    settings: smooth(anti_alias),
                },
            )
        }),
{
}

/// A rounded rectangle that is filled or stroked keeps its edges, its corners, its
/// anti-aliasing and the look of its paint, and a stroke its width.
pub proof fn law_rounded_rectangle_command(
    rect: Rect,
    paint: PaintModel,
    radius: BorderRadius,
    line_width: Scalar,
    anti_alias: bool,
    target: Target,
)
    ensures
        ({
            let filled = crate::replay::expansion(
                CommandModel::FillRoundedRect { rect, paint, radius, anti_alias },
                target,
            );
            let stroked = crate::replay::expansion(
                CommandModel::StrokeRoundedRect { rect, paint, radius, line_width, anti_alias },
                target,
            );
            &&& crate::canvas::source_of(paint) is None ==> filled.len() == 0 && stroked.len() == 0
            &&& crate::canvas::source_of(paint) matches Some(look) ==> {
                &&& filled.len() == 1
                &&& filled[0] matches TaskModel::Perform(OpModel::Fill { shape, source, settings })
                    && outlines(shape, rect, radius) && source == look && settings == smooth(
                    anti_alias,
                )
                &&& stroked.len() == 1
                &&& stroked[0] matches TaskModel::Perform(
                    OpModel::Stroke { shape, source, settings },
                ) && outlines(shape, rect, radius) && source == look && settings
                    == PaintSettings { line_width: Some(line_width), ..smooth(anti_alias) }
            }
        }),
{
    crate::drawing_laws::law_rounded_rectangle_keeps_its_edges(rect, radius);
}

/// A path keeps its events, its anti-aliasing and the look of its paint.  A fill is
/// even-odd exactly under rule 1, and a stroke keeps its width, miter limit, cap and join.
pub proof fn law_path_command(
    path: Seq<PathEvent>,
    paint: PaintModel,
    fill_rule: u8,
    line_width: Scalar,
    line_cap: LineCapDesc,
    line_join: LineJoinDesc,
    miter_limit: Scalar,
    anti_alias: bool,
    target: Target,
)
    ensures
        ({
            let filled = crate::replay::expansion(
                CommandModel::FillPath { path, paint, fill_rule, anti_alias },
                target,
            );
            let stroked = crate::replay::expansion(
                CommandModel::StrokePath {
                    path,
                    paint,
                    line_width,
                    line_cap,
                    line_join,
                    miter_limit,
                    anti_alias,
                },
                target,
            );
            &&& crate::canvas::source_of(paint) is None ==> filled.len() == 0 && stroked.len() == 0
            &&& crate::canvas::source_of(paint) matches Some(source) ==> {
                &&& only(
                    filled,
                    OpModel::Fill {
                        shape: ShapeModel::Path(path),
                        source,
                        settings: PaintSettings {
                            even_odd: Some(fill_rule == 1),
                            ..smooth(anti_alias)
                        },
                    },
                )
                &&& only(
                    stroked,
                    OpModel::Stroke {
                        shape: ShapeModel::Path(path),
                        source,
                        settings: PaintSettings {
                            line_width: Some(line_width),
                            miter_limit: Some(miter_limit),
                            line_cap: Some(line_cap),
                            line_join: Some(line_join),
                            ..smooth(anti_alias)
                        },
                    },
                )
            }
        }),
{
}

/// Whether the transform moves only, each of its four other parts within a thousandth of
/// that of a transform that leaves everything where it is.
pub open spec fn moves_only(t: Seq<Scalar>) -> bool {
    let limit = Scalar { bits: 0x3a83_126f };
    let one = Scalar { bits: 0x3f80_0000 };
    &&& t[0].difference(one).absolute().below(limit)
    &&& t[1].absolute().below(limit)
    &&& t[2].absolute().below(limit)
    &&& t[3].difference(one).absolute().below(limit)
}

/// Whether the operation draws these glyphs, lower by the offset, with this font, size,
/// variations and look.
pub open spec fn draws_glyphs(
    op: OpModel,
    handle: u64,
    size: Scalar,
    coords: Seq<i16>,
    look: SourceModel,
    lower: Scalar,
    run: Seq<PositionedGlyph>,
    outline: bool,
) -> bool {
    op matches OpModel::Glyphs { font, normalized_coords, glyphs, source, settings, stroke } && {
        &&& font == handle
        &&& normalized_coords == coords
        &&& source == look
        &&& settings == PaintSettings { font_size: Some(size), ..no_settings() }
        &&& stroke == outline
        &&& glyphs.len() == run.len()
        &&& forall|i: int|
            0 <= i < run.len() ==> {
                &&& (#[trigger] glyphs[i]).x == run[i].x
                &&& glyphs[i].y == run[i].y.sum(lower)
                &&& glyphs[i].id == run[i].id
            }
    }
}

/// A run of glyphs whose font is there and whose paint is no texture asks where it lies
/// and is then drawn once: with its font, its size, its variations and its look, each
/// glyph lower by the offset of the run.  Where the canvas does nothing but move, the
/// glyphs are drawn under that transform with every part rounded, and the transform is
/// then set back; otherwise they are drawn as the canvas stands.
#[verifier::rlimit(40)]
pub proof fn law_glyph_run_is_drawn_once(
    font_blob_id: u64,
    font_index: u32,
    font_size: Scalar,
    normalized_coords: Seq<i16>,
    paint: PaintModel,
    y_offset: Scalar,
    glyphs: Seq<PositionedGlyph>,
    is_stroke: bool,
    cache: CacheModel,
    t: Seq<Scalar>,
    target: Target,
)
    ensures
        ({
            let key = crate::replay::font_key(font_blob_id, font_index);
            let tasks = crate::replay::expansion(
                CommandModel::DrawGlyphRun {
                    font_blob_id,
                    font_index,
                    font_size,
                    normalized_coords,
                    paint,
                    y_offset,
                    glyphs,
                    is_stroke,
                },
                target,
            );
            let asked = crate::replay::step_of(tasks[0], cache, OutcomeModel::Done);
            let placed = crate::replay::step_of(asked.tasks[0], cache, OutcomeModel::Transform(t));
            let shown = cache.fonts.contains_key(key) && crate::canvas::source_of(paint) is Some;
            let drawn: int = if moves_only(t) {
                2
            } else {
                0
            };
            &&& tasks.len() == 1
            &&& !shown ==> asked.op is None && asked.tasks.len() == 0 && asked.cache == cache
            &&& shown ==> {
                &&& asked.op == Some(OpModel::QueryTransform)
                &&& asked.tasks.len() == 1 && asked.cache == cache
                &&& placed.op is None && placed.cache == cache
                &&& placed.tasks.len() == if moves_only(t) {
                    5int
                } else {
                    1
                }
                &&& placed.tasks[drawn] matches TaskModel::Perform(op) && draws_glyphs(
                    op,
                    cache.fonts[key],
                    font_size,
                    normalized_coords,
                    crate::canvas::source_of(paint)->0,
                    y_offset,
                    glyphs,
                    is_stroke,
                )
                &&& moves_only(t) ==> on_the_grid(placed.tasks, t)
            }
        }),
{
}

/// Whether the tasks around the one in the middle set the rounded transform before it and
/// the transform itself after it, each from scratch.
pub open spec fn on_the_grid(tasks: Seq<TaskModel>, t: Seq<Scalar>) -> bool {
    &&& tasks[0] == TaskModel::Perform(OpModel::ResetTransform)
    &&& tasks[1] matches TaskModel::Perform(OpModel::SetTransform(g)) && g.len() == t.len() && (
    forall|i: int| 0 <= i < t.len() ==> #[trigger] g[i] == t[i].rounded())
    &&& tasks[3] == TaskModel::Perform(OpModel::ResetTransform)
    &&& tasks[4] == TaskModel::Perform(OpModel::SetTransform(t))
}

/// A text is shaped as it is, at its own size and width, in physical pixels, and what was
/// shaped is drawn at its place with its paint.  An empty text asks for nothing.
pub proof fn law_text_is_shaped_as_it_is(
    x: Scalar,
    y: Scalar,
    text: Seq<char>,
    font_size: Scalar,
    paint: PaintModel,
    max_width: Option<Scalar>,
    cache: CacheModel,
    runs: Seq<RunModel>,
    target: Target,
)
    ensures
        ({
            let tasks = crate::replay::expansion(
                CommandModel::DrawText { x, y, text, font_size, paint, max_width },
                target,
            );
            let shaped = crate::replay::step_of(tasks[0], cache, OutcomeModel::Done);
            let drawn = crate::replay::step_of(
                TaskModel::TextShaped { x, y, paint },
                cache,
                OutcomeModel::Shaped(runs),
            );
            &&& text.len() == 0 ==> tasks.len() == 0
            &&& text.len() > 0 ==> tasks.len() == 1 && asks_first(
                shaped,
                OpModel::ShapeText {
                    text,
                    font_size,
                    scale_factor: Scalar { bits: 0x3f80_0000 },
                    max_width,
                },
                TaskModel::TextShaped { x, y, paint },
                cache,
            )
            &&& drawn.op is None && drawn.cache == cache
            &&& drawn.tasks == crate::replay::text_drawn(runs, x, y, paint)
        }),
{
}

/// Whether this run is the first one that has glyphs.
pub open spec fn first_with_glyphs(runs: Seq<RunModel>, at: int) -> bool {
    &&& 0 <= at < runs.len()
    &&& runs[at].glyphs.len() > 0
    &&& forall|i: int| 0 <= i < at ==> (#[trigger] runs[i]).glyphs.len() == 0
}

/// The baseline of a text is that of the first glyph of the first run that has any; a
/// text without glyphs has none.
pub proof fn law_first_baseline(runs: Seq<RunModel>)
    ensures
        match crate::replay::first_baseline(runs) {
            Some(y) => exists|at: int| #[trigger]
                first_with_glyphs(runs, at) && y == runs[at].glyphs[0].y,
            None => forall|i: int|
                0 <= i < runs.len() ==> (#[trigger] runs[i]).glyphs.len() == 0,
        },
    decreases runs.len(),
{
    if runs.len() > 0 {
        let earlier = runs.drop_last();
        law_first_baseline(earlier);
        assert forall|i: int| 0 <= i < earlier.len() implies #[trigger] earlier[i] == runs[i] by {}
        match crate::replay::first_baseline(earlier) {
            Some(y) => {
                let at = choose|at: int| #[trigger]
                    first_with_glyphs(earlier, at) && y == earlier[at].glyphs[0].y;
                assert(runs[at] == earlier[at]);
                assert(first_with_glyphs(runs, at)) by {
                    assert forall|i: int| 0 <= i < at implies (#[trigger] runs[i]).glyphs.len()
                        == 0 by {
                        assert(earlier[i].glyphs.len() == 0);
                    }
                }
            },
            None => {
                assert forall|i: int| 0 <= i < earlier.len() implies (
                #[trigger] runs[i]).glyphs.len() == 0 by {
                    assert(earlier[i].glyphs.len() == 0);
                }
                if runs.last().glyphs.len() > 0 {
                    assert(first_with_glyphs(runs, runs.len() - 1));
                }
            },
        }
    }
}

/// Whether the glyphs are these, in order, to the right by `x`, at their own height and
/// with the low 16 bits of their ids.
pub open spec fn right_by(run: Seq<PositionedGlyph>, glyphs: Seq<LayoutGlyph>, x: Scalar) -> bool {
    &&& run.len() == glyphs.len()
    &&& forall|i: int|
        0 <= i < glyphs.len() ==> {
            &&& (#[trigger] run[i]).x == x.sum(glyphs[i].x)
            &&& run[i].y == glyphs[i].y
            &&& run[i].id as int == glyphs[i].id as int % 65536
        }
}

/// The runs of a text are drawn in order.  One more run adds its font, unless an earlier
/// run has the same, and then its glyphs, if it has any: in its font and size, filled
/// with the paint of the text, to the right by the `x` of the text and lower by its `y`
/// less the baseline of the first line.
#[verifier::rlimit(40)]
pub proof fn law_text_is_drawn_run_by_run(
    runs: Seq<RunModel>,
    run: RunModel,
    x: Scalar,
    y: Scalar,
    paint: PaintModel,
)
    ensures
        crate::replay::text_drawn(Seq::<RunModel>::empty(), x, y, paint).len() == 0,
        ({
            let before = crate::replay::text_drawn(runs, x, y, paint);
            let all = crate::replay::text_drawn(runs.push(run), x, y, paint);
            let count = before.len() as int;
            let known = exists|i: int|
                0 <= i < runs.len() && (#[trigger] runs[i]).blob_id == run.blob_id
                    && runs[i].font_index == run.font_index;
            let font: int = if known {
                0
            } else {
                1
            };
            let shown: int = if run.glyphs.len() == 0 {
                0
            } else {
                1
            };
            &&& all.len() == count + font + shown
            &&& all.take(count) == before
            &&& !known ==> all[count] == TaskModel::RegisterFont(
                FontModel { blob_id: run.blob_id, font_index: run.font_index, data: run.data },
            )
            &&& shown == 1 ==> (all[count + font] matches TaskModel::GlyphRun {
                blob_id,
                font_index,
                font_size,
                normalized_coords,
                paint: look,
                y_offset,
                glyphs,
                stroke,
            } && blob_id == run.blob_id && font_index == run.font_index && font_size
                == run.font_size && normalized_coords.len() == 0 && look == paint && !stroke
                && y_offset == y.difference(
                crate::replay::first_baseline(runs.push(run))->0,
            ) && right_by(glyphs, run.glyphs, x))
        }),
{
    assert(runs.push(run).drop_last() =~= runs);
    let before = crate::replay::text_drawn(runs, x, y, paint);
    let all = crate::replay::text_drawn(runs.push(run), x, y, paint);
    assert(all.take(before.len() as int) =~= before);
    let known = exists|i: int|
        0 <= i < runs.len() && (#[trigger] runs[i]).blob_id == run.blob_id && runs[i].font_index
            == run.font_index;
    assert(known == crate::replay::has_run_with(runs, run.blob_id, run.font_index));
}

/// A texture that is not there is made of the pixels, the width and the height that were
/// uploaded, and remembered under its key and nothing else; where it cannot be made,
/// nothing is remembered.
pub proof fn law_texture_is_remembered_under_its_key(
    key: u64,
    pixels: Seq<u8>,
    width: u32,
    height: u32,
    cache: CacheModel,
    handle: u64,
    target: Target,
)
    ensures
        ({
            let tasks = crate::replay::expansion(
                CommandModel::UploadPixmap { key, pixels, width, height },
                target,
            );
            let s = crate::replay::step_of(tasks[0], cache, OutcomeModel::Done);
            let made = crate::replay::step_of(
                TaskModel::Uploaded { key },
                cache,
                OutcomeModel::Image(Some(handle)),
            );
            let failed = crate::replay::step_of(
                TaskModel::Uploaded { key },
                cache,
                OutcomeModel::Image(None),
            );
            &&& tasks.len() == 1
            &&& cache.textures.contains_key(key) ==> s.op is None && s.tasks.len() == 0 && s.cache
                == cache
            &&& !cache.textures.contains_key(key) ==> asks_first(
                s,
                OpModel::CreateImage { pixels, width, height },
                TaskModel::Uploaded { key },
                cache,
            )
            &&& made.op is None && made.tasks.len() == 0
            &&& made.cache.fonts == cache.fonts
            &&& made.cache.textures == cache.textures.insert(key, handle)
            &&& failed.op is None && failed.tasks.len() == 0 && failed.cache == cache
        }),
{
}

/// A font that is not there is added with its own bytes and its own index, and remembered
/// under its own key and nothing else; where it cannot be added, nothing is remembered.
pub proof fn law_font_is_remembered_under_its_key(
    font: FontModel,
    cache: CacheModel,
    handle: u64,
)
    ensures
        ({
            let key = crate::replay::font_key(font.blob_id, font.font_index);
            let s = crate::replay::step_of(
                TaskModel::RegisterFont(font),
                cache,
                OutcomeModel::Done,
            );
            let task = TaskModel::FontAdded { blob_id: font.blob_id, font_index: font.font_index };
            let made = crate::replay::step_of(task, cache, OutcomeModel::Font(Some(handle)));
            let failed = crate::replay::step_of(task, cache, OutcomeModel::Font(None));
            &&& key as int == font.blob_id * 0x1_0000_0000 + font.font_index
            &&& cache.fonts.contains_key(key) ==> s.op is None && s.tasks.len() == 0 && s.cache
                == cache
            &&& !cache.fonts.contains_key(key) ==> asks_first(
                s,
                OpModel::AddFont { data: font.data, font_index: font.font_index },
                task,
                cache,
            )
            &&& made.op is None && made.tasks.len() == 0
            &&& made.cache.textures == cache.textures
            &&& made.cache.fonts == cache.fonts.insert(key, handle)
            &&& failed.op is None && failed.tasks.len() == 0 && failed.cache == cache
        }),
{
}

/// Commands are replayed from the first to the last, each once and into the same target,
/// and so are fonts registered; an operation is performed once, and the tasks behind a
/// task wait in their order.
pub proof fn law_lists_are_worked_off_in_order(
    commands: Seq<CommandModel>,
    fonts: Seq<FontModel>,
    op: OpModel,
    target: Target,
    rest: Seq<TaskModel>,
    cache: CacheModel,
    outcome: OutcomeModel,
)
    ensures
        ({
            let c = crate::replay::step(
                seq![TaskModel::Commands(commands, target)] + rest,
                cache,
                outcome,
            );
            let f = crate::replay::step(seq![TaskModel::Fonts(fonts)] + rest, cache, outcome);
            let p = crate::replay::step(seq![TaskModel::Perform(op)] + rest, cache, outcome);
            &&& c.op is None && c.cache == cache && f.op is None && f.cache == cache
            &&& commands.len() == 0 ==> c.tasks == rest
            &&& commands.len() > 0 ==> c.tasks == seq![
                TaskModel::Command(commands[0], target),
                TaskModel::Commands(commands.subrange(1, commands.len() as int), target),
            ] + rest
            &&& fonts.len() == 0 ==> f.tasks == rest
            &&& fonts.len() > 0 ==> f.tasks == seq![
                TaskModel::RegisterFont(fonts[0]),
                TaskModel::Fonts(fonts.subrange(1, fonts.len() as int)),
            ] + rest
            &&& p.op == Some(op) && p.tasks == rest && p.cache == cache
        }),
{
    assert((seq![TaskModel::Commands(commands, target)] + rest).skip(1) =~= rest);
    assert((seq![TaskModel::Fonts(fonts)] + rest).skip(1) =~= rest);
    assert((seq![TaskModel::Perform(op)] + rest).skip(1) =~= rest);
    let nothing = Seq::<TaskModel>::empty();
    assert(nothing + rest =~= rest);
}

/// A command gives way to what it asks for.
pub proof fn law_command_gives_way(
    command: CommandModel,
    target: Target,
    rest: Seq<TaskModel>,
    cache: CacheModel,
    outcome: OutcomeModel,
)
    ensures
        ({
            let s = crate::replay::step(
                seq![TaskModel::Command(command, target)] + rest,
                cache,
                outcome,
            );
            &&& s.op is None && s.cache == cache
            &&& s.tasks == crate::replay::expansion(command, target) + rest
        }),
{
    assert((seq![TaskModel::Command(command, target)] + rest).skip(1) =~= rest);
}

/// Whether the tasks start to draw into an empty image of this size.
pub open spec fn starts_image(tasks: Seq<TaskModel>, image: u64, w: u32, h: u32) -> bool {
    &&& tasks[0] == TaskModel::Perform(OpModel::Save)
    &&& tasks[1] == TaskModel::Perform(OpModel::SetRenderTarget(Target::Image(image)))
    &&& tasks[2] == TaskModel::Perform(OpModel::Reset)
    &&& tasks[3] matches TaskModel::Perform(OpModel::Clear { width, height, color }) && width == w
        && height == h && color.red == 0 && color.green == 0 && color.blue == 0 && color.alpha == 0
}

/// Whether the task draws the whole of an image of this size, at its own size, with its
/// left edge at `x` and its top edge at `y`.
pub open spec fn draws_whole(
    task: TaskModel,
    handle: u64,
    x: Scalar,
    y: Scalar,
    w: u32,
    h: u32,
    opacity: Scalar,
) -> bool {
    task matches TaskModel::Perform(OpModel::Fill { shape, source, settings }) && {
        &&& settings == smooth(false)
        &&& shape matches ShapeModel::Rect(r) && r.origin.x == x && r.origin.y == y && r.size.width
            == Scalar::of_u32(w) && r.size.height == Scalar::of_u32(h)
        &&& source matches SourceModel::Image { image, rect, part, alpha } && image == handle
            && rect.origin.x == x && rect.origin.y == y && rect.size.width == Scalar::of_u32(w)
            && rect.size.height == Scalar::of_u32(h) && part.origin.x.bits == 0
            && part.origin.y.bits == 0 && part.size.width == Scalar::of_u32(w) && part.size.height
            == Scalar::of_u32(h) && alpha == opacity
    }
}

/// A layer is drawn in an image of its own width and height: empty at first, with its
/// origin moved to the corner of the image, its commands in there.  The image is then
/// drawn where the layer's origin is, at its own size, with the layer's opacity, into the
/// target that the layer came from, and deleted.  Where there is no image for it nothing
/// is drawn.
#[verifier::rlimit(40)]
pub proof fn law_layer_is_drawn_through_its_image(
    width: u32,
    height: u32,
    origin: Point,
    alpha_tint: Scalar,
    commands: Seq<CommandModel>,
    target: Target,
    cache: CacheModel,
    image: u64,
)
    ensures
        ({
            let tasks = crate::replay::expansion(
                CommandModel::Layer { width, height, origin, alpha_tint, commands },
                target,
            );
            let s = crate::replay::step_of(tasks[0], cache, OutcomeModel::Done);
            let made = crate::replay::step_of(
                s.tasks[0],
                cache,
                OutcomeModel::Image(Some(image)),
            );
            let failed = crate::replay::step_of(s.tasks[0], cache, OutcomeModel::Image(None));
            &&& tasks.len() == 1 && s.tasks.len() == 1 && s.cache == cache
            &&& s.op == Some(OpModel::CreateEmptyImage { width, height, flip_y: true })
            &&& failed.op is None && failed.tasks.len() == 0 && failed.cache == cache
            &&& made.op is None && made.cache == cache && made.tasks.len() == 10
            &&& starts_image(made.tasks, image, width, height)
            &&& made.tasks[4] == TaskModel::Perform(
                OpModel::Translate(origin.x.opposite(), origin.y.opposite()),
            )
            &&& made.tasks[5] == TaskModel::Commands(commands, Target::Image(image))
            &&& made.tasks[6] == TaskModel::Perform(OpModel::Restore)
            &&& made.tasks[7] == TaskModel::Perform(OpModel::SetRenderTarget(target))
            &&& draws_whole(
                made.tasks[8],
                image,
                origin.x,
                origin.y,
                width,
                height,
                alpha_tint,
            )
            &&& made.tasks[9] == TaskModel::Perform(OpModel::DeleteImage(image))
        }),
{
}

/// A box shadow that blurs or moves gets an image as wide as its width and its blur
/// together, and as high as its height and its blur together, both rounded up to whole
/// pixels; it is started with all that it carries, and remembers its target.  One that
/// neither blurs nor moves, or whose image would be empty, asks for nothing.
pub proof fn law_shadow_gets_an_image(
    color: Color,
    blur: Scalar,
    offset_x: Scalar,
    offset_y: Scalar,
    width: Scalar,
    height: Scalar,
    radius: BorderRadius,
    target: Target,
)
    ensures
        ({
            let tasks = crate::replay::expansion(
                CommandModel::DrawBoxShadow {
                    color,
                    blur,
                    offset_x,
                    offset_y,
                    width,
                    height,
                    radius,
                },
                target,
            );
            let w = width.sum(blur).rounded_up().whole_u32();
            let h = height.sum(blur).rounded_up().whole_u32();
            let still = blur.zero_valued() && offset_x.zero_valued() && offset_y.zero_valued();
            &&& still || w == 0 || h == 0 ==> tasks.len() == 0
            &&& !still && w != 0 && h != 0 ==> {
                &&& tasks.len() == 2
                &&& tasks[0] == TaskModel::Perform(
                    OpModel::CreateEmptyImage { width: w as u32, height: h as u32, flip_y: false },
                )
                &&& tasks[1] matches TaskModel::ShadowCreated(s) && s.color == color && s.blur
                    == blur && s.offset_x == offset_x && s.offset_y == offset_y && s.width == width
                    && s.height == height && s.radius == radius && s.image_width == w as u32
                    && s.image_height == h as u32 && s.target == target
            }
        }),
{
}

/// Whether the tasks from `at` on tint what is in the image with the colour of the shadow
/// and nothing beside it, leave the image, and draw it into the shadow's target, opaque and
/// at its own size, with its corner at the offset less the blur; then it is deleted.
pub open spec fn finishes_shadow(tasks: Seq<TaskModel>, at: int, s: Shadow, image: u64) -> bool {
    &&& tasks.len() == at + 8
    &&& tasks[at] == TaskModel::Perform(OpModel::Save)
    &&& tasks[at + 1] == TaskModel::Perform(OpModel::CompositeSourceIn)
    &&& tasks[at + 2] matches TaskModel::Perform(OpModel::Fill { shape, source, settings })
        && settings == no_settings() && source == SourceModel::Color(s.color) && (shape matches
        ShapeModel::Rect(r) && r.origin.x.bits == 0 && r.origin.y.bits == 0 && r.size.width
        == Scalar::of_u32(s.image_width) && r.size.height == Scalar::of_u32(s.image_height))
    &&& tasks[at + 3] == TaskModel::Perform(OpModel::Restore)
    &&& tasks[at + 4] == TaskModel::Perform(OpModel::Restore)
    &&& tasks[at + 5] == TaskModel::Perform(OpModel::SetRenderTarget(s.target))
    &&& draws_whole(
        tasks[at + 6],
        image,
        s.offset_x.difference(s.blur),
        s.offset_y.difference(s.blur),
        s.image_width,
        s.image_height,
        Scalar { bits: 0x3f80_0000 },
    )
    &&& tasks[at + 7] == TaskModel::Perform(OpModel::DeleteImage(image))
}

/// The shape of a shadow is filled in opaque white in its image, at the corner, with the
/// shadow's own sides and corners.  A shadow that blurs then asks for a second image of
/// the same size; one that does not is finished at once.  Without an image there is no
/// shadow.
#[verifier::rlimit(40)]
pub proof fn law_shadow_is_drawn_sharp_first(s: Shadow, cache: CacheModel, image: u64)
    ensures
        ({
            let made = crate::replay::step_of(
                TaskModel::ShadowCreated(s),
                cache,
                OutcomeModel::Image(Some(image)),
            );
            let failed = crate::replay::step_of(
                TaskModel::ShadowCreated(s),
                cache,
                OutcomeModel::Image(None),
            );
            &&& failed.op is None && failed.tasks.len() == 0 && failed.cache == cache
            &&& made.op is None && made.cache == cache
            &&& starts_image(made.tasks, image, s.image_width, s.image_height)
            &&& made.tasks[4] matches TaskModel::Perform(OpModel::Fill { shape, source, settings })
                && settings == no_settings() && (source matches SourceModel::Color(c) && c.red == 255
                && c.green == 255 && c.blue == 255 && c.alpha == 255) && outlines(
                shape,
                Rect {
                    origin: Point { x: Scalar { bits: 0 }, y: Scalar { bits: 0 } },
                    size: crate::geometry::Size { width: s.width, height: s.height },
                },
                s.radius,
            )
            &&& (Scalar { bits: 0 }).below(s.blur) ==> {
                &&& made.tasks.len() == 7
                &&& made.tasks[5] == TaskModel::Perform(
                    OpModel::CreateEmptyImage {
                        width: s.image_width,
                        height: s.image_height,
                        flip_y: false,
                    },
                )
                &&& made.tasks[6] == (TaskModel::ShadowBlurred { shadow: s, sharp: image })
            }
            &&& !(Scalar { bits: 0 }).below(s.blur) ==> finishes_shadow(made.tasks, 5, s, image)
        }),
{
    crate::drawing_laws::law_rounded_rectangle_keeps_its_edges(
        Rect {
            origin: Point { x: Scalar { bits: 0 }, y: Scalar { bits: 0 } },
            size: crate::geometry::Size { width: s.width, height: s.height },
        },
        s.radius,
    );
}

/// A shadow is blurred out of its sharp image into the second one, by half its blur; the
/// sharp image is deleted and the blurred one finished.  Without a second image the canvas
/// goes back to where it was, and the sharp image is deleted.
#[verifier::rlimit(40)]
pub proof fn law_shadow_is_blurred_by_half(s: Shadow, sharp: u64, cache: CacheModel, image: u64)
    ensures
        ({
            let task = TaskModel::ShadowBlurred { shadow: s, sharp };
            let made = crate::replay::step_of(task, cache, OutcomeModel::Image(Some(image)));
            let failed = crate::replay::step_of(task, cache, OutcomeModel::Image(None));
            &&& made.op is None && made.cache == cache && failed.op is None && failed.cache == cache
            &&& made.tasks[0] == TaskModel::Perform(
                OpModel::BlurImage {
                    target: image,
                    sigma: s.blur.product(Scalar { bits: 0x3f00_0000 }),
                    source: sharp,
                },
            )
            &&& made.tasks[1] == TaskModel::Perform(OpModel::SetRenderTarget(Target::Image(image)))
            &&& made.tasks[2] == TaskModel::Perform(OpModel::DeleteImage(sharp))
            &&& finishes_shadow(made.tasks, 3, s, image)
            &&& failed.tasks.len() == 3
            &&& failed.tasks[0] == TaskModel::Perform(OpModel::Restore)
            &&& failed.tasks[1] == TaskModel::Perform(OpModel::SetRenderTarget(s.target))
            &&& failed.tasks[2] == TaskModel::Perform(OpModel::DeleteImage(sharp))
        }),
{
}

/// A cached pixmap is uploaded with its own pixels, width and height under its own key,
/// and then blitted over nothing.
pub proof fn law_cached_pixmap_is_uploaded(
    key: u64,
    width: u32,
    height: u32,
    pixels: Seq<u8>,
    target: Target,
)
    ensures
        ({
            let tasks = crate::replay::expansion(
                CommandModel::CachedPixmap { key, width, height, pixels },
                target,
            );
            &&& tasks.len() == 2
            &&& tasks[0] == (TaskModel::Upload { key, pixels, width, height })
            &&& tasks[1] matches TaskModel::Blit { key: k, params } && k == key && params.len() == 9
                && forall|i: int| 0 <= i < 9 ==> (#[trigger] params[i]).bits == 0
        }),
{
}

/// A frame is drawn in this order: the fonts of the scene, those of the overlay, the size
/// of the canvas with the scale rounded up as its density, a clean state, the background,
/// the commands of the scene, those of the overlay on top, and then it is shown.  The
/// background is the scene's colour, channel by channel, or white where it has none, and
/// covers the whole window.
pub proof fn law_frame_is_drawn_in_order(
    width: u32,
    height: u32,
    scale_factor: Scalar,
    frame: SceneModel,
    overlay: OverlayModel,
)
    ensures
        ({
            let tasks = crate::replay::frame_tasks(width, height, scale_factor, frame, overlay);
            &&& tasks.len() == 10
            &&& tasks[0] == TaskModel::Fonts(frame.fonts)
            &&& tasks[1] == TaskModel::Fonts(overlay.fonts)
            &&& tasks[2] == TaskModel::Perform(
                OpModel::SetSize { width, height, dpi: scale_factor.rounded_up() },
            )
            &&& tasks[3] == TaskModel::Perform(OpModel::Reset)
            &&& tasks[4] matches TaskModel::Perform(OpModel::Clear { width: w, height: h, color })
                && w == width && h == height && match frame.background {
                Some(c) => color.red == c[0] && color.green == c[1] && color.blue == c[2]
                    && color.alpha == c[3],
                None => color.red == 255 && color.green == 255 && color.blue == 255 && color.alpha
                    == 255,
            }
            &&& tasks[5] == TaskModel::Commands(frame.commands, Target::Screen)
            &&& tasks[6] == TaskModel::Commands(overlay.commands, Target::Screen)
            &&& tasks[7] == TaskModel::Perform(OpModel::Flush)
            &&& tasks[8] == TaskModel::Perform(OpModel::SwapBuffers)
            &&& tasks[9] == TaskModel::Perform(OpModel::PrePresentNotify)
        }),
{
}

/// Where a part of an image is stretched over a rectangle, the whole image is stretched
/// by the same factors, each on its own axis: as wide and as high as it is times them, and
/// to the left and above by the place of the part times them.  An empty part is the whole.
pub proof fn law_whole_image_is_stretched_like_its_part(
    rect: Rect,
    part: Rect,
    width: u32,
    height: u32,
)
    ensures
        ({
            let r = crate::canvas::whole_image(rect, part, width, height);
            let zero = Scalar { bits: 0 };
            let across = rect.size.width.quotient(part.size.width);
            let down = rect.size.height.quotient(part.size.height);
            if zero.below(part.size.width) && zero.below(part.size.height) {
                &&& r.origin.x == rect.origin.x.difference(part.origin.x.product(across))
                &&& r.origin.y == rect.origin.y.difference(part.origin.y.product(down))
                &&& r.size.width == Scalar::of_u32(width).product(across)
                &&& r.size.height == Scalar::of_u32(height).product(down)
            } else {
                r == rect
            }
        }),
{
}

/// An answer that does not belong to the operation counts as a failure of it: nothing is
/// remembered and nothing is drawn.
#[verifier::rlimit(40)]
pub proof fn law_strange_answer_is_a_failure(
    cache: CacheModel,
    outcome: OutcomeModel,
    key: u64,
    index: u32,
    params: Seq<Scalar>,
    draw: OpModel,
    x: Scalar,
    y: Scalar,
    paint: PaintModel,
    shadow: Shadow,
    layer: TaskModel,
)
    requires
        layer is LayerCreated,
    ensures
        !(outcome is Image) ==> crate::replay::step_of(layer, cache, outcome).tasks.len() == 0,
        !(outcome is Image) ==> crate::replay::step_of(
            TaskModel::ShadowCreated(shadow),
            cache,
            outcome,
        ).tasks.len() == 0,
        !(outcome is Image) ==> crate::replay::step_of(
            TaskModel::ShadowBlurred { shadow, sharp: key },
            cache,
            outcome,
        ) == crate::replay::step_of(
            TaskModel::ShadowBlurred { shadow, sharp: key },
            cache,
            OutcomeModel::Image(None),
        ),
        !(outcome is Image) ==> crate::replay::step_of(
            TaskModel::Uploaded { key },
            cache,
            outcome,
        ).cache == cache,
        !(outcome is Font) ==> crate::replay::step_of(
            TaskModel::FontAdded { blob_id: key, font_index: index },
            cache,
            outcome,
        ).cache == cache,
        outcome != OutcomeModel::Valid(true) ==> crate::replay::step_of(
            TaskModel::BlitChecked { image: key, params },
            cache,
            outcome,
        ).tasks.len() == 0,
        !(outcome is Transform) ==> crate::replay::step_of(
            TaskModel::GlyphsPlaced { draw },
            cache,
            outcome,
        ).tasks.len() == 0,
        !(outcome is Shaped) ==> crate::replay::step_of(
            TaskModel::TextShaped { x, y, paint },
            cache,
            outcome,
        ).tasks.len() == 0,
{
}

} // verus!
