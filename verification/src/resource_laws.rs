//! Fonts and textures are there when a replay draws with them.
use crate::canvas::{OpModel, Target};
use crate::replay::{CacheModel, OutcomeModel, TaskModel};
use crate::scalar::Scalar;
use crate::scene::{CommandModel, FontModel, OverlayModel, SceneModel};
use vstd::prelude::*;

verus! {

/// Whether a font has this key.
pub open spec fn is_font(font: FontModel, blob_id: u64, font_index: u32) -> bool {
    font.blob_id == blob_id && font.font_index == font_index
}

/// Whether a task belongs to the preparation of a frame: it draws no glyphs.
pub open spec fn prepares(task: TaskModel) -> bool {
    task is Perform || task is Fonts || task is RegisterFont || task is FontAdded
}

/// Whether a task adds a font to the canvas.
pub open spec fn adds_font(task: TaskModel, blob_id: u64, font_index: u32) -> bool {
    match task {
        TaskModel::Fonts(fonts) => crate::encoder::has_font(fonts, blob_id, font_index),
        TaskModel::RegisterFont(font) => is_font(font, blob_id, font_index),
        TaskModel::FontAdded { blob_id: b, font_index: f } => b == blob_id && f == font_index,
        _ => false,
    }
}

/// Whether the task at a position adds a font, and all tasks before only prepare.
pub open spec fn adds_font_at(
    pending: Seq<TaskModel>,
    i: int,
    blob_id: u64,
    font_index: u32,
) -> bool {
    &&& 0 <= i < pending.len()
    &&& adds_font(pending[i], blob_id, font_index)
    &&& forall|j: int| 0 <= j < i ==> prepares(#[trigger] pending[j])
}

/// Whether a font is known, or will be before any glyphs are drawn.
pub open spec fn font_in_time(
    pending: Seq<TaskModel>,
    cache: CacheModel,
    blob_id: u64,
    font_index: u32,
) -> bool {
    ||| cache.fonts.contains_key(crate::replay::font_key(blob_id, font_index))
    ||| exists|i: int| #[trigger] adds_font_at(pending, i, blob_id, font_index)
}

/// The fonts of a frame and of its overlay are in time.
pub proof fn law_frame_fonts_in_time(
    width: u32,
    height: u32,
    scale_factor: Scalar,
    frame: SceneModel,
    overlay: OverlayModel,
    cache: CacheModel,
    blob_id: u64,
    font_index: u32,
)
    requires
        crate::encoder::has_font(frame.fonts, blob_id, font_index) || crate::encoder::has_font(
            overlay.fonts,
            blob_id,
            font_index,
        ),
    ensures
        font_in_time(
            crate::replay::frame_tasks(width, height, scale_factor, frame, overlay),
            cache,
            blob_id,
            font_index,
        ),
{
    let all = crate::replay::frame_tasks(width, height, scale_factor, frame, overlay);
    if crate::encoder::has_font(frame.fonts, blob_id, font_index) {
        assert(adds_font_at(all, 0, blob_id, font_index));
    } else {
        assert(adds_font_at(all, 1, blob_id, font_index));
    }
}

/// A font that is in time stays so, as long as the canvas accepts it; and a run of
/// glyphs of that font is drawn: its step asks for the transform, and the next
/// one draws with the font.
pub proof fn law_font_stays_in_time(
    pending: Seq<TaskModel>,
    cache: CacheModel,
    outcome: OutcomeModel,
    blob_id: u64,
    font_index: u32,
)
    requires
        pending.len() > 0,
        font_in_time(pending, cache, blob_id, font_index),
        pending[0] == (TaskModel::FontAdded { blob_id, font_index }) ==> outcome matches
            OutcomeModel::Font(Some(_)),
    ensures
        ({
            let s = crate::replay::step(pending, cache, outcome);
            &&& font_in_time(s.tasks, s.cache, blob_id, font_index)
            &&& pending[0] matches TaskModel::GlyphRun { blob_id: b, font_index: f, paint, .. }
                ==> b == blob_id && f == font_index && crate::canvas::source_of(paint) is Some ==> {
                &&& cache.fonts.contains_key(crate::replay::font_key(b, f))
                &&& s.op == Some(OpModel::QueryTransform)
                &&& s.tasks[0] matches TaskModel::GlyphsPlaced { draw: OpModel::Glyphs { font, .. } }
                    && font == cache.fonts[crate::replay::font_key(b, f)]
            }
        }),
{
    let key = crate::replay::font_key(blob_id, font_index);
    let s = crate::replay::step_of(pending[0], cache, outcome);
    let all = crate::replay::step(pending, cache, outcome);
    crate::replay_laws::law_cache_grows(pending, cache, outcome);
    if cache.fonts.contains_key(key) {
        assert(all.cache.fonts.dom().contains(key));
    } else {
        let i = choose|i: int| #[trigger] adds_font_at(pending, i, blob_id, font_index);
        assert(i > 0 ==> prepares(pending[0]));
        if i > 0 {
            let n = s.tasks.len() as int;
            assert(forall|j: int| 0 <= j < n ==> prepares(#[trigger] s.tasks[j]));
            assert(all.tasks[i - 1 + n] == pending[i]);
            assert forall|j: int| 0 <= j < i - 1 + n implies prepares(#[trigger] all.tasks[j]) by {
                if j < n {
                    assert(all.tasks[j] == s.tasks[j]);
                } else {
                    assert(all.tasks[j] == pending[j - n + 1]);
                }
            }
            assert(adds_font_at(all.tasks, i - 1 + n, blob_id, font_index));
        } else {
            match pending[0] {
                TaskModel::Fonts(fonts) => {
                    let j = choose|j: int|
                        0 <= j < fonts.len() && is_font(#[trigger] fonts[j], blob_id, font_index);
                    if is_font(fonts[0], blob_id, font_index) {
                        assert(adds_font_at(all.tasks, 0, blob_id, font_index));
                    } else {
                        assert(is_font(fonts.skip(1)[j - 1], blob_id, font_index));
                        assert(adds_font_at(all.tasks, 1, blob_id, font_index));
                    }
                },
                TaskModel::RegisterFont(_) => {
                    assert(adds_font_at(all.tasks, 0, blob_id, font_index));
                },
                _ => {},
            }
        }
    }
}

/// Whether a command puts a texture into the cache.
pub open spec fn brings_texture(command: CommandModel, key: u64) -> bool {
    match command {
        CommandModel::UploadPixmap { key: k, .. } => k == key,
        CommandModel::CachedPixmap { key: k, .. } => k == key,
        _ => false,
    }
}

/// Whether a command draws a texture that it does not put into the cache itself.
pub open spec fn draws_texture(command: CommandModel, key: u64) -> bool
    decreases command,
{
    match command {
        CommandModel::BlitPixmap { key: k, .. } => k == key,
        CommandModel::Layer { commands, .. } => exists|i: int|
            0 <= i < commands.len() && draws_texture(#[trigger] commands[i], key),
        _ => false,
    }
}

/// Whether one of the commands draws a texture.
pub open spec fn some_draws_texture(commands: Seq<CommandModel>, key: u64) -> bool {
    exists|i: int| 0 <= i < commands.len() && draws_texture(#[trigger] commands[i], key)
}

/// Whether the command at a position puts a texture into the cache, and none
/// before draws it.
pub open spec fn brings_texture_at(commands: Seq<CommandModel>, i: int, key: u64) -> bool {
    &&& 0 <= i < commands.len()
    &&& brings_texture(commands[i], key)
    &&& forall|j: int| 0 <= j < i ==> !draws_texture(#[trigger] commands[j], key)
}

/// Whether a texture is put into the cache before one of the commands draws it.
pub open spec fn uploads_in_time(commands: Seq<CommandModel>, key: u64) -> bool {
    exists|i: int| #[trigger] brings_texture_at(commands, i, key)
}

/// Whether a task draws a texture.
pub open spec fn task_draws(task: TaskModel, key: u64) -> bool {
    match task {
        TaskModel::Commands(commands, _) => some_draws_texture(commands, key),
        TaskModel::Command(command, _) => draws_texture(command, key),
        TaskModel::Blit { key: k, .. } => k == key,
        TaskModel::Layer { commands, .. } => some_draws_texture(commands, key),
        TaskModel::LayerCreated { commands, .. } => some_draws_texture(commands, key),
        _ => false,
    }
}

/// Whether a task puts a texture into the cache before it draws it.
pub open spec fn task_brings(task: TaskModel, key: u64) -> bool {
    match task {
        TaskModel::Commands(commands, _) => uploads_in_time(commands, key),
        TaskModel::Command(command, _) => brings_texture(command, key),
        TaskModel::Upload { key: k, .. } => k == key,
        TaskModel::Uploaded { key: k } => k == key,
        _ => false,
    }
}

/// Whether the task at a position brings a texture, and none before draws it.
pub open spec fn task_brings_at(pending: Seq<TaskModel>, i: int, key: u64) -> bool {
    &&& 0 <= i < pending.len()
    &&& task_brings(pending[i], key)
    &&& forall|j: int| 0 <= j < i ==> !task_draws(#[trigger] pending[j], key)
}

/// Whether a texture is known, or will be before it is drawn.
pub open spec fn texture_in_time(pending: Seq<TaskModel>, cache: CacheModel, key: u64) -> bool {
    ||| cache.textures.contains_key(key)
    ||| exists|i: int| #[trigger] task_brings_at(pending, i, key)
}

/// Whether none of the tasks draws a texture.
spec fn none_draws(tasks: Seq<TaskModel>, key: u64) -> bool {
    forall|i: int| 0 <= i < tasks.len() ==> !task_draws(#[trigger] tasks[i], key)
}

proof fn lemma_expansion_draws(command: CommandModel, target: Target, key: u64)
    requires
        !draws_texture(command, key),
        !brings_texture(command, key),
    ensures
        none_draws(crate::replay::expansion(command, target), key),
{
    let e = crate::replay::expansion(command, target);
    match command {
        CommandModel::Layer { commands, .. } => {
            assert(!some_draws_texture(commands, key));
        },
        CommandModel::CachedPixmap { .. } => {
            assert(e.len() == 2);
        },
        CommandModel::DrawBoxShadow { .. } => {
            assert(e.len() == 0 || e.len() == 2);
        },
        CommandModel::FillTextRect { .. } => {
            assert(e.len() <= 2);
        },
        _ => {
            assert(e.len() <= 1);
        },
    }
}

proof fn lemma_text_draws(
    runs: Seq<crate::replay::RunModel>,
    x: Scalar,
    y: Scalar,
    paint: crate::scene::PaintModel,
    key: u64,
)
    ensures
        none_draws(crate::replay::text_drawn(runs, x, y, paint), key),
    decreases runs.len(),
{
    if runs.len() > 0 {
        lemma_text_draws(runs.drop_last(), x, y, paint, key);
    }
}

proof fn lemma_performs_draw(tasks: Seq<TaskModel>, key: u64)
    requires
        forall|i: int| 0 <= i < tasks.len() ==> (#[trigger] tasks[i]) is Perform,
    ensures
        none_draws(tasks, key),
{
}

proof fn lemma_layer_draws(
    image: u64,
    width: u32,
    height: u32,
    origin: crate::geometry::PhysicalPoint,
    alpha_tint: Scalar,
    commands: Seq<CommandModel>,
    target: Target,
    key: u64,
)
    requires
        !some_draws_texture(commands, key),
    ensures
        none_draws(
            crate::replay::layer_drawn(image, width, height, origin, alpha_tint, commands, target),
            key,
        ),
{
    let d = crate::replay::layer_drawn(image, width, height, origin, alpha_tint, commands, target);
    assert(d[5] == TaskModel::Commands(commands, Target::Image(image)));
    lemma_performs_draw(d.take(5), key);
    lemma_performs_draw(d.skip(6), key);
    assert forall|i: int| 0 <= i < d.len() implies !task_draws(#[trigger] d[i], key) by {
        if i < 5 {
            assert(d[i] == d.take(5)[i]);
        } else if i > 5 {
            assert(d[i] == d.skip(6)[i - 6]);
        }
    }
}

proof fn lemma_shadow_draws(s: crate::replay::Shadow, image: u64, key: u64)
    ensures
        none_draws(crate::replay::shadow_drawn(s, image), key),
{
    let f = crate::replay::shadow_finished(s, image);
    lemma_performs_draw(f, key);
    let d = crate::replay::shadow_drawn(s, image);
    lemma_performs_draw(d.take(5), key);
    assert forall|i: int| 0 <= i < d.len() implies !task_draws(#[trigger] d[i], key) by {
        if i < 5 {
            assert(d[i] == d.take(5)[i]);
        } else if !s.blur.positive() {
            assert(d[i] == f[i - 5]);
        }
    }
}

/// A task that does not draw a texture becomes tasks that do not, or the texture
/// comes first.
#[verifier::rlimit(40)]
proof fn lemma_step_of_draws(
    task: TaskModel,
    cache: CacheModel,
    outcome: OutcomeModel,
    key: u64,
)
    requires
        !task_draws(task, key),
    ensures
        ({
            let tasks = crate::replay::step_of(task, cache, outcome).tasks;
            none_draws(tasks, key) || exists|i: int| #[trigger] task_brings_at(tasks, i, key)
        }),
{
    let s = crate::replay::step_of(task, cache, outcome);
    match task {
        TaskModel::Commands(commands, _) => {
            if commands.len() > 0 {
                let rest = commands.skip(1);
                assert(!draws_texture(commands[0], key));
                assert forall|i: int| 0 <= i < rest.len() implies !draws_texture(
                    #[trigger] rest[i],
                    key,
                ) by {
                    assert(rest[i] == commands[i + 1]);
                }
                assert(s.tasks.len() == 2);
            }
        },
        TaskModel::Command(command, target) => {
            if brings_texture(command, key) {
                assert(task_brings_at(s.tasks, 0, key));
            } else {
                lemma_expansion_draws(command, target, key);
            }
        },
        TaskModel::TextShaped { x, y, paint } => {
            if let OutcomeModel::Shaped(runs) = outcome {
                lemma_text_draws(runs, x, y, paint, key);
            }
        },
        TaskModel::LayerCreated { width, height, origin, alpha_tint, commands, target } => {
            if let OutcomeModel::Image(Some(image)) = outcome {
                lemma_layer_draws(image, width, height, origin, alpha_tint, commands, target, key);
            }
        },
        TaskModel::ShadowCreated(shadow) => {
            if let OutcomeModel::Image(Some(image)) = outcome {
                lemma_shadow_draws(shadow, image, key);
            }
        },
        TaskModel::ShadowBlurred { .. } => {
            lemma_performs_draw(s.tasks, key);
        },
        TaskModel::GlyphsPlaced { .. } => {
            lemma_performs_draw(s.tasks, key);
        },
        TaskModel::BlitChecked { .. } => {
            lemma_performs_draw(s.tasks, key);
        },
        _ => {
            assert(s.tasks.len() <= 2);
        },
    }
}

/// A task that brings a texture, while it is not known, goes on to bring it.
proof fn lemma_step_of_brings(
    task: TaskModel,
    cache: CacheModel,
    outcome: OutcomeModel,
    key: u64,
)
    requires
        task_brings(task, key),
        !cache.textures.contains_key(key),
        !(task is Uploaded),
    ensures
        exists|i: int| #[trigger]
            task_brings_at(
                crate::replay::step_of(task, cache, outcome).tasks,
                i,
                key,
            ),
{
    let s = crate::replay::step_of(task, cache, outcome);
    match task {
        TaskModel::Commands(commands, _) => {
            let i = choose|i: int| #[trigger] brings_texture_at(commands, i, key);
            if i == 0 {
                assert(task_brings_at(s.tasks, 0, key));
            } else {
                let rest = commands.skip(1);
                assert forall|j: int| 0 <= j < i - 1 implies !draws_texture(
                    #[trigger] rest[j],
                    key,
                ) by {
                    assert(rest[j] == commands[j + 1]);
                }
                assert(brings_texture_at(rest, i - 1, key));
                assert(!draws_texture(commands[0], key));
                assert(task_brings_at(s.tasks, 1, key));
            }
        },
        _ => {
            assert(task_brings_at(s.tasks, 0, key));
        },
    }
}

/// A texture that is in time stays so, as long as the canvas creates it; and a
/// blit of it finds it: its step asks whether the image is there, and the next
/// one draws that image.
pub proof fn law_texture_stays_in_time(
    pending: Seq<TaskModel>,
    cache: CacheModel,
    outcome: OutcomeModel,
    key: u64,
)
    requires
        pending.len() > 0,
        texture_in_time(pending, cache, key),
        pending[0] == (TaskModel::Uploaded { key }) ==> outcome matches OutcomeModel::Image(
            Some(_),
        ),
    ensures
        ({
            let s = crate::replay::step(pending, cache, outcome);
            &&& texture_in_time(s.tasks, s.cache, key)
            &&& pending[0] matches TaskModel::Blit { key: k, params } ==> k == key ==> {
                &&& cache.textures.contains_key(key)
                &&& s.op == Some(OpModel::CheckImage(cache.textures[key]))
                &&& s.tasks[0] == TaskModel::BlitChecked { image: cache.textures[key], params }
            }
        }),
{
    let s = crate::replay::step_of(pending[0], cache, outcome);
    let all = crate::replay::step(pending, cache, outcome);
    let n = s.tasks.len() as int;
    crate::replay_laws::law_cache_grows(pending, cache, outcome);
    if cache.textures.contains_key(key) {
        assert(all.cache.textures.dom().contains(key));
    } else {
        let i = choose|i: int| #[trigger] task_brings_at(pending, i, key);
        if i == 0 {
            if !(pending[0] is Uploaded) {
                lemma_step_of_brings(pending[0], cache, outcome, key);
            }
        } else {
            assert(!task_draws(pending[0], key));
            lemma_step_of_draws(pending[0], cache, outcome, key);
        }
        if exists|j: int| #[trigger] task_brings_at(s.tasks, j, key) {
            let j = choose|j: int| #[trigger] task_brings_at(s.tasks, j, key);
            assert forall|l: int| 0 <= l < j implies !task_draws(#[trigger] all.tasks[l], key) by {
                assert(all.tasks[l] == s.tasks[l]);
            }
            assert(all.tasks[j] == s.tasks[j]);
            assert(task_brings_at(all.tasks, j, key));
        } else if i > 0 {
            assert(all.tasks[i - 1 + n] == pending[i]);
            assert forall|l: int| 0 <= l < i - 1 + n implies !task_draws(
                #[trigger] all.tasks[l],
                key,
            ) by {
                if l < n {
                    assert(all.tasks[l] == s.tasks[l]);
                } else {
                    assert(all.tasks[l] == pending[l - n + 1]);
                }
            }
            assert(task_brings_at(all.tasks, i - 1 + n, key));
        }
    }
}

/// The textures of a frame whose commands upload before they draw are in time.
pub proof fn law_frame_textures_in_time(
    width: u32,
    height: u32,
    scale_factor: Scalar,
    frame: SceneModel,
    overlay: OverlayModel,
    cache: CacheModel,
    key: u64,
)
    requires
        uploads_in_time(frame.commands, key),
    ensures
        texture_in_time(
            crate::replay::frame_tasks(width, height, scale_factor, frame, overlay),
            cache,
            key,
        ),
{
    let all = crate::replay::frame_tasks(width, height, scale_factor, frame, overlay);
    assert(task_brings_at(all, 5, key));
}

/// The first upload of a texture in a list of commands, if there is one.
proof fn lemma_first_upload(commands: Seq<CommandModel>, at: int, key: u64) -> (first: int)
    requires
        0 <= at < commands.len(),
        crate::encoder::uploads(commands[at], key),
    ensures
        0 <= first <= at,
        crate::encoder::uploads(commands[first], key),
        forall|j: int| 0 <= j < first ==> !crate::encoder::uploads(#[trigger] commands[j], key),
    decreases at,
{
    if exists|j: int| 0 <= j < at && crate::encoder::uploads(#[trigger] commands[j], key) {
        let j = choose|j: int| 0 <= j < at && crate::encoder::uploads(#[trigger] commands[j], key);
        lemma_first_upload(commands, j, key)
    } else {
        at
    }
}

/// What an encoder encodes uploads a texture before it draws it.
pub proof fn law_encoded_textures_in_time(m: crate::encoder::EncoderModel, at: int, key: u64)
    requires
        m.sound(),
        0 <= at < m.commands.len(),
        draws_texture(m.commands[at], key),
    ensures
        uploads_in_time(m.scene().commands, key),
{
    assert(m.blits_have_uploads() && m.flat());
    let up = choose|j: int|
        0 <= j < at && crate::encoder::uploads(#[trigger] m.commands[j], key);
    let first = lemma_first_upload(m.commands, up, key);
    assert forall|j: int| 0 <= j < first implies !draws_texture(
        #[trigger] m.commands[j],
        key,
    ) by {
        if draws_texture(m.commands[j], key) {
            let up = choose|l: int|
                0 <= l < j && crate::encoder::uploads(#[trigger] m.commands[l], key);
            assert(crate::encoder::uploads(m.commands[up], key));
        }
    }
    assert(brings_texture_at(m.scene().commands, first, key));
}

} // verus!
