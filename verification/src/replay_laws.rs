//! What holds of every replay.
use crate::canvas::{OpModel, Target};
use crate::replay::{CacheModel, OutcomeModel, TaskModel};
use crate::scalar::Scalar;
use crate::scene::{CommandModel, FontModel, OverlayModel, SceneModel};
use vstd::prelude::*;

verus! {

/// The tasks behind the first ones wait: a step on a list of tasks followed by
/// others is the step on the list, followed by the others.  So the scene is
/// replayed to its end before the overlay, and both before the frame is
/// presented.
pub proof fn law_tasks_wait(
    first: Seq<TaskModel>,
    others: Seq<TaskModel>,
    cache: CacheModel,
    outcome: OutcomeModel,
)
    requires
        first.len() > 0,
    ensures
        crate::replay::step(first + others, cache, outcome).tasks
            == crate::replay::step(first, cache, outcome).tasks + others,
        crate::replay::step(first + others, cache, outcome).op == crate::replay::step(
            first,
            cache,
            outcome,
        ).op,
        crate::replay::step(first + others, cache, outcome).cache
            == crate::replay::step(first, cache, outcome).cache,
{
    assert((first + others)[0] == first[0]);
    assert((first + others).skip(1) =~= first.skip(1) + others);
    assert(crate::replay::step(first + others, cache, outcome).tasks
        =~= crate::replay::step(first, cache, outcome).tasks + others);
}

/// The tasks of a frame are those up to the scene's last command, then the
/// overlay's commands, then the presentation.
pub proof fn law_scene_before_overlay(
    width: u32,
    height: u32,
    scale_factor: Scalar,
    frame: SceneModel,
    overlay: OverlayModel,
)
    ensures
        crate::replay::frame_tasks(width, height, scale_factor, frame, overlay)
            == crate::replay::frame_tasks(width, height, scale_factor, frame, overlay).take(5) + seq![
            TaskModel::Commands(frame.commands, Target::Screen),
        ] + seq![TaskModel::Commands(overlay.commands, Target::Screen)] + seq![
            TaskModel::Perform(OpModel::Flush),
            TaskModel::Perform(OpModel::SwapBuffers),
            TaskModel::Perform(OpModel::PrePresentNotify),
        ],
{
    let all = crate::replay::frame_tasks(width, height, scale_factor, frame, overlay);
    assert(all =~= all.take(5) + seq![TaskModel::Commands(frame.commands, Target::Screen)] + seq![
        TaskModel::Commands(overlay.commands, Target::Screen),
    ] + seq![
        TaskModel::Perform(OpModel::Flush),
        TaskModel::Perform(OpModel::SwapBuffers),
        TaskModel::Perform(OpModel::PrePresentNotify),
    ]);
}

/// An overlay without commands and fonts draws nothing: its tasks pass without an
/// operation and leave the cache as it was.
pub proof fn law_empty_overlay(
    target: Target,
    others: Seq<TaskModel>,
    cache: CacheModel,
    outcome: OutcomeModel,
)
    ensures
        ({
            let s = crate::replay::step(
                seq![TaskModel::Commands(Seq::empty(), target)] + others,
                cache,
                outcome,
            );
            s.op is None && s.tasks == others && s.cache == cache
        }),
        ({
            let s = crate::replay::step(
                seq![TaskModel::Fonts(Seq::empty())] + others,
                cache,
                outcome,
            );
            s.op is None && s.tasks == others && s.cache == cache
        }),
{
    let a = seq![TaskModel::Commands(Seq::<CommandModel>::empty(), target)];
    let b = seq![TaskModel::Fonts(Seq::<FontModel>::empty())];
    law_tasks_wait(a, others, cache, outcome);
    law_tasks_wait(b, others, cache, outcome);
    assert(crate::replay::step(a, cache, outcome).tasks + others =~= others);
    assert(crate::replay::step(b, cache, outcome).tasks + others =~= others);
}

/// What the canvas holds stays remembered: no step forgets a font or a texture,
/// whatever is pending.
pub proof fn law_cache_grows(
    pending: Seq<TaskModel>,
    cache: CacheModel,
    outcome: OutcomeModel,
)
    requires
        pending.len() > 0,
    ensures
        cache.fonts.dom().subset_of(
            crate::replay::step(pending, cache, outcome).cache.fonts.dom(),
        ),
        cache.textures.dom().subset_of(
            crate::replay::step(pending, cache, outcome).cache.textures.dom(),
        ),
{
}

/// Two fonts share a key only if they are the same.
pub proof fn law_font_keys(blob_a: u64, index_a: u32, blob_b: u64, index_b: u32)
    ensures
        crate::replay::font_key(blob_a, index_a) == crate::replay::font_key(blob_b, index_b)
            <==> blob_a == blob_b && index_a == index_b,
{
}

/// Whether fonts are added and images created only where the cache was asked
/// before.
pub open spec fn asks_cache(task: TaskModel) -> bool {
    match task {
        TaskModel::Perform(op) => !(op is AddFont) && !(op is CreateImage),
        TaskModel::GlyphsPlaced { draw } => !(draw is AddFont) && !(draw is CreateImage),
        _ => true,
    }
}

/// The same of a list of tasks.
pub open spec fn all_ask_cache(tasks: Seq<TaskModel>) -> bool {
    forall|i: int| 0 <= i < tasks.len() ==> asks_cache(#[trigger] tasks[i])
}

proof fn lemma_text_asks_cache(
    runs: Seq<crate::replay::RunModel>,
    x: Scalar,
    y: Scalar,
    paint: crate::scene::PaintModel,
)
    ensures
        all_ask_cache(crate::replay::text_drawn(runs, x, y, paint)),
    decreases runs.len(),
{
    if runs.len() > 0 {
        lemma_text_asks_cache(runs.drop_last(), x, y, paint);
    }
}

proof fn lemma_shadow_asks_cache(s: crate::replay::Shadow, image: u64)
    ensures
        all_ask_cache(crate::replay::shadow_finished(s, image)),
        all_ask_cache(crate::replay::shadow_drawn(s, image)),
{
    let f = crate::replay::shadow_finished(s, image);
    let d = crate::replay::shadow_drawn(s, image);
    assert forall|i: int| 0 <= i < d.len() implies asks_cache(#[trigger] d[i]) by {
        if i >= 5 && !s.blur.positive() {
            assert(d[i] == f[i - 5]);
        }
    }
}

#[verifier::rlimit(40)]
proof fn lemma_expansion_asks_cache(command: CommandModel, target: Target)
    ensures
        all_ask_cache(crate::replay::expansion(command, target)),
{
    let e = crate::replay::expansion(command, target);
    match command {
        CommandModel::DrawGlyphRun { .. } => {
            assert(e.len() == 1);
        },
        CommandModel::DrawText { .. } => {
            assert(e.len() <= 1);
        },
        CommandModel::UploadPixmap { .. } => {
            assert(e.len() == 1);
        },
        CommandModel::BlitPixmap { .. } => {
            assert(e.len() == 1);
        },
        CommandModel::Layer { .. } => {
            assert(e.len() == 1);
        },
        CommandModel::CachedPixmap { .. } => {
            assert(e.len() == 2);
        },
        CommandModel::DrawBoxShadow { .. } => {
            assert(e.len() == 0 || e.len() == 2);
        },
        CommandModel::FillTextRect { .. } => {
            assert(e.len() <= 2);
        },
        _ => {
            assert(e.len() <= 1);
        },
    }
}

proof fn lemma_layer_asks_cache(
    image: u64,
    width: u32,
    height: u32,
    origin: crate::geometry::PhysicalPoint,
    alpha_tint: Scalar,
    commands: Seq<CommandModel>,
    target: Target,
)
    ensures
        all_ask_cache(
            crate::replay::layer_drawn(image, width, height, origin, alpha_tint, commands, target),
        ),
{
    let d = crate::replay::layer_drawn(image, width, height, origin, alpha_tint, commands, target);
    assert(d.len() == 10);
}

#[verifier::rlimit(40)]
proof fn lemma_step_of_asks_cache(
    task: TaskModel,
    cache: CacheModel,
    outcome: OutcomeModel,
)
    requires
        asks_cache(task),
    ensures
        all_ask_cache(crate::replay::step_of(task, cache, outcome).tasks),
{
    let s = crate::replay::step_of(task, cache, outcome);
    match task {
        TaskModel::Command(command, target) => {
            lemma_expansion_asks_cache(command, target);
        },
        TaskModel::LayerCreated { width, height, origin, alpha_tint, commands, target } => {
            if let OutcomeModel::Image(Some(image)) = outcome {
                lemma_layer_asks_cache(image, width, height, origin, alpha_tint, commands, target);
            }
        },
        TaskModel::GlyphsPlaced { .. } => {
            assert(s.tasks.len() <= 5);
        },
        TaskModel::TextShaped { x, y, paint } => {
            if let OutcomeModel::Shaped(runs) = outcome {
                lemma_text_asks_cache(runs, x, y, paint);
            }
        },
        TaskModel::ShadowCreated(shadow) => {
            if let OutcomeModel::Image(Some(image)) = outcome {
                lemma_shadow_asks_cache(shadow, image);
            }
        },
        TaskModel::ShadowBlurred { shadow, .. } => {
            if let OutcomeModel::Image(Some(image)) = outcome {
                lemma_shadow_asks_cache(shadow, image);
                let f = crate::replay::shadow_finished(shadow, image);
                assert forall|i: int| 0 <= i < s.tasks.len() implies asks_cache(
                    #[trigger] s.tasks[i],
                ) by {
                    if i >= 3 {
                        assert(s.tasks[i] == f[i - 3]);
                    }
                }
            }
        },
        _ => {
            assert(s.tasks.len() <= 2);
        },
    }
}

/// A font is added once for as long as the canvas lives, and so is a texture: a
/// step adds a font, or creates an image from pixels, only where the cache does
/// not remember it, and the outcome is remembered next.
pub proof fn law_added_once(
    pending: Seq<TaskModel>,
    cache: CacheModel,
    outcome: OutcomeModel,
)
    requires
        pending.len() > 0,
        all_ask_cache(pending),
    ensures
        ({
            let s = crate::replay::step(pending, cache, outcome);
            &&& all_ask_cache(s.tasks)
            &&& s.op matches Some(OpModel::AddFont { .. }) ==> (s.tasks[0] matches
                TaskModel::FontAdded { blob_id, font_index } && !cache.fonts.contains_key(
                crate::replay::font_key(blob_id, font_index),
            ))
            &&& s.op matches Some(OpModel::CreateImage { .. }) ==> (s.tasks[0] matches
                TaskModel::Uploaded { key } && !cache.textures.contains_key(key))
        }),
{
    let s = crate::replay::step_of(pending[0], cache, outcome);
    let all = crate::replay::step(pending, cache, outcome);
    assert(asks_cache(pending[0]));
    lemma_step_of_asks_cache(pending[0], cache, outcome);
    assert forall|i: int| 0 <= i < all.tasks.len() implies asks_cache(#[trigger] all.tasks[i]) by {
        if i < s.tasks.len() {
            assert(all.tasks[i] == s.tasks[i]);
        } else {
            assert(all.tasks[i] == pending[i - s.tasks.len() + 1]);
        }
    }
    if s.tasks.len() > 0 {
        assert(all.tasks[0] == s.tasks[0]);
    }
}

/// The tasks of a frame ask the cache.
pub proof fn law_frame_asks_cache(
    width: u32,
    height: u32,
    scale_factor: Scalar,
    frame: SceneModel,
    overlay: OverlayModel,
)
    ensures
        all_ask_cache(crate::replay::frame_tasks(width, height, scale_factor, frame, overlay)),
{
}

/// Whether every texture that a command may upload is remembered.
pub open spec fn textures_known(command: CommandModel, cache: CacheModel) -> bool
    decreases command,
{
    match command {
        CommandModel::UploadPixmap { key, .. } => cache.textures.contains_key(key),
        CommandModel::CachedPixmap { key, .. } => cache.textures.contains_key(key),
        CommandModel::Layer { commands, .. } => forall|i: int|
            0 <= i < commands.len() ==> textures_known(#[trigger] commands[i], cache),
        _ => true,
    }
}

/// Whether every texture that a list of commands may upload is remembered.
pub open spec fn all_textures_known(commands: Seq<CommandModel>, cache: CacheModel) -> bool {
    forall|i: int| 0 <= i < commands.len() ==> textures_known(#[trigger] commands[i], cache)
}

/// Whether every texture that a task may upload is remembered.
pub open spec fn task_textures_known(task: TaskModel, cache: CacheModel) -> bool {
    match task {
        TaskModel::Perform(op) => !(op is CreateImage),
        TaskModel::Commands(commands, _) => all_textures_known(commands, cache),
        TaskModel::Command(command, _) => textures_known(command, cache),
        TaskModel::Upload { key, .. } => cache.textures.contains_key(key),
        TaskModel::Layer { commands, .. } => all_textures_known(commands, cache),
        TaskModel::LayerCreated { commands, .. } => all_textures_known(commands, cache),
        TaskModel::GlyphsPlaced { draw } => !(draw is CreateImage),
        _ => true,
    }
}

/// Whether every texture that a list of tasks may upload is remembered.
pub open spec fn tasks_textures_known(tasks: Seq<TaskModel>, cache: CacheModel) -> bool {
    forall|i: int| 0 <= i < tasks.len() ==> task_textures_known(#[trigger] tasks[i], cache)
}

proof fn lemma_known_text(
    runs: Seq<crate::replay::RunModel>,
    x: Scalar,
    y: Scalar,
    paint: crate::scene::PaintModel,
    cache: CacheModel,
)
    ensures
        tasks_textures_known(crate::replay::text_drawn(runs, x, y, paint), cache),
    decreases runs.len(),
{
    if runs.len() > 0 {
        lemma_known_text(runs.drop_last(), x, y, paint, cache);
    }
}

proof fn lemma_textures_stay_known(command: CommandModel, cache: CacheModel, larger: CacheModel)
    requires
        textures_known(command, cache),
        cache.textures.dom().subset_of(larger.textures.dom()),
    ensures
        textures_known(command, larger),
    decreases command,
{
    if let CommandModel::Layer { commands, .. } = command {
        assert forall|i: int| 0 <= i < commands.len() implies textures_known(
            #[trigger] commands[i],
            larger,
        ) by {
            lemma_textures_stay_known(commands[i], cache, larger);
        }
    }
}

proof fn lemma_task_textures_stay_known(task: TaskModel, cache: CacheModel, larger: CacheModel)
    requires
        task_textures_known(task, cache),
        cache.textures.dom().subset_of(larger.textures.dom()),
    ensures
        task_textures_known(task, larger),
{
    match task {
        TaskModel::Commands(commands, _) => {
            assert forall|i: int| 0 <= i < commands.len() implies textures_known(
                #[trigger] commands[i],
                larger,
            ) by {
                lemma_textures_stay_known(commands[i], cache, larger);
            }
        },
        TaskModel::Command(command, _) => {
            lemma_textures_stay_known(command, cache, larger);
        },
        TaskModel::Layer { commands, .. } => {
            assert forall|i: int| 0 <= i < commands.len() implies textures_known(
                #[trigger] commands[i],
                larger,
            ) by {
                lemma_textures_stay_known(commands[i], cache, larger);
            }
        },
        TaskModel::LayerCreated { commands, .. } => {
            assert forall|i: int| 0 <= i < commands.len() implies textures_known(
                #[trigger] commands[i],
                larger,
            ) by {
                lemma_textures_stay_known(commands[i], cache, larger);
            }
        },
        _ => {},
    }
}

proof fn lemma_known_performs(tasks: Seq<TaskModel>, cache: CacheModel)
    requires
        forall|i: int|
            0 <= i < tasks.len() ==> (#[trigger] tasks[i] matches TaskModel::Perform(op) && !(op
                is CreateImage)),
    ensures
        tasks_textures_known(tasks, cache),
{
}

#[verifier::rlimit(40)]
proof fn lemma_expansion_textures(command: CommandModel, target: Target, cache: CacheModel)
    requires
        textures_known(command, cache),
    ensures
        tasks_textures_known(crate::replay::expansion(command, target), cache),
{
    let e = crate::replay::expansion(command, target);
    match command {
        CommandModel::Layer { commands, .. } => {
            assert(all_textures_known(commands, cache));
            assert(e.len() == 1);
        },
        CommandModel::DrawGlyphRun { .. } => {
            assert(e.len() == 1);
        },
        CommandModel::DrawText { .. } => {
            assert(e.len() <= 1);
        },
        CommandModel::UploadPixmap { .. } => {
            assert(e.len() == 1);
        },
        CommandModel::BlitPixmap { .. } => {
            assert(e.len() == 1);
        },
        CommandModel::DrawBoxShadow { .. } => {
            assert(e.len() == 0 || e.len() == 2);
        },
        CommandModel::CachedPixmap { .. } => {
            assert(e.len() == 2);
        },
        _ => {
            lemma_known_performs(e, cache);
        },
    }
}

proof fn lemma_layer_textures(
    image: u64,
    width: u32,
    height: u32,
    origin: crate::geometry::PhysicalPoint,
    alpha_tint: Scalar,
    commands: Seq<CommandModel>,
    target: Target,
    cache: CacheModel,
)
    requires
        all_textures_known(commands, cache),
    ensures
        tasks_textures_known(
            crate::replay::layer_drawn(image, width, height, origin, alpha_tint, commands, target),
            cache,
        ),
{
    let d = crate::replay::layer_drawn(image, width, height, origin, alpha_tint, commands, target);
    assert(d[5] == TaskModel::Commands(commands, Target::Image(image)));
    lemma_known_performs(d.take(5), cache);
    lemma_known_performs(d.skip(6), cache);
    assert forall|i: int| 0 <= i < d.len() implies task_textures_known(
        #[trigger] d[i],
        cache,
    ) by {
        if i < 5 {
            assert(d[i] == d.take(5)[i]);
        } else if i > 5 {
            assert(d[i] == d.skip(6)[i - 6]);
        }
    }
}

proof fn lemma_shadow_textures(s: crate::replay::Shadow, image: u64, cache: CacheModel)
    ensures
        tasks_textures_known(crate::replay::shadow_drawn(s, image), cache),
{
    let f = crate::replay::shadow_finished(s, image);
    lemma_known_performs(f, cache);
    let d = crate::replay::shadow_drawn(s, image);
    lemma_known_performs(d.take(5), cache);
    assert forall|i: int| 0 <= i < d.len() implies task_textures_known(
        #[trigger] d[i],
        cache,
    ) by {
        if i < 5 {
            assert(d[i] == d.take(5)[i]);
        } else if !s.blur.positive() {
            assert(d[i] == f[i - 5]);
        }
    }
}

#[verifier::rlimit(40)]
proof fn lemma_step_of_textures(
    task: TaskModel,
    cache: CacheModel,
    outcome: OutcomeModel,
)
    requires
        task_textures_known(task, cache),
    ensures
        ({
            let s = crate::replay::step_of(task, cache, outcome);
            &&& !(s.op matches Some(OpModel::CreateImage { .. }))
            &&& tasks_textures_known(s.tasks, cache)
        }),
{
    let s = crate::replay::step_of(task, cache, outcome);
    match task {
        TaskModel::Commands(commands, _) => {
            if commands.len() > 0 {
                let rest = commands.skip(1);
                assert(textures_known(commands[0], cache));
                assert forall|i: int| 0 <= i < rest.len() implies textures_known(
                    #[trigger] rest[i],
                    cache,
                ) by {
                    assert(rest[i] == commands[i + 1]);
                }
                assert(s.tasks.len() == 2);
            }
        },
        TaskModel::Command(command, target) => {
            lemma_expansion_textures(command, target, cache);
        },
        TaskModel::TextShaped { x, y, paint } => {
            if let OutcomeModel::Shaped(runs) = outcome {
                lemma_known_text(runs, x, y, paint, cache);
            }
        },
        TaskModel::LayerCreated { width, height, origin, alpha_tint, commands, target } => {
            if let OutcomeModel::Image(Some(image)) = outcome {
                lemma_layer_textures(image, width, height, origin, alpha_tint, commands, target, cache);
            }
        },
        TaskModel::ShadowCreated(shadow) => {
            if let OutcomeModel::Image(Some(image)) = outcome {
                lemma_shadow_textures(shadow, image, cache);
            }
        },
        TaskModel::ShadowBlurred { .. } => {
            lemma_known_performs(s.tasks, cache);
        },
        TaskModel::GlyphsPlaced { .. } => {
            lemma_known_performs(s.tasks, cache);
        },
        TaskModel::BlitChecked { .. } => {
            lemma_known_performs(s.tasks, cache);
        },
        _ => {
            assert(s.tasks.len() <= 2);
        },
    }
}

/// Replaying a retained frame again uploads nothing: while every texture of the
/// pending tasks is remembered, no step creates an image from pixels, and the
/// same holds of the tasks that follow.
#[verifier::rlimit(40)]
pub proof fn law_retained_frame_uploads_nothing(
    pending: Seq<TaskModel>,
    cache: CacheModel,
    outcome: OutcomeModel,
)
    requires
        pending.len() > 0,
        tasks_textures_known(pending, cache),
    ensures
        ({
            let s = crate::replay::step(pending, cache, outcome);
            &&& !(s.op matches Some(OpModel::CreateImage { .. }))
            &&& tasks_textures_known(s.tasks, s.cache)
        }),
{
    let task = pending[0];
    let s = crate::replay::step_of(task, cache, outcome);
    let all = crate::replay::step(pending, cache, outcome);
    assert(task_textures_known(task, cache));
    law_cache_grows(pending, cache, outcome);
    lemma_step_of_textures(task, cache, outcome);
    assert forall|i: int| 0 <= i < all.tasks.len() implies task_textures_known(
        #[trigger] all.tasks[i],
        all.cache,
    ) by {
        if i < s.tasks.len() {
            assert(all.tasks[i] == s.tasks[i]);
        } else {
            let j = i - s.tasks.len() + 1;
            assert(all.tasks[i] == pending.skip(1)[i - s.tasks.len()]);
            assert(all.tasks[i] == pending[j]);
        }
        lemma_task_textures_stay_known(all.tasks[i], cache, all.cache);
    }
}

/// How many texts a command draws.
pub open spec fn command_texts(command: CommandModel) -> nat
    decreases command,
{
    match command {
        CommandModel::DrawText { .. } => 1,
        CommandModel::Layer { commands, .. } => commands_texts(commands),
        _ => 0,
    }
}

/// How many texts a list of commands draws.
pub open spec fn commands_texts(commands: Seq<CommandModel>) -> nat
    decreases commands,
{
    if commands.len() == 0 {
        0
    } else {
        command_texts(commands[0]) + commands_texts(commands.subrange(1, commands.len() as int))
    }
}

/// How many texts are still to be shaped for a task.
pub open spec fn task_texts(task: TaskModel) -> nat {
    match task {
        TaskModel::Commands(commands, _) => commands_texts(commands),
        TaskModel::Command(command, _) => command_texts(command),
        TaskModel::Text { .. } => 1,
        TaskModel::TextShaped { .. } => 1,
        TaskModel::Layer { commands, .. } => commands_texts(commands),
        TaskModel::LayerCreated { commands, .. } => commands_texts(commands),
        _ => 0,
    }
}

/// How many texts are still to be shaped for a list of tasks.
pub open spec fn texts_left(tasks: Seq<TaskModel>) -> nat
    decreases tasks.len(),
{
    if tasks.len() == 0 {
        0
    } else {
        texts_left(tasks.drop_last()) + task_texts(tasks.last())
    }
}

/// A bound on the steps that a command takes, shaped texts aside.
pub open spec fn command_steps(command: CommandModel) -> nat
    decreases command,
{
    match command {
        CommandModel::Layer { commands, .. } => 20 + commands_steps(commands),
        _ => 60,
    }
}

/// A bound on the steps that a list of commands takes, shaped texts aside.
pub open spec fn commands_steps(commands: Seq<CommandModel>) -> nat
    decreases commands,
{
    if commands.len() == 0 {
        0
    } else {
        1 + command_steps(commands[0]) + commands_steps(
            commands.subrange(1, commands.len() as int),
        )
    }
}

/// A bound on the steps that a task takes, shaped texts aside.
pub open spec fn task_steps(task: TaskModel) -> nat {
    match task {
        TaskModel::Perform(_) => 1,
        TaskModel::Fonts(fonts) => 1 + 3 * fonts.len(),
        TaskModel::Commands(commands, _) => 1 + commands_steps(commands),
        TaskModel::Command(command, _) => command_steps(command),
        TaskModel::RegisterFont(_) => 2,
        TaskModel::FontAdded { .. } => 1,
        TaskModel::Upload { .. } => 2,
        TaskModel::Uploaded { .. } => 1,
        TaskModel::Blit { .. } => 3,
        TaskModel::BlitChecked { .. } => 2,
        TaskModel::GlyphRun { .. } => 7,
        TaskModel::GlyphsPlaced { .. } => 6,
        TaskModel::Text { .. } => 2,
        TaskModel::TextShaped { .. } => 1,
        TaskModel::Layer { commands, .. } => 19 + commands_steps(commands),
        TaskModel::LayerCreated { commands, .. } => 18 + commands_steps(commands),
        TaskModel::ShadowCreated(_) => 40,
        TaskModel::ShadowBlurred { .. } => 20,
    }
}

/// A bound on the steps that a list of tasks takes, shaped texts aside.
pub open spec fn steps_left(tasks: Seq<TaskModel>) -> nat
    decreases tasks.len(),
{
    if tasks.len() == 0 {
        0
    } else {
        steps_left(tasks.drop_last()) + task_steps(tasks.last())
    }
}

proof fn lemma_left_adds(a: Seq<TaskModel>, b: Seq<TaskModel>)
    ensures
        texts_left(a + b) == texts_left(a) + texts_left(b),
        steps_left(a + b) == steps_left(a) + steps_left(b),
    decreases b.len(),
{
    if b.len() == 0 {
        assert(a + b =~= a);
    } else {
        assert((a + b).drop_last() =~= a + b.drop_last());
        assert((a + b).last() == b.last());
        lemma_left_adds(a, b.drop_last());
    }
}

proof fn lemma_left_of_one(task: TaskModel)
    ensures
        texts_left(seq![task]) == task_texts(task),
        steps_left(seq![task]) == task_steps(task),
{
    reveal_with_fuel(texts_left, 2);
    reveal_with_fuel(steps_left, 2);
}

proof fn lemma_left_of_two(a: TaskModel, b: TaskModel)
    ensures
        texts_left(seq![a, b]) == task_texts(a) + task_texts(b),
        steps_left(seq![a, b]) == task_steps(a) + task_steps(b),
{
    assert(seq![a, b].drop_last() =~= seq![a]);
    lemma_left_of_one(a);
}

proof fn lemma_left_of_performs(tasks: Seq<TaskModel>)
    requires
        forall|i: int| 0 <= i < tasks.len() ==> (#[trigger] tasks[i]) is Perform,
    ensures
        texts_left(tasks) == 0,
        steps_left(tasks) == tasks.len(),
    decreases tasks.len(),
{
    if tasks.len() > 0 {
        lemma_left_of_performs(tasks.drop_last());
    }
}

proof fn lemma_left_of_text(
    runs: Seq<crate::replay::RunModel>,
    x: Scalar,
    y: Scalar,
    paint: crate::scene::PaintModel,
)
    ensures
        texts_left(crate::replay::text_drawn(runs, x, y, paint)) == 0,
    decreases runs.len(),
{
    let all = crate::replay::text_drawn(runs, x, y, paint);
    if runs.len() > 0 {
        let earlier = crate::replay::text_drawn(runs.drop_last(), x, y, paint);
        lemma_left_of_text(runs.drop_last(), x, y, paint);
        let added = all.skip(earlier.len() as int);
        assert(all =~= earlier + added);
        lemma_left_adds(earlier, added);
        assert(added.len() <= 2);
        assert(forall|i: int| 0 <= i < added.len() ==> task_texts(#[trigger] added[i]) == 0);
        if added.len() == 1 {
            assert(added =~= seq![added[0]]);
            lemma_left_of_one(added[0]);
        }
        if added.len() == 2 {
            assert(added =~= seq![added[0], added[1]]);
            lemma_left_of_two(added[0], added[1]);
        }
    }
}

proof fn lemma_left_of_shadow(s: crate::replay::Shadow, image: u64)
    ensures
        texts_left(crate::replay::shadow_finished(s, image)) == 0,
        steps_left(crate::replay::shadow_finished(s, image)) == 8,
        texts_left(crate::replay::shadow_drawn(s, image)) == 0,
        steps_left(crate::replay::shadow_drawn(s, image)) <= 26,
{
    let f = crate::replay::shadow_finished(s, image);
    lemma_left_of_performs(f);
    let d = crate::replay::shadow_drawn(s, image);
    let head = d.take(5);
    assert(d =~= head + d.skip(5));
    lemma_left_of_performs(head);
    lemma_left_adds(head, d.skip(5));
    if s.blur.positive() {
        assert(d.skip(5) =~= seq![d[5], d[6]]);
        lemma_left_of_two(d[5], d[6]);
    } else {
        assert(d.skip(5) =~= f);
    }
}

proof fn lemma_left_of_layer(
    image: u64,
    width: u32,
    height: u32,
    origin: crate::geometry::PhysicalPoint,
    alpha_tint: Scalar,
    commands: Seq<CommandModel>,
    target: Target,
)
    ensures
        ({
            let d = crate::replay::layer_drawn(image, width, height, origin, alpha_tint, commands, target);
            &&& texts_left(d) == commands_texts(commands)
            &&& steps_left(d) == 10 + commands_steps(commands)
        }),
{
    let d = crate::replay::layer_drawn(image, width, height, origin, alpha_tint, commands, target);
    let a = d.take(5);
    let b = seq![TaskModel::Commands(commands, Target::Image(image))];
    let c = d.skip(6);
    assert(d =~= a + (b + c));
    lemma_left_of_performs(a);
    lemma_left_of_performs(c);
    lemma_left_of_one(b[0]);
    lemma_left_adds(b, c);
    lemma_left_adds(a, b + c);
}

#[verifier::rlimit(40)]
proof fn lemma_left_of_expansion(command: CommandModel, target: Target)
    ensures
        texts_left(crate::replay::expansion(command, target)) <= command_texts(command),
        steps_left(crate::replay::expansion(command, target)) < command_steps(command),
{
    let e = crate::replay::expansion(command, target);
    match command {
        CommandModel::DrawGlyphRun { .. } => {
            lemma_left_of_one(e[0]);
        },
        CommandModel::DrawText { text, .. } => {
            if text.len() > 0 {
                lemma_left_of_one(e[0]);
            }
        },
        CommandModel::UploadPixmap { .. } => {
            lemma_left_of_one(e[0]);
        },
        CommandModel::BlitPixmap { .. } => {
            lemma_left_of_one(e[0]);
        },
        CommandModel::Layer { .. } => {
            lemma_left_of_one(e[0]);
        },
        CommandModel::DrawBoxShadow { .. } => {
            if e.len() > 0 {
                lemma_left_of_two(e[0], e[1]);
            }
        },
        CommandModel::CachedPixmap { .. } => {
            lemma_left_of_two(e[0], e[1]);
        },
        _ => {
            lemma_left_of_performs(e);
        },
    }
}

#[verifier::rlimit(40)]
proof fn lemma_step_of_ends(
    task: TaskModel,
    cache: CacheModel,
    outcome: OutcomeModel,
)
    ensures
        ({
            let s = crate::replay::step_of(task, cache, outcome);
            ||| texts_left(s.tasks) < task_texts(task)
            ||| texts_left(s.tasks) == task_texts(task) && steps_left(s.tasks) < task_steps(task)
        }),
{
    let s = crate::replay::step_of(task, cache, outcome);
    match task {
        TaskModel::Fonts(fonts) => {
            if fonts.len() > 0 {
                lemma_left_of_two(s.tasks[0], s.tasks[1]);
            }
        },
        TaskModel::Commands(commands, _) => {
            if commands.len() > 0 {
                lemma_left_of_two(s.tasks[0], s.tasks[1]);
                assert(commands.skip(1) =~= commands.subrange(1, commands.len() as int));
            }
        },
        TaskModel::Command(command, target) => {
            lemma_left_of_expansion(command, target);
        },
        TaskModel::TextShaped { x, y, paint } => {
            if let OutcomeModel::Shaped(runs) = outcome {
                lemma_left_of_text(runs, x, y, paint);
            }
        },
        TaskModel::LayerCreated { width, height, origin, alpha_tint, commands, target } => {
            if let OutcomeModel::Image(Some(image)) = outcome {
                lemma_left_of_layer(image, width, height, origin, alpha_tint, commands, target);
            }
        },
        TaskModel::ShadowCreated(shadow) => {
            if let OutcomeModel::Image(Some(image)) = outcome {
                lemma_left_of_shadow(shadow, image);
            }
        },
        TaskModel::ShadowBlurred { .. } => {
            lemma_left_of_performs(s.tasks);
        },
        TaskModel::GlyphsPlaced { .. } => {
            lemma_left_of_performs(s.tasks);
        },
        TaskModel::BlitChecked { .. } => {
            lemma_left_of_performs(s.tasks);
        },
        _ => {
            if s.tasks.len() == 1 {
                assert(s.tasks =~= seq![s.tasks[0]]);
                lemma_left_of_one(s.tasks[0]);
            }
        },
    }
}

/// A replay ends: with every step fewer texts are left to shape, or as many texts
/// and fewer steps.
pub proof fn law_replay_ends(
    pending: Seq<TaskModel>,
    cache: CacheModel,
    outcome: OutcomeModel,
)
    requires
        pending.len() > 0,
    ensures
        ({
            let after = crate::replay::step(pending, cache, outcome).tasks;
            ||| texts_left(after) < texts_left(pending)
            ||| texts_left(after) == texts_left(pending) && steps_left(after) < steps_left(pending)
        }),
{
    let first = seq![pending[0]];
    let rest = pending.skip(1);
    assert(pending =~= first + rest);
    lemma_left_of_one(pending[0]);
    lemma_left_adds(first, rest);
    lemma_step_of_ends(pending[0], cache, outcome);
    lemma_left_adds(
        crate::replay::step_of(pending[0], cache, outcome).tasks,
        rest,
    );
}

} // verus!
