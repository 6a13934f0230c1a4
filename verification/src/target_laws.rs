//! A replay draws into the right target, and keeps what the canvas gave it.
use crate::canvas::{OpModel, Target};
use crate::replay::{CacheModel, OutcomeModel, TaskModel};
use crate::scalar::Scalar;
use crate::scene::{CommandModel, OverlayModel, SceneModel};
use vstd::prelude::*;

verus! {

/// What the canvas draws into after an operation.
pub open spec fn target_after_op(op: OpModel, target: Target) -> Target {
    match op {
        OpModel::SetRenderTarget(t) => t,
        _ => target,
    }
}

/// Whether a task may start while the canvas draws into this target: a task that
/// remembers a target starts from there.
pub open spec fn starts_from(task: TaskModel, target: Target) -> bool {
    match task {
        TaskModel::Commands(_, t) => t == target,
        TaskModel::Command(_, t) => t == target,
        TaskModel::Layer { target: t, .. } => t == target,
        TaskModel::LayerCreated { target: t, .. } => t == target,
        TaskModel::ShadowCreated(shadow) => shadow.target == target,
        TaskModel::ShadowBlurred { sharp, .. } => target == Target::Image(sharp),
        TaskModel::GlyphsPlaced { draw } => !(draw is SetRenderTarget),
        _ => true,
    }
}

/// What the canvas draws into after a task.
pub open spec fn target_after_task(task: TaskModel, target: Target) -> Target {
    match task {
        TaskModel::Perform(op) => target_after_op(op, target),
        TaskModel::ShadowBlurred { shadow, .. } => shadow.target,
        _ => target,
    }
}

/// What the canvas draws into after a list of tasks.
pub open spec fn target_after(tasks: Seq<TaskModel>, target: Target) -> Target
    decreases tasks.len(),
{
    if tasks.len() == 0 {
        target
    } else {
        target_after_task(tasks.last(), target_after(tasks.drop_last(), target))
    }
}

/// Whether every task of a list starts from the target that it remembers.
pub open spec fn all_start_right(tasks: Seq<TaskModel>, target: Target) -> bool
    decreases tasks.len(),
{
    tasks.len() == 0 || {
        &&& all_start_right(tasks.drop_last(), target)
        &&& starts_from(tasks.last(), target_after(tasks.drop_last(), target))
    }
}

proof fn lemma_targets_add(a: Seq<TaskModel>, b: Seq<TaskModel>, target: Target)
    ensures
        target_after(a + b, target) == target_after(b, target_after(a, target)),
        all_start_right(a + b, target) <==> all_start_right(a, target) && all_start_right(
            b,
            target_after(a, target),
        ),
    decreases b.len(),
{
    if b.len() == 0 {
        assert(a + b =~= a);
    } else {
        assert((a + b).drop_last() =~= a + b.drop_last());
        assert((a + b).last() == b.last());
        lemma_targets_add(a, b.drop_last(), target);
    }
}

proof fn lemma_target_of_one(task: TaskModel, target: Target)
    ensures
        target_after(seq![task], target) == target_after_task(task, target),
        all_start_right(seq![task], target) <==> starts_from(task, target),
{
    reveal_with_fuel(target_after, 2);
    reveal_with_fuel(all_start_right, 2);
    assert(seq![task].drop_last() =~= Seq::empty());
}

/// Tasks that start anywhere and leave the target as it is.
spec fn indifferent(task: TaskModel) -> bool {
    match task {
        TaskModel::Perform(op) => !(op is SetRenderTarget),
        TaskModel::GlyphsPlaced { draw } => !(draw is SetRenderTarget),
        TaskModel::Fonts(_) => true,
        TaskModel::RegisterFont(_) => true,
        TaskModel::FontAdded { .. } => true,
        TaskModel::Upload { .. } => true,
        TaskModel::Uploaded { .. } => true,
        TaskModel::Blit { .. } => true,
        TaskModel::BlitChecked { .. } => true,
        TaskModel::GlyphRun { .. } => true,
        TaskModel::Text { .. } => true,
        TaskModel::TextShaped { .. } => true,
        _ => false,
    }
}

spec fn all_indifferent(tasks: Seq<TaskModel>) -> bool {
    forall|i: int| 0 <= i < tasks.len() ==> indifferent(#[trigger] tasks[i])
}

proof fn lemma_indifferent(tasks: Seq<TaskModel>, target: Target)
    requires
        all_indifferent(tasks),
    ensures
        target_after(tasks, target) == target,
        all_start_right(tasks, target),
    decreases tasks.len(),
{
    if tasks.len() > 0 {
        lemma_indifferent(tasks.drop_last(), target);
        assert(indifferent(tasks[tasks.len() - 1]));
    }
}

proof fn lemma_text_is_indifferent(
    runs: Seq<crate::replay::RunModel>,
    x: Scalar,
    y: Scalar,
    paint: crate::scene::PaintModel,
)
    ensures
        all_indifferent(crate::replay::text_drawn(runs, x, y, paint)),
    decreases runs.len(),
{
    if runs.len() > 0 {
        lemma_text_is_indifferent(runs.drop_last(), x, y, paint);
    }
}

#[verifier::rlimit(40)]
proof fn lemma_target_of_expansion(command: CommandModel, target: Target)
    ensures
        target_after(crate::replay::expansion(command, target), target) == target,
        all_start_right(crate::replay::expansion(command, target), target),
{
    let e = crate::replay::expansion(command, target);
    match command {
        CommandModel::Layer { .. } => {
            lemma_target_of_one(e[0], target);
            assert(e =~= seq![e[0]]);
        },
        CommandModel::DrawBoxShadow { .. } => {
            if e.len() > 0 {
                assert(e =~= seq![e[0]] + seq![e[1]]);
                lemma_targets_add(seq![e[0]], seq![e[1]], target);
                lemma_target_of_one(e[0], target);
                lemma_target_of_one(e[1], target);
            }
        },
        _ => {
            assert(e.len() <= 2);
            lemma_indifferent(e, target);
        },
    }
}

/// A layer is replayed into its image, and drawn into the target that it was
/// started from: the canvas returns there right before, and stays.
pub proof fn law_layer_returns_to_its_target(
    image: u64,
    width: u32,
    height: u32,
    origin: crate::geometry::PhysicalPoint,
    alpha_tint: Scalar,
    commands: Seq<CommandModel>,
    target: Target,
)
    ensures
        ({
            let d = crate::replay::layer_drawn(
                image,
                width,
                height,
                origin,
                alpha_tint,
                commands,
                target,
            );
            let part = crate::replay::image_rect(
                crate::geometry::Point::spec_origin(),
                width,
                height,
            );
            let rect = crate::replay::image_rect(origin, width, height);
            &&& all_start_right(d, target)
            &&& target_after(d, target) == target
            &&& d.len() == 10
            &&& d[5] == TaskModel::Commands(commands, Target::Image(image))
            &&& target_after(d.take(5), target) == Target::Image(image)
            &&& d[7] == TaskModel::Perform(OpModel::SetRenderTarget(target))
            &&& seq![d[8]] == crate::replay::image_drawn(image, rect, part, alpha_tint)
            &&& target_after(d.take(8), target) == target
            &&& d[9] == TaskModel::Perform(OpModel::DeleteImage(image))
        }),
{
    let d = crate::replay::layer_drawn(image, width, height, origin, alpha_tint, commands, target);
    let inside = Target::Image(image);
    let a = d.take(1);
    let b = d.subrange(1, 2);
    let c = d.subrange(2, 5);
    let e = d.subrange(5, 6);
    let f = d.subrange(6, 7);
    let g = d.subrange(7, 8);
    let h = d.skip(8);
    assert(b =~= seq![d[1]] && e =~= seq![d[5]] && g =~= seq![d[7]]);
    lemma_indifferent(a, target);
    lemma_target_of_one(d[1], target);
    lemma_indifferent(c, inside);
    lemma_target_of_one(d[5], inside);
    lemma_indifferent(f, inside);
    lemma_target_of_one(d[7], inside);
    lemma_indifferent(h, target);
    assert(d.take(2) =~= a + b);
    lemma_targets_add(a, b, target);
    assert(d.take(5) =~= d.take(2) + c);
    lemma_targets_add(d.take(2), c, target);
    assert(d.take(6) =~= d.take(5) + e);
    lemma_targets_add(d.take(5), e, target);
    assert(d.take(7) =~= d.take(6) + f);
    lemma_targets_add(d.take(6), f, target);
    assert(d.take(8) =~= d.take(7) + g);
    lemma_targets_add(d.take(7), g, target);
    assert(d =~= d.take(8) + h);
    lemma_targets_add(d.take(8), h, target);
    assert(seq![d[8]] =~= crate::replay::image_drawn(
        image,
        crate::replay::image_rect(origin, width, height),
        crate::replay::image_rect(crate::geometry::Point::spec_origin(), width, height),
        alpha_tint,
    ));
}

proof fn lemma_target_of_finished_shadow(s: crate::replay::Shadow, image: u64, target: Target)
    ensures
        all_start_right(crate::replay::shadow_finished(s, image), target),
        target_after(crate::replay::shadow_finished(s, image), target) == s.target,
{
    let d = crate::replay::shadow_finished(s, image);
    let a = d.take(5);
    let b = d.subrange(5, 6);
    let c = d.skip(6);
    assert(b =~= seq![d[5]]);
    lemma_indifferent(a, target);
    lemma_target_of_one(d[5], target);
    lemma_indifferent(c, s.target);
    assert(d =~= (a + b) + c);
    lemma_targets_add(a, b, target);
    lemma_targets_add(a + b, c, target);
}

proof fn lemma_target_of_shadow(s: crate::replay::Shadow, image: u64)
    ensures
        all_start_right(crate::replay::shadow_drawn(s, image), s.target),
        target_after(crate::replay::shadow_drawn(s, image), s.target) == s.target,
{
    let d = crate::replay::shadow_drawn(s, image);
    let inside = Target::Image(image);
    let a = d.take(1);
    let b = d.subrange(1, 2);
    let c = d.subrange(2, 5);
    let rest = d.skip(5);
    assert(b =~= seq![d[1]]);
    lemma_indifferent(a, s.target);
    lemma_target_of_one(d[1], s.target);
    lemma_indifferent(c, inside);
    if s.blur.positive() {
        assert(rest =~= seq![d[5]] + seq![d[6]]);
        lemma_target_of_one(d[5], inside);
        lemma_target_of_one(d[6], inside);
        lemma_targets_add(seq![d[5]], seq![d[6]], inside);
    } else {
        assert(rest =~= crate::replay::shadow_finished(s, image));
        lemma_target_of_finished_shadow(s, image, inside);
    }
    assert(d =~= ((a + b) + c) + rest);
    lemma_targets_add(a, b, s.target);
    lemma_targets_add(a + b, c, s.target);
    lemma_targets_add((a + b) + c, rest, s.target);
}

proof fn lemma_target_of_blurred_shadow(
    shadow: crate::replay::Shadow,
    sharp: u64,
    cache: CacheModel,
    outcome: OutcomeModel,
)
    ensures
        ({
            let tasks = crate::replay::step_of(
                TaskModel::ShadowBlurred { shadow, sharp },
                cache,
                outcome,
            ).tasks;
            &&& all_start_right(tasks, Target::Image(sharp))
            &&& target_after(tasks, Target::Image(sharp)) == shadow.target
        }),
{
    let inside = Target::Image(sharp);
    let d = crate::replay::step_of(
        TaskModel::ShadowBlurred { shadow, sharp },
        cache,
        outcome,
    ).tasks;
    let a = d.take(1);
    let b = d.subrange(1, 2);
    assert(b =~= seq![d[1]]);
    lemma_indifferent(a, inside);
    lemma_target_of_one(d[1], inside);
    lemma_targets_add(a, b, inside);
    if let OutcomeModel::Image(Some(image)) = outcome {
        let c = d.subrange(2, 3);
        let f = crate::replay::shadow_finished(shadow, image);
        lemma_indifferent(c, Target::Image(image));
        lemma_target_of_finished_shadow(shadow, image, Target::Image(image));
        assert(d =~= ((a + b) + c) + f);
        lemma_targets_add(a + b, c, inside);
        lemma_targets_add((a + b) + c, f, inside);
    } else {
        let c = d.skip(2);
        lemma_indifferent(c, shadow.target);
        assert(d =~= (a + b) + c);
        lemma_targets_add(a + b, c, inside);
    }
}

#[verifier::rlimit(40)]
proof fn lemma_step_of_targets(
    task: TaskModel,
    cache: CacheModel,
    outcome: OutcomeModel,
    target: Target,
)
    requires
        starts_from(task, target),
    ensures
        ({
            let s = crate::replay::step_of(task, cache, outcome);
            let now = match s.op {
                Some(op) => target_after_op(op, target),
                None => target,
            };
            &&& all_start_right(s.tasks, now)
            &&& target_after(s.tasks, now) == target_after_task(task, target)
        }),
{
    let s = crate::replay::step_of(task, cache, outcome);
    match task {
        TaskModel::Commands(commands, t) => {
            if commands.len() > 0 {
                assert(s.tasks =~= seq![s.tasks[0]] + seq![s.tasks[1]]);
                lemma_target_of_one(s.tasks[0], target);
                lemma_target_of_one(s.tasks[1], target);
                lemma_targets_add(seq![s.tasks[0]], seq![s.tasks[1]], target);
            }
        },
        TaskModel::Command(command, t) => {
            lemma_target_of_expansion(command, target);
        },
        TaskModel::Layer { .. } => {
            assert(s.tasks =~= seq![s.tasks[0]]);
            lemma_target_of_one(s.tasks[0], target);
        },
        TaskModel::LayerCreated { width, height, origin, alpha_tint, commands, target: t } => {
            if let OutcomeModel::Image(Some(image)) = outcome {
                law_layer_returns_to_its_target(
                    image,
                    width,
                    height,
                    origin,
                    alpha_tint,
                    commands,
                    target,
                );
            }
        },
        TaskModel::ShadowCreated(shadow) => {
            if let OutcomeModel::Image(Some(image)) = outcome {
                lemma_target_of_shadow(shadow, image);
            }
        },
        TaskModel::ShadowBlurred { shadow, sharp } => {
            lemma_target_of_blurred_shadow(shadow, sharp, cache, outcome);
        },
        TaskModel::TextShaped { x, y, paint } => {
            if let OutcomeModel::Shaped(runs) = outcome {
                lemma_text_is_indifferent(runs, x, y, paint);
            }
            lemma_indifferent(s.tasks, target);
        },
        TaskModel::Perform(_) => {},
        _ => {
            assert(s.tasks.len() <= 5);
            lemma_indifferent(s.tasks, target);
        },
    }
}

/// Whatever is drawn goes into the right target, however layers and shadows are
/// nested: with every step the tasks that are left start from the targets that they
/// remember, and in the end the canvas draws into the same target as before.
pub proof fn law_targets_are_kept(
    pending: Seq<TaskModel>,
    cache: CacheModel,
    outcome: OutcomeModel,
    target: Target,
)
    requires
        pending.len() > 0,
        all_start_right(pending, target),
    ensures
        ({
            let s = crate::replay::step(pending, cache, outcome);
            let now = match s.op {
                Some(op) => target_after_op(op, target),
                None => target,
            };
            &&& all_start_right(s.tasks, now)
            &&& target_after(s.tasks, now) == target_after(pending, target)
        }),
{
    let first = seq![pending[0]];
    let rest = pending.skip(1);
    let s = crate::replay::step_of(pending[0], cache, outcome);
    let now = match s.op {
        Some(op) => target_after_op(op, target),
        None => target,
    };
    assert(pending =~= first + rest);
    lemma_targets_add(first, rest, target);
    lemma_target_of_one(pending[0], target);
    lemma_step_of_targets(pending[0], cache, outcome, target);
    lemma_targets_add(s.tasks, rest, now);
}

/// A frame starts and ends on the screen.
pub proof fn law_frame_is_drawn_on_screen(
    width: u32,
    height: u32,
    scale_factor: Scalar,
    frame: SceneModel,
    overlay: OverlayModel,
)
    ensures
        ({
            let all = crate::replay::frame_tasks(width, height, scale_factor, frame, overlay);
            &&& all_start_right(all, Target::Screen)
            &&& target_after(all, Target::Screen) == Target::Screen
        }),
{
    let all = crate::replay::frame_tasks(width, height, scale_factor, frame, overlay);
    let a = all.take(5);
    let b = all.subrange(5, 6);
    let c = all.subrange(6, 7);
    let d = all.skip(7);
    let t = Target::Screen;
    assert(b =~= seq![all[5]] && c =~= seq![all[6]]);
    lemma_indifferent(a, t);
    lemma_target_of_one(all[5], t);
    lemma_target_of_one(all[6], t);
    lemma_indifferent(d, t);
    assert(all =~= ((a + b) + c) + d);
    lemma_targets_add(a, b, t);
    lemma_targets_add(a + b, c, t);
    lemma_targets_add((a + b) + c, d, t);
}

/// Whether a task remembers what the canvas answered.
pub open spec fn awaits(task: TaskModel) -> bool {
    task is FontAdded || task is Uploaded
}

/// Whether an answer is awaited by the first task alone, and for something that
/// is not remembered yet.
pub open spec fn awaits_new(pending: Seq<TaskModel>, cache: CacheModel) -> bool {
    &&& forall|i: int| 1 <= i < pending.len() ==> !awaits(#[trigger] pending[i])
    &&& pending.len() > 0 ==> match pending[0] {
        TaskModel::FontAdded { blob_id, font_index } => !cache.fonts.contains_key(
            crate::replay::font_key(blob_id, font_index),
        ),
        TaskModel::Uploaded { key } => !cache.textures.contains_key(key),
        _ => true,
    }
}

spec fn none_awaits(tasks: Seq<TaskModel>) -> bool {
    forall|i: int| 0 <= i < tasks.len() ==> !awaits(#[trigger] tasks[i])
}

proof fn lemma_text_awaits_nothing(
    runs: Seq<crate::replay::RunModel>,
    x: Scalar,
    y: Scalar,
    paint: crate::scene::PaintModel,
)
    ensures
        none_awaits(crate::replay::text_drawn(runs, x, y, paint)),
    decreases runs.len(),
{
    if runs.len() > 0 {
        lemma_text_awaits_nothing(runs.drop_last(), x, y, paint);
    }
}

#[verifier::rlimit(40)]
proof fn lemma_expansion_awaits_nothing(command: CommandModel, target: Target)
    ensures
        none_awaits(crate::replay::expansion(command, target)),
{
    let e = crate::replay::expansion(command, target);
    assert(e.len() <= 2);
}

#[verifier::rlimit(40)]
proof fn lemma_step_of_awaits(task: TaskModel, cache: CacheModel, outcome: OutcomeModel)
    ensures
        ({
            let s = crate::replay::step_of(task, cache, outcome);
            awaits_new(s.tasks, s.cache)
        }),
{
    let s = crate::replay::step_of(task, cache, outcome);
    match task {
        TaskModel::Command(command, target) => {
            lemma_expansion_awaits_nothing(command, target);
        },
        TaskModel::TextShaped { x, y, paint } => {
            if let OutcomeModel::Shaped(runs) = outcome {
                lemma_text_awaits_nothing(runs, x, y, paint);
            }
        },
        TaskModel::ShadowCreated(shadow) => {
            assert(s.tasks.len() <= 13);
        },
        _ => {
            assert(s.tasks.len() <= 11);
        },
    }
}

/// A handle that is remembered stays: no step forgets a font or a texture, or puts
/// another handle in its place.
pub proof fn law_cached_handle_stays(
    pending: Seq<TaskModel>,
    cache: CacheModel,
    outcome: OutcomeModel,
)
    requires
        pending.len() > 0,
        awaits_new(pending, cache),
    ensures
        ({
            let s = crate::replay::step(pending, cache, outcome);
            &&& awaits_new(s.tasks, s.cache)
            &&& cache.fonts.submap_of(s.cache.fonts)
            &&& cache.textures.submap_of(s.cache.textures)
        }),
{
    let s = crate::replay::step_of(pending[0], cache, outcome);
    let all = crate::replay::step(pending, cache, outcome);
    lemma_step_of_awaits(pending[0], cache, outcome);
    assert forall|i: int| 1 <= i < all.tasks.len() implies !awaits(#[trigger] all.tasks[i]) by {
        if i < s.tasks.len() {
            assert(all.tasks[i] == s.tasks[i]);
        } else {
            assert(all.tasks[i] == pending[i - s.tasks.len() + 1]);
        }
    }
    if all.tasks.len() > 0 {
        if s.tasks.len() > 0 {
            assert(all.tasks[0] == s.tasks[0]);
        } else {
            assert(all.tasks[0] == pending[1]);
        }
    }
}

/// The tasks of a frame await nothing yet.
pub proof fn law_frame_awaits_nothing(
    width: u32,
    height: u32,
    scale_factor: Scalar,
    frame: SceneModel,
    overlay: OverlayModel,
    cache: CacheModel,
)
    ensures
        awaits_new(
            crate::replay::frame_tasks(width, height, scale_factor, frame, overlay),
            cache,
        ),
{
}

/// What is left to do, and what is remembered, after the canvas answered to several
/// steps.
pub open spec fn after_steps(
    pending: Seq<TaskModel>,
    cache: CacheModel,
    outcomes: Seq<OutcomeModel>,
) -> (Seq<TaskModel>, CacheModel)
    decreases outcomes.len(),
{
    if outcomes.len() == 0 {
        (pending, cache)
    } else {
        let (tasks, known) = after_steps(pending, cache, outcomes.drop_last());
        if tasks.len() == 0 {
            (tasks, known)
        } else {
            let s = crate::replay::step(tasks, known, outcomes.last());
            (s.tasks, s.cache)
        }
    }
}

/// A texture is made once: after any number of steps its key names the same image,
/// and no step that follows makes an image for that key again, whatever pixels come
/// with it.
pub proof fn law_texture_is_made_once(
    pending: Seq<TaskModel>,
    cache: CacheModel,
    outcomes: Seq<OutcomeModel>,
    outcome: OutcomeModel,
    key: u64,
)
    requires
        awaits_new(pending, cache),
        crate::replay_laws::all_ask_cache(pending),
        cache.textures.contains_key(key),
    ensures
        ({
            let (tasks, known) = after_steps(pending, cache, outcomes);
            &&& awaits_new(tasks, known)
            &&& crate::replay_laws::all_ask_cache(tasks)
            &&& known.textures.contains_key(key)
            &&& known.textures[key] == cache.textures[key]
            &&& tasks.len() > 0 ==> ({
                let s = crate::replay::step(tasks, known, outcome);
                s.op matches Some(OpModel::CreateImage { .. }) ==> s.tasks[0]
                    != TaskModel::Uploaded { key } && s.tasks[0] is Uploaded
            })
        }),
    decreases outcomes.len(),
{
    let (tasks, known) = after_steps(pending, cache, outcomes);
    if outcomes.len() > 0 {
        let before = outcomes.drop_last();
        law_texture_is_made_once(pending, cache, before, outcomes.last(), key);
        let (earlier, held) = after_steps(pending, cache, before);
        if earlier.len() > 0 {
            law_cached_handle_stays(earlier, held, outcomes.last());
            crate::replay_laws::law_added_once(earlier, held, outcomes.last());
        }
    }
    if tasks.len() > 0 {
        crate::replay_laws::law_added_once(tasks, known, outcome);
    }
}

/// Whether a command uploads pixels under a key, and the task that does it.
pub open spec fn upload_of(command: CommandModel) -> Option<TaskModel> {
    match command {
        CommandModel::UploadPixmap { key, pixels, width, height } => Some(
            TaskModel::Upload { key, pixels, width, height },
        ),
        CommandModel::CachedPixmap { key, width, height, pixels } => Some(
            TaskModel::Upload { key, pixels, width, height },
        ),
        _ => None,
    }
}

/// A command that uploads pixels makes an image of them and remembers it where its key
/// is new; where the key is known it makes nothing and the key keeps its image.
pub proof fn law_upload_makes_a_new_image_only(
    command: CommandModel,
    target: Target,
    others: Seq<TaskModel>,
    cache: CacheModel,
    first: OutcomeModel,
    second: OutcomeModel,
    image: u64,
)
    requires
        upload_of(command) is Some,
    ensures
        ({
            let a = crate::replay::step(
                seq![TaskModel::Command(command, target)] + others,
                cache,
                first,
            );
            let b = crate::replay::step(a.tasks, cache, second);
            let c = crate::replay::step(b.tasks, cache, OutcomeModel::Image(Some(image)));
            &&& upload_of(command) matches Some(TaskModel::Upload { key, pixels, width, height })
            &&& a.op is None && a.cache == cache && a.tasks[0] == upload_of(command)->0
            &&& cache.textures.contains_key(key) ==> b.op is None && b.cache == cache
                && b.tasks == a.tasks.skip(1)
            &&& !cache.textures.contains_key(key) ==> {
                &&& b.op == Some(OpModel::CreateImage { pixels, width, height })
                &&& b.cache == cache
                &&& c.op is None
                &&& c.tasks == a.tasks.skip(1)
                &&& c.cache == CacheModel {
                    textures: cache.textures.insert(key, image),
                    ..cache
                }
            }
        }),
{
    let pending = seq![TaskModel::Command(command, target)] + others;
    let a = crate::replay::step(pending, cache, first);
    let b = crate::replay::step(a.tasks, cache, second);
    let c = crate::replay::step(b.tasks, cache, OutcomeModel::Image(Some(image)));
    assert(pending[0] == TaskModel::Command(command, target));
    assert(a.tasks[0] == upload_of(command)->0);
    if let Some(TaskModel::Upload { key, .. }) = upload_of(command) {
        if cache.textures.contains_key(key) {
            assert(b.tasks =~= a.tasks.skip(1));
        } else {
            assert(b.tasks[0] == TaskModel::Uploaded { key });
            assert(b.tasks.skip(1) =~= a.tasks.skip(1));
            assert(c.tasks =~= a.tasks.skip(1));
        }
    }
}

/// A rotation command turns the canvas once, by its angle.
proof fn lemma_rotation_is_performed(
    angle: Scalar,
    target: Target,
    others: Seq<TaskModel>,
    cache: CacheModel,
    first: OutcomeModel,
    second: OutcomeModel,
)
    ensures
        ({
            let task = TaskModel::Command(CommandModel::Rotate(angle), target);
            let a = crate::replay::step(seq![task] + others, cache, first);
            let b = crate::replay::step(a.tasks, a.cache, second);
            &&& a.op is None
            &&& b.op == Some(OpModel::Rotate(angle))
            &&& b.tasks == others
            &&& b.cache == cache
        }),
{
    let task = TaskModel::Command(CommandModel::Rotate(angle), target);
    let pending = seq![task] + others;
    let a = crate::replay::step(pending, cache, first);
    let b = crate::replay::step(a.tasks, a.cache, second);
    assert(pending[0] == task);
    assert(pending.skip(1) =~= others);
    assert(a.tasks[0] == TaskModel::Perform(OpModel::Rotate(angle)));
    assert(b.tasks =~= others);
}

/// A rotation that an encoder emitted turns the canvas once, by the angle in radians:
/// its command becomes that one operation, which is performed next, and nothing else
/// comes of it.
pub proof fn law_encoded_rotation_turns_the_canvas_once(
    m: crate::encoder::EncoderModel,
    degrees: Scalar,
    sin: Scalar,
    cos: Scalar,
    target: Target,
    others: Seq<TaskModel>,
    cache: CacheModel,
    first: OutcomeModel,
    second: OutcomeModel,
)
    ensures
        ({
            let command = m.rotated(degrees, sin, cos).commands.last();
            let a = crate::replay::step(
                seq![TaskModel::Command(command, target)] + others,
                cache,
                first,
            );
            let b = crate::replay::step(a.tasks, a.cache, second);
            &&& m.rotated(degrees, sin, cos).commands.drop_last() == m.commands
            &&& a.op is None
            &&& b.op == Some(OpModel::Rotate(degrees.in_radians()))
            &&& b.tasks == others
            &&& b.cache == cache
        }),
{
    let n = m.rotated(degrees, sin, cos);
    let angle = degrees.in_radians();
    assert(n.commands.drop_last() =~= m.commands);
    assert(n.commands.last() == CommandModel::Rotate(angle));
    lemma_rotation_is_performed(angle, target, others, cache, first, second);
}

} // verus!
