//! What holds of every snapshot.
use crate::encoder::EncoderModel;
use crate::geometry::{Rect, Size, Vector};
use crate::scalar::Scalar;
use crate::scene::CommandModel;
use vstd::prelude::*;

verus! {

/// Saving and restoring gives back the stack of states that was there before,
/// whatever became of the level on top in between.
pub proof fn law_save_restore(m: EncoderModel, between: EncoderModel)
    requires
        between.states.len() > 0,
        between.states.drop_last() == m.states,
    ensures
        between.restored().states == m.states,
{
    assert(between.restored().states =~= m.states);
}

/// Saving adds a level on top of the others, and moving, turning, scaling, clipping
/// and fading change that level alone.
pub proof fn law_lower_levels_stay(
    m: EncoderModel,
    distance: Vector,
    degrees: Scalar,
    sin: Scalar,
    cos: Scalar,
    scale_x: Scalar,
    scale_y: Scalar,
    clip: Rect,
    opacity: Scalar,
)
    requires
        m.states.len() > 0,
    ensures
        m.saved().states.drop_last() == m.states,
        keeps_lower_levels(m, m.translated(distance)),
        keeps_lower_levels(m, m.rotated(degrees, sin, cos)),
        keeps_lower_levels(m, m.scaled(scale_x, scale_y)),
        keeps_lower_levels(m, m.clipped(clip)),
        keeps_lower_levels(m, m.faded(opacity)),
{
    assert(m.saved().states.drop_last() =~= m.states);
    assert(m.translated(distance).states.drop_last() =~= m.states.drop_last());
    assert(m.rotated(degrees, sin, cos).states.drop_last() =~= m.states.drop_last());
    assert(m.scaled(scale_x, scale_y).states.drop_last() =~= m.states.drop_last());
    assert(m.clipped(clip).states.drop_last() =~= m.states.drop_last());
    assert(m.faded(opacity).states.drop_last() =~= m.states.drop_last());
}

/// Whether at most the level on top of the stack changed.
pub open spec fn keeps_lower_levels(m: EncoderModel, n: EncoderModel) -> bool {
    n.states.len() == m.states.len() && n.states.drop_last() == m.states.drop_last()
}

/// Where nothing but the origin was moved, an image lies on the screen where the
/// moves add up to, at its own size.
pub proof fn law_image_lies_where_it_was_moved(m: EncoderModel, distance: Vector, size: Size)
    requires
        m.states.len() > 0,
        m.transform().only_moves(),
        m.transform().x.finite() && m.transform().y.finite(),
        distance.x.finite() && distance.y.finite(),
        distance.x.sum(m.transform().x).finite(),
        distance.y.sum(m.transform().y).finite(),
        size.width.finite() && size.width.positive(),
        size.height.finite() && size.height.positive(),
    ensures
        ({
            let n = m.translated(distance);
            let region = n.transform().region(size);
            &&& n.transform().only_moves()
            &&& region.size == size
            &&& region.origin.x.same_number(distance.x.sum(m.transform().x))
            &&& region.origin.y.same_number(distance.y.sum(m.transform().y))
        }),
{
    let t = m.transform();
    crate::transform::law_moved_region(t, distance, size);
    crate::transform::law_moved_region(t.moved(distance), distance, size);
}

/// A finished scene is self-contained: every glyph run finds its font in it,
/// every font is carried once and belongs to a glyph run, and every pixmap is uploaded before it is drawn.
pub proof fn law_scene_is_self_contained(m: EncoderModel)
    requires
        m.sound(),
    ensures
        ({
            let scene = m.scene();
            &&& forall|i: int|
                0 <= i < scene.commands.len() ==> match #[trigger] scene.commands[i] {
                    CommandModel::DrawGlyphRun { font_blob_id, font_index, .. } => {
                        crate::encoder::has_font(scene.fonts, font_blob_id, font_index)
                    },
                    CommandModel::BlitPixmap { key, .. } => {
                        exists|j: int|
                            0 <= j < i && crate::encoder::uploads(
                                #[trigger] scene.commands[j],
                                key,
                            )
                    },
                    _ => true,
                }
            &&& forall|i: int|
                0 <= i < scene.fonts.len() ==> crate::encoder::uses_font(
                    scene.commands,
                    (#[trigger] scene.fonts[i]).blob_id,
                    scene.fonts[i].font_index,
                )
            &&& forall|i: int, j: int|
                0 <= i < j < scene.fonts.len() ==> (#[trigger] scene.fonts[i]).blob_id != (
                #[trigger] scene.fonts[j]).blob_id || scene.fonts[i].font_index
                    != scene.fonts[j].font_index
        }),
{
}

/// A walk that restores as often as it saves leaves one state, and the commands
/// of the scene save as often as they restore.
pub proof fn law_balanced_walk(m: EncoderModel)
    requires
        m.sound(),
    ensures
        m.states.len() == 1 <==> crate::encoder::open_saves(m.scene().commands) == 0,
{
}

/// After several opacities.
pub open spec fn faded_by(m: EncoderModel, opacities: Seq<Scalar>) -> EncoderModel
    decreases opacities.len(),
{
    if opacities.len() == 0 {
        m
    } else {
        faded_by(m, opacities.drop_last()).faded(opacities.last())
    }
}

/// The product of several opacities with the one before, from the left.
pub open spec fn opacity_product(alpha: Scalar, opacities: Seq<Scalar>) -> Scalar
    decreases opacities.len(),
{
    if opacities.len() == 0 {
        alpha
    } else {
        opacity_product(alpha, opacities.drop_last()).product(opacities.last())
    }
}

/// The opacity accumulates: it is the product of all that were applied.
pub proof fn law_opacity_accumulates(m: EncoderModel, opacities: Seq<Scalar>)
    requires
        m.states.len() > 0,
    ensures
        faded_by(m, opacities).states.len() == m.states.len(),
        faded_by(m, opacities).current().global_alpha == opacity_product(
            m.current().global_alpha,
            opacities,
        ),
    decreases opacities.len(),
{
    if opacities.len() > 0 {
        law_opacity_accumulates(m, opacities.drop_last());
    }
}

/// A clip that leaves nothing visible clips everything after it too: the empty
/// scissor has nothing in common with any rectangle.
pub proof fn law_nothing_stays_nothing(rect: crate::geometry::Rect)
    ensures
        crate::geometry::Rect::spec_nothing().common(rect) is None,
{
    let zero = Scalar { bits: 0 };
    let nothing = crate::geometry::Rect::spec_nothing();
    lemma_zero_sum();
    assert(nothing.right() == zero);
    let left = crate::geometry::greater(zero, rect.origin.x);
    let right = crate::geometry::lesser(zero, rect.right());
    assert(!left.below(right));
}

proof fn lemma_zero_sum()
    ensures
        (Scalar { bits: 0 }).sum(Scalar { bits: 0 }) == (Scalar { bits: 0 }),
{
}

} // verus!
