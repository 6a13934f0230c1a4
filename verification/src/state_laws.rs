//! How the state of an encoder and the commands that it emits follow each other.
//!
//! The laws speak of the arguments of a call, of the level on top of the stack before
//! and after it, and of the commands that were added.
use crate::encoder::{EncoderModel, State};
use crate::geometry::{Rect, Size, Vector};
use crate::scalar::Scalar;
use crate::scene::{Color, CommandModel, ControlRegion};
use crate::transform::Transform;
use vstd::prelude::*;

verus! {

/// Whether two values are the same number, or neither is a number.
pub open spec fn alike(a: Scalar, b: Scalar) -> bool {
    a.same_number(b) || (a.not_a_number() && b.not_a_number())
}

/// Whether `c` is the one of two starts that lies further on.
pub open spec fn later(c: Scalar, a: Scalar, b: Scalar) -> bool {
    &&& c == a || c == b
    &&& a.below(b) ==> c == b
    &&& b.below(a) ==> c == a
}

/// Whether `c` is the one of two ends that comes first.
pub open spec fn earlier(c: Scalar, a: Scalar, b: Scalar) -> bool {
    &&& c == a || c == b
    &&& a.below(b) ==> c == a
    &&& b.below(a) ==> c == b
}

/// Whether the stretch of this start and length is what two stretches have in common.
pub open spec fn overlap(
    start: Scalar,
    length: Scalar,
    a: Scalar,
    a_length: Scalar,
    b: Scalar,
    b_length: Scalar,
) -> bool {
    &&& later(start, a, b)
    &&& exists|end: Scalar| #[trigger]
        earlier(end, a.sum(a_length), b.sum(b_length)) && start.below(end) && length
            == end.difference(start)
}

/// Whether one list of commands goes on from another by this one command.
pub open spec fn goes_on(n: EncoderModel, m: EncoderModel, command: CommandModel) -> bool {
    &&& n.commands.len() == m.commands.len() + 1
    &&& n.commands.take(m.commands.len() as int) == m.commands
    &&& n.commands[m.commands.len() as int] == command
}

/// Whether nothing but the commands and the level on top of the stack changed.
pub open spec fn rest_stays(n: EncoderModel, m: EncoderModel) -> bool {
    &&& n.states.len() == m.states.len()
    &&& n.states.drop_last() == m.states.drop_last()
    &&& n.controls == m.controls
    &&& n.width == m.width
    &&& n.height == m.height
    &&& n.scale_factor == m.scale_factor
    &&& n.next_key == m.next_key
    &&& n.background == m.background
    &&& n.fonts == m.fonts
}

/// A sum with zero is the number.
proof fn lemma_zero_plus(v: Scalar)
    ensures
        alike((Scalar { bits: 0 }).sum(v), v),
{
    if v.finite() {
        crate::transform::lemma_neutral(v, Scalar { bits: 0 });
    }
}

/// A clip that leaves something visible narrows the scissor to what it has in common
/// with the clip, on both axes, and the clip command carries exactly that scissor in
/// physical pixels: its left edge times the scale factor to the right, its top edge
/// times the scale factor down, and both sides times the scale factor.  A clip that
/// leaves nothing adds no command, and the scissor has no extent.
#[verifier::rlimit(40)]
pub proof fn law_clip_command_carries_the_scissor(m: EncoderModel, rect: Rect)
    requires
        m.states.len() > 0,
    ensures
        ({
            let n = m.clipped(rect);
            let s = m.states.last().scissor;
            let t = n.states.last().scissor;
            let sf = m.scale_factor;
            let count = m.commands.len() as int;
            &&& rest_stays(n, m)
            &&& n.states.last() == State { scissor: t, ..m.states.last() }
            &&& n.commands.len() > count ==> {
                &&& overlap(
                    t.origin.x,
                    t.size.width,
                    s.origin.x,
                    s.size.width,
                    rect.origin.x,
                    rect.size.width,
                )
                &&& overlap(
                    t.origin.y,
                    t.size.height,
                    s.origin.y,
                    s.size.height,
                    rect.origin.y,
                    rect.size.height,
                )
                &&& n.commands.len() == count + 1
                &&& n.commands.take(count) == m.commands
                &&& n.commands[count] matches CommandModel::CombineClip(c) && alike(
                    c.origin.x,
                    t.origin.x.product(sf),
                ) && alike(c.origin.y, t.origin.y.product(sf)) && c.size.width
                    == t.size.width.product(sf) && c.size.height == t.size.height.product(sf)
            }
            &&& n.commands.len() <= count ==> {
                &&& n.commands == m.commands
                &&& t.size.width.zero_valued() && t.size.height.zero_valued()
                &&& t.origin.x.zero_valued() && t.origin.y.zero_valued()
            }
        }),
{
    let n = m.clipped(rect);
    let s = m.states.last().scissor;
    let count = m.commands.len() as int;
    let sf = m.scale_factor;
    assert(n.states.drop_last() =~= m.states.drop_last());
    if let Some(t) = s.common(rect) {
        assert(n.commands.take(count) =~= m.commands);
        lemma_zero_plus(t.origin.x.product(sf));
        lemma_zero_plus(t.origin.y.product(sf));
        let right = crate::geometry::lesser(s.right(), rect.right());
        let bottom = crate::geometry::lesser(s.bottom(), rect.bottom());
        assert(earlier(right, s.origin.x.sum(s.size.width), rect.origin.x.sum(rect.size.width)));
        assert(earlier(
            bottom,
            s.origin.y.sum(s.size.height),
            rect.origin.y.sum(rect.size.height),
        ));
    }
}

/// Something stays visible exactly where the scissor and the clip reach into each other,
/// wherever all of their edges are numbers.
#[verifier::rlimit(40)]
pub proof fn law_clip_is_seen_where_they_meet(m: EncoderModel, rect: Rect)
    requires
        m.states.len() > 0,
    ensures
        ({
            let s = m.states.last().scissor;
            let (a, b) = (s.origin.x, s.origin.x.sum(s.size.width));
            let (c, d) = (s.origin.y, s.origin.y.sum(s.size.height));
            let (e, f) = (rect.origin.x, rect.origin.x.sum(rect.size.width));
            let (g, h) = (rect.origin.y, rect.origin.y.sum(rect.size.height));
            !a.not_a_number() && !b.not_a_number() && !c.not_a_number() && !d.not_a_number()
                && !e.not_a_number() && !f.not_a_number() && !g.not_a_number()
                && !h.not_a_number() ==> (m.clipped(rect).commands.len() > m.commands.len() <==> {
                &&& a.below(b) && a.below(f) && e.below(b) && e.below(f)
                &&& c.below(d) && c.below(h) && g.below(d) && g.below(h)
            })
        }),
{
}

/// A clip item clips to its content where it clips at all and its content reaches into
/// the scissor; otherwise it leaves everything as it is.
pub proof fn law_clip_item_clips_to_its_content(m: EncoderModel, clip: bool, content: Rect)
    requires
        m.states.len() > 0,
    ensures
        ({
            let s = m.states.last().scissor;
            let meets = s.origin.x.below(content.origin.x.sum(content.size.width))
                && content.origin.x.below(s.origin.x.sum(s.size.width)) && s.origin.y.below(
                content.origin.y.sum(content.size.height),
            ) && content.origin.y.below(s.origin.y.sum(s.size.height));
            &&& clip && meets ==> m.with_clip_item(clip, content) == m.clipped(content)
            &&& !clip || !meets ==> m.with_clip_item(clip, content) == m
        }),
{
}

/// An item is recorded, under its own id and with its own region, exactly where its
/// bounds reach into the scissor; nothing else changes.
pub proof fn law_visible_item_is_recorded(m: EncoderModel, region: ControlRegion, bounds: Rect)
    requires
        m.states.len() > 0,
    ensures
        ({
            let n = m.recorded(region, bounds);
            let s = m.states.last().scissor;
            let count = m.controls.len() as int;
            let meets = s.origin.x.below(bounds.origin.x.sum(bounds.size.width))
                && bounds.origin.x.below(s.origin.x.sum(s.size.width)) && s.origin.y.below(
                bounds.origin.y.sum(bounds.size.height),
            ) && bounds.origin.y.below(s.origin.y.sum(s.size.height));
            &&& meets ==> n.controls.len() == count + 1 && n.controls.take(count) == m.controls
                && n.controls[count] == region
            &&& !meets ==> n.controls == m.controls
            &&& n.commands == m.commands
            &&& n.states == m.states
            &&& n == EncoderModel { controls: n.controls, ..m }
        }),
{
    assert(m.controls.push(region).take(m.controls.len() as int) =~= m.controls);
}

/// A move is carried in physical pixels, both components times the scale factor.  The
/// scissor moves the opposite way and keeps its size, and what is drawn moves on the
/// screen by the distance as the place before maps it.
#[verifier::rlimit(40)]
pub proof fn law_move_is_carried(m: EncoderModel, distance: Vector)
    requires
        m.states.len() > 0,
    ensures
        ({
            let n = m.translated(distance);
            let (s, t) = (m.states.last(), n.states.last());
            let p = s.transform;
            &&& rest_stays(n, m)
            &&& goes_on(
                n,
                m,
                CommandModel::Translate(
                    distance.x.product(m.scale_factor),
                    distance.y.product(m.scale_factor),
                ),
            )
            &&& t.scissor.origin.x == s.scissor.origin.x.sum(distance.x.opposite())
            &&& t.scissor.origin.y == s.scissor.origin.y.sum(distance.y.opposite())
            &&& t.scissor.size == s.scissor.size
            &&& t.global_alpha == s.global_alpha
            &&& t.transform.x == p.a.product(distance.x).sum(p.c.product(distance.y)).sum(p.x)
            &&& t.transform.y == p.b.product(distance.x).sum(p.d.product(distance.y)).sum(p.y)
            &&& t.transform.a == p.a && t.transform.b == p.b
            &&& t.transform.c == p.c && t.transform.d == p.d
        }),
{
    let n = m.translated(distance);
    assert(n.states.drop_last() =~= m.states.drop_last());
    assert(n.commands.take(m.commands.len() as int) =~= m.commands);
}

/// A rotation is carried in radians: its degrees times the radians of one degree.  What
/// is drawn turns on the screen by the angle whose sine is the opposite of that of the
/// opposite angle, about the place where it is.
#[verifier::rlimit(40)]
pub proof fn law_turn_is_carried(m: EncoderModel, degrees: Scalar, sin: Scalar, cos: Scalar)
    requires
        m.states.len() > 0,
    ensures
        ({
            let n = m.rotated(degrees, sin, cos);
            let (s, t) = (m.states.last(), n.states.last());
            let p = s.transform;
            let up = sin.opposite();
            &&& rest_stays(n, m)
            &&& goes_on(
                n,
                m,
                CommandModel::Rotate(degrees.product(Scalar { bits: 0x3c8e_fa35 })),
            )
            &&& t.global_alpha == s.global_alpha
            &&& t.transform.a == p.a.product(cos).sum(p.c.product(up))
            &&& t.transform.b == p.b.product(cos).sum(p.d.product(up))
            &&& t.transform.c == p.c.product(cos).difference(p.a.product(up))
            &&& t.transform.d == p.d.product(cos).difference(p.b.product(up))
            &&& t.transform.x == p.x && t.transform.y == p.y
        }),
{
    let n = m.rotated(degrees, sin, cos);
    assert(n.states.drop_last() =~= m.states.drop_last());
    assert(n.commands.take(m.commands.len() as int) =~= m.commands);
}

/// Whether `v` is one of the values, or this limit.
pub open spec fn one_of(v: Scalar, a: Scalar, b: Scalar, c: Scalar, d: Scalar, limit: u32) -> bool {
    v == a || v == b || v == c || v == d || v.bits == limit
}

/// Whether a number is no greater than another, where that is one.
pub open spec fn not_beyond(v: Scalar, w: Scalar) -> bool {
    !w.not_a_number() ==> v.at_most(w)
}

/// The scissor of what was turned is the upright rectangle around the four turned
/// corners: each of its edges goes through one of them, and no corner lies beyond it.
#[verifier::rlimit(40)]
pub proof fn law_turned_scissor_holds_the_corners(
    m: EncoderModel,
    degrees: Scalar,
    sin: Scalar,
    cos: Scalar,
)
    requires
        m.states.len() > 0,
    ensures
        ({
            let s = m.states.last().scissor;
            let t = m.rotated(degrees, sin, cos).states.last().scissor;
            let zero = Scalar { bits: 0 };
            let (l, tp) = (s.origin.x, s.origin.y);
            let (r, b) = (l.sum(s.size.width), tp.sum(s.size.height));
            let (l0, t0) = (l.sum(zero), tp.sum(zero));
            let (x1, y1) = (
                l.product(cos).difference(tp.product(sin)),
                l.product(sin).sum(tp.product(cos)),
            );
            let (x2, y2) = (
                r.product(cos).difference(t0.product(sin)),
                r.product(sin).sum(t0.product(cos)),
            );
            let (x3, y3) = (
                l0.product(cos).difference(b.product(sin)),
                l0.product(sin).sum(b.product(cos)),
            );
            let (x4, y4) = (
                r.product(cos).difference(b.product(sin)),
                r.product(sin).sum(b.product(cos)),
            );
            &&& one_of(t.origin.x, x1, x2, x3, x4, 0x7f7f_ffff)
            &&& one_of(t.origin.y, y1, y2, y3, y4, 0x7f7f_ffff)
            &&& not_beyond(t.origin.x, x1) && not_beyond(t.origin.x, x2)
            &&& not_beyond(t.origin.x, x3) && not_beyond(t.origin.x, x4)
            &&& not_beyond(t.origin.y, y1) && not_beyond(t.origin.y, y2)
            &&& not_beyond(t.origin.y, y3) && not_beyond(t.origin.y, y4)
            &&& spans(t.origin.x, t.size.width, x1, x2, x3, x4)
            &&& spans(t.origin.y, t.size.height, y1, y2, y3, y4)
        }),
{
    let s = m.states.last().scissor;
    let t = m.rotated(degrees, sin, cos).states.last().scissor;
    assert(t == crate::encoder::bounds_of_rotated(s, sin, cos));
    let (a, b, c, d) = crate::encoder::corners(s);
    let p = crate::encoder::turned(a, sin, cos);
    let q = crate::encoder::turned(b, sin, cos);
    let u = crate::encoder::turned(c, sin, cos);
    let v = crate::encoder::turned(d, sin, cos);
    lemma_bounds(p.x, q.x, u.x, v.x);
    lemma_bounds(p.y, q.y, u.y, v.y);
}

/// Whether the length reaches from the start to one of the values, and none lies beyond.
pub open spec fn spans(
    start: Scalar,
    length: Scalar,
    a: Scalar,
    b: Scalar,
    c: Scalar,
    d: Scalar,
) -> bool {
    exists|end: Scalar|
        {
            &&& #[trigger] one_of(end, a, b, c, d, 0xff7f_ffff)
            &&& !a.not_a_number() ==> a.at_most(end)
            &&& !b.not_a_number() ==> b.at_most(end)
            &&& !c.not_a_number() ==> c.at_most(end)
            &&& !d.not_a_number() ==> d.at_most(end)
            &&& length == end.difference(start)
        }
}

proof fn lemma_bounds(a: Scalar, b: Scalar, c: Scalar, d: Scalar)
    ensures
        ({
            let low = crate::encoder::least_of(a, b, c, d);
            let high = crate::encoder::greatest_of(a, b, c, d);
            &&& one_of(low, a, b, c, d, 0x7f7f_ffff)
            &&& not_beyond(low, a) && not_beyond(low, b)
            &&& not_beyond(low, c) && not_beyond(low, d)
            &&& spans(low, high.difference(low), a, b, c, d)
        }),
{
    let low = crate::encoder::least_of(a, b, c, d);
    let high = crate::encoder::greatest_of(a, b, c, d);
    assert((Scalar { bits: 0x7f7f_ffff }).opposite().bits == 0xff7f_ffffu32);
    assert(one_of(high, a, b, c, d, 0xff7f_ffff));
    assert(!a.not_a_number() ==> a.at_most(high));
    assert(!b.not_a_number() ==> b.at_most(high));
    assert(!c.not_a_number() ==> c.at_most(high));
    assert(!d.not_a_number() ==> d.at_most(high));
}

/// A scale is carried as it is, across and down.  The scissor shrinks by the same
/// factors, each on its own axis, and what is drawn grows by them on the screen about
/// the place where it is.
#[verifier::rlimit(40)]
pub proof fn law_scale_is_carried(m: EncoderModel, scale_x: Scalar, scale_y: Scalar)
    requires
        m.states.len() > 0,
    ensures
        ({
            let n = m.scaled(scale_x, scale_y);
            let (s, t) = (m.states.last(), n.states.last());
            let p = s.transform;
            &&& rest_stays(n, m)
            &&& goes_on(n, m, CommandModel::Scale(scale_x, scale_y))
            &&& t.scissor.origin.x == s.scissor.origin.x.quotient(scale_x)
            &&& t.scissor.origin.y == s.scissor.origin.y.quotient(scale_y)
            &&& t.scissor.size.width == s.scissor.size.width.quotient(scale_x)
            &&& t.scissor.size.height == s.scissor.size.height.quotient(scale_y)
            &&& t.global_alpha == s.global_alpha
            &&& t.transform.a == p.a.product(scale_x)
            &&& t.transform.b == p.b.product(scale_x)
            &&& t.transform.c == p.c.product(scale_y)
            &&& t.transform.d == p.d.product(scale_y)
            &&& t.transform.x == p.x && t.transform.y == p.y
        }),
{
    let n = m.scaled(scale_x, scale_y);
    assert(n.states.drop_last() =~= m.states.drop_last());
    assert(n.commands.take(m.commands.len() as int) =~= m.commands);
}

/// An opacity is carried as the product with the one that held before, which then holds
/// at this level; where things lie does not change.
pub proof fn law_opacity_is_carried(m: EncoderModel, opacity: Scalar)
    requires
        m.states.len() > 0,
    ensures
        ({
            let n = m.faded(opacity);
            let alpha = m.states.last().global_alpha.product(opacity);
            &&& rest_stays(n, m)
            &&& goes_on(n, m, CommandModel::SetGlobalAlpha(alpha))
            &&& n.states.last() == State { global_alpha: alpha, ..m.states.last() }
        }),
{
    let n = m.faded(opacity);
    assert(n.states.drop_last() =~= m.states.drop_last());
    assert(n.commands.take(m.commands.len() as int) =~= m.commands);
}

/// A save and a restore are one command each.  The level that a save adds equals the one
/// below it, and a restore takes the level on top away and leaves the others.
pub proof fn law_save_and_restore_are_carried(m: EncoderModel)
    requires
        m.states.len() > 0,
    ensures
        goes_on(m.saved(), m, CommandModel::Save),
        m.saved().states.len() == m.states.len() + 1,
        m.saved().states.drop_last() == m.states,
        m.saved().states.last() == m.states.last(),
        goes_on(m.restored(), m, CommandModel::Restore),
        m.restored().states == m.states.drop_last(),
        m.saved().controls == m.controls && m.restored().controls == m.controls,
        m.saved().fonts == m.fonts && m.restored().fonts == m.fonts,
        m.saved().background == m.background && m.restored().background == m.background,
{
    assert(m.saved().states.drop_last() =~= m.states);
    assert(m.saved().commands.take(m.commands.len() as int) =~= m.commands);
    assert(m.restored().commands.take(m.commands.len() as int) =~= m.commands);
}

/// A restore without a level is a command as well, and leaves none.
pub proof fn law_restore_without_level(m: EncoderModel)
    requires
        m.states.len() == 0,
    ensures
        goes_on(m.restored(), m, CommandModel::Restore),
        m.restored().states.len() == 0,
        m.restored().controls == m.controls,
        m.restored().fonts == m.fonts,
        m.restored().background == m.background,
{
    assert(m.restored().commands.take(m.commands.len() as int) =~= m.commands);
}

/// A new encoder has drawn nothing.  Its scissor is the whole window at the origin, in
/// logical pixels: the width and the height over the scale factor.  What is drawn is
/// opaque and lies where it is drawn.
pub proof fn law_new_encoder_shows_the_window(width: u32, height: u32, scale_factor: Scalar)
    ensures
        ({
            let m = EncoderModel::fresh(width, height, scale_factor);
            let zero = Scalar { bits: 0 };
            let one = Scalar { bits: 0x3f80_0000 };
            &&& m.commands.len() == 0 && m.controls.len() == 0 && m.fonts.len() == 0
            &&& m.background is None
            &&& m.width == width && m.height == height && m.scale_factor == scale_factor
            &&& m.next_key == 1
            &&& m.states.len() == 1
            &&& m.states[0].scissor.origin.x == zero && m.states[0].scissor.origin.y == zero
            &&& m.states[0].scissor.size.width == Scalar::of_u32(width).quotient(scale_factor)
            &&& m.states[0].scissor.size.height == Scalar::of_u32(height).quotient(scale_factor)
            &&& m.states[0].global_alpha == one
            &&& m.states[0].transform == (Transform {
                a: one,
                b: zero,
                c: zero,
                d: one,
                x: zero,
                y: zero,
            })
        }),
{
}

/// Where a rectangle of some size lies: it is the upright rectangle around the images of
/// its four corners, moved to the place of its origin.
#[verifier::rlimit(40)]
pub proof fn law_region_holds_the_corners(t: Transform, size: Size)
    ensures
        ({
            let r = t.region(size);
            let zero = Scalar { bits: 0 };
            let (x1, x2) = (t.a.product(size.width), t.c.product(size.height));
            let (y1, y2) = (t.b.product(size.width), t.d.product(size.height));
            exists|left: Scalar, top: Scalar|
                {
                    &&& #[trigger] one_of(left, zero, x1, x2, x1.sum(x2), 0x7f7f_ffff)
                    &&& #[trigger] one_of(top, zero, y1, y2, y1.sum(y2), 0x7f7f_ffff)
                    &&& not_beyond(left, zero) && not_beyond(left, x1)
                    &&& not_beyond(left, x2) && not_beyond(left, x1.sum(x2))
                    &&& not_beyond(top, zero) && not_beyond(top, y1)
                    &&& not_beyond(top, y2) && not_beyond(top, y1.sum(y2))
                    &&& r.origin.x == left.sum(t.x) && r.origin.y == top.sum(t.y)
                    &&& spans(left, r.size.width, zero, x1, x2, x1.sum(x2))
                    &&& spans(top, r.size.height, zero, y1, y2, y1.sum(y2))
                }
        }),
{
    let zero = Scalar { bits: 0 };
    let (x1, x2) = (t.a.product(size.width), t.c.product(size.height));
    let (y1, y2) = (t.b.product(size.width), t.d.product(size.height));
    lemma_bounds(zero, x1, x2, x1.sum(x2));
    lemma_bounds(zero, y1, y2, y1.sum(y2));
    let left = crate::encoder::least_of(zero, x1, x2, x1.sum(x2));
    let top = crate::encoder::least_of(zero, y1, y2, y1.sum(y2));
    assert(one_of(left, zero, x1, x2, x1.sum(x2), 0x7f7f_ffff));
    assert(one_of(top, zero, y1, y2, y1.sum(y2), 0x7f7f_ffff));
}

/// The finished scene is what was gathered, part by part.
pub proof fn law_scene_is_what_was_gathered(m: EncoderModel)
    ensures
        m.scene().width == m.width,
        m.scene().height == m.height,
        m.scene().scale_factor == m.scale_factor,
        m.scene().background == m.background,
        m.scene().fonts == m.fonts,
        m.scene().commands == m.commands,
        m.scene().controls == m.controls,
{
}

/// A background of one colour is carried channel by channel, in the order red, green,
/// blue, alpha, and draws nothing.
pub proof fn law_background_is_carried(m: EncoderModel, color: Color)
    ensures
        ({
            let n = m.backed(color);
            &&& n.background matches Some(c) && c.len() == 4 && c[0] == color.red && c[1]
                == color.green && c[2] == color.blue && c[3] == color.alpha
            &&& n == EncoderModel { background: n.background, ..m }
        }),
{
}

/// A font is carried once: under its own id and index, with its own bytes, and the fonts
/// before it stay where they are.
pub proof fn law_font_is_carried_once(m: EncoderModel, blob_id: u64, font_index: u32, data: Seq<u8>)
    ensures
        ({
            let n = m.with_font(blob_id, font_index, data);
            let count = m.fonts.len() as int;
            let there = exists|j: int|
                0 <= j < m.fonts.len() && (#[trigger] m.fonts[j]).blob_id == blob_id
                    && m.fonts[j].font_index == font_index;
            &&& there ==> n == m
            &&& !there ==> n.fonts.len() == count + 1 && n.fonts.take(count) == m.fonts
                && n.fonts[count].blob_id == blob_id && n.fonts[count].font_index == font_index
                && n.fonts[count].data == data
            &&& n == EncoderModel { fonts: n.fonts, ..m }
            &&& n.with_font(blob_id, font_index, data) == n
        }),
{
    let n = m.with_font(blob_id, font_index, data);
    let count = m.fonts.len() as int;
    if !crate::encoder::has_font(m.fonts, blob_id, font_index) {
        assert(n.fonts.take(count) =~= m.fonts);
        assert(n.fonts[count].blob_id == blob_id);
        assert(crate::encoder::has_font(n.fonts, blob_id, font_index));
    }
}

} // verus!
