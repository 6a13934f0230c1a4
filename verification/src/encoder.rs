//! The snapshot encoder: serialises the walk of an item tree into a scene.
//!
//! The encoder receives one call per drawn item, in logical pixels, and emits
//! draw commands in physical pixels.  It tracks the logical scissor, the
//! accumulated opacity and the place on the screen in a stack that moves in step with the
//! `Save` and `Restore` commands that it emits.
use crate::geometry::{
    LogicalBorderRadius, LogicalRect, LogicalSize, LogicalVector, PhysicalSize, Point, Rect, Size,
    Vector,
};
use crate::scalar::{Scalar, LARGEST_BITS, ONE_BITS, SIGN_BIT};
use crate::scene::{
    color_to_u8_array, Color, CommandModel, ControlRegion, DrawCommand, FontModel, SceneFont,
    SceneFrame, SceneModel,
};
use crate::transform::Transform;
use vstd::prelude::*;

verus! {

/// What a walk does after visiting an item.
#[derive(Clone, Copy, Debug, PartialEq, Eq, Structural)]
pub enum RenderingResult {
    ContinueRenderingChildren,
    ContinueRenderingWithoutChildren,
}

/// One level of the state stack.
#[derive(Clone, Copy, Debug, PartialEq, Eq, Structural)]
pub struct State {
    /// Current scissor in logical coordinates.
    pub scissor: LogicalRect,
    /// Accumulated opacity: the product of all opacities applied.
    pub global_alpha: Scalar,
    /// Where what is drawn lies on the screen.
    pub transform: Transform,
}

/// The encoder of one frame.
pub struct SnapshotEncoder {
    commands: Vec<DrawCommand>,
    controls: Vec<ControlRegion>,
    state: Vec<State>,
    width: u32,
    height: u32,
    scale_factor: Scalar,
    next_key: u64,
    background: Option<[u8; 4]>,
    fonts: Vec<SceneFont>,
}

/// The model of a [`SnapshotEncoder`].
#[verifier::ext_equal]
pub struct EncoderModel {
    /// The commands emitted so far.
    pub commands: Seq<CommandModel>,
    /// The control regions of this frame.
    pub controls: Seq<ControlRegion>,
    /// The state stack, the current level last.
    pub states: Seq<State>,
    /// Physical pixel dimensions of the window.
    pub width: u32,
    pub height: u32,
    /// Physical pixels per logical pixel.
    pub scale_factor: Scalar,
    /// The key of the next texture upload.
    pub next_key: u64,
    /// The solid window background.
    pub background: Option<Seq<u8>>,
    /// The fonts that this frame's glyph runs refer to.
    pub fonts: Seq<FontModel>,
}

/// By how many levels a command deepens the stack of a canvas.
pub open spec fn depth_change(command: CommandModel) -> int {
    match command {
        CommandModel::Save => 1,
        CommandModel::Restore => -1,
        _ => 0,
    }
}

/// How many `Save` commands are open at the end of a list of commands; negative
/// when more were restored than saved.
pub open spec fn open_saves(commands: Seq<CommandModel>) -> int
    decreases commands.len(),
{
    if commands.len() == 0 {
        0
    } else {
        open_saves(commands.drop_last()) + depth_change(commands.last())
    }
}

/// Whether a font with this key is in the list.
pub open spec fn has_font(fonts: Seq<FontModel>, blob_id: u64, font_index: u32) -> bool {
    exists|j: int|
        0 <= j < fonts.len() && (#[trigger] fonts[j]).blob_id == blob_id && fonts[j].font_index
            == font_index
}

/// Whether the command draws with this font.
pub open spec fn names_font(command: CommandModel, blob_id: u64, index: u32) -> bool {
    command matches CommandModel::DrawGlyphRun { font_blob_id, font_index, .. } && font_blob_id
        == blob_id && font_index == index
}

/// Whether one of the commands draws with this font.
pub open spec fn uses_font(commands: Seq<CommandModel>, blob_id: u64, index: u32) -> bool {
    exists|j: int| 0 <= j < commands.len() && names_font(#[trigger] commands[j], blob_id, index)
}

/// Whether the command uploads the texture `key`.
pub open spec fn uploads(command: CommandModel, key: u64) -> bool {
    command matches CommandModel::UploadPixmap { key: k, .. } && k == key
}

impl EncoderModel {
    /// The model of a new encoder: nothing drawn, the whole window visible, fully
    /// opaque.
    pub open spec fn fresh(width: u32, height: u32, scale_factor: Scalar) -> EncoderModel {
        EncoderModel {
            commands: Seq::empty(),
            controls: Seq::empty(),
            states: seq![
                State {
                    scissor: Rect::at_origin(logical_window_size(width, height, scale_factor)),
                    global_alpha: Scalar { bits: ONE_BITS },
                    transform: Transform::unmoved(),
                },
            ],
            width,
            height,
            scale_factor,
            next_key: 1,
            background: None,
            fonts: Seq::empty(),
        }
    }

    /// After a clip item was visited: it clips where it clips at all and something of
    /// it shows.
    pub open spec fn with_clip_item(self, clip: bool, content: LogicalRect) -> EncoderModel {
        if clip && self.current().scissor.overlaps(content) {
            self.clipped(content)
        } else {
            self
        }
    }

    /// After an item was looked at: its region is recorded where it shows.
    pub open spec fn recorded(self, region: ControlRegion, bounds: LogicalRect) -> EncoderModel {
        EncoderModel {
            controls: if self.current().scissor.overlaps(bounds) {
                self.controls.push(region)
            } else {
                self.controls
            },
            ..self
        }
    }

    /// With a background of one colour.
    pub open spec fn backed(self, color: Color) -> EncoderModel {
        EncoderModel { background: Some(color.channels()), ..self }
    }

    /// The current level of the state stack.
    pub open spec fn current(self) -> State {
        self.states.last()
    }

    /// After one more command.
    pub open spec fn emit(self, c: CommandModel) -> EncoderModel {
        EncoderModel { commands: self.commands.push(c), ..self }
    }

    /// With another scissor at the current level.
    pub open spec fn clipped_to(self, scissor: LogicalRect) -> EncoderModel {
        let top = State { scissor, ..self.current() };
        EncoderModel { states: self.states.drop_last().push(top), ..self }
    }

    /// With another opacity at the current level.
    pub open spec fn faded_to(self, global_alpha: Scalar) -> EncoderModel {
        let top = State { global_alpha, ..self.current() };
        EncoderModel { states: self.states.drop_last().push(top), ..self }
    }

    /// With another place on the screen at the current level.
    pub open spec fn placed(self, transform: Transform) -> EncoderModel {
        let top = State { transform, ..self.current() };
        EncoderModel { states: self.states.drop_last().push(top), ..self }
    }

    /// Where what is drawn lies on the screen; as in a fresh window once more was
    /// restored than saved.
    pub open spec fn transform(self) -> Transform {
        if self.states.len() > 0 {
            self.current().transform
        } else {
            Transform::unmoved()
        }
    }

    /// The state stack is one level deeper than the saves that are open.
    pub open spec fn in_step(self) -> bool {
        self.states.len() == 1 + open_saves(self.commands)
    }

    /// No font is carried twice.
    pub open spec fn fonts_distinct(self) -> bool {
        forall|i: int, j: int|
            0 <= i < j < self.fonts.len() ==> (#[trigger] self.fonts[i]).blob_id != (
            #[trigger] self.fonts[j]).blob_id || self.fonts[i].font_index
                != self.fonts[j].font_index
    }

    /// Every glyph run finds its font in the frame.
    pub open spec fn runs_have_fonts(self) -> bool {
        forall|i: int|
            0 <= i < self.commands.len() ==> match #[trigger] self.commands[i] {
                CommandModel::DrawGlyphRun { font_blob_id, font_index, .. } => {
                    has_font(self.fonts, font_blob_id, font_index)
                },
                _ => true,
            }
    }

    /// Every font that the frame carries belongs to a glyph run.
    pub open spec fn fonts_used(self) -> bool {
        forall|i: int|
            0 <= i < self.fonts.len() ==> uses_font(
                self.commands,
                (#[trigger] self.fonts[i]).blob_id,
                self.fonts[i].font_index,
            )
    }

    /// Every pixmap is uploaded before it is drawn.
    pub open spec fn blits_have_uploads(self) -> bool {
        forall|i: int|
            0 <= i < self.commands.len() ==> match #[trigger] self.commands[i] {
                CommandModel::BlitPixmap { key, .. } => {
                    exists|j: int| 0 <= j < i && uploads(#[trigger] self.commands[j], key)
                },
                _ => true,
            }
    }

    /// No command holds others.
    pub open spec fn flat(self) -> bool {
        forall|i: int|
            0 <= i < self.commands.len() ==> !((#[trigger] self.commands[i]) is Layer)
    }

    /// Glyph runs and pixmaps find what they refer to, in one list of commands, and
    /// no font is carried for nothing.
    pub open spec fn resolved(self) -> bool {
        &&& self.flat()
        &&& self.fonts_distinct()
        &&& self.runs_have_fonts()
        &&& self.fonts_used()
        &&& self.blits_have_uploads()
    }

    /// What every encoder keeps: the stack moves in step with the commands, and
    /// glyph runs and pixmaps find what they refer to, in one list of commands, and
    /// no font is carried for nothing.
    pub open spec fn sound(self) -> bool {
        self.in_step() && self.resolved()
    }

    /// No texture key was handed out twice, and the next one is new.
    pub open spec fn keys_fresh(self) -> bool {
        &&& forall|i: int, key: u64|
            0 <= i < self.commands.len() && #[trigger] uploads(self.commands[i], key) ==> key
                < self.next_key
        &&& forall|i: int, j: int, key: u64|
            0 <= i < j < self.commands.len() && #[trigger] uploads(self.commands[i], key)
                ==> !(#[trigger] uploads(self.commands[j], key))
    }

    /// After a `Save`: one more level, equal to the current one.
    pub open spec fn saved(self) -> EncoderModel {
        EncoderModel {
            states: self.states.push(self.current()),
            ..self.emit(CommandModel::Save)
        }
    }

    /// After a `Restore`: one level less.
    pub open spec fn restored(self) -> EncoderModel {
        EncoderModel {
            states: if self.states.len() > 0 {
                self.states.drop_last()
            } else {
                self.states
            },
            ..self.emit(CommandModel::Restore)
        }
    }

    /// After clipping to `rect`: the scissor shrinks to what both cover, and a
    /// clip command carries it in physical pixels.  Where they have nothing in
    /// common the scissor becomes empty and no command is emitted.
    pub open spec fn clipped(self, rect: LogicalRect) -> EncoderModel {
        match self.current().scissor.common(rect) {
            Some(r) => {
                let phys = r.magnified(self.scale_factor);
                self.clipped_to(r).emit(
                    CommandModel::CombineClip(
                        Rect::at_origin(phys.size).moved(
                            Vector { x: phys.origin.x, y: phys.origin.y },
                        ),
                    ),
                )
            },
            None => self.clipped_to(Rect::spec_nothing()),
        }
    }

    /// After moving the origin: the scissor moves the opposite way.
    pub open spec fn translated(self, distance: LogicalVector) -> EncoderModel {
        let phys = distance.magnified(self.scale_factor);
        let back = Vector { x: distance.x.opposite(), y: distance.y.opposite() };
        self.placed(self.current().transform.moved(distance)).clipped_to(
            self.current().scissor.moved(back),
        ).emit(CommandModel::Translate(phys.x, phys.y))
    }

    /// After a rotation by an angle in degrees; `sin` and `cos` belong to the
    /// opposite angle, which turns the scissor.
    pub open spec fn rotated(self, degrees: Scalar, sin: Scalar, cos: Scalar) -> EncoderModel {
        self.placed(self.current().transform.turned(sin.opposite(), cos)).clipped_to(
            bounds_of_rotated(self.current().scissor, sin, cos),
        ).emit(CommandModel::Rotate(degrees.in_radians()))
    }

    /// After scaling: the scissor shrinks by the same factors.
    pub open spec fn scaled(self, scale_x: Scalar, scale_y: Scalar) -> EncoderModel {
        let s = self.current().scissor;
        self.placed(self.current().transform.stretched(scale_x, scale_y)).clipped_to(
            Rect {
                origin: Point { x: s.origin.x.quotient(scale_x), y: s.origin.y.quotient(scale_y) },
                size: Size {
                    width: s.size.width.quotient(scale_x),
                    height: s.size.height.quotient(scale_y),
                },
            },
        ).emit(CommandModel::Scale(scale_x, scale_y))
    }

    /// After applying an opacity: it multiplies the current one.
    pub open spec fn faded(self, opacity: Scalar) -> EncoderModel {
        let alpha = self.current().global_alpha.product(opacity);
        self.faded_to(alpha).emit(CommandModel::SetGlobalAlpha(alpha))
    }

    /// With a font, which is added unless the frame has it.
    pub open spec fn with_font(self, blob_id: u64, font_index: u32, data: Seq<u8>) -> EncoderModel {
        if has_font(self.fonts, blob_id, font_index) {
            self
        } else {
            EncoderModel {
                fonts: self.fonts.push(FontModel { blob_id, font_index, data }),
                ..self
            }
        }
    }

    /// The scene that the encoder has gathered.
    pub open spec fn scene(self) -> SceneModel {
        SceneModel {
            width: self.width,
            height: self.height,
            scale_factor: self.scale_factor,
            background: self.background,
            fonts: self.fonts,
            commands: self.commands,
            controls: self.controls,
        }
    }
}

/// The lesser of two numbers; the other one where one is not a number.
pub open spec fn number_min(a: Scalar, b: Scalar) -> Scalar {
    if a.below(b) || b.not_a_number() {
        a
    } else {
        b
    }
}

/// The greater of two numbers; the other one where one is not a number.
pub open spec fn number_max(a: Scalar, b: Scalar) -> Scalar {
    if b.below(a) || b.not_a_number() {
        a
    } else {
        b
    }
}

fn min_number(a: Scalar, b: Scalar) -> (r: Scalar)
    ensures
        r == number_min(a, b),
{
    if a.less_than(b) || b.is_nan() {
        a
    } else {
        b
    }
}

fn max_number(a: Scalar, b: Scalar) -> (r: Scalar)
    ensures
        r == number_max(a, b),
{
    if b.less_than(a) || b.is_nan() {
        a
    } else {
        b
    }
}

/// The point turned about the origin.
pub open spec fn turned(p: Point, sin: Scalar, cos: Scalar) -> Point {
    Point {
        x: p.x.product(cos).difference(p.y.product(sin)),
        y: p.x.product(sin).sum(p.y.product(cos)),
    }
}

fn turn(p: Point, sin: Scalar, cos: Scalar) -> (r: Point)
    ensures
        r == turned(p, sin, cos),
{
    Point {
        x: p.x.times(cos).minus(p.y.times(sin)),
        y: p.x.times(sin).plus(p.y.times(cos)),
    }
}

/// The four corners of a rectangle.
pub open spec fn corners(r: Rect) -> (Point, Point, Point, Point) {
    let zero = Scalar { bits: 0 };
    (
        r.origin,
        Point { x: r.origin.x.sum(r.size.width), y: r.origin.y.sum(zero) },
        Point { x: r.origin.x.sum(zero), y: r.origin.y.sum(r.size.height) },
        Point { x: r.origin.x.sum(r.size.width), y: r.origin.y.sum(r.size.height) },
    )
}

/// The least of four numbers, at most the largest finite one.
pub open spec fn least_of(a: Scalar, b: Scalar, c: Scalar, d: Scalar) -> Scalar {
    let largest = Scalar { bits: LARGEST_BITS };
    number_min(d, number_min(c, number_min(b, number_min(a, largest))))
}

/// The greatest of four numbers, at least the smallest finite one.
pub open spec fn greatest_of(a: Scalar, b: Scalar, c: Scalar, d: Scalar) -> Scalar {
    let smallest = (Scalar { bits: LARGEST_BITS }).opposite();
    number_max(d, number_max(c, number_max(b, number_max(a, smallest))))
}

/// The upright rectangle around a rectangle turned about the origin.
pub open spec fn bounds_of_rotated(r: Rect, sin: Scalar, cos: Scalar) -> Rect {
    let (a, b, c, d) = corners(r);
    let (a, b, c, d) = (
        turned(a, sin, cos),
        turned(b, sin, cos),
        turned(c, sin, cos),
        turned(d, sin, cos),
    );
    let left = least_of(a.x, b.x, c.x, d.x);
    let top = least_of(a.y, b.y, c.y, d.y);
    let right = greatest_of(a.x, b.x, c.x, d.x);
    let bottom = greatest_of(a.y, b.y, c.y, d.y);
    Rect {
        origin: Point { x: left, y: top },
        size: Size { width: right.difference(left), height: bottom.difference(top) },
    }
}

pub(crate) fn min_of_four(a: Scalar, b: Scalar, c: Scalar, d: Scalar) -> (r: Scalar)
    ensures
        r == least_of(a, b, c, d),
{
    let largest: Scalar = Scalar { bits: LARGEST_BITS };
    min_number(d, min_number(c, min_number(b, min_number(a, largest))))
}

pub(crate) fn max_of_four(a: Scalar, b: Scalar, c: Scalar, d: Scalar) -> (r: Scalar)
    ensures
        r == greatest_of(a, b, c, d),
{
    let smallest: Scalar = Scalar { bits: LARGEST_BITS + SIGN_BIT };
    max_number(d, max_number(c, max_number(b, max_number(a, smallest))))
}

/// The upright rectangle around a rectangle turned about the origin.
pub fn rotated_bounds(r: Rect, sin: Scalar, cos: Scalar) -> (b: Rect)
    ensures
        b == bounds_of_rotated(r, sin, cos),
{
    let zero: Scalar = Scalar { bits: 0 };
    let right: Scalar = r.max_x();
    let bottom: Scalar = r.max_y();
    let p: Point = turn(r.origin, sin, cos);
    let q: Point = turn(Point { x: right, y: r.origin.y.plus(zero) }, sin, cos);
    let s: Point = turn(Point { x: r.origin.x.plus(zero), y: bottom }, sin, cos);
    let t: Point = turn(Point { x: right, y: bottom }, sin, cos);
    let low: Point = Point {
        x: min_of_four(p.x, q.x, s.x, t.x),
        y: min_of_four(p.y, q.y, s.y, t.y),
    };
    let high: Point = Point {
        x: max_of_four(p.x, q.x, s.x, t.x),
        y: max_of_four(p.y, q.y, s.y, t.y),
    };
    Rect { origin: low, size: Size { width: high.x.minus(low.x), height: high.y.minus(low.y) } }
}

/// What the commands draw with, more commands draw with too.
pub proof fn lemma_still_uses_font(m: EncoderModel, c: CommandModel)
    ensures
        forall|blob_id: u64, index: u32|
            uses_font(m.commands, blob_id, index) ==> #[trigger] uses_font(
                m.emit(c).commands,
                blob_id,
                index,
            ),
{
    let n = m.emit(c);
    assert forall|blob_id: u64, index: u32| uses_font(m.commands, blob_id, index) implies
        #[trigger] uses_font(n.commands, blob_id, index) by {
        let j = choose|j: int|
            0 <= j < m.commands.len() && names_font(#[trigger] m.commands[j], blob_id, index);
        assert(n.commands[j] == m.commands[j]);
    }
}

/// What one more command changes: the depth of the canvas's stack, and nothing
/// else unless it refers to a font or a texture.
pub proof fn lemma_emit(m: EncoderModel, c: CommandModel)
    ensures
        open_saves(m.emit(c).commands) == open_saves(m.commands) + depth_change(c),
        m.resolved() && !(c is DrawGlyphRun) && !(c is BlitPixmap) && !(c is Layer) ==> m.emit(
            c,
        ).resolved(),
        m.keys_fresh() && !(c is UploadPixmap) ==> m.emit(c).keys_fresh(),
{
    let n = m.emit(c);
    lemma_still_uses_font(m, c);
    assert(n.commands.drop_last() =~= m.commands);
    assert forall|i: int| 0 <= i < m.commands.len() implies #[trigger] n.commands[i]
        == m.commands[i] by {}
    if m.resolved() && !(c is DrawGlyphRun) && !(c is BlitPixmap) && !(c is Layer) {
        assert forall|i: int| 0 <= i < n.commands.len() implies match #[trigger] n.commands[i] {
            CommandModel::BlitPixmap { key, .. } => {
                exists|j: int| 0 <= j < i && uploads(#[trigger] n.commands[j], key)
            },
            _ => true,
        } by {
            if i < m.commands.len() {
                if let CommandModel::BlitPixmap { key, .. } = m.commands[i] {
                    let j = choose|j: int| 0 <= j < i && uploads(#[trigger] m.commands[j], key);
                    assert(uploads(n.commands[j], key));
                }
            }
        }
    }
    if m.keys_fresh() && !(c is UploadPixmap) {
        assert forall|i: int, key: u64|
            0 <= i < n.commands.len() && #[trigger] uploads(n.commands[i], key) implies key
            < n.next_key by {
            assert(uploads(m.commands[i], key));
        }
        assert forall|i: int, j: int, key: u64|
            0 <= i < j < n.commands.len() && #[trigger] uploads(n.commands[i], key) implies !(
        #[trigger] uploads(n.commands[j], key)) by {
            assert(uploads(m.commands[i], key));
            if j < m.commands.len() {
                assert(!uploads(m.commands[j], key));
            }
        }
    }
}

/// The stack of states is not part of what a frame refers to.
proof fn lemma_states(m: EncoderModel, n: EncoderModel)
    requires
        n == (EncoderModel { states: n.states, ..m }),
    ensures
        m.resolved() ==> n.resolved(),
        m.keys_fresh() ==> n.keys_fresh(),
{
}

impl SnapshotEncoder {
    pub closed spec fn model(self) -> EncoderModel {
        EncoderModel {
            commands: crate::scene::command_models(self.commands@),
            controls: self.controls@,
            states: self.state@,
            width: self.width,
            height: self.height,
            scale_factor: self.scale_factor,
            next_key: self.next_key,
            background: crate::scene::background_model(self.background),
            fonts: crate::scene::font_models(self.fonts@),
        }
    }
}

impl View for SnapshotEncoder {
    type V = EncoderModel;

    open spec fn view(&self) -> EncoderModel {
        self.model()
    }
}

/// The size of a window in logical pixels.
pub open spec fn logical_window_size(width: u32, height: u32, scale_factor: Scalar) -> Size {
    Size {
        width: Scalar::of_u32(width).quotient(scale_factor),
        height: Scalar::of_u32(height).quotient(scale_factor),
    }
}

impl SnapshotEncoder {
    /// An encoder for a window of the given physical size: nothing drawn, the
    /// whole window visible, fully opaque.
    pub fn new(width: u32, height: u32, scale_factor: Scalar) -> (r: SnapshotEncoder)
        ensures
            r@ == (EncoderModel {
                commands: Seq::empty(),
                controls: Seq::empty(),
                states: seq![
                    State {
                        scissor: Rect::at_origin(logical_window_size(width, height, scale_factor)),
                        global_alpha: Scalar { bits: ONE_BITS },
                        transform: Transform::unmoved(),
                    },
                ],
                width,
                height,
                scale_factor,
                next_key: 1,
                background: None,
                fonts: Seq::empty(),
            }),
            r@ == EncoderModel::fresh(width, height, scale_factor),
            r@.sound(),
            r@.keys_fresh(),
    {
        let logical_size: LogicalSize = Size {
            width: Scalar::from_u32(width).over(scale_factor),
            height: Scalar::from_u32(height).over(scale_factor),
        };
        let mut state: Vec<State> = Vec::new();
        state.push(
            State {
                scissor: Rect::from_size(logical_size),
                global_alpha: Scalar { bits: ONE_BITS },
                transform: Transform::identity(),
            },
        );
        let r: SnapshotEncoder = SnapshotEncoder {
            commands: Vec::new(),
            controls: Vec::new(),
            state,
            width,
            height,
            scale_factor,
            next_key: 1,
            background: None,
            fonts: Vec::new(),
        };
        proof {
            assert(r@.commands =~= Seq::empty());
            assert(r@.fonts =~= Seq::empty());
        }
        r
    }

    /// Set the solid window background that is cleared before the replay.
    pub fn set_background(&mut self, color: Color)
        ensures
            final(self)@ == (EncoderModel { background: Some(color.channels()), ..old(self)@ }),
            final(self)@ == old(self)@.backed(color),
            old(self)@.sound() ==> final(self)@.sound(),
            old(self)@.keys_fresh() ==> final(self)@.keys_fresh(),
    {
        self.background = Some(color_to_u8_array(color));
    }

    /// Finish encoding and return the complete scene.
    pub fn finish(self) -> (r: SceneFrame)
        ensures
            r@ == self@.scene(),
    {
        SceneFrame {
            width: self.width,
            height: self.height,
            scale_factor: self.scale_factor,
            background: self.background,
            fonts: self.fonts,
            commands: self.commands,
            controls: self.controls,
        }
    }

    /// The next texture key; keys wrap around after the last one.
    pub fn alloc_key(&mut self) -> (k: u64)
        ensures
            k == old(self)@.next_key,
            final(self)@ == (EncoderModel {
                next_key: if k == u64::MAX {
                    0
                } else {
                    (k + 1) as u64
                },
                ..old(self)@
            }),
    {
        let k: u64 = self.next_key;
        self.next_key = k.wrapping_add(1);
        k
    }

    /// Append a command.
    pub fn push(&mut self, cmd: DrawCommand)
        ensures
            final(self)@ == old(self)@.emit(cmd@),
    {
        self.commands.push(cmd);
        proof {
            assert(self@.commands =~= old(self)@.commands.push(cmd@));
        }
    }

    /// Append a control region.
    pub fn push_control(&mut self, region: ControlRegion)
        ensures
            final(self)@ == (EncoderModel {
                controls: old(self)@.controls.push(region),
                ..old(self)@
            }),
    {
        self.controls.push(region);
    }

    /// Whether an item with these bounds shows in the current clip; if it does, its
    /// region is recorded.
    pub fn record_visible(&mut self, region: ControlRegion, bounds: LogicalRect) -> (r: bool)
        requires
            old(self)@.states.len() > 0,
        ensures
            r <==> old(self)@.current().scissor.overlaps(bounds),
            r <==> final(self)@.controls.len() > old(self)@.controls.len(),
            final(self)@ == old(self)@.recorded(region, bounds),
            final(self)@ == (EncoderModel {
                controls: if r {
                    old(self)@.controls.push(region)
                } else {
                    old(self)@.controls
                },
                ..old(self)@
            }),
            old(self)@.sound() ==> final(self)@.sound(),
            old(self)@.keys_fresh() ==> final(self)@.keys_fresh(),
    {
        let visible: bool = self.is_visible(bounds);
        if visible {
            self.push_control(region);
        }
        visible
    }

    /// Whether an item with these bounds shows in the current clip.
    pub fn is_visible(&self, bounds: LogicalRect) -> (r: bool)
        requires
            self@.states.len() > 0,
        ensures
            r <==> self@.current().scissor.overlaps(bounds),
    {
        self.get_current_clip().intersects(bounds)
    }

    /// Where an item of this size that is drawn now lies on the screen.
    pub fn on_screen(&self, size: LogicalSize) -> (r: LogicalRect)
        ensures
            r == self@.transform().region(size),
    {
        if self.state.len() > 0 {
            self.top().transform.region_of(size)
        } else {
            Transform::identity().region_of(size)
        }
    }

    /// Append a font unless the frame carries it already.
    pub(crate) fn require_font(&mut self, blob_id: u64, font_index: u32, data: &Vec<u8>)
        ensures
            final(self)@ == old(self)@.with_font(blob_id, font_index, data@),
    {
        let mut i: usize = 0;
        while i < self.fonts.len()
            invariant
                i <= self.fonts.len(),
                self@ == old(self)@,
                self.fonts@ == old(self).fonts@,
                forall|j: int|
                    0 <= j < i ==> !((#[trigger] self@.fonts[j]).blob_id == blob_id
                        && self@.fonts[j].font_index == font_index),
            decreases self.fonts.len() - i,
        {
            proof {
                assert(self@.fonts[i as int] == self.fonts@[i as int]@);
            }
            if self.fonts[i].blob_id == blob_id && self.fonts[i].font_index == font_index {
                return;
            }
            i = i + 1;
        }
        let font: SceneFont = SceneFont {
            blob_id,
            font_index,
            data: crate::scene_clone::copy_vec(data),
        };
        self.fonts.push(font);
        proof {
            assert(self@.fonts =~= old(self)@.fonts.push(font@));
        }
    }

    /// A logical size in physical pixels.
    pub fn phys_rect(&self, logical: LogicalSize) -> (r: PhysicalSize)
        ensures
            r == logical.magnified(self@.scale_factor),
    {
        logical.scaled(self.scale_factor)
    }

    /// Physical pixels per logical pixel.
    pub fn scale_factor(&self) -> (r: Scalar)
        ensures
            r == self@.scale_factor,
    {
        self.scale_factor
    }

    /// The size of the window in logical pixels: the area that a string is laid
    /// out in.
    pub fn window_size(&self) -> (r: LogicalSize)
        ensures
            r == logical_window_size(self@.width, self@.height, self@.scale_factor),
    {
        Size {
            width: Scalar::from_u32(self.width).over(self.scale_factor),
            height: Scalar::from_u32(self.height).over(self.scale_factor),
        }
    }

    /// The size of the window in physical pixels.
    pub fn viewport(&self) -> (r: PhysicalSize)
        ensures
            r == (Size {
                width: Scalar::of_u32(self@.width),
                height: Scalar::of_u32(self@.height),
            }),
    {
        Size { width: Scalar::from_u32(self.width), height: Scalar::from_u32(self.height) }
    }

    /// Whether a state is left: not once more was restored than saved.
    pub fn has_state(&self) -> (r: bool)
        ensures
            r <==> self@.states.len() > 0,
    {
        self.state.len() > 0
    }

    fn top(&self) -> (r: State)
        requires
            self@.states.len() > 0,
        ensures
            r == self@.current(),
    {
        self.state[self.state.len() - 1]
    }

    fn set_top(&mut self, top: State)
        requires
            old(self)@.states.len() > 0,
        ensures
            final(self)@ == (EncoderModel {
                states: old(self)@.states.drop_last().push(top),
                ..old(self)@
            }),
    {
        self.state.pop();
        self.state.push(top);
    }

    /// The current scissor.
    pub fn get_current_clip(&self) -> (r: LogicalRect)
        requires
            self@.states.len() > 0,
        ensures
            r == self@.current().scissor,
    {
        self.top().scissor
    }

    /// Shrink the scissor to `clip_rect`; whether anything stays visible.
    /// Rounded corners are clipped as square ones.
    pub fn combine_clip(&mut self, clip_rect: LogicalRect, _radius: LogicalBorderRadius) -> (r:
        bool)
        requires
            old(self)@.states.len() > 0,
        ensures
            r <==> old(self)@.current().scissor.common(clip_rect) is Some,
            r <==> final(self)@.commands.len() > old(self)@.commands.len(),
            final(self)@ == old(self)@.clipped(clip_rect),
            old(self)@.sound() ==> final(self)@.sound(),
            old(self)@.keys_fresh() ==> final(self)@.keys_fresh(),
    {
        let top: State = self.top();
        match top.scissor.intersection(clip_rect) {
            Some(r) => {
                self.set_top(State { scissor: r, ..top });
                let phys: Rect = r.scaled(self.scale_factor);
                let placed: Rect = Rect::from_size(phys.size).translated(
                    Vector { x: phys.origin.x, y: phys.origin.y },
                );
                let ghost before = self@;
                self.push(DrawCommand::CombineClip(placed));
                proof {
                    lemma_states(old(self)@, before);
                    lemma_emit(before, CommandModel::CombineClip(placed));
                }
                true
            },
            None => {
                self.set_top(State { scissor: Rect::nothing(), ..top });
                proof {
                    lemma_states(old(self)@, self@);
                }
                false
            },
        }
    }

    /// Move the origin.
    pub fn translate(&mut self, distance: LogicalVector)
        requires
            old(self)@.states.len() > 0,
        ensures
            final(self)@ == old(self)@.translated(distance),
            old(self)@.sound() ==> final(self)@.sound(),
            old(self)@.keys_fresh() ==> final(self)@.keys_fresh(),
    {
        let phys: Vector = distance.scaled(self.scale_factor);
        let top: State = self.top();
        let back: Vector = Vector { x: distance.x.negated(), y: distance.y.negated() };
        self.set_top(
            State {
                scissor: top.scissor.translated(back),
                transform: top.transform.translate(distance),
                ..top
            },
        );
        let ghost before = self@;
        self.push(DrawCommand::Translate(phys.x, phys.y));
        proof {
            lemma_states(old(self)@, before);
            lemma_emit(before, CommandModel::Translate(phys.x, phys.y));
        }
    }

    /// Rotate by an angle in degrees.  `sin` and `cos` are those of the opposite
    /// angle.
    #[verifier::spinoff_prover]
    #[verifier::rlimit(40)]
    pub fn rotate(&mut self, angle_in_degrees: Scalar, sin: Scalar, cos: Scalar)
        requires
            old(self)@.states.len() > 0,
        ensures
            final(self)@ == old(self)@.rotated(angle_in_degrees, sin, cos),
            old(self)@.sound() ==> final(self)@.sound(),
            old(self)@.keys_fresh() ==> final(self)@.keys_fresh(),
    {
        let radians: Scalar = angle_in_degrees.to_radians();
        let top: State = self.top();
        self.set_top(
            State {
                scissor: rotated_bounds(top.scissor, sin, cos),
                transform: top.transform.rotate(sin.negated(), cos),
                ..top
            },
        );
        let ghost before = self@;
        self.push(DrawCommand::Rotate(radians));
        proof {
            lemma_states(old(self)@, before);
            lemma_emit(before, CommandModel::Rotate(radians));
        }
    }

    /// Scale both axes.
    pub fn scale(&mut self, scale_x: Scalar, scale_y: Scalar)
        requires
            old(self)@.states.len() > 0,
        ensures
            final(self)@ == old(self)@.scaled(scale_x, scale_y),
            old(self)@.sound() ==> final(self)@.sound(),
            old(self)@.keys_fresh() ==> final(self)@.keys_fresh(),
    {
        let top: State = self.top();
        let s: Rect = top.scissor;
        let scissor: Rect = Rect {
            origin: Point { x: s.origin.x.over(scale_x), y: s.origin.y.over(scale_y) },
            size: Size { width: s.size.width.over(scale_x), height: s.size.height.over(scale_y) },
        };
        self.set_top(State { scissor, transform: top.transform.scale(scale_x, scale_y), ..top });
        let ghost before = self@;
        self.push(DrawCommand::Scale(scale_x, scale_y));
        proof {
            lemma_states(old(self)@, before);
            lemma_emit(before, CommandModel::Scale(scale_x, scale_y));
        }
    }

    /// Multiply the current opacity.
    pub fn apply_opacity(&mut self, opacity: Scalar)
        requires
            old(self)@.states.len() > 0,
        ensures
            final(self)@ == old(self)@.faded(opacity),
            old(self)@.sound() ==> final(self)@.sound(),
            old(self)@.keys_fresh() ==> final(self)@.keys_fresh(),
    {
        let top: State = self.top();
        let alpha: Scalar = top.global_alpha.times(opacity);
        self.set_top(State { global_alpha: alpha, ..top });
        let ghost before = self@;
        self.push(DrawCommand::SetGlobalAlpha(alpha));
        proof {
            lemma_states(old(self)@, before);
            lemma_emit(before, CommandModel::SetGlobalAlpha(alpha));
        }
    }

    /// Visit an opacity item: its opacity applies to the children.
    pub fn visit_opacity(&mut self, opacity: Scalar) -> (r: RenderingResult)
        requires
            old(self)@.states.len() > 0,
        ensures
            r is ContinueRenderingChildren,
            final(self)@ == old(self)@.faded(opacity),
            old(self)@.sound() ==> final(self)@.sound(),
            old(self)@.keys_fresh() ==> final(self)@.keys_fresh(),
    {
        self.apply_opacity(opacity);
        RenderingResult::ContinueRenderingChildren
    }

    /// Visit a layer item: the children draw directly, whatever the caching hint.
    pub fn visit_layer(&mut self, _cache_rendering_hint: bool) -> (r: RenderingResult)
        ensures
            r is ContinueRenderingChildren,
            final(self)@ == old(self)@,
    {
        RenderingResult::ContinueRenderingChildren
    }

    /// Visit a clip item.  `content` is the region inside its border.
    pub fn visit_clip(
        &mut self,
        clip: bool,
        content: LogicalRect,
        radius: LogicalBorderRadius,
    ) -> (r: RenderingResult)
        requires
            old(self)@.states.len() > 0,
        ensures
            r is ContinueRenderingWithoutChildren <==> clip
                && !old(self)@.current().scissor.overlaps(content),
            r is ContinueRenderingWithoutChildren ==> clip && final(self)@ == old(self)@,
            final(self)@ == old(self)@.with_clip_item(clip, content),
            final(self)@ == if clip && old(self)@.current().scissor.overlaps(content) {
                old(self)@.clipped(content)
            } else {
                old(self)@
            },
            old(self)@.sound() ==> final(self)@.sound(),
            old(self)@.keys_fresh() ==> final(self)@.keys_fresh(),
    {
        if !clip {
            return RenderingResult::ContinueRenderingChildren;
        }
        if !self.get_current_clip().intersects(content) {
            return RenderingResult::ContinueRenderingWithoutChildren;
        }
        self.combine_clip(content, radius);
        RenderingResult::ContinueRenderingChildren
    }

    /// Whether nothing drawn now would be visible.
    pub fn global_alpha_transparent(&self) -> (r: bool)
        requires
            self@.states.len() > 0,
        ensures
            r <==> self@.current().global_alpha.zero_valued(),
    {
        self.top().global_alpha.is_zero()
    }

    /// Push the state.
    pub fn save_state(&mut self)
        requires
            old(self)@.states.len() > 0,
        ensures
            final(self)@ == old(self)@.saved(),
            old(self)@.sound() ==> final(self)@.sound(),
            old(self)@.keys_fresh() ==> final(self)@.keys_fresh(),
    {
        let top: State = self.top();
        self.push(DrawCommand::Save);
        self.state.push(top);
        proof {
            lemma_emit(old(self)@, CommandModel::Save);
            lemma_states(old(self)@.emit(CommandModel::Save), self@);
        }
    }

    /// Pop the state.
    pub fn restore_state(&mut self)
        ensures
            final(self)@ == old(self)@.restored(),
            old(self)@.sound() && old(self)@.states.len() > 0 ==> final(self)@.sound(),
            old(self)@.keys_fresh() ==> final(self)@.keys_fresh(),
    {
        self.push(DrawCommand::Restore);
        self.state.pop();
        proof {
            lemma_emit(old(self)@, CommandModel::Restore);
            lemma_states(old(self)@.emit(CommandModel::Restore), self@);
        }
    }
}

} // verus!
