//! What each drawn item adds to a snapshot.
//!
//! Brushes, layouts and pixel buffers arrive resolved, in physical pixels; the
//! functions here decide which commands they become.
use crate::brush::{
    brush_to_paint_desc, femtovg_line_cap, femtovg_line_join, LineCap, LineJoin, ResolvedBrush,
};
use crate::encoder::{EncoderModel, SnapshotEncoder};
use crate::geometry::{
    LogicalSize, LogicalVector, PhysicalBorderRadius, PhysicalRect, PhysicalSize, Point, Rect,
    Size, Vector,
};
use crate::scalar::{Scalar, MINUS_ONE_BITS, ONE_BITS, TWO_TO_32_BITS};
use crate::scene::{
    Color, CommandModel, ControlRegion, DrawCommand, LineCapDesc, LineJoinDesc, PaintDesc,
    PaintModel, PathEvent, PositionedGlyph,
};
use vstd::prelude::*;

verus! {

/// The rectangles and radii of a rectangle with a border.
#[derive(Clone, Copy, Debug, PartialEq, Eq, Structural)]
pub struct BorderLayout {
    pub background_rect: PhysicalRect,
    pub background_radius: PhysicalBorderRadius,
    pub border_rect: PhysicalRect,
    pub border_radius: PhysicalBorderRadius,
    pub border_width: Scalar,
}

/// How a window is backed.
#[derive(Debug)]
pub enum WindowBackground {
    /// One colour.
    Solid(Color),
    /// Any other brush; `None` when it is fully transparent.
    Brush(Option<ResolvedBrush>),
}

/// The channels of a pixel buffer.
#[derive(Clone, Copy, Debug, PartialEq, Eq, Structural)]
pub enum PixelFormat {
    Rgba8,
    Rgba8Premultiplied,
    Rgb8,
}

/// The pixels of an image.
#[derive(Debug)]
pub struct PixelBuffer {
    pub format: PixelFormat,
    pub width: u32,
    pub height: u32,
    pub pixels: Vec<u8>,
}

/// One event of a path fitted into its item, in logical pixels.
#[derive(Clone, Copy, Debug, PartialEq, Eq, Structural)]
pub enum FittedEvent {
    Begin(Point),
    Line(Point),
    Quadratic(Point, Point),
    Cubic(Point, Point, Point),
    /// The end of a subpath, closed or not.
    End(bool),
}

/// A path fitted into its item, in logical pixels.
#[derive(Debug)]
pub struct FittedPath {
    pub offset: LogicalVector,
    pub events: Vec<FittedEvent>,
}

/// How a path is filled and stroked.
#[derive(Clone, Copy, Debug, PartialEq, Eq, Structural)]
pub struct PathStyle {
    pub even_odd: bool,
    pub anti_alias: bool,
    /// In logical pixels.
    pub stroke_width: Scalar,
    pub line_cap: LineCap,
    pub line_join: LineJoin,
    pub miter_limit: Scalar,
}

/// A box shadow in physical pixels.
#[derive(Clone, Copy, Debug, PartialEq, Eq, Structural)]
pub struct ShadowOptions {
    pub color: Color,
    pub blur: Scalar,
    pub width: Scalar,
    pub height: Scalar,
    pub radius: PhysicalBorderRadius,
    pub inset: bool,
}

/// How the glyphs of a run are painted.
#[derive(Debug)]
pub enum GlyphBrush {
    Fill(PaintDesc),
    Stroke(PaintDesc),
}

/// A glyph of a laid out run.
#[derive(Clone, Copy, Debug, PartialEq, Eq, Structural)]
pub struct LayoutGlyph {
    pub id: u32,
    pub x: Scalar,
    pub y: Scalar,
}

/// The channels of three-channel pixels with an opaque alpha added to each.
pub open spec fn with_opaque_alpha(rgb: Seq<u8>) -> Seq<u8> {
    Seq::new(
        (rgb.len() / 3) * 4,
        |i: int|
            if i % 4 == 3 {
                255u8
            } else {
                rgb[(i / 4) * 3 + i % 4]
            },
    )
}

impl PixelBuffer {
    /// The pixels with four channels each.
    pub open spec fn four_channels(self) -> Seq<u8> {
        match self.format {
            PixelFormat::Rgb8 => with_opaque_alpha(self.pixels@),
            _ => self.pixels@,
        }
    }

    /// Three-channel pixels are complete.
    pub open spec fn complete(self) -> bool {
        self.format is Rgb8 ==> self.pixels@.len() % 3 == 0
    }

    /// The pixels with four channels each: an opaque alpha is added where they
    /// have three.
    pub fn to_rgba(&self) -> (r: Vec<u8>)
        requires
            self.complete(),
        ensures
            r@ == self.four_channels(),
    {
        match self.format {
            PixelFormat::Rgb8 => {
                let mut r: Vec<u8> = Vec::new();
                let mut i: usize = 0;
                while i < self.pixels.len()
                    invariant
                        i % 3 == 0,
                        i <= self.pixels@.len(),
                        self.pixels@.len() % 3 == 0,
                        r@.len() == (i / 3) * 4,
                        forall|j: int|
                            0 <= j < r@.len() ==> #[trigger] r@[j] == with_opaque_alpha(
                                self.pixels@,
                            )[j],
                    decreases self.pixels.len() - i,
                {
                    r.push(self.pixels[i]);
                    r.push(self.pixels[i + 1]);
                    r.push(self.pixels[i + 2]);
                    r.push(255);
                    i = i + 3;
                }
                proof {
                    assert(r@ =~= with_opaque_alpha(self.pixels@));
                }
                r
            },
            PixelFormat::Rgba8 => crate::scene_clone::copy_vec(&self.pixels),
            PixelFormat::Rgba8Premultiplied => crate::scene_clone::copy_vec(&self.pixels),
        }
    }
}

/// One event of a fitted path in physical pixels; nothing for an open end.
pub open spec fn path_event(e: FittedEvent, sf: Scalar) -> Seq<PathEvent> {
    match e {
        FittedEvent::Begin(at) => seq![PathEvent::MoveTo(at.x.product(sf), at.y.product(sf))],
        FittedEvent::Line(to) => seq![PathEvent::LineTo(to.x.product(sf), to.y.product(sf))],
        FittedEvent::Quadratic(c, to) => seq![
            PathEvent::QuadTo(c.x.product(sf), c.y.product(sf), to.x.product(sf), to.y.product(sf)),
        ],
        FittedEvent::Cubic(c1, c2, to) => seq![
            PathEvent::CubicTo(
                c1.x.product(sf),
                c1.y.product(sf),
                c2.x.product(sf),
                c2.y.product(sf),
                to.x.product(sf),
                to.y.product(sf),
            ),
        ],
        FittedEvent::End(close) => if close {
            seq![PathEvent::Close]
        } else {
            Seq::empty()
        },
    }
}

/// The events of a fitted path in physical pixels.
pub open spec fn path_events(events: Seq<FittedEvent>, sf: Scalar) -> Seq<PathEvent>
    decreases events.len(),
{
    if events.len() == 0 {
        Seq::empty()
    } else {
        path_events(events.drop_last(), sf) + path_event(events.last(), sf)
    }
}

fn push_path_event(r: &mut Vec<PathEvent>, e: FittedEvent, sf: Scalar)
    ensures
        final(r)@ == old(r)@ + path_event(e, sf),
{
    match e {
        FittedEvent::Begin(at) => {
            r.push(PathEvent::MoveTo(at.x.times(sf), at.y.times(sf)));
        },
        FittedEvent::Line(to) => {
            r.push(PathEvent::LineTo(to.x.times(sf), to.y.times(sf)));
        },
        FittedEvent::Quadratic(c, to) => {
            r.push(
                PathEvent::QuadTo(c.x.times(sf), c.y.times(sf), to.x.times(sf), to.y.times(sf)),
            );
        },
        FittedEvent::Cubic(c1, c2, to) => {
            r.push(
                PathEvent::CubicTo(
                    c1.x.times(sf),
                    c1.y.times(sf),
                    c2.x.times(sf),
                    c2.y.times(sf),
                    to.x.times(sf),
                    to.y.times(sf),
                ),
            );
        },
        FittedEvent::End(close) => {
            if close {
                r.push(PathEvent::Close);
            }
        },
    }
}

/// The events of a fitted path in physical pixels.
pub fn physical_path(events: &Vec<FittedEvent>, sf: Scalar) -> (r: Vec<PathEvent>)
    ensures
        r@ == path_events(events@, sf),
{
    let mut r: Vec<PathEvent> = Vec::new();
    let mut i: usize = 0;
    while i < events.len()
        invariant
            i <= events.len(),
            r@ == path_events(events@.take(i as int), sf),
        decreases events.len() - i,
    {
        proof {
            assert(events@.take(i + 1).drop_last() =~= events@.take(i as int));
        }
        push_path_event(&mut r, events[i], sf);
        i = i + 1;
    }
    proof {
        assert(events@.take(i as int) =~= events@);
    }
    r
}

/// The line cap that the protocol carries.
pub open spec fn carried_cap(cap: LineCap) -> LineCapDesc {
    match cap {
        LineCap::Round => LineCapDesc::Round,
        LineCap::Square => LineCapDesc::Square,
        _ => LineCapDesc::Butt,
    }
}

/// The line join that the protocol carries.
pub open spec fn carried_join(join: LineJoin) -> LineJoinDesc {
    match join {
        LineJoin::Round => LineJoinDesc::Round,
        LineJoin::Bevel => LineJoinDesc::Bevel,
        _ => LineJoinDesc::Miter,
    }
}

/// A run of glyphs as the protocol carries it: glyph ids keep 16 bits.
pub open spec fn positioned(glyphs: Seq<LayoutGlyph>) -> Seq<PositionedGlyph> {
    glyphs.map_values(
        |g: LayoutGlyph| PositionedGlyph { x: g.x, y: g.y, id: (g.id % 65536) as u16 },
    )
}

/// Glyphs as the protocol carries them.
pub fn position_glyphs(glyphs: &Vec<LayoutGlyph>) -> (r: Vec<PositionedGlyph>)
    ensures
        r@ == positioned(glyphs@),
{
    let mut r: Vec<PositionedGlyph> = Vec::new();
    let mut i: usize = 0;
    while i < glyphs.len()
        invariant
            i <= glyphs.len(),
            r@ == positioned(glyphs@).take(i as int),
        decreases glyphs.len() - i,
    {
        let g: LayoutGlyph = glyphs[i];
        r.push(PositionedGlyph { x: g.x, y: g.y, id: (g.id % 65536) as u16 });
        i = i + 1;
        proof {
            assert(r@ =~= positioned(glyphs@).take(i as int));
        }
    }
    proof {
        assert(positioned(glyphs@).take(i as int) =~= positioned(glyphs@));
    }
    r
}

impl GlyphBrush {
    pub open spec fn paint(self) -> PaintModel {
        match self {
            GlyphBrush::Fill(p) => p@,
            GlyphBrush::Stroke(p) => p@,
        }
    }

    /// The paint of the brush.
    pub fn into_paint(self) -> (r: PaintDesc)
        ensures
            r@ == self.paint(),
    {
        match self {
            GlyphBrush::Fill(p) => p,
            GlyphBrush::Stroke(p) => p,
        }
    }
}

impl Clone for GlyphBrush {
    fn clone(&self) -> (r: GlyphBrush)
        ensures
            r is Fill <==> *self is Fill,
            r.paint() == self.paint(),
    {
        match self {
            GlyphBrush::Fill(p) => GlyphBrush::Fill(p.clone()),
            GlyphBrush::Stroke(p) => GlyphBrush::Stroke(p.clone()),
        }
    }
}

/// Whether a number can be cut to 32 unsigned bits.
pub open spec fn cuts_to_u32(s: Scalar) -> bool {
    (Scalar { bits: MINUS_ONE_BITS }).below(s) && s.below(Scalar { bits: TWO_TO_32_BITS })
}

/// Where a pixmap is blitted, and which part of it, the whole: x, y, width,
/// height, texture x, y, width, height, flags.
pub open spec fn blit_params(size: PhysicalSize, width: u32, height: u32) -> Seq<Scalar> {
    let zero = Scalar { bits: 0 };
    seq![
        zero,
        zero,
        size.width,
        size.height,
        zero,
        zero,
        Scalar::of_u32(width),
        Scalar::of_u32(height),
        zero,
    ]
}

impl EncoderModel {
    /// The viewport in physical pixels.
    pub open spec fn whole_viewport(self) -> Rect {
        Rect::at_origin(
            Size { width: Scalar::of_u32(self.width), height: Scalar::of_u32(self.height) },
        )
    }

    /// After a filled rectangle: nothing is added for one without extent or with
    /// a transparent brush.
    pub open spec fn with_rectangle(
        self,
        brush: Option<ResolvedBrush>,
        size: LogicalSize,
    ) -> EncoderModel {
        let phys = size.magnified(self.scale_factor);
        if phys.covers_nothing() || brush is None {
            self
        } else {
            self.emit(
                CommandModel::FillRect {
                    rect: Rect::at_origin(phys),
                    paint: brush->0.paint(),
                    anti_alias: false,
                },
            )
        }
    }

    /// After the background of a rectangle with a border.
    pub open spec fn with_border_fill(
        self,
        layout: BorderLayout,
        background: Option<ResolvedBrush>,
    ) -> EncoderModel {
        match background {
            Some(b) => self.emit(
                CommandModel::FillRoundedRect {
                    rect: layout.background_rect,
                    paint: b.paint(),
                    radius: layout.background_radius,
                    anti_alias: true,
                },
            ),
            None => self,
        }
    }

    /// After the border of a rectangle; a border without width adds nothing.
    pub open spec fn with_border_stroke(
        self,
        layout: BorderLayout,
        border: Option<ResolvedBrush>,
    ) -> EncoderModel {
        if layout.border_width.positive() && border is Some {
            self.emit(
                CommandModel::StrokeRoundedRect {
                    rect: layout.border_rect,
                    paint: border->0.paint(),
                    radius: layout.border_radius,
                    line_width: layout.border_width,
                    anti_alias: true,
                },
            )
        } else {
            self
        }
    }

    /// After a texture of its own and a blit of it.
    pub open spec fn with_pixmap(
        self,
        pixels: Seq<u8>,
        width: u32,
        height: u32,
        size: PhysicalSize,
    ) -> EncoderModel {
        let key = self.next_key;
        let upload = CommandModel::UploadPixmap { key, pixels, width, height };
        let blit = CommandModel::BlitPixmap { key, params: blit_params(size, width, height) };
        EncoderModel {
            next_key: if key == u64::MAX {
                0
            } else {
                (key + 1) as u64
            },
            ..self.emit(upload).emit(blit)
        }
    }

    /// After an image item.
    pub open spec fn with_image(
        self,
        size: LogicalSize,
        buffer: Option<PixelBuffer>,
        id: u64,
    ) -> EncoderModel {
        match buffer {
            Some(b) => if size.width.at_most(Scalar { bits: 0 }) || size.height.at_most(
                Scalar { bits: 0 },
            ) {
                self
            } else {
                EncoderModel {
                    controls: self.controls.push(
                        ControlRegion { id, geometry: self.transform().region(size) },
                    ),
                    ..self.with_pixmap(
                        b.four_channels(),
                        b.width,
                        b.height,
                        size.magnified(self.scale_factor),
                    )
                }
            },
            None => self,
        }
    }

    /// After an image without an item.
    pub open spec fn with_direct_image(
        self,
        width: u32,
        height: u32,
        buffer: Option<PixelBuffer>,
    ) -> EncoderModel {
        match buffer {
            Some(b) => if width == 0 || height == 0 {
                self
            } else {
                let target = Size {
                    width: Scalar::of_u32(width),
                    height: Scalar::of_u32(height),
                };
                self.with_pixmap(
                    b.four_channels(),
                    b.width,
                    b.height,
                    target.magnified(self.scale_factor),
                )
            },
            None => self,
        }
    }

    /// After a pixmap that a custom widget painted.
    pub open spec fn with_own_pixmap(self, pixmap: Option<(u32, u32, Seq<u8>)>) -> EncoderModel {
        match pixmap {
            Some((w, h, pixels)) => self.with_pixmap(
                pixels,
                w,
                h,
                Size { width: Scalar::of_u32(w), height: Scalar::of_u32(h) },
            ),
            None => self,
        }
    }

    /// After the background of the window.
    pub open spec fn with_backdrop(self, background: WindowBackground) -> EncoderModel {
        match background {
            WindowBackground::Solid(color) => self.backed(color),
            WindowBackground::Brush(Some(b)) => self.emit(
                CommandModel::FillRect {
                    rect: self.whole_viewport(),
                    paint: b.paint(),
                    anti_alias: false,
                },
            ),
            WindowBackground::Brush(None) => self,
        }
    }

    /// After a rectangle with a border.
    pub open spec fn with_border_rectangle(
        self,
        layout: Option<BorderLayout>,
        background: Option<ResolvedBrush>,
        border: Option<ResolvedBrush>,
    ) -> EncoderModel {
        match layout {
            Some(l) => self.with_border_fill(l, background).with_border_stroke(l, border),
            None => self,
        }
    }

    /// After a run of glyphs.
    pub open spec fn with_glyph_run(
        self,
        font: crate::scene::FontModel,
        font_size: Scalar,
        normalized_coords: Seq<i16>,
        brush: GlyphBrush,
        y_offset: Scalar,
        glyphs: Seq<LayoutGlyph>,
    ) -> EncoderModel {
        self.with_font(font.blob_id, font.font_index, font.data).emit(
            CommandModel::DrawGlyphRun {
                font_blob_id: font.blob_id,
                font_index: font.font_index,
                font_size,
                normalized_coords,
                paint: brush.paint(),
                y_offset,
                glyphs: positioned(glyphs),
                is_stroke: brush is Stroke,
            },
        )
    }

    /// After a rectangle that belongs to text.
    pub open spec fn with_text_rectangle(
        self,
        rect: PhysicalRect,
        brush: GlyphBrush,
        radius: Scalar,
        border: Option<(GlyphBrush, Scalar)>,
    ) -> EncoderModel {
        self.emit(
            CommandModel::FillTextRect {
                rect,
                paint: brush.paint(),
                radius,
                border: match border {
                    Some((b, width)) => Some((b.paint(), width)),
                    None => None,
                },
            },
        )
    }

    /// After a path: its fill, its stroke, both inside a translation where the
    /// path is offset.
    pub open spec fn with_path(
        self,
        path: FittedPath,
        fill: Option<ResolvedBrush>,
        stroke: Option<ResolvedBrush>,
        style: PathStyle,
    ) -> EncoderModel {
        let sf = self.scale_factor;
        let events = path_events(path.events@, sf);
        let zero = Scalar { bits: 0 };
        let offset = path.offset.magnified(sf);
        let shifted = !offset.x.same_number(zero) || !offset.y.same_number(zero);
        let before = if shifted {
            self.emit(CommandModel::Save).emit(CommandModel::Translate(offset.x, offset.y))
        } else {
            self
        };
        let filled = match fill {
            Some(b) => before.emit(
                CommandModel::FillPath {
                    path: events,
                    paint: b.paint(),
                    fill_rule: if style.even_odd {
                        1
                    } else {
                        0
                    },
                    anti_alias: style.anti_alias,
                },
            ),
            None => before,
        };
        let stroked = match stroke {
            Some(b) => filled.emit(
                CommandModel::StrokePath {
                    path: events,
                    paint: b.paint(),
                    line_width: style.stroke_width.product(sf),
                    line_cap: carried_cap(style.line_cap),
                    line_join: carried_join(style.line_join),
                    miter_limit: style.miter_limit,
                    anti_alias: style.anti_alias,
                },
            ),
            None => filled,
        };
        if shifted {
            stroked.emit(CommandModel::Restore)
        } else {
            stroked
        }
    }

    /// After a box shadow.  Inset shadows, and shadows that neither blur nor
    /// move, add nothing.
    pub open spec fn with_shadow(
        self,
        options: Option<ShadowOptions>,
        offset: LogicalVector,
    ) -> EncoderModel {
        let o = offset.magnified(self.scale_factor);
        match options {
            Some(s) => if s.inset || (s.blur.zero_valued() && o.x.zero_valued()
                && o.y.zero_valued()) {
                self
            } else {
                self.emit(
                    CommandModel::DrawBoxShadow {
                        color: s.color,
                        blur: s.blur,
                        offset_x: o.x,
                        offset_y: o.y,
                        width: s.width,
                        height: s.height,
                        radius: s.radius,
                    },
                )
            },
            None => self,
        }
    }
}

/// What a texture of its own and a blit of it keep.
pub proof fn lemma_pixmap(
    m: EncoderModel,
    pixels: Seq<u8>,
    width: u32,
    height: u32,
    size: PhysicalSize,
)
    ensures
        m.sound() ==> m.with_pixmap(pixels, width, height, size).sound(),
        m.keys_fresh() && m.next_key < u64::MAX ==> m.with_pixmap(
            pixels,
            width,
            height,
            size,
        ).keys_fresh(),
{
    let key = m.next_key;
    let upload = CommandModel::UploadPixmap { key, pixels, width, height };
    let blit = CommandModel::BlitPixmap { key, params: blit_params(size, width, height) };
    let a = m.emit(upload);
    let b = a.emit(blit);
    let n = m.with_pixmap(pixels, width, height, size);
    crate::encoder::lemma_emit(m, upload);
    crate::encoder::lemma_emit(a, blit);
    crate::encoder::lemma_still_uses_font(a, blit);
    assert(n.commands == b.commands);
    let len = m.commands.len() as int;
    assert(a.commands[len] == upload);
    assert(n.commands[len] == upload && n.commands[len + 1] == blit);
    assert forall|i: int| 0 <= i < len implies #[trigger] n.commands[i] == m.commands[i] by {}
    if m.sound() {
        assert forall|i: int| 0 <= i < n.commands.len() implies match #[trigger] n.commands[i] {
            CommandModel::BlitPixmap { key, .. } => {
                exists|j: int|
                    0 <= j < i && crate::encoder::uploads(#[trigger] n.commands[j], key)
            },
            _ => true,
        } by {
            if i < len {
                if let CommandModel::BlitPixmap { key, .. } = m.commands[i] {
                    let j = choose|j: int|
                        0 <= j < i && crate::encoder::uploads(#[trigger] m.commands[j], key);
                    assert(crate::encoder::uploads(n.commands[j], key));
                }
            } else {
                assert(crate::encoder::uploads(n.commands[len], key));
            }
        }
        assert(n.runs_have_fonts());
        assert(n.fonts_distinct());
        assert(n.fonts_used());
    }
    if m.keys_fresh() && m.next_key < u64::MAX {
        assert forall|i: int, k: u64|
            0 <= i < n.commands.len() && #[trigger] crate::encoder::uploads(
                n.commands[i],
                k,
            ) implies k < n.next_key by {
            if i < len {
                assert(crate::encoder::uploads(m.commands[i], k));
            }
        }
        assert forall|i: int, j: int, k: u64|
            0 <= i < j < n.commands.len() && #[trigger] crate::encoder::uploads(
                n.commands[i],
                k,
            ) implies !(#[trigger] crate::encoder::uploads(n.commands[j], k)) by {
            if j < len {
                assert(crate::encoder::uploads(m.commands[i], k));
                assert(!crate::encoder::uploads(m.commands[j], k));
            } else if i < len {
                assert(crate::encoder::uploads(m.commands[i], k));
            }
        }
    }
}

/// A path leaves the depth of the stack as it was.
pub proof fn lemma_path(
    m: EncoderModel,
    path: FittedPath,
    fill: Option<ResolvedBrush>,
    stroke: Option<ResolvedBrush>,
    style: PathStyle,
)
    ensures
        m.sound() ==> m.with_path(path, fill, stroke, style).sound(),
        m.keys_fresh() ==> m.with_path(path, fill, stroke, style).keys_fresh(),
{
    let sf = m.scale_factor;
    let events = path_events(path.events@, sf);
    let zero = Scalar { bits: 0 };
    let offset = path.offset.magnified(sf);
    let shifted = !offset.x.same_number(zero) || !offset.y.same_number(zero);
    let translate = CommandModel::Translate(offset.x, offset.y);
    crate::encoder::lemma_emit(m, CommandModel::Save);
    crate::encoder::lemma_emit(m.emit(CommandModel::Save), translate);
    let before = if shifted {
        m.emit(CommandModel::Save).emit(translate)
    } else {
        m
    };
    let filled = match fill {
        Some(b) => {
            let c = CommandModel::FillPath {
                path: events,
                paint: b.paint(),
                fill_rule: if style.even_odd {
                    1
                } else {
                    0
                },
                anti_alias: style.anti_alias,
            };
            crate::encoder::lemma_emit(before, c);
            before.emit(c)
        },
        None => before,
    };
    let stroked = match stroke {
        Some(b) => {
            let c = CommandModel::StrokePath {
                path: events,
                paint: b.paint(),
                line_width: style.stroke_width.product(sf),
                line_cap: carried_cap(style.line_cap),
                line_join: carried_join(style.line_join),
                miter_limit: style.miter_limit,
                anti_alias: style.anti_alias,
            };
            crate::encoder::lemma_emit(filled, c);
            filled.emit(c)
        },
        None => filled,
    };
    crate::encoder::lemma_emit(stroked, CommandModel::Restore);
}

/// What a glyph run with its font keeps.
pub proof fn lemma_glyph_run(
    m: EncoderModel,
    blob_id: u64,
    font_index: u32,
    data: Seq<u8>,
    c: CommandModel,
)
    requires
        c matches CommandModel::DrawGlyphRun { font_blob_id: b, font_index: f, .. } && b == blob_id
            && f == font_index,
    ensures
        m.sound() ==> m.with_font(blob_id, font_index, data).emit(c).sound(),
        m.keys_fresh() ==> m.with_font(blob_id, font_index, data).emit(c).keys_fresh(),
{
    let w = m.with_font(blob_id, font_index, data);
    let n = w.emit(c);
    crate::encoder::lemma_emit(w, c);
    crate::encoder::lemma_still_uses_font(w, c);
    let len = m.commands.len() as int;
    assert(n.commands[len] == c);
    assert forall|i: int| 0 <= i < len implies #[trigger] n.commands[i] == m.commands[i] by {}
    assert(crate::encoder::has_font(w.fonts, blob_id, font_index)) by {
        if !crate::encoder::has_font(m.fonts, blob_id, font_index) {
            let at = m.fonts.len() as int;
            assert(w.fonts[at].blob_id == blob_id && w.fonts[at].font_index == font_index);
        }
    }
    if m.sound() {
        assert forall|b: u64, f: u32| crate::encoder::has_font(m.fonts, b, f) implies
            #[trigger] crate::encoder::has_font(w.fonts, b, f) by {
            let j = choose|j: int|
                0 <= j < m.fonts.len() && (#[trigger] m.fonts[j]).blob_id == b
                    && m.fonts[j].font_index == f;
            assert(w.fonts[j] == m.fonts[j]);
        }
        assert forall|i: int| 0 <= i < n.commands.len() implies match #[trigger] n.commands[i] {
            CommandModel::BlitPixmap { key, .. } => {
                exists|j: int|
                    0 <= j < i && crate::encoder::uploads(#[trigger] n.commands[j], key)
            },
            _ => true,
        } by {
            if i < len {
                if let CommandModel::BlitPixmap { key, .. } = m.commands[i] {
                    let j = choose|j: int|
                        0 <= j < i && crate::encoder::uploads(#[trigger] m.commands[j], key);
                    assert(crate::encoder::uploads(n.commands[j], key));
                }
            }
        }
        assert(n.fonts_distinct());
        assert(n.runs_have_fonts());
        assert(crate::encoder::uses_font(n.commands, blob_id, font_index)) by {
            assert(crate::encoder::names_font(n.commands[len], blob_id, font_index));
        }
        assert(n.fonts_used());
    }
}

impl SnapshotEncoder {
    /// Draw a filled rectangle.
    pub fn draw_rectangle(&mut self, brush: &Option<ResolvedBrush>, size: LogicalSize)
        ensures
            final(self)@ == old(self)@.with_rectangle(*brush, size),
            old(self)@.sound() ==> final(self)@.sound(),
            old(self)@.keys_fresh() ==> final(self)@.keys_fresh(),
    {
        let phys_size: PhysicalSize = self.phys_rect(size);
        if phys_size.is_empty() {
            return;
        }
        match brush_to_paint_desc(brush) {
            Some(paint) => {
                self.push(
                    DrawCommand::FillRect {
                        rect: Rect::from_size(phys_size),
                        paint,
                        anti_alias: false,
                    },
                );
                proof {
                    crate::encoder::lemma_emit(old(self)@, self@.commands.last());
                }
            },
            None => {},
        }
    }

    /// Draw a rectangle with a border; nothing without a layout.
    pub fn draw_border_rectangle(
        &mut self,
        layout: &Option<BorderLayout>,
        background: &Option<ResolvedBrush>,
        border: &Option<ResolvedBrush>,
    )
        ensures
            final(self)@ == old(self)@.with_border_rectangle(*layout, *background, *border),
            final(self)@ == match *layout {
                Some(l) => old(self)@.with_border_fill(l, *background).with_border_stroke(
                    l,
                    *border,
                ),
                None => old(self)@,
            },
            old(self)@.sound() ==> final(self)@.sound(),
            old(self)@.keys_fresh() ==> final(self)@.keys_fresh(),
    {
        let layout: BorderLayout = match layout {
            Some(l) => *l,
            None => {
                return;
            },
        };
        if let Some(paint) = brush_to_paint_desc(background) {
            self.push(
                DrawCommand::FillRoundedRect {
                    rect: layout.background_rect,
                    paint,
                    radius: layout.background_radius,
                    anti_alias: true,
                },
            );
            proof {
                crate::encoder::lemma_emit(old(self)@, self@.commands.last());
            }
        }
        let ghost filled = self@;
        if layout.border_width.is_positive() {
            if let Some(paint) = brush_to_paint_desc(border) {
                self.push(
                    DrawCommand::StrokeRoundedRect {
                        rect: layout.border_rect,
                        paint,
                        radius: layout.border_radius,
                        line_width: layout.border_width,
                        anti_alias: true,
                    },
                );
                proof {
                    crate::encoder::lemma_emit(filled, self@.commands.last());
                }
            }
        }
    }

    /// The window's own background is drawn before the walk of the items.
    pub fn draw_window_background(&mut self)
        ensures
            final(self)@ == old(self)@,
    {
    }

    /// Back the window: one colour is cleared, any other brush fills the whole
    /// viewport.
    pub fn encode_window_background(&mut self, background: &WindowBackground)
        ensures
            final(self)@ == old(self)@.with_backdrop(*background),
            final(self)@ == match *background {
                WindowBackground::Solid(color) => EncoderModel {
                    background: Some(color.channels()),
                    ..old(self)@
                },
                WindowBackground::Brush(Some(b)) => old(self)@.emit(
                    CommandModel::FillRect {
                        rect: old(self)@.whole_viewport(),
                        paint: b.paint(),
                        anti_alias: false,
                    },
                ),
                WindowBackground::Brush(None) => old(self)@,
            },
            old(self)@.sound() ==> final(self)@.sound(),
            old(self)@.keys_fresh() ==> final(self)@.keys_fresh(),
    {
        match background {
            WindowBackground::Solid(color) => {
                self.set_background(*color);
            },
            WindowBackground::Brush(brush) => {
                let rect: PhysicalRect = Rect::from_size(self.viewport());
                if let Some(paint) = brush_to_paint_desc(brush) {
                    self.push(DrawCommand::FillRect { rect, paint, anti_alias: false });
                    proof {
                        crate::encoder::lemma_emit(old(self)@, self@.commands.last());
                    }
                }
            },
        }
    }

    /// The size that a scalable image is rendered at, in physical pixels; `None`
    /// for an image of fixed size.
    pub fn scalable_target_size(&self, is_svg: bool, size: LogicalSize) -> (r: Option<(u32, u32)>)
        requires
            is_svg ==> cuts_to_u32(size.magnified(self@.scale_factor).width) && cuts_to_u32(
                size.magnified(self@.scale_factor).height,
            ),
        ensures
            r is Some <==> is_svg,
            r matches Some((w, h)) ==> w == size.magnified(self@.scale_factor).width.whole_u32()
                && h == size.magnified(self@.scale_factor).height.whole_u32(),
            r matches Some((w, h)) ==> w == size.width.product(self@.scale_factor).whole_u32()
                && h == size.height.product(self@.scale_factor).whole_u32(),
    {
        if is_svg {
            let phys: PhysicalSize = self.phys_rect(size);
            Some((phys.width.to_u32(), phys.height.to_u32()))
        } else {
            None
        }
    }

    fn push_pixmap(&mut self, pixels: Vec<u8>, width: u32, height: u32, size: PhysicalSize)
        ensures
            final(self)@ == old(self)@.with_pixmap(pixels@, width, height, size),
    {
        let key: u64 = self.alloc_key();
        let zero: Scalar = Scalar { bits: 0 };
        let params: [Scalar; 9] = [
            zero,
            zero,
            size.width,
            size.height,
            zero,
            zero,
            Scalar::from_u32(width),
            Scalar::from_u32(height),
            zero,
        ];
        self.push(DrawCommand::UploadPixmap { key, pixels, width, height });
        self.push(DrawCommand::BlitPixmap { key, params });
        proof {
            assert(params@ =~= blit_params(size, width, height));
        }
    }

    /// Draw an image item of the given size: its pixels as a texture, and its
    /// control region where it lies on the screen.  Nothing for a size that is zero or
    /// below, or without pixels.
    pub fn draw_image(&mut self, size: LogicalSize, buffer: &Option<PixelBuffer>, id: u64)
        requires
            *buffer matches Some(b) ==> b.complete(),
        ensures
            final(self)@ == old(self)@.with_image(size, *buffer, id),
            final(self)@ == match *buffer {
                Some(b) => if size.width.at_most(Scalar { bits: 0 }) || size.height.at_most(
                    Scalar { bits: 0 },
                ) {
                    old(self)@
                } else {
                    EncoderModel {
                        controls: old(self)@.controls.push(
                            ControlRegion { id, geometry: old(self)@.transform().region(size) },
                        ),
                        ..old(self)@.with_pixmap(
                            b.four_channels(),
                            b.width,
                            b.height,
                            size.magnified(old(self)@.scale_factor),
                        )
                    }
                },
                None => old(self)@,
            },
            old(self)@.sound() ==> final(self)@.sound(),
            old(self)@.keys_fresh() && old(self)@.next_key < u64::MAX
                ==> final(self)@.keys_fresh(),
    {
        let zero: Scalar = Scalar { bits: 0 };
        if size.width.less_or_equal(zero) || size.height.less_or_equal(zero) {
            return;
        }
        match buffer {
            Some(b) => {
                let phys_size: PhysicalSize = self.phys_rect(size);
                let rgba: Vec<u8> = b.to_rgba();
                self.push_pixmap(rgba, b.width, b.height, phys_size);
                let ghost drawn = self@;
                let geometry: Rect = self.on_screen(size);
                self.push_control(ControlRegion { id, geometry });
                proof {
                    lemma_pixmap(old(self)@, rgba@, b.width, b.height, phys_size);
                    lemma_controls(drawn, self@);
                }
            },
            None => {},
        }
    }

    /// Draw an image without an item, at its own size.
    pub fn draw_image_direct(&mut self, width: u32, height: u32, buffer: &Option<PixelBuffer>)
        requires
            *buffer matches Some(b) ==> b.complete(),
        ensures
            final(self)@ == old(self)@.with_direct_image(width, height, *buffer),
            final(self)@ == match *buffer {
                Some(b) => if width == 0 || height == 0 {
                    old(self)@
                } else {
                    let target = Size {
                        width: Scalar::of_u32(width),
                        height: Scalar::of_u32(height),
                    };
                    old(self)@.with_pixmap(
                        b.four_channels(),
                        b.width,
                        b.height,
                        target.magnified(old(self)@.scale_factor),
                    )
                },
                None => old(self)@,
            },
            old(self)@.sound() ==> final(self)@.sound(),
            old(self)@.keys_fresh() && old(self)@.next_key < u64::MAX
                ==> final(self)@.keys_fresh(),
    {
        if width == 0 || height == 0 {
            return;
        }
        let target: LogicalSize = Size {
            width: Scalar::from_u32(width),
            height: Scalar::from_u32(height),
        };
        match buffer {
            Some(b) => {
                let phys: PhysicalSize = self.phys_rect(target);
                let rgba: Vec<u8> = b.to_rgba();
                self.push_pixmap(rgba, b.width, b.height, phys);
                proof {
                    lemma_pixmap(old(self)@, rgba@, b.width, b.height, phys);
                }
            },
            None => {},
        }
    }

    /// Draw a pixmap that a custom widget painted, at its own size.
    pub fn draw_cached_pixmap(&mut self, pixmap: Option<(u32, u32, Vec<u8>)>)
        ensures
            final(self)@ == old(self)@.with_own_pixmap(
                match pixmap {
                    Some((w, h, pixels)) => Some((w, h, pixels@)),
                    None => None,
                },
            ),
            final(self)@ == match pixmap {
                Some((w, h, pixels)) => old(self)@.with_pixmap(
                    pixels@,
                    w,
                    h,
                    Size { width: Scalar::of_u32(w), height: Scalar::of_u32(h) },
                ),
                None => old(self)@,
            },
            old(self)@.sound() ==> final(self)@.sound(),
            old(self)@.keys_fresh() && old(self)@.next_key < u64::MAX
                ==> final(self)@.keys_fresh(),
    {
        match pixmap {
            Some((w, h, pixels)) => {
                let size: PhysicalSize = Size {
                    width: Scalar::from_u32(w),
                    height: Scalar::from_u32(h),
                };
                self.push_pixmap(pixels, w, h, size);
                proof {
                    lemma_pixmap(old(self)@, pixels@, w, h, size);
                }
            },
            None => {},
        }
    }

    /// Draw a path fitted into its item; nothing where none fits.
    pub fn draw_path(
        &mut self,
        path: &Option<FittedPath>,
        fill: &Option<ResolvedBrush>,
        stroke: &Option<ResolvedBrush>,
        style: PathStyle,
    )
        ensures
            final(self)@ == match *path {
                Some(p) => old(self)@.with_path(p, *fill, *stroke, style),
                None => old(self)@,
            },
            old(self)@.sound() ==> final(self)@.sound(),
            old(self)@.keys_fresh() ==> final(self)@.keys_fresh(),
    {
        let path: &FittedPath = match path {
            Some(p) => p,
            None => {
                return;
            },
        };
        let sf: Scalar = self.scale_factor();
        let events: Vec<PathEvent> = physical_path(&path.events, sf);
        let offset: Vector = path.offset.scaled(sf);
        let zero: Scalar = Scalar { bits: 0 };
        let shifted: bool = !offset.x.equals(zero) || !offset.y.equals(zero);
        if shifted {
            self.push(DrawCommand::Save);
            self.push(DrawCommand::Translate(offset.x, offset.y));
        }
        if let Some(paint) = brush_to_paint_desc(fill) {
            self.push(
                DrawCommand::FillPath {
                    path: crate::scene_clone::copy_vec(&events),
                    paint,
                    fill_rule: if style.even_odd {
                        1
                    } else {
                        0
                    },
                    anti_alias: style.anti_alias,
                },
            );
        }
        if let Some(paint) = brush_to_paint_desc(stroke) {
            self.push(
                DrawCommand::StrokePath {
                    path: events,
                    paint,
                    line_width: style.stroke_width.times(sf),
                    line_cap: femtovg_line_cap(style.line_cap),
                    line_join: femtovg_line_join(style.line_join),
                    miter_limit: style.miter_limit,
                    anti_alias: style.anti_alias,
                },
            );
        }
        if shifted {
            self.push(DrawCommand::Restore);
        }
        proof {
            lemma_path(old(self)@, *path, *fill, *stroke, style);
        }
    }

    /// Draw a box shadow; `offset` is in logical pixels.
    pub fn draw_box_shadow(&mut self, options: &Option<ShadowOptions>, offset: LogicalVector)
        ensures
            final(self)@ == old(self)@.with_shadow(*options, offset),
            old(self)@.sound() ==> final(self)@.sound(),
            old(self)@.keys_fresh() ==> final(self)@.keys_fresh(),
    {
        let options: ShadowOptions = match options {
            Some(o) => *o,
            None => {
                return;
            },
        };
        if options.inset {
            return;
        }
        let o: Vector = offset.scaled(self.scale_factor());
        if options.blur.is_zero() && o.x.is_zero() && o.y.is_zero() {
            return;
        }
        self.push(
            DrawCommand::DrawBoxShadow {
                color: options.color,
                blur: options.blur,
                offset_x: o.x,
                offset_y: o.y,
                width: options.width,
                height: options.height,
                radius: options.radius,
            },
        );
        proof {
            crate::encoder::lemma_emit(old(self)@, self@.commands.last());
        }
    }

    /// The brush that fills text; `None` when it is transparent.
    pub fn platform_text_fill_brush(&mut self, brush: &Option<ResolvedBrush>) -> (r: Option<
        GlyphBrush,
    >)
        ensures
            final(self)@ == old(self)@,
            r is Some <==> *brush is Some,
            r matches Some(b) ==> b is Fill && b.paint() == (*brush)->0.paint(),
            r matches Some(b) ==> (crate::canvas::source_of(b.paint()) matches Some(look)
                && crate::drawing_laws::looks_like(look, (*brush)->0)),
    {
        proof {
            if *brush is Some {
                crate::drawing_laws::law_brush_is_painted((*brush)->0);
            }
        }
        match brush_to_paint_desc(brush) {
            Some(p) => Some(GlyphBrush::Fill(p)),
            None => None,
        }
    }

    /// The brush of one colour; `None` when it is fully transparent.
    pub fn platform_brush_for_color(&mut self, color: Color) -> (r: Option<GlyphBrush>)
        ensures
            final(self)@ == old(self)@,
            r is Some <==> color.alpha != 0,
            r matches Some(b) ==> b is Fill && b.paint() == crate::brush::solid(color),
            r matches Some(b) ==> b.paint() == (PaintModel::Solid {
                r: color.red,
                g: color.green,
                b: color.blue,
                a: color.alpha,
            }),
    {
        if color.alpha == 0 {
            None
        } else {
            Some(
                GlyphBrush::Fill(
                    PaintDesc::Solid { r: color.red, g: color.green, b: color.blue, a: color.alpha },
                ),
            )
        }
    }

    /// The brush that strokes text; `None` when it is transparent.
    pub fn platform_text_stroke_brush(&mut self, brush: &Option<ResolvedBrush>) -> (r: Option<
        GlyphBrush,
    >)
        ensures
            final(self)@ == old(self)@,
            r is Some <==> *brush is Some,
            r matches Some(b) ==> b is Stroke && b.paint() == (*brush)->0.paint(),
            r matches Some(b) ==> (crate::canvas::source_of(b.paint()) matches Some(look)
                && crate::drawing_laws::looks_like(look, (*brush)->0)),
    {
        proof {
            if *brush is Some {
                crate::drawing_laws::law_brush_is_painted((*brush)->0);
            }
        }
        match brush_to_paint_desc(brush) {
            Some(p) => Some(GlyphBrush::Stroke(p)),
            None => None,
        }
    }

    /// Draw a run of glyphs; its font travels with the frame once.
    pub fn draw_glyph_run(
        &mut self,
        font: &crate::scene::SceneFont,
        font_size: Scalar,
        normalized_coords: &Vec<i16>,
        brush: GlyphBrush,
        y_offset: Scalar,
        glyphs: &Vec<LayoutGlyph>,
    )
        ensures
            final(self)@ == old(self)@.with_glyph_run(
                font@,
                font_size,
                normalized_coords@,
                brush,
                y_offset,
                glyphs@,
            ),
            final(self)@ == old(self)@.with_font(font.blob_id, font.font_index, font.data@).emit(
                CommandModel::DrawGlyphRun {
                    font_blob_id: font.blob_id,
                    font_index: font.font_index,
                    font_size,
                    normalized_coords: normalized_coords@,
                    paint: brush.paint(),
                    y_offset,
                    glyphs: positioned(glyphs@),
                    is_stroke: brush is Stroke,
                },
            ),
            old(self)@.sound() ==> final(self)@.sound(),
            old(self)@.keys_fresh() ==> final(self)@.keys_fresh(),
    {
        self.require_font(font.blob_id, font.font_index, &font.data);
        let is_stroke: bool = match &brush {
            GlyphBrush::Stroke(_) => true,
            GlyphBrush::Fill(_) => false,
        };
        let paint: PaintDesc = brush.into_paint();
        self.push(
            DrawCommand::DrawGlyphRun {
                font_blob_id: font.blob_id,
                font_index: font.font_index,
                font_size,
                normalized_coords: crate::scene_clone::copy_vec(normalized_coords),
                paint,
                y_offset,
                glyphs: position_glyphs(glyphs),
                is_stroke,
            },
        );
        proof {
            lemma_glyph_run(
                old(self)@,
                font.blob_id,
                font.font_index,
                font.data@,
                self@.commands.last(),
            );
        }
    }

    /// Fill a rectangle that belongs to text.
    pub fn fill_rectangle(
        &mut self,
        physical_rect: PhysicalRect,
        brush: GlyphBrush,
        radius: Scalar,
        border: Option<(GlyphBrush, Scalar)>,
    )
        ensures
            final(self)@ == old(self)@.with_text_rectangle(physical_rect, brush, radius, border),
            final(self)@ == old(self)@.emit(
                CommandModel::FillTextRect {
                    rect: physical_rect,
                    paint: brush.paint(),
                    radius,
                    border: match border {
                        Some((b, width)) => Some((b.paint(), width)),
                        None => None,
                    },
                },
            ),
            old(self)@.sound() ==> final(self)@.sound(),
            old(self)@.keys_fresh() ==> final(self)@.keys_fresh(),
    {
        let paint: PaintDesc = brush.into_paint();
        let border: Option<(PaintDesc, Scalar)> = match border {
            Some((b, width)) => Some((b.into_paint(), width)),
            None => None,
        };
        self.push(DrawCommand::FillTextRect { rect: physical_rect, paint, radius, border });
        proof {
            crate::encoder::lemma_emit(old(self)@, self@.commands.last());
        }
    }
}

/// The control regions are not part of what a frame refers to.
proof fn lemma_controls(m: EncoderModel, n: EncoderModel)
    requires
        n == (EncoderModel { controls: n.controls, ..m }),
    ensures
        m.sound() ==> n.sound(),
        m.keys_fresh() ==> n.keys_fresh(),
{
}

} // verus!
