use dualslint::brush::{
    brush_to_paint_desc, femtovg_line_cap, femtovg_line_join, LineCap, LineJoin, ResolvedBrush,
    ResolvedStop,
};
use dualslint::encoder::{rotated_bounds, RenderingResult, SnapshotEncoder};
use dualslint::encoder_draw::{
    BorderLayout, FittedEvent, FittedPath, GlyphBrush, LayoutGlyph, PathStyle, PixelBuffer,
    PixelFormat, ShadowOptions, WindowBackground,
};
use dualslint::geometry::{BorderRadius, Point, Rect, Size, Vector};
use dualslint::ids::item_rc_as_id;
use dualslint::scalar::Scalar;
use dualslint::scene::{
    Color, ControlRegion, DrawCommand, LineCapDesc, LineJoinDesc, PaintDesc, PathEvent, SceneFont,
};
use std::hash::{Hash, Hasher};

fn sc(v: f32) -> Scalar {
    Scalar { bits: v.to_bits() }
}

fn fl(s: Scalar) -> f32 {
    f32::from_bits(s.bits)
}

fn pt(x: f32, y: f32) -> Point {
    Point { x: sc(x), y: sc(y) }
}

fn size(w: f32, h: f32) -> Size {
    Size { width: sc(w), height: sc(h) }
}

fn rect(x: f32, y: f32, w: f32, h: f32) -> Rect {
    Rect { origin: pt(x, y), size: size(w, h) }
}

fn square() -> BorderRadius {
    BorderRadius { top_left: sc(0.0), top_right: sc(0.0), bottom_right: sc(0.0), bottom_left: sc(0.0) }
}

const RED: Color = Color { red: 255, green: 0, blue: 0, alpha: 255 };

fn red() -> Option<ResolvedBrush> {
    Some(ResolvedBrush::SolidColor(RED))
}

fn is_red(p: &PaintDesc) -> bool {
    matches!(p, PaintDesc::Solid { r: 255, g: 0, b: 0, a: 255 })
}

fn encoder() -> SnapshotEncoder {
    SnapshotEncoder::new(800, 600, sc(2.0))
}

#[test]
fn a_new_encoder_shows_the_whole_window() {
    let e = encoder();
    assert_eq!(e.get_current_clip(), rect(0.0, 0.0, 400.0, 300.0));
    assert!(!e.global_alpha_transparent());
    assert_eq!(e.scale_factor(), sc(2.0));
    assert_eq!(e.window_size(), size(400.0, 300.0));
    let frame = e.finish();
    assert_eq!((frame.width, frame.height), (800, 600));
    assert_eq!(frame.scale_factor, sc(2.0));
    assert!(frame.background.is_none());
    assert!(frame.fonts.is_empty() && frame.commands.is_empty() && frame.controls.is_empty());
}

#[test]
fn rectangles_are_filled_in_physical_pixels() {
    let mut e = encoder();
    e.draw_rectangle(&red(), size(10.0, 20.0));
    e.draw_rectangle(&red(), size(0.0, 20.0));
    e.draw_rectangle(&None, size(10.0, 20.0));
    let frame = e.finish();
    assert_eq!(frame.commands.len(), 1);
    match &frame.commands[0] {
        DrawCommand::FillRect { rect: r, paint, anti_alias } => {
            assert_eq!(*r, rect(0.0, 0.0, 20.0, 40.0));
            assert!(is_red(paint));
            assert!(!anti_alias);
        }
        other => panic!("{other:?}"),
    }
}

#[test]
fn border_rectangles_are_filled_and_stroked() {
    let layout = BorderLayout {
        background_rect: rect(0.0, 0.0, 20.0, 20.0),
        background_radius: square(),
        border_rect: rect(1.0, 1.0, 18.0, 18.0),
        border_radius: square(),
        border_width: sc(2.0),
    };
    let mut e = encoder();
    e.draw_border_rectangle(&Some(layout), &red(), &red());
    e.draw_border_rectangle(&Some(layout), &None, &red());
    e.draw_border_rectangle(&Some(BorderLayout { border_width: sc(0.0), ..layout }), &red(), &red());
    e.draw_border_rectangle(&None, &red(), &red());
    e.draw_window_background();
    let frame = e.finish();
    assert_eq!(frame.commands.len(), 4);
    assert!(matches!(
        &frame.commands[0],
        DrawCommand::FillRoundedRect { rect: r, anti_alias: true, .. } if *r == layout.background_rect
    ));
    assert!(matches!(
        &frame.commands[1],
        DrawCommand::StrokeRoundedRect { rect: r, line_width, anti_alias: true, .. }
            if *r == layout.border_rect && fl(*line_width) == 2.0
    ));
    assert!(matches!(&frame.commands[2], DrawCommand::StrokeRoundedRect { .. }));
    assert!(matches!(&frame.commands[3], DrawCommand::FillRoundedRect { .. }));
}

#[test]
fn a_solid_window_background_is_a_clear_colour() {
    let mut e = encoder();
    e.encode_window_background(&WindowBackground::Solid(Color { red: 1, green: 2, blue: 3, alpha: 0 }));
    let frame = e.finish();
    assert_eq!(frame.background, Some([1, 2, 3, 0]));
    assert!(frame.commands.is_empty());
}

#[test]
fn any_other_window_background_fills_the_viewport() {
    let gradient = ResolvedBrush::LinearGradient {
        start: pt(0.0, 0.0),
        end: pt(0.0, 600.0),
        stops: vec![ResolvedStop { position: sc(0.5), color: RED }],
    };
    let mut e = encoder();
    e.encode_window_background(&WindowBackground::Brush(Some(gradient)));
    e.encode_window_background(&WindowBackground::Brush(None));
    let frame = e.finish();
    assert!(frame.background.is_none());
    assert_eq!(frame.commands.len(), 1);
    match &frame.commands[0] {
        DrawCommand::FillRect { rect: r, paint: PaintDesc::LinearGradient { end_y, stops, .. }, .. } => {
            assert_eq!(*r, rect(0.0, 0.0, 800.0, 600.0));
            assert_eq!(fl(*end_y), 600.0);
            assert_eq!(stops.len(), 1);
            assert_eq!(fl(stops[0].offset), 0.5);
            assert_eq!(stops[0].color, [255, 0, 0, 255]);
        }
        other => panic!("{other:?}"),
    }
}

#[test]
fn brushes_become_paints() {
    assert!(brush_to_paint_desc(&None).is_none());
    let conic = Some(ResolvedBrush::ConicGradient {
        center: pt(1.0, 1.0),
        stops: vec![ResolvedStop { position: sc(0.0), color: RED }],
    });
    assert!(is_red(&brush_to_paint_desc(&conic).unwrap()));
    let bare = Some(ResolvedBrush::ConicGradient { center: pt(1.0, 1.0), stops: vec![] });
    assert!(matches!(
        brush_to_paint_desc(&bare),
        Some(PaintDesc::Solid { r: 0, g: 0, b: 0, a: 0 })
    ));
    let radial = Some(ResolvedBrush::RadialGradient {
        center: pt(3.0, 4.0),
        radius: sc(5.0),
        stops: vec![],
    });
    match brush_to_paint_desc(&radial) {
        Some(PaintDesc::RadialGradient { cx, cy, radius, .. }) => {
            assert_eq!((fl(cx), fl(cy), fl(radius)), (3.0, 4.0, 5.0));
        }
        other => panic!("{other:?}"),
    }
    assert_eq!(femtovg_line_cap(LineCap::Round), LineCapDesc::Round);
    assert_eq!(femtovg_line_cap(LineCap::Square), LineCapDesc::Square);
    assert_eq!(femtovg_line_cap(LineCap::Butt), LineCapDesc::Butt);
    assert_eq!(femtovg_line_cap(LineCap::Other), LineCapDesc::Butt);
    assert_eq!(femtovg_line_join(LineJoin::Round), LineJoinDesc::Round);
    assert_eq!(femtovg_line_join(LineJoin::Bevel), LineJoinDesc::Bevel);
    assert_eq!(femtovg_line_join(LineJoin::Miter), LineJoinDesc::Miter);
    assert_eq!(femtovg_line_join(LineJoin::Other), LineJoinDesc::Miter);
}

fn buffer(format: PixelFormat, pixels: Vec<u8>) -> Option<PixelBuffer> {
    Some(PixelBuffer { format, width: 2, height: 1, pixels })
}

#[test]
fn images_are_uploaded_and_blitted() {
    let mut e = encoder();
    e.draw_image(size(10.0, 5.0), &buffer(PixelFormat::Rgb8, vec![1, 2, 3, 4, 5, 6]), 99);
    e.draw_image(size(0.0, 5.0), &buffer(PixelFormat::Rgb8, vec![1, 2, 3, 4, 5, 6]), 100);
    e.draw_image(size(10.0, 5.0), &None, 101);
    e.draw_image_direct(2, 1, &buffer(PixelFormat::Rgba8, vec![9, 8, 7, 6, 5, 4, 3, 2]));
    e.draw_image_direct(0, 1, &buffer(PixelFormat::Rgba8, vec![9, 8, 7, 6, 5, 4, 3, 2]));
    e.draw_cached_pixmap(Some((2, 1, vec![0; 8])));
    e.draw_cached_pixmap(None);
    let frame = e.finish();
    assert_eq!(frame.commands.len(), 6);
    match (&frame.commands[0], &frame.commands[1]) {
        (
            DrawCommand::UploadPixmap { key, pixels, width: 2, height: 1 },
            DrawCommand::BlitPixmap { key: drawn, params },
        ) => {
            assert_eq!((*key, *drawn), (1, 1));
            assert_eq!(*pixels, vec![1, 2, 3, 255, 4, 5, 6, 255]);
            let p: Vec<f32> = params.iter().map(|s| fl(*s)).collect();
            assert_eq!(p, vec![0.0, 0.0, 20.0, 10.0, 0.0, 0.0, 2.0, 1.0, 0.0]);
        }
        other => panic!("{other:?}"),
    }
    match (&frame.commands[2], &frame.commands[3]) {
        (
            DrawCommand::UploadPixmap { key: 2, pixels, .. },
            DrawCommand::BlitPixmap { key: 2, params },
        ) => {
            assert_eq!(*pixels, vec![9, 8, 7, 6, 5, 4, 3, 2]);
            assert_eq!((fl(params[2]), fl(params[3])), (4.0, 2.0));
        }
        other => panic!("{other:?}"),
    }
    match (&frame.commands[4], &frame.commands[5]) {
        (
            DrawCommand::UploadPixmap { key: 3, .. },
            DrawCommand::BlitPixmap { key: 3, params },
        ) => assert_eq!((fl(params[2]), fl(params[3])), (2.0, 1.0)),
        other => panic!("{other:?}"),
    }
    assert_eq!(frame.controls.len(), 1);
    assert_eq!(frame.controls[0].id, 99);
    assert_eq!(frame.controls[0].geometry, rect(0.0, 0.0, 10.0, 5.0));
}

#[test]
fn the_region_of_an_image_is_where_it_lies_on_the_screen() {
    let pixels = buffer(PixelFormat::Rgb8, vec![1, 2, 3, 4, 5, 6]);
    let mut e = encoder();
    e.translate(Vector { x: sc(30.0), y: sc(40.0) });
    e.draw_image(size(10.0, 10.0), &pixels, 1);
    e.save_state();
    e.translate(Vector { x: sc(0.5), y: sc(-2.0) });
    e.draw_image(size(4.0, 3.0), &pixels, 2);
    e.scale(sc(2.0), sc(0.5));
    e.draw_image(size(4.0, 3.0), &pixels, 3);
    e.restore_state();
    e.draw_image(size(1.0, 1.0), &pixels, 4);
    // A quarter turn: the sine and cosine of the opposite angle are -1 and 0.
    e.rotate(sc(90.0), sc(-1.0), sc(0.0));
    e.draw_image(size(4.0, 3.0), &pixels, 5);
    e.restore_state();
    e.draw_image(size(4.0, 3.0), &pixels, 6);
    let regions: Vec<Rect> = e.finish().controls.iter().map(|c| c.geometry).collect();
    assert_eq!(
        regions,
        vec![
            rect(30.0, 40.0, 10.0, 10.0),
            rect(30.5, 38.0, 4.0, 3.0),
            rect(30.5, 38.0, 8.0, 1.5),
            rect(30.0, 40.0, 1.0, 1.0),
            rect(27.0, 40.0, 3.0, 4.0),
            rect(0.0, 0.0, 4.0, 3.0),
        ]
    );
}

#[test]
fn visible_items_are_recorded_once() {
    let mut e = encoder();
    let region = ControlRegion { id: 5, geometry: rect(1.0, 2.0, 3.0, 4.0) };
    assert!(e.record_visible(region, rect(1.0, 2.0, 3.0, 4.0)));
    assert!(e.is_visible(rect(1.0, 2.0, 3.0, 4.0)));
    e.combine_clip(rect(0.0, 0.0, 1.0, 1.0), square());
    assert!(!e.record_visible(region, rect(1.0, 2.0, 3.0, 4.0)));
    assert!(!e.is_visible(rect(1.0, 2.0, 3.0, 4.0)));
    let frame = e.finish();
    assert_eq!(frame.controls.len(), 1);
    assert_eq!(frame.controls[0], region);
}

#[test]
fn scalable_images_take_the_size_of_their_item() {
    let e = encoder();
    assert_eq!(e.scalable_target_size(true, size(10.4, 5.3)), Some((20, 10)));
    assert_eq!(e.scalable_target_size(false, size(10.4, 5.3)), None);
    let p = PixelBuffer { format: PixelFormat::Rgba8Premultiplied, width: 1, height: 1, pixels: vec![1, 2, 3, 4] };
    assert_eq!(p.to_rgba(), vec![1, 2, 3, 4]);
}

fn style() -> PathStyle {
    PathStyle {
        even_odd: true,
        anti_alias: true,
        stroke_width: sc(1.5),
        line_cap: LineCap::Round,
        line_join: LineJoin::Bevel,
        miter_limit: sc(4.0),
    }
}

fn path(x: f32, y: f32) -> Option<FittedPath> {
    Some(FittedPath {
        offset: Vector { x: sc(x), y: sc(y) },
        events: vec![
            FittedEvent::Begin(pt(1.0, 2.0)),
            FittedEvent::Line(pt(3.0, 4.0)),
            FittedEvent::Quadratic(pt(1.0, 1.0), pt(2.0, 2.0)),
            FittedEvent::Cubic(pt(1.0, 0.0), pt(0.0, 1.0), pt(5.0, 5.0)),
            FittedEvent::End(true),
            FittedEvent::Begin(pt(0.0, 0.0)),
            FittedEvent::End(false),
        ],
    })
}

#[test]
fn an_offset_path_is_drawn_inside_a_translation() {
    let mut e = encoder();
    e.draw_path(&path(5.0, 0.0), &red(), &red(), style());
    let frame = e.finish();
    let c = &frame.commands;
    assert_eq!(c.len(), 5);
    assert!(matches!(c[0], DrawCommand::Save));
    assert!(matches!(c[1], DrawCommand::Translate(x, y) if fl(x) == 10.0 && fl(y) == 0.0));
    match &c[2] {
        DrawCommand::FillPath { path, fill_rule: 1, anti_alias: true, .. } => {
            assert_eq!(
                *path,
                vec![
                    PathEvent::MoveTo(sc(2.0), sc(4.0)),
                    PathEvent::LineTo(sc(6.0), sc(8.0)),
                    PathEvent::QuadTo(sc(2.0), sc(2.0), sc(4.0), sc(4.0)),
                    PathEvent::CubicTo(sc(2.0), sc(0.0), sc(0.0), sc(2.0), sc(10.0), sc(10.0)),
                    PathEvent::Close,
                    PathEvent::MoveTo(sc(0.0), sc(0.0)),
                ]
            );
        }
        other => panic!("{other:?}"),
    }
    match &c[3] {
        DrawCommand::StrokePath { line_width, line_cap, line_join, miter_limit, .. } => {
            assert_eq!((fl(*line_width), fl(*miter_limit)), (3.0, 4.0));
            assert_eq!((*line_cap, *line_join), (LineCapDesc::Round, LineJoinDesc::Bevel));
        }
        other => panic!("{other:?}"),
    }
    assert!(matches!(c[4], DrawCommand::Restore));
}

#[test]
fn a_path_without_offset_is_drawn_in_place() {
    let mut e = encoder();
    e.draw_path(&path(0.0, -0.0), &red(), &None, PathStyle { even_odd: false, ..style() });
    e.draw_path(&None, &red(), &red(), style());
    let frame = e.finish();
    assert_eq!(frame.commands.len(), 1);
    assert!(matches!(&frame.commands[0], DrawCommand::FillPath { fill_rule: 0, .. }));
}

#[test]
fn shadows_that_neither_blur_nor_move_are_skipped() {
    let options = ShadowOptions {
        color: RED,
        blur: sc(0.0),
        width: sc(10.0),
        height: sc(10.0),
        radius: square(),
        inset: false,
    };
    let still = Vector { x: sc(0.0), y: sc(0.0) };
    let mut e = encoder();
    e.draw_box_shadow(&Some(options), still);
    e.draw_box_shadow(&None, Vector { x: sc(1.0), y: sc(0.0) });
    e.draw_box_shadow(&Some(ShadowOptions { inset: true, blur: sc(3.0), ..options }), still);
    e.draw_box_shadow(&Some(options), Vector { x: sc(1.0), y: sc(-2.0) });
    e.draw_box_shadow(&Some(ShadowOptions { blur: sc(3.0), ..options }), still);
    let frame = e.finish();
    assert_eq!(frame.commands.len(), 2);
    match &frame.commands[0] {
        DrawCommand::DrawBoxShadow { offset_x, offset_y, blur, .. } => {
            assert_eq!((fl(*offset_x), fl(*offset_y), fl(*blur)), (2.0, -4.0, 0.0));
        }
        other => panic!("{other:?}"),
    }
}

#[test]
fn opacity_accumulates() {
    let mut e = encoder();
    e.apply_opacity(sc(0.5));
    assert_eq!(e.visit_opacity(sc(0.25)), RenderingResult::ContinueRenderingChildren);
    assert!(!e.global_alpha_transparent());
    e.apply_opacity(sc(0.0));
    assert!(e.global_alpha_transparent());
    let frame = e.finish();
    let alphas: Vec<f32> = frame
        .commands
        .iter()
        .map(|c| match c {
            DrawCommand::SetGlobalAlpha(a) => fl(*a),
            other => panic!("{other:?}"),
        })
        .collect();
    assert_eq!(alphas, vec![0.5, 0.125, 0.0]);
}

#[test]
fn restoring_gives_back_the_saved_state() {
    let mut e = encoder();
    e.save_state();
    e.apply_opacity(sc(0.0));
    e.translate(Vector { x: sc(10.0), y: sc(20.0) });
    assert_eq!(e.get_current_clip(), rect(-10.0, -20.0, 400.0, 300.0));
    e.restore_state();
    assert_eq!(e.get_current_clip(), rect(0.0, 0.0, 400.0, 300.0));
    assert!(!e.global_alpha_transparent());
    let frame = e.finish();
    assert!(matches!(frame.commands[0], DrawCommand::Save));
    assert!(matches!(frame.commands[2], DrawCommand::Translate(x, y) if fl(x) == 20.0 && fl(y) == 40.0));
    assert!(matches!(frame.commands[3], DrawCommand::Restore));
}

#[test]
fn restoring_more_than_was_saved_is_harmless() {
    let mut e = encoder();
    e.restore_state();
    e.restore_state();
    assert_eq!(e.finish().commands.len(), 2);
}

#[test]
fn clips_shrink_the_scissor() {
    let mut e = encoder();
    assert!(e.combine_clip(rect(10.0, 10.0, 50.0, 1000.0), square()));
    assert_eq!(e.get_current_clip(), rect(10.0, 10.0, 50.0, 290.0));
    assert!(!e.combine_clip(rect(300.0, 0.0, 10.0, 10.0), square()));
    assert_eq!(e.get_current_clip(), rect(0.0, 0.0, 0.0, 0.0));
    assert!(!e.combine_clip(rect(-5.0, -5.0, 10.0, 10.0), square()));
    let frame = e.finish();
    assert_eq!(frame.commands.len(), 1);
    assert!(matches!(&frame.commands[0], DrawCommand::CombineClip(r) if *r == rect(20.0, 20.0, 100.0, 580.0)));
}

#[test]
fn clip_items_hide_what_they_do_not_show() {
    let mut e = encoder();
    let inside = rect(0.0, 0.0, 10.0, 10.0);
    let outside = rect(500.0, 0.0, 10.0, 10.0);
    assert_eq!(e.visit_clip(false, outside, square()), RenderingResult::ContinueRenderingChildren);
    assert_eq!(
        e.visit_clip(true, outside, square()),
        RenderingResult::ContinueRenderingWithoutChildren
    );
    assert_eq!(e.get_current_clip(), rect(0.0, 0.0, 400.0, 300.0));
    assert_eq!(e.visit_clip(true, inside, square()), RenderingResult::ContinueRenderingChildren);
    assert_eq!(e.get_current_clip(), inside);
    assert_eq!(e.visit_layer(true), RenderingResult::ContinueRenderingChildren);
    assert_eq!(e.visit_layer(false), RenderingResult::ContinueRenderingChildren);
    assert_eq!(e.finish().commands.len(), 1);
}

#[test]
fn rotation_turns_the_scissor_the_other_way() {
    let mut e = encoder();
    // The sine and cosine of minus ninety degrees.
    e.rotate(sc(90.0), sc(-1.0), sc(0.0));
    let clip = e.get_current_clip();
    assert_eq!((fl(clip.origin.x), fl(clip.origin.y)), (0.0, -400.0));
    assert_eq!((fl(clip.size.width), fl(clip.size.height)), (300.0, 400.0));
    let frame = e.finish();
    assert!(matches!(frame.commands[0], DrawCommand::Rotate(r) if fl(r) == 90.0f32.to_radians()));
}

#[test]
fn rotated_bounds_agree_with_the_machine() {
    for degrees in [0.0f32, 12.5, 45.0, 100.0, -30.0] {
        let r = degrees.to_radians();
        let (sin, cos) = (-r).sin_cos();
        let (x, y, w, h) = (3.0f32, -4.0f32, 10.0f32, 7.0f32);
        let turn = |px: f32, py: f32| (px * cos - py * sin, px * sin + py * cos);
        let c = [turn(x, y), turn(x + w, y), turn(x, y + h), turn(x + w, y + h)];
        let left = c.iter().fold(f32::MAX, |a, b| b.0.min(a));
        let top = c.iter().fold(f32::MAX, |a, b| b.1.min(a));
        let right = c.iter().fold(f32::MIN, |a, b| b.0.max(a));
        let bottom = c.iter().fold(f32::MIN, |a, b| b.1.max(a));
        let b = rotated_bounds(rect(x, y, w, h), sc(sin), sc(cos));
        assert_eq!(b, rect(left, top, right - left, bottom - top));
    }
    let lost = rotated_bounds(rect(f32::NAN, 0.0, 1.0, 1.0), sc(0.0), sc(1.0));
    assert_eq!(fl(lost.origin.x), f32::MAX);
}

#[test]
fn scaling_divides_the_scissor() {
    let mut e = encoder();
    e.translate(Vector { x: sc(-8.0), y: sc(-6.0) });
    e.scale(sc(2.0), sc(4.0));
    assert_eq!(e.get_current_clip(), rect(4.0, 1.5, 200.0, 75.0));
    let frame = e.finish();
    assert!(matches!(frame.commands[1], DrawCommand::Scale(x, y) if fl(x) == 2.0 && fl(y) == 4.0));
}

fn font(blob_id: u64, font_index: u32) -> SceneFont {
    SceneFont { blob_id, font_index, data: vec![blob_id as u8] }
}

#[test]
fn a_font_travels_once_with_its_runs() {
    let mut e = encoder();
    let glyphs = vec![
        LayoutGlyph { id: 7, x: sc(1.0), y: sc(2.0) },
        LayoutGlyph { id: 65536 + 5, x: sc(3.0), y: sc(4.0) },
    ];
    let fill = e.platform_text_fill_brush(&red()).unwrap();
    let outline = e.platform_text_stroke_brush(&red()).unwrap();
    e.draw_glyph_run(&font(11, 0), sc(16.0), &vec![1, -1], fill.clone(), sc(0.5), &glyphs);
    e.draw_glyph_run(&font(11, 0), sc(16.0), &vec![], outline, sc(0.0), &glyphs);
    e.draw_glyph_run(&font(11, 1), sc(16.0), &vec![], fill, sc(0.0), &vec![]);
    let frame = e.finish();
    assert_eq!(frame.fonts.len(), 2);
    assert_eq!((frame.fonts[0].blob_id, frame.fonts[0].font_index), (11, 0));
    assert_eq!(frame.fonts[0].data, vec![11]);
    assert_eq!((frame.fonts[1].blob_id, frame.fonts[1].font_index), (11, 1));
    match &frame.commands[0] {
        DrawCommand::DrawGlyphRun { font_blob_id: 11, font_index: 0, normalized_coords, y_offset, glyphs, is_stroke: false, .. } => {
            assert_eq!(*normalized_coords, vec![1, -1]);
            assert_eq!(fl(*y_offset), 0.5);
            assert_eq!((glyphs[0].id, glyphs[1].id), (7, 5));
            assert_eq!((fl(glyphs[1].x), fl(glyphs[1].y)), (3.0, 4.0));
        }
        other => panic!("{other:?}"),
    }
    assert!(matches!(&frame.commands[1], DrawCommand::DrawGlyphRun { is_stroke: true, .. }));
}

#[test]
fn transparent_brushes_draw_no_text() {
    let mut e = encoder();
    assert!(e.platform_text_fill_brush(&None).is_none());
    assert!(e.platform_text_stroke_brush(&None).is_none());
    assert!(e.platform_brush_for_color(Color { alpha: 0, ..RED }).is_none());
    match e.platform_brush_for_color(RED) {
        Some(GlyphBrush::Fill(p)) => assert!(is_red(&p)),
        other => panic!("{other:?}"),
    }
}

#[test]
fn text_rectangles_keep_their_border() {
    let mut e = encoder();
    let fill = e.platform_brush_for_color(RED).unwrap();
    let border = e.platform_text_stroke_brush(&red()).unwrap();
    e.fill_rectangle(rect(1.0, 2.0, 3.0, 4.0), fill.clone(), sc(2.0), Some((border, sc(1.0))));
    e.fill_rectangle(rect(1.0, 2.0, 3.0, 4.0), fill, sc(0.0), None);
    let frame = e.finish();
    match &frame.commands[0] {
        DrawCommand::FillTextRect { rect: r, paint, radius, border: Some((p, w)) } => {
            assert_eq!(*r, rect(1.0, 2.0, 3.0, 4.0));
            assert!(is_red(paint) && is_red(p));
            assert_eq!((fl(*radius), fl(*w)), (2.0, 1.0));
        }
        other => panic!("{other:?}"),
    }
    assert!(matches!(&frame.commands[1], DrawCommand::FillTextRect { border: None, .. }));
}

#[test]
fn texture_keys_count_up_from_one() {
    let mut e = encoder();
    assert_eq!(e.alloc_key(), 1);
    assert_eq!(e.alloc_key(), 2);
}

#[test]
fn item_ids_hash_address_and_index() {
    let address: usize = 0x1234_5678;
    let index: u32 = 42;
    let mut hasher = std::collections::hash_map::DefaultHasher::new();
    address.hash(&mut hasher);
    index.hash(&mut hasher);
    assert_eq!(item_rc_as_id(&address.to_ne_bytes(), &index.to_ne_bytes()), hasher.finish());
    assert_ne!(
        item_rc_as_id(&address.to_ne_bytes(), &index.to_ne_bytes()),
        item_rc_as_id(&address.to_ne_bytes(), &43u32.to_ne_bytes())
    );
}

#[test]
fn scenes_can_be_copied() {
    let mut e = encoder();
    e.draw_rectangle(&red(), size(10.0, 20.0));
    e.push(DrawCommand::Layer {
        width: 4,
        height: 5,
        origin: pt(1.0, 2.0),
        alpha_tint: sc(0.5),
        commands: vec![DrawCommand::Save, DrawCommand::Restore],
    });
    e.set_background(RED);
    let frame = e.finish();
    let copy = frame.clone();
    assert_eq!(format!("{frame:?}"), format!("{copy:?}"));
}
