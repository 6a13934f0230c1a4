use dualslint::canvas::{place_whole_image, CanvasOp, PaintSource, Shape, Target};
use dualslint::encoder::SnapshotEncoder;
use dualslint::encoder_draw::LayoutGlyph;
use dualslint::geometry::{BorderRadius, Point, Rect, Size};
use dualslint::replay::{Outcome, Progress, Replay, ReplayCache, ShapedRun};
use dualslint::scalar::Scalar;
use dualslint::scene::{
    Color, DrawCommand, GradientStop, LineCapDesc, LineJoinDesc, OverlayFrame, PaintDesc,
    PathEvent, PositionedGlyph, SceneFont, SceneFrame,
};

fn sc(v: f32) -> Scalar {
    Scalar { bits: v.to_bits() }
}

fn fl(s: Scalar) -> f32 {
    f32::from_bits(s.bits)
}

fn rect(x: f32, y: f32, w: f32, h: f32) -> Rect {
    Rect { origin: Point { x: sc(x), y: sc(y) }, size: Size { width: sc(w), height: sc(h) } }
}

fn radius(a: f32, b: f32) -> BorderRadius {
    BorderRadius { top_left: sc(a), top_right: sc(b), bottom_right: sc(a), bottom_left: sc(a) }
}

fn solid() -> PaintDesc {
    PaintDesc::Solid { r: 1, g: 2, b: 3, a: 4 }
}

fn image_paint() -> PaintDesc {
    PaintDesc::ImagePaint {
        texture_key: 1,
        x: sc(0.0),
        y: sc(0.0),
        w: sc(1.0),
        h: sc(1.0),
        tex_x: sc(0.0),
        tex_y: sc(0.0),
        tex_w: sc(1.0),
        tex_h: sc(1.0),
        flags: 0,
    }
}

fn show_rect(r: &Rect) -> String {
    format!("{},{},{},{}", fl(r.origin.x), fl(r.origin.y), fl(r.size.width), fl(r.size.height))
}

fn show_shape(s: &Shape) -> String {
    match s {
        Shape::Rect(r) => format!("rect {}", show_rect(r)),
        Shape::Rounded(r, radius) => format!("rounded {} {}", show_rect(r), fl(*radius)),
        Shape::Varying(r, _) => format!("varying {}", show_rect(r)),
        Shape::Path(events) => format!("path {}", events.len()),
    }
}

fn show_source(s: &PaintSource) -> String {
    match s {
        PaintSource::Color(c) => format!("#{:02x}{:02x}{:02x}{:02x}", c.red, c.green, c.blue, c.alpha),
        PaintSource::Linear { start, end, stops } => {
            format!("linear {} {} {}", fl(start.x), fl(end.y), stops.len())
        }
        PaintSource::Radial { center, inner, outer, stops } => {
            format!("radial {} {} {} {}", fl(center.x), fl(*inner), fl(*outer), stops.len())
        }
        PaintSource::Image { image, rect, part, alpha } => {
            format!("image {image} {} of {} {}", show_rect(rect), show_rect(part), fl(*alpha))
        }
    }
}

/// A canvas that writes down what it is asked, and answers.
struct Recorder {
    log: Vec<String>,
    next_handle: u64,
    refuse_images: bool,
    refuse_fonts: bool,
    images_valid: bool,
    transform: [f32; 6],
}

impl Recorder {
    fn new() -> Recorder {
        Recorder {
            log: vec![],
            next_handle: 100,
            refuse_images: false,
            refuse_fonts: false,
            images_valid: true,
            transform: [1.0, 0.0, 0.0, 1.0, 10.4, 20.6],
        }
    }

    fn handle(&mut self, refuse: bool) -> Option<u64> {
        if refuse {
            return None;
        }
        self.next_handle += 1;
        Some(self.next_handle)
    }

    fn perform(&mut self, op: CanvasOp) -> Outcome {
        let (text, outcome) = match op {
            CanvasOp::SetSize { width, height, dpi } => {
                (format!("size {width}x{height} {}", fl(dpi)), Outcome::Done)
            }
            CanvasOp::Reset => ("reset".into(), Outcome::Done),
            CanvasOp::Clear { width, height, color } => {
                (format!("clear {width}x{height} {}", show_source(&PaintSource::Color(color))), Outcome::Done)
            }
            CanvasOp::Save => ("save".into(), Outcome::Done),
            CanvasOp::Restore => ("restore".into(), Outcome::Done),
            CanvasOp::Translate(x, y) => (format!("translate {} {}", fl(x), fl(y)), Outcome::Done),
            CanvasOp::Rotate(a) => (format!("rotate {}", fl(a)), Outcome::Done),
            CanvasOp::Scale(x, y) => (format!("scale {} {}", fl(x), fl(y)), Outcome::Done),
            CanvasOp::SetGlobalAlpha(a) => (format!("alpha {}", fl(a)), Outcome::Done),
            CanvasOp::IntersectScissor(r) => (format!("scissor {}", show_rect(&r)), Outcome::Done),
            CanvasOp::Fill { shape, source, settings } => (
                format!(
                    "fill {} {} {:?} {:?}",
                    show_shape(&shape),
                    show_source(&source),
                    settings.anti_alias,
                    settings.even_odd
                ),
                Outcome::Done,
            ),
            CanvasOp::Stroke { shape, source, settings } => (
                format!(
                    "stroke {} {} {:?} {:?} {:?} {:?} {:?}",
                    show_shape(&shape),
                    show_source(&source),
                    settings.anti_alias,
                    settings.line_width.map(fl),
                    settings.miter_limit.map(fl),
                    settings.line_cap,
                    settings.line_join
                ),
                Outcome::Done,
            ),
            CanvasOp::Glyphs { font, normalized_coords, glyphs, source, settings, stroke } => (
                format!(
                    "glyphs {font} {normalized_coords:?} {:?} {} {:?} {stroke}",
                    glyphs.iter().map(|g| (fl(g.x), fl(g.y), g.id)).collect::<Vec<_>>(),
                    show_source(&source),
                    settings.font_size.map(fl)
                ),
                Outcome::Done,
            ),
            CanvasOp::ResetTransform => ("identity".into(), Outcome::Done),
            CanvasOp::SetTransform(t) => (format!("transform {:?}", t.map(fl)), Outcome::Done),
            CanvasOp::QueryTransform => ("query".into(), Outcome::Transform(self.transform.map(sc))),
            CanvasOp::AddFont { data, font_index } => {
                let handle = self.handle(self.refuse_fonts);
                (format!("font {data:?} {font_index}"), Outcome::Font(handle))
            }
            CanvasOp::CreateImage { pixels, width, height } => {
                let handle = self.handle(self.refuse_images);
                (format!("upload {} {width}x{height}", pixels.len()), Outcome::Image(handle))
            }
            CanvasOp::CreateEmptyImage { width, height, flip_y } => {
                let handle = self.handle(self.refuse_images);
                (format!("empty {width}x{height} {flip_y}"), Outcome::Image(handle))
            }
            CanvasOp::CheckImage(image) => (format!("check {image}"), Outcome::Valid(self.images_valid)),
            CanvasOp::SetRenderTarget(Target::Screen) => ("target screen".into(), Outcome::Done),
            CanvasOp::SetRenderTarget(Target::Image(image)) => {
                (format!("target {image}"), Outcome::Done)
            }
            CanvasOp::BlurImage { target, sigma, source } => {
                (format!("blur {target} {} {source}", fl(sigma)), Outcome::Done)
            }
            CanvasOp::DeleteImage(image) => (format!("delete {image}"), Outcome::Done),
            CanvasOp::CompositeSourceIn => ("source-in".into(), Outcome::Done),
            CanvasOp::ShapeText { text, font_size, scale_factor, max_width } => (
                format!("shape {text} {} {} {:?}", fl(font_size), fl(scale_factor), max_width.map(fl)),
                Outcome::Shaped(runs()),
            ),
            CanvasOp::Flush => ("flush".into(), Outcome::Done),
            CanvasOp::SwapBuffers => ("swap".into(), Outcome::Done),
            CanvasOp::PrePresentNotify => ("notify".into(), Outcome::Done),
        };
        self.log.push(text);
        outcome
    }

    fn run(&mut self, cache: &mut ReplayCache, frame: &SceneFrame, overlay: &OverlayFrame) -> Vec<String> {
        self.log.clear();
        let mut replay = Replay::composite_and_present(80, 60, sc(1.5), frame, overlay);
        let mut outcome = Outcome::Done;
        loop {
            match replay.step(cache, outcome) {
                Progress::Finished => break,
                Progress::Continue => outcome = Outcome::Done,
                Progress::Perform(op) => outcome = self.perform(op),
            }
        }
        self.log.clone()
    }

    /// What the commands come to, without what every frame begins and ends with.
    fn commands(&mut self, cache: &mut ReplayCache, commands: Vec<DrawCommand>) -> Vec<String> {
        let log = self.run(cache, &frame(vec![], commands), &OverlayFrame::default());
        log[3..log.len() - 3].to_vec()
    }
}

/// Two lines of text: the first font on both, an empty run, and a second font.
fn runs() -> Vec<ShapedRun> {
    let glyph = |id: u32, x: f32, y: f32| LayoutGlyph { id, x: sc(x), y: sc(y) };
    let run = |blob_id: u64, glyphs: Vec<LayoutGlyph>| ShapedRun {
        blob_id,
        font_index: 0,
        data: vec![blob_id as u8],
        font_size: sc(12.0),
        glyphs,
    };
    vec![
        run(1, vec![]),
        run(1, vec![glyph(5, 0.0, 10.0), glyph(65537, 6.0, 10.0)]),
        run(2, vec![glyph(7, 1.0, 26.0)]),
    ]
}

fn frame(fonts: Vec<SceneFont>, commands: Vec<DrawCommand>) -> SceneFrame {
    SceneFrame {
        width: 80,
        height: 60,
        scale_factor: sc(1.5),
        background: None,
        fonts,
        commands,
        controls: vec![],
    }
}

fn font(blob_id: u64) -> SceneFont {
    SceneFont { blob_id, font_index: 0, data: vec![blob_id as u8] }
}

fn glyph_run(blob_id: u64, is_stroke: bool) -> DrawCommand {
    DrawCommand::DrawGlyphRun {
        font_blob_id: blob_id,
        font_index: 0,
        font_size: sc(16.0),
        normalized_coords: vec![3],
        paint: solid(),
        y_offset: sc(0.5),
        glyphs: vec![PositionedGlyph { x: sc(1.0), y: sc(2.0), id: 9 }],
        is_stroke,
    }
}

#[test]
fn a_frame_is_cleared_replayed_and_presented() {
    let mut canvas = Recorder::new();
    let scene = frame(vec![], vec![DrawCommand::Save]);
    let overlay = OverlayFrame { fonts: vec![], commands: vec![DrawCommand::Restore] };
    assert_eq!(
        canvas.run(&mut ReplayCache::new(), &scene, &overlay),
        vec!["size 80x60 2", "reset", "clear 80x60 #ffffffff", "save", "restore", "flush", "swap", "notify"]
    );
    let backed = SceneFrame { background: Some([1, 2, 3, 4]), ..scene };
    let log = canvas.run(&mut ReplayCache::new(), &backed, &OverlayFrame::default());
    assert_eq!(log[2], "clear 80x60 #01020304");
    assert_eq!(log.len(), 7);
}

#[test]
fn canvas_state_is_replayed() {
    let mut canvas = Recorder::new();
    let log = canvas.commands(
        &mut ReplayCache::new(),
        vec![
            DrawCommand::Translate(sc(1.0), sc(2.0)),
            DrawCommand::Rotate(sc(std::f32::consts::PI)),
            DrawCommand::Scale(sc(2.0), sc(3.0)),
            DrawCommand::SetGlobalAlpha(sc(0.5)),
            DrawCommand::CombineClip(rect(1.0, 2.0, 3.0, 4.0)),
        ],
    );
    assert_eq!(
        log,
        vec![
            "translate 1 2".to_string(),
            format!("rotate {}", std::f32::consts::PI),
            "scale 2 3".to_string(),
            "alpha 0.5".to_string(),
            "scissor 1,2,3,4".to_string(),
        ]
    );
}

#[test]
fn a_quarter_turn_reaches_the_canvas_as_half_of_pi() {
    let mut encoder = SnapshotEncoder::new(80, 60, sc(2.0));
    encoder.rotate(sc(90.0), sc(-1.0), sc(0.0));
    let log = Recorder::new().commands(&mut ReplayCache::new(), encoder.finish().commands);
    assert_eq!(log, vec![format!("rotate {}", std::f32::consts::FRAC_PI_2)]);
}

#[test]
fn shapes_are_filled_and_stroked() {
    let mut canvas = Recorder::new();
    let r = rect(0.0, 0.0, 4.0, 5.0);
    let stops = vec![GradientStop { offset: sc(0.0), color: [0, 0, 0, 0] }];
    let log = canvas.commands(
        &mut ReplayCache::new(),
        vec![
            DrawCommand::FillRect { rect: r, paint: solid(), anti_alias: false },
            DrawCommand::FillRoundedRect { rect: r, paint: solid(), radius: radius(3.0, 3.0), anti_alias: true },
            DrawCommand::FillRoundedRect { rect: r, paint: solid(), radius: radius(0.0, 0.0), anti_alias: true },
            DrawCommand::FillRoundedRect {
                rect: r,
                paint: PaintDesc::LinearGradient {
                    start_x: sc(1.0),
                    start_y: sc(2.0),
                    end_x: sc(3.0),
                    end_y: sc(4.0),
                    stops: stops.clone(),
                },
                radius: radius(3.0, 1.0),
                anti_alias: true,
            },
            DrawCommand::StrokeRoundedRect {
                rect: r,
                paint: PaintDesc::RadialGradient { cx: sc(7.0), cy: sc(8.0), radius: sc(9.0), stops },
                radius: radius(3.0, 3.0),
                line_width: sc(2.0),
                anti_alias: true,
            },
            DrawCommand::StrokePath {
                path: vec![PathEvent::Close],
                paint: solid(),
                line_width: sc(2.0),
                line_cap: LineCapDesc::Square,
                line_join: LineJoinDesc::Round,
                miter_limit: sc(5.0),
                anti_alias: false,
            },
            DrawCommand::FillPath { path: vec![], paint: solid(), fill_rule: 1, anti_alias: true },
            DrawCommand::FillPath { path: vec![], paint: solid(), fill_rule: 2, anti_alias: true },
        ],
    );
    assert_eq!(
        log,
        vec![
            "fill rect 0,0,4,5 #01020304 Some(false) None",
            "fill rounded 0,0,4,5 3 #01020304 Some(true) None",
            "fill rect 0,0,4,5 #01020304 Some(true) None",
            "fill varying 0,0,4,5 linear 1 4 1 Some(true) None",
            "stroke rounded 0,0,4,5 3 radial 7 0 9 1 Some(true) Some(2.0) None None None",
            "stroke path 1 #01020304 Some(false) Some(2.0) Some(5.0) Some(Square) Some(Round)",
            "fill path 0 #01020304 Some(true) Some(true)",
            "fill path 0 #01020304 Some(true) Some(false)",
        ]
    );
}

#[test]
fn image_paints_are_not_painted_with() {
    let mut canvas = Recorder::new();
    let r = rect(0.0, 0.0, 4.0, 5.0);
    let log = canvas.commands(
        &mut ReplayCache::new(),
        vec![
            DrawCommand::FillRect { rect: r, paint: image_paint(), anti_alias: false },
            DrawCommand::FillTextRect {
                rect: r,
                paint: image_paint(),
                radius: sc(0.0),
                border: Some((solid(), sc(1.0))),
            },
        ],
    );
    assert!(log.is_empty());
}

#[test]
fn text_rectangles_are_filled_and_bordered() {
    let mut canvas = Recorder::new();
    let r = rect(0.0, 0.0, 4.0, 5.0);
    let log = canvas.commands(
        &mut ReplayCache::new(),
        vec![
            DrawCommand::FillTextRect { rect: r, paint: solid(), radius: sc(2.0), border: None },
            DrawCommand::FillTextRect {
                rect: r,
                paint: solid(),
                radius: sc(0.0),
                border: Some((solid(), sc(1.0))),
            },
            DrawCommand::FillTextRect {
                rect: r,
                paint: solid(),
                radius: sc(0.0),
                border: Some((image_paint(), sc(1.0))),
            },
        ],
    );
    assert_eq!(
        log,
        vec![
            "fill rounded 0,0,4,5 2 #01020304 None None",
            "fill rect 0,0,4,5 #01020304 None None",
            "stroke rect 0,0,4,5 #01020304 None Some(1.0) None None None",
            "fill rect 0,0,4,5 #01020304 None None",
        ]
    );
}

#[test]
fn fonts_are_added_once() {
    let mut canvas = Recorder::new();
    let mut cache = ReplayCache::new();
    let scene = frame(vec![font(1), font(2), font(1)], vec![]);
    let overlay = OverlayFrame { fonts: vec![font(2), font(3)], commands: vec![] };
    let log = canvas.run(&mut cache, &scene, &overlay);
    assert_eq!(log[..3], ["font [1] 0", "font [2] 0", "font [3] 0"]);
    assert_eq!(cache.get_or_create_font(1, 0), Some(101));
    assert_eq!(cache.get_or_create_font(1, 1), None);
    assert_eq!(canvas.run(&mut cache, &scene, &overlay)[0], "size 80x60 2");
}

#[test]
fn a_font_that_fails_is_tried_with_the_next_frame() {
    let mut canvas = Recorder::new();
    let mut cache = ReplayCache::new();
    canvas.refuse_fonts = true;
    let scene = frame(vec![font(1)], vec![glyph_run(1, false)]);
    let log = canvas.run(&mut cache, &scene, &OverlayFrame::default());
    assert_eq!(log[0], "font [1] 0");
    assert_eq!(log.len(), 7);
    canvas.refuse_fonts = false;
    assert_eq!(canvas.run(&mut cache, &scene, &OverlayFrame::default())[0], "font [1] 0");
    assert_eq!(cache.get_or_create_font(1, 0), Some(101));
}

#[test]
fn glyphs_are_drawn_on_the_pixel_grid() {
    let mut canvas = Recorder::new();
    let mut cache = ReplayCache::new();
    canvas.run(&mut cache, &frame(vec![font(1)], vec![]), &OverlayFrame::default());
    let log = canvas.commands(&mut cache, vec![glyph_run(1, true), glyph_run(4, false)]);
    assert_eq!(
        log,
        vec![
            "query",
            "identity",
            "transform [1.0, 0.0, 0.0, 1.0, 10.0, 21.0]",
            "glyphs 101 [3] [(1.0, 2.5, 9)] #01020304 Some(16.0) true",
            "identity",
            "transform [1.0, 0.0, 0.0, 1.0, 10.4, 20.6]",
        ]
    );
}

#[test]
fn turned_glyphs_are_drawn_as_they_stand() {
    let mut canvas = Recorder::new();
    let mut cache = ReplayCache::new();
    canvas.run(&mut cache, &frame(vec![font(1)], vec![]), &OverlayFrame::default());
    canvas.transform = [1.0, 0.001, 0.0, 1.0, 0.0, 0.0];
    let log = canvas.commands(&mut cache, vec![glyph_run(1, false)]);
    assert_eq!(log, vec!["query", "glyphs 101 [3] [(1.0, 2.5, 9)] #01020304 Some(16.0) false"]);
    canvas.transform = [1.0005, 0.0, 0.0, 1.0, 0.0, 0.0];
    assert_eq!(canvas.commands(&mut cache, vec![glyph_run(1, false)]).len(), 6);
}

fn upload(key: u64) -> DrawCommand {
    DrawCommand::UploadPixmap { key, pixels: vec![0; 16], width: 2, height: 2 }
}

fn blit(key: u64) -> DrawCommand {
    let p = [1.0, 2.0, 3.0, 4.0, 0.5, 0.75, 1.0, 1.25, 0.0];
    DrawCommand::BlitPixmap { key, params: p.map(sc) }
}

#[test]
fn a_retained_frame_uploads_nothing_again() {
    let mut canvas = Recorder::new();
    let mut cache = ReplayCache::new();
    let layered = |commands: Vec<DrawCommand>| DrawCommand::Layer {
        width: 1,
        height: 1,
        origin: Point { x: sc(0.0), y: sc(0.0) },
        alpha_tint: sc(1.0),
        commands,
    };
    let scene = frame(vec![], vec![upload(7), blit(7), layered(vec![upload(8)]), blit(9)]);
    let log = canvas.run(&mut cache, &scene, &OverlayFrame::default());
    assert_eq!(log.iter().filter(|l| l.starts_with("upload")).count(), 2);
    assert_eq!(
        log[3..6],
        ["upload 16 2x2", "check 101", "fill rect 1,2,3,4 image 101 1,2,3,4 of 0.5,0.75,1,1.25 1 Some(false) None"]
    );
    let again = canvas.run(&mut cache, &scene, &OverlayFrame::default());
    assert!(again.iter().all(|l| !l.starts_with("upload")));
}

#[test]
fn a_key_keeps_the_texture_that_was_made_first() {
    let mut canvas = Recorder::new();
    let mut cache = ReplayCache::new();
    canvas.commands(&mut cache, vec![upload(7)]);
    let other = DrawCommand::UploadPixmap { key: 7, pixels: vec![1; 4], width: 1, height: 1 };
    let cached = DrawCommand::CachedPixmap { key: 7, width: 1, height: 1, pixels: vec![2; 4] };
    let log = canvas.commands(&mut cache, vec![other, cached, blit(7)]);
    assert!(log.iter().all(|l| !l.starts_with("upload")));
    assert!(log.iter().filter(|l| l.starts_with("check")).all(|l| l == "check 101"));
}

#[test]
fn images_that_fail_or_vanish_are_not_drawn() {
    let mut canvas = Recorder::new();
    let mut cache = ReplayCache::new();
    canvas.refuse_images = true;
    assert_eq!(canvas.commands(&mut cache, vec![upload(7), blit(7)]), vec!["upload 16 2x2"]);
    canvas.refuse_images = false;
    canvas.images_valid = false;
    assert_eq!(
        canvas.commands(&mut cache, vec![upload(7), blit(7)]),
        vec!["upload 16 2x2", "check 101"]
    );
}

#[test]
fn cached_pixmaps_are_uploaded_once_and_blitted_over_nothing() {
    let mut canvas = Recorder::new();
    let mut cache = ReplayCache::new();
    let pixmap = || DrawCommand::CachedPixmap { key: 3, width: 1, height: 1, pixels: vec![0; 4] };
    assert_eq!(
        canvas.commands(&mut cache, vec![pixmap(), pixmap()]),
        vec![
            "upload 4 1x1",
            "check 101",
            "fill rect 0,0,0,0 image 101 0,0,0,0 of 0,0,0,0 1 Some(false) None",
            "check 101",
            "fill rect 0,0,0,0 image 101 0,0,0,0 of 0,0,0,0 1 Some(false) None",
        ]
    );
}

#[test]
fn layers_are_drawn_offscreen() {
    let mut canvas = Recorder::new();
    let layer = || DrawCommand::Layer {
        width: 4,
        height: 5,
        origin: Point { x: sc(1.0), y: sc(2.0) },
        alpha_tint: sc(0.5),
        commands: vec![DrawCommand::Scale(sc(2.0), sc(2.0))],
    };
    assert_eq!(
        canvas.commands(&mut ReplayCache::new(), vec![layer()]),
        vec![
            "empty 4x5 true",
            "save",
            "target 101",
            "reset",
            "clear 4x5 #00000000",
            "translate -1 -2",
            "scale 2 2",
            "restore",
            "target screen",
            "fill rect 1,2,4,5 image 101 1,2,4,5 of 0,0,4,5 0.5 Some(false) None",
            "delete 101",
        ]
    );
    canvas.refuse_images = true;
    assert_eq!(canvas.commands(&mut ReplayCache::new(), vec![layer()]), vec!["empty 4x5 true"]);
}

#[test]
fn nested_layers_return_to_the_layer_around_them() {
    let mut canvas = Recorder::new();
    let layer = |width: u32, commands: Vec<DrawCommand>| DrawCommand::Layer {
        width,
        height: 1,
        origin: Point { x: sc(0.0), y: sc(0.0) },
        alpha_tint: sc(1.0),
        commands,
    };
    let inner = vec![shadow(0.0, 1.0, 0.0, 5.0)];
    let log = canvas.commands(
        &mut ReplayCache::new(),
        vec![layer(3, vec![layer(2, inner), layer(1, vec![])])],
    );
    let targets: Vec<&str> =
        log.iter().filter(|l| l.starts_with("target")).map(|l| l.as_str()).collect();
    assert_eq!(
        targets,
        vec![
            "target 101",
            "target 102",
            "target 103",
            "target 102",
            "target 101",
            "target 104",
            "target 101",
            "target screen",
        ]
    );
    for image in 101..105 {
        let blit = log.iter().position(|l| l.contains(&format!("image {image} "))).unwrap();
        assert_ne!(log[blit - 1], format!("target {image}"));
        assert!(log[blit - 1].starts_with("target"));
    }
}

#[test]
fn the_whole_image_is_placed_around_its_part() {
    // The lower right quarter of an image of 8x4, twice as large.
    let placed = place_whole_image(rect(10.0, 20.0, 8.0, 4.0), rect(4.0, 2.0, 4.0, 2.0), 8, 4);
    assert_eq!(placed, rect(2.0, 16.0, 16.0, 8.0));
    let whole = place_whole_image(rect(10.0, 20.0, 8.0, 4.0), rect(0.0, 0.0, 8.0, 4.0), 8, 4);
    assert_eq!(whole, rect(10.0, 20.0, 8.0, 4.0));
    let empty = place_whole_image(rect(1.0, 2.0, 0.0, 0.0), rect(0.0, 0.0, 0.0, 0.0), 8, 4);
    assert_eq!(empty, rect(1.0, 2.0, 0.0, 0.0));
}

fn shadow(blur: f32, x: f32, y: f32, width: f32) -> DrawCommand {
    DrawCommand::DrawBoxShadow {
        color: Color { red: 9, green: 8, blue: 7, alpha: 6 },
        blur: sc(blur),
        offset_x: sc(x),
        offset_y: sc(y),
        width: sc(width),
        height: sc(10.0),
        radius: radius(0.0, 0.0),
    }
}

#[test]
fn shadows_are_blurred_tinted_and_drawn() {
    let mut canvas = Recorder::new();
    assert_eq!(
        canvas.commands(&mut ReplayCache::new(), vec![shadow(3.0, 1.0, 2.0, 20.5)]),
        vec![
            "empty 24x13 false",
            "save",
            "target 101",
            "reset",
            "clear 24x13 #00000000",
            "fill rect 0,0,20.5,10 #ffffffff None None",
            "empty 24x13 false",
            "blur 102 1.5 101",
            "target 102",
            "delete 101",
            "save",
            "source-in",
            "fill rect 0,0,24,13 #09080706 None None",
            "restore",
            "restore",
            "target screen",
            "fill rect -2,-1,24,13 image 102 -2,-1,24,13 of 0,0,24,13 1 Some(false) None",
            "delete 102",
        ]
    );
}

#[test]
fn sharp_shadows_are_drawn_without_blur() {
    let mut canvas = Recorder::new();
    let log = canvas.commands(&mut ReplayCache::new(), vec![shadow(0.0, 1.0, 0.0, 20.0)]);
    assert_eq!(log.len(), 14);
    assert!(log.iter().all(|l| !l.starts_with("blur")));
    assert_eq!(log[11], "target screen");
    assert_eq!(log[13], "delete 101");
}

#[test]
fn shadows_without_extent_or_effect_are_skipped() {
    let mut canvas = Recorder::new();
    let log = canvas.commands(
        &mut ReplayCache::new(),
        vec![shadow(0.0, 0.0, 0.0, 20.0), shadow(1.0, 0.0, 0.0, -5.0)],
    );
    assert!(log.is_empty());
}

#[test]
fn a_shadow_whose_blur_fails_is_dropped() {
    let mut canvas = Recorder::new();
    let scene = frame(vec![], vec![shadow(3.0, 1.0, 2.0, 20.0)]);
    let overlay = OverlayFrame::default();
    let mut cache = ReplayCache::new();
    let mut replay = Replay::composite_and_present(80, 60, sc(1.0), &scene, &overlay);
    let mut outcome = Outcome::Done;
    let mut created = 0;
    loop {
        match replay.step(&mut cache, outcome) {
            Progress::Finished => break,
            Progress::Continue => outcome = Outcome::Done,
            Progress::Perform(op) => {
                if let CanvasOp::CreateEmptyImage { .. } = op {
                    created += 1;
                    canvas.refuse_images = created == 2;
                }
                outcome = canvas.perform(op);
            }
        }
    }
    let after: Vec<&str> = canvas.log.iter().map(|l| l.as_str()).skip(9).collect();
    assert_eq!(after, vec!["empty 23x13 false", "restore", "target screen", "delete 101", "flush", "swap", "notify"]);
}

#[test]
fn lines_of_text_stack_below_the_first_baseline() {
    let mut canvas = Recorder::new();
    canvas.transform = [2.0, 0.0, 0.0, 2.0, 0.0, 0.0];
    let text = |text: &str| DrawCommand::DrawText {
        x: sc(100.0),
        y: sc(50.0),
        text: text.to_string(),
        font_size: sc(12.0),
        paint: solid(),
        max_width: Some(sc(90.0)),
    };
    let mut cache = ReplayCache::new();
    assert_eq!(
        canvas.commands(&mut cache, vec![text("hello"), text("")]),
        vec![
            "shape hello 12 1 Some(90.0)",
            "font [1] 0",
            "query",
            "glyphs 101 [] [(100.0, 50.0, 5), (106.0, 50.0, 1)] #01020304 Some(12.0) false",
            "font [2] 0",
            "query",
            "glyphs 102 [] [(101.0, 66.0, 7)] #01020304 Some(12.0) false",
        ]
    );
    let again = canvas.commands(&mut cache, vec![text("hello")]);
    assert!(again.iter().all(|l| !l.starts_with("font")));
}

#[test]
fn a_font_that_fails_is_not_tried_again_in_one_text() {
    let mut canvas = Recorder::new();
    canvas.refuse_fonts = true;
    let text = DrawCommand::DrawText {
        x: sc(0.0),
        y: sc(0.0),
        text: "hello".to_string(),
        font_size: sc(12.0),
        paint: solid(),
        max_width: None,
    };
    assert_eq!(
        canvas.commands(&mut ReplayCache::new(), vec![text]),
        vec!["shape hello 12 1 None", "font [1] 0", "font [2] 0"]
    );
}

#[test]
fn the_overlay_waits_for_the_scene() {
    let mut canvas = Recorder::new();
    let scene = frame(vec![], vec![shadow(3.0, 1.0, 2.0, 20.0), upload(1), blit(1)]);
    let overlay = OverlayFrame { fonts: vec![], commands: vec![DrawCommand::Scale(sc(9.0), sc(9.0))] };
    let log = canvas.run(&mut ReplayCache::new(), &scene, &overlay);
    assert_eq!(log[log.len() - 4..], ["scale 9 9", "flush", "swap", "notify"]);
}

#[test]
fn an_answer_that_does_not_belong_counts_as_a_failure() {
    let scene = frame(vec![font(1)], vec![upload(1)]);
    let overlay = OverlayFrame::default();
    let mut cache = ReplayCache::new();
    let mut replay = Replay::composite_and_present(80, 60, sc(1.0), &scene, &overlay);
    let mut performed = 0;
    loop {
        match replay.step(&mut cache, Outcome::Valid(true)) {
            Progress::Finished => break,
            Progress::Continue => {}
            Progress::Perform(_) => performed += 1,
        }
    }
    assert_eq!(performed, 8);
    assert_eq!(cache.get_or_create_font(1, 0), None);
}

#[test]
fn fonts_and_pixmaps_are_there_when_they_are_drawn() {
    let mut canvas = Recorder::new();
    let scene = frame(vec![font(1)], vec![glyph_run(2, false), upload(7), blit(7), glyph_run(1, false)]);
    let overlay = OverlayFrame { fonts: vec![font(2)], commands: vec![glyph_run(1, false)] };
    let log = canvas.run(&mut ReplayCache::new(), &scene, &overlay);
    let starting = |word: &str| log.iter().filter(|l| l.starts_with(word)).count();
    assert_eq!(starting("font"), 2);
    assert_eq!(starting("glyphs"), 3);
    assert_eq!(starting("fill"), 1);
    let last_font = log.iter().rposition(|l| l.starts_with("font")).unwrap();
    let first_glyphs = log.iter().position(|l| l.starts_with("glyphs")).unwrap();
    assert!(last_font < first_glyphs);
}
