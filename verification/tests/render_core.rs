use dualslint::dual::{DualCoreRenderer, DualThreadRenderer};
use dualslint::geometry::{Point, Rect, Size};
use dualslint::host::{forward_system_accent, RenderHost, RenderMessage};
use dualslint::legacy::{hwnd, set_hwnd, PixelTarget};
use dualslint::property::{
    apply_control_property, ControlPropertyValue, ItemKind, PropertyAssignment,
};
use dualslint::render_core::{PointerEvent, RenderAction, RenderCore};
use dualslint::scalar::{Double, Scalar};
use dualslint::scene::{Color, ControlRegion, DrawCommand, OverlayFrame, SceneFrame};
use dualslint::setup::{canvas_density, surface_extent, SetupStage, StageResult};

fn sc(v: f32) -> Scalar {
    Scalar { bits: v.to_bits() }
}

fn double(v: f64) -> Double {
    Double { bits: v.to_bits() }
}

fn rect(x: f32, y: f32, w: f32, h: f32) -> Rect {
    Rect { origin: Point { x: sc(x), y: sc(y) }, size: Size { width: sc(w), height: sc(h) } }
}

const BLUE: Color = Color { red: 0, green: 0, blue: 255, alpha: 255 };

fn frame(controls: Vec<ControlRegion>) -> SceneFrame {
    SceneFrame {
        width: 80,
        height: 60,
        scale_factor: sc(1.0),
        background: None,
        fonts: vec![],
        commands: vec![DrawCommand::Save, DrawCommand::Restore],
        controls,
    }
}

fn region(id: u64, x: f32, y: f32, w: f32, h: f32) -> ControlRegion {
    ControlRegion { id, geometry: rect(x, y, w, h) }
}

/// A short name for each action.
fn names(actions: &[RenderAction]) -> Vec<String> {
    actions
        .iter()
        .map(|a| match a {
            RenderAction::CreateContext { width, height, .. } => format!("create {width}x{height}"),
            RenderAction::ResizeSurface { width, height } => format!("surface {width}x{height}"),
            RenderAction::SetCanvasSize { width, height, dpi } => {
                format!("canvas {width}x{height} {}", f32::from_bits(dpi.bits))
            }
            RenderAction::Present => "present".into(),
            RenderAction::QueueFrame(f) => {
                assert!(f.pixels.is_empty());
                format!("queue {}x{}", f.width, f.height)
            }
            RenderAction::PublishCoordinates(table) => format!("publish {}", table.len()),
            RenderAction::ClearCoordinates => "clear".into(),
            RenderAction::RequestUiRedraw => "redraw".into(),
            RenderAction::SetAccentColor(c) => format!("accent {}", c.blue),
            RenderAction::BuildComponent => "build".into(),
            RenderAction::DispatchPointer(event) => {
                let at = |p: &Point| (f32::from_bits(p.x.bits), f32::from_bits(p.y.bits));
                match event {
                    PointerEvent::Moved(p) => format!("moved {:?}", at(p)),
                    PointerEvent::Pressed(p) => format!("pressed {:?}", at(p)),
                    PointerEvent::Released(p) => format!("released {:?}", at(p)),
                    PointerEvent::Exited => "exited".into(),
                }
            }
            RenderAction::EncodeMirror => "encode".into(),
            RenderAction::AssignProperty { id, assignment } => format!("assign {id} {assignment:?}"),
            RenderAction::ReplyAssigned(b) => format!("assigned {b}"),
            RenderAction::ReplyHit(hit) => format!("hit {hit:?}"),
            RenderAction::RunUser => "user".into(),
            RenderAction::Release => "release".into(),
            RenderAction::Report(text) => format!("report {text}"),
            RenderAction::Stop => "stop".into(),
        })
        .collect()
}

/// A core whose components are told apart by number.
type Core = RenderCore<u32>;

fn handle(core: &mut Core, message: RenderMessage) -> Vec<String> {
    names(&core.handle(message))
}

fn configured() -> Core {
    let mut core = Core::new();
    let sent = handle(
        &mut core,
        RenderMessage::Configure { width: 80, height: 60, scale_factor: double(1.25) },
    );
    assert_eq!(sent, vec!["create 80x60"]);
    assert!(core.context_created(80, 60, double(1.25)).is_empty());
    core
}

fn attached() -> Core {
    let mut core = configured();
    assert_eq!(handle(&mut core, RenderMessage::AttachComponent), vec!["build"]);
    assert_eq!(names(&core.component_built(1, true)), vec!["clear", "encode"]);
    let controls = vec![region(1, 0.0, 0.0, 40.0, 40.0), region(2, 10.0, 10.0, 10.0, 20.0)];
    let items = vec![(1, ItemKind::Rectangle), (2, ItemKind::TouchArea)];
    assert_eq!(
        names(&core.mirror_encoded(Some((frame(controls), items)))),
        vec!["publish 2", "present", "queue 80x60", "redraw"]
    );
    core
}

#[test]
fn nothing_is_drawn_without_a_context() {
    let mut core = Core::new();
    let none: Vec<String> = vec![];
    assert_eq!(handle(&mut core, RenderMessage::RenderScene { frame: frame(vec![]) }), none);
    assert_eq!(handle(&mut core, RenderMessage::SetOverlay { overlay: OverlayFrame::default() }), none);
    assert_eq!(handle(&mut core, RenderMessage::Resize { width: 3, height: 3 }), none);
    assert_eq!(handle(&mut core, RenderMessage::RequestRedraw), none);
    assert!(core.target().is_none());
}

#[test]
fn a_scene_is_published_presented_and_retained() {
    let mut core = configured();
    assert!(core.target().unwrap().last_frame().is_none());
    assert_eq!(core.target().unwrap().scale_factor(), sc(1.25));
    let actions = core.handle(RenderMessage::RenderScene { frame: frame(vec![region(7, 1.0, 2.0, 3.0, 4.0)]) });
    assert_eq!(names(&actions), vec!["publish 1", "present", "queue 80x60", "redraw"]);
    match &actions[0] {
        RenderAction::PublishCoordinates(table) => {
            let c = table[&7];
            assert_eq!((c.x, c.y, c.width, c.height), (sc(1.0), sc(2.0), sc(3.0), sc(4.0)));
            assert!(!c.hovered && !c.pressed);
        }
        _ => panic!(),
    }
    assert_eq!(core.target().unwrap().last_frame().unwrap().commands.len(), 2);
}

#[test]
fn overlays_and_resizes_present_the_retained_scene() {
    let mut core = configured();
    let none: Vec<String> = vec![];
    assert_eq!(handle(&mut core, RenderMessage::SetOverlay { overlay: OverlayFrame::default() }), none);
    assert_eq!(
        handle(&mut core, RenderMessage::Resize { width: 100, height: 50 }),
        vec!["surface 100x50", "canvas 100x50 2"]
    );
    core.handle(RenderMessage::RenderScene { frame: frame(vec![]) });
    let overlay = OverlayFrame { fonts: vec![], commands: vec![DrawCommand::Save] };
    assert_eq!(handle(&mut core, RenderMessage::SetOverlay { overlay }), vec!["present", "queue 100x50"]);
    assert_eq!(core.overlay().commands.len(), 1);
    assert_eq!(
        handle(&mut core, RenderMessage::Resize { width: 0, height: 50 }),
        vec!["canvas 0x50 2", "present", "queue 0x50"]
    );
    assert_eq!((core.target().unwrap().width(), core.target().unwrap().height()), (0, 50));
}

#[test]
fn a_failed_context_is_reported_and_leaves_the_one_before() {
    let mut core = configured();
    assert_eq!(
        names(&core.context_failed("no display")),
        vec!["report dualslint render thread: GL init failed: no display"]
    );
    assert!(core.target().is_some());
}

#[test]
fn an_attached_component_owns_the_screen() {
    let mut core = attached();
    assert_eq!(
        handle(&mut core, RenderMessage::RenderScene { frame: frame(vec![]) }),
        vec!["encode"]
    );
    assert_eq!(core.target().unwrap().last_frame().unwrap().controls.len(), 2);
    assert_eq!(handle(&mut core, RenderMessage::RequestRedraw), vec!["encode"]);
}

#[test]
fn a_component_attached_early_is_drawn_into_the_new_context() {
    let mut core = Core::new();
    let none: Vec<String> = vec![];
    assert_eq!(handle(&mut core, RenderMessage::SetAccent { color: BLUE }), none);
    assert_eq!(names(&core.component_built(1, true)), vec!["accent 255", "clear", "encode"]);
    assert_eq!(names(&core.mirror_encoded(Some((frame(vec![]), vec![])))), none);
    assert_eq!(names(&core.context_created(10, 10, double(1.0))), vec!["encode"]);
    assert_eq!(handle(&mut core, RenderMessage::SetAccent { color: BLUE }), vec!["accent 255"]);
}

#[test]
fn a_component_without_a_window_is_not_encoded() {
    let mut core = configured();
    assert_eq!(names(&core.component_built(1, false)), vec!["clear"]);
    let none: Vec<String> = vec![];
    assert_eq!(handle(&mut core, RenderMessage::RequestRedraw), none);
    assert_eq!(names(&core.mirror_encoded(None)), none);
}

#[test]
fn only_changes_of_the_interaction_state_are_dispatched() {
    let mut core = attached();
    let apply = |id: u64, hovered: bool, pressed: bool| RenderMessage::ApplyControlState { id, hovered, pressed };
    assert_eq!(
        handle(&mut core, apply(2, true, true)),
        vec!["moved (15.0, 20.0)", "pressed (15.0, 20.0)", "encode"]
    );
    assert_eq!(handle(&mut core, apply(2, true, true)), vec!["encode"]);
    assert_eq!(
        handle(&mut core, apply(2, false, false)),
        vec!["released (15.0, 20.0)", "exited", "encode"]
    );
    assert_eq!(handle(&mut core, apply(2, false, false)), vec!["encode"]);
    assert_eq!(handle(&mut core, apply(2, true, false)), vec!["moved (15.0, 20.0)", "encode"]);
    assert_eq!(handle(&mut core, apply(2, false, false)), vec!["exited", "encode"]);
    // While the button is held the pointer leaves the control, not the window.
    core.handle(apply(2, true, true));
    assert_eq!(handle(&mut core, apply(2, false, true)), vec!["moved (20.0, 30.0)", "encode"]);
    assert_eq!(handle(&mut core, apply(2, false, true)), vec!["encode"]);
    assert_eq!(
        handle(&mut core, apply(2, false, false)),
        vec!["released (15.0, 20.0)", "encode"]
    );
    core.handle(apply(2, true, false));
    assert_eq!(
        handle(&mut core, apply(2, false, true)),
        vec!["pressed (15.0, 20.0)", "moved (20.0, 30.0)", "encode"]
    );
    let none: Vec<String> = vec![];
    assert_eq!(handle(&mut core, apply(3, true, true)), none);
}

#[test]
fn the_interaction_state_is_published() {
    let mut core = attached();
    core.handle(RenderMessage::ApplyControlState { id: 2, hovered: true, pressed: false });
    let controls = vec![region(1, 0.0, 0.0, 40.0, 40.0), region(2, 10.0, 10.0, 10.0, 20.0)];
    let actions = core.mirror_encoded(Some((frame(controls), vec![])));
    match &actions[0] {
        RenderAction::PublishCoordinates(table) => {
            assert!(table[&2].hovered && !table[&2].pressed);
            assert!(!table[&1].hovered);
        }
        _ => panic!(),
    }
}

#[test]
fn the_smallest_control_is_hit() {
    let mut core = attached();
    let hit = |x: f32, y: f32| RenderMessage::HitTest { x: sc(x), y: sc(y) };
    assert_eq!(handle(&mut core, hit(15.0, 15.0)), vec!["hit Some(2)"]);
    assert_eq!(handle(&mut core, hit(35.0, 35.0)), vec!["hit Some(1)"]);
    assert_eq!(handle(&mut core, hit(40.0, 15.0)), vec!["hit None"]);
}

#[test]
fn areas_below_a_pixel_and_past_32_bits_are_told_apart() {
    let mut core = attached();
    let controls = vec![
        region(1, 0.0, 0.0, 1.0e6, 1.0e6),
        region(2, 0.0, 0.0, 1.0e5, 1.0e5),
        region(3, 0.0, 0.0, 0.5, 0.5),
        region(4, 0.0, 0.0, 0.25, 0.5),
    ];
    core.mirror_encoded(Some((frame(controls), vec![])));
    let hit = |x: f32, y: f32| RenderMessage::HitTest { x: sc(x), y: sc(y) };
    assert_eq!(handle(&mut core, hit(5.0, 5.0)), vec!["hit Some(2)"]);
    assert_eq!(handle(&mut core, hit(0.125, 0.125)), vec!["hit Some(4)"]);
    assert_eq!(handle(&mut core, hit(0.3, 0.125)), vec!["hit Some(3)"]);
}

/// Counts how many handles were dropped.
struct Handle(std::rc::Rc<std::cell::Cell<u32>>);

impl Drop for Handle {
    fn drop(&mut self) {
        self.0.set(self.0.get() + 1);
    }
}

#[test]
fn handles_of_components_live_as_long_as_the_core() {
    let dropped = std::rc::Rc::new(std::cell::Cell::new(0));
    let mut core: RenderCore<Handle> = RenderCore::new();
    core.component_built(Handle(dropped.clone()), true);
    core.handle(RenderMessage::Suspend);
    core.component_built(Handle(dropped.clone()), true);
    core.handle(RenderMessage::Suspend);
    core.context_created(10, 10, double(1.0));
    core.handle(RenderMessage::RenderScene { frame: frame(vec![]) });
    assert_eq!(dropped.get(), 0);
    drop(core);
    assert_eq!(dropped.get(), 2);
}

#[test]
fn of_two_regions_with_one_id_the_later_counts() {
    let mut core = attached();
    let controls = vec![region(1, 0.0, 0.0, 5.0, 5.0), region(1, 50.0, 50.0, 5.0, 5.0)];
    core.mirror_encoded(Some((frame(controls), vec![])));
    let hit = |x: f32, y: f32| RenderMessage::HitTest { x: sc(x), y: sc(y) };
    assert_eq!(handle(&mut core, hit(2.0, 2.0)), vec!["hit None"]);
    assert_eq!(handle(&mut core, hit(52.0, 52.0)), vec!["hit Some(1)"]);
}

fn assign(id: u64, property: &str, value: ControlPropertyValue) -> RenderMessage {
    RenderMessage::SetControlProperty { id, property: property.to_string(), value }
}

#[test]
fn properties_are_assigned_and_answered() {
    let mut core = attached();
    let blue = ControlPropertyValue::Color { r: 0, g: 0, b: 255, a: 255 };
    let actions = core.handle(assign(1, "background", blue.clone()));
    assert!(matches!(
        &actions[0],
        RenderAction::AssignProperty { id: 1, assignment: PropertyAssignment::Background(c) } if *c == BLUE
    ));
    assert_eq!(names(&actions)[1..], ["assigned true", "encode"]);
    assert_eq!(handle(&mut core, assign(1, "color", blue.clone())), vec!["assigned false"]);
    assert_eq!(handle(&mut core, assign(9, "background", blue)), vec!["assigned false"]);
    let yes = ControlPropertyValue::Bool(true);
    assert_eq!(
        handle(&mut core, assign(2, "has-hover", yes)),
        vec!["assign 2 HasHover(true)", "assigned true", "encode"]
    );
}

#[test]
fn suspending_releases_the_window_and_its_controls() {
    let mut core = attached();
    let overlay = OverlayFrame { fonts: vec![], commands: vec![DrawCommand::Save] };
    core.handle(RenderMessage::SetOverlay { overlay });
    core.handle(RenderMessage::ApplyControlState { id: 2, hovered: true, pressed: true });
    assert_eq!(handle(&mut core, RenderMessage::Suspend), vec!["release"]);
    assert!(core.target().is_none());
    assert_eq!(core.overlay().commands.len(), 1);
    assert_eq!(
        handle(&mut core, RenderMessage::HitTest { x: sc(15.0), y: sc(15.0) }),
        vec!["hit None"]
    );
    let none: Vec<String> = vec![];
    assert_eq!(
        handle(&mut core, RenderMessage::ApplyControlState { id: 2, hovered: true, pressed: true }),
        none
    );
}

#[test]
fn an_attached_component_is_drawn_again_after_a_suspension() {
    let mut core = attached();
    core.handle(RenderMessage::Suspend);
    assert_eq!(names(&core.context_created(10, 10, double(1.0))), vec!["encode"]);
    let controls = vec![region(2, 10.0, 10.0, 10.0, 20.0)];
    assert_eq!(
        names(&core.mirror_encoded(Some((frame(controls), vec![(2, ItemKind::TouchArea)])))),
        vec!["publish 1", "present", "queue 10x10", "redraw"]
    );
}

#[test]
fn a_suspended_window_without_component_waits_for_a_scene() {
    let mut core = configured();
    core.handle(RenderMessage::RenderScene { frame: frame(vec![]) });
    core.handle(RenderMessage::Suspend);
    assert!(core.context_created(10, 10, double(1.0)).is_empty());
    assert!(core.target().unwrap().last_frame().is_none());
    assert_eq!(
        handle(&mut core, RenderMessage::RenderScene { frame: frame(vec![]) }),
        vec!["publish 0", "present", "queue 10x10", "redraw"]
    );
}

#[test]
fn closures_run_and_quitting_stops() {
    let mut core = Core::new();
    assert_eq!(handle(&mut core, RenderMessage::User), vec!["user"]);
    assert_eq!(handle(&mut core, RenderMessage::Quit), vec!["stop"]);
}

#[test]
fn properties_by_item_and_name() {
    let text = ControlPropertyValue::Text("hi".to_string());
    let color = ControlPropertyValue::Color { r: 1, g: 2, b: 3, a: 4 };
    let yes = ControlPropertyValue::Bool(true);
    let kinds = [
        ItemKind::ComplexText,
        ItemKind::SimpleText,
        ItemKind::TextInput,
        ItemKind::Rectangle,
        ItemKind::BasicBorderRectangle,
        ItemKind::BorderRectangle,
        ItemKind::TouchArea,
        ItemKind::Other,
    ];
    let taking = |property: &str, value: &ControlPropertyValue| -> Vec<bool> {
        kinds
            .iter()
            .map(|k| apply_control_property(*k, &property.to_string(), value).is_some())
            .collect()
    };
    let none = vec![false; 8];
    assert_eq!(taking("text", &text), vec![true, true, true, false, false, false, false, false]);
    assert_eq!(
        taking("background", &color),
        vec![false, false, false, true, true, true, false, false]
    );
    assert_eq!(taking("color", &color), vec![true, true, false, false, false, false, false, false]);
    for name in ["enabled", "pressed", "has-hover"] {
        assert_eq!(taking(name, &yes), vec![false, false, false, false, false, false, true, false]);
    }
    assert_eq!(taking("text", &color), none);
    assert_eq!(taking("background", &text), none);
    assert_eq!(taking("visible", &yes), none);
    assert_eq!(taking("opacity", &ControlPropertyValue::Number(sc(0.5))), none);
    match apply_control_property(ItemKind::TextInput, &"text".to_string(), &text) {
        Some(PropertyAssignment::Text(t)) => assert_eq!(t, "hi"),
        other => panic!("{other:?}"),
    }
    match apply_control_property(ItemKind::SimpleText, &"color".to_string(), &color) {
        Some(PropertyAssignment::Color(c)) => {
            assert_eq!((c.red, c.green, c.blue, c.alpha), (1, 2, 3, 4))
        }
        other => panic!("{other:?}"),
    }
    assert!(matches!(
        apply_control_property(ItemKind::TouchArea, &"enabled".to_string(), &ControlPropertyValue::Bool(false)),
        Some(PropertyAssignment::Enabled(false))
    ));
    assert!(matches!(
        apply_control_property(ItemKind::TouchArea, &"pressed".to_string(), &yes),
        Some(PropertyAssignment::Pressed(true))
    ));
}

#[test]
fn the_host_sends_what_it_is_asked_for() {
    let mut host = RenderHost::new(true);
    assert!(!host.has_attached_component());
    assert!(host.send_redraw());
    assert!(!RenderHost::new(false).send_redraw());
    assert!(matches!(
        host.apply_control_state(5, true, false),
        RenderMessage::ApplyControlState { id: 5, hovered: true, pressed: false }
    ));
    match host.set_control_property(5, "text", ControlPropertyValue::Bool(true)) {
        RenderMessage::SetControlProperty { id: 5, property, value: ControlPropertyValue::Bool(true) } => {
            assert_eq!(property, "text")
        }
        other => panic!("{other:?}"),
    }
    assert!(matches!(host.request_redraw(), RenderMessage::RequestRedraw));
    assert!(matches!(host.hit_test(sc(1.0), sc(2.0)), RenderMessage::HitTest { x, y } if x == sc(1.0) && y == sc(2.0)));
    assert!(matches!(host.send_user(), RenderMessage::User));
    assert!(matches!(host.send_quit(), RenderMessage::Quit));
    assert!(matches!(host.paint(3, 4), RenderMessage::User));
    assert!(matches!(host.submit_scene(frame(vec![])), RenderMessage::RenderScene { frame } if frame.width == 80));
    assert!(matches!(host.submit_overlay(OverlayFrame::default()), RenderMessage::SetOverlay { .. }));
    assert!(matches!(host.submit_resize(3, 4), RenderMessage::Resize { width: 3, height: 4 }));
    assert!(matches!(
        host.submit_configure(3, 4, double(1.5)),
        RenderMessage::Configure { width: 3, height: 4, scale_factor } if scale_factor == double(1.5)
    ));
    assert!(matches!(host.submit_accent(BLUE), RenderMessage::SetAccent { color: BLUE }));
    assert!(matches!(host.submit_suspend(), RenderMessage::Suspend));
    assert!(matches!(host.attach_component(), RenderMessage::AttachComponent));
    assert!(host.has_attached_component());
}

#[test]
fn a_render_thread_that_is_gone_answers_nothing() {
    assert!(!RenderHost::assignment_reply(None));
    assert!(!RenderHost::assignment_reply(Some(false)));
    assert!(RenderHost::assignment_reply(Some(true)));
    assert_eq!(RenderHost::hit_reply(None), None);
    assert_eq!(RenderHost::hit_reply(Some(None)), None);
    assert_eq!(RenderHost::hit_reply(Some(Some(4))), Some(4));
    assert!(forward_system_accent(None, BLUE).is_none());
    let host = RenderHost::new(true);
    assert!(matches!(
        forward_system_accent(Some(&host), BLUE),
        Some(RenderMessage::SetAccent { color: BLUE })
    ));
}

#[test]
fn an_encoded_scene_is_submitted_once_and_an_error_is_handed_on() {
    let renderer = DualThreadRenderer {};
    let mut host = RenderHost::new(true);
    let scene = || -> Result<SceneFrame, u8> { Ok(frame(vec![region(7, 1.0, 2.0, 3.0, 4.0)])) };
    match renderer.encode_scene(Some(&host), scene()) {
        Ok(Some(RenderMessage::RenderScene { frame })) => assert_eq!(frame.controls[0].id, 7),
        _ => panic!(),
    }
    assert!(matches!(renderer.encode_scene(Some(&host), Err(9u8)), Err(9)));
    assert!(matches!(renderer.encode_scene(None, scene()), Ok(None)));
    assert!(matches!(renderer.encode_scene(None, Err(9u8)), Ok(None)));
    host.attach_component();
    assert!(matches!(renderer.encode_scene(Some(&host), scene()), Ok(None)));
    assert!(matches!(renderer.encode_scene(Some(&host), Err(9u8)), Ok(None)));
}

#[test]
fn the_renderer_stops_encoding_once_a_component_is_attached() {
    let renderer = DualThreadRenderer {};
    let core_renderer = DualCoreRenderer {};
    let mut host = RenderHost::new(true);
    assert!(!renderer.encodes_scene(None));
    assert!(renderer.encodes_scene(Some(&host)));
    host.attach_component();
    assert!(!renderer.encodes_scene(Some(&host)));
    assert!(core_renderer.supports_transformations());
    assert!(core_renderer.resize(None, 1, 2).is_none());
    assert!(matches!(
        core_renderer.resize(Some(&host), 1, 2),
        Some(RenderMessage::Resize { width: 1, height: 2 })
    ));
    assert!(renderer.suspend(None).is_none());
    assert!(matches!(renderer.suspend(Some(&host)), Some(RenderMessage::Suspend)));
    assert!(renderer.resume(None, 1, 2, double(1.0)).is_none());
    assert!(matches!(
        renderer.resume(Some(&host), 1, 2, double(1.0)),
        Some(RenderMessage::Configure { width: 1, height: 2, .. })
    ));
    assert_eq!(
        DualThreadRenderer::window_error("denied"),
        "dualslint: Could not create winit window for GL rendering: denied"
    );
}

#[test]
fn a_context_is_set_up_in_order() {
    let mut stage = SetupStage::DisplayHandle;
    let mut seen = vec![];
    while stage != SetupStage::Ready {
        seen.push(stage);
        stage = stage.next(&StageResult::Done).unwrap();
    }
    assert_eq!(
        seen,
        vec![
            SetupStage::DisplayHandle,
            SetupStage::WindowHandle,
            SetupStage::Display,
            SetupStage::Config,
            SetupStage::EmbeddedContext,
            SetupStage::Surface,
            SetupStage::MakeCurrent,
            SetupStage::SwapInterval,
            SetupStage::Backend,
            SetupStage::Canvas,
        ]
    );
}

#[test]
fn a_context_that_fails_says_why() {
    let failed = StageResult::Failed("why".to_string());
    let texts = [
        (SetupStage::DisplayHandle, "Failed to get display handle: why"),
        (SetupStage::WindowHandle, "Failed to get window handle: why"),
        (SetupStage::Display, "glutin Display::new failed: why"),
        (SetupStage::Config, "glutin find_configs failed: why"),
        (SetupStage::DefaultContext, "glutin create_context failed: why"),
        (SetupStage::Surface, "glutin create_window_surface failed: why"),
        (SetupStage::MakeCurrent, "make_current failed: why"),
        (SetupStage::Backend, "femtovg OpenGL init failed: why"),
        (SetupStage::Canvas, "femtovg Canvas::new_with_text_context failed: why"),
    ];
    for (stage, text) in texts {
        assert_eq!(stage.next(&failed), Err(text.to_string()));
    }
    assert_eq!(
        SetupStage::Config.next(&StageResult::NothingFound),
        Err("No suitable GL config found".to_string())
    );
    assert_eq!(SetupStage::EmbeddedContext.next(&failed), Ok(SetupStage::DefaultContext));
    assert_eq!(SetupStage::DefaultContext.next(&StageResult::Done), Ok(SetupStage::Surface));
    assert_eq!(SetupStage::SwapInterval.next(&failed), Ok(SetupStage::Backend));
}

#[test]
fn surfaces_have_at_least_one_pixel() {
    assert_eq!(surface_extent(0), 1);
    assert_eq!(surface_extent(7), 7);
    assert_eq!(canvas_density(double(1.25)), sc(2.0));
    assert_eq!(canvas_density(double(2.0)), sc(2.0));
}

#[test]
fn pixel_targets_hold_four_channels_a_pixel() {
    assert_eq!(PixelTarget::new(0, 3).err(), Some("pixel target must be non-empty".to_string()));
    assert_eq!(PixelTarget::new(3, 0).err(), Some("pixel target must be non-empty".to_string()));
    let mut t = PixelTarget::new(3, 2).unwrap();
    assert_eq!((t.width(), t.height()), (3, 2));
    assert_eq!(t.bytes_mut().len(), 24);
    assert!(t.bytes_mut().iter().all(|b| *b == 0));
    t.bytes_mut()[5] = 9;
    t.mark_dirty(0, 0, 1, 1);
    t.mark_whole_dirty();
    t.present();
    assert_eq!(t.bytes_mut()[5], 9);
}

#[test]
fn the_first_window_handle_stays() {
    let mut slot = None;
    assert_eq!(hwnd(&slot, true), None);
    set_hwnd(&mut slot, 5);
    set_hwnd(&mut slot, 6);
    assert_eq!(hwnd(&slot, true), Some(5));
    assert_eq!(hwnd(&slot, false), None);
}
