//! The receiving half: what the render thread does with each message.
//!
//! [`RenderCore`] holds the state of the render thread as plain values.  A
//! handler takes a message, or the outcome of an action, and returns the actions
//! to perform in order; the caller performs them against the window system.
use crate::geometry::{LogicalPoint, Point};
use crate::host::{MessageModel, RenderMessage};
use crate::property::{
    apply_control_property, AssignmentModel, ControlPropertyValue, ItemKind, PropertyAssignment,
};
use crate::scalar::{Double, Scalar};
use crate::scene::{
    Color, ControlCoord, ControlRegion, Frame, OverlayFrame, OverlayModel, SceneFrame, SceneModel,
};
use std::collections::{HashMap, HashSet};
use vstd::prelude::*;
use vstd::std_specs::iter::IteratorSpec;
use vstd::string::*;

verus! {

/// The shared table of control coordinates, by control id.
pub type CoordinateMap = HashMap<u64, ControlCoord>;

/// Pointer input that stands for a change of a control's interaction state.
#[derive(Clone, Copy, Debug, PartialEq, Eq, Structural)]
pub enum PointerEvent {
    /// The pointer came to a position.
    Moved(LogicalPoint),
    /// The left button went down.
    Pressed(LogicalPoint),
    /// The left button went up.
    Released(LogicalPoint),
    /// The pointer left the window, and with it every control.
    Exited,
}

/// One thing for the render thread to do.
#[allow(inconsistent_fields)]
pub enum RenderAction {
    /// Create a rendering context for the window that came with the message, and
    /// hand the outcome to [`RenderCore::context_created`] or
    /// [`RenderCore::context_failed`].
    CreateContext { width: u32, height: u32, scale_factor: Double },
    /// Resize the surface of the window.
    ResizeSurface { width: u32, height: u32 },
    /// Set the size of the canvas.
    SetCanvasSize { width: u32, height: u32, dpi: Scalar },
    /// Replay the retained scene and the overlay, and present them.
    Present,
    /// Hand what is known of the frame that was presented to the user interface.
    QueueFrame(Frame),
    /// Replace the shared coordinate table.
    PublishCoordinates(CoordinateMap),
    /// Empty the shared coordinate table.
    ClearCoordinates,
    /// Wake the event loop of the user interface for the next snapshot.
    RequestUiRedraw,
    /// Set the accent colour of the attached component's context.
    SetAccentColor(Color),
    /// Instantiate the component that came with the message, and hand the outcome
    /// to [`RenderCore::component_built`].
    BuildComponent,
    /// Dispatch pointer input to the attached component.
    DispatchPointer(PointerEvent),
    /// Encode the attached component, and hand the outcome to
    /// [`RenderCore::mirror_encoded`].
    EncodeMirror,
    /// Assign a property of the item behind a control.
    AssignProperty { id: u64, assignment: PropertyAssignment },
    /// Answer a property assignment.
    ReplyAssigned(bool),
    /// Answer a hit test.
    ReplyHit(Option<u64>),
    /// Execute the closure that came with the message.
    RunUser,
    /// Drop the rendering context and release the window.
    Release,
    /// Report an error.
    Report(String),
    /// Leave the loop of the render thread.
    Stop,
}

/// The model of a [`RenderAction`].
#[allow(inconsistent_fields)]
pub enum ActionModel {
    CreateContext { width: u32, height: u32, scale_factor: Double },
    ResizeSurface { width: u32, height: u32 },
    SetCanvasSize { width: u32, height: u32, dpi: Scalar },
    Present,
    QueueFrame { width: u32, height: u32, pixels: Seq<u8> },
    PublishCoordinates(Map<u64, ControlCoord>),
    ClearCoordinates,
    RequestUiRedraw,
    SetAccentColor(Color),
    BuildComponent,
    DispatchPointer(PointerEvent),
    EncodeMirror,
    AssignProperty { id: u64, assignment: AssignmentModel },
    ReplyAssigned(bool),
    ReplyHit(Option<u64>),
    RunUser,
    Release,
    Report(Seq<char>),
    Stop,
}

impl View for RenderAction {
    type V = ActionModel;

    open spec fn view(&self) -> ActionModel {
        match *self {
            RenderAction::CreateContext { width, height, scale_factor } => {
                ActionModel::CreateContext { width, height, scale_factor }
            },
            RenderAction::ResizeSurface { width, height } => {
                ActionModel::ResizeSurface { width, height }
            },
            RenderAction::SetCanvasSize { width, height, dpi } => {
                ActionModel::SetCanvasSize { width, height, dpi }
            },
            RenderAction::Present => ActionModel::Present,
            RenderAction::QueueFrame(frame) => {
                ActionModel::QueueFrame {
                    width: frame.width,
                    height: frame.height,
                    pixels: frame.pixels@,
                }
            },
            RenderAction::PublishCoordinates(table) => ActionModel::PublishCoordinates(table@),
            RenderAction::ClearCoordinates => ActionModel::ClearCoordinates,
            RenderAction::RequestUiRedraw => ActionModel::RequestUiRedraw,
            RenderAction::SetAccentColor(color) => ActionModel::SetAccentColor(color),
            RenderAction::BuildComponent => ActionModel::BuildComponent,
            RenderAction::DispatchPointer(event) => ActionModel::DispatchPointer(event),
            RenderAction::EncodeMirror => ActionModel::EncodeMirror,
            RenderAction::AssignProperty { id, assignment } => {
                ActionModel::AssignProperty { id, assignment: assignment@ }
            },
            RenderAction::ReplyAssigned(applied) => ActionModel::ReplyAssigned(applied),
            RenderAction::ReplyHit(hit) => ActionModel::ReplyHit(hit),
            RenderAction::RunUser => ActionModel::RunUser,
            RenderAction::Release => ActionModel::Release,
            RenderAction::Report(text) => ActionModel::Report(text@),
            RenderAction::Stop => ActionModel::Stop,
        }
    }
}

/// The models of a list of actions.
pub open spec fn action_models(actions: Seq<RenderAction>) -> Seq<ActionModel> {
    actions.map_values(|a: RenderAction| a@)
}

/// The rendering context, as far as decisions depend on it.
pub struct RenderTarget {
    width: u32,
    height: u32,
    scale_factor: Scalar,
    /// The last scene, kept so that an overlay or a resize can be presented
    /// without the user interface.
    last_frame: Option<SceneFrame>,
}

/// The receiving half of the protocol.  `C` is the handle of an attached
/// component, which lives as long as it is held here.
pub struct RenderCore<C> {
    overlay: OverlayFrame,
    target: Option<RenderTarget>,
    /// Whether the attached component has a window.
    mirror: bool,
    /// Every component that was attached, the one that is drawn last.
    components: Vec<C>,
    controls: HashMap<u64, ControlRegion>,
    items: HashMap<u64, ItemKind>,
    hovered: HashSet<u64>,
    pressed: HashSet<u64>,
    accent: Option<Color>,
}

/// The model of a [`RenderTarget`].
pub struct TargetModel {
    pub width: u32,
    pub height: u32,
    pub scale_factor: Scalar,
    pub last_frame: Option<SceneModel>,
}

/// The model of a [`RenderCore`].
#[verifier::ext_equal]
pub struct CoreModel<C> {
    /// The layer on top of the scene; kept while the context is suspended.
    pub overlay: OverlayModel,
    pub target: Option<TargetModel>,
    /// Whether the attached component has a window.
    pub mirror: bool,
    /// The components that are held, the one that is drawn last.
    pub components: Seq<C>,
    /// The controls of the attached component, by id.
    pub controls: Map<u64, ControlRegion>,
    /// What each of them is.
    pub items: Map<u64, ItemKind>,
    pub hovered: Set<u64>,
    pub pressed: Set<u64>,
    /// The last accent colour of the system.
    pub accent: Option<Color>,
}

/// The regions by id; of two regions with one id the later one.
pub open spec fn regions_by_id(regions: Seq<ControlRegion>) -> Map<u64, ControlRegion>
    decreases regions.len(),
{
    if regions.len() == 0 {
        Map::empty()
    } else {
        regions_by_id(regions.drop_last()).insert(regions.last().id, regions.last())
    }
}

/// The kinds of items by id; of two items with one id the later one.
pub open spec fn kinds_by_id(items: Seq<(u64, ItemKind)>) -> Map<u64, ItemKind>
    decreases items.len(),
{
    if items.len() == 0 {
        Map::empty()
    } else {
        kinds_by_id(items.drop_last()).insert(items.last().0, items.last().1)
    }
}

/// The entry of a control in the shared coordinate table.
pub open spec fn coordinate(region: ControlRegion, hovered: bool, pressed: bool) -> ControlCoord {
    ControlCoord {
        x: region.geometry.origin.x,
        y: region.geometry.origin.y,
        width: region.geometry.size.width,
        height: region.geometry.size.height,
        hovered,
        pressed,
    }
}

/// The shared coordinate table of a list of regions.
pub open spec fn coordinates(
    regions: Seq<ControlRegion>,
    hovered: Set<u64>,
    pressed: Set<u64>,
) -> Map<u64, ControlCoord>
    decreases regions.len(),
{
    if regions.len() == 0 {
        Map::empty()
    } else {
        let last = regions.last();
        coordinates(regions.drop_last(), hovered, pressed).insert(
            last.id,
            coordinate(last, hovered.contains(last.id), pressed.contains(last.id)),
        )
    }
}

/// Whether a control of this id covers the point, and none that covers it has a
/// smaller area.
pub open spec fn smallest_hit(controls: Map<u64, ControlRegion>, p: Point, id: u64) -> bool {
    &&& controls.contains_key(id)
    &&& controls[id].geometry.covers(p)
    &&& forall|other: u64|
        #![trigger controls.contains_key(other)]
        controls.contains_key(other) && controls[other].geometry.covers(p)
            ==> controls[id].geometry.extent().at_most(controls[other].geometry.extent())
}

/// Whether `hit` answers which control owns the point: the smallest one that
/// covers it, or none when none does.
pub open spec fn answers_hit(
    controls: Map<u64, ControlRegion>,
    p: Point,
    hit: Option<u64>,
) -> bool {
    match hit {
        Some(id) => smallest_hit(controls, p, id),
        None => forall|id: u64|
            controls.contains_key(id) ==> !(#[trigger] controls[id]).geometry.covers(p),
    }
}

impl<C> CoreModel<C> {
    /// The state of a render thread that was just started.
    pub open spec fn idle() -> CoreModel<C> {
        CoreModel {
            overlay: OverlayModel { fonts: Seq::empty(), commands: Seq::empty() },
            target: None,
            mirror: false,
            components: Seq::<C>::empty(),
            controls: Map::empty(),
            items: Map::empty(),
            hovered: Set::empty(),
            pressed: Set::empty(),
            accent: None,
        }
    }

    /// Every control is found under its own id.
    pub open spec fn wf(self) -> bool {
        forall|id: u64|
            self.controls.contains_key(id) ==> (#[trigger] self.controls[id]).id == id
    }

    /// Whether a component is attached.
    pub open spec fn attached(self) -> bool {
        self.components.len() > 0
    }

    /// Whether a scene is retained.
    pub open spec fn retains(self) -> bool {
        self.target is Some && self.target->0.last_frame is Some
    }

    /// Present a scene, and queue what is known of the frame: its size, since no
    /// pixels are read back.
    pub open spec fn present(self) -> Seq<ActionModel> {
        seq![
            ActionModel::Present,
            ActionModel::QueueFrame {
                width: self.target->0.width,
                height: self.target->0.height,
                pixels: Seq::empty(),
            },
        ]
    }

    /// Present the retained scene, if there is one.
    pub open spec fn repaint(self) -> Seq<ActionModel> {
        if self.retains() {
            self.present()
        } else {
            Seq::empty()
        }
    }

    /// Encode the attached component, if it has a window.
    pub open spec fn encode(self) -> Seq<ActionModel> {
        if self.mirror {
            seq![ActionModel::EncodeMirror]
        } else {
            Seq::empty()
        }
    }

    /// After a scene was rendered: it is retained.
    pub open spec fn rendered(self, frame: SceneModel) -> CoreModel<C> {
        match self.target {
            Some(t) => CoreModel {
                target: Some(TargetModel { last_frame: Some(frame), ..t }),
                ..self
            },
            None => self,
        }
    }

    /// Render a scene: its controls are published, it is presented with the
    /// overlay and queued, and the next snapshot is asked for.
    pub open spec fn render(self, frame: SceneModel) -> Seq<ActionModel> {
        match self.target {
            Some(_) => seq![
                ActionModel::PublishCoordinates(
                    coordinates(frame.controls, self.hovered, self.pressed),
                ),
            ] + self.present() + seq![ActionModel::RequestUiRedraw],
            None => Seq::empty(),
        }
    }

    /// After the surface took a new size.
    pub open spec fn resized(self, width: u32, height: u32) -> CoreModel<C> {
        match self.target {
            Some(t) => CoreModel { target: Some(TargetModel { width, height, ..t }), ..self },
            None => self,
        }
    }

    /// Resize the surface, unless a side is zero, and the canvas; then present
    /// the retained scene.
    pub open spec fn resize(self, width: u32, height: u32) -> Seq<ActionModel> {
        match self.target {
            Some(t) => (if width != 0 && height != 0 {
                seq![ActionModel::ResizeSurface { width, height }]
            } else {
                Seq::empty()
            }).push(ActionModel::SetCanvasSize { width, height, dpi: t.scale_factor.rounded_up() })
                + self.resized(width, height).repaint(),
            None => Seq::empty(),
        }
    }

    /// Whether a control of the attached component has this id.
    pub open spec fn reaches(self, id: u64) -> bool {
        self.mirror && self.controls.contains_key(id)
    }

    /// After the interaction state of a control was set.
    pub open spec fn pointed(self, id: u64, hovered: bool, pressed: bool) -> CoreModel<C> {
        if self.reaches(id) {
            CoreModel {
                hovered: if hovered {
                    self.hovered.insert(id)
                } else {
                    self.hovered.remove(id)
                },
                pressed: if pressed {
                    self.pressed.insert(id)
                } else {
                    self.pressed.remove(id)
                },
                ..self
            }
        } else {
            self
        }
    }

    /// Dispatch what changed of the interaction state of a control, and encode the
    /// component again.  The pointer comes to the middle of the control, where the
    /// button goes down and up.  When the hover ends the pointer leaves the control
    /// last: the whole window, or no more than the control while its button is held,
    /// since leaving the window would let go of the button.
    pub open spec fn point(self, id: u64, hovered: bool, pressed: bool) -> Seq<ActionModel> {
        if self.reaches(id) {
            let position = self.controls[id].geometry.middle();
            let outside = self.controls[id].geometry.far_corner();
            (if hovered && !self.hovered.contains(id) {
                seq![ActionModel::DispatchPointer(PointerEvent::Moved(position))]
            } else {
                Seq::empty()
            }) + (if pressed && !self.pressed.contains(id) {
                seq![ActionModel::DispatchPointer(PointerEvent::Pressed(position))]
            } else if !pressed && self.pressed.contains(id) {
                seq![ActionModel::DispatchPointer(PointerEvent::Released(position))]
            } else {
                Seq::empty()
            }) + (if !hovered && self.hovered.contains(id) {
                seq![
                    ActionModel::DispatchPointer(
                        if pressed {
                            PointerEvent::Moved(outside)
                        } else {
                            PointerEvent::Exited
                        },
                    ),
                ]
            } else {
                Seq::empty()
            }) + seq![ActionModel::EncodeMirror]
        } else {
            Seq::empty()
        }
    }

    /// What a named property and a value assign to on a control, if anything.
    pub open spec fn loan(
        self,
        id: u64,
        property: Seq<char>,
        value: crate::property::PropertyValueModel,
    ) -> Option<AssignmentModel> {
        if self.items.contains_key(id) {
            crate::property::assignment(self.items[id], property, value)
        } else {
            None
        }
    }

    /// Assign a property of a control, answer, and encode the component again
    /// when it was assigned.
    pub open spec fn assign(
        self,
        id: u64,
        property: Seq<char>,
        value: crate::property::PropertyValueModel,
    ) -> Seq<ActionModel> {
        match self.loan(id, property, value) {
            Some(assignment) => seq![
                ActionModel::AssignProperty { id, assignment },
                ActionModel::ReplyAssigned(true),
            ] + self.encode(),
            None => seq![ActionModel::ReplyAssigned(false)],
        }
    }

    /// After the window was released, with what was known of its controls.  An
    /// attached component lives on.
    pub open spec fn suspended(self) -> CoreModel<C> {
        CoreModel {
            target: None,
            controls: Map::empty(),
            items: Map::empty(),
            hovered: Set::empty(),
            pressed: Set::empty(),
            ..self
        }
    }

    /// After a rendering context was created: it retains no scene yet.
    pub open spec fn with_context(
        self,
        width: u32,
        height: u32,
        scale_factor: Double,
    ) -> CoreModel<C> {
        CoreModel {
            target: Some(
                TargetModel {
                    width,
                    height,
                    scale_factor: scale_factor.narrowed(),
                    last_frame: None,
                },
            ),
            ..self
        }
    }

    /// After a component was instantiated: its handle is held beside the others.
    pub open spec fn with_component(self, component: C, window: bool) -> CoreModel<C> {
        CoreModel { components: self.components.push(component), mirror: window, ..self }
    }

    /// After the attached component was encoded, or could not be.
    pub open spec fn encoded(
        self,
        outcome: Option<(SceneModel, Seq<(u64, ItemKind)>)>,
    ) -> CoreModel<C> {
        match outcome {
            Some((frame, items)) => (CoreModel {
                controls: regions_by_id(frame.controls),
                items: kinds_by_id(items),
                ..self
            }).rendered(frame),
            None => self,
        }
    }

    /// What a new rendering context asks for: an attached component is drawn into it.
    pub open spec fn greet(self) -> Seq<ActionModel> {
        if self.attached() {
            self.encode()
        } else {
            Seq::empty()
        }
    }

    /// What an instantiated component asks for.
    pub open spec fn adopt(self, window: bool) -> Seq<ActionModel> {
        (if window && self.accent is Some {
            seq![ActionModel::SetAccentColor(self.accent->0)]
        } else {
            Seq::empty()
        }).push(ActionModel::ClearCoordinates) + (if window {
            seq![ActionModel::EncodeMirror]
        } else {
            Seq::empty()
        })
    }

    /// What an encoded component asks for.
    pub open spec fn show(
        self,
        outcome: Option<(SceneModel, Seq<(u64, ItemKind)>)>,
    ) -> Seq<ActionModel> {
        match outcome {
            Some((frame, _)) => self.render(frame),
            None => Seq::empty(),
        }
    }

    /// The state after a message.
    pub open spec fn after(self, message: MessageModel) -> CoreModel<C> {
        match message {
            MessageModel::Resize { width, height } => self.resized(width, height),
            MessageModel::RenderScene { frame } => if self.attached() {
                self
            } else {
                self.rendered(frame)
            },
            MessageModel::SetOverlay { overlay } => CoreModel { overlay, ..self },
            MessageModel::ApplyControlState { id, hovered, pressed } => {
                self.pointed(id, hovered, pressed)
            },
            MessageModel::SetAccent { color } => CoreModel { accent: Some(color), ..self },
            MessageModel::Suspend => self.suspended(),
            _ => self,
        }
    }

    /// Whether these are the actions that a message asks for.
    pub open spec fn asks_for(self, message: MessageModel, actions: Seq<ActionModel>) -> bool {
        match message {
            MessageModel::Configure { width, height, scale_factor } => actions == seq![
                ActionModel::CreateContext { width, height, scale_factor },
            ],
            MessageModel::Resize { width, height } => actions == self.resize(width, height),
            MessageModel::RenderScene { frame } => actions == if self.attached() {
                self.encode()
            } else {
                self.render(frame)
            },
            MessageModel::SetOverlay { .. } => actions == self.repaint(),
            MessageModel::User => actions == seq![ActionModel::RunUser],
            MessageModel::AttachComponent => actions == seq![ActionModel::BuildComponent],
            MessageModel::ApplyControlState { id, hovered, pressed } => actions == self.point(
                id,
                hovered,
                pressed,
            ),
            MessageModel::SetControlProperty { id, property, value } => actions == self.assign(
                id,
                property,
                value,
            ),
            MessageModel::RequestRedraw => actions == self.encode(),
            MessageModel::SetAccent { color } => actions == if self.mirror {
                seq![ActionModel::SetAccentColor(color)]
            } else {
                Seq::empty()
            },
            MessageModel::HitTest { x, y } => actions.len() == 1 && (actions[0] matches
                ActionModel::ReplyHit(hit) && answers_hit(self.controls, Point { x, y }, hit)),
            MessageModel::Suspend => actions == seq![ActionModel::Release],
            MessageModel::Quit => actions == seq![ActionModel::Stop],
        }
    }
}

impl RenderTarget {
    pub closed spec fn model(self) -> TargetModel {
        TargetModel {
            width: self.width,
            height: self.height,
            scale_factor: self.scale_factor,
            last_frame: match self.last_frame {
                Some(f) => Some(f@),
                None => None,
            },
        }
    }

    /// Physical pixel width of the window.
    pub fn width(&self) -> (r: u32)
        ensures
            r == self.model().width,
    {
        self.width
    }

    /// Physical pixel height of the window.
    pub fn height(&self) -> (r: u32)
        ensures
            r == self.model().height,
    {
        self.height
    }

    /// Physical pixels per logical pixel.
    pub fn scale_factor(&self) -> (r: Scalar)
        ensures
            r == self.model().scale_factor,
    {
        self.scale_factor
    }

    /// The retained scene.
    pub fn last_frame(&self) -> (r: Option<&SceneFrame>)
        ensures
            r is Some <==> self.model().last_frame is Some,
            r matches Some(f) ==> Some(f@) == self.model().last_frame,
    {
        match &self.last_frame {
            Some(f) => Some(f),
            None => None,
        }
    }
}

impl<C> RenderCore<C> {
    pub closed spec fn model(self) -> CoreModel<C> {
        CoreModel {
            overlay: self.overlay@,
            target: match self.target {
                Some(t) => Some(t.model()),
                None => None,
            },
            mirror: self.mirror,
            components: self.components@,
            controls: self.controls@,
            items: self.items@,
            hovered: self.hovered@,
            pressed: self.pressed@,
            accent: self.accent,
        }
    }
}

impl<C> View for RenderCore<C> {
    type V = CoreModel<C>;

    open spec fn view(&self) -> CoreModel<C> {
        self.model()
    }
}

/// The shared coordinate table of a list of regions.
pub fn publish_control_coords(
    controls: &Vec<ControlRegion>,
    hovered: &HashSet<u64>,
    pressed: &HashSet<u64>,
) -> (r: CoordinateMap)
    ensures
        r@ == coordinates(controls@, hovered@, pressed@),
{
    let mut r: CoordinateMap = HashMap::new();
    let mut i: usize = 0;
    while i < controls.len()
        invariant
            i <= controls.len(),
            r@ == coordinates(controls@.take(i as int), hovered@, pressed@),
        decreases controls.len() - i,
    {
        proof {
            assert(controls@.take(i + 1).drop_last() =~= controls@.take(i as int));
        }
        let c: ControlRegion = controls[i];
        r.insert(
            c.id,
            ControlCoord {
                x: c.geometry.origin.x,
                y: c.geometry.origin.y,
                width: c.geometry.size.width,
                height: c.geometry.size.height,
                hovered: hovered.contains(&c.id),
                pressed: pressed.contains(&c.id),
            },
        );
        i = i + 1;
    }
    proof {
        assert(controls@.take(i as int) =~= controls@);
    }
    r
}

fn collect_regions(regions: &Vec<ControlRegion>) -> (r: HashMap<u64, ControlRegion>)
    ensures
        r@ == regions_by_id(regions@),
{
    let mut r: HashMap<u64, ControlRegion> = HashMap::new();
    let mut i: usize = 0;
    while i < regions.len()
        invariant
            i <= regions.len(),
            r@ == regions_by_id(regions@.take(i as int)),
        decreases regions.len() - i,
    {
        proof {
            assert(regions@.take(i + 1).drop_last() =~= regions@.take(i as int));
        }
        r.insert(regions[i].id, regions[i]);
        i = i + 1;
    }
    proof {
        assert(regions@.take(i as int) =~= regions@);
    }
    r
}

fn collect_kinds(items: &Vec<(u64, ItemKind)>) -> (r: HashMap<u64, ItemKind>)
    ensures
        r@ == kinds_by_id(items@),
{
    let mut r: HashMap<u64, ItemKind> = HashMap::new();
    let mut i: usize = 0;
    while i < items.len()
        invariant
            i <= items.len(),
            r@ == kinds_by_id(items@.take(i as int)),
        decreases items.len() - i,
    {
        proof {
            assert(items@.take(i + 1).drop_last() =~= items@.take(i as int));
        }
        r.insert(items[i].0, items[i].1);
        i = i + 1;
    }
    proof {
        assert(items@.take(i as int) =~= items@);
    }
    r
}

/// Regions collected by id are found under their own id.
proof fn lemma_regions_by_id(regions: Seq<ControlRegion>)
    ensures
        forall|id: u64|
            regions_by_id(regions).contains_key(id) ==> (#[trigger] regions_by_id(
                regions,
            )[id]).id == id,
    decreases regions.len(),
{
    if regions.len() > 0 {
        let earlier = regions_by_id(regions.drop_last());
        let all = regions_by_id(regions);
        lemma_regions_by_id(regions.drop_last());
        assert forall|id: u64| all.contains_key(id) implies (#[trigger] all[id]).id == id by {
            if id != regions.last().id {
                assert(all[id] == earlier[id]);
            }
        }
    }
}

/// The control that owns a point: the smallest one that covers it.
pub fn find_hit(controls: &HashMap<u64, ControlRegion>, p: LogicalPoint) -> (r: Option<u64>)
    ensures
        answers_hit(controls@, p, r),
{
    let mut best: Option<(u64, Scalar)> = None;
    for entry in it: controls.iter()
        invariant
            it.seq() == vstd::std_specs::hash::spec_hash_map_iter(controls).remaining(),
            match best {
                Some((id, area)) => {
                    &&& controls@.contains_key(id)
                    &&& controls@[id].geometry.covers(p)
                    &&& area == controls@[id].geometry.extent()
                    &&& !area.not_a_number()
                    &&& forall|j: int|
                        #![trigger it.seq()[j]]
                        0 <= j < it.index() && it.seq()[j].1.geometry.covers(p) ==> area.at_most(
                            it.seq()[j].1.geometry.extent(),
                        )
                },
                None => forall|j: int|
                    #![trigger it.seq()[j]]
                    0 <= j < it.index() ==> !it.seq()[j].1.geometry.covers(p),
            },
    {
        let (id, region): (&u64, &ControlRegion) = entry;
        proof {
            assert(entry == it.seq()[it.index() as int]);
            assert(controls@.contains_key(*it.seq()[it.index() as int].0));
        }
        if region.geometry.contains(p) {
            let area: Scalar = region.geometry.area();
            proof {
                crate::geometry::law_covering_rectangle_has_area(region.geometry, p);
            }
            let better: bool = match best {
                Some((_, least)) => area.less_than(least),
                None => true,
            };
            if better {
                best = Some((*id, area));
            }
        }
    }
    let ghost all = vstd::std_specs::hash::spec_hash_map_iter(controls).remaining();
    proof {
        assert forall|k: u64| #[trigger] controls@.contains_key(k) implies exists|j: int|
            0 <= j < all.len() && *(#[trigger] all[j]).0 == k && *all[j].1 == controls@[k] by {
            assert(all.contains((&k, &controls@[k])));
            let j = choose|j: int| 0 <= j < all.len() && all[j] == (&k, &controls@[k]);
            assert(*all[j].0 == k);
        }
    }
    match best {
        Some((id, _)) => Some(id),
        None => None,
    }
}

impl<C> RenderCore<C> {
    /// A render thread without a context, a component or an overlay.
    pub fn new() -> (r: RenderCore<C>)
        ensures
            r@ == (CoreModel {
                overlay: OverlayModel { fonts: Seq::empty(), commands: Seq::empty() },
                target: None,
                mirror: false,
                components: Seq::<C>::empty(),
                controls: Map::empty(),
                items: Map::empty(),
                hovered: Set::empty(),
                pressed: Set::empty(),
                accent: None,
            }),
            r@ == CoreModel::<C>::idle(),
            r@.wf(),
    {
        let overlay: OverlayFrame = OverlayFrame::default();
        proof {
            assert(overlay@.fonts =~= Seq::empty());
            assert(overlay@.commands =~= Seq::empty());
        }
        RenderCore {
            overlay,
            target: None,
            mirror: false,
            components: Vec::new(),
            controls: HashMap::new(),
            items: HashMap::new(),
            hovered: HashSet::new(),
            pressed: HashSet::new(),
            accent: None,
        }
    }

    /// The rendering context, if there is one.
    pub fn target(&self) -> (r: Option<&RenderTarget>)
        ensures
            r is Some <==> self@.target is Some,
            r matches Some(t) ==> Some(t.model()) == self@.target,
    {
        match &self.target {
            Some(t) => Some(t),
            None => None,
        }
    }

    /// The layer on top of the scene.
    pub fn overlay(&self) -> (r: &OverlayFrame)
        ensures
            r@ == self@.overlay,
    {
        &self.overlay
    }

    fn repaint_retained(&self, actions: &mut Vec<RenderAction>)
        ensures
            action_models(final(actions)@) == action_models(old(actions)@) + self@.repaint(),
    {
        if let Some(t) = &self.target {
            if let Some(_) = &t.last_frame {
                actions.push(RenderAction::Present);
                actions.push(
                    RenderAction::QueueFrame(
                        Frame { width: t.width, height: t.height, pixels: Vec::new() },
                    ),
                );
            }
        }
        proof {
            assert(action_models(actions@) =~= action_models(old(actions)@) + self@.repaint());
        }
    }

    fn re_encode_mirror(&self, actions: &mut Vec<RenderAction>)
        ensures
            action_models(final(actions)@) == action_models(old(actions)@) + self@.encode(),
    {
        if self.mirror {
            actions.push(RenderAction::EncodeMirror);
        }
        proof {
            assert(action_models(actions@) =~= action_models(old(actions)@) + self@.encode());
        }
    }

    fn render_scene(&mut self, frame: SceneFrame) -> (r: Vec<RenderAction>)
        ensures
            final(self)@ == old(self)@.rendered(frame@),
            action_models(r@) == old(self)@.render(frame@),
    {
        let mut actions: Vec<RenderAction> = Vec::new();
        let taken: Option<RenderTarget> = self.target.take();
        if let Some(t) = taken {
            let mut t: RenderTarget = t;
            let table: CoordinateMap = publish_control_coords(
                &frame.controls,
                &self.hovered,
                &self.pressed,
            );
            let presented: Frame = Frame { width: t.width, height: t.height, pixels: Vec::new() };
            t.last_frame = Some(frame);
            self.target = Some(t);
            actions.push(RenderAction::PublishCoordinates(table));
            actions.push(RenderAction::Present);
            actions.push(RenderAction::QueueFrame(presented));
            actions.push(RenderAction::RequestUiRedraw);
        }
        proof {
            assert(action_models(actions@) =~= old(self)@.render(frame@));
        }
        actions
    }

    fn resize(&mut self, width: u32, height: u32) -> (r: Vec<RenderAction>)
        ensures
            final(self)@ == old(self)@.resized(width, height),
            action_models(r@) == old(self)@.resize(width, height),
    {
        let mut actions: Vec<RenderAction> = Vec::new();
        let taken: Option<RenderTarget> = self.target.take();
        if let Some(t) = taken {
            let mut t: RenderTarget = t;
            t.width = width;
            t.height = height;
            if width != 0 && height != 0 {
                actions.push(RenderAction::ResizeSurface { width, height });
            }
            actions.push(
                RenderAction::SetCanvasSize { width, height, dpi: t.scale_factor.ceil() },
            );
            self.target = Some(t);
            let ghost sized = actions@;
            self.repaint_retained(&mut actions);
            proof {
                assert(action_models(sized) + self@.repaint() =~= old(self)@.resize(width, height));
            }
        }
        proof {
            assert(action_models(actions@) =~= old(self)@.resize(width, height));
        }
        actions
    }

    fn apply_control_state(&mut self, id: u64, hovered: bool, pressed: bool) -> (r: Vec<
        RenderAction,
    >)
        ensures
            final(self)@ == old(self)@.pointed(id, hovered, pressed),
            action_models(r@) == old(self)@.point(id, hovered, pressed),
    {
        let mut actions: Vec<RenderAction> = Vec::new();
        proof {
            assert(action_models(actions@) =~= Seq::empty());
        }
        if !self.mirror {
            return actions;
        }
        let (position, outside): (LogicalPoint, LogicalPoint) = match self.controls.get(&id) {
            Some(region) => (region.geometry.center(), region.geometry.corner_outside()),
            None => {
                return actions;
            },
        };
        if hovered {
            if self.hovered.insert(id) {
                actions.push(RenderAction::DispatchPointer(PointerEvent::Moved(position)));
            }
        }
        if pressed {
            if self.pressed.insert(id) {
                actions.push(RenderAction::DispatchPointer(PointerEvent::Pressed(position)));
            }
        } else if self.pressed.remove(&id) {
            actions.push(RenderAction::DispatchPointer(PointerEvent::Released(position)));
        }
        if !hovered {
            if self.hovered.remove(&id) {
                actions.push(
                    RenderAction::DispatchPointer(
                        if pressed {
                            PointerEvent::Moved(outside)
                        } else {
                            PointerEvent::Exited
                        },
                    ),
                );
            }
        }
        actions.push(RenderAction::EncodeMirror);
        proof {
            assert(action_models(actions@) =~= old(self)@.point(id, hovered, pressed));
        }
        actions
    }

    fn set_control_property(
        &self,
        id: u64,
        property: &String,
        value: &ControlPropertyValue,
    ) -> (r: Vec<RenderAction>)
        ensures
            action_models(r@) == self@.assign(id, property@, value@),
    {
        let mut actions: Vec<RenderAction> = Vec::new();
        let loan: Option<PropertyAssignment> = match self.items.get(&id) {
            Some(kind) => apply_control_property(*kind, property, value),
            None => None,
        };
        match loan {
            Some(assignment) => {
                actions.push(RenderAction::AssignProperty { id, assignment });
                actions.push(RenderAction::ReplyAssigned(true));
                proof {
                    assert(action_models(actions@) =~= seq![
                        ActionModel::AssignProperty { id, assignment: assignment@ },
                        ActionModel::ReplyAssigned(true),
                    ]);
                }
                self.re_encode_mirror(&mut actions);
            },
            None => {
                actions.push(RenderAction::ReplyAssigned(false));
            },
        }
        proof {
            assert(action_models(actions@) =~= self@.assign(id, property@, value@));
        }
        actions
    }

    /// Handle a message: what to do, in order.
    #[verifier::rlimit(40)]
    pub fn handle(&mut self, message: RenderMessage) -> (r: Vec<RenderAction>)
        requires
            old(self)@.wf(),
        ensures
            final(self)@ == old(self)@.after(message@),
            old(self)@.asks_for(message@, action_models(r@)),
            final(self)@.wf(),
    {
        let mut actions: Vec<RenderAction> = Vec::new();
        proof {
            assert(action_models(actions@) =~= Seq::empty());
        }
        match message {
            RenderMessage::Configure { width, height, scale_factor } => {
                actions.push(RenderAction::CreateContext { width, height, scale_factor });
            },
            RenderMessage::Resize { width, height } => {
                return self.resize(width, height);
            },
            RenderMessage::RenderScene { frame } => {
                if self.components.len() > 0 {
                    self.re_encode_mirror(&mut actions);
                } else {
                    return self.render_scene(frame);
                }
            },
            RenderMessage::SetOverlay { overlay } => {
                self.overlay = overlay;
                self.repaint_retained(&mut actions);
            },
            RenderMessage::User => {
                actions.push(RenderAction::RunUser);
            },
            RenderMessage::AttachComponent => {
                actions.push(RenderAction::BuildComponent);
            },
            RenderMessage::ApplyControlState { id, hovered, pressed } => {
                return self.apply_control_state(id, hovered, pressed);
            },
            RenderMessage::SetControlProperty { id, property, value } => {
                return self.set_control_property(id, &property, &value);
            },
            RenderMessage::RequestRedraw => {
                self.re_encode_mirror(&mut actions);
            },
            RenderMessage::SetAccent { color } => {
                self.accent = Some(color);
                if self.mirror {
                    actions.push(RenderAction::SetAccentColor(color));
                }
            },
            RenderMessage::HitTest { x, y } => {
                let hit: Option<u64> = find_hit(&self.controls, Point { x, y });
                actions.push(RenderAction::ReplyHit(hit));
            },
            RenderMessage::Suspend => {
                self.target = None;
                self.controls.clear();
                self.items.clear();
                self.hovered.clear();
                self.pressed.clear();
                actions.push(RenderAction::Release);
            },
            RenderMessage::Quit => {
                actions.push(RenderAction::Stop);
            },
        }
        proof {
            let models = action_models(actions@);
            assert(models.len() == actions@.len());
            assert(actions@.len() == 1 ==> models =~= seq![actions@[0]@]);
            assert(actions@.len() == 0 ==> models =~= Seq::empty());
        }
        actions
    }

    /// A rendering context was created: it retains no scene yet.  An attached
    /// component is drawn into it.
    pub fn context_created(&mut self, width: u32, height: u32, scale_factor: Double) -> (r: Vec<
        RenderAction,
    >)
        requires
            old(self)@.wf(),
        ensures
            final(self)@ == old(self)@.with_context(width, height, scale_factor),
            action_models(r@) == old(self)@.greet(),
            action_models(r@) == if old(self)@.attached() {
                old(self)@.encode()
            } else {
                Seq::empty()
            },
            final(self)@.wf(),
    {
        self.target = Some(
            RenderTarget {
                width,
                height,
                scale_factor: scale_factor.to_scalar(),
                last_frame: None,
            },
        );
        let mut actions: Vec<RenderAction> = Vec::new();
        proof {
            assert(action_models(actions@) =~= Seq::empty());
        }
        if self.components.len() > 0 {
            self.re_encode_mirror(&mut actions);
        }
        proof {
            assert(action_models(actions@) =~= if old(self)@.attached() {
                old(self)@.encode()
            } else {
                Seq::empty()
            });
        }
        actions
    }

    /// No rendering context could be created: the error is reported, and what was
    /// there before stays.
    pub fn context_failed(&mut self, error: &str) -> (r: Vec<RenderAction>)
        ensures
            final(self)@ == old(self)@,
            action_models(r@) == seq![
                ActionModel::Report("dualslint render thread: GL init failed: "@ + error@),
            ],
    {
        let mut text: String = String::from_str("dualslint render thread: GL init failed: ");
        text.append(error);
        let mut actions: Vec<RenderAction> = Vec::new();
        actions.push(RenderAction::Report(text));
        proof {
            assert(action_models(actions@) =~= seq![
                ActionModel::Report("dualslint render thread: GL init failed: "@ + error@),
            ]);
        }
        actions
    }

    /// The component was instantiated; `window` says whether it made a window.  Its
    /// handle is held from now on, beside those of components attached before.
    /// From here on the render thread owns every control, so the table that the
    /// user interface published is dropped.
    pub fn component_built(&mut self, component: C, window: bool) -> (r: Vec<RenderAction>)
        requires
            old(self)@.wf(),
        ensures
            final(self)@ == old(self)@.with_component(component, window),
            action_models(r@) == old(self)@.adopt(window),
            action_models(r@) == (if window && old(self)@.accent is Some {
                seq![ActionModel::SetAccentColor(old(self)@.accent->0)]
            } else {
                Seq::empty()
            }).push(ActionModel::ClearCoordinates) + (if window {
                seq![ActionModel::EncodeMirror]
            } else {
                Seq::empty()
            }),
            final(self)@.wf(),
    {
        self.components.push(component);
        self.mirror = window;
        let mut actions: Vec<RenderAction> = Vec::new();
        if window {
            if let Some(color) = self.accent {
                actions.push(RenderAction::SetAccentColor(color));
            }
        }
        actions.push(RenderAction::ClearCoordinates);
        if window {
            actions.push(RenderAction::EncodeMirror);
        }
        proof {
            let expected = (if window && old(self)@.accent is Some {
                seq![ActionModel::SetAccentColor(old(self)@.accent->0)]
            } else {
                Seq::empty()
            }).push(ActionModel::ClearCoordinates) + (if window {
                seq![ActionModel::EncodeMirror]
            } else {
                Seq::empty()
            });
            assert(action_models(actions@) =~= expected);
        }
        actions
    }

    /// The attached component was encoded: its controls and the items behind
    /// them replace the ones before, and the scene is rendered.  `None` says that
    /// it could not be encoded, which leaves everything as it was.
    pub fn mirror_encoded(&mut self, encoded: Option<(SceneFrame, Vec<(u64, ItemKind)>)>) -> (r:
        Vec<RenderAction>)
        requires
            old(self)@.wf(),
        ensures
            final(self)@ == old(self)@.encoded(
                match encoded {
                    Some((frame, items)) => Some((frame@, items@)),
                    None => None,
                },
            ),
            action_models(r@) == old(self)@.show(
                match encoded {
                    Some((frame, items)) => Some((frame@, items@)),
                    None => None,
                },
            ),
            action_models(r@) == match encoded {
                Some((frame, _)) => old(self)@.render(frame@),
                None => Seq::empty(),
            },
            final(self)@.wf(),
    {
        match encoded {
            Some((frame, items)) => {
                self.controls = collect_regions(&frame.controls);
                self.items = collect_kinds(&items);
                proof {
                    lemma_regions_by_id(frame.controls@);
                }
                self.render_scene(frame)
            },
            None => {
                let actions: Vec<RenderAction> = Vec::new();
                proof {
                    assert(action_models(actions@) =~= Seq::empty());
                }
                actions
            },
        }
    }
}

} // verus!
