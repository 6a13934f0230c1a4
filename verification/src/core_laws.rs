//! What holds of the render thread in every state.
use crate::geometry::Point;
use crate::host::MessageModel;
use crate::property::ItemKind;
use crate::render_core::{ActionModel, CoreModel, PointerEvent};
use crate::scalar::Double;
use crate::scene::{ControlRegion, OverlayModel, SceneModel};
use vstd::prelude::*;

verus! {

/// A new overlay, and a resize, are presented from the retained scene at once:
/// neither asks the user interface for anything, nor encodes a component.
pub proof fn law_retained_scene_needs_no_user_interface<C>(
    m: CoreModel<C>,
    message: MessageModel,
    actions: Seq<ActionModel>,
)
    requires
        message is SetOverlay || message is Resize,
        m.asks_for(message, actions),
    ensures
        m.retains() ==> actions.len() > 1 && actions[actions.len() - 2] is Present,
        !m.retains() ==> forall|i: int|
            0 <= i < actions.len() ==> !((#[trigger] actions[i]) is Present),
        forall|i: int|
            0 <= i < actions.len() ==> !((#[trigger] actions[i]) is RequestUiRedraw)
                && !(actions[i] is EncodeMirror),
        m.after(message).retains() == m.retains(),
        m.retains() ==> m.after(message).target->0.last_frame == m.target->0.last_frame,
{
}

/// The overlay, the accent colour and an attached component outlive a suspended
/// context.
pub proof fn law_suspend_keeps_overlay_and_component<C>(m: CoreModel<C>)
    ensures
        m.after(MessageModel::Suspend).overlay == m.overlay,
        m.after(MessageModel::Suspend).accent == m.accent,
        m.after(MessageModel::Suspend).components == m.components,
        m.after(MessageModel::Suspend).mirror == m.mirror,
        m.after(MessageModel::Suspend).target is None,
{
}

/// No message drops a component, whatever the state of the rendering context.
pub proof fn law_component_stays_attached<C>(m: CoreModel<C>, message: MessageModel)
    ensures
        m.after(message).components == m.components,
        m.after(message).mirror == m.mirror,
        m.attached() ==> m.after(message).attached(),
{
}

/// What changes the state of the render thread.
pub enum EventModel<C> {
    /// A message was handled.
    Message(MessageModel),
    ContextCreated { width: u32, height: u32, scale_factor: Double },
    ComponentBuilt { component: C, window: bool },
    MirrorEncoded(Option<(SceneModel, Seq<(u64, ItemKind)>)>),
}

/// The state after an event.
pub open spec fn after_event<C>(m: CoreModel<C>, event: EventModel<C>) -> CoreModel<C> {
    match event {
        EventModel::Message(message) => m.after(message),
        EventModel::ContextCreated { width, height, scale_factor } => m.with_context(
            width,
            height,
            scale_factor,
        ),
        EventModel::ComponentBuilt { component, window } => m.with_component(component, window),
        EventModel::MirrorEncoded(outcome) => m.encoded(outcome),
    }
}

/// The state after a list of events.
pub open spec fn after_events<C>(m: CoreModel<C>, events: Seq<EventModel<C>>) -> CoreModel<C>
    decreases events.len(),
{
    if events.len() == 0 {
        m
    } else {
        after_event(after_events(m, events.drop_last()), events.last())
    }
}

/// The handle of a component is held for as long as the render thread runs: it is
/// still there after any events, suspended contexts and components attached later
/// included.
pub proof fn law_component_handle_is_held<C>(
    m: CoreModel<C>,
    component: C,
    window: bool,
    events: Seq<EventModel<C>>,
)
    ensures
        ({
            let held = after_events(m.with_component(component, window), events).components;
            &&& held.len() > m.components.len()
            &&& held[m.components.len() as int] == component
            &&& m.components.is_prefix_of(held)
        }),
    decreases events.len(),
{
    if events.len() > 0 {
        law_component_handle_is_held(m, component, window, events.drop_last());
    }
}

/// A new overlay replaces the one before, whatever that was.
pub proof fn law_overlay_is_replaced<C>(m: CoreModel<C>, first: OverlayModel, second: OverlayModel)
    ensures
        m.after(MessageModel::SetOverlay { overlay: first }).after(
            MessageModel::SetOverlay { overlay: second },
        ) == m.after(MessageModel::SetOverlay { overlay: second }),
{
}

/// Nothing is presented, and no surface is touched, without a rendering context.
pub proof fn law_nothing_is_drawn_without_context<C>(
    m: CoreModel<C>,
    message: MessageModel,
    actions: Seq<ActionModel>,
)
    requires
        m.target is None,
        m.asks_for(message, actions),
    ensures
        forall|i: int|
            0 <= i < actions.len() ==> !((#[trigger] actions[i]) is Present) && !(actions[i] is
                ResizeSurface) && !(actions[i] is SetCanvasSize) && !(actions[i] is
                PublishCoordinates),
        m.after(message).target is None,
{
}

/// Once a component is attached it owns the screen: a submitted scene is neither
/// presented nor retained, the component is drawn again instead.
pub proof fn law_attached_component_owns_the_screen<C>(
    m: CoreModel<C>,
    frame: SceneModel,
    actions: Seq<ActionModel>,
)
    requires
        m.attached(),
        m.asks_for(MessageModel::RenderScene { frame }, actions),
    ensures
        m.after(MessageModel::RenderScene { frame }) == m,
        m.asks_for(MessageModel::RequestRedraw, actions),
{
}

/// Requesting an interaction state a second time dispatches no input: only
/// changes do.
pub proof fn law_interaction_state_is_idempotent<C>(
    m: CoreModel<C>,
    id: u64,
    hovered: bool,
    pressed: bool,
)
    requires
        m.reaches(id),
    ensures
        m.pointed(id, hovered, pressed).point(id, hovered, pressed) == seq![
            ActionModel::EncodeMirror,
        ],
        m.pointed(id, hovered, pressed).pointed(id, hovered, pressed) == m.pointed(
            id,
            hovered,
            pressed,
        ),
{
    let n = m.pointed(id, hovered, pressed);
    assert(n.point(id, hovered, pressed) =~= seq![ActionModel::EncodeMirror]);
    assert(n.pointed(id, hovered, pressed) =~= n);
}

/// The pointer ends up where the request wants it: a hover that begins brings it to
/// the middle of the control, and a hover that ends makes it leave the control as the
/// last input that is dispatched.  Nothing moves it over the control then.
pub proof fn law_hover_follows_the_request<C>(
    m: CoreModel<C>,
    id: u64,
    hovered: bool,
    pressed: bool,
)
    requires
        m.reaches(id),
        hovered != m.hovered.contains(id),
    ensures
        ({
            let actions = m.point(id, hovered, pressed);
            &&& hovered ==> actions[0] == ActionModel::DispatchPointer(
                PointerEvent::Moved(m.controls[id].geometry.middle()),
            )
            &&& !hovered ==> actions.len() >= 2 && match actions[actions.len() - 2] {
                ActionModel::DispatchPointer(PointerEvent::Exited) => !pressed,
                ActionModel::DispatchPointer(PointerEvent::Moved(p)) => {
                    pressed && !m.controls[id].geometry.covers(p)
                },
                _ => false,
            }
            &&& !hovered ==> forall|i: int|
                0 <= i < actions.len() ==> (#[trigger] actions[i] matches
                    ActionModel::DispatchPointer(PointerEvent::Moved(p))
                    ==> !m.controls[id].geometry.covers(p))
            &&& hovered ==> forall|i: int|
                0 <= i < actions.len() ==> #[trigger] actions[i] != ActionModel::DispatchPointer(
                    PointerEvent::Exited,
                )
        }),
{
}

/// A button that is asked to be held stays down: nothing lets go of it, neither a
/// release nor a pointer that leaves the window, and it goes down only where it was
/// up.
pub proof fn law_held_button_stays_down<C>(m: CoreModel<C>, id: u64, hovered: bool)
    requires
        m.reaches(id),
    ensures
        ({
            let actions = m.point(id, hovered, true);
            let down = ActionModel::DispatchPointer(
                PointerEvent::Pressed(m.controls[id].geometry.middle()),
            );
            &&& forall|i: int|
                0 <= i < actions.len() ==> !(#[trigger] actions[i] matches
                    ActionModel::DispatchPointer(PointerEvent::Released(_))) && !(actions[i]
                    matches ActionModel::DispatchPointer(PointerEvent::Exited))
            &&& actions.contains(down) <==> !m.pressed.contains(id)
            &&& m.pointed(id, hovered, true).pressed.contains(id)
        }),
{
    let actions = m.point(id, hovered, true);
    if !m.pressed.contains(id) {
        let at: int = if hovered && !m.hovered.contains(id) {
            1
        } else {
            0
        };
        assert(actions[at] is DispatchPointer);
    }
}

/// Every frame that is presented is queued next, with the size at which it was
/// presented: after a message, and when a scene is rendered.
pub proof fn law_presented_frame_is_queued<C>(
    m: CoreModel<C>,
    message: MessageModel,
    actions: Seq<ActionModel>,
    frame: SceneModel,
)
    requires
        m.asks_for(message, actions),
    ensures
        queues_frames(m.after(message), actions),
        queues_frames(m, m.render(frame)),
{
}

/// Whether each presented frame is queued next, with the size of the window.
pub open spec fn queues_frames<C>(m: CoreModel<C>, actions: Seq<ActionModel>) -> bool {
    forall|i: int|
        0 <= i < actions.len() && (#[trigger] actions[i]) is Present ==> i + 1 < actions.len()
            && actions[i + 1] == (ActionModel::QueueFrame {
            width: m.target->0.width,
            height: m.target->0.height,
            pixels: Seq::empty(),
        })
}

/// The interaction state that was requested last is the one that is published
/// with the next scene that shows the control.
pub proof fn law_interaction_state_is_published<C>(
    m: CoreModel<C>,
    id: u64,
    hovered: bool,
    pressed: bool,
    regions: Seq<ControlRegion>,
    at: int,
)
    requires
        m.reaches(id),
        0 <= at < regions.len(),
        regions[at].id == id,
    ensures
        ({
            let n = m.pointed(id, hovered, pressed);
            let table = crate::render_core::coordinates(regions, n.hovered, n.pressed);
            &&& table.contains_key(id)
            &&& table[id].hovered == hovered
            &&& table[id].pressed == pressed
        }),
{
    let n = m.pointed(id, hovered, pressed);
    lemma_coordinates(regions, n.hovered, n.pressed);
    lemma_regions_contain(regions, at);
}

proof fn lemma_regions_contain(regions: Seq<ControlRegion>, at: int)
    requires
        0 <= at < regions.len(),
    ensures
        crate::render_core::regions_by_id(regions).contains_key(regions[at].id),
    decreases regions.len(),
{
    if at < regions.len() - 1 {
        lemma_regions_contain(regions.drop_last(), at);
        assert(regions.drop_last()[at] == regions[at]);
    }
}

proof fn lemma_coordinates(regions: Seq<ControlRegion>, hovered: Set<u64>, pressed: Set<u64>)
    ensures
        ({
            let table = crate::render_core::coordinates(regions, hovered, pressed);
            let controls = crate::render_core::regions_by_id(regions);
            &&& table.dom() == controls.dom()
            &&& forall|id: u64|
                table.contains_key(id) ==> #[trigger] table[id] == crate::render_core::coordinate(
                    controls[id],
                    hovered.contains(id),
                    pressed.contains(id),
                )
        }),
    decreases regions.len(),
{
    let table = crate::render_core::coordinates(regions, hovered, pressed);
    let controls = crate::render_core::regions_by_id(regions);
    if regions.len() > 0 {
        let last = regions.last();
        lemma_coordinates(regions.drop_last(), hovered, pressed);
        let t = crate::render_core::coordinates(regions.drop_last(), hovered, pressed);
        let c = crate::render_core::regions_by_id(regions.drop_last());
        assert(table.dom() =~= controls.dom());
        assert forall|id: u64| table.contains_key(id) implies #[trigger] table[id]
            == crate::render_core::coordinate(
            controls[id],
            hovered.contains(id),
            pressed.contains(id),
        ) by {
            if id != last.id {
                assert(t.contains_key(id));
                assert(table[id] == t[id]);
            }
        }
    } else {
        assert(table.dom() =~= controls.dom());
    }
}

/// The shared table shows what was drawn: it has the controls of the scene and no
/// others, and a point is inside an entry exactly where the control covers it.
pub proof fn law_table_shows_what_was_drawn(
    regions: Seq<ControlRegion>,
    hovered: Set<u64>,
    pressed: Set<u64>,
    id: u64,
    p: Point,
)
    ensures
        ({
            let table = crate::render_core::coordinates(regions, hovered, pressed);
            let controls = crate::render_core::regions_by_id(regions);
            &&& table.contains_key(id) <==> controls.contains_key(id)
            &&& table.contains_key(id) ==> (table[id].rect().covers(p)
                <==> controls[id].geometry.covers(p))
        }),
{
    lemma_coordinates(regions, hovered, pressed);
    let table = crate::render_core::coordinates(regions, hovered, pressed);
    let controls = crate::render_core::regions_by_id(regions);
    assert(table.contains_key(id) <==> table.dom().contains(id));
    assert(controls.contains_key(id) <==> controls.dom().contains(id));
    if table.contains_key(id) {
        assert(table[id].rect() == controls[id].geometry);
    }
}

/// A point that some control covers is owned by one, and the owner is no larger
/// than any other that covers it, so that nested elements come before the ones
/// around them.
pub proof fn law_nested_control_is_hit<C>(
    m: CoreModel<C>,
    p: Point,
    hit: Option<u64>,
    outer: u64,
    inner: u64,
)
    requires
        crate::render_core::answers_hit(m.controls, p, hit),
        m.controls.contains_key(outer),
        m.controls.contains_key(inner),
        m.controls[outer].geometry.covers(p),
        m.controls[inner].geometry.covers(p),
        m.controls[inner].geometry.extent().below(m.controls[outer].geometry.extent()),
    ensures
        hit is Some,
        hit != Some(outer),
{
}

/// A property is assigned exactly when the answer says so, and the component is
/// drawn again exactly then.
pub proof fn law_assignment_is_answered<C>(
    m: CoreModel<C>,
    id: u64,
    property: Seq<char>,
    value: crate::property::PropertyValueModel,
    actions: Seq<ActionModel>,
)
    requires
        m.asks_for(MessageModel::SetControlProperty { id, property, value }, actions),
    ensures
        m.loan(id, property, value) is Some <==> actions.contains(ActionModel::ReplyAssigned(true)),
        m.loan(id, property, value) is None <==> actions == seq![
            ActionModel::ReplyAssigned(false),
        ],
{
    if m.loan(id, property, value) is Some {
        assert(actions[1] == ActionModel::ReplyAssigned(true));
        assert(actions.len() >= 2);
    } else {
        assert(actions.len() == 1);
        assert(actions[0] == ActionModel::ReplyAssigned(false));
        assert forall|i: int| 0 <= i < actions.len() implies actions[i]
            != ActionModel::ReplyAssigned(true) by {}
    }
}

} // verus!
