//! What each message asks of the render thread, and what it leaves behind.
//!
//! The laws speak of the values in the message, of the fields of the state and of
//! the actions; positions are given by the edges of a control.
use crate::geometry::{Point, Rect};
use crate::host::MessageModel;
use crate::property::{AssignmentModel, ControlPropertyValue, ItemKind, PropertyValueModel};
use crate::render_core::{ActionModel, CoreModel, PointerEvent, TargetModel};
use crate::scalar::{Double, Scalar};
use crate::scene::{Color, ControlCoord, ControlRegion, OverlayModel, SceneModel};
use vstd::prelude::*;

verus! {

/// Whether a point is half the width to the right of the left edge, and half the
/// height below the top edge.
pub open spec fn is_middle(g: Rect, p: Point) -> bool {
    let two = Scalar { bits: 0x4000_0000 };
    &&& p.x == g.origin.x.sum(g.size.width.quotient(two))
    &&& p.y == g.origin.y.sum(g.size.height.quotient(two))
}

/// Whether a point is where the right edge and the bottom edge meet.
pub open spec fn is_far_corner(g: Rect, p: Point) -> bool {
    &&& p.x == g.origin.x.sum(g.size.width)
    &&& p.y == g.origin.y.sum(g.size.height)
}

/// Whether a point is inside: at the left and the top edge or beyond, and before the
/// right and the bottom edge.
pub open spec fn is_inside(g: Rect, x: Scalar, y: Scalar) -> bool {
    &&& g.origin.x.at_most(x)
    &&& x.below(g.origin.x.sum(g.size.width))
    &&& g.origin.y.at_most(y)
    &&& y.below(g.origin.y.sum(g.size.height))
}

/// Whether the action lets go of the button.
pub open spec fn lets_go(action: ActionModel) -> bool {
    action matches ActionModel::DispatchPointer(PointerEvent::Released(_))
}

/// Whether the action presses the button.
pub open spec fn presses(action: ActionModel) -> bool {
    action matches ActionModel::DispatchPointer(PointerEvent::Pressed(_))
}

/// A button that was held and is asked to be up goes up: once, in the middle of the
/// control, whether the pointer hovers or not.  One that was up is not let go of, and
/// asking for a button to be up never presses it.
pub proof fn law_let_go_button_goes_up<C>(
    m: CoreModel<C>,
    id: u64,
    hovered: bool,
    actions: Seq<ActionModel>,
)
    requires
        m.mirror,
        m.controls.contains_key(id),
        m.asks_for(MessageModel::ApplyControlState { id, hovered, pressed: false }, actions),
    ensures
        m.pressed.contains(id) ==> exists|i: int|
            0 <= i < actions.len() && lets_go(#[trigger] actions[i]),
        forall|i: int|
            0 <= i < actions.len() && lets_go(#[trigger] actions[i]) ==> m.pressed.contains(id)
                && (actions[i] matches ActionModel::DispatchPointer(PointerEvent::Released(p))
                && is_middle(m.controls[id].geometry, p)),
        forall|i: int, j: int|
            0 <= i < actions.len() && 0 <= j < actions.len() && lets_go(#[trigger] actions[i])
                && lets_go(#[trigger] actions[j]) ==> i == j,
        forall|i: int| 0 <= i < actions.len() ==> !presses(#[trigger] actions[i]),
        !m.after(
            MessageModel::ApplyControlState { id, hovered, pressed: false },
        ).pressed.contains(id),
{
    if m.pressed.contains(id) {
        let at: int = if hovered && !m.hovered.contains(id) {
            1
        } else {
            0
        };
        assert(lets_go(actions[at]));
    }
}

/// A button that was up and is asked to be down goes down: once, in the middle of the
/// control, whether the pointer hovers or not.  One that was down is not pressed again.
pub proof fn law_pressed_button_goes_down<C>(
    m: CoreModel<C>,
    id: u64,
    hovered: bool,
    actions: Seq<ActionModel>,
)
    requires
        m.mirror,
        m.controls.contains_key(id),
        m.asks_for(MessageModel::ApplyControlState { id, hovered, pressed: true }, actions),
    ensures
        !m.pressed.contains(id) ==> exists|i: int|
            0 <= i < actions.len() && presses(#[trigger] actions[i]),
        forall|i: int|
            0 <= i < actions.len() && presses(#[trigger] actions[i]) ==> !m.pressed.contains(id)
                && (actions[i] matches ActionModel::DispatchPointer(PointerEvent::Pressed(p))
                && is_middle(m.controls[id].geometry, p)),
        forall|i: int, j: int|
            0 <= i < actions.len() && 0 <= j < actions.len() && presses(#[trigger] actions[i])
                && presses(#[trigger] actions[j]) ==> i == j,
        forall|i: int| 0 <= i < actions.len() ==> !lets_go(#[trigger] actions[i]),
        m.after(
            MessageModel::ApplyControlState { id, hovered, pressed: true },
        ).pressed.contains(id),
{
    if !m.pressed.contains(id) {
        let at: int = if hovered && !m.hovered.contains(id) {
            1
        } else {
            0
        };
        assert(presses(actions[at]));
    }
}

/// Each change of the interaction state is one input, in the order move in, button,
/// move out, and the component is encoded after the last of them.  The pointer comes to
/// the middle of the control; while the button is held it leaves to the far corner, and
/// out of the window otherwise.
#[verifier::rlimit(40)]
pub proof fn law_interaction_is_one_input_per_change<C>(
    m: CoreModel<C>,
    id: u64,
    hovered: bool,
    pressed: bool,
    actions: Seq<ActionModel>,
)
    requires
        m.mirror,
        m.controls.contains_key(id),
        m.asks_for(MessageModel::ApplyControlState { id, hovered, pressed }, actions),
    ensures
        ({
            let g = m.controls[id].geometry;
            let comes = hovered && !m.hovered.contains(id);
            let goes = !hovered && m.hovered.contains(id);
            let changes = pressed != m.pressed.contains(id);
            let button: int = if comes {
                1
            } else {
                0
            };
            &&& actions.len() == 1 + (if comes || goes {
                1int
            } else {
                0
            }) + (if changes {
                1int
            } else {
                0
            })
            &&& actions[actions.len() - 1] is EncodeMirror
            &&& forall|i: int|
                0 <= i < actions.len() - 1 ==> (#[trigger] actions[i]) is DispatchPointer
            &&& comes ==> (actions[0] matches ActionModel::DispatchPointer(PointerEvent::Moved(p))
                && is_middle(g, p))
            &&& changes && pressed ==> (actions[button] matches ActionModel::DispatchPointer(
                PointerEvent::Pressed(p),
            ) && is_middle(g, p))
            &&& changes && !pressed ==> (actions[button] matches ActionModel::DispatchPointer(
                PointerEvent::Released(p),
            ) && is_middle(g, p))
            &&& goes && pressed ==> (actions[actions.len() - 2] matches
                ActionModel::DispatchPointer(PointerEvent::Moved(p)) && is_far_corner(g, p))
            &&& goes && !pressed ==> (actions[actions.len() - 2] matches
                ActionModel::DispatchPointer(PointerEvent::Exited))
        }),
{
}

/// The interaction state that is asked for is remembered of that control, and that of
/// every other control stays as it was; so does everything else.
pub proof fn law_interaction_state_is_remembered<C>(
    m: CoreModel<C>,
    id: u64,
    hovered: bool,
    pressed: bool,
    other: u64,
)
    ensures
        ({
            let n = m.after(MessageModel::ApplyControlState { id, hovered, pressed });
            let known = m.mirror && m.controls.contains_key(id);
            &&& n.hovered.contains(other) == if known && other == id {
                hovered
            } else {
                m.hovered.contains(other)
            }
            &&& n.pressed.contains(other) == if known && other == id {
                pressed
            } else {
                m.pressed.contains(other)
            }
            &&& n.overlay == m.overlay
            &&& n.target == m.target
            &&& n.mirror == m.mirror
            &&& n.components == m.components
            &&& n.controls == m.controls
            &&& n.items == m.items
            &&& n.accent == m.accent
        }),
{
}

/// A render thread that was just started knows of nothing: no window, component, overlay,
/// control or accent colour.
pub proof fn law_started_thread_knows_nothing<C>(id: u64)
    ensures
        ({
            let m = CoreModel::<C>::idle();
            &&& m.target is None && !m.mirror && m.components.len() == 0 && m.accent is None
            &&& m.overlay.fonts.len() == 0 && m.overlay.commands.len() == 0
            &&& !m.controls.contains_key(id) && !m.items.contains_key(id)
            &&& !m.hovered.contains(id) && !m.pressed.contains(id)
        }),
{
}

/// A control that is not there is not interacted with.
pub proof fn law_unknown_control_takes_no_input<C>(
    m: CoreModel<C>,
    id: u64,
    hovered: bool,
    pressed: bool,
    actions: Seq<ActionModel>,
)
    requires
        !m.mirror || !m.controls.contains_key(id),
        m.asks_for(MessageModel::ApplyControlState { id, hovered, pressed }, actions),
    ensures
        actions.len() == 0,
{
}

/// Whether an assignment is to this property, with the colour of these channels.
pub open spec fn assigns_color(
    a: AssignmentModel,
    background: bool,
    r: u8,
    g: u8,
    b: u8,
    alpha: u8,
) -> bool {
    match a {
        AssignmentModel::Background(c) => {
            background && c.red == r && c.green == g && c.blue == b && c.alpha == alpha
        },
        AssignmentModel::Color(c) => {
            !background && c.red == r && c.green == g && c.blue == b && c.alpha == alpha
        },
        _ => false,
    }
}

/// A colour that is lent to a control arrives channel by channel: the background of a
/// rectangle, of any of the three kinds, and the colour of a text take the red, green,
/// blue and alpha that were sent.  No other item and no other name takes a colour.
pub proof fn law_lent_color_arrives(
    kind: ItemKind,
    property: Seq<char>,
    r: u8,
    g: u8,
    b: u8,
    a: u8,
)
    ensures
        ({
            let value = (ControlPropertyValue::Color { r, g, b, a })@;
            let assigned = crate::property::assignment(kind, property, value);
            let to_background = property == "background"@ && (kind == ItemKind::Rectangle || kind
                == ItemKind::BasicBorderRectangle || kind == ItemKind::BorderRectangle);
            let to_color = property == "color"@ && (kind == ItemKind::ComplexText || kind
                == ItemKind::SimpleText);
            &&& assigned is Some <==> to_background || to_color
            &&& assigned matches Some(what) ==> assigns_color(what, to_background, r, g, b, a)
        }),
{
    reveal_strlit("background");
    reveal_strlit("color");
    assert("background"@.len() != "color"@.len());
}

/// A text that is lent arrives as it is, and only the text of an item that shows one
/// takes it.
pub proof fn law_lent_text_arrives(kind: ItemKind, property: Seq<char>, text: String)
    ensures
        ({
            let value = ControlPropertyValue::Text(text)@;
            let assigned = crate::property::assignment(kind, property, value);
            &&& assigned is Some <==> property == "text"@ && (kind == ItemKind::ComplexText || kind
                == ItemKind::SimpleText || kind == ItemKind::TextInput)
            &&& assigned matches Some(what) ==> (what matches AssignmentModel::Text(t) && t
                == text@)
        }),
{
}

/// A truth value that is lent arrives as it is: `enabled`, `pressed` and `has-hover` of
/// a touch area take it, each under its own name, and nothing else does.
pub proof fn law_lent_bool_arrives(kind: ItemKind, property: Seq<char>, value: bool)
    ensures
        ({
            let assigned = crate::property::assignment(
                kind,
                property,
                ControlPropertyValue::Bool(value)@,
            );
            let touch = kind == ItemKind::TouchArea;
            &&& touch && property == "enabled"@ <==> (assigned matches Some(
                AssignmentModel::Enabled(_),
            ))
            &&& touch && property == "pressed"@ <==> (assigned matches Some(
                AssignmentModel::Pressed(_),
            ))
            &&& touch && property == "has-hover"@ <==> (assigned matches Some(
                AssignmentModel::HasHover(_),
            ))
            &&& match assigned {
                Some(AssignmentModel::Enabled(v)) => v == value,
                Some(AssignmentModel::Pressed(v)) => v == value,
                Some(AssignmentModel::HasHover(v)) => v == value,
                Some(_) => false,
                None => true,
            }
        }),
{
    reveal_strlit("enabled");
    reveal_strlit("pressed");
    reveal_strlit("has-hover");
    assert("enabled"@[0] != "pressed"@[0]);
    assert("enabled"@.len() != "has-hover"@.len());
    assert("pressed"@.len() != "has-hover"@.len());
}

/// No item takes a number.
pub proof fn law_lent_number_is_refused(kind: ItemKind, property: Seq<char>, value: Scalar)
    ensures
        crate::property::assignment(kind, property, ControlPropertyValue::Number(value)@) is None,
{
}

/// A loan goes to the control that it names: the item behind it is assigned what its
/// kind makes of the name and the value, before the answer, and the component is then
/// encoded where it has a window.  A control that is not known is not assigned.
pub proof fn law_loan_goes_to_the_control<C>(
    m: CoreModel<C>,
    id: u64,
    property: Seq<char>,
    value: PropertyValueModel,
    actions: Seq<ActionModel>,
)
    requires
        m.asks_for(MessageModel::SetControlProperty { id, property, value }, actions),
    ensures
        ({
            let made = crate::property::assignment(m.items[id], property, value);
            let applied = m.items.contains_key(id) && made is Some;
            &&& applied ==> actions.len() == if m.mirror {
                3int
            } else {
                2
            }
            &&& applied ==> actions[0] == (ActionModel::AssignProperty { id, assignment: made->0 })
            &&& applied ==> actions[1] == ActionModel::ReplyAssigned(true)
            &&& applied && m.mirror ==> actions[2] == ActionModel::EncodeMirror
            &&& !applied ==> actions.len() == 1 && actions[0] == ActionModel::ReplyAssigned(false)
            &&& m.after(MessageModel::SetControlProperty { id, property, value }) == m
        }),
{
}

/// Whether the table holds these regions: under each id the edges of the last region
/// that has it, with its interaction state, and nothing else.
pub open spec fn tabulates(
    table: Map<u64, ControlCoord>,
    regions: Seq<ControlRegion>,
    hovered: Set<u64>,
    pressed: Set<u64>,
) -> bool {
    &&& forall|at: int|
        #![trigger regions[at]]
        0 <= at < regions.len() && is_last(regions, at) ==> {
            let id = regions[at].id;
            let g = regions[at].geometry;
            &&& table.contains_key(id)
            &&& table[id].x == g.origin.x
            &&& table[id].y == g.origin.y
            &&& table[id].width == g.size.width
            &&& table[id].height == g.size.height
            &&& table[id].hovered == hovered.contains(id)
            &&& table[id].pressed == pressed.contains(id)
        }
    &&& forall|id: u64| #[trigger] table.contains_key(id) ==> has_region(regions, id)
}

/// Whether no later region has the id of this one.
pub open spec fn is_last(regions: Seq<ControlRegion>, at: int) -> bool {
    forall|later: int|
        at < later < regions.len() ==> (#[trigger] regions[later]).id != regions[at].id
}

/// Whether a region has this id.
pub open spec fn has_region(regions: Seq<ControlRegion>, id: u64) -> bool {
    exists|at: int| 0 <= at < regions.len() && (#[trigger] regions[at]).id == id
}

/// The coordinate table holds the edges and the interaction state of each control under
/// its id, of the last region where two have one id, and no other id.
pub proof fn law_table_holds_the_edges(
    regions: Seq<ControlRegion>,
    hovered: Set<u64>,
    pressed: Set<u64>,
)
    ensures
        tabulates(
            crate::render_core::coordinates(regions, hovered, pressed),
            regions,
            hovered,
            pressed,
        ),
    decreases regions.len(),
{
    let table = crate::render_core::coordinates(regions, hovered, pressed);
    if regions.len() > 0 {
        let fewer = regions.drop_last();
        let less = crate::render_core::coordinates(fewer, hovered, pressed);
        law_table_holds_the_edges(fewer, hovered, pressed);
        assert forall|at: int|
            #![trigger regions[at]]
            0 <= at < regions.len() && is_last(regions, at) implies {
            let id = regions[at].id;
            let g = regions[at].geometry;
            &&& table.contains_key(id)
            &&& table[id].x == g.origin.x
            &&& table[id].y == g.origin.y
            &&& table[id].width == g.size.width
            &&& table[id].height == g.size.height
            &&& table[id].hovered == hovered.contains(id)
            &&& table[id].pressed == pressed.contains(id)
        } by {
            if at < fewer.len() {
                assert(fewer[at] == regions[at]);
                assert(regions[regions.len() - 1].id != regions[at].id);
                assert(is_last(fewer, at)) by {
                    assert forall|later: int| at < later < fewer.len() implies (
                    #[trigger] fewer[later]).id != fewer[at].id by {
                        assert(regions[later].id != regions[at].id);
                    }
                }
                assert(less.contains_key(regions[at].id));
            }
        }
        assert forall|id: u64| #[trigger] table.contains_key(id) implies has_region(
            regions,
            id,
        ) by {
            if id == regions.last().id {
                assert(regions[regions.len() - 1].id == id);
            } else {
                assert(less.contains_key(id));
                let at = choose|at: int| 0 <= at < fewer.len() && (#[trigger] fewer[at]).id == id;
                assert(regions[at].id == id);
            }
        }
    }
}

/// The control of an id is the last region of the frame that has it, and each region's
/// id has one.
pub proof fn law_control_is_the_last_region(regions: Seq<ControlRegion>)
    ensures
        ({
            let controls = crate::render_core::regions_by_id(regions);
            &&& forall|at: int|
                #![trigger regions[at]]
                0 <= at < regions.len() && is_last(regions, at) ==> controls.contains_key(
                    regions[at].id,
                ) && controls[regions[at].id] == regions[at]
            &&& forall|id: u64| #[trigger] controls.contains_key(id) ==> has_region(regions, id)
        }),
    decreases regions.len(),
{
    let controls = crate::render_core::regions_by_id(regions);
    if regions.len() > 0 {
        let fewer = regions.drop_last();
        let less = crate::render_core::regions_by_id(fewer);
        law_control_is_the_last_region(fewer);
        assert forall|at: int|
            #![trigger regions[at]]
            0 <= at < regions.len() && is_last(regions, at) implies controls.contains_key(
            regions[at].id,
        ) && controls[regions[at].id] == regions[at] by {
            if at < fewer.len() {
                assert(fewer[at] == regions[at]);
                assert(regions[regions.len() - 1].id != regions[at].id);
                assert(is_last(fewer, at)) by {
                    assert forall|later: int| at < later < fewer.len() implies (
                    #[trigger] fewer[later]).id != fewer[at].id by {
                        assert(regions[later].id != regions[at].id);
                    }
                }
                assert(less.contains_key(regions[at].id));
            }
        }
        assert forall|id: u64| #[trigger] controls.contains_key(id) implies has_region(
            regions,
            id,
        ) by {
            if id == regions.last().id {
                assert(regions[regions.len() - 1].id == id);
            } else {
                assert(less.contains_key(id));
                let at = choose|at: int| 0 <= at < fewer.len() && (#[trigger] fewer[at]).id == id;
                assert(regions[at].id == id);
            }
        }
    }
}

/// Whether no later entry has the id of this one.
pub open spec fn is_last_kind(items: Seq<(u64, ItemKind)>, at: int) -> bool {
    forall|later: int| at < later < items.len() ==> (#[trigger] items[later]).0 != items[at].0
}

/// The kind of an item is the one that was last reported under its id.
pub proof fn law_kind_is_the_last_report(items: Seq<(u64, ItemKind)>)
    ensures
        ({
            let kinds = crate::render_core::kinds_by_id(items);
            &&& forall|at: int|
                #![trigger items[at]]
                0 <= at < items.len() && is_last_kind(items, at) ==> kinds.contains_key(items[at].0)
                    && kinds[items[at].0] == items[at].1
            &&& forall|id: u64| #[trigger]
                kinds.contains_key(id) ==> exists|at: int|
                    0 <= at < items.len() && (#[trigger] items[at]).0 == id
        }),
    decreases items.len(),
{
    let kinds = crate::render_core::kinds_by_id(items);
    if items.len() > 0 {
        let fewer = items.drop_last();
        let less = crate::render_core::kinds_by_id(fewer);
        law_kind_is_the_last_report(fewer);
        assert forall|at: int|
            #![trigger items[at]]
            0 <= at < items.len() && is_last_kind(items, at) implies kinds.contains_key(
            items[at].0,
        ) && kinds[items[at].0] == items[at].1 by {
            if at < fewer.len() {
                assert(fewer[at] == items[at]);
                assert(items[items.len() - 1].0 != items[at].0);
                assert(is_last_kind(fewer, at)) by {
                    assert forall|later: int| at < later < fewer.len() implies (
                    #[trigger] fewer[later]).0 != fewer[at].0 by {
                        assert(items[later].0 != items[at].0);
                    }
                }
                assert(less.contains_key(items[at].0));
            }
        }
        assert forall|id: u64| #[trigger] kinds.contains_key(id) implies exists|at: int|
            0 <= at < items.len() && (#[trigger] items[at]).0 == id by {
            if id == items.last().0 {
                assert(items[items.len() - 1].0 == id);
            } else {
                assert(less.contains_key(id));
                let at = choose|at: int| 0 <= at < fewer.len() && (#[trigger] fewer[at]).0 == id;
                assert(items[at].0 == id);
            }
        }
    }
}

/// Whether these actions show a frame in a window of this size: its controls are
/// tabulated, it is presented and queued, and the next snapshot is asked for.
pub open spec fn shows_frame(
    actions: Seq<ActionModel>,
    t: TargetModel,
    regions: Seq<ControlRegion>,
    hovered: Set<u64>,
    pressed: Set<u64>,
) -> bool {
    &&& actions.len() == 4
    &&& actions[0] matches ActionModel::PublishCoordinates(table) && tabulates(
        table,
        regions,
        hovered,
        pressed,
    )
    &&& actions[1] is Present
    &&& actions[2] matches ActionModel::QueueFrame { width, height, pixels } && width == t.width
        && height == t.height && pixels.len() == 0
    &&& actions[3] is RequestUiRedraw
}

/// A scene that is submitted while no component is attached is shown and retained, and
/// nothing else changes; without a window nothing happens.
#[verifier::rlimit(40)]
pub proof fn law_submitted_scene_is_shown<C>(
    m: CoreModel<C>,
    frame: SceneModel,
    actions: Seq<ActionModel>,
)
    requires
        m.components.len() == 0,
        m.asks_for(MessageModel::RenderScene { frame }, actions),
    ensures
        ({
            let n = m.after(MessageModel::RenderScene { frame });
            &&& m.target matches Some(t) ==> shows_frame(
                actions,
                t,
                frame.controls,
                m.hovered,
                m.pressed,
            )
            &&& m.target matches Some(t) ==> n.target == Some(
                TargetModel {
                    width: t.width,
                    height: t.height,
                    scale_factor: t.scale_factor,
                    last_frame: Some(frame),
                },
            )
            &&& m.target is None ==> actions.len() == 0 && n.target is None
            &&& same_but_for_target(n, m)
        }),
{
    law_table_holds_the_edges(frame.controls, m.hovered, m.pressed);
}

/// Whether the states differ in the window at most.
pub open spec fn same_but_for_target<C>(n: CoreModel<C>, m: CoreModel<C>) -> bool {
    &&& n.overlay == m.overlay
    &&& n.mirror == m.mirror
    &&& n.components == m.components
    &&& n.controls == m.controls
    &&& n.items == m.items
    &&& n.hovered == m.hovered
    &&& n.pressed == m.pressed
    &&& n.accent == m.accent
}

/// A component that was encoded is shown and its frame retained; its controls and their
/// kinds replace those before, and the interaction state stays.  One that could not be
/// encoded changes nothing.
#[verifier::rlimit(40)]
pub proof fn law_encoded_component_is_shown<C>(
    m: CoreModel<C>,
    frame: SceneModel,
    items: Seq<(u64, ItemKind)>,
)
    ensures
        ({
            let n = m.encoded(Some((frame, items)));
            let actions = m.show(Some((frame, items)));
            &&& m.target matches Some(t) ==> shows_frame(
                actions,
                t,
                frame.controls,
                m.hovered,
                m.pressed,
            )
            &&& m.target matches Some(t) ==> n.target == Some(
                TargetModel {
                    width: t.width,
                    height: t.height,
                    scale_factor: t.scale_factor,
                    last_frame: Some(frame),
                },
            )
            &&& m.target is None ==> actions.len() == 0 && n.target is None
            &&& n.controls == crate::render_core::regions_by_id(frame.controls)
            &&& n.items == crate::render_core::kinds_by_id(items)
            &&& n.overlay == m.overlay
            &&& n.mirror == m.mirror
            &&& n.components == m.components
            &&& n.hovered == m.hovered
            &&& n.pressed == m.pressed
            &&& n.accent == m.accent
        }),
        m.encoded(None) == m,
        m.show(None).len() == 0,
{
    law_table_holds_the_edges(frame.controls, m.hovered, m.pressed);
}

/// A window that takes a new size keeps its scale and its scene.  Its surface is resized
/// unless a side is zero, its canvas always, and the retained scene is presented at the
/// new size.
#[verifier::rlimit(40)]
pub proof fn law_resized_window<C>(
    m: CoreModel<C>,
    width: u32,
    height: u32,
    actions: Seq<ActionModel>,
)
    requires
        m.asks_for(MessageModel::Resize { width, height }, actions),
    ensures
        ({
            let n = m.after(MessageModel::Resize { width, height });
            let surface: int = if width != 0 && height != 0 {
                1
            } else {
                0
            };
            &&& m.target is None ==> actions.len() == 0 && n.target is None
            &&& m.target matches Some(t) ==> n.target == Some(
                TargetModel {
                    width,
                    height,
                    scale_factor: t.scale_factor,
                    last_frame: t.last_frame,
                },
            )
            &&& m.target matches Some(t) ==> actions.len() == surface + 1 + if t.last_frame is Some {
                2int
            } else {
                0
            }
            &&& m.target is Some && surface == 1 ==> actions[0] == (ActionModel::ResizeSurface {
                width,
                height,
            })
            &&& m.target matches Some(t) ==> actions[surface] == (ActionModel::SetCanvasSize {
                width,
                height,
                dpi: t.scale_factor.rounded_up(),
            })
            &&& m.target is Some && m.target->0.last_frame is Some ==> actions[surface + 1] is Present
                && actions[surface + 2] == (ActionModel::QueueFrame {
                width,
                height,
                pixels: Seq::empty(),
            })
            &&& same_but_for_target(n, m)
        }),
{
}

/// A new overlay takes the place of the one before and is presented at once over the
/// retained scene, if there is one; nothing else changes.
pub proof fn law_overlay_is_presented<C>(
    m: CoreModel<C>,
    overlay: OverlayModel,
    actions: Seq<ActionModel>,
)
    requires
        m.asks_for(MessageModel::SetOverlay { overlay }, actions),
    ensures
        ({
            let n = m.after(MessageModel::SetOverlay { overlay });
            let retained = m.target is Some && m.target->0.last_frame is Some;
            &&& n.overlay == overlay
            &&& n == CoreModel { overlay, ..m }
            &&& !retained ==> actions.len() == 0
            &&& retained ==> actions.len() == 2 && actions[0] is Present && actions[1] == (
            ActionModel::QueueFrame {
                width: m.target->0.width,
                height: m.target->0.height,
                pixels: Seq::empty(),
            })
        }),
{
}

/// The accent colour of the system is remembered, and an attached component that has a
/// window takes it at once.
pub proof fn law_accent_reaches_the_component<C>(
    m: CoreModel<C>,
    color: Color,
    actions: Seq<ActionModel>,
)
    requires
        m.asks_for(MessageModel::SetAccent { color }, actions),
    ensures
        m.after(MessageModel::SetAccent { color }).accent == Some(color),
        m.after(MessageModel::SetAccent { color }) == (CoreModel { accent: Some(color), ..m }),
        m.mirror ==> actions.len() == 1 && actions[0] == ActionModel::SetAccentColor(color),
        !m.mirror ==> actions.len() == 0,
{
}

/// A component that is built later takes the accent colour that was last heard of, and
/// its own table starts empty; with a window it is then encoded.  Its handle is the last
/// one that is held.
pub proof fn law_built_component_is_adopted<C>(m: CoreModel<C>, component: C, window: bool)
    ensures
        ({
            let n = m.with_component(component, window);
            let actions = m.adopt(window);
            let tinted: int = if window && m.accent is Some {
                1
            } else {
                0
            };
            &&& n.components.len() == m.components.len() + 1
            &&& n.components.drop_last() == m.components
            &&& n.components.last() == component
            &&& n.mirror == window
            &&& n.overlay == m.overlay
            &&& n.target == m.target
            &&& n.controls == m.controls
            &&& n.items == m.items
            &&& n.hovered == m.hovered
            &&& n.pressed == m.pressed
            &&& n.accent == m.accent
            &&& actions.len() == tinted + 1 + if window {
                1int
            } else {
                0
            }
            &&& tinted == 1 ==> actions[0] == ActionModel::SetAccentColor(m.accent->0)
            &&& actions[tinted] is ClearCoordinates
            &&& window ==> actions[tinted + 1] is EncodeMirror
        }),
{
    assert(m.with_component(component, window).components.drop_last() =~= m.components);
}

/// A new rendering context has the size it was created with and the scale that it was
/// asked for, and no scene; an attached component with a window is drawn into it.
pub proof fn law_new_context_is_empty<C>(
    m: CoreModel<C>,
    width: u32,
    height: u32,
    scale_factor: Double,
)
    ensures
        ({
            let n = m.with_context(width, height, scale_factor);
            let actions = m.greet();
            &&& n.target matches Some(t) && t.width == width && t.height == height
                && t.scale_factor == scale_factor.narrowed() && t.last_frame is None
            &&& same_but_for_target(n, m)
            &&& m.components.len() > 0 && m.mirror ==> actions.len() == 1 && actions[0] is
                EncodeMirror
            &&& m.components.len() == 0 || !m.mirror ==> actions.len() == 0
        }),
{
}

/// A suspended window is released with all that was known of its controls.  What does
/// not belong to it stays: the overlay, the components and the accent colour.
pub proof fn law_suspended_window_is_forgotten<C>(m: CoreModel<C>, actions: Seq<ActionModel>)
    requires
        m.asks_for(MessageModel::Suspend, actions),
    ensures
        ({
            let n = m.after(MessageModel::Suspend);
            &&& actions.len() == 1 && actions[0] is Release
            &&& n.target is None
            &&& forall|id: u64|
                !(#[trigger] n.controls.contains_key(id)) && !(#[trigger] n.items.contains_key(id))
                    && !(#[trigger] n.hovered.contains(id)) && !(#[trigger] n.pressed.contains(id))
            &&& n.overlay == m.overlay
            &&& n.mirror == m.mirror
            &&& n.components == m.components
            &&& n.accent == m.accent
        }),
{
}

/// A redraw that is asked for encodes the attached component, where it has a window; a
/// submitted scene does the same while a component is attached.  The state stays.
pub proof fn law_redraw_encodes_the_component<C>(
    m: CoreModel<C>,
    frame: SceneModel,
    asked: Seq<ActionModel>,
    submitted: Seq<ActionModel>,
)
    requires
        m.asks_for(MessageModel::RequestRedraw, asked),
        m.asks_for(MessageModel::RenderScene { frame }, submitted),
    ensures
        m.mirror ==> asked.len() == 1 && asked[0] is EncodeMirror,
        !m.mirror ==> asked.len() == 0,
        m.components.len() > 0 ==> submitted == asked,
        m.components.len() > 0 ==> m.after(MessageModel::RenderScene { frame }) == m,
        m.after(MessageModel::RequestRedraw) == m,
{
}

/// A window is created as it was asked for: with its width, its height and its scale.
/// The other requests that need the window system are one action each, and none of them
/// changes the state.
pub proof fn law_request_is_passed_on<C>(
    m: CoreModel<C>,
    width: u32,
    height: u32,
    scale_factor: Double,
    configure: Seq<ActionModel>,
    user: Seq<ActionModel>,
    attach: Seq<ActionModel>,
    quit: Seq<ActionModel>,
)
    requires
        m.asks_for(MessageModel::Configure { width, height, scale_factor }, configure),
        m.asks_for(MessageModel::User, user),
        m.asks_for(MessageModel::AttachComponent, attach),
        m.asks_for(MessageModel::Quit, quit),
    ensures
        configure.len() == 1,
        configure[0] == (ActionModel::CreateContext { width, height, scale_factor }),
        user.len() == 1 && user[0] is RunUser,
        attach.len() == 1 && attach[0] is BuildComponent,
        quit.len() == 1 && quit[0] is Stop,
        m.after(MessageModel::Configure { width, height, scale_factor }) == m,
        m.after(MessageModel::User) == m,
        m.after(MessageModel::AttachComponent) == m,
        m.after(MessageModel::Quit) == m,
{
}

/// A hit test is answered by one control that has the point inside, of no greater width
/// times height than any other that has it inside; and by none exactly where no control
/// has it inside.  The state stays.
pub proof fn law_hit_is_the_smallest_around_the_point<C>(
    m: CoreModel<C>,
    x: Scalar,
    y: Scalar,
    actions: Seq<ActionModel>,
)
    requires
        m.asks_for(MessageModel::HitTest { x, y }, actions),
    ensures
        m.after(MessageModel::HitTest { x, y }) == m,
        actions.len() == 1,
        actions[0] matches ActionModel::ReplyHit(hit) && match hit {
            Some(id) => owns(m.controls, x, y, id),
            None => forall|id: u64|
                m.controls.contains_key(id) ==> !is_inside(
                    (#[trigger] m.controls[id]).geometry,
                    x,
                    y,
                ),
        },
{
    if let ActionModel::ReplyHit(hit) = actions[0] {
        if let Some(id) = hit {
            let p = Point { x, y };
            assert(crate::render_core::smallest_hit(m.controls, p, id));
            assert forall|other: u64|
                m.controls.contains_key(other) && is_inside(
                    (#[trigger] m.controls[other]).geometry,
                    x,
                    y,
                ) implies m.controls[id].geometry.size.width.product(
                m.controls[id].geometry.size.height,
            ).at_most(
                m.controls[other].geometry.size.width.product(m.controls[other].geometry.size.height),
            ) by {
                assert(m.controls[other].geometry.covers(p));
            }
        }
    }
}

/// Whether the control of this id has the point inside, and none that has it inside is
/// smaller.
pub open spec fn owns(controls: Map<u64, ControlRegion>, x: Scalar, y: Scalar, id: u64) -> bool {
    let size = controls[id].geometry.size;
    &&& controls.contains_key(id)
    &&& is_inside(controls[id].geometry, x, y)
    &&& forall|other: u64|
        controls.contains_key(other) && is_inside((#[trigger] controls[other]).geometry, x, y)
            ==> size.width.product(size.height).at_most(
            controls[other].geometry.size.width.product(controls[other].geometry.size.height),
        )
}

} // verus!
