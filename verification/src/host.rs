//! The protocol of the render thread, and its sending half.
//!
//! Windows, closures and reply channels travel beside the messages; the
//! messages hold everything that the render thread decides by.
use crate::property::{ControlPropertyValue, PropertyValueModel};
use crate::scalar::{Double, Scalar};
use crate::scene::{Color, OverlayFrame, OverlayModel, SceneFrame, SceneModel};
use vstd::prelude::*;

verus! {

/// Messages to the render thread.
#[allow(inconsistent_fields)]
#[derive(Debug)]
pub enum RenderMessage {
    /// A native window is there: create a rendering context for it.
    Configure {
        /// Initial physical pixel dimensions.
        width: u32,
        height: u32,
        /// Physical pixels per logical pixel.
        scale_factor: Double,
    },
    /// The surface has been resized.
    Resize { width: u32, height: u32 },
    /// A complete scene from the snapshot encoder.
    RenderScene { frame: SceneFrame },
    /// Replace the layer that is composited on top of the scene.
    SetOverlay { overlay: OverlayFrame },
    /// Execute a closure on the render thread.
    User,
    /// Instantiate the app's component on the render thread, which draws the
    /// whole window from it from then on.
    AttachComponent,
    /// Request the interaction state of a control.
    ApplyControlState { id: u64, hovered: bool, pressed: bool },
    /// Assign a named property of a control; answered by whether it was
    /// assigned.
    SetControlProperty { id: u64, property: String, value: ControlPropertyValue },
    /// Encode the attached component again and present it.
    RequestRedraw,
    /// The accent colour of the system.
    SetAccent { color: Color },
    /// Which control owns a logical point; answered by its id, if any.
    HitTest { x: Scalar, y: Scalar },
    /// Drop the rendering context and release the window.
    Suspend,
    /// Terminate the render thread.
    Quit,
}

/// The model of a [`RenderMessage`].
#[allow(inconsistent_fields)]
pub enum MessageModel {
    Configure { width: u32, height: u32, scale_factor: Double },
    Resize { width: u32, height: u32 },
    RenderScene { frame: SceneModel },
    SetOverlay { overlay: OverlayModel },
    User,
    AttachComponent,
    ApplyControlState { id: u64, hovered: bool, pressed: bool },
    SetControlProperty { id: u64, property: Seq<char>, value: PropertyValueModel },
    RequestRedraw,
    SetAccent { color: Color },
    HitTest { x: Scalar, y: Scalar },
    Suspend,
    Quit,
}

impl View for RenderMessage {
    type V = MessageModel;

    open spec fn view(&self) -> MessageModel {
        match *self {
            RenderMessage::Configure { width, height, scale_factor } => {
                MessageModel::Configure { width, height, scale_factor }
            },
            RenderMessage::Resize { width, height } => MessageModel::Resize { width, height },
            RenderMessage::RenderScene { frame } => MessageModel::RenderScene { frame: frame@ },
            RenderMessage::SetOverlay { overlay } => MessageModel::SetOverlay {
                overlay: overlay@,
            },
            RenderMessage::User => MessageModel::User,
            RenderMessage::AttachComponent => MessageModel::AttachComponent,
            RenderMessage::ApplyControlState { id, hovered, pressed } => {
                MessageModel::ApplyControlState { id, hovered, pressed }
            },
            RenderMessage::SetControlProperty { id, property, value } => {
                MessageModel::SetControlProperty { id, property: property@, value: value@ }
            },
            RenderMessage::RequestRedraw => MessageModel::RequestRedraw,
            RenderMessage::SetAccent { color } => MessageModel::SetAccent { color },
            RenderMessage::HitTest { x, y } => MessageModel::HitTest { x, y },
            RenderMessage::Suspend => MessageModel::Suspend,
            RenderMessage::Quit => MessageModel::Quit,
        }
    }
}

/// The sending half: what each request of a peer sends to the render thread.
///
/// All peers share one host, so that every thread sees an attached component.  The
/// sharing itself, by handles that point at one host, is the caller's: what stands
/// here is what holds of the one host.
pub struct RenderHost {
    attached: bool,
    event_loop: bool,
}

impl RenderHost {
    /// Whether a component has been attached.
    pub closed spec fn is_attached(self) -> bool {
        self.attached
    }

    /// Whether there is an event loop to wake.
    pub closed spec fn has_event_loop(self) -> bool {
        self.event_loop
    }

    /// A host without an attached component.
    pub fn new(event_loop: bool) -> (r: RenderHost)
        ensures
            !r.is_attached(),
            r.has_event_loop() == event_loop,
    {
        RenderHost { attached: false, event_loop }
    }

    /// Whether a component has been attached and the render thread draws the
    /// whole window from it.
    pub fn has_attached_component(&self) -> (r: bool)
        ensures
            r == self.is_attached(),
    {
        self.attached
    }

    /// Attach the app's component.  From then on the scenes of the user
    /// interface's own thread are suppressed.
    pub fn attach_component(&mut self) -> (r: RenderMessage)
        ensures
            final(self).is_attached(),
            final(self).has_event_loop() == old(self).has_event_loop(),
            r@ == MessageModel::AttachComponent,
    {
        self.attached = true;
        RenderMessage::AttachComponent
    }

    /// Ask for a control to be hovered or pressed.
    pub fn apply_control_state(&self, id: u64, hovered: bool, pressed: bool) -> (r: RenderMessage)
        ensures
            r@ == (MessageModel::ApplyControlState { id, hovered, pressed }),
    {
        RenderMessage::ApplyControlState { id, hovered, pressed }
    }

    /// Ask for a property of a control to be assigned.
    pub fn set_control_property(
        &self,
        id: u64,
        property: &str,
        value: ControlPropertyValue,
    ) -> (r: RenderMessage)
        ensures
            r@ == (MessageModel::SetControlProperty { id, property: property@, value: value@ }),
    {
        RenderMessage::SetControlProperty { id, property: property.to_owned(), value }
    }

    /// What an assignment is answered: `false` when the render thread is gone.
    pub fn assignment_reply(reply: Option<bool>) -> (r: bool)
        ensures
            r <==> reply == Some(true),
    {
        match reply {
            Some(applied) => applied,
            None => false,
        }
    }

    /// Ask for the attached component to be drawn again.
    pub fn request_redraw(&self) -> (r: RenderMessage)
        ensures
            r@ == MessageModel::RequestRedraw,
    {
        RenderMessage::RequestRedraw
    }

    /// Ask which control owns a logical point.
    pub fn hit_test(&self, x: Scalar, y: Scalar) -> (r: RenderMessage)
        ensures
            r@ == (MessageModel::HitTest { x, y }),
    {
        RenderMessage::HitTest { x, y }
    }

    /// What a hit test is answered: nothing when the render thread is gone.
    pub fn hit_reply(reply: Option<Option<u64>>) -> (r: Option<u64>)
        ensures
            r == match reply {
                Some(hit) => hit,
                None => None,
            },
    {
        match reply {
            Some(hit) => hit,
            None => None,
        }
    }

    /// Ask for a closure to be executed on the render thread.
    pub fn send_user(&self) -> (r: RenderMessage)
        ensures
            r@ == MessageModel::User,
    {
        RenderMessage::User
    }

    /// Ask the render thread to quit.
    pub fn send_quit(&self) -> (r: RenderMessage)
        ensures
            r@ == MessageModel::Quit,
    {
        RenderMessage::Quit
    }

    /// Whether the event loop is to be woken for the next snapshot.
    pub fn send_redraw(&self) -> (r: bool)
        ensures
            r == self.has_event_loop(),
    {
        self.event_loop
    }

    /// Submit a scene for rendering.
    pub fn submit_scene(&self, frame: SceneFrame) -> (r: RenderMessage)
        ensures
            r@ == (MessageModel::RenderScene { frame: frame@ }),
    {
        RenderMessage::RenderScene { frame }
    }

    /// Submit a layer to composite on top of the scene.
    pub fn submit_overlay(&self, overlay: OverlayFrame) -> (r: RenderMessage)
        ensures
            r@ == (MessageModel::SetOverlay { overlay: overlay@ }),
    {
        RenderMessage::SetOverlay { overlay }
    }

    /// Announce a native window.
    pub fn submit_configure(&self, width: u32, height: u32, scale_factor: Double) -> (r:
        RenderMessage)
        ensures
            r@ == (MessageModel::Configure { width, height, scale_factor }),
    {
        RenderMessage::Configure { width, height, scale_factor }
    }

    /// Announce that the surface was resized.
    pub fn submit_resize(&self, width: u32, height: u32) -> (r: RenderMessage)
        ensures
            r@ == (MessageModel::Resize { width, height }),
    {
        RenderMessage::Resize { width, height }
    }

    /// Forward the accent colour of the system.
    pub fn submit_accent(&self, color: Color) -> (r: RenderMessage)
        ensures
            r@ == (MessageModel::SetAccent { color }),
    {
        RenderMessage::SetAccent { color }
    }

    /// Ask the render thread to release its context and the window.
    pub fn submit_suspend(&self) -> (r: RenderMessage)
        ensures
            r@ == MessageModel::Suspend,
    {
        RenderMessage::Suspend
    }

    /// The paint closures of a pixel target travel as closures of the caller.
    pub fn paint(&self, _width: u32, _height: u32) -> (r: RenderMessage)
        ensures
            r@ == MessageModel::User,
    {
        self.send_user()
    }
}

/// The accent colour is forwarded to a running render thread.
pub fn forward_system_accent(host: Option<&RenderHost>, color: Color) -> (r: Option<RenderMessage>)
    ensures
        r is Some <==> host is Some,
        r matches Some(m) ==> m@ == (MessageModel::SetAccent { color }),
{
    match host {
        Some(h) => Some(h.submit_accent(color)),
        None => None,
    }
}

} // verus!
