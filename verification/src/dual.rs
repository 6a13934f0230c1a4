//! The renderer on the side of the user interface: what it sends to the render
//! thread, if that runs.
use crate::host::{MessageModel, RenderHost, RenderMessage};
use crate::scalar::Double;
use crate::scene::SceneFrame;
use vstd::prelude::*;
use vstd::string::*;

verus! {

/// The renderer that the user interface measures text with.
pub struct DualCoreRenderer {}

impl DualCoreRenderer {
    /// Items may be rotated and scaled.
    pub fn supports_transformations(&self) -> (r: bool)
        ensures
            r,
    {
        true
    }

    /// A new size is passed on.
    pub fn resize(&self, host: Option<&RenderHost>, width: u32, height: u32) -> (r: Option<
        RenderMessage,
    >)
        ensures
            r is Some <==> host is Some,
            r matches Some(m) ==> m@ == (MessageModel::Resize { width, height }),
    {
        match host {
            Some(h) => Some(h.submit_resize(width, height)),
            None => None,
        }
    }
}

/// The half of the renderer on the side of the user interface.
pub struct DualThreadRenderer {}

impl DualThreadRenderer {
    /// Whether a frame is encoded and submitted: not before the render thread
    /// runs, and not once it draws a component of its own, whose window would
    /// otherwise flip between the two.
    pub fn encodes_scene(&self, host: Option<&RenderHost>) -> (r: bool)
        ensures
            r <==> host is Some && !host->0.is_attached(),
    {
        match host {
            Some(h) => !h.has_attached_component(),
            None => false,
        }
    }

    /// What follows from encoding a frame: its scene is submitted, once; an error is
    /// handed on and nothing is submitted.  Where no frame is to be encoded, nothing
    /// is submitted and there is no error, whatever encoding would have come to.
    pub fn encode_scene<E>(
        &self,
        host: Option<&RenderHost>,
        encoded: Result<SceneFrame, E>,
    ) -> (r: Result<Option<RenderMessage>, E>)
        ensures
            host is None || host->0.is_attached() ==> r == Ok::<Option<RenderMessage>, E>(None),
            host is Some && !host->0.is_attached() ==> match encoded {
                Ok(frame) => r matches Ok(Some(m)) && m@ == (MessageModel::RenderScene {
                    frame: frame@,
                }),
                Err(e) => r == Err::<Option<RenderMessage>, E>(e),
            },
    {
        match host {
            Some(h) => {
                if h.has_attached_component() {
                    Ok(None)
                } else {
                    match encoded {
                        Ok(frame) => Ok(Some(h.submit_scene(frame))),
                        Err(e) => Err(e),
                    }
                }
            },
            None => Ok(None),
        }
    }

    /// The window goes away.
    pub fn suspend(&self, host: Option<&RenderHost>) -> (r: Option<RenderMessage>)
        ensures
            r is Some <==> host is Some,
            r matches Some(m) ==> m@ == MessageModel::Suspend,
    {
        match host {
            Some(h) => Some(h.submit_suspend()),
            None => None,
        }
    }

    /// A window was created.
    pub fn resume(
        &self,
        host: Option<&RenderHost>,
        width: u32,
        height: u32,
        scale_factor: Double,
    ) -> (r: Option<RenderMessage>)
        ensures
            r is Some <==> host is Some,
            r matches Some(m) ==> m@ == (MessageModel::Configure { width, height, scale_factor }),
    {
        match host {
            Some(h) => Some(h.submit_configure(width, height, scale_factor)),
            None => None,
        }
    }

    /// What is reported when no window could be created.
    pub fn window_error(error: &str) -> (r: String)
        ensures
            r@ == "dualslint: Could not create winit window for GL rendering: "@ + error@,
    {
        let mut text: String = String::from_str(
            "dualslint: Could not create winit window for GL rendering: ",
        );
        text.append(error);
        text
    }
}

} // verus!
