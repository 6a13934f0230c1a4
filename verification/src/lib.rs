//! Two-thread rendering for a retained-mode user interface.
pub mod rounding;
pub mod scalar;
pub mod geometry;
pub mod scene;
pub mod scene_clone;
pub mod brush;
pub mod transform;
pub mod encoder;
pub mod encoder_draw;
pub mod property;
pub mod ids;
pub mod host;
pub mod render_core;
pub mod canvas;
pub mod replay;
pub mod setup;
pub mod legacy;
pub mod dual;
pub mod pixmap;
pub mod replay_laws;
pub mod resource_laws;
pub mod target_laws;
pub mod encoder_laws;
pub mod core_laws;
pub mod message_laws;
pub mod state_laws;
pub mod drawing_laws;
pub mod canvas_laws;
pub mod geometry_laws;
pub mod arithmetic_laws;
pub mod model_laws;
