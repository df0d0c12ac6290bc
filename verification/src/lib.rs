//! Graphics improvements for Fyrox that live outside the engine: the rules behind them.
//!
//! - [`antialiasing`]: which anti-aliasing to use, and what stands in for temporal anti-aliasing
//!   on an engine built with OpenGL.
//! - [`temporal`]: the shift of the view, frame by frame, that temporal anti-aliasing blends
//!   over, and when its history starts over.
//! - [`shadows`]: [`ShadowBudget`] keeps shadow maps for the lights nearest the camera only, which
//!   is what makes a scene full of small lamps affordable; [`LightBudget`] does the same for the
//!   lights themselves. Both leave alone what the game set up itself, remembered in
//!   [`authored`].
//! - [`raytracing`]: what shadow tracing computes on plain values: the triangles gathered into
//!   one index buffer, when the acceleration structure is rebuilt, and the tracer's scissor box.
//! - [`effects`]: what the effects set up once the renderer exists, in which order, and what they
//!   do every frame.
//!
//! The engine-facing side - render passes, the renderer's quality settings, the scene graph -
//! reads what these rules need from the engine and applies what they decide.

pub mod antialiasing;
pub mod authored;
pub mod effects;
pub mod raytracing;
pub mod shadows;
pub mod temporal;

pub use antialiasing::AntiAliasing;
pub use shadows::{LightBudget, ShadowBudget};
