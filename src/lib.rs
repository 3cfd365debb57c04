//! Per-layer command and animation scheduler of a visual-novel renderer, with the
//! CPU frame buffer that the renderer draws into.

pub mod animation;
pub mod cpu;
pub mod easing;
pub mod laws;
pub mod layer;
pub mod renderer;
