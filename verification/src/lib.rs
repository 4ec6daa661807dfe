//! A real-time lighting-show engine core.
//!
//! The engine translates a hierarchical timeline of effects into
//! per-fixture color and position values, optionally modulated by a
//! rolling magnitude spectrum computed from live audio.
//!
//! All scalar quantities (seconds, color components, positions,
//! frequencies, spectrum magnitudes) are fixed-point integers holding
//! thousandths of a unit, so one second is `1000`, full brightness is
//! `1000`, and one hertz is `1000`.

pub mod active;
pub mod color;
pub mod controllers;
pub mod dmx;
pub mod effects;
pub mod engine;
pub mod evaluate;
pub mod fixture;
pub mod keyframes;
pub mod math;
pub mod midi;
pub mod playback;
pub mod sampling;
pub mod spectrum;
pub mod store;
pub mod timeline;
pub mod vec3;
