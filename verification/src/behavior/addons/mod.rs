//! Behavior addons shipped with the engine.

pub mod blob;
pub mod face_tracking_lite;
