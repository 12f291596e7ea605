//! Builtin behaviors.

pub mod time;
