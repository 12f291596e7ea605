//! Static — the verified core of a modular realtime signal runtime: addon
//! manifests, their validation, packaging names and the addon registry; the
//! behavior side (the behavior contract, the scheduler with its minimal-diff
//! reload, the behavior registry and host seam, the face tracker's grid and
//! blob analysis); the runner lifecycle and its supervision policy, the host
//! data plane and the native control protocol; and the signal schema.

pub mod addon;
pub mod addons;
pub mod behavior;
pub mod camera;
pub mod engine;
pub mod fbits;
pub mod keyed;
pub mod native;
pub mod runner;
pub mod signal;
pub mod text;
pub mod time;
