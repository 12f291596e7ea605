//! [`Sandbox`] — the confinement seam. The per-platform placeholders enforce
//! nothing and say so (`NotImplemented`), so the absence of confinement can
//! never be mistaken for a granted sandbox. The Landlock-backed Linux sandbox
//! accepts only the read-only-filesystem profile.

use vstd::prelude::*;

verus! {

/// What a runner asks to be confined to.
#[derive(Debug, Clone, Copy, PartialEq, Eq, Structural)]
pub struct SandboxSpec {
    pub network: bool,
    pub filesystem: bool,
    pub camera: bool,
    pub frame_fullres: bool,
    pub gpu_compute: bool,
    pub spawn_worker: bool,
}

impl Default for SandboxSpec {
    /// Everything denied.
    fn default() -> (r: Self)
        ensures
            !r.network && !r.filesystem && !r.camera && !r.frame_fullres && !r.gpu_compute && !r.spawn_worker,
    {
        SandboxSpec {
            network: false,
            filesystem: false,
            camera: false,
            frame_fullres: false,
            gpu_compute: false,
            spawn_worker: false,
        }
    }
}

#[derive(Debug, Clone, PartialEq, Eq)]
pub enum SandboxError {
    NotImplemented,
    Unsupported(&'static str),
}

/// A platform's confinement mechanism.
pub trait Sandbox {
    fn apply(&self, spec: &SandboxSpec) -> Result<(), SandboxError>;

    fn platform(&self) -> &'static str;
}

/// Landlock-backed Linux sandbox. Applying a profile only decides whether the
/// profile is supported; enforcing it is a separate, process-wide step.
#[derive(Debug, Default)]
pub struct LinuxLandlockSandbox;

impl Sandbox for LinuxLandlockSandbox {
    /// Only "filesystem without network" is supported.
    fn apply(&self, spec: &SandboxSpec) -> (r: Result<(), SandboxError>)
        ensures
            spec.filesystem && !spec.network ==> r is Ok,
            !(spec.filesystem && !spec.network) ==> (r matches Err(SandboxError::Unsupported(m))
                && m@ == "Complex sandbox profiles not yet fully implemented"@),
    {
        if spec.filesystem && !spec.network {
            Ok(())
        } else {
            Err(SandboxError::Unsupported("Complex sandbox profiles not yet fully implemented"))
        }
    }

    fn platform(&self) -> (r: &'static str)
        ensures r@ == "linux-landlock"@,
    {
        "linux-landlock"
    }
}

#[derive(Debug, Default)]
pub struct LinuxSandbox;

impl Sandbox for LinuxSandbox {
    /// Enforces nothing, and says so.
    fn apply(&self, spec: &SandboxSpec) -> (r: Result<(), SandboxError>)
        ensures r == Err::<(), SandboxError>(SandboxError::NotImplemented),
    {
        Err(SandboxError::NotImplemented)
    }

    fn platform(&self) -> (r: &'static str)
        ensures r@ == "linux"@,
    {
        "linux"
    }
}

#[derive(Debug, Default)]
pub struct MacSandbox;

impl Sandbox for MacSandbox {
    /// Enforces nothing, and says so.
    fn apply(&self, spec: &SandboxSpec) -> (r: Result<(), SandboxError>)
        ensures r == Err::<(), SandboxError>(SandboxError::NotImplemented),
    {
        Err(SandboxError::NotImplemented)
    }

    fn platform(&self) -> (r: &'static str)
        ensures r@ == "macos"@,
    {
        "macos"
    }
}

#[derive(Debug, Default)]
pub struct WindowsSandbox;

impl Sandbox for WindowsSandbox {
    /// Enforces nothing, and says so.
    fn apply(&self, spec: &SandboxSpec) -> (r: Result<(), SandboxError>)
        ensures r == Err::<(), SandboxError>(SandboxError::NotImplemented),
    {
        Err(SandboxError::NotImplemented)
    }

    fn platform(&self) -> (r: &'static str)
        ensures r@ == "windows"@,
    {
        "windows"
    }
}

} // verus!
