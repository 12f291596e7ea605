//! The handshake record a native library reports, and the ids it carries.

use vstd::prelude::*;

verus! {

pub const HANDSHAKE_ABI_VERSION: u32 = 1;

/// FourCC "BEHA".
pub const BEHAVIOR_FAMILY: u32 = 0x42454841;

/// FourCC "REND".
pub const RENDER_FAMILY: u32 = 0x52454e44;

/// FourCC "BAB1".
pub const BEHAVIOR_ABI_V1: u32 = 0x42414231;

/// FourCC "RAB1".
pub const RENDER_ABI_V1: u32 = 0x52414231;

#[derive(Debug, Clone, Copy, PartialEq, Eq, Structural)]
pub struct HandshakeData {
    pub runtime_family: u32,
    pub handshake_abi: u32,
    pub runtime_abi: u32,
}

} // verus!
