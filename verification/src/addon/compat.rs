//! API compatibility between engine and addon: each addon declares the engine
//! API versions it works against (`api_min..=api_max`).

use super::error::AddonError;
use super::manifest::Manifest;
use vstd::prelude::*;

verus! {

/// Current host API version. Bumped on breaking addon-contract changes.
pub const ENGINE_API_VERSION: u32 = 1;

/// `Ok` exactly when `engine_api` lies in `[api_min, api_max]`; otherwise the
/// gap is reported.
pub fn check_compat(manifest: &Manifest, engine_api: u32) -> (r: Result<(), AddonError>)
    ensures
        manifest.api_min <= engine_api <= manifest.api_max ==> r is Ok,
        !(manifest.api_min <= engine_api <= manifest.api_max) ==> r == Err::<(), AddonError>(
            AddonError::IncompatibleApi { engine: engine_api, min: manifest.api_min, max: manifest.api_max },
        ),
{
    if engine_api < manifest.api_min || engine_api > manifest.api_max {
        return Err(AddonError::IncompatibleApi { engine: engine_api, min: manifest.api_min, max: manifest.api_max });
    }
    Ok(())
}

} // verus!
