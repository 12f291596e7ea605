//! The addon ecosystem's error: one flat enum of plain values covering
//! manifest validation, compatibility, registry and pipeline problems.

use crate::text::{debug_quote, debug_text, decimal, u64_text};
use vstd::prelude::*;
use vstd::string::StringExecFns;

verus! {

broadcast use vstd::string::to_string_from_display_ensures_for_str;

#[derive(Debug, Clone, PartialEq, Eq)]
pub enum AddonError {
    /// No manifest at the given path.
    ManifestNotFound(String),
    /// The manifest violates the manifest rules.
    ManifestInvalid(String),
    /// The engine API version is outside the addon's declared range.
    IncompatibleApi { engine: u32, min: u32, max: u32 },
    /// An addon id registered twice.
    DuplicateAddon(String),
    /// No addon with that id.
    NotFound(String),
    /// A malformed pipeline config.
    InvalidPipeline(String),
    /// A pipeline that failed validation against the registry.
    PipelineRejected(String),
    /// An installed addon with no runtime implementation.
    NoImplementation(String),
    UnsupportedSource(String),
    UnsupportedSink(String),
    /// A package format problem.
    Package(String),
}

/// The message an error reads as.
pub open spec fn error_text(e: AddonError) -> Seq<char> {
    match e {
        AddonError::ManifestNotFound(p) => "manifest not found at "@ + p@,
        AddonError::ManifestInvalid(m) => "invalid manifest: "@ + m@,
        AddonError::IncompatibleApi { engine, min, max } => "incompatible API: engine="@ + decimal(engine as nat)
            + ", addon requires ["@ + decimal(min as nat) + "..="@ + decimal(max as nat) + "]"@,
        AddonError::DuplicateAddon(id) => "duplicate addon id "@ + id@ + " (already registered)"@,
        AddonError::NotFound(id) => "addon not found: "@ + id@,
        AddonError::InvalidPipeline(m) => "invalid pipeline config: "@ + m@,
        AddonError::PipelineRejected(m) => "pipeline rejected:\n"@ + m@,
        AddonError::NoImplementation(id) => "addon "@ + debug_text(id@) + " has no runtime implementation registered"@,
        AddonError::UnsupportedSource(k) => "unsupported source type "@ + debug_text(k@),
        AddonError::UnsupportedSink(k) => "unsupported sink type "@ + debug_text(k@),
        AddonError::Package(m) => "package format error: "@ + m@,
    }
}

impl AddonError {
    /// The message this error reads as.
    pub fn message(&self) -> (r: String)
        ensures
            r@ == error_text(*self),
    {
        match self {
            AddonError::ManifestNotFound(p) => "manifest not found at ".to_string().concat(p.as_str()),
            AddonError::ManifestInvalid(m) => "invalid manifest: ".to_string().concat(m.as_str()),
            AddonError::IncompatibleApi { engine, min, max } => "incompatible API: engine=".to_string()
                .concat(u64_text(*engine as u64).as_str())
                .concat(", addon requires [")
                .concat(u64_text(*min as u64).as_str())
                .concat("..=")
                .concat(u64_text(*max as u64).as_str())
                .concat("]"),
            AddonError::DuplicateAddon(id) => "duplicate addon id ".to_string().concat(id.as_str()).concat(
                " (already registered)",
            ),
            AddonError::NotFound(id) => "addon not found: ".to_string().concat(id.as_str()),
            AddonError::InvalidPipeline(m) => "invalid pipeline config: ".to_string().concat(m.as_str()),
            AddonError::PipelineRejected(m) => "pipeline rejected:\n".to_string().concat(m.as_str()),
            AddonError::NoImplementation(id) => "addon ".to_string().concat(debug_quote(id.as_str()).as_str()).concat(
                " has no runtime implementation registered",
            ),
            AddonError::UnsupportedSource(k) => "unsupported source type ".to_string().concat(
                debug_quote(k.as_str()).as_str(),
            ),
            AddonError::UnsupportedSink(k) => "unsupported sink type ".to_string().concat(debug_quote(k.as_str()).as_str()),
            AddonError::Package(m) => "package format error: ".to_string().concat(m.as_str()),
        }
    }
}

} // verus!
