//! Engine-side state that is plain logic: the debounced rebuild trigger and
//! the plain-language error messages.

pub mod reload;

pub use reload::{PipelineEdit, ReloadState};
