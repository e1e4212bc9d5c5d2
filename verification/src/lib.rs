//! Debug-only Unix-socket automation and rendered screenshots for Iced apps.
//!
//! Two private Unix sockets let a developer look at a running application and drive
//! it: one returns the rendered viewport as a PNG image, the other dispatches selected
//! messages. This crate holds what the two protocols decide; the application's side
//! opens the sockets, starts the threads and carries out what is decided here.

pub mod automation;
pub mod expansion;
pub mod json;
pub mod options;
pub mod relay;
pub mod screenshot;
pub mod server;
pub mod socket;
pub mod text;

pub use automation::AutomationRequest;
pub use options::DevOptions;
pub use screenshot::CapturedScreenshot;
pub use screenshot::ScreenshotRequest;
pub use serde;
pub use serde_json;

use vstd::prelude::*;

verus! {

/// Converts opt-in tagged JSON requests into application messages.
///
/// [`expansion::derive_dev_automation`] writes the implementation for an enum. Annotate
/// each exposed variant with `#[automation]`.
pub trait DevAutomation: Sized {
    /// Decodes one tagged JSON value into an allowed enum variant.
    fn from_automation_value(value: serde_json::Value) -> Result<Self, serde_json::Error>;

    /// Describes the enum variants available in this running binary.
    fn automation_schema() -> serde_json::Value;
}

} // verus!
