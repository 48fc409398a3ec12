//! NoEcho audio core: the decision logic of universal shared/private audio
//! routing on Windows, with its contracts.  Enumerating endpoints, sessions
//! and processes, and applying routes, are done by the caller, which hands
//! the library plain values and performs the actions it returns.

use vstd::prelude::*;

pub mod com;
pub mod config;
pub mod devices;
pub mod error;
pub mod grouping;
pub mod icons;
pub mod loopback;
pub mod order;
pub mod paths;
pub mod persist;
pub mod policy;
pub mod process;
pub mod properties;
pub mod protection;
pub mod report;
pub mod sessions;
pub mod setup;
pub mod text;
pub mod types;

pub use config::{AppConfig, ThemePreference};
pub use devices::{AudioDevice, DeviceService};
pub use error::{AudioError, Result};
pub use grouping::{group_sessions, AppAudioGroup};
pub use persist::{PersistedState, StateStore};
pub use protection::{ProtectionEngine, ProtectionSnapshot, ProtectionStatus};
pub use report::DiagnosticReport;
pub use sessions::{AudioSessionInfo, SessionService};
pub use setup::{PrepareResult, SetupService, SetupState, SetupStatus};
pub use types::{AppIdentity, PlaybackState, ProtectionMode};

verus! {

/// Library version.
pub const VERSION: &'static str = "0.1.0";

/// Friendly name for the managed shared endpoint.
pub const SHARED_DEVICE_FRIENDLY_NAME: &'static str = "Audio compartido";

/// Known provisional virtual-device name fragments used during development.
pub const KNOWN_VIRTUAL_DEVICE_HINTS: [&'static str; 9] = [
    "Audio compartido",
    "CABLE Input",
    "CABLE Output",
    "VB-Audio",
    "VB-Cable",
    "Voicemeeter",
    "Virtual Cable",
    "Virtual Audio",
    "NoEcho Shared",
];

} // verus!
