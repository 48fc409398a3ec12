//! The diagnostic report: everything the user can copy to describe the
//! audio setup.

use crate::devices::AudioDevice;
use crate::grouping::AppAudioGroup;
use crate::persist::PersistedState;
use crate::protection::ProtectionStatus;
use crate::sessions::AudioSessionInfo;
use crate::text::{chars_of, string_from_chars};
use vstd::prelude::*;

verus! {

/// A snapshot of the protection, the devices and the sessions.
#[derive(Debug)]
pub struct DiagnosticReport {
    pub generated_at: String,
    pub app_version: String,
    pub os: String,
    pub protection: ProtectionStatus,
    pub devices: Vec<AudioDevice>,
    pub sessions: Vec<AudioSessionInfo>,
    pub groups: Vec<AppAudioGroup>,
    pub incomplete_session: bool,
    pub notes: Vec<String>,
}

impl DiagnosticReport {
    /// The report of these parts, stamped with the time it was made and the
    /// operating system's name; it records the library version and whether
    /// an unfinished protection session was persisted.
    pub fn build(
        protection: ProtectionStatus,
        devices: Vec<AudioDevice>,
        sessions: Vec<AudioSessionInfo>,
        groups: Vec<AppAudioGroup>,
        state: &PersistedState,
        notes: Vec<String>,
        generated_at: String,
        os: String,
    ) -> (r: Self)
        ensures
            r.generated_at == generated_at,
            r.app_version@ == crate::VERSION@,
            r.os == os,
            r.protection == protection,
            r.devices == devices,
            r.sessions == sessions,
            r.groups == groups,
            r.incomplete_session == state.incomplete_session is Some,
            r.notes == notes,
    {
        DiagnosticReport {
            generated_at,
            app_version: string_from_chars(&chars_of(crate::VERSION)),
            os,
            protection,
            devices,
            sessions,
            groups,
            incomplete_session: state.incomplete_session.is_some(),
            notes,
        }
    }
}

} // verus!
