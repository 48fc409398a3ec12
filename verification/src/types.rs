//! Application identities and the small enumerations shared by the library.

use crate::paths::{file_name_chars, file_name_of};
use crate::text::{chars_eq, chars_of, clone_opt_string, eq_ignore_ascii_case, lower, lower_chars, to_ascii_lowercase};
use vstd::prelude::*;

verus! {

/// Persistent identity of an application family.
#[derive(Debug, PartialEq, Eq, Hash)]
pub struct AppIdentity {
    /// Lowercase executable file name, e.g. `discord.exe`.
    pub exe_name: String,
    /// Optional full executable path for stronger matching.
    pub exe_path: Option<String>,
    /// Optional display name.
    pub display_name: Option<String>,
}

impl Clone for AppIdentity {
    fn clone(&self) -> (r: Self)
        ensures
            r == *self,
    {
        AppIdentity {
            exe_name: self.exe_name.clone(),
            exe_path: clone_opt_string(&self.exe_path),
            display_name: clone_opt_string(&self.display_name),
        }
    }
}

/// An exact copy of a list of identities.
pub fn clone_identities(v: &Vec<AppIdentity>) -> (r: Vec<AppIdentity>)
    ensures
        r@ == v@,
{
    let mut r: Vec<AppIdentity> = Vec::new();
    let n = v.len();
    for i in 0..n
        invariant
            n == v@.len(),
            r@ == v@.take(i as int),
    {
        r.push(v[i].clone());
        assert(r@ =~= v@.take(i + 1));
    }
    assert(v@.take(n as int) =~= v@);
    r
}

/// `identity` is the one for the application whose executable is at `path`:
/// its full path equals `path` up to ASCII case, or its executable name is
/// the file name of the lowercased path.
pub open spec fn identity_matches_path(identity: AppIdentity, path: Seq<char>) -> bool {
    ||| (identity.exe_path matches Some(full) && lower(full@) == lower(path))
    ||| file_name_of(lower(path)) == Some(identity.exe_name@)
}

impl AppIdentity {
    /// The identity of an executable name alone, lowercased.
    pub fn from_exe(exe_name: &str) -> (r: Self)
        ensures
            r.exe_name@ == lower(exe_name@),
            r.exe_path is None,
            r.display_name is None,
    {
        AppIdentity { exe_name: to_ascii_lowercase(exe_name), exe_path: None, display_name: None }
    }

    /// Whether the executable at `path` belongs to this application.
    pub fn matches_path(&self, path: &str) -> (r: bool)
        ensures
            r == identity_matches_path(*self, path@),
    {
        if let Some(full) = &self.exe_path {
            if eq_ignore_ascii_case(full.as_str(), path) {
                return true;
            }
        }
        let path_l = to_ascii_lowercase(path);
        match file_name_chars(path_l.as_str()) {
            Some(name) => {
                let own = chars_of(self.exe_name.as_str());
                chars_eq(&name, &own)
            },
            None => false,
        }
    }
}

/// Playback state of an audio session.
#[derive(Debug, Clone, Copy, PartialEq, Eq, Structural)]
pub enum PlaybackState {
    Inactive,
    Active,
    Expired,
    Unknown,
}

/// The label shown for a playback state.
pub open spec fn playback_label(s: PlaybackState) -> Seq<char> {
    match s {
        PlaybackState::Inactive => "Inactiva"@,
        PlaybackState::Active => "Reproduciendo audio"@,
        PlaybackState::Expired => "Reciente"@,
        PlaybackState::Unknown => "Desconocido"@,
    }
}

/// Rank of a playback state in lists: playing first, then idle, recent and
/// unknown.
pub open spec fn playback_rank(s: PlaybackState) -> u64 {
    match s {
        PlaybackState::Active => 3,
        PlaybackState::Inactive => 2,
        PlaybackState::Expired => 1,
        PlaybackState::Unknown => 0,
    }
}

impl PlaybackState {
    pub fn as_label(self) -> (r: &'static str)
        ensures
            r@ == playback_label(self),
    {
        match self {
            PlaybackState::Inactive => "Inactiva",
            PlaybackState::Active => "Reproduciendo audio",
            PlaybackState::Expired => "Reciente",
            PlaybackState::Unknown => "Desconocido",
        }
    }

    /// Rank of this state in lists.
    pub fn rank(self) -> (r: u64)
        ensures
            r == playback_rank(self),
    {
        match self {
            PlaybackState::Active => 3,
            PlaybackState::Inactive => 2,
            PlaybackState::Expired => 1,
            PlaybackState::Unknown => 0,
        }
    }
}

/// How protection is driven.
#[derive(Debug, Clone, Copy, PartialEq, Eq, Structural)]
pub enum ProtectionMode {
    Automatic,
    Manual,
}

impl Default for ProtectionMode {
    fn default() -> (r: Self)
        ensures
            r == ProtectionMode::Automatic,
    {
        ProtectionMode::Automatic
    }
}

/// What to do when the output device changes.
#[derive(Debug, Clone, Copy, PartialEq, Eq, Structural)]
pub enum DeviceChangeBehavior {
    AutoFollow,
    Ask,
    KeepCurrent,
}

impl Default for DeviceChangeBehavior {
    fn default() -> (r: Self)
        ensures
            r == DeviceChangeBehavior::AutoFollow,
    {
        DeviceChangeBehavior::AutoFollow
    }
}

} // verus!
