//! The persisted state: preferences, the record of a protection session
//! that has not been closed, and the last protection; and where it is kept.

use crate::config::AppConfig;
use crate::error::{AudioError, Result};
use crate::paths::{join, join_path};
use crate::text::{clone_opt_string, clone_strings};
use crate::types::{clone_identities, AppIdentity};
use vstd::prelude::*;

verus! {

/// What was changed by a protection session that has not been closed yet,
/// so that it can be undone after an unexpected exit.
#[derive(Debug)]
pub struct IncompleteSession {
    pub created_at: String,
    pub previous_default_multimedia_id: Option<String>,
    pub previous_default_communications_id: Option<String>,
    pub physical_device_id: Option<String>,
    pub shared_device_id: Option<String>,
    pub excluded_apps: Vec<AppIdentity>,
    pub muted_feedback_sessions: Vec<String>,
    pub reason: String,
}

impl Clone for IncompleteSession {
    fn clone(&self) -> (r: Self)
        ensures
            r.created_at == self.created_at,
            r.previous_default_multimedia_id == self.previous_default_multimedia_id,
            r.previous_default_communications_id == self.previous_default_communications_id,
            r.physical_device_id == self.physical_device_id,
            r.shared_device_id == self.shared_device_id,
            r.excluded_apps@ == self.excluded_apps@,
            r.muted_feedback_sessions@ == self.muted_feedback_sessions@,
            r.reason == self.reason,
    {
        IncompleteSession {
            created_at: self.created_at.clone(),
            previous_default_multimedia_id: clone_opt_string(&self.previous_default_multimedia_id),
            previous_default_communications_id: clone_opt_string(&self.previous_default_communications_id),
            physical_device_id: clone_opt_string(&self.physical_device_id),
            shared_device_id: clone_opt_string(&self.shared_device_id),
            excluded_apps: clone_identities(&self.excluded_apps),
            muted_feedback_sessions: clone_strings(&self.muted_feedback_sessions),
            reason: self.reason.clone(),
        }
    }
}

/// The last protection session.
#[derive(Debug)]
pub struct LastProtectionInfo {
    pub active: bool,
    pub updated_at: String,
    pub excluded_apps: Vec<AppIdentity>,
    pub physical_device_id: Option<String>,
    pub shared_device_id: Option<String>,
}

/// Everything that is saved between runs.
#[derive(Debug)]
pub struct PersistedState {
    pub config: AppConfig,
    pub incomplete_session: Option<IncompleteSession>,
    pub last_protection: Option<LastProtectionInfo>,
}

impl Default for PersistedState {
    fn default() -> (r: Self)
        ensures
            crate::config::is_default_config(r.config),
            r.incomplete_session is None,
            r.last_protection is None,
    {
        PersistedState { config: AppConfig::default(), incomplete_session: None, last_protection: None }
    }
}

/// Where the state is kept.
pub struct StateStore {
    path: String,
}

/// The message when the local application data folder is unknown.
pub open spec fn no_local_data_message() -> Seq<char> {
    "no se pudo resolver AppData\\Local"@
}

impl StateStore {
    pub closed spec fn spec_path(&self) -> Seq<char> {
        self.path@
    }

    /// The state file under the local application data folder.
    pub fn default_path(local_data_dir: Option<&str>) -> (r: Result<String>)
        ensures
            match local_data_dir {
                Some(base) => r matches Ok(p) && p@ == join_path(join_path(base@, "NoEcho"@), "state.json"@),
                None => r matches Err(AudioError::Message(m)) && m@ == no_local_data_message(),
            },
    {
        match local_data_dir {
            Some(base) => {
                let dir = join(base, "NoEcho");
                Ok(join(dir.as_str(), "state.json"))
            },
            None => Err(AudioError::Message("no se pudo resolver AppData\\Local".to_owned())),
        }
    }

    /// The log folder under the local application data folder.
    pub fn logs_dir(local_data_dir: Option<&str>) -> (r: Result<String>)
        ensures
            match local_data_dir {
                Some(base) => r matches Ok(p) && p@ == join_path(join_path(base@, "NoEcho"@), "logs"@),
                None => r matches Err(AudioError::Message(m)) && m@ == no_local_data_message(),
            },
    {
        match local_data_dir {
            Some(base) => {
                let dir = join(base, "NoEcho");
                Ok(join(dir.as_str(), "logs"))
            },
            None => Err(AudioError::Message("no se pudo resolver AppData\\Local".to_owned())),
        }
    }

    /// The store kept at `path`.
    pub fn open(path: String) -> (r: Self)
        ensures
            r.spec_path() == path@,
    {
        StateStore { path }
    }

    /// The store at the default path under the local application data folder.
    pub fn open_default(local_data_dir: Option<&str>) -> (r: Result<Self>)
        ensures
            match local_data_dir {
                Some(base) => r matches Ok(s) && s.spec_path() == join_path(join_path(base@, "NoEcho"@), "state.json"@),
                None => r matches Err(AudioError::Message(m)) && m@ == no_local_data_message(),
            },
    {
        let path = Self::default_path(local_data_dir)?;
        Ok(Self::open(path))
    }

    /// Where the state is kept.
    pub fn path(&self) -> (r: &str)
        ensures
            r@ == self.spec_path(),
    {
        self.path.as_str()
    }
}

} // verus!
