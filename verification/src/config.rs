//! User preferences.

use crate::text::clone_opt_string;
use crate::types::{clone_identities, AppIdentity, DeviceChangeBehavior, ProtectionMode};
use vstd::prelude::*;

verus! {

/// Colour theme.
#[derive(Debug, Clone, Copy, PartialEq, Eq, Structural)]
pub enum ThemePreference {
    System,
    Light,
    Dark,
}

impl Default for ThemePreference {
    fn default() -> (r: Self)
        ensures
            r == ThemePreference::System,
    {
        ThemePreference::System
    }
}

/// The saved preferences of the application.
#[derive(Debug)]
pub struct AppConfig {
    pub theme: ThemePreference,
    pub mode: ProtectionMode,
    pub start_with_windows: bool,
    pub minimize_to_tray: bool,
    pub close_to_tray: bool,
    pub restore_on_exit: bool,
    pub auto_recover_on_start: bool,
    pub show_inactive_recent: bool,
    pub preferred_physical_device_id: Option<String>,
    pub preferred_shared_device_id: Option<String>,
    pub device_change_behavior: DeviceChangeBehavior,
    pub excluded_apps: Vec<AppIdentity>,
    pub language: String,
    pub language_migrated: bool,
}

/// Two configurations hold the same preferences.
pub open spec fn same_config(a: AppConfig, b: AppConfig) -> bool {
    &&& a.theme == b.theme
    &&& a.mode == b.mode
    &&& a.start_with_windows == b.start_with_windows
    &&& a.minimize_to_tray == b.minimize_to_tray
    &&& a.close_to_tray == b.close_to_tray
    &&& a.restore_on_exit == b.restore_on_exit
    &&& a.auto_recover_on_start == b.auto_recover_on_start
    &&& a.show_inactive_recent == b.show_inactive_recent
    &&& a.preferred_physical_device_id == b.preferred_physical_device_id
    &&& a.preferred_shared_device_id == b.preferred_shared_device_id
    &&& a.device_change_behavior == b.device_change_behavior
    &&& a.excluded_apps@ == b.excluded_apps@
    &&& a.language == b.language
    &&& a.language_migrated == b.language_migrated
}

/// `a` and `b` hold the same preferences except, possibly, the excluded
/// applications and the language settings.
pub open spec fn same_settings(a: AppConfig, b: AppConfig) -> bool {
    &&& a.theme == b.theme
    &&& a.mode == b.mode
    &&& a.start_with_windows == b.start_with_windows
    &&& a.minimize_to_tray == b.minimize_to_tray
    &&& a.close_to_tray == b.close_to_tray
    &&& a.restore_on_exit == b.restore_on_exit
    &&& a.auto_recover_on_start == b.auto_recover_on_start
    &&& a.show_inactive_recent == b.show_inactive_recent
    &&& a.preferred_physical_device_id == b.preferred_physical_device_id
    &&& a.preferred_shared_device_id == b.preferred_shared_device_id
    &&& a.device_change_behavior == b.device_change_behavior
}

impl Clone for AppConfig {
    fn clone(&self) -> (r: Self)
        ensures
            same_config(r, *self),
    {
        AppConfig {
            theme: self.theme,
            mode: self.mode,
            start_with_windows: self.start_with_windows,
            minimize_to_tray: self.minimize_to_tray,
            close_to_tray: self.close_to_tray,
            restore_on_exit: self.restore_on_exit,
            auto_recover_on_start: self.auto_recover_on_start,
            show_inactive_recent: self.show_inactive_recent,
            preferred_physical_device_id: clone_opt_string(&self.preferred_physical_device_id),
            preferred_shared_device_id: clone_opt_string(&self.preferred_shared_device_id),
            device_change_behavior: self.device_change_behavior,
            excluded_apps: clone_identities(&self.excluded_apps),
            language: self.language.clone(),
            language_migrated: self.language_migrated,
        }
    }
}

/// The configuration of a first start.
pub open spec fn is_default_config(c: AppConfig) -> bool {
    &&& c.theme == ThemePreference::System
    &&& c.mode == ProtectionMode::Automatic
    &&& !c.start_with_windows
    &&& c.minimize_to_tray
    &&& c.close_to_tray
    &&& c.restore_on_exit
    &&& c.auto_recover_on_start
    &&& !c.show_inactive_recent
    &&& c.preferred_physical_device_id is None
    &&& c.preferred_shared_device_id is None
    &&& c.device_change_behavior == DeviceChangeBehavior::AutoFollow
    &&& c.excluded_apps@.len() == 0
    &&& c.language@ == "en"@
    &&& !c.language_migrated
}

impl Default for AppConfig {
    fn default() -> (r: Self)
        ensures
            is_default_config(r),
    {
        AppConfig {
            theme: ThemePreference::System,
            mode: ProtectionMode::Automatic,
            start_with_windows: false,
            minimize_to_tray: true,
            close_to_tray: true,
            restore_on_exit: true,
            auto_recover_on_start: true,
            show_inactive_recent: false,
            preferred_physical_device_id: None,
            preferred_shared_device_id: None,
            device_change_behavior: DeviceChangeBehavior::AutoFollow,
            excluded_apps: Vec::new(),
            language: "en".to_owned(),
            language_migrated: false,
        }
    }
}

/// `after` is `before` once the language choice was migrated, and `changed`
/// says whether it was: the first time, an implicit `es` becomes `en` and the
/// configuration is marked migrated; after that nothing changes.
pub open spec fn language_migration(before: AppConfig, after: AppConfig, changed: bool) -> bool {
    &&& changed == !before.language_migrated
    &&& before.language_migrated ==> same_config(after, before)
    &&& !before.language_migrated ==> {
        &&& same_settings(after, before)
        &&& after.excluded_apps@ == before.excluded_apps@
        &&& after.language_migrated
        &&& after.language@ == if before.language@ == "es"@ {
            "en"@
        } else {
            before.language@
        }
    }
}

/// Older builds used Spanish as the implicit language and had no language
/// selector: the first time, an implicit `es` becomes `en`; a choice made
/// after that is kept.  Returns whether the configuration changed (and so
/// must be saved).
pub fn migrate_language(config: &mut AppConfig) -> (changed: bool)
    ensures
        language_migration(*old(config), *final(config), changed),
{
    if !config.language_migrated {
        if crate::text::str_eq(config.language.as_str(), "es") {
            config.language = "en".to_owned();
        }
        config.language_migrated = true;
        return true;
    }
    false
}

} // verus!
