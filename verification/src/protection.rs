//! The protection engine: the decisions of activating and deactivating
//! shared/private routing, as steps between which the caller performs the
//! system changes they ask for.

use crate::config::{language_migration, migrate_language, same_config, same_settings, AppConfig};
use crate::devices::{
    default_choice, physical_choice, shared_choice, AudioDevice, DefaultRole, DeviceFlag, DeviceService,
};
use crate::error::{error_text, AudioError, Result};
use crate::grouping::{group_sessions, is_grouping, strings_view, AppAudioGroup};
use crate::order::{insert_sorted_text, texts_increasing, texts_view};
use crate::loopback::{plan_shared_capture, LoopbackCapturePlan};
use crate::persist::{IncompleteSession, LastProtectionInfo, PersistedState};
use crate::devices::{is_mic_chain_virtual, mic_chain_name, name_has};
use crate::policy::{role_id, set_process_default_endpoint, set_process_default_endpoints, EndpointAssignment};
use crate::process::{
    contains_pid, critical_process, expand_related_pids, image_path_in, insert_sorted, is_critical_system_process,
    is_related, process_image_path, strictly_increasing, ProcessInfo,
};
use crate::sessions::AudioSessionInfo;
use crate::text::{chars_contains, chars_eq, is_infix, lower, lower_chars};
use crate::types::identity_matches_path;
use crate::text::{
    chars_of, clone_opt_string, clone_strings, decimal, decimal_chars, push_str, string_from_chars, view_opt_str,
    view_opt_string,
};
use crate::types::{clone_identities, AppIdentity, PlaybackState, ProtectionMode};
use vstd::prelude::*;

verus! {

/// What an active protection changed, and with which devices.
#[derive(Debug)]
pub struct ProtectionSnapshot {
    pub previous_default_multimedia_id: Option<String>,
    pub previous_default_communications_id: Option<String>,
    pub physical_device_id: String,
    pub physical_device_name: String,
    pub communications_device_id: String,
    pub communications_device_name: String,
    pub shared_device_id: String,
    pub shared_device_name: String,
    pub excluded_apps: Vec<AppIdentity>,
    pub routed_app_paths: Vec<String>,
    pub activated_at: String,
}

/// Two snapshots record the same protection.
pub open spec fn same_snapshot(a: ProtectionSnapshot, b: ProtectionSnapshot) -> bool {
    &&& a.previous_default_multimedia_id == b.previous_default_multimedia_id
    &&& a.previous_default_communications_id == b.previous_default_communications_id
    &&& a.physical_device_id == b.physical_device_id
    &&& a.physical_device_name == b.physical_device_name
    &&& a.communications_device_id == b.communications_device_id
    &&& a.communications_device_name == b.communications_device_name
    &&& a.shared_device_id == b.shared_device_id
    &&& a.shared_device_name == b.shared_device_name
    &&& a.excluded_apps@ == b.excluded_apps@
    &&& a.routed_app_paths@ == b.routed_app_paths@
    &&& a.activated_at == b.activated_at
}

pub open spec fn same_opt_snapshot(a: Option<ProtectionSnapshot>, b: Option<ProtectionSnapshot>) -> bool {
    match (a, b) {
        (Some(x), Some(y)) => same_snapshot(x, y),
        (None, None) => true,
        _ => false,
    }
}

impl Clone for ProtectionSnapshot {
    fn clone(&self) -> (r: Self)
        ensures
            same_snapshot(r, *self),
    {
        ProtectionSnapshot {
            previous_default_multimedia_id: clone_opt_string(&self.previous_default_multimedia_id),
            previous_default_communications_id: clone_opt_string(&self.previous_default_communications_id),
            physical_device_id: self.physical_device_id.clone(),
            physical_device_name: self.physical_device_name.clone(),
            communications_device_id: self.communications_device_id.clone(),
            communications_device_name: self.communications_device_name.clone(),
            shared_device_id: self.shared_device_id.clone(),
            shared_device_name: self.shared_device_name.clone(),
            excluded_apps: clone_identities(&self.excluded_apps),
            routed_app_paths: clone_strings(&self.routed_app_paths),
            activated_at: self.activated_at.clone(),
        }
    }
}

fn clone_opt_snapshot(o: &Option<ProtectionSnapshot>) -> (r: Option<ProtectionSnapshot>)
    ensures
        same_opt_snapshot(r, *o),
{
    match o {
        Some(s) => Some(s.clone()),
        None => None,
    }
}

/// What the user interface shows of the protection.
#[derive(Debug)]
pub struct ProtectionStatus {
    pub active: bool,
    pub mode: ProtectionMode,
    pub message: String,
    pub excluded_count: usize,
    pub excluded_apps: Vec<AppIdentity>,
    pub physical_device_name: Option<String>,
    pub shared_device_name: Option<String>,
    pub shared_device_available: bool,
    pub warnings: Vec<String>,
    pub snapshot: Option<ProtectionSnapshot>,
}

/// A change of the system's audio configuration the caller performs.
#[derive(Debug)]
pub enum AudioAction {
    /// Make `device_id` the default render device for `role`.  When
    /// `must_succeed` is set and it fails, the remaining actions of the list
    /// are skipped and the failure is the outcome of the list.
    SetDefaultEndpoint { device_id: String, role: DefaultRole, must_succeed: bool },
    /// Clear the per-application routes of every process running the
    /// executable at `process_path` (failures are ignored).
    ClearAppRoutes { process_path: String },
}

/// `a` sets the default device of `role` to `id`.
pub open spec fn sets_default(a: AudioAction, id: Seq<char>, role: DefaultRole, must_succeed: bool) -> bool {
    a matches AudioAction::SetDefaultEndpoint { device_id, role: r, must_succeed: m } && device_id@ == id && r == role
        && m == must_succeed
}

/// `a` clears the routes of the executable at `path`.
pub open spec fn clears_routes(a: AudioAction, path: Seq<char>) -> bool {
    a matches AudioAction::ClearAppRoutes { process_path } && process_path@ == path
}

/// The actions restoring the previous default devices: the multimedia one
/// first (its failure ends the restoration), then the communications one.
pub open spec fn is_restore_defaults(actions: Seq<AudioAction>, mm: Option<Seq<char>>, comm: Option<Seq<char>>) -> bool {
    let n_mm: int = if mm is Some { 1 } else { 0 };
    let n_comm: int = if comm is Some { 1 } else { 0 };
    &&& actions.len() == n_mm + n_comm
    &&& mm is Some ==> sets_default(actions[0], mm->0, DefaultRole::Multimedia, true)
    &&& comm is Some ==> sets_default(actions[n_mm], comm->0, DefaultRole::Communications, false)
}

/// The actions restoring the previous default devices.
pub fn restore_defaults(mm: Option<&str>, comm: Option<&str>) -> (r: Vec<AudioAction>)
    ensures
        is_restore_defaults(r@, view_opt_str(mm), view_opt_str(comm)),
{
    let mut r: Vec<AudioAction> = Vec::new();
    if let Some(id) = mm {
        r.push(AudioAction::SetDefaultEndpoint { device_id: id.to_owned(), role: DefaultRole::Multimedia, must_succeed: true });
    }
    if let Some(id) = comm {
        r.push(
            AudioAction::SetDefaultEndpoint {
                device_id: id.to_owned(),
                role: DefaultRole::Communications,
                must_succeed: false,
            },
        );
    }
    r
}

fn opt_str(o: &Option<String>) -> (r: Option<&str>)
    ensures
        view_opt_str(r) == view_opt_string(*o),
{
    match o {
        Some(s) => Some(s.as_str()),
        None => None,
    }
}

/// The executable paths of the identities that have one, in order.
pub open spec fn identity_paths(apps: Seq<AppIdentity>) -> Seq<Seq<char>>
    decreases apps.len(),
{
    if apps.len() == 0 {
        Seq::empty()
    } else {
        let rest = identity_paths(apps.drop_last());
        match apps.last().exe_path {
            Some(p) => rest.push(p@),
            None => rest,
        }
    }
}

/// `actions` undoes the unclosed protection session `incomplete`: it
/// restores the previous default devices, then clears the routes of each
/// excluded application with a known path, in order.
pub open spec fn is_recovery_actions(actions: Seq<AudioAction>, incomplete: IncompleteSession) -> bool {
    exists|k: int|
        0 <= k <= actions.len() && #[trigger] is_restore_defaults(
            actions.take(k),
            view_opt_string(incomplete.previous_default_multimedia_id),
            view_opt_string(incomplete.previous_default_communications_id),
        ) && actions.len() - k == identity_paths(incomplete.excluded_apps@).len() && forall|m: int|
            k <= m < actions.len() ==> clears_routes(#[trigger] actions[m], identity_paths(incomplete.excluded_apps@)[m - k])
}

/// The actions undoing an unclosed protection session: restore the previous
/// default devices, then clear the routes of each excluded application with
/// a known path.
pub fn restore_defaults_from_incomplete(incomplete: &IncompleteSession) -> (r: Vec<AudioAction>)
    ensures
        is_recovery_actions(r@, *incomplete),
{
    let mut r = restore_defaults(
        opt_str(&incomplete.previous_default_multimedia_id),
        opt_str(&incomplete.previous_default_communications_id),
    );
    let k = r.len();
    let ghost head = r@;
    let apps = &incomplete.excluded_apps;
    let n = apps.len();
    for i in 0..n
        invariant
            n == apps@.len(),
            k == head.len(),
            r@.len() >= k,
            r@.take(k as int) == head,
            r@.len() - k == identity_paths(apps@.take(i as int)).len(),
            forall|m: int| k <= m < r@.len() ==> clears_routes(#[trigger] r@[m], identity_paths(apps@.take(i as int))[m - k]),
    {
        proof {
            assert(apps@.take(i + 1).drop_last() =~= apps@.take(i as int));
            assert(apps@.take(i + 1).last() == apps@[i as int]);
        }
        if let Some(path) = &apps[i].exe_path {
            let ghost before = r@;
            r.push(AudioAction::ClearAppRoutes { process_path: path.clone() });
            proof {
                assert(r@.take(k as int) =~= before.take(k as int));
                assert forall|m: int| k <= m < r@.len() implies clears_routes(#[trigger] r@[m], identity_paths(apps@.take(i + 1))[m - k]) by {
                    if m < before.len() {
                        assert(r@[m] == before[m]);
                    }
                }
            }
        }
    }
    assert(apps@.take(n as int) =~= apps@);
    assert(r@.take(k as int) == head);
    r
}

/// The unclosed protection session to undo at start, if recovery is enabled.
pub fn recovery_target(state: &PersistedState) -> (r: Option<&IncompleteSession>)
    ensures
        match r {
            Some(s) => state.config.auto_recover_on_start && state.incomplete_session == Some(*s),
            None => !state.config.auto_recover_on_start || state.incomplete_session is None,
        },
{
    if state.config.auto_recover_on_start {
        match &state.incomplete_session {
            Some(s) => Some(s),
            None => None,
        }
    } else {
        None
    }
}

/// The warning after an attempted recovery.
pub open spec fn recovery_warning(outcome: Result<()>) -> Seq<char> {
    match outcome {
        Ok(_) => "Se detecto un cierre inesperado. La configuracion de audio fue restaurada."@,
        Err(e) => "No se pudo restaurar completamente la sesion anterior: "@ + error_text(e),
    }
}

/// The engine is consistent: protection is active exactly when the snapshot
/// of what it changed is kept.  Every engine is (a type invariant of
/// `ProtectionEngine`), and every operation states it of its result.
pub open spec fn engine_consistent(e: ProtectionEngine) -> bool {
    e.spec_active() == (e.spec_snapshot() is Some)
}

/// The protection engine's state.
pub struct ProtectionEngine {
    config: AppConfig,
    active: bool,
    snapshot: Option<ProtectionSnapshot>,
    warnings: Vec<String>,
}

impl ProtectionEngine {
    /// Every engine is consistent (see `engine_consistent`).
    #[verifier::type_invariant]
    spec fn keeps_snapshot_while_active(self) -> bool {
        self.active == (self.snapshot is Some)
    }

    pub closed spec fn spec_config(&self) -> AppConfig {
        self.config
    }

    pub closed spec fn spec_active(&self) -> bool {
        self.active
    }

    pub closed spec fn spec_snapshot(&self) -> Option<ProtectionSnapshot> {
        self.snapshot
    }

    pub closed spec fn spec_warnings(&self) -> Seq<String> {
        self.warnings@
    }

    /// The engine at start, from the loaded state and, when an unclosed
    /// session is to be undone (recovery enabled and a session recorded),
    /// the outcome of undoing it (`restore_defaults_from_incomplete`).  The
    /// language choice is migrated once (see `language_migration`).  The
    /// engine is inactive, with the migrated preferences and the warning of
    /// the recovery.  The state to save is returned when the preferences were
    /// migrated or a session was undone: the migrated preferences, the last
    /// protection as loaded, and no unclosed session once undone.
    pub fn initialize(loaded: PersistedState, recovery: Option<Result<()>>) -> (r: (ProtectionEngine, Option<PersistedState>))
        requires
            (recovery is Some) == (loaded.config.auto_recover_on_start && loaded.incomplete_session is Some),
        ensures
            engine_consistent(r.0),
            language_migration(loaded.config, r.0.spec_config(), !loaded.config.language_migrated),
            !r.0.spec_active(),
            r.0.spec_snapshot() is None,
            match recovery {
                Some(outcome) => r.0.spec_warnings().len() == 1 && r.0.spec_warnings()[0]@ == recovery_warning(outcome),
                None => r.0.spec_warnings().len() == 0,
            },
            (r.1 is Some) == (!loaded.config.language_migrated || recovery is Some),
            r.1 matches Some(saved) ==> {
                &&& same_config(saved.config, r.0.spec_config())
                &&& saved.last_protection == loaded.last_protection
                &&& saved.incomplete_session == if recovery is Some {
                    None
                } else {
                    loaded.incomplete_session
                }
            },
    {
        let mut state = loaded;
        let migrated = migrate_language(&mut state.config);
        let mut warnings: Vec<String> = Vec::new();
        let recovered = match recovery {
            Some(outcome) => {
                match &outcome {
                    Ok(_) => {
                        warnings.push(
                            "Se detecto un cierre inesperado. La configuracion de audio fue restaurada.".to_owned(),
                        );
                    },
                    Err(e) => {
                        let mut v = chars_of("No se pudo restaurar completamente la sesion anterior: ");
                        let mut t = chars_of(e.describe().as_str());
                        v.append(&mut t);
                        warnings.push(string_from_chars(&v));
                    },
                }
                state.incomplete_session = None;
                true
            },
            None => false,
        };
        let config = state.config.clone();
        let to_save = if migrated || recovered {
            Some(state)
        } else {
            None
        };
        (ProtectionEngine { config, active: false, snapshot: None, warnings }, to_save)
    }

    /// The preferences.
    pub fn config(&self) -> (r: AppConfig)
        ensures
            same_config(r, self.spec_config()),
    {
        self.config.clone()
    }

    /// Replaces the preferences (the caller then saves `persisted_state`).
    pub fn update_config(&mut self, config: AppConfig)
        ensures
            engine_consistent(*final(self)),
            final(self).spec_config() == config,
            final(self).spec_active() == old(self).spec_active(),
            final(self).spec_snapshot() == old(self).spec_snapshot(),
            final(self).spec_warnings() == old(self).spec_warnings(),
    {
        proof {
            use_type_invariant(&*self);
        }
        self.config = config;
    }

    /// The excluded applications in effect: those of the active protection,
    /// else those of the preferences.
    pub open spec fn spec_current_excluded(&self) -> Seq<AppIdentity> {
        if self.spec_active() && self.spec_snapshot() is Some {
            self.spec_snapshot()->0.excluded_apps@
        } else {
            self.spec_config().excluded_apps@
        }
    }

    /// The excluded applications in effect.
    pub fn current_excluded(&self) -> (r: Vec<AppIdentity>)
        ensures
            r@ == self.spec_current_excluded(),
    {
        if self.active {
            match &self.snapshot {
                Some(s) => clone_identities(&s.excluded_apps),
                None => clone_identities(&self.config.excluded_apps),
            }
        } else {
            clone_identities(&self.config.excluded_apps)
        }
    }

    /// Drains the pending warnings.
    pub fn take_warnings(&mut self) -> (r: Vec<String>)
        ensures
            engine_consistent(*final(self)),
            r@ == old(self).spec_warnings(),
            final(self).spec_warnings().len() == 0,
            same_config(final(self).spec_config(), old(self).spec_config()),
            final(self).spec_active() == old(self).spec_active(),
            final(self).spec_snapshot() == old(self).spec_snapshot(),
    {
        proof {
            use_type_invariant(&*self);
        }
        let mut taken: Vec<String> = Vec::new();
        std::mem::swap(&mut taken, &mut self.warnings);
        taken
    }
}

// ---------------------------------------------------------------------------
// Status
// ---------------------------------------------------------------------------

/// The name shown for an application: its display name, else its executable.
pub open spec fn identity_name(a: AppIdentity) -> Seq<char> {
    match a.display_name {
        Some(d) => d@,
        None => a.exe_name@,
    }
}

/// The status line.
pub open spec fn status_message(active: bool, excluded: Seq<AppIdentity>) -> Seq<char> {
    if active {
        if excluded.len() == 0 {
            "Protecci?n activa"@
        } else if excluded.len() == 1 {
            identity_name(excluded[0]) + " solo se oye en esta computadora."@
        } else {
            decimal(excluded.len()) + " aplicaciones solo se oyen en esta computadora."@
        }
    } else {
        "Listo para proteger"@
    }
}

/// `r` is the status of engine `e`, with the shared channel looked up
/// among `devices`: activity, mode, status line, the excluded applications
/// in effect, the devices of the snapshot (the shared channel found among
/// the devices when inactive), the warnings and the snapshot.
pub open spec fn is_status(r: ProtectionStatus, e: ProtectionEngine, devices: Seq<AudioDevice>) -> bool {
    &&& r.active == e.spec_active()
    &&& r.mode == e.spec_config().mode
    &&& r.message@ == status_message(e.spec_active(), e.spec_current_excluded())
    &&& r.excluded_count == e.spec_current_excluded().len()
    &&& r.excluded_apps@ == e.spec_current_excluded()
    &&& r.physical_device_name == match e.spec_snapshot() {
        Some(s) => Some(s.physical_device_name),
        None => None,
    }
    &&& r.shared_device_name == match e.spec_snapshot() {
        Some(s) => Some(s.shared_device_name),
        None => match shared_choice(devices, view_opt_string(e.spec_config().preferred_shared_device_id)) {
            Some(i) => Some(devices[i].name),
            None => None,
        },
    }
    &&& r.shared_device_available == shared_choice(
        devices,
        view_opt_string(e.spec_config().preferred_shared_device_id),
    ) is Some
    &&& r.warnings@ == e.spec_warnings()
    &&& same_opt_snapshot(r.snapshot, e.spec_snapshot())
}

/// `i` records the protection of snapshot `s` for the reason `reason`.
pub open spec fn records_snapshot(i: IncompleteSession, s: ProtectionSnapshot, reason: Seq<char>) -> bool {
    &&& i.created_at == s.activated_at
    &&& i.previous_default_multimedia_id == s.previous_default_multimedia_id
    &&& i.previous_default_communications_id == s.previous_default_communications_id
    &&& i.physical_device_id == Some(s.physical_device_id)
    &&& i.shared_device_id == Some(s.shared_device_id)
    &&& i.excluded_apps@ == s.excluded_apps@
    &&& i.muted_feedback_sessions@.len() == 0
    &&& i.reason@ == reason
}

fn record_snapshot(s: &ProtectionSnapshot, reason: &str) -> (r: IncompleteSession)
    ensures
        records_snapshot(r, *s, reason@),
{
    IncompleteSession {
        created_at: s.activated_at.clone(),
        previous_default_multimedia_id: clone_opt_string(&s.previous_default_multimedia_id),
        previous_default_communications_id: clone_opt_string(&s.previous_default_communications_id),
        physical_device_id: Some(s.physical_device_id.clone()),
        shared_device_id: Some(s.shared_device_id.clone()),
        excluded_apps: clone_identities(&s.excluded_apps),
        muted_feedback_sessions: Vec::new(),
        reason: reason.to_owned(),
    }
}

/// `shown` lists groups of `gs` only, and every group of `gs` that is
/// playing, idle or excluded, or every group when `all` is set; a group
/// that is neither playing nor idle is shown only when it is excluded or
/// `all` is set.
pub open spec fn shows_groups(shown: Seq<AppAudioGroup>, gs: Seq<AppAudioGroup>, all: bool) -> bool {
    &&& forall|g: AppAudioGroup| #[trigger] shown.contains(g) ==> gs.contains(g)
    &&& forall|g: AppAudioGroup|
        #![trigger gs.contains(g)]
        gs.contains(g) && (all || g.excluded || g.state == PlaybackState::Active || g.state == PlaybackState::Inactive)
            ==> shown.contains(g)
    &&& forall|g: AppAudioGroup|
        #[trigger] shown.contains(g) ==> all || g.excluded || g.state == PlaybackState::Active || g.state
            == PlaybackState::Inactive
}

/// A group shown when inactive and recent applications are hidden.
pub open spec fn group_visible(g: AppAudioGroup) -> bool {
    g.state == PlaybackState::Active || g.state == PlaybackState::Inactive || g.excluded
}

/// The groups shown when inactive and recent applications are hidden.
pub open spec fn visible_groups(gs: Seq<AppAudioGroup>) -> Seq<AppAudioGroup>
    decreases gs.len(),
{
    if gs.len() == 0 {
        Seq::empty()
    } else {
        let rest = visible_groups(gs.drop_last());
        if group_visible(gs.last()) {
            rest.push(gs.last())
        } else {
            rest
        }
    }
}

/// The groups shown when inactive and recent applications are hidden are
/// those of `gs` that are playing, idle or excluded; with everything shown,
/// all of them.
pub proof fn lemma_visible_groups(gs: Seq<AppAudioGroup>)
    ensures
        shows_groups(visible_groups(gs), gs, false),
        shows_groups(gs, gs, true),
    decreases gs.len(),
{
    if gs.len() > 0 {
        let init = gs.drop_last();
        lemma_visible_groups(init);
        let v = visible_groups(gs);
        let vi = visible_groups(init);
        assert forall|g: AppAudioGroup| #[trigger] v.contains(g) implies gs.contains(g) && (g.excluded || g.state
            == PlaybackState::Active || g.state == PlaybackState::Inactive) by {
            if vi.contains(g) {
                assert(init.contains(g));
                let k = choose|k: int| 0 <= k < init.len() && init[k] == g;
                assert(gs[k] == g);
            } else {
                assert(g == gs.last());
                assert(gs[gs.len() - 1] == g);
            }
        }
        assert forall|g: AppAudioGroup|
            #![trigger gs.contains(g)]
            gs.contains(g) && (g.excluded || g.state == PlaybackState::Active || g.state == PlaybackState::Inactive)
                implies v.contains(g) by {
            let k = choose|k: int| 0 <= k < gs.len() && gs[k] == g;
            if k < gs.len() - 1 {
                assert(init[k] == g);
                assert(init.contains(g));
                assert(vi.contains(g));
                let m = choose|m: int| 0 <= m < vi.len() && vi[m] == g;
                if group_visible(gs.last()) {
                    assert(v[m] == g);
                } else {
                    assert(v[m] == g);
                }
            } else {
                assert(v[v.len() - 1] == g);
            }
        }
    }
}

impl ProtectionEngine {
    /// The state to save: the loaded state with these preferences and, while a
    /// protection snapshot exists, the record of it (reason
    /// `protection-active` when active, `idle` otherwise).
    pub fn persisted_state(&self, loaded: PersistedState) -> (r: PersistedState)
        ensures
            same_config(r.config, self.spec_config()),
            r.last_protection == loaded.last_protection,
            match self.spec_snapshot() {
                Some(s) => r.incomplete_session matches Some(i) && records_snapshot(
                    i,
                    s,
                    if self.spec_active() {
                        "protection-active"@
                    } else {
                        "idle"@
                    },
                ),
                None => r.incomplete_session == loaded.incomplete_session,
            },
    {
        let mut state = loaded;
        state.config = self.config.clone();
        if let Some(snapshot) = &self.snapshot {
            let reason = if self.active {
                "protection-active"
            } else {
                "idle"
            };
            state.incomplete_session = Some(record_snapshot(snapshot, reason));
        }
        state
    }

    /// The status shown, with the shared channel looked up among `devices`.
    pub fn status(&self, devices: &[AudioDevice]) -> (r: ProtectionStatus)
        ensures
            is_status(r, *self, devices@),
            engine_consistent(*self),
            !r.active ==> r.snapshot is None,
    {
        proof {
            use_type_invariant(self);
        }
        let service = DeviceService::new();
        let shared = service.find_shared_candidate(devices, opt_str(&self.config.preferred_shared_device_id));
        let excluded = self.current_excluded();
        let n = excluded.len();
        let message: String = if self.active {
            if n == 0 {
                "Protecci?n activa".to_owned()
            } else if n == 1 {
                let name: String = match &excluded[0].display_name {
                    Some(d) => d.clone(),
                    None => excluded[0].exe_name.clone(),
                };
                let mut v = chars_of(name.as_str());
                push_str(&mut v, " solo se oye en esta computadora.");
                string_from_chars(&v)
            } else {
                let mut v = decimal_chars(n as u64);
                push_str(&mut v, " aplicaciones solo se oyen en esta computadora.");
                string_from_chars(&v)
            }
        } else {
            "Listo para proteger".to_owned()
        };
        let physical_name: Option<String> = match &self.snapshot {
            Some(s) => Some(s.physical_device_name.clone()),
            None => None,
        };
        let shared_name: Option<String> = match &self.snapshot {
            Some(s) => Some(s.shared_device_name.clone()),
            None => match &shared {
                Some(d) => Some(d.name.clone()),
                None => None,
            },
        };
        ProtectionStatus {
            active: self.active,
            mode: self.config.mode,
            message,
            excluded_count: n,
            excluded_apps: excluded,
            physical_device_name: physical_name,
            shared_device_name: shared_name,
            shared_device_available: shared.is_some(),
            warnings: clone_strings(&self.warnings),
            snapshot: clone_opt_snapshot(&self.snapshot),
        }
    }

    /// The application groups of `sessions`, marked with the excluded
    /// applications in effect; unless inactive and recent applications are
    /// shown, only playing, idle and excluded ones.
    pub fn list_app_groups(&self, sessions: &[crate::sessions::AudioSessionInfo]) -> (r: Vec<AppAudioGroup>)
        ensures
            exists|gs: Seq<AppAudioGroup>|
                {
                    &&& is_grouping(sessions@, self.spec_current_excluded(), gs)
                    &&& r@ == if self.spec_config().show_inactive_recent {
                        gs
                    } else {
                        visible_groups(gs)
                    }
                    &&& shows_groups(r@, gs, self.spec_config().show_inactive_recent)
                },
    {
        let excluded = self.current_excluded();
        let groups = group_sessions(sessions, &excluded);
        if self.config.show_inactive_recent {
            proof {
                lemma_visible_groups(groups@);
            }
            return groups;
        }
        let ghost gs = groups@;
        let mut kept: Vec<AppAudioGroup> = Vec::new();
        for g in it: groups
            invariant
                it.seq() == gs,
                kept@ == visible_groups(gs.take(it.index() as int)),
        {
            let ghost k = it.index();
            proof {
                assert(gs.take(k + 1).drop_last() =~= gs.take(k as int));
                assert(gs.take(k + 1).last() == g);
            }
            let visible = match g.state {
                PlaybackState::Active => true,
                PlaybackState::Inactive => true,
                _ => g.excluded,
            };
            if visible {
                kept.push(g);
            }
        }
        assert(gs.take(gs.len() as int) =~= gs);
        proof {
            lemma_visible_groups(gs);
        }
        kept
    }
}

// ---------------------------------------------------------------------------
// Activation
// ---------------------------------------------------------------------------

/// The applications without the critical Windows processes, in order.
pub open spec fn without_critical(apps: Seq<AppIdentity>) -> Seq<AppIdentity>
    decreases apps.len(),
{
    if apps.len() == 0 {
        Seq::empty()
    } else {
        let rest = without_critical(apps.drop_last());
        if critical_process(apps.last().exe_name@) {
            rest
        } else {
            rest.push(apps.last())
        }
    }
}

/// The applications without the critical Windows processes.
pub fn filter_critical(apps: Vec<AppIdentity>) -> (r: Vec<AppIdentity>)
    ensures
        r@ == without_critical(apps@),
{
    let ghost all = apps@;
    let mut kept: Vec<AppIdentity> = Vec::new();
    for a in it: apps
        invariant
            it.seq() == all,
            kept@ == without_critical(all.take(it.index() as int)),
    {
        let ghost k = it.index();
        proof {
            assert(all.take(k + 1).drop_last() =~= all.take(k as int));
            assert(all.take(k + 1).last() == a);
        }
        if !is_critical_system_process(a.exe_name.as_str()) {
            kept.push(a);
        }
    }
    assert(all.take(all.len() as int) =~= all);
    kept
}

/// Why activation cannot go ahead.
#[derive(Debug, Clone, Copy, PartialEq, Eq, Structural)]
pub enum ActivationIssue {
    NoPhysicalOutput,
    NoSharedChannel,
    SharedIsPhysical,
}

pub open spec fn opt_device_id(devs: Seq<AudioDevice>, i: Option<int>) -> Option<Seq<char>> {
    match i {
        Some(k) => Some(devs[k].id@),
        None => None,
    }
}

/// The devices of an activation, as positions in `devs`: the previous
/// default multimedia and communications devices; the physical output that
/// returns shared sound locally (the previous default if physical); the
/// private output (the preferred physical device, else the local one); the
/// shared channel; and the communications output of private applications
/// (the private output when one is preferred, else the previous default
/// communications device when it is physical and not the shared channel,
/// else the private output).
pub open spec fn activation_devices(devs: Seq<AudioDevice>, config: AppConfig) -> (
    Option<int>,
    Option<int>,
    Option<int>,
    Option<int>,
    Option<int>,
    int,
) {
    let prev_mm = default_choice(devs, DefaultRole::Multimedia);
    let prev_comm = default_choice(devs, DefaultRole::Communications);
    let local = physical_choice(devs, opt_device_id(devs, prev_mm), true);
    let preferred = match config.preferred_physical_device_id {
        Some(p) => Some(p@),
        None => opt_device_id(devs, local),
    };
    let physical = physical_choice(devs, preferred, true);
    let shared = shared_choice(devs, view_opt_string(config.preferred_shared_device_id));
    let comm = if config.preferred_physical_device_id is Some {
        physical->0
    } else {
        match prev_comm {
            Some(c) => if devs[c].is_physical_candidate && devs[c].id@ != devs[shared->0].id@ {
                c
            } else {
                physical->0
            },
            None => physical->0,
        }
    };
    (prev_mm, prev_comm, local, physical, shared, comm)
}

/// What stops an activation with these devices and preferences, if anything.
pub open spec fn activation_issue(devs: Seq<AudioDevice>, config: AppConfig) -> Option<ActivationIssue> {
    let (prev_mm, prev_comm, local, physical, shared, comm) = activation_devices(devs, config);
    if local is None || physical is None {
        Some(ActivationIssue::NoPhysicalOutput)
    } else if shared is None {
        Some(ActivationIssue::NoSharedChannel)
    } else if devs[shared->0].id@ == devs[physical->0].id@ {
        Some(ActivationIssue::SharedIsPhysical)
    } else {
        None
    }
}

pub open spec fn no_app_message() -> Seq<char> {
    "Elige al menos una aplicacion de la lista y vuelve a intentarlo."@
}

pub open spec fn no_shared_message() -> Seq<char> {
    "Aun falta un paso de instalacion de audio. Abre NoEcho y sigue el aviso en pantalla: es algo que solo se hace una vez."@
}

pub open spec fn same_device_message() -> Seq<char> {
    "Hay un problema de configuracion de audio. Prueba reiniciar NoEcho o elige otra salida en Avanzado."@
}

/// The error reported for an activation issue.
pub open spec fn issue_error(issue: ActivationIssue, e: AudioError) -> bool {
    match issue {
        ActivationIssue::NoPhysicalOutput => e matches AudioError::PhysicalDeviceUnavailable(m) && m@
            == "no physical render device"@,
        ActivationIssue::NoSharedChannel => e matches AudioError::SharedDeviceUnavailable(m) && m@ == no_shared_message(),
        ActivationIssue::SharedIsPhysical => e matches AudioError::Message(m) && m@ == same_device_message(),
    }
}

/// The devices chosen for an activation, and the record saved before the
/// system is changed.
#[derive(Debug)]
pub struct ActivationPlan {
    pub previous_multimedia: Option<AudioDevice>,
    pub previous_communications: Option<AudioDevice>,
    pub local_monitor: AudioDevice,
    pub physical: AudioDevice,
    pub shared: AudioDevice,
    pub communications: AudioDevice,
    pub incomplete: IncompleteSession,
}

pub open spec fn opt_device(devs: Seq<AudioDevice>, i: Option<int>) -> Option<AudioDevice> {
    match i {
        Some(k) => Some(devs[k]),
        None => None,
    }
}

pub open spec fn opt_id_string(d: Option<AudioDevice>) -> Option<String> {
    match d {
        Some(x) => Some(x.id),
        None => None,
    }
}

/// `plan` is the activation plan for these devices, preferences and time.
pub open spec fn is_activation_plan(plan: ActivationPlan, devs: Seq<AudioDevice>, config: AppConfig, now: Seq<char>) -> bool {
    let (prev_mm, prev_comm, local, physical, shared, comm) = activation_devices(devs, config);
    &&& plan.previous_multimedia == opt_device(devs, prev_mm)
    &&& plan.previous_communications == opt_device(devs, prev_comm)
    &&& plan.local_monitor == devs[local->0]
    &&& plan.physical == devs[physical->0]
    &&& plan.shared == devs[shared->0]
    &&& plan.communications == devs[comm]
    &&& plan.incomplete.created_at@ == now
    &&& plan.incomplete.previous_default_multimedia_id == opt_id_string(plan.previous_multimedia)
    &&& plan.incomplete.previous_default_communications_id == opt_id_string(plan.previous_communications)
    &&& plan.incomplete.physical_device_id == Some(plan.physical.id)
    &&& plan.incomplete.shared_device_id == Some(plan.shared.id)
    &&& plan.incomplete.excluded_apps@ == config.excluded_apps@
    &&& plan.incomplete.muted_feedback_sessions@.len() == 0
    &&& plan.incomplete.reason@ == "activation-in-progress"@
}

fn opt_id(d: &Option<AudioDevice>) -> (r: Option<&str>)
    ensures
        view_opt_str(r) == match d {
            Some(x) => Some(x.id@),
            None => None,
        },
{
    match d {
        Some(x) => Some(x.id.as_str()),
        None => None,
    }
}

fn opt_id_owned(d: &Option<AudioDevice>) -> (r: Option<String>)
    ensures
        r == opt_id_string(*d),
{
    match d {
        Some(x) => Some(x.id.clone()),
        None => None,
    }
}

impl ProtectionEngine {
    /// The first step of activation: checks the request and chooses the
    /// devices (see `activation_devices`).  A selection replaces the excluded
    /// applications of the preferences, without critical Windows processes,
    /// whatever the outcome.  The caller then saves `activation_state`,
    /// makes the shared channel the default multimedia device and applies the
    /// routes; `complete_activation` records the outcome.
    pub fn begin_activation(&mut self, selected: Option<Vec<AppIdentity>>, devices: &[AudioDevice], now: String) -> (r:
        Result<ActivationPlan>)
        ensures
            engine_consistent(*final(self)),
            final(self).spec_active() == old(self).spec_active(),
            final(self).spec_snapshot() == old(self).spec_snapshot(),
            final(self).spec_warnings() == old(self).spec_warnings(),
            same_settings(final(self).spec_config(), old(self).spec_config()),
            final(self).spec_config().language == old(self).spec_config().language,
            final(self).spec_config().language_migrated == old(self).spec_config().language_migrated,
            match r {
                Ok(plan) => final(self).spec_config().preferred_physical_device_id is Some ==> plan.communications
                    == plan.physical,
                Err(_) => true,
            },
            old(self).spec_active() ==> (r matches Err(AudioError::ProtectionAlreadyActive)
                && final(self).spec_config().excluded_apps@ == old(self).spec_config().excluded_apps@),
            !old(self).spec_active() ==> {
                &&& final(self).spec_config().excluded_apps@ == match selected {
                    Some(v) => without_critical(v@),
                    None => old(self).spec_config().excluded_apps@,
                }
                &&& final(self).spec_config().excluded_apps@.len() == 0 ==> (r matches Err(AudioError::Message(m)) && m@
                    == no_app_message())
                &&& final(self).spec_config().excluded_apps@.len() > 0 ==> match activation_issue(
                    devices@,
                    final(self).spec_config(),
                ) {
                    Some(issue) => r matches Err(e) && issue_error(issue, e),
                    None => r matches Ok(plan) && is_activation_plan(plan, devices@, final(self).spec_config(), now@),
                }
            },
    {
        proof {
            use_type_invariant(&*self);
        }
        if self.active {
            return Err(AudioError::ProtectionAlreadyActive);
        }
        if let Some(sel) = selected {
            self.config.excluded_apps = filter_critical(sel);
        }
        if self.config.excluded_apps.len() == 0 {
            return Err(AudioError::Message("Elige al menos una aplicacion de la lista y vuelve a intentarlo.".to_owned()));
        }
        let ghost devs = devices@;
        let ghost choice = activation_devices(devs, self.config);
        let service = DeviceService::new();
        let previous_mm: Option<AudioDevice> = match service.get_default_render(devices, DefaultRole::Multimedia) {
            Ok(d) => Some(d),
            Err(_) => None,
        };
        let previous_comm: Option<AudioDevice> = match service.get_default_render(devices, DefaultRole::Communications) {
            Ok(d) => Some(d),
            Err(_) => None,
        };
        assert(previous_mm == opt_device(devs, choice.0));
        assert(previous_comm == opt_device(devs, choice.1));
        let local_monitor = service.choose_physical(devices, opt_id(&previous_mm), true)?;
        let preferred: Option<&str> = match &self.config.preferred_physical_device_id {
            Some(p) => Some(p.as_str()),
            None => Some(local_monitor.id.as_str()),
        };
        let physical = service.choose_physical(devices, preferred, true)?;
        let shared = match service.find_shared_candidate(devices, opt_str(&self.config.preferred_shared_device_id)) {
            Some(d) => d,
            None => {
                return Err(
                    AudioError::SharedDeviceUnavailable(
                        "Aun falta un paso de instalacion de audio. Abre NoEcho y sigue el aviso en pantalla: es algo que solo se hace una vez.".to_owned(),
                    ),
                );
            },
        };
        let communications: AudioDevice = if self.config.preferred_physical_device_id.is_some() {
            physical.clone()
        } else {
            match &previous_comm {
                Some(c) => {
                    if c.is_physical_candidate && !crate::text::str_eq(c.id.as_str(), shared.id.as_str()) {
                        c.clone()
                    } else {
                        physical.clone()
                    }
                },
                None => physical.clone(),
            }
        };
        if crate::text::str_eq(shared.id.as_str(), physical.id.as_str()) {
            return Err(
                AudioError::Message(
                    "Hay un problema de configuracion de audio. Prueba reiniciar NoEcho o elige otra salida en Avanzado.".to_owned(),
                ),
            );
        }
        let incomplete = IncompleteSession {
            created_at: now,
            previous_default_multimedia_id: opt_id_owned(&previous_mm),
            previous_default_communications_id: opt_id_owned(&previous_comm),
            physical_device_id: Some(physical.id.clone()),
            shared_device_id: Some(shared.id.clone()),
            excluded_apps: clone_identities(&self.config.excluded_apps),
            muted_feedback_sessions: Vec::new(),
            reason: "activation-in-progress".to_owned(),
        };
        Ok(
            ActivationPlan {
                previous_multimedia: previous_mm,
                previous_communications: previous_comm,
                local_monitor,
                physical,
                shared,
                communications,
                incomplete,
            },
        )
    }
}

// ---------------------------------------------------------------------------
// Routes
// ---------------------------------------------------------------------------

/// The devices routes are applied with.
#[derive(Debug)]
pub struct RouteTargets {
    pub excluded_apps: Vec<AppIdentity>,
    pub shared_device_id: String,
    pub physical_device_id: String,
    pub communications_device_id: String,
}

/// One route to apply: the process of a session, the executable it runs,
/// whether the application is private, and the assignment to request.
#[derive(Debug)]
pub struct RouteAction {
    pub pid: u32,
    pub path: String,
    pub is_private: bool,
    pub display_name: String,
    pub assignment: EndpointAssignment,
}

/// The process ids of the sessions running `exe` (ASCII case ignored), in order.
pub open spec fn session_seeds(list: Seq<AudioSessionInfo>, exe: Seq<char>) -> Seq<u32>
    decreases list.len(),
{
    if list.len() == 0 {
        Seq::empty()
    } else {
        let rest = session_seeds(list.drop_last(), exe);
        if list.last().exe_name matches Some(n) && lower(n@) == lower(exe) {
            rest.push(list.last().pid)
        } else {
            rest
        }
    }
}

/// Process `pid` belongs to a private application: it is related to the
/// sessions of one of the excluded applications.
pub open spec fn private_pid(list: Seq<AudioSessionInfo>, excluded: Seq<AppIdentity>, procs: Seq<ProcessInfo>, pid: u32) -> bool {
    exists|a: int|
        0 <= a < excluded.len() && #[trigger] is_related(
            procs,
            session_seeds(list, excluded[a].exe_name@),
            Some(excluded[a].exe_name@),
            pid,
        )
}

/// The session belongs to a microphone chain (MicVST, Mic Mix, or Cable A/B).
pub open spec fn mic_chain_session(s: AudioSessionInfo) -> bool {
    let exe = match s.exe_name {
        Some(n) => n@,
        None => Seq::empty(),
    };
    let device = match s.device_name {
        Some(d) => d@,
        None => Seq::empty(),
    };
    ||| name_has(exe, "micvst"@)
    ||| name_has(exe, "mic-mix"@)
    ||| name_has(exe, "mic_mixer"@)
    ||| mic_chain_name(device)
}

/// The executable path of a session: its own, else that of its process.
pub open spec fn session_path(s: AudioSessionInfo, procs: Seq<ProcessInfo>) -> Option<Seq<char>> {
    match s.exe_path {
        Some(p) => Some(p@),
        None => image_path_in(procs, s.pid),
    }
}

/// The lowercase executable name of a session (empty when unknown).
pub open spec fn session_exe(s: AudioSessionInfo) -> Seq<char> {
    match s.exe_name {
        Some(n) => lower(n@),
        None => Seq::empty(),
    }
}

/// Sessions that are never rerouted: the system session, process 0,
/// microphone chains, sessions without a known executable and critical
/// Windows processes.
pub open spec fn route_skipped(s: AudioSessionInfo, procs: Seq<ProcessInfo>) -> bool {
    ||| s.is_system_sounds
    ||| s.pid == 0
    ||| mic_chain_session(s)
    ||| session_path(s, procs) is None
    ||| critical_process(session_exe(s))
}

/// The session belongs to a private application: its process is related to
/// an excluded application, or an excluded application has its executable
/// name or path.
pub open spec fn session_private(s: AudioSessionInfo, list: Seq<AudioSessionInfo>, excluded: Seq<AppIdentity>, procs: Seq<ProcessInfo>) -> bool {
    ||| private_pid(list, excluded, procs, s.pid)
    ||| (exists|a: int| 0 <= a < excluded.len() && lower(#[trigger] excluded[a].exe_name@) == session_exe(s))
    ||| (exists|a: int| 0 <= a < excluded.len() && #[trigger] identity_matches_path(excluded[a], session_path(s, procs)->0))
}

/// The positions of the sessions that are routed, in order.
pub open spec fn routed_positions(list: Seq<AudioSessionInfo>, procs: Seq<ProcessInfo>, n: nat) -> Seq<int>
    decreases n,
{
    if n == 0 {
        Seq::empty()
    } else {
        let rest = routed_positions(list, procs, (n - 1) as nat);
        if route_skipped(list[n - 1], procs) {
            rest
        } else {
            rest.push(n - 1)
        }
    }
}

/// Every routed position is a session of the list that is not skipped.
pub proof fn lemma_routed_positions(list: Seq<AudioSessionInfo>, procs: Seq<ProcessInfo>, n: nat)
    requires
        n <= list.len(),
    ensures
        forall|j: int|
            0 <= j < routed_positions(list, procs, n).len() ==> 0 <= #[trigger] routed_positions(list, procs, n)[j] < n
                && !route_skipped(list[routed_positions(list, procs, n)[j]], procs),
    decreases n,
{
    if n > 0 {
        lemma_routed_positions(list, procs, (n - 1) as nat);
        let rest = routed_positions(list, procs, (n - 1) as nat);
        assert forall|j: int| 0 <= j < routed_positions(list, procs, n).len() implies 0
            <= #[trigger] routed_positions(list, procs, n)[j] < n && !route_skipped(
            list[routed_positions(list, procs, n)[j]],
            procs,
        ) by {
            if j < rest.len() {
                assert(routed_positions(list, procs, n)[j] == rest[j]);
            }
        }
    }
}

/// `a` is the route of session `s`: private applications go to the private
/// output (communications role to the communications output), the others
/// to the shared channel.
pub open spec fn is_route_of(
    a: RouteAction,
    s: AudioSessionInfo,
    list: Seq<AudioSessionInfo>,
    t: RouteTargets,
    procs: Seq<ProcessInfo>,
) -> bool {
    &&& a.pid == s.pid
    &&& Some(a.path@) == session_path(s, procs)
    &&& a.is_private == session_private(s, list, t.excluded_apps@, procs)
    &&& a.display_name == s.display_name
    &&& a.assignment.pid == s.pid
    &&& a.is_private ==> a.assignment.multimedia_device_id@ == role_id(t.physical_device_id@)
        && a.assignment.communications_device_id@ == role_id(t.communications_device_id@)
    &&& !a.is_private ==> a.assignment.multimedia_device_id@ == role_id(t.shared_device_id@)
        && a.assignment.communications_device_id@ == role_id(t.shared_device_id@)
}

/// The routes of the sessions, one per session that is not skipped, in order.
pub open spec fn is_route_plan(r: Seq<RouteAction>, list: Seq<AudioSessionInfo>, t: RouteTargets, procs: Seq<ProcessInfo>) -> bool {
    let pos = routed_positions(list, procs, list.len());
    &&& r.len() == pos.len()
    &&& forall|j: int| 0 <= j < r.len() ==> is_route_of(#[trigger] r[j], list[pos[j]], list, t, procs)
}

fn is_microphone_chain_session(s: &AudioSessionInfo) -> (r: bool)
    ensures
        r == mic_chain_session(*s),
        s.device_name matches Some(d) && cable_ab_named(d@) ==> r,
{
    let exe = match &s.exe_name {
        Some(n) => lower_chars(&chars_of(n.as_str())),
        None => Vec::new(),
    };
    proof {
        assert(lower(Seq::<char>::empty()) =~= Seq::<char>::empty());
    }
    if chars_contains(&exe, &chars_of("micvst")) || chars_contains(&exe, &chars_of("mic-mix")) || chars_contains(
        &exe,
        &chars_of("mic_mixer"),
    ) {
        return true;
    }
    match &s.device_name {
        Some(d) => is_mic_chain_virtual(d.as_str()),
        None => {
            let empty = String::new();
            is_mic_chain_virtual(empty.as_str())
        },
    }
}

/// The process ids of the sessions running `exe`.
fn seeds_for(list: &[AudioSessionInfo], exe: &str) -> (r: Vec<u32>)
    ensures
        r@ == session_seeds(list@, exe@),
{
    let want = lower_chars(&chars_of(exe));
    let mut r: Vec<u32> = Vec::new();
    let n = list.len();
    for i in 0..n
        invariant
            n == list@.len(),
            want@ == lower(exe@),
            r@ == session_seeds(list@.take(i as int), exe@),
    {
        proof {
            assert(list@.take(i + 1).drop_last() =~= list@.take(i as int));
            assert(list@.take(i + 1).last() == list@[i as int]);
        }
        match &list[i].exe_name {
            Some(nm) => {
                if chars_eq(&lower_chars(&chars_of(nm.as_str())), &want) {
                    r.push(list[i].pid);
                }
            },
            None => {},
        }
    }
    assert(list@.take(n as int) =~= list@);
    r
}

/// The processes of the private applications, in increasing order.
fn private_pids_of(list: &[AudioSessionInfo], excluded: &[AppIdentity], procs: &[ProcessInfo]) -> (r: Vec<u32>)
    ensures
        strictly_increasing(r@),
        forall|x: u32| r@.contains(x) <==> private_pid(list@, excluded@, procs@, x),
{
    let mut all: Vec<u32> = Vec::new();
    let n = excluded.len();
    for a in 0..n
        invariant
            n == excluded@.len(),
            strictly_increasing(all@),
            forall|x: u32| all@.contains(x) <==> exists|b: int|
                0 <= b < a && #[trigger] is_related(
                    procs@,
                    session_seeds(list@, excluded@[b].exe_name@),
                    Some(excluded@[b].exe_name@),
                    x,
                ),
    {
        let exe = excluded[a].exe_name.as_str();
        let seeds = seeds_for(list, exe);
        let related = expand_related_pids(seeds.as_slice(), Some(exe), procs);
        let ghost before = all@;
        all = union_into(all, &related);
        proof {
            assert(view_opt_str(Some(exe)) == Some(excluded@[a as int].exe_name@));
            assert forall|x: u32| all@.contains(x) <==> exists|b: int|
                0 <= b < a + 1 && #[trigger] is_related(
                    procs@,
                    session_seeds(list@, excluded@[b].exe_name@),
                    Some(excluded@[b].exe_name@),
                    x,
                ) by {

                if exists|b: int|
                    0 <= b < a + 1 && #[trigger] is_related(
                        procs@,
                        session_seeds(list@, excluded@[b].exe_name@),
                        Some(excluded@[b].exe_name@),
                        x,
                    ) {
                    let b = choose|b: int|
                        0 <= b < a + 1 && #[trigger] is_related(
                            procs@,
                            session_seeds(list@, excluded@[b].exe_name@),
                            Some(excluded@[b].exe_name@),
                            x,
                        );
                    if b == a {
                        assert(related@.contains(x));
                    }
                }
            }
        }
    }
    r_identity(all)
}

/// Adds every id of `add` to the strictly increasing list `all`.
fn union_into(all: Vec<u32>, add: &Vec<u32>) -> (r: Vec<u32>)
    requires
        strictly_increasing(all@),
    ensures
        strictly_increasing(r@),
        forall|x: u32| r@.contains(x) <==> (all@.contains(x) || add@.contains(x)),
{
    let ghost start = all@;
    let mut all = all;
    let m = add.len();
    let mut k: usize = 0;
    while k < m
        invariant
            m == add@.len(),
            k <= m,
            strictly_increasing(all@),
            forall|x: u32| #[trigger] all@.contains(x) <==> (start.contains(x) || exists|q: int| 0 <= q < k && add@[q] == x),
        decreases m - k,
    {
        let ghost prev = all@;
        let v = add[k];
        insert_sorted(&mut all, v);
        proof {
            assert forall|x: u32| #[trigger] all@.contains(x) <==> (start.contains(x) || exists|q: int| 0 <= q < k + 1 && add@[q] == x) by {
                assert(all@.contains(x) == (prev.contains(x) || x == v));
                assert(prev.contains(x) == (start.contains(x) || exists|q: int| 0 <= q < k && add@[q] == x));
                if x == v {
                    assert(add@[k as int] == x);
                }
            }
        }
        k = k + 1;
    }
    assert forall|x: u32| #[trigger] all@.contains(x) <==> (start.contains(x) || add@.contains(x)) by {
        if add@.contains(x) {
            let q = choose|q: int| 0 <= q < add@.len() && add@[q] == x;
        }
    }
    all
}

fn r_identity(v: Vec<u32>) -> (r: Vec<u32>)
    ensures
        r@ == v@,
{
    v
}

fn has_name_match(excluded: &[AppIdentity], exe: &Vec<char>) -> (r: bool)
    ensures
        r == exists|a: int| 0 <= a < excluded@.len() && lower(#[trigger] excluded@[a].exe_name@) == exe@,
{
    let n = excluded.len();
    for a in 0..n
        invariant
            n == excluded@.len(),
            forall|b: int| 0 <= b < a ==> lower(#[trigger] excluded@[b].exe_name@) != exe@,
    {
        if chars_eq(&lower_chars(&chars_of(excluded[a].exe_name.as_str())), exe) {
            assert(lower(excluded@[a as int].exe_name@) == exe@);
            return true;
        }
    }
    false
}

fn has_path_match(excluded: &[AppIdentity], path: &str) -> (r: bool)
    ensures
        r == exists|a: int| 0 <= a < excluded@.len() && #[trigger] identity_matches_path(excluded@[a], path@),
{
    let n = excluded.len();
    for a in 0..n
        invariant
            n == excluded@.len(),
            forall|b: int| 0 <= b < a ==> !#[trigger] identity_matches_path(excluded@[b], path@),
    {
        if excluded[a].matches_path(path) {
            return true;
        }
    }
    false
}

/// The name, lowercased, contains `cable-a`, `cable a`, `cable-b` or
/// `cable b`: the inputs of a microphone effect chain.
pub open spec fn cable_ab_named(name: Seq<char>) -> bool {
    ||| is_infix("cable-a"@, lower(name))
    ||| is_infix("cable a"@, lower(name))
    ||| is_infix("cable-b"@, lower(name))
    ||| is_infix("cable b"@, lower(name))
}

/// The routes of the sessions (see `is_route_plan`): every session that is
/// not skipped goes to the private outputs when its application is private,
/// else to the shared channel.
pub fn plan_routes(list: &[AudioSessionInfo], targets: &RouteTargets, procs: &[ProcessInfo]) -> (r: Vec<RouteAction>)
    ensures
        is_route_plan(r@, list@, *targets, procs@),
        forall|j: int|
            0 <= j < r@.len() ==> {
                let i = #[trigger] routed_positions(list@, procs@, list@.len())[j];
                &&& 0 <= i < list@.len()
                &&& r@[j].pid == list@[i].pid
                &&& !(list@[i].device_name matches Some(d) && cable_ab_named(d@))
            },
{
    let excluded = targets.excluded_apps.as_slice();
    let private = private_pids_of(list, excluded, procs);
    let mut r: Vec<RouteAction> = Vec::new();
    let n = list.len();
    for i in 0..n
        invariant
            n == list@.len(),
            excluded@ == targets.excluded_apps@,
            strictly_increasing(private@),
            forall|x: u32| private@.contains(x) <==> private_pid(list@, excluded@, procs@, x),
            r@.len() == routed_positions(list@, procs@, i as nat).len(),
            forall|j: int|
                0 <= j < r@.len() ==> is_route_of(
                    #[trigger] r@[j],
                    list@[routed_positions(list@, procs@, i as nat)[j]],
                    list@,
                    *targets,
                    procs@,
                ),
    {
        let s = &list[i];
        let ghost pos_before = routed_positions(list@, procs@, i as nat);
        let skip_basic = s.is_system_sounds || s.pid == 0 || is_microphone_chain_session(s);
        let path: Option<String> = if skip_basic {
            None
        } else {
            match &s.exe_path {
                Some(p) => Some(p.clone()),
                None => process_image_path(procs, s.pid),
            }
        };
        let exe: Vec<char> = match &s.exe_name {
            Some(nm) => lower_chars(&chars_of(nm.as_str())),
            None => Vec::new(),
        };
        proof {
            assert(lower(Seq::<char>::empty()) =~= Seq::<char>::empty());
            assert(exe@ == session_exe(*s));
        }
        let critical = is_critical_system_process(string_from_chars(&exe).as_str());
        match path {
            Some(path) => {
                if !critical {
                    let by_pid = contains_pid(&private, s.pid);
                    let by_name = has_name_match(excluded, &exe);
                    let path_str = path.as_str();
                    let by_path = has_path_match(excluded, path_str);
                    let private_hit = by_pid || by_name || by_path;
                    proof {
                        let t = targets.excluded_apps@;
                        assert(by_pid == private_pid(list@, t, procs@, s.pid));
                        assert(by_name == (exists|a: int| 0 <= a < t.len() && lower(#[trigger] t[a].exe_name@) == session_exe(*s)));
                        assert(session_path(*s, procs@) == Some(path@));
                        let sp = session_path(*s, procs@)->0;
                        assert(sp == path_str@);
                        if by_path {
                            let a = choose|a: int| 0 <= a < excluded@.len() && #[trigger] identity_matches_path(excluded@[a], path_str@);
                            assert(identity_matches_path(t[a], sp));
                        } else {
                            assert forall|a: int| 0 <= a < t.len() implies !#[trigger] identity_matches_path(t[a], sp) by {
                                assert(!identity_matches_path(excluded@[a], path_str@));
                            }
                        }
                        assert(by_path == (exists|a: int| 0 <= a < t.len() && #[trigger] identity_matches_path(t[a], session_path(*s, procs@)->0)));
                    }
                    let assignment = if private_hit {
                        set_process_default_endpoints(
                            s.pid,
                            targets.physical_device_id.as_str(),
                            targets.communications_device_id.as_str(),
                        )
                    } else {
                        set_process_default_endpoint(s.pid, targets.shared_device_id.as_str())
                    };
                    match assignment {
                        Ok(assignment) => {
                            let action = RouteAction {
                                pid: s.pid,
                                path,
                                is_private: private_hit,
                                display_name: s.display_name.clone(),
                                assignment,
                            };
                            proof {
                                assert(!route_skipped(list@[i as int], procs@));
                                assert(action.pid == s.pid);
                                assert(Some(action.path@) == session_path(*s, procs@));
                                assert(action.is_private == session_private(*s, list@, targets.excluded_apps@, procs@));
                                assert(action.assignment.pid == s.pid);
                                assert(action.is_private ==> action.assignment.multimedia_device_id@ == role_id(targets.physical_device_id@));
                                assert(action.is_private ==> action.assignment.communications_device_id@ == role_id(targets.communications_device_id@));
                                assert(!action.is_private ==> action.assignment.multimedia_device_id@ == role_id(targets.shared_device_id@));
                                assert(is_route_of(action, list@[i as int], list@, *targets, procs@));
                            }
                            let ghost before = r@;
                            r.push(action);
                            proof {
                                let pos = routed_positions(list@, procs@, (i + 1) as nat);
                                assert(pos == pos_before.push(i as int));
                                assert forall|j: int|
                                    0 <= j < r@.len() implies is_route_of(
                                    #[trigger] r@[j],
                                    list@[routed_positions(list@, procs@, (i + 1) as nat)[j]],
                                    list@,
                                    *targets,
                                    procs@,
                                ) by {
                                    if j < before.len() {
                                        assert(r@[j] == before[j]);
                                    }
                                }
                            }
                        },
                        Err(_) => {},
                    }
                }
            },
            None => {},
        }
    }
    proof {
        lemma_routed_positions(list@, procs@, list@.len());
        assert forall|j: int| 0 <= j < r@.len() implies {
            let i = #[trigger] routed_positions(list@, procs@, list@.len())[j];
            &&& 0 <= i < list@.len()
            &&& r@[j].pid == list@[i].pid
            &&& !(list@[i].device_name matches Some(d) && cable_ab_named(d@))
        } by {
            let i = routed_positions(list@, procs@, list@.len())[j];
            assert(is_route_of(r@[j], list@[i], list@, *targets, procs@));
            assert(!route_skipped(list@[i], procs@));
        }
    }
    r
}

/// Texts joined with a separator.
pub open spec fn join_texts(v: Seq<Seq<char>>, sep: Seq<char>) -> Seq<char>
    decreases v.len(),
{
    if v.len() == 0 {
        Seq::empty()
    } else if v.len() == 1 {
        v[0]
    } else {
        join_texts(v.drop_last(), sep) + sep + v.last()
    }
}

/// The failures of private routes among the first `n` outcomes: the name of
/// the session, a colon and the error.
pub open spec fn route_failures(actions: Seq<RouteAction>, results: Seq<Result<()>>, n: nat) -> Seq<Seq<char>>
    decreases n,
{
    if n == 0 {
        Seq::empty()
    } else {
        let rest = route_failures(actions, results, (n - 1) as nat);
        if actions[n - 1].is_private && results[n - 1] is Err {
            rest.push(actions[n - 1].display_name@ + ": "@ + error_text(results[n - 1]->Err_0))
        } else {
            rest
        }
    }
}

pub open spec fn separation_failed_message(failures: Seq<Seq<char>>) -> Seq<char> {
    "No se pudo separar de forma segura: "@ + join_texts(failures, ", "@)
}

/// `paths` lists, in increasing order and each once, the executable paths
/// of the route requests that succeeded.
pub open spec fn lists_routed_paths(paths: Seq<String>, actions: Seq<RouteAction>, results: Seq<Result<()>>) -> bool {
    &&& texts_increasing(strings_view(paths))
    &&& forall|x: Seq<char>|
        strings_view(paths).contains(x) <==> exists|j: int|
            0 <= j < actions.len() && results[j] is Ok && #[trigger] actions[j].path@ == x
}

/// Routing stopped because a private application could not be separated:
/// the error, and the executables whose routes were set all the same (they
/// must be cleared again).
#[derive(Debug)]
pub struct RouteFailure {
    pub error: AudioError,
    pub routed_paths: Vec<String>,
}

/// The outcome of applying routes, from the outcome of each request: when a
/// private application could not be separated, an error naming every such
/// application, with the executables that were routed; else the executables
/// that were routed.  Routed executables are listed in increasing order,
/// each once.
pub fn collect_route_outcomes(actions: &Vec<RouteAction>, results: &Vec<Result<()>>) -> (r: core::result::Result<
    Vec<String>,
    RouteFailure,
>)
    requires
        actions@.len() == results@.len(),
    ensures
        ({
            let f = route_failures(actions@, results@, actions@.len());
            &&& f.len() > 0 ==> (r matches Err(fail) && fail.error matches AudioError::Message(m) && m@
                == separation_failed_message(f) && lists_routed_paths(fail.routed_paths@, actions@, results@))
            &&& f.len() == 0 ==> (r matches Ok(paths) && lists_routed_paths(paths@, actions@, results@))
        }),
{
    let n = actions.len();
    let mut paths: Vec<Vec<char>> = Vec::new();
    let mut failures: Vec<char> = Vec::new();
    let mut any = false;
    for i in 0..n
        invariant
            n == actions@.len(),
            n == results@.len(),
            texts_increasing(texts_view(paths@)),
            forall|x: Seq<char>| texts_view(paths@).contains(x) <==> exists|j: int|
                0 <= j < i && results@[j] is Ok && #[trigger] actions@[j].path@ == x,
            any == (route_failures(actions@, results@, i as nat).len() > 0),
            failures@ == join_texts(route_failures(actions@, results@, i as nat), ", "@),
    {
        let ghost old_paths = texts_view(paths@);
        match &results[i] {
            Ok(_) => {
                insert_sorted_text(&mut paths, chars_of(actions[i].path.as_str()));
            },
            Err(e) => {
                if actions[i].is_private {
                    if any {
                        push_str(&mut failures, ", ");
                    }
                    push_str(&mut failures, actions[i].display_name.as_str());
                    push_str(&mut failures, ": ");
                    push_str(&mut failures, e.describe().as_str());
                    any = true;
                }
            },
        }
        proof {
            let f0 = route_failures(actions@, results@, i as nat);
            let f1 = route_failures(actions@, results@, (i + 1) as nat);
            if actions@[i as int].is_private && results@[i as int] is Err {
                assert(f1 == f0.push(actions@[i as int].display_name@ + ": "@ + error_text(results@[i as int]->Err_0)));
                assert(f1.drop_last() == f0);
                if f0.len() == 0 {
                    assert(failures@ =~= join_texts(f1, ", "@));
                } else {
                    assert(failures@ =~= join_texts(f1, ", "@));
                }
            }
            assert forall|x: Seq<char>| texts_view(paths@).contains(x) <==> exists|j: int|
                0 <= j < i + 1 && results@[j] is Ok && #[trigger] actions@[j].path@ == x by {
                if exists|j: int| 0 <= j < i + 1 && results@[j] is Ok && #[trigger] actions@[j].path@ == x {
                    let j = choose|j: int| 0 <= j < i + 1 && results@[j] is Ok && #[trigger] actions@[j].path@ == x;
                    if j < i {
                        assert(old_paths.contains(x));
                    }
                }
                if texts_view(paths@).contains(x) && !old_paths.contains(x) {
                    assert(actions@[i as int].path@ == x);
                }
            }
        }
    }
    let mut out: Vec<String> = Vec::new();
    let k = paths.len();
    for j in 0..k
        invariant
            k == paths@.len(),
            strings_view(out@) == texts_view(paths@).take(j as int),
    {
        let st = string_from_chars(&paths[j]);
        let ghost before = out@;
        out.push(st);
        assert(strings_view(out@) =~= strings_view(before).push(paths@[j as int]@));
        assert(strings_view(out@) =~= texts_view(paths@).take(j + 1));
    }
    assert(texts_view(paths@).take(k as int) =~= texts_view(paths@));
    if any {
        let mut m = chars_of("No se pudo separar de forma segura: ");
        m.append(&mut failures);
        return Err(RouteFailure { error: AudioError::Message(string_from_chars(&m)), routed_paths: out });
    }
    Ok(out)
}

// ---------------------------------------------------------------------------
// Saved state around activation and deactivation
// ---------------------------------------------------------------------------

/// The loaded state after closing an unclosed session: no unclosed session,
/// and the last protection (if any) marked inactive at `now`.
pub open spec fn is_cleared_state(r: PersistedState, loaded: PersistedState, now: Seq<char>) -> bool {
    &&& same_config(r.config, loaded.config)
    &&& r.incomplete_session is None
    &&& match loaded.last_protection {
        Some(l) => r.last_protection matches Some(n) && !n.active && n.updated_at@ == now && n.excluded_apps
            == l.excluded_apps && n.physical_device_id == l.physical_device_id && n.shared_device_id
            == l.shared_device_id,
        None => r.last_protection is None,
    }
}

/// The state after closing an unclosed session.
pub fn cleared_state(loaded: PersistedState, now: String) -> (r: PersistedState)
    ensures
        is_cleared_state(r, loaded, now@),
{
    let mut state = loaded;
    state.incomplete_session = None;
    let last = match state.last_protection {
        Some(l) => Some(
            LastProtectionInfo {
                active: false,
                updated_at: now,
                excluded_apps: l.excluded_apps,
                physical_device_id: l.physical_device_id,
                shared_device_id: l.shared_device_id,
            },
        ),
        None => None,
    };
    PersistedState { config: state.config, incomplete_session: None, last_protection: last }
}

/// The message of a failed activation, before or after routing.
pub open spec fn activation_failed_message(e: AudioError, after_routes: bool) -> Seq<char> {
    if after_routes {
        "No se pudo activar. No te preocupes: tu audio se dejo como estaba. "@ + error_text(e)
            + " Tu audio continua funcionando normalmente."@
    } else {
        "No se pudo activar. No te preocupes: tu audio se dejo como estaba. "@ + error_text(e)
    }
}

/// The error reported when activation fails on `e`: while making the shared
/// channel the default device, or while routing applications.
pub fn activation_failure(e: &AudioError, after_routes: bool) -> (r: AudioError)
    ensures
        r matches AudioError::Message(m) && m@ == activation_failed_message(*e, after_routes),
{
    let mut v = chars_of("No se pudo activar. No te preocupes: tu audio se dejo como estaba. ");
    push_str(&mut v, e.describe().as_str());
    if after_routes {
        push_str(&mut v, " Tu audio continua funcionando normalmente.");
    }
    AudioError::Message(string_from_chars(&v))
}

/// The warning when the local monitor could not start.
pub open spec fn monitor_warning(e: Seq<char>) -> Seq<char> {
    "La exclusion se aplico, pero el monitor local fallo: "@ + e + "."@
}

impl ActivationPlan {
    /// The actions undoing a failed activation: clear the routes of every
    /// executable that was routed before the failure (`routed_paths`, none
    /// when the shared channel could not be made the default), in order,
    /// then put the previous default devices back.
    pub fn rollback_actions(&self, routed_paths: &Vec<String>) -> (r: Vec<AudioAction>)
        ensures
            clears_then_restores(
                r@,
                routed_paths@,
                match self.previous_multimedia {
                    Some(d) => Some(d.id@),
                    None => None,
                },
                match self.previous_communications {
                    Some(d) => Some(d.id@),
                    None => None,
                },
            ),
    {
        let mut actions = clear_routes_of(routed_paths);
        let mut restore = restore_defaults(opt_id(&self.previous_multimedia), opt_id(&self.previous_communications));
        let ghost head = actions@;
        let ghost tail = restore@;
        let k = routed_paths.len();
        actions.append(&mut restore);
        proof {
            assert(actions@.skip(k as int) =~= tail);
            assert forall|m: int| 0 <= m < k implies clears_routes(#[trigger] actions@[m], routed_paths@[m]@) by {
                assert(actions@[m] == head[m]);
            }
        }
        actions
    }

    /// The route targets of the planned protection.
    pub fn route_targets(&self, excluded_apps: &Vec<AppIdentity>) -> (r: RouteTargets)
        ensures
            r.excluded_apps@ == excluded_apps@,
            r.shared_device_id == self.shared.id,
            r.physical_device_id == self.physical.id,
            r.communications_device_id == self.communications.id,
    {
        RouteTargets {
            excluded_apps: clone_identities(excluded_apps),
            shared_device_id: self.shared.id.clone(),
            physical_device_id: self.physical.id.clone(),
            communications_device_id: self.communications.id.clone(),
        }
    }
}

/// `s` is the snapshot of an activation by `plan` with these excluded
/// applications, routed paths and time.
pub open spec fn is_activation_snapshot(
    s: ProtectionSnapshot,
    plan: ActivationPlan,
    excluded: Seq<AppIdentity>,
    paths: Seq<String>,
    now: Seq<char>,
) -> bool {
    &&& s.previous_default_multimedia_id == opt_id_string(plan.previous_multimedia)
    &&& s.previous_default_communications_id == opt_id_string(plan.previous_communications)
    &&& s.physical_device_id == plan.physical.id
    &&& s.physical_device_name == plan.physical.name
    &&& s.communications_device_id == plan.communications.id
    &&& s.communications_device_name == plan.communications.name
    &&& s.shared_device_id == plan.shared.id
    &&& s.shared_device_name == plan.shared.name
    &&& s.excluded_apps@ == excluded
    &&& s.routed_app_paths@ == paths
    &&& s.activated_at@ == now
}

/// `after` is `before` once activation by `plan` completed: active, with the
/// snapshot of the activation and, when the local monitor failed, its
/// warning as the only warning.
pub open spec fn is_completed_activation(
    before: ProtectionEngine,
    after: ProtectionEngine,
    plan: ActivationPlan,
    paths: Seq<String>,
    monitor_error: Option<Seq<char>>,
    now: Seq<char>,
) -> bool {
    &&& same_config(after.spec_config(), before.spec_config())
    &&& after.spec_active()
    &&& after.spec_snapshot() matches Some(s) && is_activation_snapshot(s, plan, before.spec_config().excluded_apps@, paths, now)
    &&& match monitor_error {
        Some(e) => after.spec_warnings().len() == 1 && after.spec_warnings()[0]@ == monitor_warning(e),
        None => after.spec_warnings().len() == 0,
    }
}

impl ProtectionEngine {
    /// The state saved before the system is changed: these preferences and
    /// the record of the planned activation.
    pub fn activation_state(&self, loaded: PersistedState, plan: &ActivationPlan) -> (r: PersistedState)
        ensures
            same_config(r.config, self.spec_config()),
            r.incomplete_session matches Some(i) && i.created_at == plan.incomplete.created_at
                && i.previous_default_multimedia_id == plan.incomplete.previous_default_multimedia_id
                && i.previous_default_communications_id == plan.incomplete.previous_default_communications_id
                && i.physical_device_id == plan.incomplete.physical_device_id && i.shared_device_id
                == plan.incomplete.shared_device_id && i.excluded_apps@ == plan.incomplete.excluded_apps@
                && i.muted_feedback_sessions@ == plan.incomplete.muted_feedback_sessions@ && i.reason
                == plan.incomplete.reason,
            r.last_protection == loaded.last_protection,
    {
        let mut state = loaded;
        state.config = self.config.clone();
        state.incomplete_session = Some(plan.incomplete.clone());
        state
    }

    /// The last step of a successful activation: records the snapshot,
    /// becomes active, and returns the status and the state to save (the
    /// record of the active protection and the last protection).
    pub fn complete_activation(
        &mut self,
        plan: &ActivationPlan,
        routed_paths: Vec<String>,
        monitor_error: Option<String>,
        now: String,
        loaded: PersistedState,
        devices: &[AudioDevice],
    ) -> (r: (ProtectionStatus, PersistedState))
        ensures
            engine_consistent(*final(self)),
            is_completed_activation(*old(self), *final(self), *plan, routed_paths@, view_opt_string(monitor_error), now@),
            same_config(r.1.config, old(self).spec_config()),
            r.1.incomplete_session matches Some(i) && records_snapshot(i, final(self).spec_snapshot()->0, "protection-active"@),
            r.1.last_protection matches Some(l) && l.active && l.updated_at@ == now@ && l.excluded_apps@
                == old(self).spec_config().excluded_apps@ && l.physical_device_id == Some(plan.physical.id)
                && l.shared_device_id == Some(plan.shared.id),
            is_status(r.0, *final(self), devices@),
            r.0.active,
            r.0.message@ == status_message(true, old(self).spec_config().excluded_apps@),
    {
        let mut warnings: Vec<String> = Vec::new();
        if let Some(e) = &monitor_error {
            let mut v = chars_of("La exclusion se aplico, pero el monitor local fallo: ");
            push_str(&mut v, e.as_str());
            push_str(&mut v, ".");
            warnings.push(string_from_chars(&v));
        }
        let snapshot = ProtectionSnapshot {
            previous_default_multimedia_id: opt_id_owned(&plan.previous_multimedia),
            previous_default_communications_id: opt_id_owned(&plan.previous_communications),
            physical_device_id: plan.physical.id.clone(),
            physical_device_name: plan.physical.name.clone(),
            communications_device_id: plan.communications.id.clone(),
            communications_device_name: plan.communications.name.clone(),
            shared_device_id: plan.shared.id.clone(),
            shared_device_name: plan.shared.name.clone(),
            excluded_apps: clone_identities(&self.config.excluded_apps),
            routed_app_paths: routed_paths,
            activated_at: now.clone(),
        };
        let record = record_snapshot(&snapshot, "protection-active");
        let last = LastProtectionInfo {
            active: true,
            updated_at: now,
            excluded_apps: clone_identities(&snapshot.excluded_apps),
            physical_device_id: Some(snapshot.physical_device_id.clone()),
            shared_device_id: Some(snapshot.shared_device_id.clone()),
        };
        proof {
            use_type_invariant(&*self);
        }
        let mut replaced = ProtectionEngine {
            config: self.config.clone(),
            active: true,
            snapshot: Some(snapshot),
            warnings,
        };
        std::mem::swap(self, &mut replaced);
        std::mem::swap(&mut self.config, &mut replaced.config);
        let mut state = loaded;
        state.config = self.config.clone();
        state.incomplete_session = Some(record);
        state.last_protection = Some(last);
        let status = self.status(devices);
        (status, state)
    }
}

// ---------------------------------------------------------------------------
// Deactivation and route refresh
// ---------------------------------------------------------------------------

/// The system changes of a deactivation.
#[derive(Debug)]
pub struct DeactivationPlan {
    /// Protection was active.
    pub was_active: bool,
    /// Clear the routes of every routed executable, then restore the previous
    /// default devices; every outcome is ignored.
    pub actions: Vec<AudioAction>,
}

/// `actions` clears the routes of each executable of `paths`, in order,
/// then restores the default devices `mm` and `comm`.
pub open spec fn clears_then_restores(
    actions: Seq<AudioAction>,
    paths: Seq<String>,
    mm: Option<Seq<char>>,
    comm: Option<Seq<char>>,
) -> bool {
    let k = paths.len();
    &&& actions.len() >= k
    &&& forall|j: int| 0 <= j < k ==> clears_routes(#[trigger] actions[j], paths[j]@)
    &&& is_restore_defaults(actions.skip(k as int), mm, comm)
}

/// The actions clearing the routes of each executable of `paths`, in order.
fn clear_routes_of(paths: &Vec<String>) -> (r: Vec<AudioAction>)
    ensures
        r@.len() == paths@.len(),
        forall|m: int| 0 <= m < paths@.len() ==> clears_routes(#[trigger] r@[m], paths@[m]@),
{
    let mut actions: Vec<AudioAction> = Vec::new();
    let k = paths.len();
    for j in 0..k
        invariant
            k == paths@.len(),
            actions@.len() == j,
            forall|m: int| 0 <= m < j ==> clears_routes(#[trigger] actions@[m], paths@[m]@),
    {
        actions.push(AudioAction::ClearAppRoutes { process_path: paths[j].clone() });
    }
    actions
}

/// `actions` undoes the protection recorded by `s`: it clears the routes of
/// each routed executable, in order, then restores the previous defaults.
pub open spec fn undoes_snapshot(actions: Seq<AudioAction>, s: ProtectionSnapshot) -> bool {
    clears_then_restores(
        actions,
        s.routed_app_paths@,
        view_opt_string(s.previous_default_multimedia_id),
        view_opt_string(s.previous_default_communications_id),
    )
}

/// `after` is `before` once deactivated: inactive, without snapshot or
/// warnings, same preferences; `plan` undoes the recorded protection.
pub open spec fn is_deactivation(before: ProtectionEngine, after: ProtectionEngine, plan: DeactivationPlan) -> bool {
    &&& same_config(after.spec_config(), before.spec_config())
    &&& plan.was_active == before.spec_active()
    &&& !after.spec_active()
    &&& if before.spec_active() {
        &&& after.spec_snapshot() is None
        &&& after.spec_warnings().len() == 0
        &&& match before.spec_snapshot() {
            Some(s) => undoes_snapshot(plan.actions@, s),
            None => plan.actions@.len() == 0,
        }
    } else {
        &&& after.spec_snapshot() == before.spec_snapshot()
        &&& after.spec_warnings() == before.spec_warnings()
        &&& plan.actions@.len() == 0
    }
}

/// Replaces the excluded applications of a snapshot, if there is one.
fn replace_snapshot_apps(snapshot: &mut Option<ProtectionSnapshot>, excluded: Vec<AppIdentity>)
    ensures
        match *old(snapshot) {
            Some(s) => *final(snapshot) == Some(ProtectionSnapshot { excluded_apps: excluded, ..s }),
            None => *final(snapshot) is None,
        },
    no_unwind
{
    match snapshot {
        Some(s) => {
            s.excluded_apps = excluded;
        },
        None => {},
    }
}

impl ProtectionEngine {
    /// Deactivation: when active, stops protecting and returns the actions
    /// undoing it; when inactive, changes nothing.  The caller stops the
    /// local monitor, performs the actions and saves `deactivated_state`
    /// (or `cleared_state` when protection was not active).
    pub fn begin_deactivation(&mut self) -> (r: DeactivationPlan)
        ensures
            engine_consistent(*final(self)),
            is_deactivation(*old(self), *final(self), r),
            final(self).spec_snapshot() is None,
    {
        proof {
            use_type_invariant(&*self);
        }
        if !self.active {
            return DeactivationPlan { was_active: false, actions: Vec::new() };
        }
        let mut replaced = ProtectionEngine {
            config: self.config.clone(),
            active: false,
            snapshot: None,
            warnings: Vec::new(),
        };
        std::mem::swap(self, &mut replaced);
        std::mem::swap(&mut self.config, &mut replaced.config);
        let actions = match &replaced.snapshot {
            Some(snapshot) => {
                let paths = &snapshot.routed_app_paths;
                let k = paths.len();
                let mut actions = clear_routes_of(paths);
                let mut restore = restore_defaults(
                    opt_str(&snapshot.previous_default_multimedia_id),
                    opt_str(&snapshot.previous_default_communications_id),
                );
                let ghost head = actions@;
                let ghost tail = restore@;
                actions.append(&mut restore);
                proof {
                    assert(actions@.skip(k as int) =~= tail);
                    assert forall|m: int| 0 <= m < k implies clears_routes(#[trigger] actions@[m], paths@[m]@) by {
                        assert(actions@[m] == head[m]);
                    }
                }
                actions
            },
            None => Vec::new(),
        };
        DeactivationPlan { was_active: true, actions }
    }

    /// The state saved after deactivation: no unclosed session, and the last
    /// protection inactive at `now` with the excluded applications and the
    /// preferred devices of the preferences.
    pub fn deactivated_state(&self, loaded: PersistedState, now: String) -> (r: PersistedState)
        ensures
            same_config(r.config, self.spec_config()),
            r.incomplete_session is None,
            r.last_protection matches Some(l) && !l.active && l.updated_at@ == now@ && l.excluded_apps@
                == self.spec_config().excluded_apps@ && l.physical_device_id
                == self.spec_config().preferred_physical_device_id && l.shared_device_id
                == self.spec_config().preferred_shared_device_id,
    {
        let mut state = loaded;
        state.config = self.config.clone();
        state.incomplete_session = None;
        state.last_protection = Some(
            LastProtectionInfo {
                active: false,
                updated_at: now,
                excluded_apps: clone_identities(&self.config.excluded_apps),
                physical_device_id: clone_opt_string(&self.config.preferred_physical_device_id),
                shared_device_id: clone_opt_string(&self.config.preferred_shared_device_id),
            },
        );
        state
    }

    /// The routes to reapply while active (none when inactive).
    pub fn refresh_routes(&self) -> (r: Result<Option<RouteTargets>>)
        ensures
            !self.spec_active() ==> r matches Ok(None),
            self.spec_active() && self.spec_snapshot() is None ==> r matches Err(AudioError::ProtectionNotActive),
            self.spec_active() && self.spec_snapshot() is Some ==> (r matches Ok(Some(t)) && {
                let s = self.spec_snapshot()->0;
                &&& t.excluded_apps@ == s.excluded_apps@
                &&& t.shared_device_id == s.shared_device_id
                &&& t.physical_device_id == s.physical_device_id
                &&& t.communications_device_id == s.communications_device_id
            }),
    {
        if !self.active {
            return Ok(None);
        }
        match &self.snapshot {
            Some(s) => Ok(
                Some(
                    RouteTargets {
                        excluded_apps: clone_identities(&s.excluded_apps),
                        shared_device_id: s.shared_device_id.clone(),
                        physical_device_id: s.physical_device_id.clone(),
                        communications_device_id: s.communications_device_id.clone(),
                    },
                ),
            ),
            None => Err(AudioError::ProtectionNotActive),
        }
    }

    /// Replaces the excluded applications (without critical Windows
    /// processes).  While active, returns the routes to reapply with the new
    /// applications; once applied, `record_excluded_routes` records them in
    /// the snapshot.  The caller then saves `persisted_state`.
    pub fn set_excluded_apps(&mut self, apps: Vec<AppIdentity>) -> (r: Result<Option<RouteTargets>>)
        ensures
            engine_consistent(*final(self)),
            final(self).spec_config().excluded_apps@ == without_critical(apps@),
            same_settings(final(self).spec_config(), old(self).spec_config()),
            final(self).spec_config().language == old(self).spec_config().language,
            final(self).spec_config().language_migrated == old(self).spec_config().language_migrated,
            final(self).spec_active() == old(self).spec_active(),
            final(self).spec_snapshot() == old(self).spec_snapshot(),
            final(self).spec_warnings() == old(self).spec_warnings(),
            !old(self).spec_active() ==> r matches Ok(None),
            old(self).spec_active() && old(self).spec_snapshot() is None ==> r matches Err(AudioError::ProtectionNotActive),
            old(self).spec_active() && old(self).spec_snapshot() is Some ==> (r matches Ok(Some(t)) && {
                let s = old(self).spec_snapshot()->0;
                &&& t.excluded_apps@ == without_critical(apps@)
                &&& t.shared_device_id == s.shared_device_id
                &&& t.physical_device_id == s.physical_device_id
                &&& t.communications_device_id == s.communications_device_id
            }),
    {
        proof {
            use_type_invariant(&*self);
        }
        self.config.excluded_apps = filter_critical(apps);
        if !self.active {
            return Ok(None);
        }
        match &self.snapshot {
            Some(s) => Ok(
                Some(
                    RouteTargets {
                        excluded_apps: clone_identities(&self.config.excluded_apps),
                        shared_device_id: s.shared_device_id.clone(),
                        physical_device_id: s.physical_device_id.clone(),
                        communications_device_id: s.communications_device_id.clone(),
                    },
                ),
            ),
            None => Err(AudioError::ProtectionNotActive),
        }
    }

    /// Records the excluded applications of the preferences in the snapshot
    /// of the active protection, once their routes were applied.
    pub fn record_excluded_routes(&mut self)
        ensures
            engine_consistent(*final(self)),
            same_config(final(self).spec_config(), old(self).spec_config()),
            final(self).spec_active() == old(self).spec_active(),
            final(self).spec_warnings() == old(self).spec_warnings(),
            match old(self).spec_snapshot() {
                Some(s) => final(self).spec_snapshot() matches Some(n) && n.excluded_apps@
                    == old(self).spec_config().excluded_apps@ && n.previous_default_multimedia_id
                    == s.previous_default_multimedia_id && n.previous_default_communications_id
                    == s.previous_default_communications_id && n.physical_device_id == s.physical_device_id
                    && n.physical_device_name == s.physical_device_name && n.communications_device_id
                    == s.communications_device_id && n.communications_device_name == s.communications_device_name
                    && n.shared_device_id == s.shared_device_id && n.shared_device_name == s.shared_device_name
                    && n.routed_app_paths == s.routed_app_paths && n.activated_at == s.activated_at,
                None => final(self).spec_snapshot() is None,
            },
    {
        proof {
            use_type_invariant(&*self);
        }
        let excluded = clone_identities(&self.config.excluded_apps);
        replace_snapshot_apps(&mut self.snapshot, excluded);
    }

    /// The verification capture for the excluded applications in effect:
    /// the processes related to their sessions, in increasing order.
    pub fn capture_plan(&self, sessions: &[AudioSessionInfo], procs: &[ProcessInfo]) -> (r: LoopbackCapturePlan)
        ensures
            exists|pids: Seq<u32>|
                strictly_increasing(pids) && (forall|x: u32| pids.contains(x) <==> private_pid(
                    sessions@,
                    self.spec_current_excluded(),
                    procs@,
                    x,
                )) && #[trigger] crate::loopback::is_capture_plan(r, pids),
    {
        let apps = self.current_excluded();
        let pids = private_pids_of(sessions, apps.as_slice(), procs);
        plan_shared_capture(pids.as_slice())
    }
}

} // verus!
