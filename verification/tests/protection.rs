use audio_core::config::{migrate_language, AppConfig};
use audio_core::devices::{AudioDevice, DefaultRole, DEVICE_STATE_ACTIVE};
use audio_core::error::AudioError;
use audio_core::persist::{IncompleteSession, LastProtectionInfo, PersistedState};
use audio_core::process::ProcessInfo;
use audio_core::protection::{
    activation_failure, cleared_state, collect_route_outcomes, filter_critical, plan_routes, recovery_target,
    restore_defaults, restore_defaults_from_incomplete, AudioAction, ProtectionEngine, RouteFailure, RouteTargets,
};
use audio_core::sessions::AudioSessionInfo;
use audio_core::types::{AppIdentity, PlaybackState};
use audio_core::loopback::LoopbackMode;

const FULL_PREFIX: &str = "\\\\?\\SWD#MMDEVAPI#";
const FULL_SUFFIX: &str = "#{e6327cad-dcec-4949-ae8a-991e976a79d2}";

fn full(id: &str) -> String {
    format!("{FULL_PREFIX}{id}{FULL_SUFFIX}")
}

fn device(id: &str, name: &str, physical: bool, mm: bool, comm: bool) -> AudioDevice {
    AudioDevice {
        id: id.to_string(),
        name: name.to_string(),
        description: None,
        is_default_multimedia: mm,
        is_default_communications: comm,
        is_virtual_shared_candidate: !physical,
        is_physical_candidate: physical,
        state: DEVICE_STATE_ACTIVE,
    }
}

fn devices() -> Vec<AudioDevice> {
    vec![
        device("spk", "Speakers", true, true, false),
        device("hs", "Headset", true, false, true),
        device("cab", "CABLE Input (VB-Audio Virtual Cable)", false, false, false),
    ]
}

fn session(pid: u32, exe: Option<&str>, display: &str) -> AudioSessionInfo {
    AudioSessionInfo {
        session_id: format!("s{pid}"),
        pid,
        display_name: display.to_string(),
        exe_path: exe.map(|e| format!("C:\\Apps\\{e}")),
        exe_name: exe.map(|e| e.to_string()),
        icon_path: None,
        icon_data_url: None,
        state: PlaybackState::Active,
        is_system_sounds: pid == 0,
        volume_bits: 0,
        muted: false,
        device_id: None,
        device_name: None,
    }
}

fn proc_info(pid: u32, path: &str, parent: Option<u32>) -> ProcessInfo {
    ProcessInfo { pid, exe_path: Some(path.to_string()), exe_name: None, parent_pid: parent }
}

fn is_set_default(a: &AudioAction, id: &str, role: DefaultRole, must: bool) -> bool {
    matches!(a, AudioAction::SetDefaultEndpoint { device_id, role: r, must_succeed }
        if device_id == id && *r == role && *must_succeed == must)
}

fn is_clear(a: &AudioAction, path: &str) -> bool {
    matches!(a, AudioAction::ClearAppRoutes { process_path } if process_path == path)
}

fn fresh_engine() -> ProtectionEngine {
    let mut state = PersistedState::default();
    state.config.language_migrated = true;
    let (engine, saved) = ProtectionEngine::initialize(state, None);
    assert!(saved.is_none());
    engine
}

#[test]
fn start_migrates_the_language_once() {
    let mut state = PersistedState::default();
    state.config.language = "es".to_string();
    let (engine, saved) = ProtectionEngine::initialize(state, None);
    assert_eq!(engine.config().language, "en");
    assert!(engine.config().language_migrated);
    let saved = saved.unwrap();
    assert_eq!(saved.config.language, "en");
    assert!(saved.config.language_migrated);

    let mut state = PersistedState::default();
    state.config.language = "fr".to_string();
    let (engine, saved) = ProtectionEngine::initialize(state, None);
    assert_eq!(engine.config().language, "fr");
    assert!(saved.unwrap().config.language_migrated);

    let mut state = PersistedState::default();
    state.config.language = "es".to_string();
    state.config.language_migrated = true;
    let (engine, saved) = ProtectionEngine::initialize(state, None);
    assert_eq!(engine.config().language, "es");
    assert!(saved.is_none());
}

#[test]
fn idle_status() {
    let mut engine = fresh_engine();
    let st = engine.status(&devices());
    assert!(!st.active);
    assert_eq!(st.message, "Listo para proteger");
    assert_eq!(st.excluded_count, 0);
    assert_eq!(st.shared_device_name.as_deref(), Some("CABLE Input (VB-Audio Virtual Cable)"));
    assert!(st.shared_device_available);
    assert_eq!(st.physical_device_name, None);
    assert!(engine.take_warnings().is_empty());
}

#[test]
fn recovery_warnings_at_start() {
    let mut state = PersistedState::default();
    state.incomplete_session = Some(IncompleteSession {
        created_at: "t".to_string(),
        previous_default_multimedia_id: Some("spk".to_string()),
        previous_default_communications_id: None,
        physical_device_id: None,
        shared_device_id: None,
        excluded_apps: vec![],
        muted_feedback_sessions: vec![],
        reason: "protection-active".to_string(),
    });
    assert!(recovery_target(&state).is_some());
    let (mut engine, saved) = ProtectionEngine::initialize(state, Some(Ok(())));
    assert!(saved.unwrap().incomplete_session.is_none());
    assert_eq!(
        engine.take_warnings(),
        vec!["Se detecto un cierre inesperado. La configuracion de audio fue restaurada.".to_string()]
    );
    assert!(engine.take_warnings().is_empty());

    let mut state = PersistedState::default();
    state.config.language_migrated = true;
    state.incomplete_session = Some(IncompleteSession {
        created_at: "t".to_string(),
        previous_default_multimedia_id: None,
        previous_default_communications_id: None,
        physical_device_id: None,
        shared_device_id: None,
        excluded_apps: vec![],
        muted_feedback_sessions: vec![],
        reason: "protection-active".to_string(),
    });
    let (mut engine, saved) = ProtectionEngine::initialize(state, Some(Err(AudioError::Message("boom".to_string()))));
    assert!(saved.unwrap().incomplete_session.is_none());
    assert_eq!(
        engine.take_warnings(),
        vec!["No se pudo restaurar completamente la sesion anterior: boom".to_string()]
    );
}

#[test]
fn recovery_needs_the_option() {
    let mut state = PersistedState::default();
    state.config.auto_recover_on_start = false;
    state.incomplete_session = Some(IncompleteSession {
        created_at: "t".to_string(),
        previous_default_multimedia_id: None,
        previous_default_communications_id: None,
        physical_device_id: None,
        shared_device_id: None,
        excluded_apps: vec![],
        muted_feedback_sessions: vec![],
        reason: "idle".to_string(),
    });
    assert!(recovery_target(&state).is_none());
}

#[test]
fn activation_requires_an_application() {
    let mut engine = fresh_engine();
    match engine.begin_activation(None, &devices(), "t".to_string()) {
        Err(AudioError::Message(m)) => {
            assert_eq!(m, "Elige al menos una aplicacion de la lista y vuelve a intentarlo.")
        },
        other => panic!("unexpected {:?}", other.map(|_| ())),
    }
    match engine.begin_activation(Some(vec![AppIdentity::from_exe("svchost.exe")]), &devices(), "t".to_string()) {
        Err(AudioError::Message(_)) => {},
        other => panic!("unexpected {:?}", other.map(|_| ())),
    }
    assert!(engine.config().excluded_apps.is_empty());
}

#[test]
fn activation_requires_a_shared_channel() {
    let mut engine = fresh_engine();
    let devs = vec![device("spk", "Speakers", true, true, true)];
    match engine.begin_activation(Some(vec![AppIdentity::from_exe("discord.exe")]), &devs, "t".to_string()) {
        Err(AudioError::SharedDeviceUnavailable(m)) => assert!(m.starts_with("Aun falta un paso de instalacion")),
        other => panic!("unexpected {:?}", other.map(|_| ())),
    }
    // The selection is kept even though activation failed.
    assert_eq!(engine.config().excluded_apps.len(), 1);
}

#[test]
fn activation_requires_a_physical_output() {
    let mut engine = fresh_engine();
    let devs = vec![device("cab", "CABLE Input", false, true, true)];
    match engine.begin_activation(Some(vec![AppIdentity::from_exe("discord.exe")]), &devs, "t".to_string()) {
        Err(AudioError::PhysicalDeviceUnavailable(m)) => assert_eq!(m, "no physical render device"),
        other => panic!("unexpected {:?}", other.map(|_| ())),
    }
}

#[test]
fn activation_refuses_the_same_device_for_both_outputs() {
    let mut state = PersistedState::default();
    state.config.preferred_shared_device_id = Some("spk".to_string());
    let (mut engine, _) = ProtectionEngine::initialize(state, None);
    match engine.begin_activation(Some(vec![AppIdentity::from_exe("discord.exe")]), &devices(), "t".to_string()) {
        Err(AudioError::Message(m)) => assert!(m.starts_with("Hay un problema de configuracion de audio.")),
        other => panic!("unexpected {:?}", other.map(|_| ())),
    }
}

#[test]
fn full_protection_cycle() {
    let mut engine = fresh_engine();
    let devs = devices();
    let selected = vec![
        AppIdentity::from_exe("Discord.exe"),
        AppIdentity::from_exe("svchost.exe"),
    ];
    let plan = engine.begin_activation(Some(selected), &devs, "t0".to_string()).unwrap();
    assert_eq!(engine.config().excluded_apps.len(), 1);
    assert_eq!(engine.config().excluded_apps[0].exe_name, "discord.exe");
    assert_eq!(plan.previous_multimedia.as_ref().unwrap().id, "spk");
    assert_eq!(plan.previous_communications.as_ref().unwrap().id, "hs");
    assert_eq!(plan.local_monitor.id, "spk");
    assert_eq!(plan.physical.id, "spk");
    assert_eq!(plan.shared.id, "cab");
    assert_eq!(plan.communications.id, "hs");
    assert_eq!(plan.incomplete.reason, "activation-in-progress");
    assert_eq!(plan.incomplete.created_at, "t0");

    // Saved before the system is changed.
    let saved = engine.activation_state(PersistedState::default(), &plan);
    assert_eq!(saved.incomplete_session.as_ref().unwrap().previous_default_multimedia_id.as_deref(), Some("spk"));

    // A crash now is recoverable.
    let recovery = restore_defaults_from_incomplete(&plan.incomplete);
    assert_eq!(recovery.len(), 2);
    assert!(is_set_default(&recovery[0], "spk", DefaultRole::Multimedia, true));
    assert!(is_set_default(&recovery[1], "hs", DefaultRole::Communications, false));

    // Rolling back a failed activation restores the same defaults.
    let rollback = plan.rollback_actions(&Vec::new());
    assert_eq!(rollback.len(), 2);
    assert!(is_set_default(&rollback[0], "spk", DefaultRole::Multimedia, true));
    assert!(is_set_default(&rollback[1], "hs", DefaultRole::Communications, false));

    // After routes were set, the rollback clears them first.
    let rollback = plan.rollback_actions(&vec!["C:\\Apps\\chrome.exe".to_string()]);
    assert_eq!(rollback.len(), 3);
    assert!(is_clear(&rollback[0], "C:\\Apps\\chrome.exe"));
    assert!(is_set_default(&rollback[1], "spk", DefaultRole::Multimedia, true));
    assert!(is_set_default(&rollback[2], "hs", DefaultRole::Communications, false));

    // Routes.
    let targets = plan.route_targets(&engine.config().excluded_apps);
    let sessions = vec![
        session(20, Some("Discord.exe"), "Discord"),
        session(30, Some("chrome.exe"), "Chrome"),
        session(0, None, "Sonidos de Windows"),
        session(40, Some("explorer.exe"), "Explorer"),
        session(50, Some("MicVST.exe"), "MicVST"),
    ];
    let procs = vec![
        proc_info(20, "C:\\Apps\\Discord.exe", None),
        proc_info(21, "C:\\Apps\\Discord.exe", Some(20)),
        proc_info(30, "C:\\Apps\\chrome.exe", None),
    ];
    let routes = plan_routes(&sessions, &targets, &procs);
    assert_eq!(routes.len(), 2);
    assert_eq!(routes[0].pid, 20);
    assert!(routes[0].is_private);
    assert_eq!(routes[0].assignment.multimedia_device_id, full("spk"));
    assert_eq!(routes[0].assignment.communications_device_id, full("hs"));
    assert_eq!(routes[1].pid, 30);
    assert!(!routes[1].is_private);
    assert_eq!(routes[1].assignment.multimedia_device_id, full("cab"));
    assert_eq!(routes[1].assignment.communications_device_id, full("cab"));

    let paths = collect_route_outcomes(&routes, &vec![Ok(()), Ok(())]).unwrap();
    assert_eq!(paths, vec!["C:\\Apps\\Discord.exe".to_string(), "C:\\Apps\\chrome.exe".to_string()]);

    let (status, state) =
        engine.complete_activation(&plan, paths.clone(), None, "t1".to_string(), PersistedState::default(), &devs);
    assert!(status.active);
    assert_eq!(status.message, "discord.exe solo se oye en esta computadora.");
    assert_eq!(status.physical_device_name.as_deref(), Some("Speakers"));
    assert_eq!(status.shared_device_name.as_deref(), Some("CABLE Input (VB-Audio Virtual Cable)"));
    let record = state.incomplete_session.as_ref().unwrap();
    assert_eq!(record.reason, "protection-active");
    // A crash now is recovered with the defaults recorded before activation.
    let recovery = restore_defaults_from_incomplete(record);
    assert_eq!(recovery.len(), 2);
    assert!(is_set_default(&recovery[0], "spk", DefaultRole::Multimedia, true));
    assert!(is_set_default(&recovery[1], "hs", DefaultRole::Communications, false));
    assert!(state.last_protection.as_ref().unwrap().active);

    // Activating again is refused.
    match engine.begin_activation(None, &devs, "t2".to_string()) {
        Err(AudioError::ProtectionAlreadyActive) => {},
        other => panic!("unexpected {:?}", other.map(|_| ())),
    }

    // Route refresh uses the snapshot.
    let t = engine.refresh_routes().unwrap().unwrap();
    assert_eq!(t.shared_device_id, "cab");
    assert_eq!(t.physical_device_id, "spk");
    assert_eq!(t.communications_device_id, "hs");

    // Verification capture covers the private processes.
    let plan_capture = engine.capture_plan(&sessions, &procs);
    assert_eq!(plan_capture.mode, LoopbackMode::ExcludeProcessTrees);
    assert_eq!(plan_capture.target_pids, vec![20, 21]);

    // Deactivation undoes the activation.
    let deactivation = engine.begin_deactivation();
    assert!(deactivation.was_active);
    assert_eq!(deactivation.actions.len(), 4);
    assert!(is_clear(&deactivation.actions[0], "C:\\Apps\\Discord.exe"));
    assert!(is_clear(&deactivation.actions[1], "C:\\Apps\\chrome.exe"));
    assert!(is_set_default(&deactivation.actions[2], "spk", DefaultRole::Multimedia, true));
    assert!(is_set_default(&deactivation.actions[3], "hs", DefaultRole::Communications, false));
    let after = engine.status(&devs);
    assert!(!after.active);
    assert_eq!(after.message, "Listo para proteger");
    let state = engine.deactivated_state(state, "t3".to_string());
    assert!(state.incomplete_session.is_none());
    let last = state.last_protection.unwrap();
    assert!(!last.active);
    assert_eq!(last.updated_at, "t3");

    // Deactivating again changes nothing.
    let again = engine.begin_deactivation();
    assert!(!again.was_active);
    assert!(again.actions.is_empty());
    assert!(engine.refresh_routes().unwrap().is_none());
}

#[test]
fn monitor_failure_becomes_a_warning() {
    let mut engine = fresh_engine();
    let devs = devices();
    let plan = engine
        .begin_activation(Some(vec![AppIdentity::from_exe("a.exe"), AppIdentity::from_exe("b.exe")]), &devs, "t".to_string())
        .unwrap();
    let (status, _) = engine.complete_activation(
        &plan,
        vec![],
        Some("sin dispositivo".to_string()),
        "t".to_string(),
        PersistedState::default(),
        &devs,
    );
    assert_eq!(status.message, "2 aplicaciones solo se oyen en esta computadora.");
    assert_eq!(
        status.warnings,
        vec!["La exclusion se aplico, pero el monitor local fallo: sin dispositivo.".to_string()]
    );
}

#[test]
fn excluded_apps_change_while_active() {
    let mut engine = fresh_engine();
    let devs = devices();
    let plan = engine.begin_activation(Some(vec![AppIdentity::from_exe("a.exe")]), &devs, "t".to_string()).unwrap();
    engine.complete_activation(&plan, vec![], None, "t".to_string(), PersistedState::default(), &devs);
    let targets = engine
        .set_excluded_apps(vec![AppIdentity::from_exe("b.exe"), AppIdentity::from_exe("dwm.exe")])
        .unwrap()
        .unwrap();
    assert_eq!(targets.excluded_apps.len(), 1);
    assert_eq!(targets.excluded_apps[0].exe_name, "b.exe");
    assert_eq!(targets.shared_device_id, "cab");
    // The snapshot keeps the old applications until the routes are applied.
    assert_eq!(engine.current_excluded()[0].exe_name, "a.exe");
    engine.record_excluded_routes();
    assert_eq!(engine.current_excluded()[0].exe_name, "b.exe");
}

#[test]
fn excluded_apps_change_while_idle() {
    let mut engine = fresh_engine();
    assert!(engine.set_excluded_apps(vec![AppIdentity::from_exe("b.exe")]).unwrap().is_none());
    assert_eq!(engine.current_excluded().len(), 1);
}

#[test]
fn private_route_failures_are_reported() {
    let targets = RouteTargets {
        excluded_apps: vec![AppIdentity::from_exe("discord.exe")],
        shared_device_id: "cab".to_string(),
        physical_device_id: "spk".to_string(),
        communications_device_id: "spk".to_string(),
    };
    let sessions = vec![
        session(20, Some("discord.exe"), "Discord"),
        session(30, Some("chrome.exe"), "Chrome"),
        session(31, Some("zoom.exe"), "Zoom"),
    ];
    let routes = plan_routes(&sessions, &targets, &[]);
    assert_eq!(routes.len(), 3);
    let r = collect_route_outcomes(
        &routes,
        &vec![Err(AudioError::Message("x".to_string())), Err(AudioError::Message("y".to_string())), Ok(())],
    );
    match r {
        Err(RouteFailure { error: AudioError::Message(m), routed_paths }) => {
            assert_eq!(m, "No se pudo separar de forma segura: Discord: x");
            assert_eq!(routed_paths, vec!["C:\\Apps\\zoom.exe".to_string()]);
        },
        other => panic!("unexpected {:?}", other),
    }
    let ok = collect_route_outcomes(&routes, &vec![Ok(()), Err(AudioError::Message("y".to_string())), Ok(())]);
    assert_eq!(ok.unwrap(), vec!["C:\\Apps\\discord.exe".to_string(), "C:\\Apps\\zoom.exe".to_string()]);
}

#[test]
fn restoring_defaults() {
    let r = restore_defaults(Some("a"), Some("b"));
    assert_eq!(r.len(), 2);
    assert!(is_set_default(&r[0], "a", DefaultRole::Multimedia, true));
    assert!(is_set_default(&r[1], "b", DefaultRole::Communications, false));
    let r = restore_defaults(None, Some("b"));
    assert_eq!(r.len(), 1);
    assert!(is_set_default(&r[0], "b", DefaultRole::Communications, false));
    assert!(restore_defaults(None, None).is_empty());
}

#[test]
fn recovery_clears_routes_of_apps_with_a_path() {
    let incomplete = IncompleteSession {
        created_at: "t".to_string(),
        previous_default_multimedia_id: None,
        previous_default_communications_id: Some("hs".to_string()),
        physical_device_id: None,
        shared_device_id: None,
        excluded_apps: vec![
            AppIdentity { exe_name: "a.exe".to_string(), exe_path: Some("C:\\a.exe".to_string()), display_name: None },
            AppIdentity::from_exe("b.exe"),
        ],
        muted_feedback_sessions: vec![],
        reason: "protection-active".to_string(),
    };
    let r = restore_defaults_from_incomplete(&incomplete);
    assert_eq!(r.len(), 2);
    assert!(is_set_default(&r[0], "hs", DefaultRole::Communications, false));
    assert!(is_clear(&r[1], "C:\\a.exe"));
}

#[test]
fn clearing_the_unclosed_session() {
    let mut loaded = PersistedState::default();
    loaded.last_protection = Some(LastProtectionInfo {
        active: true,
        updated_at: "t0".to_string(),
        excluded_apps: vec![],
        physical_device_id: Some("spk".to_string()),
        shared_device_id: None,
    });
    let state = cleared_state(loaded, "t1".to_string());
    assert!(state.incomplete_session.is_none());
    let last = state.last_protection.unwrap();
    assert!(!last.active);
    assert_eq!(last.updated_at, "t1");
    assert_eq!(last.physical_device_id.as_deref(), Some("spk"));
    assert!(cleared_state(PersistedState::default(), "t".to_string()).last_protection.is_none());
}

#[test]
fn activation_failure_messages() {
    let e = AudioError::Message("fallo".to_string());
    match activation_failure(&e, false) {
        AudioError::Message(m) => assert_eq!(m, "No se pudo activar. No te preocupes: tu audio se dejo como estaba. fallo"),
        other => panic!("unexpected {:?}", other),
    }
    match activation_failure(&AudioError::ProtectionNotActive, true) {
        AudioError::Message(m) => assert_eq!(
            m,
            "No se pudo activar. No te preocupes: tu audio se dejo como estaba. protection is not active Tu audio continua funcionando normalmente."
        ),
        other => panic!("unexpected {:?}", other),
    }
}

#[test]
fn critical_apps_are_filtered() {
    let kept = filter_critical(vec![
        AppIdentity::from_exe("explorer.exe"),
        AppIdentity::from_exe("spotify.exe"),
        AppIdentity::from_exe("AudioDG.exe"),
    ]);
    assert_eq!(kept.len(), 1);
    assert_eq!(kept[0].exe_name, "spotify.exe");
}

#[test]
fn language_migration_happens_once() {
    let mut config = AppConfig::default();
    config.language = "es".to_string();
    assert!(migrate_language(&mut config));
    assert_eq!(config.language, "en");
    assert!(config.language_migrated);
    config.language = "es".to_string();
    assert!(!migrate_language(&mut config));
    assert_eq!(config.language, "es");
    let mut other = AppConfig::default();
    other.language = "fr".to_string();
    assert!(migrate_language(&mut other));
    assert_eq!(other.language, "fr");
}

#[test]
fn list_app_groups_hides_recent_apps_unless_asked() {
    let mut engine = fresh_engine();
    let mut recent = session(5, Some("old.exe"), "Old");
    recent.state = PlaybackState::Expired;
    let playing = session(6, Some("new.exe"), "New");
    let groups = engine.list_app_groups(&[recent.clone(), playing.clone()]);
    assert_eq!(groups.len(), 1);
    assert_eq!(groups[0].id, "new.exe");
    let mut config = engine.config();
    config.show_inactive_recent = true;
    engine.update_config(config);
    assert_eq!(engine.list_app_groups(&[recent, playing]).len(), 2);
}
