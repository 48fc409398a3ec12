use audio_core::com::{ComApartment, RPC_E_CHANGED_MODE};
use audio_core::config::{AppConfig, ThemePreference};
use audio_core::error::AudioError;
use audio_core::loopback::{
    monitor_copy_bytes, monitor_frames_to_write, plan_shared_capture, process_loopback_supported, LoopbackMode,
};
use audio_core::paths::{file_name_chars, join};
use audio_core::persist::{PersistedState, StateStore};
use audio_core::protection::ProtectionEngine;
use audio_core::report::DiagnosticReport;
use audio_core::text::{
    eq_ignore_ascii_case, join_strings, signed_decimal_string, str_contains, to_ascii_lowercase,
};
use audio_core::types::{AppIdentity, DeviceChangeBehavior, PlaybackState, ProtectionMode};
use audio_core::{KNOWN_VIRTUAL_DEVICE_HINTS, SHARED_DEVICE_FRIENDLY_NAME, VERSION};

#[test]
fn com_initialisation_results() {
    let a = ComApartment::from_init_result(0).unwrap();
    assert!(a.must_uninitialize());
    let b = ComApartment::from_init_result(1).unwrap();
    assert!(!b.must_uninitialize());
    let c = ComApartment::from_init_result(RPC_E_CHANGED_MODE).unwrap();
    assert!(!c.initialized_here);
    assert_eq!(RPC_E_CHANGED_MODE as u32, 0x8001_0106);
    assert_eq!(ComApartment::from_init_result(-2147024882).unwrap_err(), -2147024882);
}

#[test]
fn default_configuration() {
    let c = AppConfig::default();
    assert_eq!(c.theme, ThemePreference::System);
    assert_eq!(c.mode, ProtectionMode::Automatic);
    assert!(!c.start_with_windows);
    assert!(c.minimize_to_tray && c.close_to_tray && c.restore_on_exit && c.auto_recover_on_start);
    assert!(!c.show_inactive_recent);
    assert_eq!(c.device_change_behavior, DeviceChangeBehavior::AutoFollow);
    assert!(c.excluded_apps.is_empty());
    assert_eq!(c.language, "en");
    assert!(!c.language_migrated);
    let s = PersistedState::default();
    assert!(s.incomplete_session.is_none() && s.last_protection.is_none());
}

#[test]
fn error_texts() {
    assert_eq!(AudioError::message("hola".to_string()).describe(), "hola");
    let e = AudioError::from_hresult(-2147024809, "Activate");
    match &e {
        AudioError::Com(code, msg) => {
            assert_eq!(*code, 0x8007_0057);
            assert_eq!(msg, "Activate (HRESULT 0x80070057)");
        },
        other => panic!("unexpected {:?}", other),
    }
    assert_eq!(e.describe(), "COM error 0x80070057: Activate (HRESULT 0x80070057)");
    assert_eq!(AudioError::DeviceNotFound("x".to_string()).describe(), "device not found: x");
    assert_eq!(AudioError::SessionNotFound("s".to_string()).describe(), "session not found: s");
    assert_eq!(AudioError::ProtectionAlreadyActive.describe(), "protection is already active");
    assert_eq!(AudioError::ProtectionNotActive.describe(), "protection is not active");
    assert_eq!(
        AudioError::SharedDeviceUnavailable("m".to_string()).describe(),
        "shared output device is not available: m"
    );
    assert_eq!(
        AudioError::PhysicalDeviceUnavailable("m".to_string()).describe(),
        "physical output device is not available: m"
    );
    assert_eq!(AudioError::Io("denied".to_string()).describe(), "io error: denied");
    assert_eq!(AudioError::Json("eof".to_string()).describe(), "json error: eof");
}

#[test]
fn playback_labels() {
    assert_eq!(PlaybackState::Inactive.as_label(), "Inactiva");
    assert_eq!(PlaybackState::Active.as_label(), "Reproduciendo audio");
    assert_eq!(PlaybackState::Expired.as_label(), "Reciente");
    assert_eq!(PlaybackState::Unknown.as_label(), "Desconocido");
    assert!(PlaybackState::Active.rank() > PlaybackState::Inactive.rank());
    assert!(PlaybackState::Expired.rank() > PlaybackState::Unknown.rank());
}

#[test]
fn identities_match_paths() {
    let id = AppIdentity::from_exe("Discord.EXE");
    assert_eq!(id.exe_name, "discord.exe");
    assert!(id.exe_path.is_none() && id.display_name.is_none());
    assert!(id.matches_path("C:\\Users\\u\\AppData\\Local\\Discord\\app-1.0\\Discord.exe"));
    assert!(!id.matches_path("C:\\Apps\\discord2.exe"));
    assert!(id.matches_path("D:\\PORTABLE\\DISCORD.exe"));
    let full = AppIdentity {
        exe_name: "other.exe".to_string(),
        exe_path: Some("C:\\Apps\\Zoom.exe".to_string()),
        display_name: None,
    };
    assert!(full.matches_path("c:\\apps\\ZOOM.EXE"));
    assert!(!full.matches_path("C:\\Apps\\Teams.exe"));
}

#[test]
fn capture_plans() {
    let p = plan_shared_capture(&[]);
    assert_eq!(p.mode, LoopbackMode::DeviceLoopback);
    assert!(p.target_pids.is_empty());
    assert_eq!(p.notes.len(), 3);
    assert_eq!(p.notes[2], "Sin PIDs excluidos: loopback de dispositivo completo.");
    let p = plan_shared_capture(&[7, 9]);
    assert_eq!(p.mode, LoopbackMode::ExcludeProcessTrees);
    assert_eq!(p.target_pids, vec![7, 9]);
    assert_eq!(p.notes[0], "La captura de loopback por proceso requiere Windows 10 2004+ / Windows 11.");
    assert_eq!(p.notes[2], "Se excluirán 2 procesos raíz de la captura de verificación.");
}

#[test]
fn process_loopback_availability() {
    assert!(process_loopback_supported(Some(19041)));
    assert!(process_loopback_supported(Some(22631)));
    assert!(!process_loopback_supported(Some(19040)));
    assert!(process_loopback_supported(None));
}

#[test]
fn monitor_buffer_room() {
    assert_eq!(monitor_frames_to_write(100, 480, 400), 80);
    assert_eq!(monitor_frames_to_write(50, 480, 400), 50);
    assert_eq!(monitor_frames_to_write(50, 480, 500), 0);
    assert_eq!(monitor_frames_to_write(0, 480, 0), 0);
    assert_eq!(monitor_copy_bytes(80, 8), 640);
}

#[test]
fn state_store_paths() {
    assert_eq!(StateStore::default_path(Some("C:\\L")).unwrap(), "C:\\L\\NoEcho\\state.json");
    assert_eq!(StateStore::logs_dir(Some("C:\\L")).unwrap(), "C:\\L\\NoEcho\\logs");
    match StateStore::default_path(None) {
        Err(AudioError::Message(m)) => assert_eq!(m, "no se pudo resolver AppData\\Local"),
        other => panic!("unexpected {:?}", other),
    }
    let store = StateStore::open_default(Some("C:\\L")).unwrap();
    assert_eq!(store.path(), "C:\\L\\NoEcho\\state.json");
    assert_eq!(StateStore::open("x.json".to_string()).path(), "x.json");
    assert!(StateStore::open_default(None).is_err());
}

#[test]
fn diagnostic_report() {
    let (engine, _) = ProtectionEngine::initialize(PersistedState::default(), None);
    let status = engine.status(&[]);
    let mut state = PersistedState::default();
    let report = DiagnosticReport::build(
        status,
        vec![],
        vec![],
        vec![],
        &state,
        vec!["n".to_string()],
        "2024-01-01T00:00:00+00:00".to_string(),
        "windows".to_string(),
    );
    assert_eq!(report.app_version, VERSION);
    assert_eq!(report.os, "windows");
    assert!(!report.incomplete_session);
    assert_eq!(report.notes, vec!["n".to_string()]);
    assert!(!report.protection.active);
    state.incomplete_session = Some(audio_core::persist::IncompleteSession {
        created_at: String::new(),
        previous_default_multimedia_id: None,
        previous_default_communications_id: None,
        physical_device_id: None,
        shared_device_id: None,
        excluded_apps: vec![],
        muted_feedback_sessions: vec![],
        reason: String::new(),
    });
    let report = DiagnosticReport::build(
        engine.status(&[]),
        vec![],
        vec![],
        vec![],
        &state,
        vec![],
        String::new(),
        String::new(),
    );
    assert!(report.incomplete_session);
}

#[test]
fn constants() {
    assert_eq!(VERSION, "0.1.0");
    assert_eq!(SHARED_DEVICE_FRIENDLY_NAME, "Audio compartido");
    assert_eq!(KNOWN_VIRTUAL_DEVICE_HINTS.len(), 9);
}

#[test]
fn text_helpers() {
    assert_eq!(to_ascii_lowercase("MiXeD \u{c9}"), "mixed \u{c9}");
    assert!(eq_ignore_ascii_case("ABC", "abc"));
    assert!(!eq_ignore_ascii_case("ABC", "abd"));
    assert!(str_contains("hello world", "o w"));
    assert!(!str_contains("hello", "world"));
    assert_eq!(signed_decimal_string(-45), "-45");
    assert_eq!(signed_decimal_string(i32::MAX), "2147483647");
    assert_eq!(join_strings(&["a".to_string(), "b".to_string(), "c".to_string()], ", "), "a, b, c");
    assert_eq!(join_strings(&[], ", "), "");
}

#[test]
fn path_helpers() {
    assert_eq!(join("C:\\a", "b"), "C:\\a\\b");
    assert_eq!(join("C:\\a\\", "b"), "C:\\a\\b");
    assert_eq!(join("C:/a/", "b"), "C:/a/b");
    assert_eq!(join("", "b"), "b");
    assert_eq!(join("C:", "b"), "C:b");
    assert_eq!(file_name_chars("C:\\a\\b.txt").map(|v| v.into_iter().collect::<String>()), Some("b.txt".to_string()));
    assert_eq!(file_name_chars("C:"), None);
}
