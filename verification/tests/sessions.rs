use audio_core::grouping::{group_sessions, AppAudioGroup};
use audio_core::sessions::{pretty_app_name, session_display_name, AudioSessionInfo, RawSession, SessionService};
use audio_core::types::{AppIdentity, PlaybackState};

fn raw(pid: u32, name: &str, path: Option<&str>) -> RawSession {
    RawSession {
        index: 3,
        pid,
        state: PlaybackState::Active,
        display_name: name.to_string(),
        icon_path: None,
        session_identifier: None,
        session_instance_identifier: None,
        reports_system_sounds: false,
        volume_bits: 1.0f32.to_bits(),
        muted: false,
        process_path: path.map(|p| p.to_string()),
        exe_icon_data_url: None,
        session_icon_data_url: None,
        device_id: Some("dev".to_string()),
        device_name: Some("Speakers".to_string()),
    }
}

fn session(pid: u32, exe: Option<&str>, display: &str, state: PlaybackState, volume: f32) -> AudioSessionInfo {
    AudioSessionInfo {
        session_id: format!("s{pid}"),
        pid,
        display_name: display.to_string(),
        exe_path: exe.map(|e| format!("C:\\Apps\\{e}")),
        exe_name: exe.map(|e| e.to_string()),
        icon_path: None,
        icon_data_url: None,
        state,
        is_system_sounds: pid == 0,
        volume_bits: volume.to_bits(),
        muted: false,
        device_id: None,
        device_name: None,
    }
}

#[test]
fn pretty_names_of_executables() {
    assert_eq!(pretty_app_name("discord.exe"), "Discord");
    assert_eq!(pretty_app_name("obs64.EXE"), "Obs64");
    assert_eq!(pretty_app_name("app.exe.exe"), "App");
    assert_eq!(pretty_app_name("1password.exe"), "1password");
    assert_eq!(pretty_app_name(""), "");
    assert_eq!(pretty_app_name(".exe"), "");
}

#[test]
fn pretty_names_use_unicode_uppercase() {
    assert_eq!(pretty_app_name("\u{e9}cran.exe"), "\u{c9}cran");
    assert_eq!(pretty_app_name("\u{df}x.exe"), "SSx");
}

#[test]
fn display_names_of_sessions() {
    assert_eq!(session_display_name("Spotify", Some("spotify.exe"), false, 9), "Spotify");
    assert_eq!(session_display_name("", Some("discord.exe"), false, 9), "Discord");
    assert_eq!(session_display_name("@%SystemRoot%\\System32\\AudioSrv.Dll,-202", None, true, 0), "Sonidos de Windows");
    assert_eq!(session_display_name("", None, false, 42), "Proceso 42");
}

#[test]
fn describing_a_session() {
    let svc = SessionService::new();
    let mut r = raw(42, "", Some("C:\\Apps\\Discord.exe"));
    r.icon_path = Some(String::new());
    r.session_icon_data_url = Some("data:b".to_string());
    let s = svc.describe_session(r);
    assert_eq!(s.session_id, "pid-42-3");
    assert_eq!(s.display_name, "Discord");
    assert_eq!(s.exe_name.as_deref(), Some("Discord.exe"));
    assert_eq!(s.icon_path, None);
    assert_eq!(s.icon_data_url.as_deref(), Some("data:b"));
    assert!(!s.is_system_sounds);
    assert_eq!(s.device_name.as_deref(), Some("Speakers"));
}

#[test]
fn describing_the_system_session() {
    let svc = SessionService::new();
    let mut r = raw(0, "@res", Some("C:\\ignored.exe"));
    r.reports_system_sounds = true;
    r.session_identifier = Some("sid".to_string());
    r.exe_icon_data_url = Some("data:a".to_string());
    r.session_icon_data_url = Some("data:b".to_string());
    let s = svc.describe_session(r);
    assert_eq!(s.session_id, "sid");
    assert_eq!(s.display_name, "Sonidos de Windows");
    assert_eq!(s.exe_path, None);
    assert!(s.is_system_sounds);
    assert_eq!(s.icon_data_url.as_deref(), Some("data:a"));
}

#[test]
fn instance_identifier_wins() {
    let svc = SessionService::new();
    let mut r = raw(5, "x", None);
    r.session_identifier = Some("sid".to_string());
    r.session_instance_identifier = Some("iid".to_string());
    assert_eq!(svc.describe_session(r).session_id, "iid");
}

#[test]
fn sessions_are_listed_playing_first_then_by_name() {
    let svc = SessionService::new();
    let list = vec![
        session(1, Some("b.exe"), "beta", PlaybackState::Inactive, 1.0),
        session(2, Some("a.exe"), "Alpha", PlaybackState::Inactive, 1.0),
        session(3, Some("c.exe"), "gamma", PlaybackState::Active, 1.0),
        session(4, Some("d.exe"), "delta", PlaybackState::Unknown, 1.0),
        session(5, Some("e.exe"), "ALPHA", PlaybackState::Inactive, 1.0),
        session(6, Some("f.exe"), "zeta", PlaybackState::Expired, 1.0),
    ];
    let sorted = svc.list_sessions(list);
    let pids: Vec<u32> = sorted.iter().map(|s| s.pid).collect();
    assert_eq!(pids, vec![3, 2, 5, 1, 6, 4]);
}

#[test]
fn session_instance_lookup() {
    let svc = SessionService::new();
    let ids = vec![None, Some("a".to_string()), Some("b".to_string()), Some("b".to_string())];
    assert_eq!(svc.find_session_instance(&ids, "b"), Some(2));
    assert_eq!(svc.find_session_instance(&ids, "z"), None);
}

fn group<'a>(groups: &'a [AppAudioGroup], id: &str) -> &'a AppAudioGroup {
    groups.iter().find(|g| g.id == id).expect("group")
}

#[test]
fn sessions_are_grouped_by_executable() {
    let mut discord_a = session(20, Some("Discord.exe"), "Proceso 20", PlaybackState::Inactive, 0.5);
    discord_a.device_name = Some("Speakers".to_string());
    let mut discord_b = session(21, Some("discord.exe"), "Discord", PlaybackState::Active, 0.75);
    discord_b.device_name = Some("Headset".to_string());
    let mut discord_c = session(20, Some("DISCORD.EXE"), "", PlaybackState::Expired, 0.25);
    discord_c.device_name = Some("Speakers".to_string());
    let system = session(0, None, "Sonidos de Windows", PlaybackState::Inactive, 1.0);
    let unknown = session(77, None, "Proceso 77", PlaybackState::Unknown, 0.0);
    let explorer = session(30, Some("explorer.exe"), "Explorer", PlaybackState::Active, 1.0);
    let list = vec![discord_a, discord_b, discord_c, system, unknown, explorer];
    let excluded = vec![AppIdentity::from_exe("Discord.exe")];
    let groups = group_sessions(&list, &excluded);
    assert_eq!(groups.len(), 4);

    let d = group(&groups, "discord.exe");
    assert_eq!(d.exe_name, "Discord.exe");
    assert_eq!(d.display_name, "Discord");
    assert_eq!(d.state, PlaybackState::Active);
    assert_eq!(d.session_count, 3);
    assert_eq!(d.pids, vec![20, 21]);
    assert!(d.excluded);
    assert!(!d.is_critical && !d.is_system);
    assert_eq!(d.volume_bits, 0.75f32.to_bits());
    assert_eq!(d.device_names, vec!["Headset".to_string(), "Speakers".to_string()]);
    assert_eq!(d.identity.exe_name, "discord.exe");
    assert_eq!(d.identity.display_name.as_deref(), Some("Discord"));
    assert_eq!(d.state_label(), "3 sesiones de audio");

    let s = group(&groups, "system-sounds");
    assert!(s.is_system && s.is_critical);
    assert!(s.pids.is_empty());
    assert_eq!(s.state_label(), "Inactiva");

    let p = group(&groups, "pid:77");
    assert_eq!(p.exe_name, "pid:77");
    assert_eq!(p.display_name, "Proceso 77");
    assert_eq!(p.state_label(), "Desconocido");

    let e = group(&groups, "explorer.exe");
    assert!(e.is_critical && !e.excluded);
    assert_eq!(e.state_label(), "Reproduciendo audio");

    let order: Vec<&str> = groups.iter().map(|g| g.id.as_str()).collect();
    assert_eq!(order, vec!["discord.exe", "explorer.exe", "system-sounds", "pid:77"]);
}

#[test]
fn groups_match_excluded_paths_ignoring_case() {
    let list = vec![session(5, Some("zoom.exe"), "Zoom", PlaybackState::Active, 1.0)];
    let excluded = vec![AppIdentity {
        exe_name: "other.exe".to_string(),
        exe_path: Some("c:\\APPS\\ZOOM.EXE".to_string()),
        display_name: None,
    }];
    let groups = group_sessions(&list, &excluded);
    assert!(groups[0].excluded);
    assert_eq!(groups[0].state_label(), "Reproduciendo audio");
}

#[test]
fn group_session_counts_add_up_to_the_sessions() {
    let list = vec![
        session(1, Some("a.exe"), "A", PlaybackState::Active, 1.0),
        session(2, Some("A.EXE"), "A", PlaybackState::Inactive, 1.0),
        session(3, None, "Proceso 3", PlaybackState::Unknown, 0.0),
        session(4, Some(""), "Proceso 4", PlaybackState::Expired, 0.0),
        session(0, None, "Sonidos de Windows", PlaybackState::Inactive, 1.0),
        session(5, Some("b.exe"), "B", PlaybackState::Active, 1.0),
        session(6, Some("b.exe"), "B", PlaybackState::Active, 1.0),
    ];
    let groups = group_sessions(&list, &[]);
    assert_eq!(groups.len(), 5);
    let total: usize = groups.iter().map(|g| g.session_count).sum();
    assert_eq!(total, list.len());
}

#[test]
fn one_nonempty_group_per_family_key() {
    let list = vec![
        session(1, Some("a.exe"), "A", PlaybackState::Active, 1.0),
        session(2, Some("A.exe"), "A", PlaybackState::Active, 1.0),
        session(3, None, "Proceso 3", PlaybackState::Unknown, 0.0),
        session(0, None, "Sonidos de Windows", PlaybackState::Inactive, 1.0),
    ];
    let groups = group_sessions(&list, &[]);
    // Keys: a.exe, pid:3, system-sounds.
    assert_eq!(groups.len(), 3);
    assert!(groups.iter().all(|g| g.session_count > 0));
}
