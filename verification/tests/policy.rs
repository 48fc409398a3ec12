use audio_core::devices::SystemRole;
use audio_core::error::AudioError;
use audio_core::policy::{
    assignment_role_calls, assignment_succeeded, default_change_refused_error, policy_client_error,
    policy_unavailable_error, route_refused_error,
    app_endpoint_outcome, clear_app_default_endpoint, combine_results, full_render_device_id, pids_for_process_path,
    set_app_default_endpoint, set_process_default_endpoint, set_process_default_endpoints,
    set_session_endpoint_by_pid,
};
use audio_core::process::ProcessInfo;

const FULL: &str = "\\\\?\\SWD#MMDEVAPI#{0.0.0.00000000}.{abc}#{e6327cad-dcec-4949-ae8a-991e976a79d2}";

fn proc_info(pid: u32, path: Option<&str>) -> ProcessInfo {
    ProcessInfo { pid, exe_path: path.map(|p| p.to_string()), exe_name: None, parent_pid: None }
}

#[test]
fn short_ids_get_the_full_form() {
    assert_eq!(full_render_device_id("{0.0.0.00000000}.{abc}"), FULL);
}

#[test]
fn full_ids_are_kept() {
    assert_eq!(full_render_device_id(FULL), FULL);
}

#[test]
fn full_form_is_idempotent() {
    for id in ["", "x", "{0.0.0.00000000}.{abc}", FULL] {
        let once = full_render_device_id(id);
        assert_eq!(full_render_device_id(&once), once);
    }
}

#[test]
fn process_zero_cannot_be_routed() {
    for r in [
        set_process_default_endpoint(0, "x"),
        set_session_endpoint_by_pid(0, "x"),
        set_process_default_endpoints(0, "x", "y"),
    ] {
        match r {
            Err(AudioError::Message(m)) => assert_eq!(m, "no se puede enrutar el proceso 0"),
            other => panic!("unexpected {:?}", other),
        }
    }
}

#[test]
fn process_assignment_uses_full_ids() {
    let a = set_process_default_endpoints(42, "{0.0.0.00000000}.{abc}", "").unwrap();
    assert_eq!(a.pid, 42);
    assert_eq!(a.multimedia_device_id, FULL);
    assert_eq!(a.communications_device_id, "");
    let b = set_session_endpoint_by_pid(7, FULL).unwrap();
    assert_eq!(b.pid, 7);
    assert_eq!(b.multimedia_device_id, FULL);
    assert_eq!(b.communications_device_id, FULL);
}

#[test]
fn processes_by_path_ignore_case() {
    let procs = vec![
        proc_info(10, Some("C:\\Apps\\Discord.exe")),
        proc_info(11, Some("c:\\apps\\discord.EXE")),
        proc_info(12, Some("C:\\Apps\\Other.exe")),
        proc_info(0, Some("C:\\Apps\\Discord.exe")),
        proc_info(13, None),
    ];
    assert_eq!(pids_for_process_path("C:\\APPS\\DISCORD.exe", &procs), vec![10, 11]);
}

#[test]
fn app_routes_need_a_running_process() {
    let procs = vec![proc_info(10, Some("C:\\Apps\\Discord.exe"))];
    match set_app_default_endpoint("C:\\Apps\\Zoom.exe", "dev", &procs) {
        Err(AudioError::Message(m)) => assert_eq!(m, "no se encontraron procesos activos para C:\\Apps\\Zoom.exe"),
        other => panic!("unexpected {:?}", other),
    }
    let v = set_app_default_endpoint("C:\\Apps\\Discord.exe", "dev", &procs).unwrap();
    assert_eq!(v.len(), 1);
    assert_eq!(v[0].pid, 10);
    assert_eq!(v[0].multimedia_device_id, "\\\\?\\SWD#MMDEVAPI#dev#{e6327cad-dcec-4949-ae8a-991e976a79d2}");
}

#[test]
fn clearing_routes_sends_empty_ids() {
    let procs = vec![proc_info(10, Some("C:\\Apps\\Discord.exe")), proc_info(11, Some("C:\\Apps\\Discord.exe"))];
    let v = clear_app_default_endpoint("C:\\Apps\\Discord.exe", &procs);
    assert_eq!(v.len(), 2);
    assert!(v.iter().all(|a| a.multimedia_device_id.is_empty() && a.communications_device_id.is_empty()));
    assert!(clear_app_default_endpoint("C:\\none.exe", &procs).is_empty());
}

#[test]
fn batch_outcome_is_the_last_failure() {
    assert!(combine_results(&vec![]).is_ok());
    let r = combine_results(&vec![
        Err(AudioError::Message("first".to_string())),
        Ok(()),
        Err(AudioError::Message("second".to_string())),
        Ok(()),
    ]);
    match r {
        Err(AudioError::Message(m)) => assert_eq!(m, "second"),
        other => panic!("unexpected {:?}", other),
    }
}

#[test]
fn app_outcomes_as_routing_reports_them() {
    let procs = vec![proc_info(1, Some("C:\\Apps\\Discord.exe")), proc_info(2, Some("c:\\apps\\discord.exe"))];
    // No process runs it: the planning error, with no request made.
    match app_endpoint_outcome(set_app_default_endpoint("C:\\Apps\\Zoom.exe", "dev", &procs), &vec![]) {
        Err(AudioError::Message(m)) => assert_eq!(m, "no se encontraron procesos activos para C:\\Apps\\Zoom.exe"),
        other => panic!("unexpected {:?}", other),
    }
    let planned = set_app_default_endpoint("C:\\Apps\\Discord.exe", "dev", &procs);
    assert!(app_endpoint_outcome(planned, &vec![Ok(()), Ok(())]).is_ok());
    let planned = set_app_default_endpoint("C:\\Apps\\Discord.exe", "dev", &procs);
    match app_endpoint_outcome(planned, &vec![Err(AudioError::Message("a".to_string())), Ok(())]) {
        Err(AudioError::Message(m)) => assert_eq!(m, "a"),
        other => panic!("unexpected {:?}", other),
    }
    // Clearing an application no process runs succeeds.
    assert!(clear_app_default_endpoint("C:\\none.exe", &procs).is_empty());
    assert!(combine_results(&vec![]).is_ok());
}

#[test]
fn assignments_are_persisted_for_three_roles() {
    let a = set_process_default_endpoints(9, "mm", "comm").unwrap();
    let calls = assignment_role_calls(&a);
    assert_eq!(calls.len(), 3);
    assert_eq!(calls[0].0, SystemRole::Console);
    assert_eq!(calls[0].1, a.multimedia_device_id);
    assert_eq!(calls[1].0, SystemRole::Multimedia);
    assert_eq!(calls[1].1, a.multimedia_device_id);
    assert_eq!(calls[2].0, SystemRole::Communications);
    assert_eq!(calls[2].1, a.communications_device_id);
    assert!(assignment_succeeded(true, true, true));
    assert!(!assignment_succeeded(true, false, true));
}

#[test]
fn policy_error_messages() {
    let text = |e: AudioError| match e {
        AudioError::Message(m) => m,
        other => panic!("unexpected {:?}", other),
    };
    assert_eq!(text(route_refused_error(1234)), "Windows no permitió cambiar la salida de la aplicación (pid 1234)");
    assert_eq!(text(policy_unavailable_error("E")), "AudioPolicyConfig no está disponible en Windows: E");
    assert_eq!(text(policy_client_error("E")), "No se pudo crear PolicyConfigClient: E");
    assert!(text(default_change_refused_error()).starts_with("No se pudo cambiar el dispositivo predeterminado"));
}
