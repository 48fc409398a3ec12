use audio_core::devices::{AudioDevice, DEVICE_STATE_ACTIVE};
use audio_core::error::AudioError;
use audio_core::setup::{
    attempt_finishes, attempt_result_line, detected_line, expand_archive_command, extraction_dir,
    extraction_failed_error, extraction_start_error, find_exe_in_dir, find_prepare_payload, installer_attempts,
    installer_command, installer_exit_line, installer_start_error, is_zip_payload, payload_roots, prepare_marker_path,
    prepare_work_dir, running_line, staged_line, staged_payload_path, using_payload_line, work_dir_line,
    zip_without_exe_error, next_prepare_step, PayloadRoot, PrepareEvent, PrepareStep, SetupService, SetupState,
    INSTALLER_FALLBACK_CODE, PAYLOAD_NAMES,
    PREPARE_POLL_ATTEMPTS, PREPARE_POLL_INTERVAL_MS,
};

fn device(id: &str, name: &str, physical: bool) -> AudioDevice {
    AudioDevice {
        id: id.to_string(),
        name: name.to_string(),
        description: None,
        is_default_multimedia: false,
        is_default_communications: false,
        is_virtual_shared_candidate: !physical,
        is_physical_candidate: physical,
        state: DEVICE_STATE_ACTIVE,
    }
}

fn root(path: &str, exists: bool, is_file: bool, named: Vec<bool>, entries: Vec<&str>) -> PayloadRoot {
    PayloadRoot {
        path: path.to_string(),
        exists,
        is_file,
        named,
        entries: entries.into_iter().map(|e| e.to_string()).collect(),
    }
}

fn message_of(e: AudioError) -> String {
    match e {
        AudioError::Message(m) => m,
        other => panic!("unexpected {:?}", other),
    }
}

#[test]
fn ready_when_a_shared_channel_exists() {
    let devs = vec![device("s", "Speakers", true), device("c", "CABLE Input (VB-Audio Virtual Cable)", false)];
    let st = SetupService::status(&devs, None);
    assert_eq!(st.state, SetupState::Ready);
    assert!(st.ready);
    assert_eq!(st.title, "Todo listo");
    assert_eq!(st.message, "Ya se puede ocultar audio del escritorio remoto.");
    assert_eq!(st.detail.as_deref(), Some("Canal detectado: CABLE Input (VB-Audio Virtual Cable)"));
    assert_eq!(st.shared_device_name.as_deref(), Some("CABLE Input (VB-Audio Virtual Cable)"));
    assert!(!st.can_prepare_automatically);
    assert_eq!(st.prepare_button_label, "Preparar canal compartido (opcional)");
}

#[test]
fn needs_preparation_with_a_payload_and_cable_a() {
    let devs = vec![device("s", "Speakers", true), device("a", "CABLE-A Input", false)];
    let st = SetupService::status(&devs, Some("C:\\payload\\VBCABLE_Setup_x64.exe"));
    assert_eq!(st.state, SetupState::NeedsPrepare);
    assert!(!st.ready);
    assert_eq!(st.title, "Opcional: preparar canal compartido");
    assert_eq!(
        st.message,
        "Si esta PC no tiene un canal de audio compartido, puedes prepararlo una sola vez con el boton de abajo. Detecte Cable A/B, pero NoEcho no los usara para no tocar tu microfono."
    );
    assert_eq!(st.detail.as_deref(), Some("Paquete encontrado: C:\\payload\\VBCABLE_Setup_x64.exe"));
    assert!(st.can_prepare_automatically);
    assert_eq!(st.shared_device_name, None);
}

#[test]
fn needs_preparation_without_payload() {
    let devs = vec![device("s", "Speakers", true)];
    let st = SetupService::status(&devs, None);
    assert_eq!(
        st.message,
        "NoEcho funciona con el canal compartido que ya tengas en esta PC. Si no hay ninguno, puedes instalar uno o elegirlo en Opciones."
    );
    assert_eq!(st.detail, None);
    assert!(!st.can_prepare_automatically);
}

#[test]
fn no_outputs_at_all() {
    let st = SetupService::status(&[], Some("C:\\p.exe"));
    assert_eq!(st.detail.as_deref(), Some("No se detectaron salidas de audio."));
    assert!(st.can_prepare_automatically);
}

#[test]
fn payload_search_roots() {
    let roots = payload_roots(Some("C:\\Users\\u\\AppData\\Local"), Some("C:\\Program Files\\NoEcho"), Some("D:\\work\\"));
    assert_eq!(
        roots,
        vec![
            "C:\\Users\\u\\AppData\\Local\\NoEcho\\payload",
            "C:\\Program Files\\NoEcho\\payload",
            "C:\\Program Files\\NoEcho\\resources\\payload",
            "C:\\Program Files\\NoEcho\\resources",
            "C:\\Program Files\\NoEcho",
            "D:\\work\\installer\\payload",
            "D:\\work\\payload",
        ]
    );
    assert!(payload_roots(None, None, None).is_empty());
    assert_eq!(payload_roots(None, None, Some("D:")), vec!["D:installer\\payload", "D:payload"]);
}

#[test]
fn payload_names_in_order() {
    assert_eq!(PAYLOAD_NAMES.len(), 12);
    assert_eq!(PAYLOAD_NAMES[0], "NoEchoAudioSetup.exe");
    assert_eq!(PAYLOAD_NAMES[11], "VBCABLE_B_Driver_Pack43.zip");
}

#[test]
fn payload_found_by_known_name() {
    let mut named = vec![false; 12];
    named[4] = true;
    named[6] = true;
    let roots = vec![
        root("C:\\missing", false, false, vec![true; 12], vec!["C:\\missing\\audio.exe"]),
        root("C:\\dir", true, false, named, vec!["C:\\dir\\vbcable-setup.exe"]),
    ];
    assert_eq!(find_prepare_payload(&roots), Some("C:\\dir\\VBCABLE_Driver_Pack45.zip".to_string()));
}

#[test]
fn payload_root_that_is_a_file() {
    let roots = vec![root("C:\\setup.exe", true, true, vec![], vec![]), root("C:\\dir", true, false, vec![true; 12], vec![])];
    assert_eq!(find_prepare_payload(&roots), Some("C:\\setup.exe".to_string()));
}

#[test]
fn payload_found_among_entries() {
    let roots = vec![
        root("C:\\a", true, false, vec![], vec!["C:\\a\\readme.txt", "C:\\a\\audio.txt", "C:\\a\\Other.exe"]),
        root(
            "C:\\b",
            true,
            false,
            vec![false; 12],
            vec!["C:\\b\\notes.zip", "C:\\b\\My-VB-Cable.ZIP", "C:\\b\\audio.exe"],
        ),
    ];
    assert_eq!(find_prepare_payload(&roots), Some("C:\\b\\My-VB-Cable.ZIP".to_string()));
    assert_eq!(find_prepare_payload(&roots[..1]), None);
}

#[test]
fn installer_inside_an_archive() {
    let files = vec![
        "C:\\x\\readme.txt".to_string(),
        "C:\\x\\helper.exe".to_string(),
        "C:\\x\\sub\\VBCABLE_Setup_x64.EXE".to_string(),
        "C:\\x\\install.exe".to_string(),
    ];
    assert_eq!(find_exe_in_dir(&files), Some("C:\\x\\sub\\VBCABLE_Setup_x64.EXE".to_string()));
    assert_eq!(find_exe_in_dir(&files[..2]), Some("C:\\x\\helper.exe".to_string()));
    assert_eq!(find_exe_in_dir(&["C:\\x\\.exe".to_string(), "C:\\x\\a.txt".to_string()]), None);
    assert_eq!(find_exe_in_dir(&[]), None);
}

#[test]
fn zip_payloads() {
    assert!(is_zip_payload("C:\\p\\VBCABLE_Driver_Pack45.zip"));
    assert!(is_zip_payload("C:\\p\\PACK.ZIP"));
    assert!(!is_zip_payload("C:\\p\\setup.exe"));
    assert!(!is_zip_payload("C:\\p\\.zip"));
    assert!(!is_zip_payload("C:\\p\\zip"));
}

#[test]
fn work_paths() {
    assert_eq!(prepare_work_dir(Some("C:\\L")).unwrap(), "C:\\L\\NoEcho\\setup");
    assert_eq!(prepare_marker_path(Some("C:\\L")).unwrap(), "C:\\L\\NoEcho\\setup-marker.json");
    assert_eq!(message_of(prepare_work_dir(None).unwrap_err()), "No se pudo usar AppData");
    assert_eq!(message_of(prepare_marker_path(None).unwrap_err()), "No se pudo usar AppData");
    assert_eq!(extraction_dir("C:\\w"), "C:\\w\\extracted");
    assert_eq!(staged_payload_path("C:\\w", "D:\\p\\setup.exe"), "C:\\w\\setup.exe");
    assert_eq!(staged_payload_path("C:\\w", "D:\\"), "C:\\w\\");
}

#[test]
fn error_messages() {
    assert_eq!(message_of(zip_without_exe_error()), "El paquete ZIP no contiene un instalador .exe");
    assert_eq!(message_of(extraction_failed_error()), "Falló la extracción del paquete de audio");
    assert_eq!(message_of(extraction_start_error("denegado")), "No se pudo extraer el ZIP: denegado");
    assert_eq!(message_of(installer_start_error("denegado")), "No se pudo iniciar el preparativo: denegado");
    assert_eq!(
        message_of(SetupService::missing_payload_error()),
        "No se encontró el paquete de preparación de audio. Usa el instalador completo de NoEcho."
    );
}

#[test]
fn powershell_commands() {
    assert_eq!(
        expand_archive_command("C:\\p.zip", "C:\\w\\extracted"),
        "Expand-Archive -LiteralPath 'C:\\p.zip' -DestinationPath 'C:\\w\\extracted' -Force"
    );
    assert_eq!(
        installer_command("C:\\w\\setup.exe", &[]),
        "$p = Start-Process -FilePath 'C:\\w\\setup.exe' -Verb RunAs -Wait -PassThru; exit $p.ExitCode"
    );
    assert_eq!(
        installer_command("C:\\w\\setup.exe", &["-i".to_string(), "it's".to_string()]),
        "$p = Start-Process -FilePath 'C:\\w\\setup.exe' -ArgumentList @('-i','it''s') -Verb RunAs -Wait -PassThru; exit $p.ExitCode"
    );
}

#[test]
fn installer_attempt_sequence() {
    let attempts = installer_attempts();
    assert_eq!(
        attempts,
        vec![
            vec!["-i".to_string(), "-h".to_string()],
            vec!["/S".to_string()],
            vec!["/silent".to_string()],
            vec!["/quiet".to_string()],
            vec![],
        ]
    );
    assert!(attempt_finishes(0, false));
    assert!(!attempt_finishes(1223, false));
    assert!(attempt_finishes(-1, true));
    assert_eq!(INSTALLER_FALLBACK_CODE, 1);
    assert_eq!(PREPARE_POLL_ATTEMPTS, 10);
    assert_eq!(PREPARE_POLL_INTERVAL_MS, 800);
}

#[test]
fn log_lines() {
    assert_eq!(running_line("C:\\s.exe", &["-i".to_string(), "-h".to_string()]), "Ejecutando: C:\\s.exe -i -h");
    assert_eq!(running_line("C:\\s.exe", &[]), "Ejecutando: C:\\s.exe ");
    assert_eq!(attempt_result_line(-1), "Resultado intento: -1");
    assert_eq!(attempt_result_line(0), "Resultado intento: 0");
    assert_eq!(installer_exit_line(1223), "Instalador terminó con código 1223");
    assert_eq!(installer_exit_line(i32::MIN), "Instalador terminó con código -2147483648");
    assert_eq!(detected_line(3), "Canal detectado en el intento 3.");
    assert_eq!(using_payload_line("C:\\p.exe"), "Usando paquete: C:\\p.exe");
    assert_eq!(work_dir_line("C:\\w"), "Carpeta temporal: C:\\w");
    assert_eq!(staged_line("C:\\w\\p.exe"), "Paquete preparado: C:\\w\\p.exe");
}

#[test]
fn preparation_results() {
    let devs = vec![device("c", "Audio compartido", false)];
    let ready = SetupService::status(&devs, None);
    let r = SetupService::already_ready_result(ready.clone());
    assert!(r.success);
    assert_eq!(r.log, vec!["El canal compartido ya estaba listo.".to_string()]);
    assert_eq!(r.status.title, "Todo listo");

    let r = SetupService::prepared_result(ready, vec!["a".to_string()]);
    assert!(r.success);
    assert_eq!(r.status.message, "Listo. Ya puedes ocultar apps del escritorio remoto.");
    assert_eq!(r.status.state, SetupState::Ready);
    assert_eq!(r.log, vec!["a".to_string()]);

    let pending = SetupService::status(&[], None);
    let r = SetupService::unprepared_result(pending, vec![]);
    assert!(!r.success);
    assert_eq!(r.status.state, SetupState::Failed);
    assert_eq!(r.status.title, "No se completó el preparativo");
    assert_eq!(
        r.status.message,
        "Se ejecutó el preparativo, pero Windows todavía no muestra el canal compartido. Reinicia la PC e intenta de nuevo."
    );
    assert_eq!(r.status.detail.as_deref(), Some("No se detectaron salidas de audio."));
}

#[test]
fn preparation_steps() {
    let mut log: Vec<String> = Vec::new();
    assert!(matches!(next_prepare_step(PrepareEvent::Started { ready: true }, &mut log), PrepareStep::AlreadyReady));
    assert!(matches!(next_prepare_step(PrepareEvent::Started { ready: false }, &mut log), PrepareStep::FindPayload));
    match next_prepare_step(PrepareEvent::PayloadSearched { payload: None }, &mut log) {
        PrepareStep::Fail(AudioError::Message(m)) => {
            assert_eq!(m, "No se encontró el paquete de preparación de audio. Usa el instalador completo de NoEcho.")
        },
        other => panic!("unexpected {:?}", other),
    }
    assert!(log.is_empty());
    match next_prepare_step(PrepareEvent::PayloadSearched { payload: Some("C:\\p.zip".to_string()) }, &mut log) {
        PrepareStep::Stage { payload } => assert_eq!(payload, "C:\\p.zip"),
        other => panic!("unexpected {:?}", other),
    }
    match next_prepare_step(PrepareEvent::Staged { exe: "C:\\w\\setup.exe".to_string() }, &mut log) {
        PrepareStep::Install { exe } => assert_eq!(exe, "C:\\w\\setup.exe"),
        other => panic!("unexpected {:?}", other),
    }
    assert!(matches!(
        next_prepare_step(PrepareEvent::InstallerExited { code: -3 }, &mut log),
        PrepareStep::Poll { attempt: 1 }
    ));
    assert!(matches!(
        next_prepare_step(PrepareEvent::ChannelChecked { attempt: 1, present: false }, &mut log),
        PrepareStep::Poll { attempt: 2 }
    ));
    assert!(matches!(
        next_prepare_step(PrepareEvent::ChannelChecked { attempt: 10, present: false }, &mut log),
        PrepareStep::Finish { prepared: false }
    ));
    assert!(matches!(
        next_prepare_step(PrepareEvent::ChannelChecked { attempt: 4, present: true }, &mut log),
        PrepareStep::Finish { prepared: true }
    ));
    assert_eq!(
        log,
        vec![
            "Usando paquete: C:\\p.zip".to_string(),
            "Paquete preparado: C:\\w\\setup.exe".to_string(),
            "Instalador terminó con código -3".to_string(),
            "Canal detectado en el intento 4.".to_string(),
        ]
    );
}
