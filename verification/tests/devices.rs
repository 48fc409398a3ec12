use audio_core::devices::{
    is_mic_chain_virtual, is_preferred_shared_virtual, is_virtual_candidate, set_default_endpoint,
    shared_device_score, AudioDevice, DefaultRole, DeviceService, RenderEndpoint, SystemRole, DEVICE_STATE_ACTIVE,
};
use audio_core::error::AudioError;

fn device(id: &str, name: &str, physical: bool, mm: bool, comm: bool) -> AudioDevice {
    AudioDevice {
        id: id.to_string(),
        name: name.to_string(),
        description: None,
        is_default_multimedia: mm,
        is_default_communications: comm,
        is_virtual_shared_candidate: !physical,
        is_physical_candidate: physical,
        state: DEVICE_STATE_ACTIVE,
    }
}

fn endpoint(id: &str, name: Option<&str>, desc: Option<&str>) -> RenderEndpoint {
    RenderEndpoint {
        id: id.to_string(),
        friendly_name: name.map(|s| s.to_string()),
        description: desc.map(|s| s.to_string()),
    }
}

#[test]
fn shared_scores() {
    assert_eq!(shared_device_score("Audio compartido"), 0);
    assert_eq!(shared_device_score("NoEcho Shared"), 0);
    assert_eq!(shared_device_score("Steam Streaming Speakers"), 100);
    assert_eq!(shared_device_score("CABLE-A Input"), 80);
    assert_eq!(shared_device_score("Cable B Input"), 90);
    assert_eq!(shared_device_score("CABLE Input (VB-Audio Virtual Cable)"), 1);
    assert_eq!(shared_device_score("VB-Audio Point"), 2);
    assert_eq!(shared_device_score("Virtual Cable 2"), 2);
    assert_eq!(shared_device_score("Speakers"), 10);
}

#[test]
fn mic_chain_names() {
    assert!(is_mic_chain_virtual("CABLE-A Input (VB-Audio Cable A)"));
    assert!(is_mic_chain_virtual("cable b output"));
    assert!(!is_mic_chain_virtual("CABLE Input (VB-Audio Virtual Cable)"));
}

#[test]
fn preferred_shared_names() {
    assert!(is_preferred_shared_virtual("Audio compartido"));
    assert!(is_preferred_shared_virtual("CABLE Input (VB-Audio Virtual Cable)"));
    assert!(!is_preferred_shared_virtual("CABLE-A Input (VB-Audio Cable A)"));
    assert!(!is_preferred_shared_virtual("Steam Streaming Speakers"));
    assert!(!is_preferred_shared_virtual("Speakers (Realtek)"));
}

#[test]
fn virtual_candidates() {
    assert!(is_virtual_candidate("CABLE Input", None));
    assert!(is_virtual_candidate("Speakers", Some("VB-Audio Virtual Cable")));
    assert!(is_virtual_candidate("Steam Streaming Microphone", None));
    assert!(is_virtual_candidate("voicemeeter input", None));
    assert!(!is_virtual_candidate("Speakers", Some("Realtek High Definition Audio")));
}

#[test]
fn device_list_sorts_physical_first_then_by_name() {
    let svc = DeviceService::new();
    let endpoints = vec![
        endpoint("{1}", Some("CABLE Input"), Some("VB-Audio Virtual Cable")),
        endpoint("{2}", Some("speakers"), Some("Realtek")),
        endpoint("{3}", None, None),
        endpoint("{4}", Some("Headphones"), Some("USB")),
    ];
    let list = svc.list_render_devices(&endpoints, Some("{2}"), Some("{4}"));
    let ids: Vec<&str> = list.iter().map(|d| d.id.as_str()).collect();
    assert_eq!(ids, vec!["{4}", "{2}", "{3}", "{1}"]);
    assert_eq!(list[2].name, "{3}");
    assert!(list[1].is_default_multimedia && !list[1].is_default_communications);
    assert!(list[0].is_default_communications);
    assert!(list[3].is_virtual_shared_candidate && !list[3].is_physical_candidate);
    for d in &list {
        assert_ne!(d.is_physical_candidate, d.is_virtual_shared_candidate);
        assert_eq!(d.state, DEVICE_STATE_ACTIVE);
    }
}

#[test]
fn default_render_by_role() {
    let svc = DeviceService::new();
    let devs = vec![device("a", "A", true, false, true), device("b", "B", true, true, false)];
    assert_eq!(svc.get_default_render(&devs, DefaultRole::Multimedia).unwrap().id, "b");
    assert_eq!(svc.get_default_render(&devs, DefaultRole::Communications).unwrap().id, "a");
    match svc.get_default_render(&[], DefaultRole::Multimedia) {
        Err(AudioError::DeviceNotFound(m)) => assert_eq!(m, "default render device"),
        other => panic!("unexpected {:?}", other),
    }
}

#[test]
fn find_by_id_reports_missing_device() {
    let svc = DeviceService::new();
    let devs = vec![device("a", "A", true, false, false)];
    assert_eq!(svc.find_by_id(&devs, "a").unwrap().name, "A");
    match svc.find_by_id(&devs, "zz") {
        Err(AudioError::DeviceNotFound(m)) => assert_eq!(m, "zz"),
        other => panic!("unexpected {:?}", other),
    }
}

#[test]
fn shared_candidate_preference_order() {
    let svc = DeviceService::new();
    let devs = vec![
        device("spk", "Speakers", true, true, true),
        device("va", "CABLE-A Input", false, false, false),
        device("vb", "VB-Audio Point", false, false, false),
        device("vc", "CABLE Input (VB-Audio Virtual Cable)", false, false, false),
        device("ac", "AUDIO COMPARTIDO", false, false, false),
    ];
    assert_eq!(svc.find_shared_candidate(&devs, Some("spk")).unwrap().id, "spk");
    assert_eq!(svc.find_shared_candidate(&devs, Some("nope")).unwrap().id, "ac");
    assert_eq!(svc.find_shared_candidate(&devs[..4], None).unwrap().id, "vc");
    assert_eq!(svc.find_shared_candidate(&devs[..3], None).unwrap().id, "vb");
}

#[test]
fn cable_a_and_b_are_never_picked_automatically() {
    let svc = DeviceService::new();
    let devs = vec![
        device("spk", "Speakers", true, true, true),
        device("va", "CABLE-A Input", false, false, false),
        device("vb", "Cable B Input", false, false, false),
    ];
    assert!(svc.find_shared_candidate(&devs, None).is_none());
    assert_eq!(svc.find_shared_candidate(&devs, Some("va")).unwrap().id, "va");
}

#[test]
fn physical_choice() {
    let svc = DeviceService::new();
    let devs = vec![
        device("v", "CABLE Input", false, true, false),
        device("h", "Headphones", true, false, false),
        device("s", "Speakers", true, true, false),
    ];
    assert_eq!(svc.choose_physical(&devs, Some("h"), true).unwrap().id, "h");
    assert_eq!(svc.choose_physical(&devs, Some("v"), true).unwrap().id, "s");
    assert_eq!(svc.choose_physical(&devs, None, false).unwrap().id, "h");
    match svc.choose_physical(&devs[..1], None, true) {
        Err(AudioError::PhysicalDeviceUnavailable(m)) => assert_eq!(m, "no physical render device"),
        other => panic!("unexpected {:?}", other),
    }
}

#[test]
fn default_endpoint_calls() {
    let calls = set_default_endpoint("dev", DefaultRole::Multimedia);
    assert_eq!(calls.len(), 2);
    assert_eq!(calls[0].device_id, "dev");
    assert_eq!(calls[0].role, SystemRole::Multimedia);
    assert!(calls[0].must_succeed);
    assert_eq!(calls[1].role, SystemRole::Console);
    assert!(!calls[1].must_succeed);
    let calls = set_default_endpoint("dev", DefaultRole::Communications);
    assert_eq!(calls.len(), 1);
    assert_eq!(calls[0].role, SystemRole::Communications);
    assert!(calls[0].must_succeed);
}
