use audio_core::process::{
    collect_process_tree, contains_pid, expand_related_pids, file_name_from_path, insert_sorted,
    is_critical_system_process, is_known_capture_process, process_image_path, process_parent, ProcessInfo,
};

fn proc_info(pid: u32, path: Option<&str>, parent: Option<u32>) -> ProcessInfo {
    ProcessInfo {
        pid,
        exe_path: path.map(|p| p.to_string()),
        exe_name: path.and_then(|p| file_name_from_path(p)),
        parent_pid: parent,
    }
}

fn snapshot() -> Vec<ProcessInfo> {
    vec![
        proc_info(4, None, Some(0)),
        proc_info(100, Some("C:\\Windows\\explorer.exe"), Some(4)),
        proc_info(200, Some("C:\\Apps\\Discord\\Discord.exe"), Some(100)),
        proc_info(201, Some("C:\\Apps\\Discord\\Discord.exe"), Some(200)),
        proc_info(202, Some("C:\\Apps\\Discord\\crashpad.exe"), Some(200)),
        proc_info(203, Some("C:\\Apps\\Discord\\Discord.exe"), Some(201)),
        proc_info(300, Some("D:\\Other\\DISCORD.EXE"), Some(100)),
        proc_info(400, Some("C:\\Apps\\chrome.exe"), Some(100)),
    ]
}

#[test]
fn critical_processes() {
    assert!(is_critical_system_process("svchost.exe"));
    assert!(is_critical_system_process("Explorer.EXE"));
    assert!(is_critical_system_process("Memory Compression"));
    assert!(is_critical_system_process("System"));
    assert!(!is_critical_system_process("discord.exe"));
    assert!(!is_critical_system_process("svchost"));
}

#[test]
fn capture_processes() {
    assert!(is_known_capture_process("Parsec.exe"));
    assert!(is_known_capture_process("OBS64.EXE"));
    assert!(is_known_capture_process("mstsc.exe"));
    assert!(!is_known_capture_process("discord.exe"));
    assert!(!is_known_capture_process("obs"));
}

#[test]
fn file_names_of_paths() {
    assert_eq!(file_name_from_path("C:\\Program Files\\Discord\\Discord.exe"), Some("Discord.exe".to_string()));
    assert_eq!(file_name_from_path("C:/tools/app.exe"), Some("app.exe".to_string()));
    assert_eq!(file_name_from_path("app.exe"), Some("app.exe".to_string()));
    assert_eq!(file_name_from_path("C:\\dir\\"), Some("dir".to_string()));
    assert_eq!(file_name_from_path("C:\\dir\\.."), None);
    assert_eq!(file_name_from_path("C:\\"), None);
    assert_eq!(file_name_from_path(""), None);
}

#[test]
fn image_paths_and_parents_from_the_snapshot() {
    let procs = snapshot();
    assert_eq!(process_image_path(&procs, 200), Some("C:\\Apps\\Discord\\Discord.exe".to_string()));
    assert_eq!(process_image_path(&procs, 4), None);
    assert_eq!(process_image_path(&procs, 0), None);
    assert_eq!(process_image_path(&procs, 999), None);
    assert_eq!(process_parent(&procs, 203), Some(201));
    assert_eq!(process_parent(&procs, 999), None);
}

#[test]
fn process_tree_holds_root_first_and_descendants() {
    let procs = snapshot();
    let tree = collect_process_tree(200, &procs);
    assert_eq!(tree[0], 200);
    let mut sorted = tree.clone();
    sorted.sort();
    assert_eq!(sorted, vec![200, 201, 202, 203]);
}

#[test]
fn process_tree_of_unknown_root_is_the_root() {
    let procs = snapshot();
    assert_eq!(collect_process_tree(777, &procs), vec![777]);
}

#[test]
fn related_by_executable_name() {
    let procs = snapshot();
    let related = expand_related_pids(&[201], Some("discord.exe"), &procs);
    assert_eq!(related, vec![200, 201, 203, 300]);
}

#[test]
fn related_by_process_tree() {
    let procs = snapshot();
    let related = expand_related_pids(&[201, 400], None, &procs);
    assert_eq!(related, vec![201, 203, 400]);
}

#[test]
fn seeds_are_always_related() {
    let procs = snapshot();
    assert_eq!(expand_related_pids(&[555], Some("discord.exe"), &procs), vec![200, 201, 203, 300, 555]);
    assert_eq!(expand_related_pids(&[555], None, &procs), vec![555]);
}

#[test]
fn sorted_insertion() {
    let mut v = vec![1, 5, 9];
    insert_sorted(&mut v, 5);
    insert_sorted(&mut v, 7);
    insert_sorted(&mut v, 0);
    assert_eq!(v, vec![0, 1, 5, 7, 9]);
    assert!(contains_pid(&v, 7));
    assert!(!contains_pid(&v, 8));
}
