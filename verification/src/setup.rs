//! One-time preparation of the shared audio channel: what the setup screen
//! shows, where a preparation payload is looked for, and the commands and
//! outcomes of running it.

use crate::devices::{mic_chain_name, shared_choice, AudioDevice, DeviceService, is_mic_chain_virtual};
use crate::error::{AudioError, Result};
use crate::order::{first_where, lemma_first_where, lemma_first_where_at, lemma_first_where_none};
use crate::paths::{file_name_chars, file_name_of, join, join_path};
use crate::text::{
    chars_contains, chars_ends_with, chars_of, has_suffix, is_infix, join_strings, join_with, lower, lower_chars, push_str,
    decimal, decimal_string, signed_decimal, signed_decimal_string, string_from_chars, texts_of, view_opt_str, view_opt_string,
};
use vstd::prelude::*;

verus! {

/// Where the shared-channel preparation stands.
#[derive(Debug, Clone, Copy, PartialEq, Eq, Structural)]
pub enum SetupState {
    Ready,
    NeedsPrepare,
    Preparing,
    Failed,
}

/// What the setup screen shows.
#[derive(Debug)]
pub struct SetupStatus {
    pub state: SetupState,
    pub ready: bool,
    pub title: String,
    pub message: String,
    pub detail: Option<String>,
    pub shared_device_name: Option<String>,
    pub can_prepare_automatically: bool,
    pub prepare_button_label: String,
}

impl Clone for SetupStatus {
    fn clone(&self) -> (r: Self)
        ensures
            r == *self,
    {
        SetupStatus {
            state: self.state,
            ready: self.ready,
            title: self.title.clone(),
            message: self.message.clone(),
            detail: crate::text::clone_opt_string(&self.detail),
            shared_device_name: crate::text::clone_opt_string(&self.shared_device_name),
            can_prepare_automatically: self.can_prepare_automatically,
            prepare_button_label: self.prepare_button_label.clone(),
        }
    }
}

/// The outcome of a preparation run, with its log.
#[derive(Debug)]
pub struct PrepareResult {
    pub success: bool,
    pub status: SetupStatus,
    pub log: Vec<String>,
}

/// The setup screen's logic.
pub struct SetupService;

// ---------------------------------------------------------------------------
// Status
// ---------------------------------------------------------------------------

pub open spec fn prepare_label() -> Seq<char> {
    "Preparar canal compartido (opcional)"@
}

pub open spec fn ready_title() -> Seq<char> {
    "Todo listo"@
}

pub open spec fn ready_message() -> Seq<char> {
    "Ya se puede ocultar audio del escritorio remoto."@
}

pub open spec fn detected_prefix() -> Seq<char> {
    "Canal detectado: "@
}

pub open spec fn needs_prepare_title() -> Seq<char> {
    "Opcional: preparar canal compartido"@
}

pub open spec fn can_prepare_text() -> Seq<char> {
    "Si esta PC no tiene un canal de audio compartido, puedes prepararlo una sola vez con el boton de abajo."@
}

pub open spec fn cannot_prepare_text() -> Seq<char> {
    "NoEcho funciona con el canal compartido que ya tengas en esta PC. Si no hay ninguno, puedes instalar uno o elegirlo en Opciones."@
}

pub open spec fn mic_chain_note() -> Seq<char> {
    " Detecte Cable A/B, pero NoEcho no los usara para no tocar tu microfono."@
}

pub open spec fn no_outputs_text() -> Seq<char> {
    "No se detectaron salidas de audio."@
}

pub open spec fn payload_found_prefix() -> Seq<char> {
    "Paquete encontrado: "@
}

/// Some device belongs to a microphone chain (Cable A/B).
pub open spec fn any_mic_chain(devs: Seq<AudioDevice>) -> bool {
    exists|i: int| 0 <= i < devs.len() && mic_chain_name(#[trigger] devs[i].name@)
}

/// The message when the channel still has to be prepared.
pub open spec fn needs_prepare_message(can_prepare: bool, has_mic_chain: bool) -> Seq<char> {
    (if can_prepare { can_prepare_text() } else { cannot_prepare_text() }) + (if has_mic_chain {
        mic_chain_note()
    } else {
        Seq::empty()
    })
}

/// `r` is what the setup screen shows for these render devices and this
/// preparation payload: ready when a shared channel is found among the
/// devices, else the invitation to prepare one.
pub open spec fn is_setup_status(r: SetupStatus, devs: Seq<AudioDevice>, payload: Option<Seq<char>>) -> bool {
    &&& r.prepare_button_label@ == prepare_label()
    &&& match shared_choice(devs, None) {
        Some(i) => {
            &&& r.state == SetupState::Ready
            &&& r.ready
            &&& r.title@ == ready_title()
            &&& r.message@ == ready_message()
            &&& r.detail matches Some(d) && d@ == detected_prefix() + devs[i].name@
            &&& r.shared_device_name matches Some(n) && n@ == devs[i].name@
            &&& !r.can_prepare_automatically
        },
        None => {
            &&& r.state == SetupState::NeedsPrepare
            &&& !r.ready
            &&& r.title@ == needs_prepare_title()
            &&& r.message@ == needs_prepare_message(payload is Some, any_mic_chain(devs))
            &&& if devs.len() == 0 {
                r.detail matches Some(d) && d@ == no_outputs_text()
            } else {
                match payload {
                    Some(p) => r.detail matches Some(d) && d@ == payload_found_prefix() + p,
                    None => r.detail is None,
                }
            }
            &&& r.shared_device_name is None
            &&& r.can_prepare_automatically == payload is Some
        },
    }
}

fn text_of(lit: &str) -> (r: String)
    ensures
        r@ == lit@,
{
    string_from_chars(&chars_of(lit))
}

fn concat(a: &str, b: &str) -> (r: String)
    ensures
        r@ == a@ + b@,
{
    let mut v: Vec<char> = Vec::new();
    push_str(&mut v, a);
    push_str(&mut v, b);
    string_from_chars(&v)
}

fn has_mic_chain_device(devices: &[AudioDevice]) -> (r: bool)
    ensures
        r == any_mic_chain(devices@),
{
    let mut i: usize = 0;
    while i < devices.len()
        invariant
            i <= devices@.len(),
            forall|j: int| 0 <= j < i ==> !mic_chain_name(#[trigger] devices@[j].name@),
        decreases devices@.len() - i,
    {
        if is_mic_chain_virtual(devices[i].name.as_str()) {
            assert(mic_chain_name(devices@[i as int].name@));
            return true;
        }
        i += 1;
    }
    false
}

impl SetupService {
    /// What the setup screen shows, given the active render devices and the
    /// preparation payload found on disk (see `is_setup_status`).
    pub fn status(devices: &[AudioDevice], payload: Option<&str>) -> (r: SetupStatus)
        ensures
            is_setup_status(r, devices@, view_opt_str(payload)),
    {
        let shared = DeviceService::new().find_shared_candidate(devices, None);
        if let Some(shared) = shared {
            return SetupStatus {
                state: SetupState::Ready,
                ready: true,
                title: text_of("Todo listo"),
                message: text_of("Ya se puede ocultar audio del escritorio remoto."),
                detail: Some(concat("Canal detectado: ", shared.name.as_str())),
                shared_device_name: Some(shared.name),
                can_prepare_automatically: false,
                prepare_button_label: text_of("Preparar canal compartido (opcional)"),
            };
        }
        let has_ab = has_mic_chain_device(devices);
        let can = payload.is_some();
        let extra: &str = if has_ab {
            " Detecte Cable A/B, pero NoEcho no los usara para no tocar tu microfono."
        } else {
            ""
        };
        let message = if can {
            concat(
                "Si esta PC no tiene un canal de audio compartido, puedes prepararlo una sola vez con el boton de abajo.",
                extra,
            )
        } else {
            concat(
                "NoEcho funciona con el canal compartido que ya tengas en esta PC. Si no hay ninguno, puedes instalar uno o elegirlo en Opciones.",
                extra,
            )
        };
        let detail = if devices.len() == 0 {
            Some(text_of("No se detectaron salidas de audio."))
        } else {
            match payload {
                Some(p) => Some(concat("Paquete encontrado: ", p)),
                None => None,
            }
        };
        proof {
            reveal_strlit("");
            assert(""@ =~= Seq::<char>::empty());
        }
        SetupStatus {
            state: SetupState::NeedsPrepare,
            ready: false,
            title: text_of("Opcional: preparar canal compartido"),
            message,
            detail,
            shared_device_name: None,
            can_prepare_automatically: can,
            prepare_button_label: text_of("Preparar canal compartido (opcional)"),
        }
    }
}


// ---------------------------------------------------------------------------
// Where the preparation payload is looked for
// ---------------------------------------------------------------------------

/// File names of preparation payloads, in order of preference.
pub const PAYLOAD_NAMES: [&'static str; 12] = [
    "NoEchoAudioSetup.exe",
    "VBCABLE_Setup_x64.exe",
    "VBCABLE_Setup.exe",
    "AudioCompartidoSetup.exe",
    "VBCABLE_Driver_Pack45.zip",
    "vb-cable-setup.exe",
    "vbcable.zip",
    "audio-setup.zip",
    "VBCABLE_A_Setup_x64.exe",
    "VBCABLE_B_Setup_x64.exe",
    "VBCABLE_A_Driver_Pack43.zip",
    "VBCABLE_B_Driver_Pack43.zip",
];

pub open spec fn payload_names() -> Seq<Seq<char>> {
    seq![
        "NoEchoAudioSetup.exe"@,
        "VBCABLE_Setup_x64.exe"@,
        "VBCABLE_Setup.exe"@,
        "AudioCompartidoSetup.exe"@,
        "VBCABLE_Driver_Pack45.zip"@,
        "vb-cable-setup.exe"@,
        "vbcable.zip"@,
        "audio-setup.zip"@,
        "VBCABLE_A_Setup_x64.exe"@,
        "VBCABLE_B_Setup_x64.exe"@,
        "VBCABLE_A_Driver_Pack43.zip"@,
        "VBCABLE_B_Driver_Pack43.zip"@,
    ]
}

/// The directories searched for a payload, in order: the local application
/// data folder, the folder of the running program (and its `payload` and
/// `resources` folders), and the working directory.
pub open spec fn payload_root_paths(
    local_data: Option<Seq<char>>,
    exe_dir: Option<Seq<char>>,
    cwd: Option<Seq<char>>,
) -> Seq<Seq<char>> {
    (match local_data {
        Some(l) => seq![join_path(join_path(l, "NoEcho"@), "payload"@)],
        None => Seq::empty(),
    }) + (match exe_dir {
        Some(d) => seq![
            join_path(d, "payload"@),
            join_path(join_path(d, "resources"@), "payload"@),
            join_path(d, "resources"@),
            d,
        ],
        None => Seq::empty(),
    }) + (match cwd {
        Some(c) => seq![join_path(join_path(c, "installer"@), "payload"@), join_path(c, "payload"@)],
        None => Seq::empty(),
    })
}

/// The search roots for the known folders.
pub fn payload_roots(local_data: Option<&str>, exe_dir: Option<&str>, cwd: Option<&str>) -> (r: Vec<String>)
    ensures
        texts_of(r@) == payload_root_paths(view_opt_str(local_data), view_opt_str(exe_dir), view_opt_str(cwd)),
{
    let mut r: Vec<String> = Vec::new();
    if let Some(l) = local_data {
        let noecho = join(l, "NoEcho");
        r.push(join(noecho.as_str(), "payload"));
    }
    let ghost after_local = texts_of(r@);
    if let Some(d) = exe_dir {
        r.push(join(d, "payload"));
        let res = join(d, "resources");
        r.push(join(res.as_str(), "payload"));
        r.push(join(d, "resources"));
        r.push(text_of(d));
    }
    let ghost after_exe = texts_of(r@);
    if let Some(c) = cwd {
        let inst = join(c, "installer");
        r.push(join(inst.as_str(), "payload"));
        r.push(join(c, "payload"));
    }
    proof {
        let local_part = match view_opt_str(local_data) {
            Some(l) => seq![join_path(join_path(l, "NoEcho"@), "payload"@)],
            None => Seq::<Seq<char>>::empty(),
        };
        assert(after_local =~= local_part);
        assert(texts_of(r@) =~= payload_root_paths(
            view_opt_str(local_data),
            view_opt_str(exe_dir),
            view_opt_str(cwd),
        ));
    }
    r
}

/// What the caller found at one search root.
#[derive(Debug)]
pub struct PayloadRoot {
    /// The root's path.
    pub path: String,
    /// Whether it exists.
    pub exists: bool,
    /// Whether it is a file.
    pub is_file: bool,
    /// For each of `PAYLOAD_NAMES`, in order, whether `path\name` exists.
    pub named: Vec<bool>,
    /// The paths of the entries of the directory, in listing order (empty
    /// when it cannot be listed).
    pub entries: Vec<String>,
}

/// The lowercased file name of a path (empty when it has none).
pub open spec fn lower_file_name(path: Seq<char>) -> Seq<char> {
    lower(
        match file_name_of(path) {
            Some(n) => n,
            None => Seq::empty(),
        },
    )
}

/// A directory entry that looks like a cable setup: its lowercased name
/// mentions `vbcable`, `vb-cable` or `audio` and ends in `.exe` or `.zip`.
pub open spec fn looks_like_payload(lname: Seq<char>) -> bool {
    &&& (is_infix("vbcable"@, lname) || is_infix("vb-cable"@, lname) || is_infix("audio"@, lname))
    &&& (has_suffix(lname, ".exe"@) || has_suffix(lname, ".zip"@))
}

pub open spec fn named_pred(root: PayloadRoot) -> spec_fn(int) -> bool {
    |i: int| i < root.named@.len() && root.named@[i]
}

pub open spec fn entry_pred(root: PayloadRoot) -> spec_fn(int) -> bool {
    |i: int| looks_like_payload(lower_file_name(root.entries@[i]@))
}

/// The payload found at one root: the root itself when it is a file; else
/// the first known payload name present in it; else the first entry that
/// looks like a cable setup.
pub open spec fn root_payload(root: PayloadRoot) -> Option<Seq<char>> {
    if !root.exists {
        None
    } else if root.is_file {
        Some(root.path@)
    } else {
        match first_where(12, named_pred(root)) {
            Some(i) => Some(join_path(root.path@, payload_names()[i])),
            None => match first_where(root.entries@.len(), entry_pred(root)) {
                Some(k) => Some(root.entries@[k]@),
                None => None,
            },
        }
    }
}

pub open spec fn root_found_pred(roots: Seq<PayloadRoot>) -> spec_fn(int) -> bool {
    |i: int| root_payload(roots[i]) is Some
}

/// The payload of the first root, in order, that has one.
pub open spec fn payload_choice(roots: Seq<PayloadRoot>) -> Option<Seq<char>> {
    match first_where(roots.len(), root_found_pred(roots)) {
        Some(i) => root_payload(roots[i]),
        None => None,
    }
}

fn lower_file_name_of(path: &str) -> (r: Vec<char>)
    ensures
        r@ == lower_file_name(path@),
{
    match file_name_chars(path) {
        Some(n) => lower_chars(&n),
        None => {
            let empty: Vec<char> = Vec::new();
            lower_chars(&empty)
        },
    }
}

fn looks_like_payload_name(lname: &Vec<char>) -> (r: bool)
    ensures
        r == looks_like_payload(lname@),
        r <==> (is_infix("vbcable"@, lname@) || is_infix("vb-cable"@, lname@) || is_infix("audio"@, lname@)) && (
        has_suffix(lname@, ".exe"@) || has_suffix(lname@, ".zip"@)),
{
    let hit = chars_contains(lname, &chars_of("vbcable")) || chars_contains(lname, &chars_of("vb-cable"))
        || chars_contains(lname, &chars_of("audio"));
    hit && (chars_ends_with(lname, &chars_of(".exe")) || chars_ends_with(lname, &chars_of(".zip")))
}

fn payload_at_root(root: &PayloadRoot) -> (r: Option<String>)
    ensures
        view_opt_string(r) == root_payload(*root),
{
    if !root.exists {
        return None;
    }
    if root.is_file {
        return Some(root.path.clone());
    }
    let ghost np = named_pred(*root);
    let mut i: usize = 0;
    while i < 12
        invariant
            i <= 12,
            root.exists,
            !root.is_file,
            np == named_pred(*root),
            forall|j: int| 0 <= j < i ==> !#[trigger] np(j),
        decreases 12 - i,
    {
        if i < root.named.len() && root.named[i] {
            proof {
                lemma_first_where_at(12, np, i as int);
            }
            assert(PAYLOAD_NAMES[i as int]@ == payload_names()[i as int]);
            return Some(join(root.path.as_str(), PAYLOAD_NAMES[i]));
        }
        i += 1;
    }
    proof {
        lemma_first_where_none(12, np);
    }
    let ghost ep = entry_pred(*root);
    let mut k: usize = 0;
    while k < root.entries.len()
        invariant
            k <= root.entries@.len(),
            root.exists,
            !root.is_file,
            first_where(12, named_pred(*root)) is None,
            ep == entry_pred(*root),
            forall|j: int| 0 <= j < k ==> !#[trigger] ep(j),
        decreases root.entries@.len() - k,
    {
        let lname = lower_file_name_of(root.entries[k].as_str());
        if looks_like_payload_name(&lname) {
            proof {
                lemma_first_where_at(root.entries@.len(), ep, k as int);
            }
            return Some(root.entries[k].clone());
        }
        k += 1;
    }
    proof {
        lemma_first_where_none(root.entries@.len(), ep);
    }
    None
}

/// The preparation payload: the first root, in order, with one (see
/// `root_payload`).
pub fn find_prepare_payload(roots: &[PayloadRoot]) -> (r: Option<String>)
    ensures
        view_opt_string(r) == payload_choice(roots@),
{
    let ghost fp = root_found_pred(roots@);
    let mut i: usize = 0;
    while i < roots.len()
        invariant
            i <= roots@.len(),
            fp == root_found_pred(roots@),
            forall|j: int| 0 <= j < i ==> !#[trigger] fp(j),
        decreases roots@.len() - i,
    {
        let found = payload_at_root(&roots[i]);
        if found.is_some() {
            proof {
                lemma_first_where_at(roots@.len(), fp, i as int);
            }
            return found;
        }
        i += 1;
    }
    proof {
        lemma_first_where_none(roots@.len(), fp);
    }
    None
}


// ---------------------------------------------------------------------------
// Staging the payload
// ---------------------------------------------------------------------------

/// The file name of `path` has the extension `dot_ext` (given with its dot
/// and in lowercase), compared in lowercase.  `Path::extension` is the text
/// after the last dot of the file name unless that dot begins the name, so
/// the name must be longer than `dot_ext`.
pub open spec fn has_extension(path: Seq<char>, dot_ext: Seq<char>) -> bool {
    match file_name_of(path) {
        Some(n) => n.len() > dot_ext.len() && has_suffix(lower(n), dot_ext),
        None => false,
    }
}

fn path_has_extension(path: &str, dot_ext: &str) -> (r: bool)
    ensures
        r == has_extension(path@, dot_ext@),
{
    match file_name_chars(path) {
        Some(n) => {
            let ext = chars_of(dot_ext);
            n.len() > ext.len() && chars_ends_with(&lower_chars(&n), &ext)
        },
        None => false,
    }
}

/// Whether the payload is a ZIP archive to extract first.
pub fn is_zip_payload(payload: &str) -> (r: bool)
    ensures
        r == has_extension(payload@, ".zip"@),
{
    path_has_extension(payload, ".zip")
}

/// An installer name that is preferred: it mentions `setup`, `install` or
/// `vbcable`.
pub open spec fn preferred_installer_name(lname: Seq<char>) -> bool {
    is_infix("setup"@, lname) || is_infix("install"@, lname) || is_infix("vbcable"@, lname)
}

pub open spec fn exe_pred(files: Seq<String>) -> spec_fn(int) -> bool {
    |i: int| has_extension(files[i]@, ".exe"@)
}

pub open spec fn preferred_exe_pred(files: Seq<String>) -> spec_fn(int) -> bool {
    |i: int| has_extension(files[i]@, ".exe"@) && preferred_installer_name(lower_file_name(files[i]@))
}

/// The installer inside an extracted archive: among the files (in the order
/// of a depth-first walk), the first `.exe` with a preferred name, else the
/// first `.exe`.
pub open spec fn exe_choice(files: Seq<String>) -> Option<int> {
    match first_where(files.len(), preferred_exe_pred(files)) {
        Some(i) => Some(i),
        None => first_where(files.len(), exe_pred(files)),
    }
}

/// The installer among the files of an extracted archive (see `exe_choice`).
pub fn find_exe_in_dir(files: &[String]) -> (r: Option<String>)
    ensures
        match exe_choice(files@) {
            Some(i) => r matches Some(p) && p@ == files@[i]@,
            None => r is None,
        },
{
    let ghost pp = preferred_exe_pred(files@);
    let ghost ep = exe_pred(files@);
    let mut first_other: Option<usize> = None;
    let mut i: usize = 0;
    while i < files.len()
        invariant
            i <= files@.len(),
            pp == preferred_exe_pred(files@),
            ep == exe_pred(files@),
            forall|j: int| 0 <= j < i ==> !#[trigger] pp(j),
            match first_other {
                Some(k) => first_where(i as nat, ep) == Some(k as int),
                None => first_where(i as nat, ep) is None,
            },
        decreases files@.len() - i,
    {
        let is_exe = path_has_extension(files[i].as_str(), ".exe");
        if is_exe {
            let lname = lower_file_name_of(files[i].as_str());
            let preferred = chars_contains(&lname, &chars_of("setup")) || chars_contains(&lname, &chars_of("install"))
                || chars_contains(&lname, &chars_of("vbcable"));
            if preferred {
                proof {
                    lemma_first_where_at(files@.len(), pp, i as int);
                }
                return Some(files[i].clone());
            }
        }
        proof {
            assert(first_where((i + 1) as nat, ep) == (match first_where(i as nat, ep) {
                Some(k) => Some(k),
                None => if ep(i as int) { Some(i as int) } else { None },
            }));
        }
        if is_exe && first_other.is_none() {
            first_other = Some(i);
        }
        i += 1;
    }
    proof {
        lemma_first_where_none(files@.len(), pp);
        lemma_first_where(files@.len(), ep);
    }
    match first_other {
        Some(k) => Some(files[k].clone()),
        None => None,
    }
}

/// `base` joined with `a` and then `b`.
fn join2(base: &str, a: &str, b: &str) -> (r: String)
    ensures
        r@ == join_path(join_path(base@, a@), b@),
{
    let mid = join(base, a);
    join(mid.as_str(), b)
}

pub open spec fn no_app_data_message() -> Seq<char> {
    "No se pudo usar AppData"@
}

/// The folder where the payload is staged, under the local application data
/// folder.
pub fn prepare_work_dir(local_data: Option<&str>) -> (r: Result<String>)
    ensures
        match local_data {
            Some(l) => r matches Ok(p) && p@ == join_path(join_path(l@, "NoEcho"@), "setup"@),
            None => r matches Err(AudioError::Message(m)) && m@ == no_app_data_message(),
        },
{
    match local_data {
        Some(l) => Ok(join2(l, "NoEcho", "setup")),
        None => Err(AudioError::Message(text_of("No se pudo usar AppData"))),
    }
}

/// The file that records whether the preparation was done.
pub fn prepare_marker_path(local_data: Option<&str>) -> (r: Result<String>)
    ensures
        match local_data {
            Some(l) => r matches Ok(p) && p@ == join_path(join_path(l@, "NoEcho"@), "setup-marker.json"@),
            None => r matches Err(AudioError::Message(m)) && m@ == no_app_data_message(),
        },
{
    match local_data {
        Some(l) => Ok(join2(l, "NoEcho", "setup-marker.json")),
        None => Err(AudioError::Message(text_of("No se pudo usar AppData"))),
    }
}

/// The folder a ZIP payload is extracted to.
pub fn extraction_dir(work: &str) -> (r: String)
    ensures
        r@ == join_path(work@, "extracted"@),
{
    join(work, "extracted")
}

/// Where a non-archive payload is copied: the work folder joined with the
/// payload's file name (empty when it has none).
pub fn staged_payload_path(work: &str, payload: &str) -> (r: String)
    ensures
        r@ == join_path(work@, match file_name_of(payload@) {
            Some(n) => n,
            None => Seq::<char>::empty(),
        }),
{
    match file_name_chars(payload) {
        Some(n) => {
            let name = string_from_chars(&n);
            join(work, name.as_str())
        },
        None => {
            proof {
                reveal_strlit("");
                assert(""@ =~= Seq::<char>::empty());
            }
            join(work, "")
        },
    }
}

pub open spec fn zip_without_exe_message() -> Seq<char> {
    "El paquete ZIP no contiene un instalador .exe"@
}

pub open spec fn extraction_failed_message() -> Seq<char> {
    "Falló la extracción del paquete de audio"@
}

/// The error when the archive holds no installer.
pub fn zip_without_exe_error() -> (r: AudioError)
    ensures
        r matches AudioError::Message(m) && m@ == zip_without_exe_message(),
{
    AudioError::Message(text_of("El paquete ZIP no contiene un instalador .exe"))
}

/// The error when the archive extraction reports failure.
pub fn extraction_failed_error() -> (r: AudioError)
    ensures
        r matches AudioError::Message(m) && m@ == extraction_failed_message(),
{
    AudioError::Message(text_of("Falló la extracción del paquete de audio"))
}

/// The error when the extraction could not be started, with the reason.
pub fn extraction_start_error(reason: &str) -> (r: AudioError)
    ensures
        r matches AudioError::Message(m) && m@ == "No se pudo extraer el ZIP: "@ + reason@,
{
    AudioError::Message(concat("No se pudo extraer el ZIP: ", reason))
}

/// The PowerShell command that extracts `zip` into `dest`.
pub fn expand_archive_command(zip: &str, dest: &str) -> (r: String)
    ensures
        r@ == "Expand-Archive -LiteralPath '"@ + zip@ + "' -DestinationPath '"@ + dest@ + "' -Force"@,
{
    let mut v: Vec<char> = Vec::new();
    push_str(&mut v, "Expand-Archive -LiteralPath '");
    push_str(&mut v, zip);
    push_str(&mut v, "' -DestinationPath '");
    push_str(&mut v, dest);
    push_str(&mut v, "' -Force");
    string_from_chars(&v)
}

// ---------------------------------------------------------------------------
// Running the installer
// ---------------------------------------------------------------------------

/// The argument lists tried in turn: the common silent switches, then none.
pub open spec fn installer_attempt_args() -> Seq<Seq<Seq<char>>> {
    seq![seq!["-i"@, "-h"@], seq!["/S"@], seq!["/silent"@], seq!["/quiet"@], Seq::empty()]
}

/// The argument lists to try, in order (see `installer_attempt_args`).
pub fn installer_attempts() -> (r: Vec<Vec<String>>)
    ensures
        r@.len() == installer_attempt_args().len(),
        forall|i: int| 0 <= i < r@.len() ==> texts_of(#[trigger] r@[i]@) == installer_attempt_args()[i],
{
    let mut r: Vec<Vec<String>> = Vec::new();
    r.push(vec![text_of("-i"), text_of("-h")]);
    r.push(vec![text_of("/S")]);
    r.push(vec![text_of("/silent")]);
    r.push(vec![text_of("/quiet")]);
    r.push(Vec::new());
    proof {
        assert(texts_of(r@[0]@) =~= installer_attempt_args()[0]);
        assert(texts_of(r@[1]@) =~= installer_attempt_args()[1]);
        assert(texts_of(r@[2]@) =~= installer_attempt_args()[2]);
        assert(texts_of(r@[3]@) =~= installer_attempt_args()[3]);
        assert(texts_of(r@[4]@) =~= installer_attempt_args()[4]);
    }
    r
}

/// `s` with every `'` doubled, as PowerShell single-quoted strings need.
pub open spec fn double_quotes(s: Seq<char>) -> Seq<char>
    decreases s.len(),
{
    if s.len() == 0 {
        s
    } else {
        double_quotes(s.drop_last()) + (if s.last() == '\'' { seq!['\'', '\''] } else { seq![s.last()] })
    }
}

/// An argument as a PowerShell single-quoted string.
pub open spec fn ps_quoted(a: Seq<char>) -> Seq<char> {
    seq!['\''] + double_quotes(a) + seq!['\'']
}

/// The quoted arguments, in order.
pub open spec fn ps_quoted_all(args: Seq<Seq<char>>) -> Seq<Seq<char>> {
    args.map_values(|a: Seq<char>| ps_quoted(a))
}

/// The PowerShell command that runs `exe` elevated with `args`, waits for it
/// and exits with its exit code.
pub open spec fn installer_command_text(exe: Seq<char>, args: Seq<Seq<char>>) -> Seq<char> {
    if args.len() == 0 {
        "$p = Start-Process -FilePath '"@ + exe + "' -Verb RunAs -Wait -PassThru; exit $p.ExitCode"@
    } else {
        "$p = Start-Process -FilePath '"@ + exe + "' -ArgumentList @("@ + join_with(ps_quoted_all(args), ","@)
            + ") -Verb RunAs -Wait -PassThru; exit $p.ExitCode"@
    }
}

fn ps_quote(a: &str) -> (r: String)
    ensures
        r@ == ps_quoted(a@),
{
    let src = chars_of(a);
    let mut v: Vec<char> = Vec::new();
    v.push('\'');
    let mut i: usize = 0;
    while i < src.len()
        invariant
            i <= src@.len(),
            v@ == seq!['\''] + double_quotes(src@.take(i as int)),
        decreases src@.len() - i,
    {
        let c = src[i];
        if c == '\'' {
            v.push('\'');
            v.push('\'');
        } else {
            v.push(c);
        }
        proof {
            assert(src@.take(i + 1).drop_last() =~= src@.take(i as int));
            assert(v@ =~= seq!['\''] + double_quotes(src@.take(i + 1)));
        }
        i += 1;
    }
    v.push('\'');
    assert(src@.take(src@.len() as int) =~= src@);
    assert(v@ =~= ps_quoted(a@));
    string_from_chars(&v)
}

/// The PowerShell command for one installer attempt.
pub fn installer_command(exe: &str, args: &[String]) -> (r: String)
    ensures
        r@ == installer_command_text(exe@, texts_of(args@)),
{
    let mut v: Vec<char> = Vec::new();
    push_str(&mut v, "$p = Start-Process -FilePath '");
    push_str(&mut v, exe);
    if args.len() == 0 {
        push_str(&mut v, "' -Verb RunAs -Wait -PassThru; exit $p.ExitCode");
        return string_from_chars(&v);
    }
    let mut quoted: Vec<String> = Vec::new();
    let mut i: usize = 0;
    while i < args.len()
        invariant
            i <= args@.len(),
            texts_of(quoted@) == ps_quoted_all(texts_of(args@.take(i as int))),
        decreases args@.len() - i,
    {
        let ghost prev = quoted@;
        let q = ps_quote(args[i].as_str());
        quoted.push(q);
        proof {
            let a = texts_of(args@.take(i as int));
            let b = texts_of(args@.take(i + 1));
            assert(b =~= a.push(args@[i as int]@));
            assert(ps_quoted_all(b) =~= ps_quoted_all(a).push(ps_quoted(args@[i as int]@)));
            assert(texts_of(quoted@) =~= texts_of(prev).push(q@));
        }
        i += 1;
    }
    assert(args@.take(args@.len() as int) =~= args@);
    let list = join_strings(quoted.as_slice(), ",");
    push_str(&mut v, "' -ArgumentList @(");
    push_str(&mut v, list.as_str());
    push_str(&mut v, ") -Verb RunAs -Wait -PassThru; exit $p.ExitCode");
    string_from_chars(&v)
}

/// The log line before an attempt: the program and its arguments.
pub fn running_line(exe: &str, args: &[String]) -> (r: String)
    ensures
        r@ == "Ejecutando: "@ + exe@ + " "@ + join_with(texts_of(args@), " "@),
{
    let mut v: Vec<char> = Vec::new();
    push_str(&mut v, "Ejecutando: ");
    push_str(&mut v, exe);
    push_str(&mut v, " ");
    let joined = join_strings(args, " ");
    push_str(&mut v, joined.as_str());
    string_from_chars(&v)
}

/// The log line after an attempt, with its exit code.
pub fn attempt_result_line(code: i32) -> (r: String)
    ensures
        r@ == "Resultado intento: "@ + signed_decimal(code as int),
{
    let digits = signed_decimal_string(code);
    concat("Resultado intento: ", digits.as_str())
}

/// Whether the attempts stop after one that exited with `code`: on success,
/// or after the last attempt, which runs the installer without switches.
pub fn attempt_finishes(code: i32, args_were_empty: bool) -> (r: bool)
    ensures
        r == (code == 0 || args_were_empty),
{
    code == 0 || args_were_empty
}

/// The exit code reported when no attempt finished the run.
pub const INSTALLER_FALLBACK_CODE: i32 = 1;

/// The error when PowerShell could not be started, with the reason.
pub fn installer_start_error(reason: &str) -> (r: AudioError)
    ensures
        r matches AudioError::Message(m) && m@ == "No se pudo iniciar el preparativo: "@ + reason@,
{
    AudioError::Message(concat("No se pudo iniciar el preparativo: ", reason))
}


// ---------------------------------------------------------------------------
// Outcomes of a preparation run
// ---------------------------------------------------------------------------

/// How many times the devices are looked at again after the installer ran.
pub const PREPARE_POLL_ATTEMPTS: u32 = 10;

/// The pause before each look, in milliseconds.
pub const PREPARE_POLL_INTERVAL_MS: u64 = 800;

pub open spec fn already_ready_line() -> Seq<char> {
    "El canal compartido ya estaba listo."@
}

pub open spec fn missing_payload_message() -> Seq<char> {
    "No se encontró el paquete de preparación de audio. Usa el instalador completo de NoEcho."@
}

pub open spec fn prepared_message() -> Seq<char> {
    "Listo. Ya puedes ocultar apps del escritorio remoto."@
}

pub open spec fn unprepared_title() -> Seq<char> {
    "No se completó el preparativo"@
}

pub open spec fn unprepared_message() -> Seq<char> {
    "Se ejecutó el preparativo, pero Windows todavía no muestra el canal compartido. Reinicia la PC e intenta de nuevo."@
}

impl SetupService {
    /// The result when the channel was already ready before preparing:
    /// success, that status, and one log line saying so.
    pub fn already_ready_result(before: SetupStatus) -> (r: PrepareResult)
        ensures
            r.success,
            r.status == before,
            texts_of(r.log@) == seq![already_ready_line()],
    {
        let log: Vec<String> = vec![text_of("El canal compartido ya estaba listo.")];
        assert(texts_of(log@) =~= seq![already_ready_line()]);
        PrepareResult { success: true, status: before, log }
    }

    /// The error when no preparation payload was found.
    pub fn missing_payload_error() -> (r: AudioError)
        ensures
            r matches AudioError::Message(m) && m@ == missing_payload_message(),
    {
        AudioError::Message(
            text_of("No se encontró el paquete de preparación de audio. Usa el instalador completo de NoEcho."),
        )
    }

    /// The result once the channel was detected after the installer ran: the
    /// new status with a message that says it is done.
    pub fn prepared_result(after: SetupStatus, log: Vec<String>) -> (r: PrepareResult)
        ensures
            r.success,
            r.status.message@ == prepared_message(),
            r.status.state == after.state,
            r.status.ready == after.ready,
            r.status.title == after.title,
            r.status.detail == after.detail,
            r.status.shared_device_name == after.shared_device_name,
            r.status.can_prepare_automatically == after.can_prepare_automatically,
            r.status.prepare_button_label == after.prepare_button_label,
            r.log == log,
    {
        let mut status = after;
        status.message = text_of("Listo. Ya puedes ocultar apps del escritorio remoto.");
        PrepareResult { success: true, status, log }
    }

    /// The result when the channel did not show up after the installer ran:
    /// failure, with the new status marked failed and explained.
    pub fn unprepared_result(after: SetupStatus, log: Vec<String>) -> (r: PrepareResult)
        ensures
            !r.success,
            r.status.state == SetupState::Failed,
            r.status.title@ == unprepared_title(),
            r.status.message@ == unprepared_message(),
            r.status.ready == after.ready,
            r.status.detail == after.detail,
            r.status.shared_device_name == after.shared_device_name,
            r.status.can_prepare_automatically == after.can_prepare_automatically,
            r.status.prepare_button_label == after.prepare_button_label,
            r.log == log,
    {
        let mut status = after;
        status.state = SetupState::Failed;
        status.title = text_of("No se completó el preparativo");
        status.message = text_of(
            "Se ejecutó el preparativo, pero Windows todavía no muestra el canal compartido. Reinicia la PC e intenta de nuevo.",
        );
        PrepareResult { success: false, status, log }
    }
}

/// The log line naming the payload used.
pub fn using_payload_line(payload: &str) -> (r: String)
    ensures
        r@ == "Usando paquete: "@ + payload@,
{
    concat("Usando paquete: ", payload)
}

/// The log line naming the work folder.
pub fn work_dir_line(work: &str) -> (r: String)
    ensures
        r@ == "Carpeta temporal: "@ + work@,
{
    concat("Carpeta temporal: ", work)
}

/// The log line naming the staged installer.
pub fn staged_line(staged: &str) -> (r: String)
    ensures
        r@ == "Paquete preparado: "@ + staged@,
{
    concat("Paquete preparado: ", staged)
}

/// The log line with the installer's exit code.
pub fn installer_exit_line(code: i32) -> (r: String)
    ensures
        r@ == "Instalador terminó con código "@ + signed_decimal(code as int),
{
    let digits = signed_decimal_string(code);
    concat("Instalador terminó con código ", digits.as_str())
}

/// The log line when the channel shows up at look number `attempt`.
pub fn detected_line(attempt: u32) -> (r: String)
    ensures
        r@ == "Canal detectado en el intento "@ + decimal(attempt as nat) + "."@,
{
    let digits = decimal_string(attempt as u64);
    let mut v: Vec<char> = Vec::new();
    push_str(&mut v, "Canal detectado en el intento ");
    push_str(&mut v, digits.as_str());
    push_str(&mut v, ".");
    string_from_chars(&v)
}


// ---------------------------------------------------------------------------
// The preparation, step by step
// ---------------------------------------------------------------------------

/// The next piece of work of the one-time preparation, for the caller to do.
#[derive(Debug)]
pub enum PrepareStep {
    /// Look for the preparation payload.
    FindPayload,
    /// Make the work folder (logging `work_dir_line`) and stage the payload
    /// there.
    Stage { payload: String },
    /// Run the staged installer (`installer_attempts`).
    Install { exe: String },
    /// Wait `PREPARE_POLL_INTERVAL_MS`, then look for the shared channel:
    /// look number `attempt`.
    Poll { attempt: u32 },
    /// Stop: write the preparation marker with `prepared`, read the status and
    /// answer `prepared_result` (when prepared) or `unprepared_result`.
    Finish { prepared: bool },
    /// Stop: the channel was ready before anything was done
    /// (`already_ready_result`).
    AlreadyReady,
    /// Stop with this error.
    Fail(AudioError),
}

/// What the caller found doing the last piece of work.
#[derive(Debug)]
pub enum PrepareEvent {
    /// The setup status was read: whether the channel is ready.
    Started { ready: bool },
    /// The payload search ended, with the payload if one was found.
    PayloadSearched { payload: Option<String> },
    /// The payload was staged; the installer to run.
    Staged { exe: String },
    /// The installer ended with this exit code.
    InstallerExited { code: i32 },
    /// Look number `attempt` for the shared channel found it, or not.
    ChannelChecked { attempt: u32, present: bool },
}

/// The step after `event`, and the log line it adds: the channel already
/// ready ends the preparation; without a payload it fails; the payload is
/// staged, its installer run, then the channel is looked for up to
/// `PREPARE_POLL_ATTEMPTS` times, the preparation succeeding at the first
/// look that finds it and failing when none does.
pub fn next_prepare_step(event: PrepareEvent, log: &mut Vec<String>) -> (r: PrepareStep)
    requires
        event matches PrepareEvent::ChannelChecked { attempt, .. } ==> 1 <= attempt <= PREPARE_POLL_ATTEMPTS,
    ensures
        match event {
            PrepareEvent::Started { ready } => final(log)@ == old(log)@ && if ready {
                r is AlreadyReady
            } else {
                r is FindPayload
            },
            PrepareEvent::PayloadSearched { payload } => match payload {
                Some(p) => (r matches PrepareStep::Stage { payload: q } && q == p) && final(log)@.len() == old(log)@.len() + 1
                    && final(log)@.drop_last() == old(log)@ && final(log)@.last()@ == "Usando paquete: "@ + p@,
                None => (r matches PrepareStep::Fail(AudioError::Message(m)) && m@ == missing_payload_message())
                    && final(log)@ == old(log)@,
            },
            PrepareEvent::Staged { exe } => (r matches PrepareStep::Install { exe: e } && e == exe) && final(log)@.len()
                == old(log)@.len() + 1 && final(log)@.drop_last() == old(log)@ && final(log)@.last()@ == "Paquete preparado: "@
                + exe@,
            PrepareEvent::InstallerExited { code } => (r matches PrepareStep::Poll { attempt } && attempt == 1)
                && final(log)@.len() == old(log)@.len() + 1 && final(log)@.drop_last() == old(log)@ && final(log)@.last()@
                == "Instalador terminó con código "@ + signed_decimal(code as int),
            PrepareEvent::ChannelChecked { attempt, present } => if present {
                (r matches PrepareStep::Finish { prepared } && prepared) && final(log)@.len() == old(log)@.len() + 1
                    && final(log)@.drop_last() == old(log)@ && final(log)@.last()@ == "Canal detectado en el intento "@
                    + decimal(attempt as nat) + "."@
            } else if attempt < PREPARE_POLL_ATTEMPTS {
                (r matches PrepareStep::Poll { attempt: a } && a == attempt + 1) && final(log)@ == old(log)@
            } else {
                (r matches PrepareStep::Finish { prepared } && !prepared) && final(log)@ == old(log)@
            },
        },
{
    match event {
        PrepareEvent::Started { ready } => {
            if ready {
                PrepareStep::AlreadyReady
            } else {
                PrepareStep::FindPayload
            }
        },
        PrepareEvent::PayloadSearched { payload } => match payload {
            Some(p) => {
                log.push(using_payload_line(p.as_str()));
                PrepareStep::Stage { payload: p }
            },
            None => PrepareStep::Fail(SetupService::missing_payload_error()),
        },
        PrepareEvent::Staged { exe } => {
            log.push(staged_line(exe.as_str()));
            PrepareStep::Install { exe }
        },
        PrepareEvent::InstallerExited { code } => {
            log.push(installer_exit_line(code));
            PrepareStep::Poll { attempt: 1 }
        },
        PrepareEvent::ChannelChecked { attempt, present } => {
            if present {
                log.push(detected_line(attempt));
                PrepareStep::Finish { prepared: true }
            } else if attempt < PREPARE_POLL_ATTEMPTS {
                PrepareStep::Poll { attempt: attempt + 1 }
            } else {
                PrepareStep::Finish { prepared: false }
            }
        },
    }
}

} // verus!
