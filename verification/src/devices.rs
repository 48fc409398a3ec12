//! Render devices: which are virtual shared channels, which are physical
//! outputs, and which one is chosen for each role.

use crate::error::{AudioError, Result};
use crate::order::{
    first_where, opt_index, is_stable_order, key_less, lemma_first_where, lemma_first_where_at, lemma_first_where_none,
    permute, permuted, stable_order, OrderKey, keys_view,
};
use crate::text::{
    chars_contains, chars_eq, chars_of, clone_opt_string, is_infix, lemma_lower_idempotent, lower, lower_chars,
    str_eq, view_opt_str, view_opt_string,
};
use crate::{KNOWN_VIRTUAL_DEVICE_HINTS, SHARED_DEVICE_FRIENDLY_NAME};
use vstd::prelude::*;

verus! {

/// An active render endpoint.
#[derive(Debug)]
pub struct AudioDevice {
    pub id: String,
    pub name: String,
    pub description: Option<String>,
    pub is_default_multimedia: bool,
    pub is_default_communications: bool,
    pub is_virtual_shared_candidate: bool,
    pub is_physical_candidate: bool,
    pub state: u32,
}

impl Clone for AudioDevice {
    fn clone(&self) -> (r: Self)
        ensures
            r == *self,
    {
        AudioDevice {
            id: self.id.clone(),
            name: self.name.clone(),
            description: clone_opt_string(&self.description),
            is_default_multimedia: self.is_default_multimedia,
            is_default_communications: self.is_default_communications,
            is_virtual_shared_candidate: self.is_virtual_shared_candidate,
            is_physical_candidate: self.is_physical_candidate,
            state: self.state,
        }
    }
}

/// What the system reports of one active render endpoint.
#[derive(Debug)]
pub struct RenderEndpoint {
    pub id: String,
    pub friendly_name: Option<String>,
    pub description: Option<String>,
}

/// Default-device role.
#[derive(Debug, Clone, Copy, PartialEq, Eq, Structural)]
pub enum DefaultRole {
    Multimedia,
    Communications,
}

/// The state value of an active endpoint (`DEVICE_STATE_ACTIVE`).
pub const DEVICE_STATE_ACTIVE: u32 = 1;

// ---------------------------------------------------------------------------
// Name rules
// ---------------------------------------------------------------------------

/// `lit` occurs in the lowercased `name`.
pub open spec fn name_has(name: Seq<char>, lit: Seq<char>) -> bool {
    is_infix(lit, lower(name))
}

/// The name fragments that mark a virtual device.
pub open spec fn virtual_hints() -> Seq<Seq<char>> {
    seq![
        "Audio compartido"@,
        "CABLE Input"@,
        "CABLE Output"@,
        "VB-Audio"@,
        "VB-Cable"@,
        "Voicemeeter"@,
        "Virtual Cable"@,
        "Virtual Audio"@,
        "NoEcho Shared"@,
    ]
}

/// The text searched for virtual-device hints: the name, a space and the
/// description, lowercased.
pub open spec fn device_haystack(name: Seq<char>, description: Option<Seq<char>>) -> Seq<char> {
    let desc = match description {
        Some(d) => d,
        None => Seq::empty(),
    };
    lower(name.push(' ') + desc)
}

/// A device is a virtual (shared-channel) candidate when its name or
/// description mentions Steam Streaming or one of the known hints.
pub open spec fn virtual_candidate(name: Seq<char>, description: Option<Seq<char>>) -> bool {
    let hay = device_haystack(name, description);
    is_infix("steam streaming"@, hay) || exists|i: int|
        0 <= i < virtual_hints().len() && is_infix(lower(#[trigger] virtual_hints()[i]), hay)
}

/// Cable A or Cable B, used by microphone effect chains.
pub open spec fn mic_chain_name(name: Seq<char>) -> bool {
    ||| name_has(name, "cable-a"@)
    ||| name_has(name, "cable a"@)
    ||| name_has(name, "cable-b"@)
    ||| name_has(name, "cable b"@)
}

/// A virtual device that may be chosen as shared channel automatically.
pub open spec fn preferred_shared_name(name: Seq<char>) -> bool {
    if mic_chain_name(name) {
        false
    } else if name_has(name, "steam streaming"@) {
        false
    } else {
        ||| name_has(name, "audio compartido"@)
        ||| name_has(name, "noecho"@)
        ||| (name_has(name, "cable"@) && name_has(name, "input"@))
        ||| name_has(name, "vb-audio"@)
        ||| name_has(name, "vb-cable"@)
        ||| name_has(name, "virtual cable"@)
    }
}

/// Preference score of a shared channel; lower is better.
pub open spec fn shared_score(name: Seq<char>) -> i32 {
    let is_a = name_has(name, "cable-a"@) || name_has(name, "cable a"@);
    let is_b = name_has(name, "cable-b"@) || name_has(name, "cable b"@);
    if name_has(name, "audio compartido"@) || name_has(name, "noecho"@) {
        0
    } else if name_has(name, "steam streaming"@) {
        100
    } else if is_a || is_b {
        if is_a {
            80
        } else {
            90
        }
    } else if name_has(name, "cable"@) && name_has(name, "input"@) {
        1
    } else if name_has(name, "vb-audio"@) || name_has(name, "vb-cable"@) || name_has(name, "virtual cable"@) {
        2
    } else {
        10
    }
}

fn has(lname: &Vec<char>, lit: &str) -> (r: bool)
    ensures
        r == is_infix(lit@, lname@),
{
    chars_contains(lname, &chars_of(lit))
}

/// Preference score of a shared channel by name; lower is better.
pub fn shared_device_score(name: &str) -> (r: i32)
    ensures
        r == shared_score(name@),
{
    let n = lower_chars(&chars_of(name));
    if has(&n, "audio compartido") || has(&n, "noecho") {
        return 0;
    }
    let is_a = has(&n, "cable-a") || has(&n, "cable a");
    let is_b = has(&n, "cable-b") || has(&n, "cable b");
    if has(&n, "steam streaming") {
        return 100;
    }
    if is_a || is_b {
        return if is_a {
            80
        } else {
            90
        };
    }
    if has(&n, "cable") && has(&n, "input") {
        return 1;
    }
    if has(&n, "vb-audio") || has(&n, "vb-cable") || has(&n, "virtual cable") {
        return 2;
    }
    10
}

/// Whether the device belongs to a microphone effect chain (Cable A/B).
pub fn is_mic_chain_virtual(name: &str) -> (r: bool)
    ensures
        r == mic_chain_name(name@),
{
    let n = lower_chars(&chars_of(name));
    has(&n, "cable-a") || has(&n, "cable a") || has(&n, "cable-b") || has(&n, "cable b")
}

/// Whether a virtual device may be chosen as shared channel automatically.
pub fn is_preferred_shared_virtual(name: &str) -> (r: bool)
    ensures
        r == preferred_shared_name(name@),
{
    let n = lower_chars(&chars_of(name));
    if has(&n, "cable-a") || has(&n, "cable a") || has(&n, "cable-b") || has(&n, "cable b") {
        return false;
    }
    if has(&n, "steam streaming") {
        return false;
    }
    has(&n, "audio compartido") || has(&n, "noecho") || (has(&n, "cable") && has(&n, "input")) || has(
        &n,
        "vb-audio",
    ) || has(&n, "vb-cable") || has(&n, "virtual cable")
}

/// Whether a device with this name and description is a virtual channel.
pub fn is_virtual_candidate(name: &str, description: Option<&str>) -> (r: bool)
    ensures
        r == virtual_candidate(name@, view_opt_str(description)),
{
    let mut hay_raw = chars_of(name);
    hay_raw.push(' ');
    let ghost spaced = hay_raw@;
    if let Some(d) = description {
        let mut dv = chars_of(d);
        hay_raw.append(&mut dv);
    } else {
        assert(spaced + Seq::<char>::empty() =~= spaced);
    }
    let hay = lower_chars(&hay_raw);
    assert(hay@ == device_haystack(name@, view_opt_str(description)));
    if has(&hay, "steam streaming") {
        assert(virtual_candidate(name@, view_opt_str(description)));
        return true;
    }
    let mut i: usize = 0;
    while i < 9
        invariant
            i <= 9,
            hay@ == device_haystack(name@, view_opt_str(description)),
            !is_infix("steam streaming"@, hay@),
            forall|j: int| 0 <= j < i ==> !is_infix(lower(#[trigger] virtual_hints()[j]), hay@),
        decreases 9 - i,
    {
        let hint = lower_chars(&chars_of(KNOWN_VIRTUAL_DEVICE_HINTS[i]));
        assert(KNOWN_VIRTUAL_DEVICE_HINTS[i as int]@ == virtual_hints()[i as int]);
        if chars_contains(&hay, &hint) {
            assert(is_infix(lower(virtual_hints()[i as int]), hay@));
            return true;
        }
        i = i + 1;
    }
    false
}

// ---------------------------------------------------------------------------
// Device list
// ---------------------------------------------------------------------------

/// The device record built from an endpoint report.
pub open spec fn device_from_endpoint(
    e: RenderEndpoint,
    default_multimedia_id: Option<Seq<char>>,
    default_communications_id: Option<Seq<char>>,
) -> AudioDevice {
    let name = match e.friendly_name {
        Some(n) => n,
        None => e.id,
    };
    let is_virtual = virtual_candidate(name@, view_opt_string(e.description));
    AudioDevice {
        id: e.id,
        name: name,
        description: e.description,
        is_default_multimedia: default_multimedia_id == Some(e.id@),
        is_default_communications: default_communications_id == Some(e.id@),
        is_virtual_shared_candidate: is_virtual,
        is_physical_candidate: !is_virtual,
        state: DEVICE_STATE_ACTIVE,
    }
}

/// Devices are listed physical ones first, then by lowercase name.
pub open spec fn device_key(d: AudioDevice) -> (u64, Seq<char>) {
    (if d.is_physical_candidate { 0u64 } else { 1u64 }, lower(d.name@))
}

pub open spec fn device_keys(devs: Seq<AudioDevice>) -> Seq<(u64, Seq<char>)> {
    devs.map_values(|d: AudioDevice| device_key(d))
}

/// `res` is `devs` stably sorted by `device_key`.
pub open spec fn is_sorted_device_list(devs: Seq<AudioDevice>, res: Seq<AudioDevice>) -> bool {
    exists|perm: Seq<usize>| is_stable_order(device_keys(devs), perm) && res == permuted(devs, perm)
}

// ---------------------------------------------------------------------------
// Choices
// ---------------------------------------------------------------------------

/// A device the library may pick as shared channel on its own.
pub open spec fn auto_shared(d: AudioDevice) -> bool {
    d.is_virtual_shared_candidate && preferred_shared_name(d.name@)
}

/// Device `i` is an automatic shared candidate with the lowest score.
pub open spec fn best_auto_shared(devs: Seq<AudioDevice>, i: int) -> bool {
    &&& auto_shared(devs[i])
    &&& forall|j: int| 0 <= j < devs.len() && auto_shared(#[trigger] devs[j]) ==> shared_score(devs[i].name@) <= shared_score(devs[j].name@)
}

/// Position `i` holds the device with this id.
pub open spec fn id_pred(devs: Seq<AudioDevice>, id: Seq<char>) -> spec_fn(int) -> bool {
    |i: int| devs[i].id@ == id
}

/// Position `i` holds the physical device with this id.
pub open spec fn physical_id_pred(devs: Seq<AudioDevice>, id: Seq<char>) -> spec_fn(int) -> bool {
    |i: int| devs[i].id@ == id && devs[i].is_physical_candidate
}

/// Position `i` holds a device named `Audio compartido`, up to ASCII case.
pub open spec fn shared_name_pred(devs: Seq<AudioDevice>) -> spec_fn(int) -> bool {
    |i: int| lower(devs[i].name@) == lower("Audio compartido"@)
}

/// Position `i` holds a best automatic shared candidate.
pub open spec fn best_auto_shared_pred(devs: Seq<AudioDevice>) -> spec_fn(int) -> bool {
    |i: int| best_auto_shared(devs, i)
}

/// A flag of a device that a search looks at.
#[derive(Clone, Copy)]
pub enum DeviceFlag {
    DefaultMultimedia,
    DefaultCommunications,
    DefaultPhysical,
    Physical,
}

pub open spec fn flag_holds(d: AudioDevice, f: DeviceFlag) -> bool {
    match f {
        DeviceFlag::DefaultMultimedia => d.is_default_multimedia,
        DeviceFlag::DefaultCommunications => d.is_default_communications,
        DeviceFlag::DefaultPhysical => d.is_default_multimedia && d.is_physical_candidate,
        DeviceFlag::Physical => d.is_physical_candidate,
    }
}

/// Position `i` holds a device with flag `f`.
pub open spec fn flag_pred(devs: Seq<AudioDevice>, f: DeviceFlag) -> spec_fn(int) -> bool {
    |i: int| flag_holds(devs[i], f)
}

/// The shared channel: the device with the preferred id; else the one named
/// `Audio compartido` (any case); else the first automatic candidate with the
/// lowest score; else none (Cable A/B are never chosen automatically).
pub open spec fn shared_choice(devs: Seq<AudioDevice>, preferred_id: Option<Seq<char>>) -> Option<int> {
    let n = devs.len();
    let by_id = match preferred_id {
        Some(id) => first_where(n, id_pred(devs, id)),
        None => None,
    };
    let by_name = first_where(n, shared_name_pred(devs));
    if by_id is Some {
        by_id
    } else if by_name is Some {
        by_name
    } else {
        first_where(n, best_auto_shared_pred(devs))
    }
}

/// The physical output: the physical device with the preferred id; else,
/// when falling back to the default, the physical default multimedia device;
/// else the first physical device.
pub open spec fn physical_choice(
    devs: Seq<AudioDevice>,
    preferred_id: Option<Seq<char>>,
    fallback_to_default: bool,
) -> Option<int> {
    let n = devs.len();
    let by_id = match preferred_id {
        Some(id) => first_where(n, physical_id_pred(devs, id)),
        None => None,
    };
    let by_default = if fallback_to_default {
        first_where(n, flag_pred(devs, DeviceFlag::DefaultPhysical))
    } else {
        None
    };
    if by_id is Some {
        by_id
    } else if by_default is Some {
        by_default
    } else {
        first_where(n, flag_pred(devs, DeviceFlag::Physical))
    }
}

/// The physical output chosen, if any, is a device of the list that is a
/// physical candidate.
pub proof fn lemma_physical_choice_is_physical(devs: Seq<AudioDevice>, preferred_id: Option<Seq<char>>, fallback_to_default: bool)
    ensures
        physical_choice(devs, preferred_id, fallback_to_default) matches Some(i) ==> 0 <= i < devs.len()
            && devs[i].is_physical_candidate,
{
    let n = devs.len();
    if let Some(id) = preferred_id {
        lemma_first_where(n, physical_id_pred(devs, id));
    }
    lemma_first_where(n, flag_pred(devs, DeviceFlag::DefaultPhysical));
    lemma_first_where(n, flag_pred(devs, DeviceFlag::Physical));
}

/// The device that is default for `role`.
pub open spec fn default_choice(devs: Seq<AudioDevice>, role: DefaultRole) -> Option<int> {
    match role {
        DefaultRole::Multimedia => first_where(devs.len(), flag_pred(devs, DeviceFlag::DefaultMultimedia)),
        DefaultRole::Communications => first_where(devs.len(), flag_pred(devs, DeviceFlag::DefaultCommunications)),
    }
}

/// Selection among the render devices the caller enumerated.
pub struct DeviceService;

impl Default for DeviceService {
    fn default() -> (r: Self) {
        DeviceService
    }
}

fn first_with_id(devices: &[AudioDevice], id: &str, physical_only: bool) -> (r: Option<usize>)
    ensures
        r matches Some(i) ==> i < devices@.len(),
        opt_index(r) == if physical_only {
            first_where(devices@.len(), physical_id_pred(devices@, id@))
        } else {
            first_where(devices@.len(), id_pred(devices@, id@))
        },
{
    let ghost p = if physical_only {
        physical_id_pred(devices@, id@)
    } else {
        id_pred(devices@, id@)
    };
    let n = devices.len();
    let mut i: usize = 0;
    while i < n
        invariant
            n == devices@.len(),
            i <= n,
            p == (if physical_only {
                physical_id_pred(devices@, id@)
            } else {
                id_pred(devices@, id@)
            }),
            forall|j: int| 0 <= j < i ==> !#[trigger] p(j),
        decreases n - i,
    {
        if str_eq(devices[i].id.as_str(), id) && (!physical_only || devices[i].is_physical_candidate) {
            proof {
                lemma_first_where_at(n as nat, p, i as int);
            }
            return Some(i);
        }
        i = i + 1;
    }
    proof {
        lemma_first_where_none(n as nat, p);
    }
    None
}

fn first_with_flag(devices: &[AudioDevice], f: DeviceFlag) -> (r: Option<usize>)
    ensures
        r matches Some(i) ==> i < devices@.len(),
        opt_index(r) == first_where(devices@.len(), flag_pred(devices@, f)),
{
    let ghost p = flag_pred(devices@, f);
    let n = devices.len();
    let mut i: usize = 0;
    while i < n
        invariant
            n == devices@.len(),
            i <= n,
            p == flag_pred(devices@, f),
            forall|j: int| 0 <= j < i ==> !#[trigger] p(j),
        decreases n - i,
    {
        let d = &devices[i];
        let hit = match f {
            DeviceFlag::DefaultMultimedia => d.is_default_multimedia,
            DeviceFlag::DefaultCommunications => d.is_default_communications,
            DeviceFlag::DefaultPhysical => d.is_default_multimedia && d.is_physical_candidate,
            DeviceFlag::Physical => d.is_physical_candidate,
        };
        if hit {
            proof {
                lemma_first_where_at(n as nat, p, i as int);
            }
            return Some(i);
        }
        i = i + 1;
    }
    proof {
        lemma_first_where_none(n as nat, p);
    }
    None
}

impl DeviceService {
    pub fn new() -> (r: Self) {
        DeviceService
    }

    /// The device list built from the endpoints the system reports, with the
    /// default multimedia and communications endpoint ids: each endpoint is
    /// named by its friendly name (else its id), classified as virtual or
    /// physical, and the list is sorted physical first, then by lowercase
    /// name, keeping the reported order among equals.
    pub fn list_render_devices(
        &self,
        endpoints: &[RenderEndpoint],
        default_multimedia_id: Option<&str>,
        default_communications_id: Option<&str>,
    ) -> (r: Vec<AudioDevice>)
        ensures
            is_sorted_device_list(
                endpoints@.map_values(
                    |e: RenderEndpoint|
                        device_from_endpoint(
                            e,
                            view_opt_str(default_multimedia_id),
                            view_opt_str(default_communications_id),
                        ),
                ),
                r@,
            ),
    {
        let ghost built = endpoints@.map_values(
            |e: RenderEndpoint|
                device_from_endpoint(
                    e,
                    view_opt_str(default_multimedia_id),
                    view_opt_str(default_communications_id),
                ),
        );
        let n = endpoints.len();
        let mut devices: Vec<AudioDevice> = Vec::new();
        let mut keys: Vec<OrderKey> = Vec::new();
        for i in 0..n
            invariant
                n == endpoints@.len(),
                built.len() == n,
                built == endpoints@.map_values(
                    |e: RenderEndpoint|
                        device_from_endpoint(
                            e,
                            view_opt_str(default_multimedia_id),
                            view_opt_str(default_communications_id),
                        ),
                ),
                devices@ == built.take(i as int),
                keys_view(keys@) == device_keys(built.take(i as int)),
        {
            let e = &endpoints[i];
            let name = match &e.friendly_name {
                Some(nm) => nm.clone(),
                None => e.id.clone(),
            };
            let desc_ref: Option<&str> = match &e.description {
                Some(d) => Some(d.as_str()),
                None => None,
            };
            let is_virtual = is_virtual_candidate(name.as_str(), desc_ref);
            proof {
                assert(view_opt_str(desc_ref) == view_opt_string(e.description));
            }
            let is_mm = match default_multimedia_id {
                Some(id) => str_eq(id, e.id.as_str()),
                None => false,
            };
            let is_comm = match default_communications_id {
                Some(id) => str_eq(id, e.id.as_str()),
                None => false,
            };
            let text = lower_chars(&chars_of(name.as_str()));
            let d = AudioDevice {
                id: e.id.clone(),
                name: name,
                description: clone_opt_string(&e.description),
                is_default_multimedia: is_mm,
                is_default_communications: is_comm,
                is_virtual_shared_candidate: is_virtual,
                is_physical_candidate: !is_virtual,
                state: DEVICE_STATE_ACTIVE,
            };
            assert(d == built[i as int]);
            let key = OrderKey { rank: if is_virtual { 1 } else { 0 }, text };
            assert(key@ == device_key(built[i as int]));
            let ghost old_keys = keys@;
            keys.push(key);
            assert(keys@ == old_keys.push(key));
            assert(keys_view(keys@) =~= keys_view(old_keys).push(keys@[i as int]@));
            assert(built.take(i + 1) =~= built.take(i as int).push(built[i as int]));
            assert(device_keys(built.take(i + 1)) =~= device_keys(built.take(i as int)).push(device_key(built[i as int])));
            devices.push(d);
            assert(devices@ =~= built.take(i + 1));
            assert(keys_view(keys@) =~= device_keys(built.take(i + 1)));
        }
        assert(built.take(n as int) =~= built);
        let perm = stable_order(&keys);
        permute(devices, &perm)
    }

    /// The default device for `role`.
    pub fn get_default_render(&self, devices: &[AudioDevice], role: DefaultRole) -> (r: Result<AudioDevice>)
        ensures
            match default_choice(devices@, role) {
                Some(i) => r == Ok::<AudioDevice, AudioError>(devices@[i]),
                None => r matches Err(AudioError::DeviceNotFound(m)) && m@ == "default render device"@,
            },
    {
        let found = match role {
            DefaultRole::Multimedia => first_with_flag(devices, DeviceFlag::DefaultMultimedia),
            DefaultRole::Communications => first_with_flag(devices, DeviceFlag::DefaultCommunications),
        };
        match found {
            Some(i) => Ok(devices[i].clone()),
            None => Err(AudioError::DeviceNotFound("default render device".to_owned())),
        }
    }

    /// The device with this id.
    pub fn find_by_id(&self, devices: &[AudioDevice], id: &str) -> (r: Result<AudioDevice>)
        ensures
            match first_where(devices@.len(), |i: int| devices@[i].id@ == id@) {
                Some(i) => r == Ok::<AudioDevice, AudioError>(devices@[i]),
                None => r matches Err(AudioError::DeviceNotFound(m)) && m@ == id@,
            },
    {
        match first_with_id(devices, id, false) {
            Some(i) => Ok(devices[i].clone()),
            None => Err(AudioError::DeviceNotFound(id.to_owned())),
        }
    }

    /// The shared channel (see `shared_choice`).
    pub fn find_shared_candidate(&self, devices: &[AudioDevice], preferred_id: Option<&str>) -> (r: Option<AudioDevice>)
        ensures
            match shared_choice(devices@, view_opt_str(preferred_id)) {
                Some(i) => r == Some(devices@[i]),
                None => r is None,
            },
    {
        let n = devices.len();
        let ghost devs = devices@;
        if let Some(id) = preferred_id {
            if let Some(i) = first_with_id(devices, id, false) {
                return Some(devices[i].clone());
            }
        }
        // The device named like the managed shared endpoint.
        let wanted = lower_chars(&chars_of(SHARED_DEVICE_FRIENDLY_NAME));
        let ghost pn = shared_name_pred(devs);
        let mut i: usize = 0;
        while i < n
            invariant
                n == devs.len(),
                devs == devices@,
                i <= n,
                wanted@ == lower("Audio compartido"@),
                pn == shared_name_pred(devs),
                match view_opt_str(preferred_id) {
                    Some(id) => first_where(n as nat, id_pred(devs, id)) is None,
                    None => true,
                },
                forall|j: int| 0 <= j < i ==> !#[trigger] pn(j),
            decreases n - i,
        {
            let nm = lower_chars(&chars_of(devices[i].name.as_str()));
            if chars_eq(&nm, &wanted) {
                proof {
                    lemma_first_where_at(n as nat, pn, i as int);
                }
                return Some(devices[i].clone());
            }
            i = i + 1;
        }
        proof {
            lemma_first_where_none(n as nat, pn);
        }
        // The automatic candidate with the lowest score, first among equals.
        let mut best: Option<usize> = None;
        let mut best_score: i32 = 0;
        let mut k: usize = 0;
        while k < n
            invariant
                n == devs.len(),
                devs == devices@,
                k <= n,
                match best {
                    Some(b) => {
                        &&& b < k
                        &&& auto_shared(devs[b as int])
                        &&& best_score == shared_score(devs[b as int].name@)
                        &&& forall|j: int| 0 <= j < k && auto_shared(#[trigger] devs[j]) ==> best_score <= shared_score(devs[j].name@)
                        &&& forall|j: int| 0 <= j < b && auto_shared(#[trigger] devs[j]) ==> best_score < shared_score(devs[j].name@)
                    },
                    None => forall|j: int| 0 <= j < k ==> !auto_shared(#[trigger] devs[j]),
                },
            decreases n - k,
        {
            let d = &devices[k];
            if d.is_virtual_shared_candidate && is_preferred_shared_virtual(d.name.as_str()) {
                let s = shared_device_score(d.name.as_str());
                let better = match best {
                    Some(_) => s < best_score,
                    None => true,
                };
                if better {
                    best = Some(k);
                    best_score = s;
                }
            }
            k = k + 1;
        }
        let ghost pb = best_auto_shared_pred(devs);
        match best {
            Some(b) => {
                proof {
                    assert forall|j: int| 0 <= j < b implies !#[trigger] pb(j) by {
                        if auto_shared(devs[j]) {
                            assert(shared_score(devs[j].name@) > shared_score(devs[b as int].name@));
                        }
                    }
                    lemma_first_where_at(n as nat, pb, b as int);
                }
                Some(devices[b].clone())
            },
            None => {
                proof {
                    lemma_first_where_none(n as nat, pb);
                }
                None
            },
        }
    }

    /// The physical output (see `physical_choice`).
    pub fn choose_physical(&self, devices: &[AudioDevice], preferred_id: Option<&str>, fallback_to_default: bool) -> (r: Result<AudioDevice>)
        ensures
            match physical_choice(devices@, view_opt_str(preferred_id), fallback_to_default) {
                Some(i) => r == Ok::<AudioDevice, AudioError>(devices@[i]),
                None => r matches Err(AudioError::PhysicalDeviceUnavailable(m)) && m@ == "no physical render device"@,
            },
    {
        if let Some(id) = preferred_id {
            if let Some(i) = first_with_id(devices, id, true) {
                return Ok(devices[i].clone());
            }
        }
        if fallback_to_default {
            let found = first_with_flag(devices, DeviceFlag::DefaultPhysical);
            if let Some(i) = found {
                return Ok(devices[i].clone());
            }
        }
        let found = first_with_flag(devices, DeviceFlag::Physical);
        match found {
            Some(i) => Ok(devices[i].clone()),
            None => Err(AudioError::PhysicalDeviceUnavailable("no physical render device".to_owned())),
        }
    }
}


/// A system default-endpoint role, as `SetDefaultEndpoint` takes it.
#[derive(Debug, Clone, Copy, PartialEq, Eq, Structural)]
pub enum SystemRole {
    Console,
    Multimedia,
    Communications,
}

/// The system role that a library role sets.
pub open spec fn system_role_of(role: DefaultRole) -> SystemRole {
    match role {
        DefaultRole::Multimedia => SystemRole::Multimedia,
        DefaultRole::Communications => SystemRole::Communications,
    }
}

/// One call of `SetDefaultEndpoint`: which device, for which system role,
/// and whether its failure fails the whole change.
#[derive(Debug)]
pub struct DefaultEndpointCall {
    pub device_id: String,
    pub role: SystemRole,
    pub must_succeed: bool,
}

/// Whether `c` is the call that sets `id` for `role`.
pub open spec fn is_endpoint_call(c: DefaultEndpointCall, id: Seq<char>, role: SystemRole, must_succeed: bool) -> bool {
    c.device_id@ == id && c.role == role && c.must_succeed == must_succeed
}

/// The calls that make `device_id` the default for `role`: first the role
/// itself, which must succeed; for the multimedia role then also the console
/// role, whose failure is ignored.
pub fn set_default_endpoint(device_id: &str, role: DefaultRole) -> (r: Vec<DefaultEndpointCall>)
    ensures
        r@.len() == (if role == DefaultRole::Multimedia { 2int } else { 1int }),
        is_endpoint_call(r@[0], device_id@, system_role_of(role), true),
        role == DefaultRole::Multimedia ==> is_endpoint_call(r@[1], device_id@, SystemRole::Console, false),
{
    let mut r: Vec<DefaultEndpointCall> = Vec::new();
    let first = match role {
        DefaultRole::Multimedia => SystemRole::Multimedia,
        DefaultRole::Communications => SystemRole::Communications,
    };
    r.push(DefaultEndpointCall { device_id: device_id.to_owned(), role: first, must_succeed: true });
    if role == DefaultRole::Multimedia {
        r.push(DefaultEndpointCall { device_id: device_id.to_owned(), role: SystemRole::Console, must_succeed: false });
    }
    r
}

} // verus!
