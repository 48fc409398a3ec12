//! Audio sessions: how a session reported by the system is described, and
//! the order sessions are listed in.

use crate::order::{is_stable_order, keys_view, permute, permuted, stable_order, OrderKey};
use crate::paths::{file_name_chars, file_name_of};
use crate::text::{
    str_eq,
    chars_ends_with, chars_of, clone_opt_string, decimal, decimal_chars, has_suffix, lower, lower_chars, push_str,
    string_from_chars, view_opt_string,
};
use crate::types::{playback_rank, PlaybackState};
use vstd::prelude::*;

verus! {

/// One audio session.  `volume_bits` holds the IEEE-754 bits of the
/// session's master volume level (a value from 0.0 to 1.0).
#[derive(Debug)]
pub struct AudioSessionInfo {
    pub session_id: String,
    pub pid: u32,
    pub display_name: String,
    pub exe_path: Option<String>,
    pub exe_name: Option<String>,
    pub icon_path: Option<String>,
    pub icon_data_url: Option<String>,
    pub state: PlaybackState,
    pub is_system_sounds: bool,
    pub volume_bits: u32,
    pub muted: bool,
    pub device_id: Option<String>,
    pub device_name: Option<String>,
}

impl Clone for AudioSessionInfo {
    fn clone(&self) -> (r: Self)
        ensures
            r == *self,
    {
        AudioSessionInfo {
            session_id: self.session_id.clone(),
            pid: self.pid,
            display_name: self.display_name.clone(),
            exe_path: clone_opt_string(&self.exe_path),
            exe_name: clone_opt_string(&self.exe_name),
            icon_path: clone_opt_string(&self.icon_path),
            icon_data_url: clone_opt_string(&self.icon_data_url),
            state: self.state,
            is_system_sounds: self.is_system_sounds,
            volume_bits: self.volume_bits,
            muted: self.muted,
            device_id: clone_opt_string(&self.device_id),
            device_name: clone_opt_string(&self.device_name),
        }
    }
}

/// What the system reports of one session on one render endpoint, with the
/// image path of its process and the icon already read.
#[derive(Debug)]
pub struct RawSession {
    /// Position of the session in its endpoint's enumeration.
    pub index: u32,
    pub pid: u32,
    pub state: PlaybackState,
    pub display_name: String,
    pub icon_path: Option<String>,
    pub session_identifier: Option<String>,
    pub session_instance_identifier: Option<String>,
    /// The system reports the session as its system-sounds session.
    pub reports_system_sounds: bool,
    pub volume_bits: u32,
    pub muted: bool,
    /// Image path of the process `pid`, when it could be read.
    pub process_path: Option<String>,
    /// Icon (as data URL) of the executable, when one could be read.
    pub exe_icon_data_url: Option<String>,
    /// Icon (as data URL) of the session's own icon path, when one could be read.
    pub session_icon_data_url: Option<String>,
    pub device_id: Option<String>,
    pub device_name: Option<String>,
}

/// The uppercase mapping of a character (`char::to_uppercase`), which may be
/// several characters.
pub uninterp spec fn char_uppercase(c: char) -> Seq<char>;

/// The uppercase form of `c`.
/// Trusted: `char::to_uppercase` of `std` yields the Unicode uppercase
/// mapping of `c`, named `char_uppercase`; its documentation states that
/// ASCII lowercase letters map to the ASCII uppercase letter and that other
/// ASCII characters map to themselves.
#[verifier::external_body]
fn uppercase_of(c: char) -> (r: String)
    ensures
        r@ == char_uppercase(c),
        ('a' <= c && c <= 'z') ==> r@ == seq![((c as u32) - 32) as char],
        ((c as u32) < 128 && !('a' <= c && c <= 'z')) ==> r@ == seq![c],
{
    c.to_uppercase().collect()
}

/// `s` with every trailing copy of `suffix` removed (`str::trim_end_matches`).
pub open spec fn trim_suffixes(s: Seq<char>, suffix: Seq<char>) -> Seq<char>
    decreases s.len(),
{
    if suffix.len() > 0 && has_suffix(s, suffix) {
        trim_suffixes(s.take(s.len() - suffix.len()), suffix)
    } else {
        s
    }
}

/// The name shown for an executable: without `.exe` / `.EXE` endings, first
/// character in uppercase.
pub open spec fn pretty_name(exe_name: Seq<char>) -> Seq<char> {
    let stem = trim_suffixes(trim_suffixes(exe_name, ".exe"@), ".EXE"@);
    if stem.len() == 0 {
        stem
    } else {
        char_uppercase(stem[0]) + stem.drop_first()
    }
}

fn trim_suffixes_exec(s: Vec<char>, suffix: &Vec<char>) -> (r: Vec<char>)
    ensures
        r@ == trim_suffixes(s@, suffix@),
    decreases s@.len(),
{
    if suffix.len() > 0 && chars_ends_with(&s, suffix) {
        let mut t = s;
        let keep = t.len() - suffix.len();
        t.truncate(keep);
        assert(t@ =~= s@.take(s@.len() - suffix@.len()));
        trim_suffixes_exec(t, suffix)
    } else {
        s
    }
}

/// The name shown for an executable file name.
pub fn pretty_app_name(exe_name: &str) -> (r: String)
    ensures
        r@ == pretty_name(exe_name@),
{
    let s1 = trim_suffixes_exec(chars_of(exe_name), &chars_of(".exe"));
    let stem = trim_suffixes_exec(s1, &chars_of(".EXE"));
    if stem.len() == 0 {
        return string_from_chars(&stem);
    }
    let up = uppercase_of(stem[0]);
    let mut v = chars_of(up.as_str());
    let mut k: usize = 1;
    while k < stem.len()
        invariant
            1 <= k <= stem@.len(),
            v@ == char_uppercase(stem@[0]) + stem@.subrange(1, k as int),
        decreases stem@.len() - k,
    {
        v.push(stem[k]);
        assert(v@ =~= char_uppercase(stem@[0]) + stem@.subrange(1, k + 1));
        k = k + 1;
    }
    assert(stem@.subrange(1, stem@.len() as int) =~= stem@.drop_first());
    string_from_chars(&v)
}

/// The name shown for a session: its own display name unless it is empty
/// or a resource reference (`@...`); else the pretty executable name; else
/// `Sonidos de Windows` for the system session; else `Proceso <pid>`.
pub open spec fn session_display(raw: Seq<char>, exe_name: Option<Seq<char>>, is_system: bool, pid: u32) -> Seq<char> {
    if raw.len() > 0 && raw[0] != '@' {
        raw
    } else if exe_name is Some {
        pretty_name(exe_name->0)
    } else if is_system {
        "Sonidos de Windows"@
    } else {
        "Proceso "@ + decimal(pid as nat)
    }
}

/// The name shown for a session.
pub fn session_display_name(raw: &str, exe_name: Option<&str>, is_system: bool, pid: u32) -> (r: String)
    ensures
        r@ == session_display(raw@, crate::text::view_opt_str(exe_name), is_system, pid),
{
    let rv = chars_of(raw);
    if rv.len() > 0 && rv[0] != '@' {
        return raw.to_owned();
    }
    match exe_name {
        Some(name) => pretty_app_name(name),
        None => {
            if is_system {
                "Sonidos de Windows".to_owned()
            } else {
                let mut v = chars_of("Proceso ");
                let mut d = decimal_chars(pid as u64);
                v.append(&mut d);
                string_from_chars(&v)
            }
        },
    }
}

/// The identifier used for a session without one: `pid-<pid>-<index>`.
pub open spec fn fallback_session_id(pid: u32, index: u32) -> Seq<char> {
    "pid-"@ + decimal(pid as nat) + "-"@ + decimal(index as nat)
}

fn fallback_session_identifier(pid: u32, index: u32) -> (r: String)
    ensures
        r@ == fallback_session_id(pid, index),
{
    let mut v = chars_of("pid-");
    let mut a = decimal_chars(pid as u64);
    v.append(&mut a);
    push_str(&mut v, "-");
    let mut b = decimal_chars(index as u64);
    v.append(&mut b);
    string_from_chars(&v)
}

/// The file name of an optional path.
pub open spec fn opt_file_name(path: Option<Seq<char>>) -> Option<Seq<char>> {
    match path {
        Some(p) => file_name_of(p),
        None => None,
    }
}

/// Sessions are listed playing first, then idle, recent and unknown, then by
/// lowercase display name.
pub open spec fn session_key(s: AudioSessionInfo) -> (u64, Seq<char>) {
    ((3 - playback_rank(s.state)) as u64, lower(s.display_name@))
}

pub open spec fn session_keys(sessions: Seq<AudioSessionInfo>) -> Seq<(u64, Seq<char>)> {
    sessions.map_values(|s: AudioSessionInfo| session_key(s))
}

/// Enumeration of the sessions of the render endpoints.
pub struct SessionService;

/// An instance identifier that was read and equals `id`.
pub open spec fn is_instance(o: Option<String>, id: Seq<char>) -> bool {
    o matches Some(s) && s@ == id
}

impl Default for SessionService {
    fn default() -> (r: Self) {
        SessionService
    }
}

impl SessionService {
    pub fn new() -> (r: Self) {
        SessionService
    }

    /// The session record for what the system reports of one session:
    /// it is identified by its instance identifier, else its session
    /// identifier, else `pid-<pid>-<index>`; it counts as system sounds
    /// exactly when its process id is 0; the
    /// executable path is kept only for a nonzero process id and the
    /// executable name is its file name; an empty icon path counts as none;
    /// the executable's icon is preferred to that of the icon path; the name
    /// shown follows `session_display`.
    pub fn describe_session(&self, raw: RawSession) -> (r: AudioSessionInfo)
        ensures
            r.pid == raw.pid,
            r.state == raw.state,
            r.volume_bits == raw.volume_bits,
            r.muted == raw.muted,
            r.device_id == raw.device_id,
            r.device_name == raw.device_name,
            r.is_system_sounds == (raw.pid == 0),
            r.exe_path == (if raw.pid > 0 { raw.process_path } else { None }),
            view_opt_string(r.exe_name) == opt_file_name(view_opt_string(r.exe_path)),
            r.icon_path == (match raw.icon_path {
                Some(p) => if p@.len() > 0 { Some(p) } else { None },
                None => None,
            }),
            r.icon_data_url == (if raw.exe_icon_data_url is Some {
                raw.exe_icon_data_url
            } else {
                raw.session_icon_data_url
            }),
            r.session_id@ == (match raw.session_instance_identifier {
                Some(id) => id@,
                None => match raw.session_identifier {
                    Some(id) => id@,
                    None => fallback_session_id(raw.pid, raw.index),
                },
            }),
            r.display_name@ == session_display(
                raw.display_name@,
                view_opt_string(r.exe_name),
                raw.reports_system_sounds && raw.pid == 0,
                raw.pid,
            ),
    {
        let pid = raw.pid;
        let is_system = raw.reports_system_sounds && pid == 0;
        let exe_path = if pid > 0 { raw.process_path } else { None };
        let exe_name: Option<String> = match &exe_path {
            Some(p) => match file_name_chars(p.as_str()) {
                Some(n) => Some(string_from_chars(&n)),
                None => None,
            },
            None => None,
        };
        let identifier = match raw.session_identifier {
            Some(id) => id,
            None => fallback_session_identifier(pid, raw.index),
        };
        let instance = match raw.session_instance_identifier {
            Some(id) => id,
            None => identifier,
        };
        let icon_path = match raw.icon_path {
            Some(p) => if chars_of(p.as_str()).len() > 0 { Some(p) } else { None },
            None => None,
        };
        let icon = match raw.exe_icon_data_url {
            Some(u) => Some(u),
            None => raw.session_icon_data_url,
        };
        let exe_name_ref: Option<&str> = match &exe_name {
            Some(n) => Some(n.as_str()),
            None => None,
        };
        let display = session_display_name(raw.display_name.as_str(), exe_name_ref, is_system, pid);
        AudioSessionInfo {
            session_id: instance,
            pid,
            display_name: display,
            exe_path,
            exe_name,
            icon_path,
            icon_data_url: icon,
            state: raw.state,
            is_system_sounds: is_system || pid == 0,
            volume_bits: raw.volume_bits,
            muted: raw.muted,
            device_id: raw.device_id,
            device_name: raw.device_name,
        }
    }

    /// The sessions in list order: stably sorted by `session_key`.
    pub fn list_sessions(&self, sessions: Vec<AudioSessionInfo>) -> (r: Vec<AudioSessionInfo>)
        ensures
            exists|perm: Seq<usize>| is_stable_order(session_keys(sessions@), perm) && r@ == permuted(sessions@, perm),
    {
        let n = sessions.len();
        let mut keys: Vec<OrderKey> = Vec::new();
        for i in 0..n
            invariant
                n == sessions@.len(),
                keys_view(keys@) == session_keys(sessions@.take(i as int)),
        {
            let s = &sessions[i];
            let key = OrderKey { rank: 3 - s.state.rank(), text: lower_chars(&chars_of(s.display_name.as_str())) };
            let ghost old_keys = keys@;
            keys.push(key);
            assert(keys_view(keys@) =~= keys_view(old_keys).push(key@));
            assert(sessions@.take(i + 1) =~= sessions@.take(i as int).push(sessions@[i as int]));
            assert(session_keys(sessions@.take(i + 1)) =~= session_keys(sessions@.take(i as int)).push(
                session_key(sessions@[i as int]),
            ));
        }
        assert(sessions@.take(n as int) =~= sessions@);
        let perm = stable_order(&keys);
        permute(sessions, &perm)
    }

    /// Which of the sessions found on the render endpoints, listed by their
    /// instance identifiers (none when it could not be read), is the one
    /// to mute or unmute: the first whose identifier is `session_id`.
    pub fn find_session_instance(&self, instance_ids: &[Option<String>], session_id: &str) -> (r: Option<usize>)
        ensures
            match r {
                Some(i) => i < instance_ids@.len() && is_instance(instance_ids@[i as int], session_id@)
                    && forall|j: int| 0 <= j < i ==> !is_instance(#[trigger] instance_ids@[j], session_id@),
                None => forall|j: int| 0 <= j < instance_ids@.len() ==> !is_instance(#[trigger] instance_ids@[j], session_id@),
            },
    {
        let mut i: usize = 0;
        while i < instance_ids.len()
            invariant
                i <= instance_ids@.len(),
                forall|j: int| 0 <= j < i ==> !is_instance(#[trigger] instance_ids@[j], session_id@),
            decreases instance_ids@.len() - i,
        {
            match &instance_ids[i] {
                Some(id) => {
                    if str_eq(id.as_str(), session_id) {
                        return Some(i);
                    }
                },
                None => {},
            }
            i += 1;
        }
        None
    }
}

} // verus!
