//! Grouping of audio sessions by application family.

use crate::order::{
    first_where, insert_sorted_text, is_stable_order, keys_view, lemma_first_where, lemma_first_where_at,
    lemma_first_where_none, opt_index, permute, permuted, stable_order, texts_increasing, texts_view, OrderKey,
};
use crate::process::{critical_process, insert_sorted, is_critical_system_process, strictly_increasing};
use crate::sessions::AudioSessionInfo;
use crate::text::{
    chars_eq, chars_of, chars_starts_with, clone_opt_string, decimal, decimal_chars, eq_ignore_ascii_case,
    has_prefix, lower, lower_chars, push_str, string_from_chars, view_opt_string,
};
use crate::types::{clone_identities, playback_label, playback_rank, AppIdentity, PlaybackState};
use vstd::prelude::*;

verus! {

/// One application family with its sessions.  `volume_bits` holds the
/// IEEE-754 bits of the family's loudest session level.
#[derive(Debug)]
pub struct AppAudioGroup {
    pub id: String,
    pub identity: AppIdentity,
    pub display_name: String,
    pub exe_name: String,
    pub exe_path: Option<String>,
    pub icon_data_url: Option<String>,
    pub state: PlaybackState,
    pub session_count: usize,
    pub pids: Vec<u32>,
    pub excluded: bool,
    pub is_system: bool,
    pub is_critical: bool,
    pub volume_bits: u32,
    pub device_names: Vec<String>,
}

// ---------------------------------------------------------------------------
// Specification
// ---------------------------------------------------------------------------

/// The family key of a session: `system-sounds` for the system session;
/// else its lowercase executable name; else `pid:<pid>`.
pub open spec fn group_key(s: AudioSessionInfo) -> Seq<char> {
    if s.is_system_sounds {
        "system-sounds"@
    } else {
        match s.exe_name {
            Some(n) => if n@.len() > 0 {
                lower(n@)
            } else {
                "pid:"@ + decimal(s.pid as nat)
            },
            None => "pid:"@ + decimal(s.pid as nat),
        }
    }
}

/// The sessions of family `k`, in order.
pub open spec fn items_with_key(ss: Seq<AudioSessionInfo>, k: Seq<char>) -> Seq<AudioSessionInfo>
    decreases ss.len(),
{
    if ss.len() == 0 {
        Seq::empty()
    } else {
        let rest = items_with_key(ss.drop_last(), k);
        if group_key(ss.last()) == k {
            rest.push(ss.last())
        } else {
            rest
        }
    }
}

/// `ks` lists the family keys of the sessions, each once, in increasing order.
pub open spec fn is_key_list(ss: Seq<AudioSessionInfo>, ks: Seq<Seq<char>>) -> bool {
    &&& texts_increasing(ks)
    &&& forall|k: Seq<char>| ks.contains(k) <==> exists|i: int| 0 <= i < ss.len() && #[trigger] group_key(ss[i]) == k
}

pub open spec fn exe_path_pred(items: Seq<AudioSessionInfo>) -> spec_fn(int) -> bool {
    |i: int| items[i].exe_path is Some
}

pub open spec fn icon_pred(items: Seq<AudioSessionInfo>) -> spec_fn(int) -> bool {
    |i: int| items[i].icon_data_url is Some
}

/// A display name that is not a placeholder `Proceso ...` name.
pub open spec fn named_pred(items: Seq<AudioSessionInfo>) -> spec_fn(int) -> bool {
    |i: int| items[i].display_name@.len() > 0 && !has_prefix(items[i].display_name@, "Proceso "@)
}

/// The executable name of a family: that of its first session, else its key.
pub open spec fn group_exe_name(k: Seq<char>, items: Seq<AudioSessionInfo>) -> Seq<char> {
    match items[0].exe_name {
        Some(n) => n@,
        None => k,
    }
}

/// The first executable path among the sessions.
pub open spec fn group_exe_path(items: Seq<AudioSessionInfo>) -> Option<Seq<char>> {
    match first_where(items.len(), exe_path_pred(items)) {
        Some(i) => view_opt_string(items[i].exe_path),
        None => None,
    }
}

/// The first icon among the sessions.
pub open spec fn group_icon(items: Seq<AudioSessionInfo>) -> Option<Seq<char>> {
    match first_where(items.len(), icon_pred(items)) {
        Some(i) => view_opt_string(items[i].icon_data_url),
        None => None,
    }
}

/// The first real display name among the sessions, else the first one.
pub open spec fn group_display(items: Seq<AudioSessionInfo>) -> Seq<char> {
    match first_where(items.len(), named_pred(items)) {
        Some(i) => items[i].display_name@,
        None => items[0].display_name@,
    }
}

pub open spec fn any_state(items: Seq<AudioSessionInfo>, st: PlaybackState) -> bool {
    exists|i: int| 0 <= i < items.len() && #[trigger] items[i].state == st
}

/// Playing if any session plays; else idle if any is idle; else recent if
/// any is recent; else unknown.
pub open spec fn group_state(items: Seq<AudioSessionInfo>) -> PlaybackState {
    if any_state(items, PlaybackState::Active) {
        PlaybackState::Active
    } else if any_state(items, PlaybackState::Inactive) {
        PlaybackState::Inactive
    } else if any_state(items, PlaybackState::Expired) {
        PlaybackState::Expired
    } else {
        PlaybackState::Unknown
    }
}

/// What a session level adds to the family level: the bits of a
/// non-negative level (NaN and negative levels count as 0).
pub open spec fn level_bits(b: u32) -> u32 {
    if b <= 0x7F80_0000 {
        b
    } else {
        0
    }
}

/// The loudest session level (for non-negative IEEE-754 values the order of
/// the bits is the order of the values).
pub open spec fn group_volume(items: Seq<AudioSessionInfo>) -> u32
    decreases items.len(),
{
    if items.len() == 0 {
        0
    } else {
        let a = group_volume(items.drop_last());
        let b = level_bits(items.last().volume_bits);
        if a >= b {
            a
        } else {
            b
        }
    }
}

/// Some excluded identity has this lowercase executable name, or a path
/// equal to `path` up to ASCII case.
pub open spec fn identity_excluded(excluded: Seq<AppIdentity>, exe_lower: Seq<char>, path: Option<Seq<char>>) -> bool {
    exists|e: int| 0 <= e < excluded.len() && #[trigger] excluded_by(excluded[e], exe_lower, path)
}

/// The excluded identity `x` has this lowercase executable name, or a path
/// equal to `path` up to ASCII case.
pub open spec fn excluded_by(x: AppIdentity, exe_lower: Seq<char>, path: Option<Seq<char>>) -> bool {
    ||| x.exe_name@ == exe_lower
    ||| (x.exe_path is Some && path is Some && lower(x.exe_path->0@) == lower(path->0))
}

/// `g` is the group of family `k` with sessions `items`.
pub open spec fn is_group(g: AppAudioGroup, k: Seq<char>, items: Seq<AudioSessionInfo>, excluded: Seq<AppIdentity>) -> bool {
    &&& g.exe_name@ == group_exe_name(k, items)
    &&& view_opt_string(g.exe_path) == group_exe_path(items)
    &&& g.display_name@ == group_display(items)
    &&& g.identity.exe_name@ == lower(g.exe_name@)
    &&& g.identity.exe_path == g.exe_path
    &&& g.identity.display_name == Some(g.display_name)
    &&& g.id@ == g.identity.exe_name@
    &&& view_opt_string(g.icon_data_url) == group_icon(items)
    &&& g.state == group_state(items)
    &&& g.session_count == items.len()
    &&& strictly_increasing(g.pids@)
    &&& (forall|p: u32| g.pids@.contains(p) <==> (p > 0 && exists|i: int| 0 <= i < items.len() && #[trigger] items[i].pid == p))
    &&& g.excluded == identity_excluded(excluded, lower(g.exe_name@), group_exe_path(items))
    &&& g.is_system == (items[0].is_system_sounds || k == "system-sounds"@)
    &&& g.is_critical == (g.is_system || critical_process(g.exe_name@))
    &&& g.volume_bits == group_volume(items)
    &&& texts_increasing(strings_view(g.device_names@))
    &&& (forall|d: Seq<char>| strings_view(g.device_names@).contains(d) <==> exists|i: int|
        0 <= i < items.len() && #[trigger] view_opt_string(items[i].device_name) == Some(d))
}

pub open spec fn strings_view(v: Seq<String>) -> Seq<Seq<char>> {
    v.map_values(|s: String| s@)
}

/// Groups are listed playing first (then idle, recent, unknown), excluded
/// first among equals, then by lowercase display name.
pub open spec fn group_order_key(k: Seq<char>, items: Seq<AudioSessionInfo>, excluded: Seq<AppIdentity>) -> (u64, Seq<char>) {
    let rank = playback_rank(group_state(items));
    let excl = identity_excluded(excluded, lower(group_exe_name(k, items)), group_exe_path(items));
    (((3 - rank) * 2 + if excl { 0u64 } else { 1u64 }) as u64, lower(group_display(items)))
}

pub open spec fn group_order_keys(ss: Seq<AudioSessionInfo>, ks: Seq<Seq<char>>, excluded: Seq<AppIdentity>) -> Seq<(u64, Seq<char>)> {
    ks.map_values(|k: Seq<char>| group_order_key(k, items_with_key(ss, k), excluded))
}

/// `res` holds one group per family of the sessions, in list order.
pub open spec fn is_grouping(ss: Seq<AudioSessionInfo>, excluded: Seq<AppIdentity>, res: Seq<AppAudioGroup>) -> bool {
    exists|ks: Seq<Seq<char>>, perm: Seq<usize>|
        {
            &&& is_key_list(ss, ks)
            &&& is_stable_order(group_order_keys(ss, ks, excluded), perm)
            &&& res.len() == ks.len()
            &&& forall|j: int|
                0 <= j < res.len() ==> is_group(
                    #[trigger] res[j],
                    ks[perm[j] as int],
                    items_with_key(ss, ks[perm[j] as int]),
                    excluded,
                )
        }
}

// ---------------------------------------------------------------------------
// Building one group
// ---------------------------------------------------------------------------

/// The family key of a session.
pub fn session_group_key(s: &AudioSessionInfo) -> (r: Vec<char>)
    ensures
        r@ == group_key(*s),
{
    if s.is_system_sounds {
        return chars_of("system-sounds");
    }
    let named: Option<Vec<char>> = match &s.exe_name {
        Some(n) => {
            let v = chars_of(n.as_str());
            if v.len() > 0 {
                Some(lower_chars(&v))
            } else {
                None
            }
        },
        None => None,
    };
    match named {
        Some(v) => v,
        None => {
            let mut v = chars_of("pid:");
            let mut d = decimal_chars(s.pid as u64);
            v.append(&mut d);
            v
        },
    }
}

fn first_exe_path(items: &Vec<AudioSessionInfo>) -> (r: Option<String>)
    ensures
        view_opt_string(r) == group_exe_path(items@),
{
    let ghost p = exe_path_pred(items@);
    let n = items.len();
    let mut i: usize = 0;
    while i < n
        invariant
            n == items@.len(),
            i <= n,
            p == exe_path_pred(items@),
            forall|j: int| 0 <= j < i ==> !#[trigger] p(j),
        decreases n - i,
    {
        if items[i].exe_path.is_some() {
            proof {
                lemma_first_where_at(n as nat, p, i as int);
            }
            return clone_opt_string(&items[i].exe_path);
        }
        i = i + 1;
    }
    proof {
        lemma_first_where_none(n as nat, p);
    }
    None
}

fn first_icon(items: &Vec<AudioSessionInfo>) -> (r: Option<String>)
    ensures
        view_opt_string(r) == group_icon(items@),
{
    let ghost p = icon_pred(items@);
    let n = items.len();
    let mut i: usize = 0;
    while i < n
        invariant
            n == items@.len(),
            i <= n,
            p == icon_pred(items@),
            forall|j: int| 0 <= j < i ==> !#[trigger] p(j),
        decreases n - i,
    {
        if items[i].icon_data_url.is_some() {
            proof {
                lemma_first_where_at(n as nat, p, i as int);
            }
            return clone_opt_string(&items[i].icon_data_url);
        }
        i = i + 1;
    }
    proof {
        lemma_first_where_none(n as nat, p);
    }
    None
}

fn first_display(items: &Vec<AudioSessionInfo>) -> (r: String)
    requires
        items@.len() > 0,
    ensures
        r@ == group_display(items@),
{
    let ghost p = named_pred(items@);
    let prefix = chars_of("Proceso ");
    let n = items.len();
    let mut i: usize = 0;
    while i < n
        invariant
            n == items@.len(),
            i <= n,
            prefix@ == "Proceso "@,
            p == named_pred(items@),
            forall|j: int| 0 <= j < i ==> !#[trigger] p(j),
        decreases n - i,
    {
        let d = chars_of(items[i].display_name.as_str());
        if d.len() > 0 && !chars_starts_with(&d, &prefix) {
            proof {
                lemma_first_where_at(n as nat, p, i as int);
            }
            return items[i].display_name.clone();
        }
        i = i + 1;
    }
    proof {
        lemma_first_where_none(n as nat, p);
    }
    items[0].display_name.clone()
}

fn combined_state(items: &Vec<AudioSessionInfo>) -> (r: PlaybackState)
    ensures
        r == group_state(items@),
        (exists|j: int| 0 <= j < items@.len() && #[trigger] items@[j].state == PlaybackState::Active) ==> r
            == PlaybackState::Active,
        (forall|j: int| 0 <= j < items@.len() ==> #[trigger] items@[j].state != PlaybackState::Active) && (exists|j: int|
            0 <= j < items@.len() && #[trigger] items@[j].state == PlaybackState::Inactive) ==> r == PlaybackState::Inactive,
        (forall|j: int|
            0 <= j < items@.len() ==> #[trigger] items@[j].state != PlaybackState::Active && items@[j].state
                != PlaybackState::Inactive) && (exists|j: int|
            0 <= j < items@.len() && #[trigger] items@[j].state == PlaybackState::Expired) ==> r == PlaybackState::Expired,
        (forall|j: int| 0 <= j < items@.len() ==> #[trigger] items@[j].state == PlaybackState::Unknown) ==> r
            == PlaybackState::Unknown,
{
    let mut active = false;
    let mut inactive = false;
    let mut expired = false;
    let n = items.len();
    for i in 0..n
        invariant
            n == items@.len(),
            active == exists|j: int| 0 <= j < i && #[trigger] items@[j].state == PlaybackState::Active,
            inactive == exists|j: int| 0 <= j < i && #[trigger] items@[j].state == PlaybackState::Inactive,
            expired == exists|j: int| 0 <= j < i && #[trigger] items@[j].state == PlaybackState::Expired,
    {
        let st = items[i].state;
        proof {
            assert(items@[i as int].state == st);
        }
        match st {
            PlaybackState::Active => {
                active = true;
            },
            PlaybackState::Inactive => {
                inactive = true;
            },
            PlaybackState::Expired => {
                expired = true;
            },
            PlaybackState::Unknown => {},
        }
    }
    if active {
        PlaybackState::Active
    } else if inactive {
        PlaybackState::Inactive
    } else if expired {
        PlaybackState::Expired
    } else {
        PlaybackState::Unknown
    }
}

fn loudest(items: &Vec<AudioSessionInfo>) -> (r: u32)
    ensures
        r == group_volume(items@),
{
    let mut best: u32 = 0;
    let n = items.len();
    for i in 0..n
        invariant
            n == items@.len(),
            best == group_volume(items@.take(i as int)),
    {
        let b = items[i].volume_bits;
        let c: u32 = if b <= 0x7F80_0000 { b } else { 0 };
        if c > best {
            best = c;
        }
        proof {
            assert(items@.take(i + 1).drop_last() =~= items@.take(i as int));
        }
    }
    assert(items@.take(n as int) =~= items@);
    best
}

fn session_pids(items: &Vec<AudioSessionInfo>) -> (r: Vec<u32>)
    ensures
        strictly_increasing(r@),
        forall|p: u32| r@.contains(p) <==> (p > 0 && exists|i: int| 0 <= i < items@.len() && #[trigger] items@[i].pid == p),
{
    let mut pids: Vec<u32> = Vec::new();
    let n = items.len();
    for i in 0..n
        invariant
            n == items@.len(),
            strictly_increasing(pids@),
            forall|p: u32| pids@.contains(p) <==> (p > 0 && exists|j: int| 0 <= j < i && #[trigger] items@[j].pid == p),
    {
        let p = items[i].pid;
        if p > 0 {
            insert_sorted(&mut pids, p);
        }
        proof {
            assert(items@[i as int].pid == p);
            assert forall|q: u32| pids@.contains(q) <==> (q > 0 && exists|j: int| 0 <= j < i + 1 && #[trigger] items@[j].pid == q) by {
                if q > 0 && (exists|j: int| 0 <= j < i + 1 && #[trigger] items@[j].pid == q) {
                    let j = choose|j: int| 0 <= j < i + 1 && #[trigger] items@[j].pid == q;
                    if j < i {
                    }
                }
            }
        }
    }
    pids
}

fn device_names_of(items: &Vec<AudioSessionInfo>) -> (r: Vec<String>)
    ensures
        texts_increasing(strings_view(r@)),
        forall|d: Seq<char>| strings_view(r@).contains(d) <==> exists|i: int|
            0 <= i < items@.len() && #[trigger] view_opt_string(items@[i].device_name) == Some(d),
{
    let mut names: Vec<Vec<char>> = Vec::new();
    let n = items.len();
    for i in 0..n
        invariant
            n == items@.len(),
            texts_increasing(texts_view(names@)),
            forall|d: Seq<char>| texts_view(names@).contains(d) <==> exists|j: int|
                0 <= j < i && #[trigger] view_opt_string(items@[j].device_name) == Some(d),
    {
        let ghost old_names = texts_view(names@);
        let ghost dn = view_opt_string(items@[i as int].device_name);
        match &items[i].device_name {
            Some(d) => {
                insert_sorted_text(&mut names, chars_of(d.as_str()));
            },
            None => {},
        }
        proof {
            assert forall|d: Seq<char>| texts_view(names@).contains(d) <==> exists|j: int|
                0 <= j < i + 1 && #[trigger] view_opt_string(items@[j].device_name) == Some(d) by {
                if texts_view(names@).contains(d) {
                    if old_names.contains(d) {
                        let j = choose|j: int| 0 <= j < i && #[trigger] view_opt_string(items@[j].device_name) == Some(d);
                        assert(0 <= j < i + 1);
                    } else {
                        assert(dn == Some(d));
                        assert(view_opt_string(items@[i as int].device_name) == Some(d));
                    }
                }
                if exists|j: int| 0 <= j < i + 1 && #[trigger] view_opt_string(items@[j].device_name) == Some(d) {
                    let j = choose|j: int| 0 <= j < i + 1 && #[trigger] view_opt_string(items@[j].device_name) == Some(d);
                    if j < i {
                        assert(old_names.contains(d));
                    } else {
                        assert(dn == Some(d));
                    }
                }
            }
        }
    }
    let mut out: Vec<String> = Vec::new();
    let m = names.len();
    for k in 0..m
        invariant
            m == names@.len(),
            strings_view(out@) == texts_view(names@).take(k as int),
    {
        let s = string_from_chars(&names[k]);
        let ghost old_out = out@;
        out.push(s);
        assert(strings_view(out@) =~= strings_view(old_out).push(names@[k as int]@));
        assert(strings_view(out@) =~= texts_view(names@).take(k + 1));
    }
    assert(texts_view(names@).take(m as int) =~= texts_view(names@));
    out
}

fn is_excluded_identity(excluded: &[AppIdentity], exe_lower: &String, path: &Option<String>) -> (r: bool)
    ensures
        r == identity_excluded(excluded@, exe_lower@, view_opt_string(*path)),
{
    let n = excluded.len();
    let own = chars_of(exe_lower.as_str());
    for e in 0..n
        invariant
            n == excluded@.len(),
            own@ == exe_lower@,
            forall|j: int| 0 <= j < e ==> !#[trigger] excluded_by(excluded@[j], exe_lower@, view_opt_string(*path)),
    {
        let x = &excluded[e];
        let by_name = chars_eq(&chars_of(x.exe_name.as_str()), &own);
        let by_path = match &x.exe_path {
            Some(a) => match path {
                Some(b) => eq_ignore_ascii_case(a.as_str(), b.as_str()),
                None => false,
            },
            None => false,
        };
        assert((by_name || by_path) == excluded_by(excluded@[e as int], exe_lower@, view_opt_string(*path)));
        if by_name || by_path {
            return true;
        }
    }
    false
}

/// The group of family `k` with sessions `items`.
pub fn build_group(k: &Vec<char>, items: &Vec<AudioSessionInfo>, excluded: &[AppIdentity]) -> (g: AppAudioGroup)
    requires
        items@.len() > 0,
    ensures
        is_group(g, k@, items@, excluded@),
{
    let exe_name: String = match &items[0].exe_name {
        Some(n) => n.clone(),
        None => string_from_chars(k),
    };
    let exe_path = first_exe_path(items);
    let display_name = first_display(items);
    let state = combined_state(items);
    let pids = session_pids(items);
    let exe_lower = string_from_chars(&lower_chars(&chars_of(exe_name.as_str())));
    let excluded_flag = is_excluded_identity(excluded, &exe_lower, &exe_path);
    let identity = AppIdentity {
        exe_name: exe_lower.clone(),
        exe_path: clone_opt_string(&exe_path),
        display_name: Some(display_name.clone()),
    };
    let icon = first_icon(items);
    let volume = loudest(items);
    let device_names = device_names_of(items);
    let system_key = chars_of("system-sounds");
    let is_system = items[0].is_system_sounds || chars_eq(k, &system_key);
    let is_critical = is_system || is_critical_system_process(exe_name.as_str());
    AppAudioGroup {
        id: exe_lower,
        identity,
        display_name,
        exe_name,
        exe_path,
        icon_data_url: icon,
        state,
        session_count: items.len(),
        pids,
        excluded: excluded_flag,
        is_system,
        is_critical,
        volume_bits: volume,
        device_names,
    }
}

pub(crate) proof fn lemma_items_nonempty(ss: Seq<AudioSessionInfo>, k: Seq<char>, i: int)
    requires
        0 <= i < ss.len(),
        group_key(ss[i]) == k,
    ensures
        items_with_key(ss, k).len() > 0,
    decreases ss.len(),
{
    if i < ss.len() - 1 {
        lemma_items_nonempty(ss.drop_last(), k, i);
    }
}

/// The sessions of family `k`, in order.
fn collect_items(sessions: &[AudioSessionInfo], keys: &Vec<Vec<char>>, k: &Vec<char>) -> (r: Vec<AudioSessionInfo>)
    requires
        keys@.len() == sessions@.len(),
        forall|i: int| 0 <= i < keys@.len() ==> #[trigger] keys@[i]@ == group_key(sessions@[i]),
    ensures
        r@ == items_with_key(sessions@, k@),
{
    let mut r: Vec<AudioSessionInfo> = Vec::new();
    let n = sessions.len();
    for i in 0..n
        invariant
            n == sessions@.len(),
            keys@.len() == n,
            forall|i: int| 0 <= i < keys@.len() ==> #[trigger] keys@[i]@ == group_key(sessions@[i]),
            r@ == items_with_key(sessions@.take(i as int), k@),
    {
        proof {
            assert(sessions@.take(i + 1).drop_last() =~= sessions@.take(i as int));
            assert(sessions@.take(i + 1).last() == sessions@[i as int]);
            assert(keys@[i as int]@ == group_key(sessions@[i as int]));
        }
        if chars_eq(&keys[i], k) {
            r.push(sessions[i].clone());
        }
    }
    assert(sessions@.take(n as int) =~= sessions@);
    r
}

/// Groups audio sessions by application family and lists the groups (see
/// `is_grouping`): one group per family key, built from that family's
/// sessions in order, marked excluded when an identity of `excluded` names
/// its executable or path, listed playing first, excluded first among
/// equals, then by lowercase display name.
pub fn group_sessions(sessions: &[AudioSessionInfo], excluded: &[AppIdentity]) -> (r: Vec<AppAudioGroup>)
    ensures
        is_grouping(sessions@, excluded@, r@),
{
    let ghost ss = sessions@;
    let n = sessions.len();
    // Family key of each session, and the distinct keys in increasing order.
    let mut keys: Vec<Vec<char>> = Vec::new();
    let mut distinct: Vec<Vec<char>> = Vec::new();
    for i in 0..n
        invariant
            n == ss.len(),
            ss == sessions@,
            keys@.len() == i,
            forall|j: int| 0 <= j < i ==> #[trigger] keys@[j]@ == group_key(ss[j]),
            texts_increasing(texts_view(distinct@)),
            forall|k: Seq<char>| texts_view(distinct@).contains(k) <==> exists|j: int| 0 <= j < i && #[trigger] group_key(ss[j]) == k,
    {
        let key = session_group_key(&sessions[i]);
        let copy = chars_of(string_from_chars(&key).as_str());
        let ghost kv = key@;
        insert_sorted_text(&mut distinct, copy);
        keys.push(key);
        proof {
            assert(keys@[i as int]@ == kv);
            assert forall|k: Seq<char>| texts_view(distinct@).contains(k) <==> exists|j: int| 0 <= j < i + 1 && #[trigger] group_key(ss[j]) == k by {
                if exists|j: int| 0 <= j < i + 1 && #[trigger] group_key(ss[j]) == k {
                    let j = choose|j: int| 0 <= j < i + 1 && #[trigger] group_key(ss[j]) == k;
                    if j < i {
                    }
                }
            }
        }
    }
    let ghost ks = texts_view(distinct@);
    // One group per family, with its order key.
    let m = distinct.len();
    let mut groups: Vec<AppAudioGroup> = Vec::new();
    let mut order: Vec<OrderKey> = Vec::new();
    for g in 0..m
        invariant
            n == ss.len(),
            ss == sessions@,
            m == distinct@.len(),
            ks == texts_view(distinct@),
            keys@.len() == n,
            forall|j: int| 0 <= j < n ==> #[trigger] keys@[j]@ == group_key(ss[j]),
            forall|k: Seq<char>| ks.contains(k) <==> exists|j: int| 0 <= j < n && #[trigger] group_key(ss[j]) == k,
            groups@.len() == g,
            forall|j: int| 0 <= j < g ==> is_group(#[trigger] groups@[j], ks[j], items_with_key(ss, ks[j]), excluded@),
            keys_view(order@) == group_order_keys(ss, ks.take(g as int), excluded@),
    {
        let k = &distinct[g];
        let items = collect_items(sessions, &keys, k);
        proof {
            assert(ks[g as int] == k@);
            assert(ks.contains(k@));
            let j = choose|j: int| 0 <= j < n && #[trigger] group_key(ss[j]) == k@;
            lemma_items_nonempty(ss, k@, j);
        }
        let group = build_group(k, &items, excluded);
        let rank: u64 = (3 - group.state.rank()) * 2 + if group.excluded { 0 } else { 1 };
        let key = OrderKey { rank, text: lower_chars(&chars_of(group.display_name.as_str())) };
        proof {
            assert(key@ == group_order_key(k@, items_with_key(ss, k@), excluded@));
        }
        let ghost old_order = order@;
        order.push(key);
        groups.push(group);
        proof {
            assert(keys_view(order@) =~= keys_view(old_order).push(key@));
            assert(ks.take(g + 1) =~= ks.take(g as int).push(ks[g as int]));
            assert(group_order_keys(ss, ks.take(g + 1), excluded@) =~= group_order_keys(ss, ks.take(g as int), excluded@).push(
                group_order_key(ks[g as int], items_with_key(ss, ks[g as int]), excluded@),
            ));
        }
    }
    assert(ks.take(m as int) =~= ks);
    let perm = stable_order(&order);
    let result = permute(groups, &perm);
    proof {
        assert(is_key_list(ss, ks));
        assert forall|j: int| 0 <= j < result@.len() implies is_group(
            #[trigger] result@[j],
            ks[perm@[j] as int],
            items_with_key(ss, ks[perm@[j] as int]),
            excluded@,
        ) by {
            assert(result@[j] == groups@[perm@[j] as int]);
        }
    }
    result
}

impl AppAudioGroup {
    /// The state shown for the group: `<n> sesiones de audio` when several
    /// sessions play, else the label of its state.
    pub fn state_label(&self) -> (r: String)
        ensures
            r@ == if self.session_count > 1 && self.state == PlaybackState::Active {
                decimal(self.session_count as nat) + " sesiones de audio"@
            } else {
                playback_label(self.state)
            },
    {
        if self.session_count > 1 && self.state == PlaybackState::Active {
            let mut v = decimal_chars(self.session_count as u64);
            push_str(&mut v, " sesiones de audio");
            string_from_chars(&v)
        } else {
            self.state.as_label().to_owned()
        }
    }
}

} // verus!
