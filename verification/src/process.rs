//! Processes: the process tree of a snapshot, the processes related to an
//! application, and the names of system and capture processes.

use crate::order::{first_where, lemma_first_where, lemma_first_where_at, lemma_first_where_none, opt_index};
use crate::paths::{file_name_chars, file_name_of};
use crate::text::{
    chars_eq, chars_of, clone_opt_string, eq_ignore_ascii_case, lower, lower_chars, string_from_chars,
    view_opt_str,
};
use vstd::prelude::*;

verus! {

/// One process of a snapshot of the running processes.
#[derive(Debug)]
pub struct ProcessInfo {
    pub pid: u32,
    pub exe_path: Option<String>,
    pub exe_name: Option<String>,
    pub parent_pid: Option<u32>,
}

impl Clone for ProcessInfo {
    fn clone(&self) -> (r: Self)
        ensures
            r == *self,
    {
        ProcessInfo {
            pid: self.pid,
            exe_path: clone_opt_string(&self.exe_path),
            exe_name: clone_opt_string(&self.exe_name),
            parent_pid: self.parent_pid,
        }
    }
}

/// The snapshot holds process `pid`.
pub open spec fn has_process(procs: Seq<ProcessInfo>, pid: u32) -> bool {
    exists|i: int| 0 <= i < procs.len() && #[trigger] procs[i].pid == pid
}

/// `child` is a child of `parent` in the snapshot.
pub open spec fn is_child(procs: Seq<ProcessInfo>, child: u32, parent: u32) -> bool {
    exists|i: int| 0 <= i < procs.len() && #[trigger] procs[i].pid == child && procs[i].parent_pid == Some(parent)
}

/// `chain` goes from a process down to a descendant, one child at a time.
pub open spec fn is_descent(procs: Seq<ProcessInfo>, chain: Seq<u32>) -> bool {
    &&& chain.len() >= 1
    &&& forall|i: int, j: int| 0 <= i && j == i + 1 && j < chain.len() ==> is_child(procs, #[trigger] chain[j], #[trigger] chain[i])
}

/// `pid` is `root` or one of its descendants.
pub open spec fn in_tree(procs: Seq<ProcessInfo>, root: u32, pid: u32) -> bool {
    exists|chain: Seq<u32>| #[trigger] is_descent(procs, chain) && chain[0] == root && chain.last() == pid
}

/// Position `i` of the snapshot holds process `pid`.
pub open spec fn pid_pred(procs: Seq<ProcessInfo>, pid: u32) -> spec_fn(int) -> bool {
    |i: int| procs[i].pid == pid
}

/// The image path of process `pid` in the snapshot (none for process 0).
pub open spec fn image_path_in(procs: Seq<ProcessInfo>, pid: u32) -> Option<Seq<char>> {
    if pid == 0 {
        None
    } else {
        match first_where(procs.len(), pid_pred(procs, pid)) {
            Some(i) => crate::text::view_opt_string(procs[i].exe_path),
            None => None,
        }
    }
}

/// The parent of process `pid` in the snapshot.
pub open spec fn parent_in(procs: Seq<ProcessInfo>, pid: u32) -> Option<u32> {
    match first_where(procs.len(), pid_pred(procs, pid)) {
        Some(i) => procs[i].parent_pid,
        None => None,
    }
}

/// The executable of process `pid` is named `exe` (ASCII case ignored).
pub open spec fn of_family(procs: Seq<ProcessInfo>, pid: u32, exe: Seq<char>) -> bool {
    &&& image_path_in(procs, pid) is Some
    &&& file_name_of(image_path_in(procs, pid)->0) matches Some(name) && lower(name) == lower(exe)
}

/// `pid` is related to the seeds: with an executable name, a seed or any
/// process of the snapshot running that executable; without one, a seed or a
/// descendant of a seed.
pub open spec fn is_related(procs: Seq<ProcessInfo>, seeds: Seq<u32>, preferred_exe: Option<Seq<char>>, pid: u32) -> bool {
    match preferred_exe {
        Some(exe) => seeds.contains(pid) || (has_process(procs, pid) && of_family(procs, pid, exe)),
        None => exists|s: int| 0 <= s < seeds.len() && in_tree(procs, #[trigger] seeds[s], pid),
    }
}

/// Strictly increasing.
pub open spec fn strictly_increasing(v: Seq<u32>) -> bool {
    forall|i: int, j: int| 0 <= i < j < v.len() ==> #[trigger] v[i] < #[trigger] v[j]
}

// ---------------------------------------------------------------------------
// Names
// ---------------------------------------------------------------------------

const CRITICAL_PROCESS_NAMES: [&'static str; 24] = [
    "system",
    "smss.exe",
    "csrss.exe",
    "wininit.exe",
    "services.exe",
    "lsass.exe",
    "svchost.exe",
    "audiodg.exe",
    "dwm.exe",
    "explorer.exe",
    "fontdrvhost.exe",
    "runtimebroker.exe",
    "sihost.exe",
    "taskhostw.exe",
    "shellhost.exe",
    "startmenuexperiencehost.exe",
    "searchhost.exe",
    "textinputhost.exe",
    "ctfmon.exe",
    "conhost.exe",
    "registry",
    "idle",
    "secure system",
    "memory compression",
];

const CAPTURE_PROCESS_NAMES: [&'static str; 17] = [
    "stardesk.exe",
    "parsec.exe",
    "parsecd.exe",
    "rustdesk.exe",
    "anydesk.exe",
    "teamviewer.exe",
    "tv_w32.exe",
    "tv_x64.exe",
    "moonlight.exe",
    "sunshine.exe",
    "steam.exe",
    "streaming_client.exe",
    "mstsc.exe",
    "msrdc.exe",
    "obs64.exe",
    "obs32.exe",
    "obs.exe",
];

/// Executables of Windows itself that must never be rerouted.
pub open spec fn critical_names() -> Seq<Seq<char>> {
    seq![
        "system"@,
        "smss.exe"@,
        "csrss.exe"@,
        "wininit.exe"@,
        "services.exe"@,
        "lsass.exe"@,
        "svchost.exe"@,
        "audiodg.exe"@,
        "dwm.exe"@,
        "explorer.exe"@,
        "fontdrvhost.exe"@,
        "runtimebroker.exe"@,
        "sihost.exe"@,
        "taskhostw.exe"@,
        "shellhost.exe"@,
        "startmenuexperiencehost.exe"@,
        "searchhost.exe"@,
        "textinputhost.exe"@,
        "ctfmon.exe"@,
        "conhost.exe"@,
        "registry"@,
        "idle"@,
        "secure system"@,
        "memory compression"@,
    ]
}

/// Executables of remote-desktop and capture programs.
pub open spec fn capture_names() -> Seq<Seq<char>> {
    seq![
        "stardesk.exe"@,
        "parsec.exe"@,
        "parsecd.exe"@,
        "rustdesk.exe"@,
        "anydesk.exe"@,
        "teamviewer.exe"@,
        "tv_w32.exe"@,
        "tv_x64.exe"@,
        "moonlight.exe"@,
        "sunshine.exe"@,
        "steam.exe"@,
        "streaming_client.exe"@,
        "mstsc.exe"@,
        "msrdc.exe"@,
        "obs64.exe"@,
        "obs32.exe"@,
        "obs.exe"@,
    ]
}

/// The executable is a critical Windows process (ASCII case ignored).
pub open spec fn critical_process(exe_name: Seq<char>) -> bool {
    critical_names().contains(lower(exe_name))
}

/// The executable is a known remote-desktop or capture program.
pub open spec fn capture_process(exe_name: Seq<char>) -> bool {
    capture_names().contains(lower(exe_name))
}

/// Whether the executable is a critical Windows process.
pub fn is_critical_system_process(exe_name: &str) -> (r: bool)
    ensures
        r == critical_process(exe_name@),
{
    let name = lower_chars(&chars_of(exe_name));
    let mut i: usize = 0;
    while i < 24
        invariant
            i <= 24,
            name@ == lower(exe_name@),
            forall|j: int| 0 <= j < i ==> #[trigger] critical_names()[j] != name@,
        decreases 24 - i,
    {
        let lit = chars_of(CRITICAL_PROCESS_NAMES[i]);
        assert(CRITICAL_PROCESS_NAMES[i as int]@ == critical_names()[i as int]);
        if chars_eq(&name, &lit) {
            assert(critical_names()[i as int] == name@);
            return true;
        }
        i = i + 1;
    }
    false
}

/// Whether the executable is a known remote-desktop or capture program.
pub fn is_known_capture_process(exe_name: &str) -> (r: bool)
    ensures
        r == capture_process(exe_name@),
{
    let name = lower_chars(&chars_of(exe_name));
    let mut i: usize = 0;
    while i < 17
        invariant
            i <= 17,
            name@ == lower(exe_name@),
            forall|j: int| 0 <= j < i ==> #[trigger] capture_names()[j] != name@,
        decreases 17 - i,
    {
        let lit = chars_of(CAPTURE_PROCESS_NAMES[i]);
        assert(CAPTURE_PROCESS_NAMES[i as int]@ == capture_names()[i as int]);
        if chars_eq(&name, &lit) {
            assert(capture_names()[i as int] == name@);
            return true;
        }
        i = i + 1;
    }
    false
}

/// The file name of a path.
pub fn file_name_from_path(path: &str) -> (r: Option<String>)
    ensures
        crate::text::view_opt_string(r) == file_name_of(path@),
{
    match file_name_chars(path) {
        Some(v) => Some(string_from_chars(&v)),
        None => None,
    }
}

/// The snapshot position of process `pid`.
fn find_process(procs: &[ProcessInfo], pid: u32) -> (r: Option<usize>)
    ensures
        r matches Some(i) ==> i < procs@.len(),
        opt_index(r) == first_where(procs@.len(), pid_pred(procs@, pid)),
{
    let ghost p = pid_pred(procs@, pid);
    let n = procs.len();
    let mut i: usize = 0;
    while i < n
        invariant
            n == procs@.len(),
            i <= n,
            p == pid_pred(procs@, pid),
            forall|j: int| 0 <= j < i ==> !#[trigger] p(j),
        decreases n - i,
    {
        if procs[i].pid == pid {
            proof {
                lemma_first_where_at(n as nat, p, i as int);
            }
            return Some(i);
        }
        i = i + 1;
    }
    proof {
        lemma_first_where_none(n as nat, p);
    }
    None
}

/// A process with an image path in the snapshot is in the snapshot.
proof fn lemma_image_path_present(procs: Seq<ProcessInfo>, pid: u32)
    requires
        image_path_in(procs, pid) is Some,
    ensures
        has_process(procs, pid),
{
    lemma_first_where(procs.len(), pid_pred(procs, pid));
    let i = first_where(procs.len(), pid_pred(procs, pid))->0;
    assert(procs[i].pid == pid);
}

/// The image path of process `pid` in the snapshot.
pub fn process_image_path(procs: &[ProcessInfo], pid: u32) -> (r: Option<String>)
    ensures
        crate::text::view_opt_string(r) == image_path_in(procs@, pid),
{
    if pid == 0 {
        return None;
    }
    match find_process(procs, pid) {
        Some(i) => clone_opt_string(&procs[i].exe_path),
        None => None,
    }
}

/// The parent of process `pid` in the snapshot.
pub fn process_parent(procs: &[ProcessInfo], pid: u32) -> (r: Option<u32>)
    ensures
        r == parent_in(procs@, pid),
{
    match find_process(procs, pid) {
        Some(i) => procs[i].parent_pid,
        None => None,
    }
}

/// Whether the executable of process `pid` is named `exe`.
fn of_family_exec(procs: &[ProcessInfo], pid: u32, exe: &str) -> (r: bool)
    ensures
        r == of_family(procs@, pid, exe@),
{
    match process_image_path(procs, pid) {
        Some(path) => match file_name_chars(path.as_str()) {
            Some(name) => {
                let a = lower_chars(&name);
                let b = lower_chars(&chars_of(exe));
                chars_eq(&a, &b)
            },
            None => false,
        },
        None => false,
    }
}

/// Whether `x` is in `v`.
pub fn contains_pid(v: &Vec<u32>, x: u32) -> (r: bool)
    ensures
        r == v@.contains(x),
{
    let n = v.len();
    for i in 0..n
        invariant
            n == v@.len(),
            forall|j: int| 0 <= j < i ==> v@[j] != x,
    {
        if v[i] == x {
            return true;
        }
    }
    false
}

/// Snapshot entries whose process is not in `out`.
pub open spec fn unvisited(procs: Seq<ProcessInfo>, out: Seq<u32>) -> nat
    decreases procs.len(),
{
    if procs.len() == 0 {
        0
    } else {
        unvisited(procs.drop_last(), out) + if out.contains(procs.last().pid) {
            0nat
        } else {
            1nat
        }
    }
}

proof fn lemma_unvisited_push(procs: Seq<ProcessInfo>, out: Seq<u32>, p: u32)
    ensures
        unvisited(procs, out.push(p)) <= unvisited(procs, out),
        !out.contains(p) && has_process(procs, p) ==> unvisited(procs, out.push(p)) < unvisited(procs, out),
    decreases procs.len(),
{
    if procs.len() > 0 {
        lemma_unvisited_push(procs.drop_last(), out, p);
        assert(out.push(p).contains(procs.last().pid) <== out.contains(procs.last().pid)) by {
            if out.contains(procs.last().pid) {
                let k = choose|k: int| 0 <= k < out.len() && out[k] == procs.last().pid;
                assert(out.push(p)[k] == procs.last().pid);
            }
        }
        if !out.contains(p) && has_process(procs, p) {
            let i = choose|i: int| 0 <= i < procs.len() && procs[i].pid == p;
            if i == procs.len() - 1 {
                assert(out.push(p)[out.len() as int] == p);
            } else {
                assert(procs.drop_last()[i].pid == p);
            }
        }
    }
}

proof fn lemma_descent_extend(procs: Seq<ProcessInfo>, root: u32, p: u32, c: u32)
    requires
        in_tree(procs, root, p),
        is_child(procs, c, p),
    ensures
        in_tree(procs, root, c),
{
    let chain = choose|chain: Seq<u32>| #[trigger] is_descent(procs, chain) && chain[0] == root && chain.last() == p;
    let next = chain.push(c);
    assert forall|i: int, j: int| 0 <= i && j == i + 1 && j < next.len() implies is_child(procs, #[trigger] next[j], #[trigger] next[i]) by {
        if j < chain.len() {
            assert(next[j] == chain[j] && next[i] == chain[i]);
        }
    }
    assert(is_descent(procs, next));
}

proof fn lemma_closed_contains_descent(procs: Seq<ProcessInfo>, out: Seq<u32>, chain: Seq<u32>, k: int)
    requires
        is_descent(procs, chain),
        out.contains(chain[0]),
        0 <= k < chain.len(),
        forall|m: int, c: u32| 0 <= m < out.len() && #[trigger] is_child(procs, c, out[m]) ==> out.contains(c),
    ensures
        out.contains(chain[k]),
    decreases k,
{
    if k > 0 {
        lemma_closed_contains_descent(procs, out, chain, k - 1);
        let m = choose|m: int| 0 <= m < out.len() && out[m] == chain[k - 1];
        assert(is_child(procs, chain[k], chain[k - 1]));
        assert(is_child(procs, chain[k], out[m]));
    }
}

/// The process `root` and all its descendants in the snapshot, each once,
/// `root` first.
pub fn collect_process_tree(root: u32, procs: &[ProcessInfo]) -> (r: Vec<u32>)
    ensures
        r@.len() >= 1,
        r@[0] == root,
        r@.no_duplicates(),
        forall|x: u32| r@.contains(x) <==> in_tree(procs@, root, x),
{
    let ghost ps = procs@;
    let n = procs.len();
    let mut out: Vec<u32> = Vec::new();
    out.push(root);
    proof {
        let chain = seq![root];
        assert(is_descent(ps, chain));
    }
    let mut i: usize = 0;
    while i < out.len()
        invariant
            ps == procs@,
            n == ps.len(),
            out@.len() >= 1,
            out@[0] == root,
            out@.no_duplicates(),
            i <= out@.len(),
            forall|k: int| 0 <= k < out@.len() ==> in_tree(ps, root, #[trigger] out@[k]),
            forall|m: int, c: u32| 0 <= m < i && #[trigger] is_child(ps, c, out@[m]) ==> out@.contains(c),
        decreases unvisited(ps, out@) + out@.len() - i,
    {
        let p = out[i];
        let ghost start = out@;
        let mut j: usize = 0;
        while j < n
            invariant
                ps == procs@,
                n == ps.len(),
                j <= n,
                i < start.len(),
                p == start[i as int],
                out@.len() >= start.len(),
                forall|k: int| 0 <= k < start.len() ==> #[trigger] out@[k] == start[k],
                out@.no_duplicates(),
                unvisited(ps, out@) + out@.len() <= unvisited(ps, start) + start.len(),
                forall|k: int| 0 <= k < out@.len() ==> in_tree(ps, root, #[trigger] out@[k]),
                forall|jj: int| 0 <= jj < j && #[trigger] ps[jj].parent_pid == Some(p) ==> out@.contains(ps[jj].pid),
            decreases n - j,
        {
            if procs[j].parent_pid == Some(p) {
                let c = procs[j].pid;
                if !contains_pid(&out, c) {
                    let ghost before = out@;
                    proof {
                        assert(is_child(ps, c, p));
                        assert(out@[i as int] == p);
                        assert(in_tree(ps, root, p));
                        lemma_descent_extend(ps, root, p, c);
                        assert(has_process(ps, c));
                        lemma_unvisited_push(ps, before, c);
                    }
                    out.push(c);
                    proof {
                        assert(out@[before.len() as int] == c);
                        assert forall|jj: int| 0 <= jj < j && #[trigger] ps[jj].parent_pid == Some(p) implies out@.contains(ps[jj].pid) by {
                            let k = choose|k: int| 0 <= k < before.len() && before[k] == ps[jj].pid;
                            assert(out@[k] == ps[jj].pid);
                        }
                    }
                }
            }
            j = j + 1;
        }
        proof {
            assert forall|m: int, c: u32| 0 <= m < i + 1 && #[trigger] is_child(ps, c, out@[m]) implies out@.contains(c) by {
                let jj = choose|jj: int| 0 <= jj < ps.len() && ps[jj].pid == c && ps[jj].parent_pid == Some(out@[m]);
                if m < i {
                    assert(out@[m] == start[m]);
                    assert(is_child(ps, c, start[m]));
                    let k = choose|k: int| 0 <= k < start.len() && start[k] == c;
                    assert(out@[k] == c);
                } else {
                    assert(ps[jj].parent_pid == Some(p));
                }
            }
        }
        i = i + 1;
    }
    proof {
        assert forall|x: u32| in_tree(ps, root, x) implies out@.contains(x) by {
            let chain = choose|chain: Seq<u32>| #[trigger] is_descent(ps, chain) && chain[0] == root && chain.last() == x;
            assert(out@[0] == root);
            lemma_closed_contains_descent(ps, out@, chain, chain.len() - 1);
        }
        assert forall|x: u32| out@.contains(x) implies in_tree(ps, root, x) by {
            let k = choose|k: int| 0 <= k < out@.len() && out@[k] == x;
        }
    }
    out
}

/// Adds `x` to a strictly increasing list of process ids, keeping it so.
pub fn insert_sorted(v: &mut Vec<u32>, x: u32)
    requires
        strictly_increasing(old(v)@),
    ensures
        strictly_increasing(final(v)@),
        forall|y: u32| final(v)@.contains(y) <==> (old(v)@.contains(y) || y == x),
{
    let n = v.len();
    let mut p: usize = 0;
    while p < n && v[p] < x
        invariant
            n == v@.len(),
            p <= n,
            forall|q: int| 0 <= q < p ==> v@[q] < x,
        decreases n - p,
    {
        p = p + 1;
    }
    if p < n && v[p] == x {
        assert(v@[p as int] == x);
        assert(v@.contains(x));
        return;
    }
    let ghost old_v = v@;
    assert(old_v == old(v)@);
    v.insert(p, x);
    proof {
        assert(v@ == old_v.insert(p as int, x));
        assert forall|a: int, b: int| 0 <= a < b < v@.len() implies #[trigger] v@[a] < #[trigger] v@[b] by {
            if b < p {
                assert(v@[a] == old_v[a] && v@[b] == old_v[b]);
            } else if b == p {
                assert(v@[a] == old_v[a]);
            } else if a < p {
                assert(v@[a] == old_v[a] && v@[b] == old_v[b - 1]);
            } else if a == p {
                assert(v@[b] == old_v[b - 1]);
                assert(old_v[p as int] > x);
            } else {
                assert(v@[a] == old_v[a - 1] && v@[b] == old_v[b - 1]);
            }
        }
        assert forall|y: u32| v@.contains(y) <==> (old_v.contains(y) || y == x) by {
            if v@.contains(y) {
                let k = choose|k: int| 0 <= k < v@.len() && v@[k] == y;
                if k < p {
                    assert(old_v[k] == y);
                } else if k > p {
                    assert(old_v[k - 1] == y);
                }
            }
            if old_v.contains(y) {
                let k = choose|k: int| 0 <= k < old_v.len() && old_v[k] == y;
                if k < p {
                    assert(v@[k] == y);
                } else {
                    assert(v@[k + 1] == y);
                }
            }
            if y == x {
                assert(v@[p as int] == x);
            }
        }
        assert(final(v)@ == v@);
        assert forall|y: u32| final(v)@.contains(y) <==> (old(v)@.contains(y) || y == x) by {
            assert(v@.contains(y) <==> (old_v.contains(y) || y == x));
        }
    }
}

/// The processes related to the seed processes of an application, in
/// increasing order, each once (see `is_related`).  The search walks up to
/// six ancestors of each seed that run the same executable, then the process
/// tree of each seed, then every process running the executable.
pub fn expand_related_pids(seed_pids: &[u32], preferred_exe: Option<&str>, procs: &[ProcessInfo]) -> (r: Vec<u32>)
    ensures
        strictly_increasing(r@),
        forall|x: u32| r@.contains(x) <==> is_related(procs@, seed_pids@, view_opt_str(preferred_exe), x),
{
    let ghost ps = procs@;
    let ghost seeds = seed_pids@;
    let ghost pref = view_opt_str(preferred_exe);
    let mut related: Vec<u32> = Vec::new();
    let ns = seed_pids.len();
    let mut si: usize = 0;
    while si < ns
        invariant
            ps == procs@,
            seeds == seed_pids@,
            pref == view_opt_str(preferred_exe),
            ns == seeds.len(),
            si <= ns,
            strictly_increasing(related@),
            forall|x: u32| related@.contains(x) ==> is_related(ps, seeds, pref, x),
            forall|s: int| 0 <= s < si ==> related@.contains(#[trigger] seeds[s]),
            pref is None ==> forall|s: int, x: u32| 0 <= s < si && #[trigger] in_tree(ps, seeds[s], x) ==> related@.contains(x),
        decreases ns - si,
    {
        let seed = seed_pids[si];
        proof {
            assert(seeds[si as int] == seed);
            assert(seeds.contains(seed));
        }
        insert_sorted(&mut related, seed);
        proof {
            if pref is None {
                assert(in_tree(ps, seed, seed)) by {
                    assert(is_descent(ps, seq![seed]));
                }
            }
        }
        // Walk up through ancestors running the same executable.
        let mut current = seed;
        let mut step: usize = 0;
        while step < 6
            invariant
                ps == procs@,
                seeds == seed_pids@,
                pref == view_opt_str(preferred_exe),
                strictly_increasing(related@),
                forall|x: u32| related@.contains(x) ==> is_related(ps, seeds, pref, x),
                ns == seeds.len(),
                si < ns,
                seed == seeds[si as int],
                forall|s: int| 0 <= s <= si ==> related@.contains(#[trigger] seeds[s]),
                pref is None ==> forall|s: int, x: u32| 0 <= s < si && #[trigger] in_tree(ps, seeds[s], x) ==> related@.contains(x),
            decreases 6 - step,
        {
            match process_parent(procs, current) {
                Some(parent) => {
                    if parent == 0 || parent == current {
                        break;
                    }
                    let same_family = match preferred_exe {
                        Some(exe) => of_family_exec(procs, parent, exe),
                        None => false,
                    };
                    if same_family {
                        proof {
                            lemma_image_path_present(ps, parent);
                        }
                        insert_sorted(&mut related, parent);
                        current = parent;
                        step = step + 1;
                        continue;
                    }
                    break;
                },
                None => {
                    break;
                },
            }
        }
        // The process tree of the seed.
        let tree = collect_process_tree(seed, procs);
        let nt = tree.len();
        for t in 0..nt
            invariant
                ps == procs@,
                seeds == seed_pids@,
                pref == view_opt_str(preferred_exe),
                nt == tree@.len(),
                ns == seeds.len(),
                si < ns,
                seed == seeds[si as int],
                forall|s: int| 0 <= s <= si ==> related@.contains(#[trigger] seeds[s]),
                pref is None ==> forall|s: int, x: u32| 0 <= s < si && #[trigger] in_tree(ps, seeds[s], x) ==> related@.contains(x),
                forall|x: u32| tree@.contains(x) <==> in_tree(ps, seed, x),
                strictly_increasing(related@),
                forall|x: u32| related@.contains(x) ==> is_related(ps, seeds, pref, x),
                pref is None ==> forall|k: int| 0 <= k < t ==> related@.contains(#[trigger] tree@[k]),
        {
            let pid = tree[t];
            proof {
                assert(tree@.contains(pid));
            }
            match preferred_exe {
                Some(exe) => {
                    match process_image_path(procs, pid) {
                        Some(_) => {
                            if of_family_exec(procs, pid, exe) {
                                proof {
                                    lemma_image_path_present(ps, pid);
                                }
                                insert_sorted(&mut related, pid);
                            }
                        },
                        None => {
                            if pid == seed {
                                proof {
                                    assert(seeds[si as int] == pid);
                                    assert(seeds.contains(pid));
                                }
                                insert_sorted(&mut related, pid);
                            }
                        },
                    }
                },
                None => {
                    proof {
                        assert(in_tree(ps, seeds[si as int], pid));
                    }
                    insert_sorted(&mut related, pid);
                },
            }
        }
        proof {
            if pref is None {
                assert forall|s: int, x: u32| 0 <= s < si + 1 && #[trigger] in_tree(ps, seeds[s], x) implies related@.contains(x) by {
                    if s == si {
                        assert(tree@.contains(x));
                        let k = choose|k: int| 0 <= k < tree@.len() && tree@[k] == x;
                    }
                }
            }
        }
        si = si + 1;
    }
    // Every process running the executable.
    if let Some(exe) = preferred_exe {
        let n = procs.len();
        for j in 0..n
            invariant
                ps == procs@,
                seeds == seed_pids@,
                pref == view_opt_str(preferred_exe),
                pref == Some(exe@),
                n == ps.len(),
                strictly_increasing(related@),
                forall|x: u32| related@.contains(x) ==> is_related(ps, seeds, pref, x),
                forall|s: int| 0 <= s < ns ==> related@.contains(#[trigger] seeds[s]),
                forall|k: int| 0 <= k < j && of_family(ps, #[trigger] ps[k].pid, exe@) ==> related@.contains(ps[k].pid),
        {
            let pid = procs[j].pid;
            if !contains_pid(&related, pid) && of_family_exec(procs, pid, exe) {
                proof {
                    assert(has_process(ps, pid));
                }
                insert_sorted(&mut related, pid);
            }
        }
        proof {
            assert forall|x: u32| is_related(ps, seeds, pref, x) implies related@.contains(x) by {
                if seeds.contains(x) {
                    let s = choose|s: int| 0 <= s < seeds.len() && seeds[s] == x;
                } else {
                    let k = choose|k: int| 0 <= k < ps.len() && #[trigger] ps[k].pid == x;
                }
            }
        }
    } else {
        proof {
            assert forall|x: u32| is_related(ps, seeds, pref, x) implies related@.contains(x) by {
                let s = choose|s: int| 0 <= s < seeds.len() && #[trigger] in_tree(ps, seeds[s], x);
            }
        }
    }
    related
}

} // verus!
