//! Per-process audio endpoint assignments: which processes of a snapshot an
//! executable path designates, and the full endpoint ids handed to the
//! system's audio policy.

use crate::devices::SystemRole;
use crate::error::{AudioError, Result};
use crate::order::{first_where, lemma_first_where};
use crate::process::{image_path_in, process_image_path, ProcessInfo};
use crate::text::{
    chars_ends_with, chars_eq, chars_of, chars_starts_with, decimal, decimal_chars, has_prefix, has_suffix, lower,
    lower_chars, push_str, string_from_chars,
};
use vstd::prelude::*;

verus! {

/// One request to the system's audio policy: route process `pid` to these
/// full render endpoint ids (console and multimedia roles, then the
/// communications role).  An empty id clears the assignment of that role.
#[derive(Debug)]
pub struct EndpointAssignment {
    pub pid: u32,
    pub multimedia_device_id: String,
    pub communications_device_id: String,
}

impl Clone for EndpointAssignment {
    fn clone(&self) -> (r: Self)
        ensures
            r == *self,
    {
        EndpointAssignment {
            pid: self.pid,
            multimedia_device_id: self.multimedia_device_id.clone(),
            communications_device_id: self.communications_device_id.clone(),
        }
    }
}

/// Start of a full render endpoint id.
pub open spec fn render_id_prefix() -> Seq<char> {
    "\\\\?\\SWD#MMDEVAPI#"@
}

/// End of a full render endpoint id.
pub open spec fn render_id_suffix() -> Seq<char> {
    "#{e6327cad-dcec-4949-ae8a-991e976a79d2}"@
}

/// The full endpoint id of a device id: unchanged when it already has the
/// full form, else wrapped in the prefix and suffix.
pub open spec fn full_render_id(id: Seq<char>) -> Seq<char> {
    if has_prefix(id, render_id_prefix()) && has_suffix(id, render_id_suffix()) {
        id
    } else {
        render_id_prefix() + id + render_id_suffix()
    }
}

/// The id sent for a role: empty stays empty (clears the assignment).
pub open spec fn role_id(id: Seq<char>) -> Seq<char> {
    if id.len() == 0 {
        id
    } else {
        full_render_id(id)
    }
}

/// The full render endpoint id of a device id.
pub fn full_render_device_id(device_id: &str) -> (r: String)
    ensures
        r@ == full_render_id(device_id@),
{
    let id = chars_of(device_id);
    let prefix = chars_of("\\\\?\\SWD#MMDEVAPI#");
    let suffix = chars_of("#{e6327cad-dcec-4949-ae8a-991e976a79d2}");
    if chars_starts_with(&id, &prefix) && chars_ends_with(&id, &suffix) {
        device_id.to_owned()
    } else {
        let mut v = chars_of("\\\\?\\SWD#MMDEVAPI#");
        let mut mid = chars_of(device_id);
        v.append(&mut mid);
        push_str(&mut v, "#{e6327cad-dcec-4949-ae8a-991e976a79d2}");
        string_from_chars(&v)
    }
}

fn role_device_id(device_id: &str) -> (r: String)
    ensures
        r@ == role_id(device_id@),
{
    if chars_of(device_id).len() == 0 {
        device_id.to_owned()
    } else {
        full_render_device_id(device_id)
    }
}

/// The text of the error for process 0, which cannot be routed.
pub open spec fn process_zero_message() -> Seq<char> {
    "no se puede enrutar el proceso 0"@
}

/// The assignment of process `pid` to a multimedia and a communications
/// device; process 0 cannot be routed.
pub fn set_process_default_endpoints(pid: u32, multimedia_device_id: &str, communications_device_id: &str) -> (r: Result<
    EndpointAssignment,
>)
    ensures
        pid == 0 ==> (r matches Err(AudioError::Message(m)) && m@ == process_zero_message()),
        pid != 0 ==> (r matches Ok(a) && a.pid == pid && a.multimedia_device_id@ == role_id(multimedia_device_id@)
            && a.communications_device_id@ == role_id(communications_device_id@)),
{
    if pid == 0 {
        return Err(AudioError::Message("no se puede enrutar el proceso 0".to_owned()));
    }
    Ok(
        EndpointAssignment {
            pid,
            multimedia_device_id: role_device_id(multimedia_device_id),
            communications_device_id: role_device_id(communications_device_id),
        },
    )
}

/// The assignment of every role of process `pid` to one device.
pub fn set_process_default_endpoint(pid: u32, device_id: &str) -> (r: Result<EndpointAssignment>)
    ensures
        pid == 0 ==> (r matches Err(AudioError::Message(m)) && m@ == process_zero_message()),
        pid != 0 ==> (r matches Ok(a) && a.pid == pid && a.multimedia_device_id@ == role_id(device_id@)
            && a.communications_device_id@ == role_id(device_id@)),
{
    set_process_default_endpoints(pid, device_id, device_id)
}

/// The assignment of the process of a session to one device.
pub fn set_session_endpoint_by_pid(pid: u32, device_id: &str) -> (r: Result<EndpointAssignment>)
    ensures
        pid == 0 ==> (r matches Err(AudioError::Message(m)) && m@ == process_zero_message()),
        pid != 0 ==> (r matches Ok(a) && a.pid == pid && a.multimedia_device_id@ == role_id(device_id@)
            && a.communications_device_id@ == role_id(device_id@)),
{
    set_process_default_endpoint(pid, device_id)
}

/// The processes of the snapshot whose image path equals `path` up to ASCII
/// case, in snapshot order.
pub open spec fn pids_with_path(procs: Seq<ProcessInfo>, all: Seq<ProcessInfo>, path: Seq<char>) -> Seq<u32>
    decreases procs.len(),
{
    if procs.len() == 0 {
        Seq::empty()
    } else {
        let rest = pids_with_path(procs.drop_last(), all, path);
        let pid = procs.last().pid;
        if image_path_in(all, pid) matches Some(p) && lower(p) == lower(path) {
            rest.push(pid)
        } else {
            rest
        }
    }
}

/// The processes of the snapshot running the executable at `process_path`.
pub fn pids_for_process_path(process_path: &str, procs: &[ProcessInfo]) -> (r: Vec<u32>)
    ensures
        r@ == pids_with_path(procs@, procs@, process_path@),
{
    let wanted = lower_chars(&chars_of(process_path));
    let mut r: Vec<u32> = Vec::new();
    let n = procs.len();
    for i in 0..n
        invariant
            n == procs@.len(),
            wanted@ == lower(process_path@),
            r@ == pids_with_path(procs@.take(i as int), procs@, process_path@),
    {
        let pid = procs[i].pid;
        proof {
            assert(procs@.take(i + 1).drop_last() =~= procs@.take(i as int));
            assert(procs@.take(i + 1).last() == procs@[i as int]);
        }
        match process_image_path(procs, pid) {
            Some(p) => {
                let lp = lower_chars(&chars_of(p.as_str()));
                if chars_eq(&lp, &wanted) {
                    r.push(pid);
                }
            },
            None => {},
        }
    }
    assert(procs@.take(n as int) =~= procs@);
    r
}

/// The message when no running process has the executable at `path`.
pub open spec fn no_process_message(path: Seq<char>) -> Seq<char> {
    "no se encontraron procesos activos para "@ + path
}

/// The assignments routing every process running the executable at
/// `process_path` to `device_id`; an error when no such process runs.
pub fn set_app_default_endpoint(process_path: &str, device_id: &str, procs: &[ProcessInfo]) -> (r: Result<
    Vec<EndpointAssignment>,
>)
    ensures
        pids_with_path(procs@, procs@, process_path@).len() == 0 ==> (r matches Err(AudioError::Message(m)) && m@
            == no_process_message(process_path@)),
        pids_with_path(procs@, procs@, process_path@).len() > 0 ==> (r matches Ok(v) && v@.len() == pids_with_path(
            procs@,
            procs@,
            process_path@,
        ).len() && forall|k: int|
            0 <= k < v@.len() ==> (#[trigger] v@[k]).pid == pids_with_path(procs@, procs@, process_path@)[k]
                && v@[k].multimedia_device_id@ == role_id(device_id@) && v@[k].communications_device_id@ == role_id(
                device_id@,
            )),
{
    let pids = pids_for_process_path(process_path, procs);
    if pids.len() == 0 {
        let mut v = chars_of("no se encontraron procesos activos para ");
        let mut p = chars_of(process_path);
        v.append(&mut p);
        return Err(AudioError::Message(string_from_chars(&v)));
    }
    Ok(assignments_for(&pids, device_id))
}

/// The assignments clearing the routes of every process running the
/// executable at `process_path` (none when no such process runs).
pub fn clear_app_default_endpoint(process_path: &str, procs: &[ProcessInfo]) -> (r: Vec<EndpointAssignment>)
    ensures
        r@.len() == pids_with_path(procs@, procs@, process_path@).len(),
        forall|k: int|
            0 <= k < r@.len() ==> (#[trigger] r@[k]).pid == pids_with_path(procs@, procs@, process_path@)[k]
                && r@[k].multimedia_device_id@.len() == 0 && r@[k].communications_device_id@.len() == 0,
{
    let pids = pids_for_process_path(process_path, procs);
    let empty = String::new();
    assignments_for(&pids, empty.as_str())
}

fn assignments_for(pids: &Vec<u32>, device_id: &str) -> (r: Vec<EndpointAssignment>)
    ensures
        r@.len() == pids@.len(),
        forall|k: int|
            0 <= k < r@.len() ==> (#[trigger] r@[k]).pid == pids@[k] && r@[k].multimedia_device_id@ == role_id(
                device_id@,
            ) && r@[k].communications_device_id@ == role_id(device_id@),
{
    let mut r: Vec<EndpointAssignment> = Vec::new();
    let n = pids.len();
    for i in 0..n
        invariant
            n == pids@.len(),
            r@.len() == i,
            forall|k: int|
                0 <= k < i ==> (#[trigger] r@[k]).pid == pids@[k] && r@[k].multimedia_device_id@ == role_id(
                    device_id@,
                ) && r@[k].communications_device_id@ == role_id(device_id@),
    {
        r.push(
            EndpointAssignment {
                pid: pids[i],
                multimedia_device_id: role_device_id(device_id),
                communications_device_id: role_device_id(device_id),
            },
        );
    }
    r
}

/// The outcome of a batch of policy requests: the error of the last one that
/// failed, else success.
pub open spec fn last_failure(results: Seq<Result<()>>) -> Result<()>
    decreases results.len(),
{
    if results.len() == 0 {
        Ok(())
    } else {
        match results.last() {
            Err(e) => Err(e),
            Ok(_) => last_failure(results.drop_last()),
        }
    }
}

/// The outcome of a batch of policy requests: success only when every
/// request succeeded, else the error of the last one that failed.  This is
/// what clearing an application's routes reports once the requests of
/// `clear_app_default_endpoint` were made (success when no process runs
/// it).
pub fn combine_results(results: &Vec<Result<()>>) -> (r: Result<()>)
    ensures
        r == last_failure(results@),
{
    let mut out: Result<()> = Ok(());
    let n = results.len();
    for i in 0..n
        invariant
            n == results@.len(),
            out == last_failure(results@.take(i as int)),
    {
        proof {
            assert(results@.take(i + 1).drop_last() =~= results@.take(i as int));
        }
        match &results[i] {
            Err(e) => {
                out = Err(e.clone());
            },
            Ok(_) => {},
        }
    }
    assert(results@.take(n as int) =~= results@);
    out
}


/// The outcome of routing an application to a device, once the requests of
/// `set_app_default_endpoint` were made (`results`, one per assignment):
/// its error when no process runs the application, else success only when
/// every request succeeded, else the error of the last one that failed.
pub fn app_endpoint_outcome(planned: Result<Vec<EndpointAssignment>>, results: &Vec<Result<()>>) -> (r: Result<()>)
    ensures
        match planned {
            Err(e) => r == Err::<(), AudioError>(e),
            Ok(_) => r == last_failure(results@),
        },
{
    match planned {
        Err(e) => Err(e),
        Ok(_) => combine_results(results),
    }
}

/// The roles an assignment is persisted for, with the id sent for each, in
/// the order they are set: console and multimedia take the multimedia id,
/// communications its own.  A partial assignment is not accepted: the
/// request succeeds only when all three succeed.
pub fn assignment_role_calls(a: &EndpointAssignment) -> (r: Vec<(SystemRole, String)>)
    ensures
        r@.len() == 3,
        r@[0].0 == SystemRole::Console && r@[0].1 == a.multimedia_device_id,
        r@[1].0 == SystemRole::Multimedia && r@[1].1 == a.multimedia_device_id,
        r@[2].0 == SystemRole::Communications && r@[2].1 == a.communications_device_id,
{
    let mut r: Vec<(SystemRole, String)> = Vec::new();
    r.push((SystemRole::Console, a.multimedia_device_id.clone()));
    r.push((SystemRole::Multimedia, a.multimedia_device_id.clone()));
    r.push((SystemRole::Communications, a.communications_device_id.clone()));
    r
}

/// Whether an assignment took effect: every one of its role calls succeeded.
pub fn assignment_succeeded(console_ok: bool, multimedia_ok: bool, communications_ok: bool) -> (r: bool)
    ensures
        r == (console_ok && multimedia_ok && communications_ok),
{
    console_ok && multimedia_ok && communications_ok
}

/// The error when the audio policy factory cannot be obtained.
pub fn policy_unavailable_error(reason: &str) -> (r: AudioError)
    ensures
        r matches AudioError::Message(m) && m@ == "AudioPolicyConfig no está disponible en Windows: "@ + reason@,
{
    let mut v = chars_of("AudioPolicyConfig no está disponible en Windows: ");
    push_str(&mut v, reason);
    AudioError::Message(string_from_chars(&v))
}

/// The error when no interface version accepted the assignment of `pid`.
pub fn route_refused_error(pid: u32) -> (r: AudioError)
    ensures
        r matches AudioError::Message(m) && m@ == "Windows no permitió cambiar la salida de la aplicación (pid "@
            + decimal(pid as nat) + ")"@,
{
    let mut v = chars_of("Windows no permitió cambiar la salida de la aplicación (pid ");
    let mut d = decimal_chars(pid as u64);
    v.append(&mut d);
    push_str(&mut v, ")");
    AudioError::Message(string_from_chars(&v))
}

/// The error when the policy configuration client cannot be created.
pub fn policy_client_error(reason: &str) -> (r: AudioError)
    ensures
        r matches AudioError::Message(m) && m@ == "No se pudo crear PolicyConfigClient: "@ + reason@,
{
    let mut v = chars_of("No se pudo crear PolicyConfigClient: ");
    push_str(&mut v, reason);
    AudioError::Message(string_from_chars(&v))
}

pub open spec fn default_change_refused_message() -> Seq<char> {
    "No se pudo cambiar el dispositivo predeterminado mediante PolicyConfig. En desarrollo puedes seleccionar manualmente Audio compartido como salida predeterminada."@
}

/// The error when no interface version changed the default device.
pub fn default_change_refused_error() -> (r: AudioError)
    ensures
        r matches AudioError::Message(m) && m@ == default_change_refused_message(),
{
    AudioError::Message(
        string_from_chars(
            &chars_of(
                "No se pudo cambiar el dispositivo predeterminado mediante PolicyConfig. En desarrollo puedes seleccionar manualmente Audio compartido como salida predeterminada.",
            ),
        ),
    )
}

} // verus!
