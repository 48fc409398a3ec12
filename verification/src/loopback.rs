//! Planning of the loopback capture used to verify exclusion.

use crate::text::{chars_of, decimal, decimal_chars, push_str, string_from_chars};
use vstd::prelude::*;

verus! {

/// How the verification capture is taken.
#[derive(Debug, Clone, Copy, PartialEq, Eq, Structural)]
pub enum LoopbackMode {
    ExcludeProcessTrees,
    IncludeProcessTrees,
    DeviceLoopback,
}

/// A verification capture: its mode, the root processes it targets and notes.
#[derive(Debug)]
pub struct LoopbackCapturePlan {
    pub mode: LoopbackMode,
    pub target_pids: Vec<u32>,
    pub notes: Vec<String>,
}

pub open spec fn strings_of(v: Seq<String>) -> Seq<Seq<char>> {
    v.map_values(|s: String| s@)
}

/// The notes every plan starts with.
pub open spec fn base_notes() -> Seq<Seq<char>> {
    seq![
        "La captura de loopback por proceso requiere Windows 10 2004+ / Windows 11."@,
        "PROCESS_LOOPBACK_MODE_EXCLUDE_TARGET_PROCESS_TREE permite validar exclusion."@,
    ]
}

/// The note of a plan that excludes `n` root processes.
pub open spec fn exclusion_note(n: nat) -> Seq<char> {
    "Se excluirán "@ + decimal(n) + " procesos raíz de la captura de verificación."@
}

/// `r` is the verification capture for these processes: the whole device,
/// with a note saying so, when there are none; else their process trees,
/// with a note giving how many.
pub open spec fn is_capture_plan(r: LoopbackCapturePlan, exclude_pids: Seq<u32>) -> bool {
    &&& exclude_pids.len() == 0 ==> r.mode == LoopbackMode::DeviceLoopback && r.target_pids@.len() == 0
        && strings_of(r.notes@) == base_notes().push("Sin PIDs excluidos: loopback de dispositivo completo."@)
    &&& exclude_pids.len() > 0 ==> r.mode == LoopbackMode::ExcludeProcessTrees && r.target_pids@ == exclude_pids
        && strings_of(r.notes@) == base_notes().push(exclusion_note(exclude_pids.len()))
}

/// The verification capture for the processes to exclude: the whole device
/// when there are none, else their process trees.
pub fn plan_shared_capture(exclude_pids: &[u32]) -> (r: LoopbackCapturePlan)
    ensures
        is_capture_plan(r, exclude_pids@),
{
    let mut notes: Vec<String> = Vec::new();
    notes.push("La captura de loopback por proceso requiere Windows 10 2004+ / Windows 11.".to_owned());
    notes.push("PROCESS_LOOPBACK_MODE_EXCLUDE_TARGET_PROCESS_TREE permite validar exclusion.".to_owned());
    let ghost base = notes@;
    if exclude_pids.len() == 0 {
        notes.push("Sin PIDs excluidos: loopback de dispositivo completo.".to_owned());
        assert(strings_of(notes@) =~= base_notes().push("Sin PIDs excluidos: loopback de dispositivo completo."@));
        return LoopbackCapturePlan { mode: LoopbackMode::DeviceLoopback, target_pids: Vec::new(), notes };
    }
    let mut v = chars_of("Se excluirán ");
    let mut d = decimal_chars(exclude_pids.len() as u64);
    v.append(&mut d);
    push_str(&mut v, " procesos raíz de la captura de verificación.");
    notes.push(string_from_chars(&v));
    assert(strings_of(notes@) =~= base_notes().push(exclusion_note(exclude_pids@.len())));
    let mut targets: Vec<u32> = Vec::new();
    let n = exclude_pids.len();
    for i in 0..n
        invariant
            n == exclude_pids@.len(),
            targets@ == exclude_pids@.take(i as int),
    {
        targets.push(exclude_pids[i]);
        assert(targets@ =~= exclude_pids@.take(i + 1));
    }
    assert(exclude_pids@.take(n as int) =~= exclude_pids@);
    LoopbackCapturePlan { mode: LoopbackMode::ExcludeProcessTrees, target_pids: targets, notes }
}

/// Whether process loopback capture is available on the Windows build with
/// this number (Windows 10 2004, build 19041, or later); assumed available
/// when the build could not be read.
pub fn process_loopback_supported(build_number: Option<u32>) -> (r: bool)
    ensures
        r == match build_number {
            Some(b) => b >= 19041,
            None => true,
        },
{
    match build_number {
        Some(b) => b >= 19041,
        None => true,
    }
}


/// How many captured frames the shared monitor writes to the physical
/// output: the captured frames, but no more than the free room of the render
/// buffer (its size less its padding, and none when the padding exceeds it).
pub fn monitor_frames_to_write(frames: u32, buffer_frames: u32, padding: u32) -> (r: u32)
    ensures
        r == (if buffer_frames >= padding {
            if frames <= buffer_frames - padding { frames as int } else { buffer_frames - padding }
        } else {
            0
        }),
{
    let available: u32 = if buffer_frames >= padding { buffer_frames - padding } else { 0 };
    if frames <= available { frames } else { available }
}

/// The bytes copied for `frames` frames of `block_align` bytes each.
pub fn monitor_copy_bytes(frames: u32, block_align: u16) -> (r: usize)
    requires
        (frames as int) * (block_align as int) <= usize::MAX,
    ensures
        r == (frames as int) * (block_align as int),
{
    (frames as usize) * (block_align as usize)
}

} // verus!
