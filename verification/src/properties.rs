//! Properties of the library as a whole: what holds across its functions,
//! over the specifications their contracts use.

use crate::config::{language_migration, same_config, AppConfig};
use crate::devices::{
    default_choice, lemma_physical_choice_is_physical, physical_choice, AudioDevice, DefaultRole,
};
use crate::devices::{best_auto_shared_pred, mic_chain_name, shared_choice, shared_name_pred, device_from_endpoint, device_keys, is_sorted_device_list, RenderEndpoint, DEVICE_STATE_ACTIVE};
use crate::order::{is_stable_order, permuted};
use crate::persist::IncompleteSession;
use crate::process::{critical_process, in_tree, is_descent, is_related, ProcessInfo};
use crate::paths::{file_name_of, lemma_file_name_of_lower};
use crate::types::{identity_matches_path, AppIdentity};
use crate::policy::{full_render_id, render_id_prefix, render_id_suffix};
use crate::protection::{
    activation_issue, clears_routes, clears_then_restores, engine_consistent, lists_routed_paths, RouteAction, RouteFailure, opt_device_id, identity_paths, is_activation_plan, is_completed_activation,
    is_deactivation, is_recovery_actions, without_critical, is_restore_defaults, opt_id_string, records_snapshot, AudioAction,
    ActivationPlan, DeactivationPlan, ProtectionEngine, ProtectionSnapshot,
};
use crate::protection::{
    cable_ab_named, is_route_plan, lemma_routed_positions, lemma_visible_groups, route_skipped, routed_positions,
    visible_groups, RouteTargets,
};
use crate::setup::{entry_pred, lower_file_name, named_pred, payload_choice, root_found_pred, root_payload, PayloadRoot};
use crate::order::{lemma_first_where_at, lemma_first_where_none};
use crate::types::PlaybackState;
use crate::order::{first_where, is_permutation, lemma_first_where};
use crate::icons::{
    adler32_of, be32, crc32_of, ihdr_data, le16, png_chunk, png_file, png_signature, png_sizes_fit, scanlines, stored_block,
    stored_blocks, stored_take, tag_idat, tag_iend, tag_ihdr, zlib_stored,
};
use crate::grouping::{group_key, is_group, is_grouping, is_key_list, items_with_key, lemma_items_nonempty, strings_view, AppAudioGroup};
use crate::sessions::AudioSessionInfo;
use crate::text::lemma_lex_irreflexive;
use vstd::set_lib::{lemma_int_range, lemma_subset_equality, set_int_range};
use crate::text::{ascii_lower_char, has_prefix, has_suffix, is_infix, lower, matches_at, view_opt_string};
use vstd::prelude::*;

verus! {

/// The text of an optional device's id.
pub open spec fn device_id_view(d: Option<AudioDevice>) -> Option<Seq<char>> {
    view_opt_string(opt_id_string(d))
}

/// How many actions restore the default devices with these previous ids.
pub open spec fn restore_count(mm: Option<Seq<char>>, comm: Option<Seq<char>>) -> int {
    (if mm is Some { 1int } else { 0int }) + (if comm is Some { 1int } else { 0int })
}

/// Deactivating right after an activation completed undoes it: protection
/// is off and nothing of it is kept, the preferences are those from before
/// the activation, and the deactivation clears the routes of every
/// executable routed by the activation, in order, then restores the default
/// devices that were the defaults before the activation.
pub proof fn deactivation_undoes_activation(
    before: ProtectionEngine,
    active: ProtectionEngine,
    after: ProtectionEngine,
    plan: ActivationPlan,
    routed: Seq<String>,
    monitor_error: Option<Seq<char>>,
    now: Seq<char>,
    deactivation: DeactivationPlan,
)
    requires
        is_completed_activation(before, active, plan, routed, monitor_error, now),
        is_deactivation(active, after, deactivation),
    ensures
        deactivation.was_active,
        !after.spec_active(),
        after.spec_snapshot() is None,
        after.spec_warnings().len() == 0,
        same_config(after.spec_config(), before.spec_config()),
        deactivation.actions@.len() >= routed.len(),
        forall|j: int| 0 <= j < routed.len() ==> clears_routes(#[trigger] deactivation.actions@[j], routed[j]@),
        is_restore_defaults(
            deactivation.actions@.skip(routed.len() as int),
            device_id_view(plan.previous_multimedia),
            device_id_view(plan.previous_communications),
        ),
{
}

/// Deactivating twice: the second deactivation finds protection off and
/// changes nothing on the system; after either, no snapshot is kept.  (Every
/// engine is consistent: a type invariant of `ProtectionEngine`.)
pub proof fn deactivation_is_idempotent(
    e0: ProtectionEngine,
    e1: ProtectionEngine,
    e2: ProtectionEngine,
    first: DeactivationPlan,
    second: DeactivationPlan,
)
    requires
        engine_consistent(e0),
        is_deactivation(e0, e1, first),
        is_deactivation(e1, e2, second),
    ensures
        !second.was_active,
        second.actions@.len() == 0,
        !e2.spec_active(),
        e1.spec_snapshot() is None,
        e2.spec_snapshot() is None,
        e2.spec_warnings() == e1.spec_warnings(),
        same_config(e2.spec_config(), e0.spec_config()),
{
}

/// The restoration at start of an unclosed session recorded from a
/// protection snapshot restores the default devices that the snapshot
/// recorded as previous, then clears the routes of the excluded
/// applications with a known path: after a crash while protecting, the
/// defaults come back as a deactivation would bring them back.
pub proof fn recovery_restores_recorded_defaults(
    i: IncompleteSession,
    s: ProtectionSnapshot,
    reason: Seq<char>,
    actions: Seq<AudioAction>,
)
    requires
        records_snapshot(i, s, reason),
        is_recovery_actions(actions, i),
    ensures
        ({
            let mm = view_opt_string(s.previous_default_multimedia_id);
            let comm = view_opt_string(s.previous_default_communications_id);
            let n = restore_count(mm, comm);
            let paths = identity_paths(s.excluded_apps@);
            &&& actions.len() == n + paths.len()
            &&& is_restore_defaults(actions.take(n), mm, comm)
            &&& forall|m: int| 0 <= m < paths.len() ==> clears_routes(#[trigger] actions[n + m], paths[m])
        }),
{
    let mm = view_opt_string(s.previous_default_multimedia_id);
    let comm = view_opt_string(s.previous_default_communications_id);
    let n = restore_count(mm, comm);
    let paths = identity_paths(s.excluded_apps@);
    assert(i.excluded_apps@ =~= s.excluded_apps@);
    let k = choose|k: int|
        0 <= k <= actions.len() && #[trigger] is_restore_defaults(
            actions.take(k),
            view_opt_string(i.previous_default_multimedia_id),
            view_opt_string(i.previous_default_communications_id),
        ) && actions.len() - k == identity_paths(i.excluded_apps@).len() && forall|m: int|
            k <= m < actions.len() ==> clears_routes(#[trigger] actions[m], identity_paths(i.excluded_apps@)[m - k]);
    assert(actions.take(k).len() == k);
    assert(k == n);
    assert forall|m: int| 0 <= m < paths.len() implies clears_routes(#[trigger] actions[n + m], paths[m]) by {
        assert(clears_routes(actions[n + m], identity_paths(i.excluded_apps@)[(n + m) - k]));
    }
}

/// The record saved before an activation changes the system lets the
/// restoration at start put back the default devices that were the defaults
/// when the activation was planned: a crash in the middle of an activation
/// loses no default device.
pub proof fn interrupted_activation_is_recoverable(
    plan: ActivationPlan,
    devs: Seq<AudioDevice>,
    config: AppConfig,
    now: Seq<char>,
    actions: Seq<AudioAction>,
)
    requires
        is_activation_plan(plan, devs, config, now),
        is_recovery_actions(actions, plan.incomplete),
    ensures
        ({
            let mm = device_id_view(plan.previous_multimedia);
            let comm = device_id_view(plan.previous_communications);
            is_restore_defaults(actions.take(restore_count(mm, comm)), mm, comm)
        }),
{
    let mm = device_id_view(plan.previous_multimedia);
    let comm = device_id_view(plan.previous_communications);
    let i = plan.incomplete;
    let k = choose|k: int|
        0 <= k <= actions.len() && #[trigger] is_restore_defaults(
            actions.take(k),
            view_opt_string(i.previous_default_multimedia_id),
            view_opt_string(i.previous_default_communications_id),
        ) && actions.len() - k == identity_paths(i.excluded_apps@).len() && forall|m: int|
            k <= m < actions.len() ==> clears_routes(#[trigger] actions[m], identity_paths(i.excluded_apps@)[m - k]);
    assert(actions.take(k).len() == k);
}

/// An activation that can go ahead sends private applications to a
/// physical output that is not the shared channel, and returns the shared
/// sound locally through a physical output.
pub proof fn activation_separates_outputs(plan: ActivationPlan, devs: Seq<AudioDevice>, config: AppConfig, now: Seq<char>)
    requires
        is_activation_plan(plan, devs, config, now),
        activation_issue(devs, config) is None,
    ensures
        plan.physical.is_physical_candidate,
        plan.local_monitor.is_physical_candidate,
        plan.shared.id@ != plan.physical.id@,
{
    let prev_mm = default_choice(devs, DefaultRole::Multimedia);
    let local = physical_choice(devs, opt_device_id(devs, prev_mm), true);
    let preferred = match config.preferred_physical_device_id {
        Some(p) => Some(p@),
        None => opt_device_id(devs, local),
    };
    lemma_physical_choice_is_physical(devs, opt_device_id(devs, prev_mm), true);
    lemma_physical_choice_is_physical(devs, preferred, true);
}

/// Migrating the language choice a second time changes nothing.
pub proof fn language_migration_is_idempotent(
    c0: AppConfig,
    c1: AppConfig,
    c2: AppConfig,
    first: bool,
    second: bool,
)
    requires
        language_migration(c0, c1, first),
        language_migration(c1, c2, second),
    ensures
        !second,
        same_config(c2, c1),
{
}

/// The full form of a render endpoint id is already full: making an id full
/// twice gives what making it full once gives.
pub proof fn full_render_id_is_idempotent(id: Seq<char>)
    ensures
        full_render_id(full_render_id(id)) == full_render_id(id),
{
    let p = render_id_prefix();
    let s = render_id_suffix();
    if !(has_prefix(id, p) && has_suffix(id, s)) {
        let full = p + id + s;
        assert(full.subrange(0, p.len() as int) =~= p);
        assert(full.subrange(full.len() - s.len(), full.len() as int) =~= s);
        assert(has_prefix(full, p));
        assert(has_suffix(full, s));
    }
}


/// Critical Windows processes are never among the applications kept as
/// excluded (see `without_critical`).
pub proof fn excluded_apps_are_never_critical(apps: Seq<AppIdentity>)
    ensures
        forall|i: int|
            0 <= i < without_critical(apps).len() ==> !critical_process(#[trigger] without_critical(apps)[i].exe_name@),
    decreases apps.len(),
{
    if apps.len() > 0 {
        excluded_apps_are_never_critical(apps.drop_last());
    }
}

/// Every seed process is among the related processes, whether the relation
/// goes by executable name or by process tree.
pub proof fn related_pids_include_seeds(procs: Seq<ProcessInfo>, seeds: Seq<u32>, preferred_exe: Option<Seq<char>>, pid: u32)
    requires
        seeds.contains(pid),
    ensures
        is_related(procs, seeds, preferred_exe, pid),
{
    if preferred_exe is None {
        let s = choose|s: int| 0 <= s < seeds.len() && seeds[s] == pid;
        let chain = seq![pid];
        assert(is_descent(procs, chain));
        assert(in_tree(procs, seeds[s], pid));
    }
}

/// Every device of the device list comes from one reported endpoint, and is
/// either a physical output or a virtual channel, never both.
pub proof fn listed_devices_are_physical_or_virtual(
    endpoints: Seq<RenderEndpoint>,
    default_multimedia_id: Option<Seq<char>>,
    default_communications_id: Option<Seq<char>>,
    listed: Seq<AudioDevice>,
)
    requires
        is_sorted_device_list(
            endpoints.map_values(
                |e: RenderEndpoint| device_from_endpoint(e, default_multimedia_id, default_communications_id),
            ),
            listed,
        ),
    ensures
        listed.len() == endpoints.len(),
        forall|i: int|
            0 <= i < listed.len() ==> (#[trigger] listed[i]).is_physical_candidate != listed[i].is_virtual_shared_candidate
                && listed[i].state == DEVICE_STATE_ACTIVE,
{
    let built = endpoints.map_values(
        |e: RenderEndpoint| device_from_endpoint(e, default_multimedia_id, default_communications_id),
    );
    let perm = choose|perm: Seq<usize>| is_stable_order(device_keys(built), perm) && listed == permuted(built, perm);
    assert forall|i: int| 0 <= i < listed.len() implies (#[trigger] listed[i]).is_physical_candidate
        != listed[i].is_virtual_shared_candidate && listed[i].state == DEVICE_STATE_ACTIVE by {
        assert(perm[i] < built.len());
        assert(listed[i] == built[perm[i] as int]);
    }
}


/// A character of `needle` occurs in every text that contains `needle`.
proof fn lemma_infix_has_char(needle: Seq<char>, hay: Seq<char>, k: int)
    requires
        is_infix(needle, hay),
        0 <= k < needle.len(),
    ensures
        exists|j: int| 0 <= j < hay.len() && hay[j] == needle[k],
{
    let i = choose|i: int| #[trigger] matches_at(hay, needle, i);
    assert(hay.subrange(i, i + needle.len())[k] == needle[k]);
    assert(hay[i + k] == needle[k]);
}

/// The lowercased name of the managed shared endpoint holds no `b`.
proof fn lemma_shared_name_has_no_b()
    ensures
        forall|j: int| 0 <= j < lower("Audio compartido"@).len() ==> lower("Audio compartido"@)[j] != 'b',
{
    reveal_strlit("Audio compartido");
    let lit = "Audio compartido"@;
    assert forall|j: int| 0 <= j < lower(lit).len() implies lower(lit)[j] != 'b' by {
        assert(lower(lit)[j] == ascii_lower_char(lit[j]));
        assert(lit[j] != 'b' && lit[j] != 'B');
    }
}

/// A name that lowercases like the managed shared endpoint's is not a Cable
/// A/B name.
proof fn lemma_shared_name_not_mic_chain(name: Seq<char>)
    requires
        lower(name) == lower("Audio compartido"@),
    ensures
        !mic_chain_name(name),
{
    lemma_shared_name_has_no_b();
    reveal_strlit("cable-a");
    reveal_strlit("cable a");
    reveal_strlit("cable-b");
    reveal_strlit("cable b");
    if is_infix("cable-a"@, lower(name)) {
        lemma_infix_has_char("cable-a"@, lower(name), 2);
    }
    if is_infix("cable a"@, lower(name)) {
        lemma_infix_has_char("cable a"@, lower(name), 2);
    }
    if is_infix("cable-b"@, lower(name)) {
        lemma_infix_has_char("cable-b"@, lower(name), 2);
    }
    if is_infix("cable b"@, lower(name)) {
        lemma_infix_has_char("cable b"@, lower(name), 2);
    }
}

/// Cable A and Cable B, which microphone effect chains use, are never
/// chosen as the shared channel on the library's own initiative: only a
/// preferred device id can select one.
pub proof fn mic_chains_are_never_chosen_automatically(devs: Seq<AudioDevice>)
    ensures
        shared_choice(devs, None) matches Some(i) ==> !mic_chain_name(devs[i].name@),
{
    let n = devs.len();
    lemma_first_where(n, shared_name_pred(devs));
    lemma_first_where(n, best_auto_shared_pred(devs));
    if let Some(i) = first_where(n, shared_name_pred(devs)) {
        lemma_shared_name_not_mic_chain(devs[i].name@);
    }
}


/// An application identity made from an executable's name (lowercased, as
/// `AppIdentity::from_exe` makes it) matches every path to an executable of
/// that name, whatever the letter case of the path or of the name.
pub proof fn identity_matches_paths_of_its_executable(identity: AppIdentity, exe_name: Seq<char>, path: Seq<char>)
    requires
        identity.exe_name@ == lower(exe_name),
        file_name_of(path) matches Some(n) && lower(n) == lower(exe_name),
    ensures
        identity_matches_path(identity, path),
{
    lemma_file_name_of_lower(path);
}


/// The number of sessions in the families `ks`.
pub open spec fn family_sizes(ss: Seq<AudioSessionInfo>, ks: Seq<Seq<char>>) -> int
    decreases ks.len(),
{
    if ks.len() == 0 {
        0
    } else {
        family_sizes(ss, ks.drop_last()) + items_with_key(ss, ks.last()).len()
    }
}

/// How many times `x` occurs in `ks`.
pub open spec fn occurrences(ks: Seq<Seq<char>>, x: Seq<char>) -> int
    decreases ks.len(),
{
    if ks.len() == 0 {
        0
    } else {
        occurrences(ks.drop_last(), x) + if ks.last() == x { 1int } else { 0int }
    }
}

/// The sum of the groups' session counts.
pub open spec fn session_total(gs: Seq<AppAudioGroup>) -> int
    decreases gs.len(),
{
    if gs.len() == 0 {
        0
    } else {
        session_total(gs.drop_last()) + gs.last().session_count
    }
}

proof fn lemma_family_sizes_of_nothing(ss: Seq<AudioSessionInfo>, ks: Seq<Seq<char>>)
    requires
        ss.len() == 0,
    ensures
        family_sizes(ss, ks) == 0,
    decreases ks.len(),
{
    if ks.len() > 0 {
        lemma_family_sizes_of_nothing(ss, ks.drop_last());
    }
}

proof fn lemma_family_sizes_step(ss: Seq<AudioSessionInfo>, ks: Seq<Seq<char>>)
    requires
        ss.len() > 0,
    ensures
        family_sizes(ss, ks) == family_sizes(ss.drop_last(), ks) + occurrences(ks, group_key(ss.last())),
    decreases ks.len(),
{
    if ks.len() > 0 {
        lemma_family_sizes_step(ss, ks.drop_last());
    }
}

proof fn lemma_occurrences_absent(ks: Seq<Seq<char>>, x: Seq<char>)
    requires
        !ks.contains(x),
    ensures
        occurrences(ks, x) == 0,
    decreases ks.len(),
{
    if ks.len() > 0 {
        let init = ks.drop_last();
        assert(!init.contains(x)) by {
            if init.contains(x) {
                let i = choose|i: int| 0 <= i < init.len() && init[i] == x;
                assert(ks[i] == x);
            }
        }
        assert(ks.last() != x) by {
            if ks.last() == x {
                assert(ks[ks.len() - 1] == x);
            }
        }
        lemma_occurrences_absent(init, x);
    }
}

proof fn lemma_occurrences_once(ks: Seq<Seq<char>>, x: Seq<char>)
    requires
        ks.no_duplicates(),
        ks.contains(x),
    ensures
        occurrences(ks, x) == 1,
    decreases ks.len(),
{
    let init = ks.drop_last();
    let n = ks.len();
    assert(init.no_duplicates()) by {
        assert forall|i: int, j: int| 0 <= i < init.len() && 0 <= j < init.len() && i != j implies init[i] != init[j] by {
            assert(init[i] == ks[i] && init[j] == ks[j]);
        }
    }
    if ks.last() == x {
        assert(!init.contains(x)) by {
            if init.contains(x) {
                let i = choose|i: int| 0 <= i < init.len() && init[i] == x;
                assert(ks[i] == ks[n - 1]);
            }
        }
        lemma_occurrences_absent(init, x);
    } else {
        let i = choose|i: int| 0 <= i < n && ks[i] == x;
        assert(i != n - 1);
        assert(init[i] == x);
        lemma_occurrences_once(init, x);
    }
}

proof fn lemma_family_sizes_cover(ss: Seq<AudioSessionInfo>, ks: Seq<Seq<char>>)
    requires
        ks.no_duplicates(),
        forall|i: int| 0 <= i < ss.len() ==> ks.contains(#[trigger] group_key(ss[i])),
    ensures
        family_sizes(ss, ks) == ss.len(),
    decreases ss.len(),
{
    if ss.len() == 0 {
        lemma_family_sizes_of_nothing(ss, ks);
    } else {
        let init = ss.drop_last();
        assert forall|i: int| 0 <= i < init.len() implies ks.contains(#[trigger] group_key(init[i])) by {
            assert(init[i] == ss[i]);
            assert(ks.contains(group_key(ss[i])));
        }
        lemma_family_sizes_cover(init, ks);
        lemma_family_sizes_step(ss, ks);
        assert(ks.contains(group_key(ss[ss.len() - 1])));
        lemma_occurrences_once(ks, group_key(ss.last()));
    }
}

proof fn lemma_permutation_onto(perm: Seq<usize>, n: nat, t: int)
    requires
        is_permutation(perm, n),
        0 <= t < n,
    ensures
        exists|j: int| 0 <= j < perm.len() && perm[j] as int == t,
{
    broadcast use vstd::seq_lib::seq_to_set_is_finite;

    let ip = perm.map_values(|p: usize| p as int);
    assert(ip.no_duplicates()) by {
        assert forall|a: int, b: int| 0 <= a < ip.len() && 0 <= b < ip.len() && a != b implies ip[a] != ip[b] by {
            assert(perm[a] != perm[b]);
        }
    }
    ip.unique_seq_to_set();
    lemma_int_range(0, n as int);
    assert(ip.to_set().subset_of(set_int_range(0, n as int))) by {
        assert forall|x: int| ip.to_set().contains(x) implies set_int_range(0, n as int).contains(x) by {
            let k = choose|k: int| 0 <= k < ip.len() && ip[k] == x;
            assert(perm[k] < n);
        }
    }
    lemma_subset_equality(ip.to_set(), set_int_range(0, n as int));
    assert(set_int_range(0, n as int).contains(t));
    assert(ip.to_set().contains(t));
    let j = choose|j: int| 0 <= j < ip.len() && ip[j] == t;
    assert(perm[j] as int == t);
}

proof fn lemma_session_total(gs: Seq<AppAudioGroup>, ss: Seq<AudioSessionInfo>, pks: Seq<Seq<char>>)
    requires
        gs.len() == pks.len(),
        forall|j: int| 0 <= j < gs.len() ==> #[trigger] gs[j].session_count == items_with_key(ss, pks[j]).len(),
    ensures
        session_total(gs) == family_sizes(ss, pks),
    decreases gs.len(),
{
    if gs.len() > 0 {
        let n = gs.len();
        assert forall|j: int| 0 <= j < n - 1 implies #[trigger] gs.drop_last()[j].session_count == items_with_key(ss, pks.drop_last()[j]).len() by {
            assert(gs.drop_last()[j] == gs[j]);
            assert(gs[j].session_count == items_with_key(ss, pks[j]).len());
        }
        lemma_session_total(gs.drop_last(), ss, pks.drop_last());
        assert(gs[n - 1].session_count == items_with_key(ss, pks[n - 1]).len());
    }
}

/// Grouping puts every session in exactly one group: the session counts of
/// the groups add up to the number of sessions.
pub proof fn grouping_counts_each_session_once(
    ss: Seq<AudioSessionInfo>,
    excluded: Seq<AppIdentity>,
    res: Seq<AppAudioGroup>,
)
    requires
        is_grouping(ss, excluded, res),
    ensures
        session_total(res) == ss.len(),
{
    let (ks, perm): (Seq<Seq<char>>, Seq<usize>) = choose|ks: Seq<Seq<char>>, perm: Seq<usize>|
        {
            &&& is_key_list(ss, ks)
            &&& is_stable_order(crate::grouping::group_order_keys(ss, ks, excluded), perm)
            &&& res.len() == ks.len()
            &&& forall|j: int|
                0 <= j < res.len() ==> is_group(
                    #[trigger] res[j],
                    ks[perm[j] as int],
                    items_with_key(ss, ks[perm[j] as int]),
                    excluded,
                )
        };
    let n = ks.len();
    assert(perm.len() == n);
    let pks = perm.map_values(|p: usize| ks[p as int]);
    assert(ks.no_duplicates()) by {
        assert forall|a: int, b: int| 0 <= a < n && 0 <= b < n && a != b implies ks[a] != ks[b] by {
            if a < b {
                assert(crate::text::lex_lt(ks[a], ks[b]));
                if ks[a] == ks[b] {
                    lemma_lex_irreflexive(ks[a]);
                }
            } else {
                assert(crate::text::lex_lt(ks[b], ks[a]));
                if ks[a] == ks[b] {
                    lemma_lex_irreflexive(ks[a]);
                }
            }
        }
    }
    assert(pks.no_duplicates()) by {
        assert forall|a: int, b: int| 0 <= a < n && 0 <= b < n && a != b implies pks[a] != pks[b] by {
            assert(perm[a] != perm[b]);
            assert(perm[a] < n && perm[b] < n);
        }
    }
    assert forall|i: int| 0 <= i < ss.len() implies pks.contains(#[trigger] group_key(ss[i])) by {
        let k = group_key(ss[i]);
        assert(ks.contains(k));
        let t = choose|t: int| 0 <= t < n && ks[t] == k;
        lemma_permutation_onto(perm, n, t);
        let j = choose|j: int| 0 <= j < perm.len() && perm[j] as int == t;
        assert(pks[j] == k);
    }
    lemma_family_sizes_cover(ss, pks);
    assert forall|j: int| 0 <= j < res.len() implies #[trigger] res[j].session_count == items_with_key(ss, pks[j]).len() by {
        assert(is_group(res[j], ks[perm[j] as int], items_with_key(ss, ks[perm[j] as int]), excluded));
    }
    lemma_session_total(res, ss, pks);
}


/// A failed activation is undone: the rollback clears the routes of every
/// executable whose route request succeeded before the failure, and then
/// puts back the default devices that were the defaults before the
/// activation.
pub proof fn failed_activation_is_undone(
    plan: ActivationPlan,
    actions: Seq<RouteAction>,
    results: Seq<crate::error::Result<()>>,
    failure: RouteFailure,
    rollback: Seq<AudioAction>,
)
    requires
        actions.len() == results.len(),
        lists_routed_paths(failure.routed_paths@, actions, results),
        clears_then_restores(
            rollback,
            failure.routed_paths@,
            device_id_view(plan.previous_multimedia),
            device_id_view(plan.previous_communications),
        ),
    ensures
        forall|j: int|
            #![trigger results[j]]
            0 <= j < actions.len() && results[j] is Ok ==> exists|m: int|
                0 <= m < failure.routed_paths@.len() && clears_routes(rollback[m], actions[j].path@),
        is_restore_defaults(
            rollback.skip(failure.routed_paths@.len() as int),
            device_id_view(plan.previous_multimedia),
            device_id_view(plan.previous_communications),
        ),
{
    let paths = failure.routed_paths@;
    assert forall|j: int| #![trigger results[j]] 0 <= j < actions.len() && results[j] is Ok implies exists|m: int|
        0 <= m < paths.len() && clears_routes(rollback[m], actions[j].path@) by {
        let x = actions[j].path@;
        assert(strings_view(paths).contains(x));
        let m = choose|m: int| 0 <= m < strings_view(paths).len() && strings_view(paths)[m] == x;
        assert(paths[m]@ == x);
        assert(0 <= m < paths.len());
        assert(clears_routes(rollback[m], paths[m]@));
        assert(clears_routes(rollback[m], actions[j].path@));
    }
}


/// The 16-bit little-endian value at `s[i]`, `s[i + 1]`.
pub open spec fn read_le16(s: Seq<u8>, i: int) -> int {
    s[i] + 256 * s[i + 1]
}

/// Reads the stored deflate blocks that start at `s[i]`, as an inflater
/// does: each block is a header byte (bit 0: final block; bits 1-2: block
/// type, 0 for stored), its length `LEN` and `NLEN`, the complement of
/// `LEN`, both little-endian, then `LEN` bytes.  Reading stops after the
/// final block.  The bytes carried and the position after the final block;
/// `None` when the blocks are malformed or run past the end.
pub open spec fn inflate_stored_blocks(s: Seq<u8>, i: int) -> Option<(Seq<u8>, int)>
    decreases s.len() - i,
{
    if i < 0 || i + 5 > s.len() {
        None
    } else {
        let header = s[i] as int;
        let len = read_le16(s, i + 1);
        let end = i + 5 + len;
        if (header / 2) % 4 != 0 || len + read_le16(s, i + 3) != 65535 || end > s.len() {
            None
        } else if header % 2 == 1 {
            Some((s.subrange(i + 5, end), end))
        } else {
            match inflate_stored_blocks(s, end) {
                Some((rest, e)) => Some((s.subrange(i + 5, end) + rest, e)),
                None => None,
            }
        }
    }
}

/// Inflates a zlib stream of stored deflate blocks: a header for deflate
/// with a window of at most 32 KiB, a valid header check and no preset
/// dictionary; the blocks; then the Adler-32 of the inflated bytes,
/// big-endian, ending the stream.  `None` when any of this fails.
pub open spec fn inflate_zlib_stored(z: Seq<u8>) -> Option<Seq<u8>> {
    if z.len() < 2 || z[0] % 16 != 8 || z[0] / 16 > 7 || (z[0] * 256 + z[1]) % 31 != 0 || (z[1] / 32) % 2 != 0 {
        None
    } else {
        match inflate_stored_blocks(z, 2) {
            Some((data, e)) => if e + 4 == z.len() && z.subrange(e, e + 4) == be32(adler32_of(data)) {
                Some(data)
            } else {
                None
            },
            None => None,
        }
    }
}

proof fn lemma_le16_reads_back(x: u16)
    ensures
        le16(x)[0] + 256 * le16(x)[1] == x,
        le16(!x)[0] + 256 * le16(!x)[1] + x == 65535,
{
    let y: u16 = !x;
    assert(((x & 0xffu16) as u8) as int + 256 * (((x >> 8u16) & 0xffu16) as u8) as int == x as int) by (bit_vector);
    assert(((y & 0xffu16) as u8) as int + 256 * (((y >> 8u16) & 0xffu16) as u8) as int == y as int) by (bit_vector);
    assert(y as int + x as int == 65535) by (bit_vector)
        requires
            y == !x,
    ;
}

proof fn lemma_stored_block_header(raw: Seq<u8>, off: int, s: Seq<u8>, i: int)
    requires
        0 <= off < raw.len(),
        0 <= i,
        i + stored_block(raw, off).len() <= s.len(),
        s.subrange(i, i + stored_block(raw, off).len()) == stored_block(raw, off),
    ensures
        stored_block(raw, off).len() == 5 + stored_take(raw, off),
        s[i] as int == if off + stored_take(raw, off) >= raw.len() { 1int } else { 0int },
        read_le16(s, i + 1) == stored_take(raw, off),
        read_le16(s, i + 3) + stored_take(raw, off) == 65535,
        s.subrange(i + 5, i + 5 + stored_take(raw, off)) == raw.subrange(off, off + stored_take(raw, off)),
{
    let take = stored_take(raw, off);
    let t: u16 = take as u16;
    let b = stored_block(raw, off);
    let flag: u8 = if off + take >= raw.len() { 1u8 } else { 0u8 };
    lemma_le16_reads_back(t);
    assert(b =~= seq![flag, le16(t)[0], le16(t)[1], le16(!t)[0], le16(!t)[1]] + raw.subrange(off, off + take));
    let w = s.subrange(i, i + b.len());
    assert(s[i] == w[0]);
    assert(s[i + 1] == w[1]);
    assert(s[i + 2] == w[2]);
    assert(s[i + 3] == w[3]);
    assert(s[i + 4] == w[4]);
    assert(s.subrange(i + 5, i + 5 + take) =~= w.subrange(5, 5 + take));
}

proof fn lemma_inflate_step(s: Seq<u8>, i: int, take: int)
    requires
        0 <= i,
        0 <= take,
        i + 5 + take <= s.len(),
        s[i] == 0u8 || s[i] == 1u8,
        read_le16(s, i + 1) == take,
        read_le16(s, i + 3) + take == 65535,
    ensures
        s[i] == 1u8 ==> inflate_stored_blocks(s, i) == Some((s.subrange(i + 5, i + 5 + take), i + 5 + take)),
        s[i] == 0u8 ==> inflate_stored_blocks(s, i) == match inflate_stored_blocks(s, i + 5 + take) {
            Some((rest, e)) => Some((s.subrange(i + 5, i + 5 + take) + rest, e)),
            None => None,
        },
{
}

proof fn lemma_inflate_stored_blocks(raw: Seq<u8>, off: int, s: Seq<u8>, i: int)
    requires
        0 <= off < raw.len(),
        0 <= i,
        i + stored_blocks(raw, off).len() <= s.len(),
        s.subrange(i, i + stored_blocks(raw, off).len()) == stored_blocks(raw, off),
    ensures
        inflate_stored_blocks(s, i) == Some((raw.subrange(off, raw.len() as int), i + stored_blocks(raw, off).len())),
    decreases raw.len() - off,
{
    let take = stored_take(raw, off);
    let block = stored_block(raw, off);
    let next = off + take;
    let rest = stored_blocks(raw, next);
    let all = stored_blocks(raw, off);
    assert(all == block + rest);
    let bl = block.len() as int;
    assert(s.subrange(i, i + bl) =~= all.subrange(0, bl));
    assert(all.subrange(0, bl) =~= block);
    lemma_stored_block_header(raw, off, s, i);
    lemma_inflate_step(s, i, take);
    if next >= raw.len() {
        assert(rest =~= Seq::<u8>::empty());
        assert(raw.subrange(off, next) =~= raw.subrange(off, raw.len() as int));
    } else {
        assert(s.subrange(i + bl, i + all.len()) =~= all.subrange(bl, all.len() as int));
        assert(all.subrange(bl, all.len() as int) =~= rest);
        lemma_inflate_stored_blocks(raw, next, s, i + bl);
        assert(raw.subrange(off, next) + raw.subrange(next, raw.len() as int) =~= raw.subrange(off, raw.len() as int));
    }
}

proof fn lemma_scanlines_len(rgba: Seq<u8>, row_len: int, rows: int)
    requires
        0 <= row_len,
        0 <= rows,
        rows * row_len <= rgba.len(),
    ensures
        scanlines(rgba, row_len, rows).len() == rows * (row_len + 1),
    decreases rows,
{
    if rows == 0 {
        assert(rows * (row_len + 1) == 0) by (nonlinear_arith)
            requires
                rows == 0,
        ;
    } else {
        assert(rows * row_len == (rows - 1) * row_len + row_len) by (nonlinear_arith);
        assert(rows * (row_len + 1) == (rows - 1) * (row_len + 1) + row_len + 1) by (nonlinear_arith);
        assert((rows - 1) * row_len >= 0) by (nonlinear_arith)
            requires
                rows >= 1,
                row_len >= 0,
        ;
        lemma_scanlines_len(rgba, row_len, rows - 1);
    }
}

proof fn lemma_scanline_rows(rgba: Seq<u8>, row_len: int, rows: int, y: int)
    requires
        0 <= row_len,
        0 <= y < rows,
        rows * row_len <= rgba.len(),
    ensures
        scanlines(rgba, row_len, rows)[y * (row_len + 1)] == 0u8,
        scanlines(rgba, row_len, rows).subrange(y * (row_len + 1) + 1, (y + 1) * (row_len + 1)) =~= rgba.subrange(
            y * row_len,
            (y + 1) * row_len,
        ),
    decreases rows,
{
    let prev = scanlines(rgba, row_len, rows - 1);
    assert(rows * row_len == (rows - 1) * row_len + row_len) by (nonlinear_arith);
    assert((rows - 1) * row_len >= 0) by (nonlinear_arith)
        requires
            rows >= 1,
            row_len >= 0,
    ;
    assert((y + 1) * (row_len + 1) == y * (row_len + 1) + row_len + 1) by (nonlinear_arith);
    assert((y + 1) * row_len == y * row_len + row_len) by (nonlinear_arith);
    lemma_scanlines_len(rgba, row_len, rows - 1);
    let whole = scanlines(rgba, row_len, rows);
    let last = rgba.subrange((rows - 1) * row_len, rows * row_len);
    assert(whole == prev + seq![0u8] + last);
    if y < rows - 1 {
        lemma_scanline_rows(rgba, row_len, rows - 1, y);
        assert(y * (row_len + 1) + row_len + 1 <= (rows - 1) * (row_len + 1)) by (nonlinear_arith)
            requires
                y < rows - 1,
                0 <= row_len,
        ;
        assert(whole[y * (row_len + 1)] == prev[y * (row_len + 1)]);
        assert(whole.subrange(y * (row_len + 1) + 1, (y + 1) * (row_len + 1)) =~= prev.subrange(
            y * (row_len + 1) + 1,
            (y + 1) * (row_len + 1),
        ));
    } else {
        assert(y * (row_len + 1) == (rows - 1) * (row_len + 1));
        assert(prev.len() == y * (row_len + 1));
        assert(whole.subrange(y * (row_len + 1) + 1, (y + 1) * (row_len + 1)) =~= last);
    }
}

proof fn lemma_inflate_zlib_stored(raw: Seq<u8>)
    requires
        raw.len() > 0,
    ensures
        inflate_zlib_stored(zlib_stored(raw)) == Some(raw),
{
    let blocks = stored_blocks(raw, 0);
    let z = zlib_stored(raw);
    let head = seq![0x78u8, 0x01u8];
    let tail = be32(adler32_of(raw));
    assert(z =~= head + blocks + tail);
    assert(z[0] == 0x78u8 && z[1] == 0x01u8);
    assert(z.subrange(2, 2 + blocks.len() as int) =~= blocks);
    lemma_inflate_stored_blocks(raw, 0, z, 2);
    assert(raw.subrange(0, raw.len() as int) =~= raw);
    assert(z.subrange(2 + blocks.len() as int, 2 + blocks.len() as int + 4) =~= tail);
}

proof fn lemma_png_idat_place(rgba: Seq<u8>, width: u32, height: u32)
    ensures
        ({
            let z = zlib_stored(scanlines(rgba, width * 4, height as int));
            &&& png_file(rgba, width, height).subrange(37, 41) == seq![73u8, 68u8, 65u8, 84u8]
            &&& png_file(rgba, width, height).subrange(41, 41 + z.len() as int) == z
        }),
{
    let z = zlib_stored(scanlines(rgba, width * 4, height as int));
    let f = png_file(rgba, width, height);
    let ihdr = crate::icons::png_chunk(crate::icons::tag_ihdr(), crate::icons::ihdr_data(width, height));
    assert(ihdr.len() == 25);
    assert(f.subrange(37, 41) =~= seq![73u8, 68u8, 65u8, 84u8]);
    assert(f.subrange(41, 41 + z.len() as int) =~= z);
}

/// Reading back the image data of an encoded PNG: the `IDAT` chunk follows
/// the signature and the header chunk, and inflating its zlib stream gives
/// the filtered rows, in which each row of the image is a filter byte 0
/// followed by that row's pixels.
pub proof fn png_image_data_inflates_to_its_rows(rgba: Seq<u8>, width: u32, height: u32)
    requires
        height > 0,
        png_sizes_fit(rgba.len() as int, width, height),
    ensures
        ({
            let row_len = width * 4;
            let rows = scanlines(rgba, row_len, height as int);
            let z = zlib_stored(rows);
            &&& png_file(rgba, width, height).subrange(37, 41) == seq![73u8, 68u8, 65u8, 84u8]
            &&& png_file(rgba, width, height).subrange(41, 41 + z.len() as int) == z
            &&& inflate_zlib_stored(z) == Some(rows)
            &&& rows.len() == height * (row_len + 1)
            &&& forall|y: int|
                0 <= y < height ==> #[trigger] rows[y * (row_len + 1)] == 0u8 && rows.subrange(
                    y * (row_len + 1) + 1,
                    (y + 1) * (row_len + 1),
                ) == rgba.subrange(y * row_len, (y + 1) * row_len)
        }),
{
    let row_len: int = width * 4;
    let rows = scanlines(rgba, row_len, height as int);
    assert((width as int) * (height as int) * 4 == (height as int) * row_len) by (nonlinear_arith)
        requires
            row_len == width * 4,
    ;
    assert forall|y: int| 0 <= y < height implies #[trigger] rows[y * (row_len + 1)] == 0u8 && rows.subrange(
        y * (row_len + 1) + 1,
        (y + 1) * (row_len + 1),
    ) == rgba.subrange(y * row_len, (y + 1) * row_len) by {
        lemma_scanline_rows(rgba, row_len, height as int, y);
    }
    lemma_scanlines_len(rgba, row_len, height as int);
    assert(rows.len() > 0) by (nonlinear_arith)
        requires
            rows.len() == height * (row_len + 1),
            height > 0,
            row_len >= 0,
    ;
    lemma_inflate_zlib_stored(rows);
    lemma_png_idat_place(rgba, width, height);
}


/// The family keys of the sessions, as a set.
pub open spec fn family_keys(ss: Seq<AudioSessionInfo>) -> Set<Seq<char>> {
    ss.map_values(|s: AudioSessionInfo| group_key(s)).to_set()
}

/// Grouping makes exactly one group per distinct family key of the
/// sessions, and no group is empty.
pub proof fn grouping_has_one_nonempty_group_per_key(
    ss: Seq<AudioSessionInfo>,
    excluded: Seq<AppIdentity>,
    res: Seq<AppAudioGroup>,
)
    requires
        is_grouping(ss, excluded, res),
    ensures
        res.len() == family_keys(ss).len(),
        forall|j: int| 0 <= j < res.len() ==> #[trigger] res[j].session_count > 0,
{
    let (ks, perm): (Seq<Seq<char>>, Seq<usize>) = choose|ks: Seq<Seq<char>>, perm: Seq<usize>|
        {
            &&& is_key_list(ss, ks)
            &&& is_stable_order(crate::grouping::group_order_keys(ss, ks, excluded), perm)
            &&& res.len() == ks.len()
            &&& forall|j: int|
                0 <= j < res.len() ==> is_group(
                    #[trigger] res[j],
                    ks[perm[j] as int],
                    items_with_key(ss, ks[perm[j] as int]),
                    excluded,
                )
        };
    let n = ks.len();
    assert(ks.no_duplicates()) by {
        assert forall|a: int, b: int| 0 <= a < n && 0 <= b < n && a != b implies ks[a] != ks[b] by {
            if a < b {
                assert(crate::text::lex_lt(ks[a], ks[b]));
            } else {
                assert(crate::text::lex_lt(ks[b], ks[a]));
            }
            if ks[a] == ks[b] {
                lemma_lex_irreflexive(ks[a]);
            }
        }
    }
    ks.unique_seq_to_set();
    let keys = ss.map_values(|s: AudioSessionInfo| group_key(s));
    assert(ks.to_set() =~= keys.to_set()) by {
        assert forall|k: Seq<char>| ks.to_set().contains(k) <==> keys.to_set().contains(k) by {
            if ks.contains(k) {
                let i = choose|i: int| 0 <= i < ss.len() && #[trigger] group_key(ss[i]) == k;
                assert(keys[i] == k);
            }
            if keys.contains(k) {
                let i = choose|i: int| 0 <= i < keys.len() && keys[i] == k;
                assert(group_key(ss[i]) == k);
            }
        }
    }
    assert forall|j: int| 0 <= j < res.len() implies #[trigger] res[j].session_count > 0 by {
        assert(is_group(res[j], ks[perm[j] as int], items_with_key(ss, ks[perm[j] as int]), excluded));
        let k = ks[perm[j] as int];
        assert(ks.contains(k));
        let i = choose|i: int| 0 <= i < ss.len() && #[trigger] group_key(ss[i]) == k;
        lemma_items_nonempty(ss, k, i);
    }
}


/// The 32-bit big-endian value at `s[i..i + 4]`.
pub open spec fn read_be32(s: Seq<u8>, i: int) -> int {
    s[i] * 16777216 + s[i + 1] * 65536 + s[i + 2] * 256 + s[i + 3]
}

/// Reads the PNG chunk that starts at `b[off]`: its data length (big-endian),
/// its tag, its data and its CRC-32, which must be that of tag and data.  The
/// tag, the data and the position after the chunk; `None` when the chunk runs
/// past the end or its CRC is wrong.
pub open spec fn chunk_at(b: Seq<u8>, off: int) -> Option<(Seq<u8>, Seq<u8>, int)> {
    if off < 0 || off + 12 > b.len() {
        None
    } else {
        let len = read_be32(b, off);
        let end = off + 12 + len;
        if end > b.len() {
            None
        } else {
            let tag = b.subrange(off + 4, off + 8);
            let data = b.subrange(off + 8, off + 8 + len);
            if read_be32(b, off + 8 + len) == crc32_of(tag + data) as int {
                Some((tag, data, end))
            } else {
                None
            }
        }
    }
}

/// The header data says: `width` x `height` (neither zero), 8 bits per
/// sample, RGBA, the default compression and filter methods, no interlacing.
pub open spec fn header_says(d: Seq<u8>, width: u32, height: u32) -> bool {
    &&& d.len() == 13
    &&& width > 0 && height > 0
    &&& read_be32(d, 0) == width
    &&& read_be32(d, 4) == height
    &&& d[8] == 8u8 && d[9] == 6u8 && d[10] == 0u8 && d[11] == 0u8 && d[12] == 0u8
}

/// The image data is a zlib stream that inflates (its Adler-32 checked) to
/// the filtered rows of the image: for each row, filter byte 0 and then the
/// row's pixels, taken from `rgba`.
pub open spec fn image_data_holds(d: Seq<u8>, rgba: Seq<u8>, width: u32, height: u32) -> bool {
    let row_len = width * 4;
    inflate_zlib_stored(d) matches Some(rows) && rows.len() == height * (row_len + 1) && forall|y: int|
        0 <= y < height ==> #[trigger] rows[y * (row_len + 1)] == 0u8 && rows.subrange(
            y * (row_len + 1) + 1,
            (y + 1) * (row_len + 1),
        ) == rgba.subrange(y * row_len, (y + 1) * row_len)
}

/// `b` is a well-formed PNG of the `width` x `height` RGBA image `rgba`: the
/// signature, then an `IHDR` chunk describing the image, an `IDAT` chunk
/// holding its rows, and an `IEND` chunk ending the file, every chunk with
/// its right CRC-32.
pub open spec fn is_well_formed_png(b: Seq<u8>, rgba: Seq<u8>, width: u32, height: u32) -> bool {
    &&& b.len() >= 8 && b.subrange(0, 8) == png_signature()
    &&& match chunk_at(b, 8) {
        Some((t1, d1, n1)) => t1 == tag_ihdr() && header_says(d1, width, height) && match chunk_at(b, n1) {
            Some((t2, d2, n2)) => t2 == tag_idat() && image_data_holds(d2, rgba, width, height) && match chunk_at(b, n2) {
                Some((t3, d3, n3)) => t3 == tag_iend() && d3.len() == 0 && n3 == b.len(),
                None => false,
            },
            None => false,
        },
        None => false,
    }
}

proof fn lemma_be32_reads_back(x: u32)
    ensures
        be32(x)[0] * 16777216 + be32(x)[1] * 65536 + be32(x)[2] * 256 + be32(x)[3] == x,
{
    assert(((x >> 24u32) & 0xffu32) as u8 as int * 16777216 + ((x >> 16u32) & 0xffu32) as u8 as int * 65536
        + ((x >> 8u32) & 0xffu32) as u8 as int * 256 + (x & 0xffu32) as u8 as int == x as int) by (bit_vector);
}

proof fn lemma_chunk_reads_back(b: Seq<u8>, off: int, tag: Seq<u8>, data: Seq<u8>)
    requires
        0 <= off,
        tag.len() == 4,
        data.len() <= u32::MAX,
        off + 12 + data.len() <= b.len(),
        b.subrange(off, off + 12 + data.len()) == png_chunk(tag, data),
    ensures
        chunk_at(b, off) == Some((tag, data, off + 12 + data.len())),
{
    let len = data.len() as int;
    let w = b.subrange(off, off + 12 + len);
    let c = png_chunk(tag, data);
    let lx: u32 = data.len() as u32;
    let cx: u32 = crc32_of(tag + data);
    lemma_be32_reads_back(lx);
    lemma_be32_reads_back(cx);
    assert(c =~= be32(lx) + tag + data + be32(cx));
    assert(b[off] == c[0] && b[off + 1] == c[1] && b[off + 2] == c[2] && b[off + 3] == c[3]);
    assert(read_be32(b, off) == len);
    assert(b.subrange(off + 4, off + 8) =~= w.subrange(4, 8));
    assert(w.subrange(4, 8) =~= tag);
    assert(b.subrange(off + 8, off + 8 + len) =~= w.subrange(8, 8 + len));
    assert(w.subrange(8, 8 + len) =~= data);
    assert(b[off + 8 + len] == c[8 + len] && b[off + 9 + len] == c[9 + len] && b[off + 10 + len] == c[10 + len]
        && b[off + 11 + len] == c[11 + len]);
    assert(c[8 + len] == be32(cx)[0] && c[9 + len] == be32(cx)[1] && c[10 + len] == be32(cx)[2] && c[11 + len] == be32(cx)[3]);
}

proof fn lemma_header_says(width: u32, height: u32)
    requires
        width > 0,
        height > 0,
    ensures
        header_says(ihdr_data(width, height), width, height),
{
    let d = ihdr_data(width, height);
    lemma_be32_reads_back(width);
    lemma_be32_reads_back(height);
    assert(d =~= be32(width) + be32(height) + seq![8u8, 6u8, 0u8, 0u8, 0u8]);
    assert(d[0] == be32(width)[0] && d[1] == be32(width)[1] && d[2] == be32(width)[2] && d[3] == be32(width)[3]);
    assert(d[4] == be32(height)[0] && d[5] == be32(height)[1] && d[6] == be32(height)[2] && d[7] == be32(height)[3]);
}

/// An encoded PNG (what `encode_png_rgba` returns) is a well-formed PNG of its
/// image, whenever its compressed image data fits a chunk's 32-bit length.
pub proof fn encoded_png_is_well_formed(rgba: Seq<u8>, width: u32, height: u32)
    requires
        width > 0,
        height > 0,
        png_sizes_fit(rgba.len() as int, width, height),
        zlib_stored(scanlines(rgba, width * 4, height as int)).len() <= u32::MAX,
    ensures
        is_well_formed_png(png_file(rgba, width, height), rgba, width, height),
{
    let b = png_file(rgba, width, height);
    let hd = ihdr_data(width, height);
    let z = zlib_stored(scanlines(rgba, width * 4, height as int));
    let c1 = png_chunk(tag_ihdr(), hd);
    let c2 = png_chunk(tag_idat(), z);
    let c3 = png_chunk(tag_iend(), Seq::<u8>::empty());
    assert(hd.len() == 13);
    assert(c1.len() == 25);
    let n1: int = 33;
    let n2: int = 33 + 12 + z.len() as int;
    let n3: int = n2 + 12;
    assert(b =~= png_signature() + c1 + c2 + c3);
    assert(b.len() == n3);
    assert(b.subrange(0, 8) =~= png_signature());
    assert(b.subrange(8, 33) =~= c1);
    lemma_chunk_reads_back(b, 8, tag_ihdr(), hd);
    assert(b.subrange(n1, n2) =~= c2);
    lemma_chunk_reads_back(b, n1, tag_idat(), z);
    assert(b.subrange(n2, n3) =~= c3);
    lemma_chunk_reads_back(b, n2, tag_iend(), Seq::<u8>::empty());
    lemma_header_says(width, height);
    png_image_data_inflates_to_its_rows(rgba, width, height);
    assert(image_data_holds(z, rgba, width, height));
}


/// An explicit choice of private output applies to every role of the
/// private applications: with a preferred physical device, the activation's
/// communications output is its physical output.
pub proof fn preferred_private_output_takes_every_role(
    plan: ActivationPlan,
    devs: Seq<AudioDevice>,
    config: crate::config::AppConfig,
    now: Seq<char>,
)
    requires
        is_activation_plan(plan, devs, config, now),
        config.preferred_physical_device_id is Some,
    ensures
        plan.communications == plan.physical,
{
}

proof fn lemma_items_with_key_members(ss: Seq<AudioSessionInfo>, k: Seq<char>)
    ensures
        forall|x: AudioSessionInfo|
            #[trigger] items_with_key(ss, k).contains(x) <==> exists|i: int|
                0 <= i < ss.len() && ss[i] == x && group_key(ss[i]) == k,
    decreases ss.len(),
{
    if ss.len() > 0 {
        let init = ss.drop_last();
        lemma_items_with_key_members(init, k);
        let it = items_with_key(ss, k);
        let ii = items_with_key(init, k);
        assert forall|x: AudioSessionInfo| #[trigger] it.contains(x) <==> exists|i: int|
            0 <= i < ss.len() && ss[i] == x && group_key(ss[i]) == k by {
            if it.contains(x) {
                let m = choose|m: int| 0 <= m < it.len() && it[m] == x;
                if m < ii.len() {
                    assert(ii[m] == x);
                    assert(ii.contains(x));
                    let i = choose|i: int| 0 <= i < init.len() && init[i] == x && group_key(init[i]) == k;
                    assert(ss[i] == x);
                } else {
                    assert(ss[ss.len() - 1] == x);
                }
            }
            if exists|i: int| 0 <= i < ss.len() && ss[i] == x && group_key(ss[i]) == k {
                let i = choose|i: int| 0 <= i < ss.len() && ss[i] == x && group_key(ss[i]) == k;
                if i < ss.len() - 1 {
                    assert(init[i] == x);
                    assert(ii.contains(x));
                    let m = choose|m: int| 0 <= m < ii.len() && ii[m] == x;
                    assert(it[m] == x);
                } else {
                    assert(it[it.len() - 1] == x);
                }
            }
        }
    }
}

/// The state of a group follows the states of its family's sessions:
/// playing when one of them plays; else idle when one is idle, whatever
/// the others; else recent when one is recent; else unknown.  Returns the
/// family key of group `j`.
pub proof fn group_state_follows_its_sessions(
    ss: Seq<AudioSessionInfo>,
    excluded: Seq<AppIdentity>,
    res: Seq<AppAudioGroup>,
    j: int,
) -> (k: Seq<char>)
    requires
        is_grouping(ss, excluded, res),
        0 <= j < res.len(),
    ensures
        exists|i: int| 0 <= i < ss.len() && group_key(ss[i]) == k,
        (exists|i: int| 0 <= i < ss.len() && group_key(ss[i]) == k && ss[i].state == PlaybackState::Active)
            ==> res[j].state == PlaybackState::Active,
        (forall|i: int| 0 <= i < ss.len() && group_key(ss[i]) == k ==> ss[i].state != PlaybackState::Active) && (exists|i: int|
            0 <= i < ss.len() && group_key(ss[i]) == k && ss[i].state == PlaybackState::Inactive) ==> res[j].state
            == PlaybackState::Inactive,
        (forall|i: int|
            0 <= i < ss.len() && group_key(ss[i]) == k ==> ss[i].state != PlaybackState::Active && ss[i].state
                != PlaybackState::Inactive) && (exists|i: int|
            0 <= i < ss.len() && group_key(ss[i]) == k && ss[i].state == PlaybackState::Expired) ==> res[j].state
            == PlaybackState::Expired,
        (forall|i: int| 0 <= i < ss.len() && group_key(ss[i]) == k ==> ss[i].state == PlaybackState::Unknown)
            ==> res[j].state == PlaybackState::Unknown,
{
    let (ks, perm): (Seq<Seq<char>>, Seq<usize>) = choose|ks: Seq<Seq<char>>, perm: Seq<usize>|
        {
            &&& is_key_list(ss, ks)
            &&& is_stable_order(crate::grouping::group_order_keys(ss, ks, excluded), perm)
            &&& res.len() == ks.len()
            &&& forall|j: int|
                0 <= j < res.len() ==> is_group(
                    #[trigger] res[j],
                    ks[perm[j] as int],
                    items_with_key(ss, ks[perm[j] as int]),
                    excluded,
                )
        };
    let k = ks[perm[j] as int];
    let items = items_with_key(ss, k);
    assert(is_group(res[j], k, items, excluded));
    assert(ks.contains(k));
    lemma_items_with_key_members(ss, k);
    let st = res[j].state;
    assert(st == crate::grouping::group_state(items));
    // A state some session of the family has is a state some item has, and back.
    assert forall|p: PlaybackState|
        (exists|i: int| 0 <= i < ss.len() && group_key(ss[i]) == k && ss[i].state == p) <==> crate::grouping::any_state(
            items,
            p,
        ) by {
        if exists|i: int| 0 <= i < ss.len() && group_key(ss[i]) == k && ss[i].state == p {
            let i = choose|i: int| 0 <= i < ss.len() && group_key(ss[i]) == k && ss[i].state == p;
            assert(items.contains(ss[i]));
            let m = choose|m: int| 0 <= m < items.len() && items[m] == ss[i];
            assert(items[m].state == p);
        }
        if crate::grouping::any_state(items, p) {
            let m = choose|m: int| 0 <= m < items.len() && #[trigger] items[m].state == p;
            assert(items.contains(items[m]));
            let i = choose|i: int| 0 <= i < ss.len() && ss[i] == items[m] && group_key(ss[i]) == k;
            assert(ss[i].state == p);
        }
    }
    if (forall|i: int| 0 <= i < ss.len() && group_key(ss[i]) == k ==> ss[i].state == PlaybackState::Unknown) {
        assert(!(exists|i: int| 0 <= i < ss.len() && group_key(ss[i]) == k && ss[i].state == PlaybackState::Active));
        assert(!(exists|i: int| 0 <= i < ss.len() && group_key(ss[i]) == k && ss[i].state == PlaybackState::Inactive));
        assert(!(exists|i: int| 0 <= i < ss.len() && group_key(ss[i]) == k && ss[i].state == PlaybackState::Expired));
    }
    k
}

/// Excluded applications stay listed: every group of the grouping that is
/// excluded is in the list shown, whatever its state and whether inactive
/// and recent applications are shown.
pub proof fn excluded_groups_are_always_listed(shown: Seq<AppAudioGroup>, gs: Seq<AppAudioGroup>, all: bool)
    requires
        shown == if all {
            gs
        } else {
            visible_groups(gs)
        },
    ensures
        forall|g: AppAudioGroup| gs.contains(g) && g.excluded ==> #[trigger] shown.contains(g),
{
    lemma_visible_groups(gs);
}

/// Sessions that play into a microphone effect chain (a device whose name,
/// lowercased, contains `cable-a`, `cable a`, `cable-b` or `cable b`) are
/// left alone: no route is planned for them, and every planned route is
/// that of a session playing elsewhere.
pub proof fn mic_chain_sessions_are_never_routed(
    r: Seq<RouteAction>,
    list: Seq<AudioSessionInfo>,
    t: RouteTargets,
    procs: Seq<ProcessInfo>,
)
    requires
        is_route_plan(r, list, t, procs),
    ensures
        forall|i: int|
            0 <= i < list.len() && (list[i].device_name matches Some(d) && cable_ab_named(d@)) ==> !routed_positions(
                list,
                procs,
                list.len(),
            ).contains(i),
        forall|j: int|
            0 <= j < r.len() ==> {
                let i = #[trigger] routed_positions(list, procs, list.len())[j];
                &&& 0 <= i < list.len()
                &&& r[j].pid == list[i].pid
                &&& !(list[i].device_name matches Some(d) && cable_ab_named(d@))
            },
{
    let pos = routed_positions(list, procs, list.len());
    lemma_routed_positions(list, procs, list.len());
    assert forall|i: int|
        0 <= i < list.len() && (list[i].device_name matches Some(d) && cable_ab_named(d@)) implies !pos.contains(i) by {
        if pos.contains(i) {
            let j = choose|j: int| 0 <= j < pos.len() && pos[j] == i;
            assert(!route_skipped(list[pos[j]], procs));
        }
    }
    assert forall|j: int| 0 <= j < r.len() implies {
        let i = #[trigger] routed_positions(list, procs, list.len())[j];
        &&& 0 <= i < list.len()
        &&& r[j].pid == list[i].pid
        &&& !(list[i].device_name matches Some(d) && cable_ab_named(d@))
    } by {
        assert(crate::protection::is_route_of(r[j], list[pos[j]], list, t, procs));
        assert(!route_skipped(list[pos[j]], procs));
    }
}

/// A cable setup is found by its name even when it is not one of the known
/// payload names: at a first root that exists, is a folder and holds none of
/// the known names, the first entry whose lowercased file name mentions
/// `vbcable`, `vb-cable` or `audio` and ends in `.exe` or `.zip` is the
/// payload.
pub proof fn cable_packs_are_found_by_their_names(roots: Seq<PayloadRoot>, k: int)
    requires
        roots.len() > 0,
        roots[0].exists,
        !roots[0].is_file,
        forall|n: int| 0 <= n < roots[0].named@.len() ==> !#[trigger] roots[0].named@[n],
        0 <= k < roots[0].entries@.len(),
        forall|e: int|
            0 <= e <= k ==> ({
                let l = lower_file_name(#[trigger] roots[0].entries@[e]@);
                (is_infix("vbcable"@, l) || is_infix("vb-cable"@, l) || is_infix("audio"@, l)) && (has_suffix(
                    l,
                    ".exe"@,
                ) || has_suffix(l, ".zip"@)) <==> e == k
            }),
    ensures
        payload_choice(roots) == Some(roots[0].entries@[k]@),
{
    let root = roots[0];
    let np = named_pred(root);
    assert forall|n: int| 0 <= n < 12 implies !#[trigger] np(n) by {
        if n < root.named@.len() {
            assert(!root.named@[n]);
        }
    }
    lemma_first_where_none(12, np);
    let ep = entry_pred(root);
    assert forall|e: int| 0 <= e < k implies !#[trigger] ep(e) by {
        let l = lower_file_name(root.entries@[e]@);
        assert(e != k);
    }
    let l = lower_file_name(root.entries@[k]@);
    assert(ep(k));
    lemma_first_where_at(root.entries@.len(), ep, k);
    assert(root_payload(root) == Some(root.entries@[k]@));
    lemma_first_where_at(roots.len(), root_found_pred(roots), 0);
}

} // verus!
