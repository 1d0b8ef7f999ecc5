//! What a configuration would change, told before it is applied.

use crate::admin_audit::SnapshotMetadata;
use crate::compile_runtime::CompiledServeListener;
use crate::listener_lifecycle::CurrentListenerIdentity;
use crate::named_map::{name_order, ordered_names, NamedMap};
use crate::reload_plan::ApplyMode;
use crate::supervisor::{
    blocked_names, collect_blocked_listener_replacements, collect_supported_listener_replacements,
    planned_starts, supported_names,
};
use crate::switch_over::reload_is_refused_where_blocked;
use crate::text::{join, joined, text, texts};
use vstd::prelude::*;
use vstd::string::*;

verus! {

/// A resource that differs between two snapshots.
#[derive(Debug)]
pub struct SnapshotResourceChange {
    pub name: String,
    /// How it differs, in one word.
    pub kind: String,
}

/// How a candidate snapshot differs from the active one.
#[derive(Debug)]
pub struct SnapshotDiff {
    pub listener_changes: Vec<SnapshotResourceChange>,
    pub route_changes: Vec<SnapshotResourceChange>,
    pub upstream_cluster_changes: Vec<SnapshotResourceChange>,
    pub security_changed: bool,
}

/// Something to look at before a configuration is applied.
#[derive(Debug)]
pub struct ConfigSafetyWarning {
    pub code: String,
    pub message: String,
}

impl DeepView for ConfigSafetyWarning {
    type V = (Seq<char>, Seq<char>);

    open spec fn deep_view(&self) -> (Seq<char>, Seq<char>) {
        (self.code@, self.message@)
    }
}

/// How a configuration would be applied.
#[derive(Debug)]
pub struct ConfigApplyPreview {
    pub strategy: String,
    pub rollback_safe: bool,
    pub summary: String,
}

/// Which versions a configuration change is between.
#[derive(Debug)]
pub struct ConfigCompatibilityPreview {
    pub active_api_version: Option<String>,
    pub candidate_api_version: Option<String>,
    pub snapshot_format_version: String,
    pub migration_strategy: String,
}

/// What a configuration would change, but for the snapshots themselves.
#[derive(Debug)]
pub struct ConfigValidationPreview {
    pub config_path: String,
    pub warnings: Vec<ConfigSafetyWarning>,
    pub apply_preview: ConfigApplyPreview,
    pub compatibility: ConfigCompatibilityPreview,
}

/// Each change as its name, a colon and its kind.
pub open spec fn change_words(changes: Seq<SnapshotResourceChange>) -> Seq<Seq<char>> {
    changes.map_values(|change: SnapshotResourceChange| change.name@ + ":"@ + change.kind@)
}

/// Changes in one line.
pub open spec fn change_summary(changes: Seq<SnapshotResourceChange>) -> Seq<char> {
    joined(change_words(changes), ", "@)
}

/// Changes in one line.
pub fn summarize_snapshot_changes(changes: &Vec<SnapshotResourceChange>) -> (r: String)
    ensures
        r@ == change_summary(changes@),
{
    let mut items: Vec<String> = Vec::new();
    let mut i: usize = 0;
    while i < changes.len()
        invariant
            i <= changes@.len(),
            items@.len() == i,
            forall|j: int|
                0 <= j < i ==> (#[trigger] items@[j])@ == changes@[j].name@ + ":"@
                    + changes@[j].kind@,
        decreases changes@.len() - i,
    {
        let mut item = changes[i].name.clone();
        item.append(":");
        item.append(changes[i].kind.as_str());
        items.push(item);
        i = i + 1;
    }
    proof {
        assert(texts(items@) =~= change_words(changes@));
    }
    join(&items, ", ")
}

/// A warning about changed resources, where there are any.
pub open spec fn change_warning(
    changes: Seq<SnapshotResourceChange>,
    code: Seq<char>,
    lead: Seq<char>,
) -> Seq<(Seq<char>, Seq<char>)> {
    if changes.len() > 0 {
        seq![(code, lead + change_summary(changes))]
    } else {
        Seq::empty()
    }
}

/// The warnings about how a snapshot differs from the active one.
pub open spec fn diff_warnings(diff: Option<SnapshotDiff>) -> Seq<(Seq<char>, Seq<char>)> {
    match diff {
        Some(diff) => {
            change_warning(
                diff.listener_changes@,
                "listener_topology_changed"@,
                "listener changes detected: "@,
            ) + change_warning(
                diff.route_changes@,
                "route_table_changed"@,
                "route matching changes detected: "@,
            ) + change_warning(
                diff.upstream_cluster_changes@,
                "upstream_clusters_changed"@,
                "upstream topology changes detected: "@,
            ) + (if diff.security_changed {
                seq![
                    (
                        "security_posture_changed"@,
                        "workspace security settings changed; review trusted proxy, anonymous-source, and artifact verification posture before apply"@,
                    ),
                ]
            } else {
                Seq::empty()
            })
        },
        None => seq![
            (
                "bootstrap_apply"@,
                "no active snapshot is loaded yet; this validation is for the first apply and has no prior diff baseline"@,
            ),
        ],
    }
}

/// The warning about a listener that is replaced while it drains.
pub open spec fn replacement_warning(name: Seq<char>) -> (Seq<char>, Seq<char>) {
    (
        "listener_replacement_planned"@,
        "listener "@ + name
            + " changes bind or protocol semantics and will be staged through replacement plus drain instead of an in-place swap"@,
    )
}

/// The warning about a listener that blocks the change.
pub open spec fn rebind_warning(name: Seq<char>) -> (Seq<char>, Seq<char>) {
    (
        "listener_rebind_required"@,
        "listener "@ + name
            + " cannot be staged safely on a new socket before retiring the current live listener, so reload will still be rejected"@,
    )
}

/// All warnings about a configuration.
pub open spec fn safety_warnings(
    diff: Option<SnapshotDiff>,
    current: Map<Seq<char>, CurrentListenerIdentity>,
    candidates: Map<Seq<char>, CompiledServeListener>,
) -> Seq<(Seq<char>, Seq<char>)> {
    diff_warnings(diff) + supported_names(current, candidates).map_values(
        |name: Seq<char>| replacement_warning(name),
    ) + blocked_names(current, candidates).map_values(|name: Seq<char>| rebind_warning(name))
}

fn push_warning(warnings: &mut Vec<ConfigSafetyWarning>, code: &str, message: String)
    ensures
        final(warnings).deep_view() == old(warnings).deep_view().push((code@, message@)),
{
    let ghost before = warnings.deep_view();
    let warning = ConfigSafetyWarning { code: text(code), message };
    warnings.push(warning);
    proof {
        assert(warnings.deep_view() =~= before.push(warning.deep_view()));
    }
}

fn push_change_warning(
    warnings: &mut Vec<ConfigSafetyWarning>,
    changes: &Vec<SnapshotResourceChange>,
    code: &str,
    lead: &str,
)
    ensures
        final(warnings).deep_view() == old(warnings).deep_view() + change_warning(
            changes@,
            code@,
            lead@,
        ),
{
    let ghost before = warnings.deep_view();
    if changes.len() > 0 {
        let mut message = text(lead);
        let summary = summarize_snapshot_changes(changes);
        message.append(summary.as_str());
        push_warning(warnings, code, message);
    }
    proof {
        assert(warnings.deep_view() =~= before + change_warning(changes@, code@, lead@));
    }
}

fn push_diff_warnings(warnings: &mut Vec<ConfigSafetyWarning>, diff: &Option<SnapshotDiff>)
    ensures
        final(warnings).deep_view() == old(warnings).deep_view() + diff_warnings(*diff),
{
    let ghost before = warnings.deep_view();
    match diff {
        Some(diff) => {
            push_change_warning(
                warnings,
                &diff.listener_changes,
                "listener_topology_changed",
                "listener changes detected: ",
            );
            push_change_warning(
                warnings,
                &diff.route_changes,
                "route_table_changed",
                "route matching changes detected: ",
            );
            push_change_warning(
                warnings,
                &diff.upstream_cluster_changes,
                "upstream_clusters_changed",
                "upstream topology changes detected: ",
            );
            if diff.security_changed {
                push_warning(
                    warnings,
                    "security_posture_changed",
                    text(
                        "workspace security settings changed; review trusted proxy, anonymous-source, and artifact verification posture before apply",
                    ),
                );
            }
        },
        None => {
            push_warning(
                warnings,
                "bootstrap_apply",
                text(
                    "no active snapshot is loaded yet; this validation is for the first apply and has no prior diff baseline",
                ),
            );
        },
    }
    proof {
        assert(warnings.deep_view() =~= before + diff_warnings(*diff));
    }
}

/// All warnings about a configuration.
pub fn build_config_safety_warnings(
    diff: &Option<SnapshotDiff>,
    current_identities: &NamedMap<CurrentListenerIdentity>,
    candidate_listeners: &NamedMap<CompiledServeListener>,
) -> (r: Vec<ConfigSafetyWarning>)
    ensures
        r.deep_view() == safety_warnings(*diff, current_identities@, candidate_listeners@),
{
    let mut warnings: Vec<ConfigSafetyWarning> = Vec::new();
    push_diff_warnings(&mut warnings, diff);
    let ghost first = diff_warnings(*diff);
    proof {
        assert(warnings.deep_view() =~= first);
    }
    let supported = collect_supported_listener_replacements(
        current_identities,
        candidate_listeners,
    );
    let ghost planned = texts(supported@).map_values(|name: Seq<char>| replacement_warning(name));
    let mut i: usize = 0;
    proof {
        assert(warnings.deep_view() =~= first + planned.take(0));
    }
    while i < supported.len()
        invariant
            i <= supported@.len(),
            planned == texts(supported@).map_values(|name: Seq<char>| replacement_warning(name)),
            warnings.deep_view() == first + planned.take(i as int),
        decreases supported@.len() - i,
    {
        let mut message = text("listener ");
        message.append(supported[i].as_str());
        message.append(
            " changes bind or protocol semantics and will be staged through replacement plus drain instead of an in-place swap",
        );
        push_warning(&mut warnings, "listener_replacement_planned", message);
        i = i + 1;
        proof {
            assert(planned.take(i as int) =~= planned.take(i - 1).push(planned[i - 1]));
            assert(warnings.deep_view() =~= first + planned.take(i as int));
        }
    }
    let blocked = collect_blocked_listener_replacements(current_identities, candidate_listeners);
    let ghost second = first + planned;
    let ghost rebinds = texts(blocked@).map_values(|name: Seq<char>| rebind_warning(name));
    let mut j: usize = 0;
    proof {
        assert(planned.take(planned.len() as int) =~= planned);
        assert(warnings.deep_view() =~= second + rebinds.take(0));
    }
    while j < blocked.len()
        invariant
            j <= blocked@.len(),
            rebinds == texts(blocked@).map_values(|name: Seq<char>| rebind_warning(name)),
            warnings.deep_view() == second + rebinds.take(j as int),
        decreases blocked@.len() - j,
    {
        let mut message = text("listener ");
        message.append(blocked[j].as_str());
        message.append(
            " cannot be staged safely on a new socket before retiring the current live listener, so reload will still be rejected",
        );
        push_warning(&mut warnings, "listener_rebind_required", message);
        j = j + 1;
        proof {
            assert(rebinds.take(j as int) =~= rebinds.take(j - 1).push(rebinds[j - 1]));
            assert(warnings.deep_view() =~= second + rebinds.take(j as int));
        }
    }
    proof {
        assert(rebinds.take(rebinds.len() as int) =~= rebinds);
    }
    warnings
}

/// How a configuration would be applied, and what is said of it.
pub open spec fn apply_strategy(
    supported: Seq<Seq<char>>,
    blocked: Seq<Seq<char>>,
) -> (Seq<char>, Seq<char>) {
    if blocked.len() > 0 {
        (
            "blocked_requires_rebind"@,
            "reload would still be blocked because these listeners cannot be overlap-replaced on their current live socket: "@
                + joined(blocked, ", "@),
        )
    } else if supported.len() > 0 {
        (
            "overlap_and_drain_replacement"@,
            "replacement listeners can be started before retirement for: "@ + joined(
                supported,
                ", "@,
            ) + "; failed replacement startup leaves the active runtime unchanged"@,
        )
    } else {
        (
            "in_place_or_additive_swap"@,
            "candidate config compiles before apply; new listeners are started before old listeners retire, and failed reloads leave the active runtime unchanged"@,
        )
    }
}

fn preview_apply(supported: &Vec<String>, blocked: &Vec<String>) -> (r: ConfigApplyPreview)
    ensures
        (r.strategy@, r.summary@) == apply_strategy(texts(supported@), texts(blocked@)),
        r.rollback_safe,
{
    if blocked.len() > 0 {
        let mut summary = text(
            "reload would still be blocked because these listeners cannot be overlap-replaced on their current live socket: ",
        );
        let names = join(blocked, ", ");
        summary.append(names.as_str());
        ConfigApplyPreview {
            strategy: text("blocked_requires_rebind"),
            rollback_safe: true,
            summary,
        }
    } else if supported.len() > 0 {
        let mut summary = text("replacement listeners can be started before retirement for: ");
        let names = join(supported, ", ");
        summary.append(names.as_str());
        summary.append("; failed replacement startup leaves the active runtime unchanged");
        ConfigApplyPreview {
            strategy: text("overlap_and_drain_replacement"),
            rollback_safe: true,
            summary,
        }
    } else {
        ConfigApplyPreview {
            strategy: text("in_place_or_additive_swap"),
            rollback_safe: true,
            summary: text(
                "candidate config compiles before apply; new listeners are started before old listeners retire, and failed reloads leave the active runtime unchanged",
            ),
        }
    }
}

impl ConfigValidationPreview {
    /// Whether this tells what a configuration would change.
    pub open spec fn previews(
        self,
        config_path: Seq<char>,
        diff: Option<SnapshotDiff>,
        active: Option<SnapshotMetadata>,
        candidate: SnapshotMetadata,
        current: Map<Seq<char>, CurrentListenerIdentity>,
        candidates: Map<Seq<char>, CompiledServeListener>,
    ) -> bool {
        &&& self.config_path@ == config_path
        &&& self.warnings.deep_view() == safety_warnings(diff, current, candidates)
        &&& (self.apply_preview.strategy@, self.apply_preview.summary@) == apply_strategy(
            supported_names(current, candidates),
            blocked_names(current, candidates),
        )
        &&& self.apply_preview.rollback_safe
        &&& self.compatibility.active_api_version == (match active {
            Some(metadata) => metadata.api_version,
            None => None,
        })
        &&& self.compatibility.candidate_api_version == candidate.api_version
        &&& self.compatibility.snapshot_format_version == candidate.format_version
        &&& self.compatibility.migration_strategy@
            == "candidate configs must compile to the current snapshot format and supported api_version before apply; unsupported version jumps fail during validation and the active snapshot remains available for rollback"@
    }
}

fn copy_optional(value: &Option<String>) -> (r: Option<String>)
    ensures
        r == *value,
{
    match value {
        Some(s) => Some(s.clone()),
        None => None,
    }
}

/// Tells what a configuration would change.
pub fn build_config_validation_preview(
    config_path: &str,
    diff: &Option<SnapshotDiff>,
    active: &Option<SnapshotMetadata>,
    candidate: &SnapshotMetadata,
    current_identities: &NamedMap<CurrentListenerIdentity>,
    candidate_listeners: &NamedMap<CompiledServeListener>,
) -> (r: ConfigValidationPreview)
    ensures
        r.previews(
            config_path@,
            *diff,
            *active,
            *candidate,
            current_identities@,
            candidate_listeners@,
        ),
{
    let warnings = build_config_safety_warnings(diff, current_identities, candidate_listeners);
    let blocked = collect_blocked_listener_replacements(current_identities, candidate_listeners);
    let supported = collect_supported_listener_replacements(
        current_identities,
        candidate_listeners,
    );
    let active_api_version = match active {
        Some(metadata) => copy_optional(&metadata.api_version),
        None => None,
    };
    ConfigValidationPreview {
        config_path: text(config_path),
        warnings,
        apply_preview: preview_apply(&supported, &blocked),
        compatibility: ConfigCompatibilityPreview {
            active_api_version,
            candidate_api_version: copy_optional(&candidate.api_version),
            snapshot_format_version: candidate.format_version.clone(),
            migration_strategy: text(
                "candidate configs must compile to the current snapshot format and supported api_version before apply; unsupported version jumps fail during validation and the active snapshot remains available for rollback",
            ),
        },
    }
}

/// A preview says that the change is blocked if and only if the reload would be refused before
/// anything is started.
pub proof fn previews_foretell_refusals(
    current: Map<Seq<char>, CurrentListenerIdentity>,
    candidates: Map<Seq<char>, CompiledServeListener>,
)
    requires
        ordered_names(candidates, name_order(candidates)),
    ensures
        apply_strategy(supported_names(current, candidates), blocked_names(current, candidates)).0
            == "blocked_requires_rebind"@ <==> planned_starts(
            ApplyMode::Reload,
            current,
            candidates,
        ) is Err,
{
    reload_is_refused_where_blocked(current, candidates);
    reveal_strlit("blocked_requires_rebind");
    reveal_strlit("overlap_and_drain_replacement");
    reveal_strlit("in_place_or_additive_swap");
    assert("blocked_requires_rebind"@.len() != "overlap_and_drain_replacement"@.len());
    assert("blocked_requires_rebind"@.len() != "in_place_or_additive_swap"@.len());
}

} // verus!
