//! How a compiled configuration takes the place of the one that is served: which listeners are
//! started, updated, replaced and retired, and how their draining is counted.

use crate::addr::SocketAddress;
use crate::compile_runtime::{CompiledServeListener, ListenerService};
use crate::config::ListenerClassConfig;
use crate::error::ServeError;
use crate::listener_lifecycle::CurrentListenerIdentity;
use crate::named_map::{name_order, NamedMap};
use crate::reload_plan::{ApplyMode, ReloadAuditPlan};
use crate::text::{text, texts};
use vstd::prelude::*;
use vstd::string::*;

verus! {

/// How many events of the administration interface are kept where no listener says so.
pub const ADMIN_AUDIT_DEFAULT_CAPACITY: usize = 64;

/// Whether a running listener has to be replaced and its replacement can be opened beside it.
pub open spec fn supported(
    current: Map<Seq<char>, CurrentListenerIdentity>,
    candidates: Map<Seq<char>, CompiledServeListener>,
    name: Seq<char>,
) -> bool {
    &&& current.contains_key(name) && candidates.contains_key(name)
    &&& !current[name].matches(candidates[name])
    &&& current[name].can_stage(candidates[name])
}

/// Whether a running listener has to be replaced and its replacement cannot be opened beside it.
pub open spec fn blocked(
    current: Map<Seq<char>, CurrentListenerIdentity>,
    candidates: Map<Seq<char>, CompiledServeListener>,
    name: Seq<char>,
) -> bool {
    &&& current.contains_key(name) && candidates.contains_key(name)
    &&& !current[name].matches(candidates[name])
    &&& !current[name].can_stage(candidates[name])
}

/// Whether a running public listener can be restarted beside itself.
pub open spec fn restart_supported(
    current: Map<Seq<char>, CurrentListenerIdentity>,
    candidates: Map<Seq<char>, CompiledServeListener>,
    name: Seq<char>,
) -> bool {
    &&& current.contains_key(name) && candidates.contains_key(name)
    &&& current[name].class is Public
    &&& current[name].can_stage(candidates[name])
}

/// Whether a running public listener cannot be restarted beside itself.
pub open spec fn restart_blocked(
    current: Map<Seq<char>, CurrentListenerIdentity>,
    candidates: Map<Seq<char>, CompiledServeListener>,
    name: Seq<char>,
) -> bool {
    &&& current.contains_key(name) && candidates.contains_key(name)
    &&& current[name].class is Public
    &&& !current[name].can_stage(candidates[name])
}

/// The names among the first `n` for which something holds, in their order.
pub open spec fn selected(
    names: Seq<Seq<char>>,
    chosen: spec_fn(Seq<char>) -> bool,
    n: nat,
) -> Seq<Seq<char>>
    decreases n,
{
    if n == 0 {
        Seq::empty()
    } else {
        let before = selected(names, chosen, (n - 1) as nat);
        if chosen(names[n - 1]) {
            before.push(names[n - 1])
        } else {
            before
        }
    }
}

/// The candidate listeners for which something holds, in the order of their names.
pub open spec fn chosen_names(
    candidates: Map<Seq<char>, CompiledServeListener>,
    chosen: spec_fn(Seq<char>) -> bool,
) -> Seq<Seq<char>> {
    selected(name_order(candidates), chosen, name_order(candidates).len())
}

/// The running listeners that are replaced while they drain.
pub open spec fn supported_names(
    current: Map<Seq<char>, CurrentListenerIdentity>,
    candidates: Map<Seq<char>, CompiledServeListener>,
) -> Seq<Seq<char>> {
    chosen_names(candidates, |name: Seq<char>| supported(current, candidates, name))
}

/// The running listeners whose replacement has to wait for their end.
pub open spec fn blocked_names(
    current: Map<Seq<char>, CurrentListenerIdentity>,
    candidates: Map<Seq<char>, CompiledServeListener>,
) -> Seq<Seq<char>> {
    chosen_names(candidates, |name: Seq<char>| blocked(current, candidates, name))
}

/// The public listeners that a warm restart replaces.
pub open spec fn restart_supported_names(
    current: Map<Seq<char>, CurrentListenerIdentity>,
    candidates: Map<Seq<char>, CompiledServeListener>,
) -> Seq<Seq<char>> {
    chosen_names(candidates, |name: Seq<char>| restart_supported(current, candidates, name))
}

/// The public listeners that a warm restart cannot replace.
pub open spec fn restart_blocked_names(
    current: Map<Seq<char>, CurrentListenerIdentity>,
    candidates: Map<Seq<char>, CompiledServeListener>,
) -> Seq<Seq<char>> {
    chosen_names(candidates, |name: Seq<char>| restart_blocked(current, candidates, name))
}

/// The running listeners that are replaced while they drain.
pub fn collect_supported_listener_replacements(
    current_identities: &NamedMap<CurrentListenerIdentity>,
    candidate_listeners: &NamedMap<CompiledServeListener>,
) -> (r: Vec<String>)
    ensures
        texts(r@) == supported_names(current_identities@, candidate_listeners@),
{
    let ghost chosen = |name: Seq<char>|
        supported(current_identities@, candidate_listeners@, name);
    let ghost names = candidate_listeners.names();
    let mut out: Vec<String> = Vec::new();
    let total: usize = candidate_listeners.len();
    let mut i: usize = 0;
    proof {
        assert(texts(out@) =~= selected(names, chosen, 0));
    }
    while i < total
        invariant
            total == names.len(),
            names == candidate_listeners.names(),
            i <= total,
            chosen == (|name: Seq<char>|
                supported(current_identities@, candidate_listeners@, name)),
            texts(out@) == selected(names, chosen, i as nat),
        decreases total - i,
    {
        let name = candidate_listeners.name_at(i);
        let spec = candidate_listeners.value_at(i);
        match current_identities.get(name.as_str()) {
            Some(current) => {
                if current.needs_replacement(spec) && current.can_stage_replacement(spec) {
                    let ghost before = out@;
                    out.push(name.clone());
                    proof {
                        assert(texts(out@) =~= texts(before).push(name@));
                    }
                }
            },
            None => {},
        }
        i = i + 1;
    }
    out
}

/// The running listeners whose replacement has to wait for their end.
pub fn collect_blocked_listener_replacements(
    current_identities: &NamedMap<CurrentListenerIdentity>,
    candidate_listeners: &NamedMap<CompiledServeListener>,
) -> (r: Vec<String>)
    ensures
        texts(r@) == blocked_names(current_identities@, candidate_listeners@),
{
    let ghost chosen = |name: Seq<char>| blocked(current_identities@, candidate_listeners@, name);
    let ghost names = candidate_listeners.names();
    let mut out: Vec<String> = Vec::new();
    let total: usize = candidate_listeners.len();
    let mut i: usize = 0;
    proof {
        assert(texts(out@) =~= selected(names, chosen, 0));
    }
    while i < total
        invariant
            total == names.len(),
            names == candidate_listeners.names(),
            i <= total,
            chosen == (|name: Seq<char>| blocked(current_identities@, candidate_listeners@, name)),
            texts(out@) == selected(names, chosen, i as nat),
        decreases total - i,
    {
        let name = candidate_listeners.name_at(i);
        let spec = candidate_listeners.value_at(i);
        match current_identities.get(name.as_str()) {
            Some(current) => {
                if current.needs_replacement(spec) && !current.can_stage_replacement(spec) {
                    let ghost before = out@;
                    out.push(name.clone());
                    proof {
                        assert(texts(out@) =~= texts(before).push(name@));
                    }
                }
            },
            None => {},
        }
        i = i + 1;
    }
    out
}

/// The public listeners that a warm restart replaces, and those that it cannot.
pub fn collect_restart_replacements(
    current_identities: &NamedMap<CurrentListenerIdentity>,
    candidate_listeners: &NamedMap<CompiledServeListener>,
) -> (r: (Vec<String>, Vec<String>))
    ensures
        texts(r.0@) == restart_supported_names(current_identities@, candidate_listeners@),
        texts(r.1@) == restart_blocked_names(current_identities@, candidate_listeners@),
{
    let ghost can = |name: Seq<char>|
        restart_supported(current_identities@, candidate_listeners@, name);
    let ghost cannot = |name: Seq<char>|
        restart_blocked(current_identities@, candidate_listeners@, name);
    let ghost names = candidate_listeners.names();
    let mut supported: Vec<String> = Vec::new();
    let mut blocked: Vec<String> = Vec::new();
    let total: usize = candidate_listeners.len();
    let mut i: usize = 0;
    proof {
        assert(texts(supported@) =~= selected(names, can, 0));
        assert(texts(blocked@) =~= selected(names, cannot, 0));
    }
    while i < total
        invariant
            total == names.len(),
            names == candidate_listeners.names(),
            i <= total,
            can == (|name: Seq<char>|
                restart_supported(current_identities@, candidate_listeners@, name)),
            cannot == (|name: Seq<char>|
                restart_blocked(current_identities@, candidate_listeners@, name)),
            texts(supported@) == selected(names, can, i as nat),
            texts(blocked@) == selected(names, cannot, i as nat),
        decreases total - i,
    {
        let name = candidate_listeners.name_at(i);
        let spec = candidate_listeners.value_at(i);
        match current_identities.get(name.as_str()) {
            Some(current) => {
                let public = match current.class {
                    ListenerClassConfig::Public => true,
                    ListenerClassConfig::Admin => false,
                };
                if public {
                    if current.can_stage_replacement(spec) {
                        let ghost before = supported@;
                        supported.push(name.clone());
                        proof {
                            assert(texts(supported@) =~= texts(before).push(name@));
                        }
                    } else {
                        let ghost before = blocked@;
                        blocked.push(name.clone());
                        proof {
                            assert(texts(blocked@) =~= texts(before).push(name@));
                        }
                    }
                }
            },
            None => {},
        }
        i = i + 1;
    }
    (supported, blocked)
}

/// A drain timeout in milliseconds, as far as it can be counted.
pub open spec fn counted_ms(drain_timeout_ms: u128) -> u64 {
    if drain_timeout_ms > u64::MAX {
        u64::MAX
    } else {
        drain_timeout_ms as u64
    }
}

/// The longest drain timeout among the first `n` of the named listeners that are there.
pub open spec fn longest_drain(
    candidates: Map<Seq<char>, CompiledServeListener>,
    names: Seq<Seq<char>>,
    n: nat,
) -> Option<u64>
    decreases n,
{
    if n == 0 {
        None
    } else {
        let before = longest_drain(candidates, names, (n - 1) as nat);
        if candidates.contains_key(names[n - 1]) {
            let ms = counted_ms(candidates[names[n - 1]].drain_timeout_ms);
            match before {
                Some(longest) => Some(
                    if ms >= longest {
                        ms
                    } else {
                        longest
                    },
                ),
                None => Some(ms),
            }
        } else {
            before
        }
    }
}

fn find_longest_drain(candidates: &NamedMap<CompiledServeListener>, names: &Vec<String>) -> (r:
    Option<u64>)
    ensures
        r == longest_drain(candidates@, texts(names@), names@.len()),
{
    let ghost all = texts(names@);
    let mut longest: Option<u64> = None;
    let mut i: usize = 0;
    while i < names.len()
        invariant
            i <= names@.len(),
            all == texts(names@),
            longest == longest_drain(candidates@, all, i as nat),
        decreases names@.len() - i,
    {
        proof {
            assert(all[i as int] == names@[i as int]@);
        }
        match candidates.get(names[i].as_str()) {
            Some(listener) => {
                let ms: u64 = if listener.drain_timeout_ms > u64::MAX as u128 {
                    u64::MAX
                } else {
                    listener.drain_timeout_ms as u64
                };
                longest = match longest {
                    Some(before) => Some(
                        if ms >= before {
                            ms
                        } else {
                            before
                        },
                    ),
                    None => Some(ms),
                };
            },
            None => {},
        }
        i = i + 1;
    }
    longest
}

impl ReloadAuditPlan {
    /// What a reload would replace.
    pub fn from_candidate(
        current_identities: &NamedMap<CurrentListenerIdentity>,
        candidate_listeners: &NamedMap<CompiledServeListener>,
    ) -> (r: Self)
        ensures
            texts(r.supported_replacements@) == supported_names(
                current_identities@,
                candidate_listeners@,
            ),
            texts(r.blocked_replacements@) == blocked_names(
                current_identities@,
                candidate_listeners@,
            ),
            r.expected_completion_within_ms == longest_drain(
                candidate_listeners@,
                texts(r.supported_replacements@),
                r.supported_replacements@.len(),
            ),
    {
        let supported_replacements = collect_supported_listener_replacements(
            current_identities,
            candidate_listeners,
        );
        let blocked_replacements = collect_blocked_listener_replacements(
            current_identities,
            candidate_listeners,
        );
        let expected_completion_within_ms = find_longest_drain(
            candidate_listeners,
            &supported_replacements,
        );
        ReloadAuditPlan {
            supported_replacements,
            blocked_replacements,
            expected_completion_within_ms,
        }
    }

    /// What a warm restart would replace.
    pub fn from_restart_candidate(
        current_identities: &NamedMap<CurrentListenerIdentity>,
        candidate_listeners: &NamedMap<CompiledServeListener>,
    ) -> (r: Self)
        ensures
            texts(r.supported_replacements@) == restart_supported_names(
                current_identities@,
                candidate_listeners@,
            ),
            texts(r.blocked_replacements@) == restart_blocked_names(
                current_identities@,
                candidate_listeners@,
            ),
            r.expected_completion_within_ms == longest_drain(
                candidate_listeners@,
                texts(r.supported_replacements@),
                r.supported_replacements@.len(),
            ),
    {
        let (supported_replacements, blocked_replacements) = collect_restart_replacements(
            current_identities,
            candidate_listeners,
        );
        let expected_completion_within_ms = find_longest_drain(
            candidate_listeners,
            &supported_replacements,
        );
        ReloadAuditPlan {
            supported_replacements,
            blocked_replacements,
            expected_completion_within_ms,
        }
    }
}

impl ApplyMode {
    /// Whether a running listener is replaced even where nothing changed: public ones are by a
    /// warm restart.
    pub open spec fn forces(self, current: CurrentListenerIdentity) -> bool {
        self is WarmRestart && current.class is Public
    }

    /// Whether a running listener is replaced even where nothing changed.
    pub fn force_replace_listener(self, current: &CurrentListenerIdentity) -> (r: bool)
        ensures
            r == self.forces(*current),
    {
        let public = match current.class {
            ListenerClassConfig::Public => true,
            ListenerClassConfig::Admin => false,
        };
        self.force_replace_matching() && public
    }
}

/// What happens to a listener of a candidate configuration.
#[derive(Debug, Clone, Copy, PartialEq, Eq, Structural)]
pub enum StartDecision {
    /// A new socket is opened for it.
    Start,
    /// It goes on with the running socket.
    Keep,
    /// It would have to be restarted, and cannot be beside itself.
    RestartBlocked,
    /// It would have to be replaced, and cannot be beside the running socket.
    ReloadBlocked,
}

/// What happens to a candidate listener, given the running listener of its name.
pub open spec fn start_decision(
    mode: ApplyMode,
    current: Option<CurrentListenerIdentity>,
    spec: CompiledServeListener,
) -> StartDecision {
    match current {
        None => StartDecision::Start,
        Some(current) => if mode.forces(current) {
            if current.can_stage(spec) {
                StartDecision::Start
            } else {
                StartDecision::RestartBlocked
            }
        } else if current.matches(spec) {
            StartDecision::Keep
        } else if current.can_stage(spec) {
            StartDecision::Start
        } else {
            StartDecision::ReloadBlocked
        },
    }
}

fn decide_start(
    mode: ApplyMode,
    current: Option<&CurrentListenerIdentity>,
    spec: &CompiledServeListener,
) -> (r: StartDecision)
    ensures
        r == start_decision(
            mode,
            match current {
                Some(c) => Some(*c),
                None => None,
            },
            *spec,
        ),
{
    match current {
        None => StartDecision::Start,
        Some(current) => {
            if mode.force_replace_listener(current) {
                if current.can_stage_replacement(spec) {
                    StartDecision::Start
                } else {
                    StartDecision::RestartBlocked
                }
            } else if current.matches_spec(spec) {
                StartDecision::Keep
            } else if current.can_stage_replacement(spec) {
                StartDecision::Start
            } else {
                StartDecision::ReloadBlocked
            }
        },
    }
}

/// The running listener of a name.
pub open spec fn running(
    current: Map<Seq<char>, CurrentListenerIdentity>,
    name: Seq<char>,
) -> Option<CurrentListenerIdentity> {
    if current.contains_key(name) {
        Some(current[name])
    } else {
        None
    }
}

/// The decision on a candidate listener.
pub open spec fn decision_on(
    mode: ApplyMode,
    current: Map<Seq<char>, CurrentListenerIdentity>,
    candidates: Map<Seq<char>, CompiledServeListener>,
    name: Seq<char>,
) -> StartDecision {
    start_decision(mode, running(current, name), candidates[name])
}

/// The failure of a change that would need downtime.
pub open spec fn blocked_message(
    decision: StartDecision,
    name: Seq<char>,
    local_addr: SocketAddress,
) -> Seq<char> {
    if decision is RestartBlocked {
        "warm restart cannot stage replacement for listener "@ + name + " on "@
            + local_addr.written()
    } else {
        "reload would require retiring active listener "@ + name + " on "@ + local_addr.written()
            + " before replacement can start; zero-downtime replacement is not available for this change"@
    }
}

/// Which of the first `n` candidate listeners are started, in the order of their names. The first
/// one that is blocked makes the whole change fail.
pub open spec fn start_list(
    mode: ApplyMode,
    current: Map<Seq<char>, CurrentListenerIdentity>,
    candidates: Map<Seq<char>, CompiledServeListener>,
    order: Seq<Seq<char>>,
    n: nat,
) -> Result<Seq<Seq<char>>, Seq<char>>
    decreases n,
{
    if n == 0 {
        Ok(Seq::empty())
    } else {
        match start_list(mode, current, candidates, order, (n - 1) as nat) {
            Err(e) => Err(e),
            Ok(before) => {
                let name = order[n - 1];
                match decision_on(mode, current, candidates, name) {
                    StartDecision::Start => Ok(before.push(name)),
                    StartDecision::Keep => Ok(before),
                    decision => Err(blocked_message(decision, name, current[name].local_addr)),
                }
            },
        }
    }
}

/// Which candidate listeners are started, or why the change fails.
pub open spec fn planned_starts(
    mode: ApplyMode,
    current: Map<Seq<char>, CurrentListenerIdentity>,
    candidates: Map<Seq<char>, CompiledServeListener>,
) -> Result<Seq<Seq<char>>, Seq<char>> {
    start_list(mode, current, candidates, name_order(candidates), name_order(candidates).len())
}

proof fn lemma_start_list_fails_early(
    mode: ApplyMode,
    current: Map<Seq<char>, CurrentListenerIdentity>,
    candidates: Map<Seq<char>, CompiledServeListener>,
    order: Seq<Seq<char>>,
    n: nat,
    m: nat,
)
    requires
        n <= m,
        start_list(mode, current, candidates, order, n) is Err,
    ensures
        start_list(mode, current, candidates, order, m) == start_list(
            mode,
            current,
            candidates,
            order,
            n,
        ),
    decreases m,
{
    if n < m {
        lemma_start_list_fails_early(mode, current, candidates, order, n, (m - 1) as nat);
    }
}

fn blocked_error(decision: StartDecision, name: &str, local_addr: SocketAddress) -> (r: ServeError)
    ensures
        r.message@ == blocked_message(decision, name@, local_addr),
{
    let address = local_addr.to_text();
    match decision {
        StartDecision::RestartBlocked => {
            let mut message = text("warm restart cannot stage replacement for listener ");
            message.append(name);
            message.append(" on ");
            message.append(address.as_str());
            ServeError { message }
        },
        _ => {
            let mut message = text("reload would require retiring active listener ");
            message.append(name);
            message.append(" on ");
            message.append(address.as_str());
            message.append(
                " before replacement can start; zero-downtime replacement is not available for this change",
            );
            ServeError { message }
        },
    }
}

/// Decides which candidate listeners are started. Nothing is started where some change would need
/// downtime.
pub fn plan_starts(
    mode: ApplyMode,
    current_identities: &NamedMap<CurrentListenerIdentity>,
    candidate_listeners: &NamedMap<CompiledServeListener>,
) -> (r: Result<Vec<String>, ServeError>)
    ensures
        match planned_starts(mode, current_identities@, candidate_listeners@) {
            Ok(names) => r matches Ok(list) && texts(list@) == names,
            Err(message) => r matches Err(e) && e.message@ == message,
        },
{
    let ghost order = candidate_listeners.names();
    let mut out: Vec<String> = Vec::new();
    let total: usize = candidate_listeners.len();
    let mut i: usize = 0;
    proof {
        assert(texts(out@) =~= Seq::<Seq<char>>::empty());
    }
    while i < total
        invariant
            total == order.len(),
            order == candidate_listeners.names(),
            order == name_order(candidate_listeners@),
            i <= total,
            start_list(mode, current_identities@, candidate_listeners@, order, i as nat) == Ok::<
                Seq<Seq<char>>,
                Seq<char>,
            >(texts(out@)),
        decreases total - i,
    {
        let name = candidate_listeners.name_at(i);
        let spec = candidate_listeners.value_at(i);
        let current = current_identities.get(name.as_str());
        let decision = decide_start(mode, current, spec);
        match decision {
            StartDecision::Start => {
                let ghost before = out@;
                out.push(name.clone());
                proof {
                    assert(texts(out@) =~= texts(before).push(name@));
                }
            },
            StartDecision::Keep => {},
            _ => {
                proof {
                    lemma_start_list_fails_early(
                        mode,
                        current_identities@,
                        candidate_listeners@,
                        order,
                        (i + 1) as nat,
                        total as nat,
                    );
                }
                match current {
                    Some(current) => {
                        return Err(blocked_error(decision, name.as_str(), current.local_addr));
                    },
                    None => {},
                }
            },
        }
        i = i + 1;
    }
    Ok(out)
}

/// The capacity of the record of administration events: the largest that a listener asks for.
pub open spec fn largest_capacity(
    candidates: Map<Seq<char>, CompiledServeListener>,
    order: Seq<Seq<char>>,
    n: nat,
) -> Option<usize>
    decreases n,
{
    if n == 0 {
        None
    } else {
        let before = largest_capacity(candidates, order, (n - 1) as nat);
        match candidates[order[n - 1]].service {
            ListenerService::Admin { policy, .. } => match before {
                Some(largest) => Some(
                    if policy.audit_capacity >= largest {
                        policy.audit_capacity
                    } else {
                        largest
                    },
                ),
                None => Some(policy.audit_capacity),
            },
            ListenerService::Public(_) => before,
        }
    }
}

/// The capacity of the record of administration events.
pub fn admin_audit_capacity_of(candidate_listeners: &NamedMap<CompiledServeListener>) -> (r: usize)
    ensures
        r == (match largest_capacity(
            candidate_listeners@,
            name_order(candidate_listeners@),
            name_order(candidate_listeners@).len(),
        ) {
            Some(capacity) => capacity,
            None => ADMIN_AUDIT_DEFAULT_CAPACITY,
        }),
{
    let ghost order = candidate_listeners.names();
    let mut largest: Option<usize> = None;
    let total: usize = candidate_listeners.len();
    let mut i: usize = 0;
    while i < total
        invariant
            total == order.len(),
            order == candidate_listeners.names(),
            order == name_order(candidate_listeners@),
            i <= total,
            largest == largest_capacity(candidate_listeners@, order, i as nat),
        decreases total - i,
    {
        match &candidate_listeners.value_at(i).service {
            ListenerService::Admin { policy, .. } => {
                largest = match largest {
                    Some(before) => Some(
                        if policy.audit_capacity >= before {
                            policy.audit_capacity
                        } else {
                            before
                        },
                    ),
                    None => Some(policy.audit_capacity),
                };
            },
            ListenerService::Public(_) => {},
        }
        i = i + 1;
    }
    match largest {
        Some(capacity) => capacity,
        None => ADMIN_AUDIT_DEFAULT_CAPACITY,
    }
}

} // verus!
