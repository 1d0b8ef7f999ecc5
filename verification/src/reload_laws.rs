//! What holds of all changes of the configuration that is served: which listeners are started, kept
//! and retired, what refuses a change, and what becomes of the sockets that are replaced.

use crate::compile_runtime::CompiledServeListener;
use crate::config::ListenerClassConfig;
use crate::listener_lifecycle::CurrentListenerIdentity;
use crate::named_map::{in_order, name_order, ordered_names};
use crate::reload_plan::ApplyMode;
use crate::supervisor::{
    blocked_names, decision_on, largest_capacity, longest_drain, planned_starts,
    restart_blocked_names, restart_supported_names, running, selected, start_decision, start_list,
    supported_names,
};
use vstd::prelude::*;
use vstd::string::*;

verus! {

/// Whether a running socket is what a compiled listener asks for, field by field.
pub open spec fn is_as_asked(current: CurrentListenerIdentity, spec: CompiledServeListener) -> bool {
    &&& current.class == spec.class
    &&& current.protocol == spec.protocol
    &&& current.proxy_protocol == spec.proxy_protocol
    &&& current.configured_bind == spec.bind_address
    &&& current.bind_mode == spec.bind_mode
}

/// Whether a listener is restarted though nothing about it changed.
pub open spec fn is_restarted(mode: ApplyMode, current: CurrentListenerIdentity) -> bool {
    mode == ApplyMode::WarmRestart && current.class == ListenerClassConfig::Public
}

/// Whether a new socket has to be opened for a candidate listener.
pub open spec fn needs_a_socket(
    mode: ApplyMode,
    current: Option<CurrentListenerIdentity>,
    spec: CompiledServeListener,
) -> bool {
    match current {
        Some(current) => is_restarted(mode, current) || !is_as_asked(current, spec),
        None => true,
    }
}

/// Whether the socket of a candidate listener cannot be opened beside the running one, as the
/// running one holds its address.
pub open spec fn is_in_the_way(
    current: Option<CurrentListenerIdentity>,
    spec: CompiledServeListener,
) -> bool {
    current matches Some(current) && current.local_addr == spec.bind_address
}

/// A candidate listener is started where it needs a new socket and nothing is in its way, is kept
/// where it needs none, and blocks the change otherwise.
pub proof fn listeners_are_started_kept_or_blocked(
    mode: ApplyMode,
    current: Option<CurrentListenerIdentity>,
    spec: CompiledServeListener,
)
    ensures
        ({
            let decision = start_decision(mode, current, spec);
            let needs = needs_a_socket(mode, current, spec);
            let blocked = is_in_the_way(current, spec);
            &&& decision is Start <==> needs && !blocked
            &&& decision is Keep <==> !needs
            &&& decision is RestartBlocked <==> needs && blocked && is_restarted(mode, current->0)
            &&& decision is ReloadBlocked <==> needs && blocked && !is_restarted(mode, current->0)
        }),
{
}

/// Whether a candidate listener needs a new socket, under its name.
pub open spec fn must_start(
    mode: ApplyMode,
    current: Map<Seq<char>, CurrentListenerIdentity>,
    candidates: Map<Seq<char>, CompiledServeListener>,
    name: Seq<char>,
) -> bool {
    candidates.contains_key(name) && (current.contains_key(name) ==> is_restarted(
        mode,
        current[name],
    ) || !is_as_asked(current[name], candidates[name]))
}

/// Whether the socket that holds the address of a candidate listener is in its way, under its name.
pub open spec fn has_no_room(
    current: Map<Seq<char>, CurrentListenerIdentity>,
    candidates: Map<Seq<char>, CompiledServeListener>,
    name: Seq<char>,
) -> bool {
    current.contains_key(name) && current[name].local_addr == candidates[name].bind_address
}

proof fn lemma_decision(
    mode: ApplyMode,
    current: Map<Seq<char>, CurrentListenerIdentity>,
    candidates: Map<Seq<char>, CompiledServeListener>,
    name: Seq<char>,
)
    requires
        candidates.contains_key(name),
    ensures
        ({
            let decision = decision_on(mode, current, candidates, name);
            let must = must_start(mode, current, candidates, name);
            let blocked = has_no_room(current, candidates, name);
            &&& decision is Start <==> must && !blocked
            &&& decision is Keep <==> !must
            &&& decision is RestartBlocked <==> must && blocked && is_restarted(
                mode,
                current[name],
            )
            &&& decision is ReloadBlocked <==> must && blocked && !is_restarted(
                mode,
                current[name],
            )
        }),
{
    listeners_are_started_kept_or_blocked(mode, running(current, name), candidates[name]);
}

#[verifier::rlimit(40)]
proof fn lemma_pushed(list: Seq<Seq<char>>, last: Seq<char>, k: Seq<char>)
    ensures
        list.push(last).contains(k) <==> list.contains(k) || last == k,
{
    let longer = list.push(last);
    if list.contains(k) {
        let i = choose|i: int| 0 <= i < list.len() && list[i] == k;
        assert(longer[i] == k);
    }
    if last == k {
        assert(longer[list.len() as int] == k);
    }
    if longer.contains(k) && last != k {
        let i = choose|i: int| 0 <= i < longer.len() && longer[i] == k;
        assert(list[i] == k);
    }
}

#[verifier::rlimit(40)]
proof fn lemma_starts(
    mode: ApplyMode,
    current: Map<Seq<char>, CurrentListenerIdentity>,
    candidates: Map<Seq<char>, CompiledServeListener>,
    order: Seq<Seq<char>>,
    n: nat,
    k: Seq<char>,
)
    requires
        n <= order.len(),
        in_order(order),
        forall|i: int| 0 <= i < order.len() ==> candidates.contains_key(#[trigger] order[i]),
    ensures
        ({
            let starts = start_list(mode, current, candidates, order, n);
            &&& starts matches Ok(names) ==> {
                &&& names.contains(k) <==> order.take(n as int).contains(k) && must_start(
                    mode,
                    current,
                    candidates,
                    k,
                )
                &&& in_order(names)
                &&& forall|j: int| 0 <= j < names.len() ==> order.take(n as int).contains(
                    #[trigger] names[j],
                )
            }
            &&& starts is Err <==> exists|i: int|
                0 <= i < n && must_start(mode, current, candidates, #[trigger] order[i])
                    && has_no_room(current, candidates, order[i])
        }),
    decreases n,
{
    if n == 0 {
        assert(order.take(0).len() == 0);
    } else {
        lemma_starts(mode, current, candidates, order, (n - 1) as nat, k);
        let name = order[n - 1];
        lemma_decision(mode, current, candidates, name);
        let before = order.take(n - 1);
        let now = order.take(n as int);
        assert(now =~= before.push(name));
        lemma_pushed(before, name, k);
        let starts = start_list(mode, current, candidates, order, n);
        if starts is Ok {
            let earlier = start_list(mode, current, candidates, order, (n - 1) as nat)->Ok_0;
            let names = starts->Ok_0;
            lemma_pushed(earlier, name, k);
            assert forall|j: int| 0 <= j < names.len() implies now.contains(
                #[trigger] names[j],
            ) by {
                lemma_pushed(before, name, names[j]);
                if j < earlier.len() {
                    assert(before.contains(earlier[j]));
                }
            }
            assert(in_order(names)) by {
                assert forall|i: int, j: int|
                    #![trigger names[i], names[j]]
                    0 <= i < j < names.len() implies crate::text::text_before(
                    names[i],
                    names[j],
                ) by {
                    if j < earlier.len() {
                        assert(earlier[i] == names[i] && earlier[j] == names[j]);
                    } else {
                        assert(before.contains(earlier[i]));
                        let a = choose|a: int| 0 <= a < before.len() && before[a] == earlier[i];
                        assert(order[a] == names[i]);
                    }
                }
            }
        }
    }
}

/// The listeners that are started are exactly those that need a new socket, in the order of their
/// names. A change is refused exactly where one of them has no room for it, and nothing is started.
#[verifier::rlimit(40)]
pub proof fn changes_start_what_they_need(
    mode: ApplyMode,
    current: Map<Seq<char>, CurrentListenerIdentity>,
    candidates: Map<Seq<char>, CompiledServeListener>,
)
    requires
        ordered_names(candidates, name_order(candidates)),
    ensures
        ({
            let starts = planned_starts(mode, current, candidates);
            &&& starts is Err <==> exists|name: Seq<char>| #[trigger]
                must_start(mode, current, candidates, name) && has_no_room(
                    current,
                    candidates,
                    name,
                )
            &&& starts matches Ok(names) ==> in_order(names) && forall|name: Seq<char>| #[trigger]
                names.contains(name) <==> must_start(mode, current, candidates, name)
        }),
{
    let order = name_order(candidates);
    assert forall|i: int| 0 <= i < order.len() implies candidates.contains_key(
        #[trigger] order[i],
    ) by {
        assert(order.contains(order[i]));
    }
    assert(order.take(order.len() as int) =~= order);
    let starts = planned_starts(mode, current, candidates);
    lemma_starts(mode, current, candidates, order, order.len(), Seq::empty());
    if starts is Ok {
        assert forall|name: Seq<char>| #[trigger] starts->Ok_0.contains(name) <==> must_start(
            mode,
            current,
            candidates,
            name,
        ) by {
            lemma_starts(mode, current, candidates, order, order.len(), name);
            assert(candidates.contains_key(name) <==> order.contains(name));
        }
    }
    if exists|name: Seq<char>| #[trigger]
        must_start(mode, current, candidates, name) && has_no_room(current, candidates, name) {
        let name = choose|name: Seq<char>| #[trigger]
            must_start(mode, current, candidates, name) && has_no_room(current, candidates, name);
        assert(candidates.contains_key(name));
        let i = choose|i: int| 0 <= i < order.len() && order[i] == name;
        assert(must_start(mode, current, candidates, order[i]));
    }
}

proof fn lemma_refusal(
    mode: ApplyMode,
    current: Map<Seq<char>, CurrentListenerIdentity>,
    candidates: Map<Seq<char>, CompiledServeListener>,
    order: Seq<Seq<char>>,
    n: nat,
) -> (at: int)
    requires
        n <= order.len(),
        start_list(mode, current, candidates, order, n) is Err,
        forall|i: int| 0 <= i < order.len() ==> candidates.contains_key(#[trigger] order[i]),
    ensures
        0 <= at < n,
        must_start(mode, current, candidates, order[at]),
        has_no_room(current, candidates, order[at]),
        forall|i: int|
            0 <= i < at ==> !(must_start(mode, current, candidates, #[trigger] order[i])
                && has_no_room(current, candidates, order[i])),
        start_list(mode, current, candidates, order, n)->Err_0 == refusal_words(
            mode,
            current,
            order[at],
        ),
    decreases n,
{
    let name = order[n - 1];
    if start_list(mode, current, candidates, order, (n - 1) as nat) is Err {
        lemma_refusal(mode, current, candidates, order, (n - 1) as nat)
    } else {
        lemma_decision(mode, current, candidates, name);
        lemma_allowed(mode, current, candidates, order, (n - 1) as nat);
        n - 1
    }
}

proof fn lemma_allowed(
    mode: ApplyMode,
    current: Map<Seq<char>, CurrentListenerIdentity>,
    candidates: Map<Seq<char>, CompiledServeListener>,
    order: Seq<Seq<char>>,
    n: nat,
)
    requires
        n <= order.len(),
        start_list(mode, current, candidates, order, n) is Ok,
        forall|i: int| 0 <= i < order.len() ==> candidates.contains_key(#[trigger] order[i]),
    ensures
        forall|i: int|
            0 <= i < n ==> !(must_start(mode, current, candidates, #[trigger] order[i])
                && has_no_room(current, candidates, order[i])),
    decreases n,
{
    if n > 0 {
        lemma_allowed(mode, current, candidates, order, (n - 1) as nat);
        lemma_decision(mode, current, candidates, order[n - 1]);
    }
}

/// How a change is refused for a listener that has no room.
pub open spec fn refusal_words(
    mode: ApplyMode,
    current: Map<Seq<char>, CurrentListenerIdentity>,
    name: Seq<char>,
) -> Seq<char> {
    if is_restarted(mode, current[name]) {
        "warm restart cannot stage replacement for listener "@ + name + " on "@
            + current[name].local_addr.written()
    } else {
        "reload would require retiring active listener "@ + name + " on "@
            + current[name].local_addr.written()
            + " before replacement can start; zero-downtime replacement is not available for this change"@
    }
}

/// A change that is refused names the first listener, in the order of their names, that has no room,
/// and the address where it listens.
pub proof fn refusals_name_the_first_that_has_no_room(
    mode: ApplyMode,
    current: Map<Seq<char>, CurrentListenerIdentity>,
    candidates: Map<Seq<char>, CompiledServeListener>,
) -> (at: int)
    requires
        ordered_names(candidates, name_order(candidates)),
        planned_starts(mode, current, candidates) is Err,
    ensures
        ({
            let order = name_order(candidates);
            &&& 0 <= at < order.len()
            &&& must_start(mode, current, candidates, order[at])
            &&& has_no_room(current, candidates, order[at])
            &&& forall|i: int|
                0 <= i < at ==> !(must_start(mode, current, candidates, #[trigger] order[i])
                    && has_no_room(current, candidates, order[i]))
            &&& planned_starts(mode, current, candidates)->Err_0 == refusal_words(
                mode,
                current,
                order[at],
            )
        }),
{
    let order = name_order(candidates);
    assert forall|i: int| 0 <= i < order.len() implies candidates.contains_key(
        #[trigger] order[i],
    ) by {
        assert(order.contains(order[i]));
    }
    lemma_refusal(mode, current, candidates, order, order.len())
}

proof fn lemma_selected(
    names: Seq<Seq<char>>,
    chosen: spec_fn(Seq<char>) -> bool,
    n: nat,
    k: Seq<char>,
)
    requires
        n <= names.len(),
    ensures
        selected(names, chosen, n).contains(k) <==> names.take(n as int).contains(k) && chosen(k),
    decreases n,
{
    if n == 0 {
        assert(names.take(0).len() == 0);
    } else {
        lemma_selected(names, chosen, (n - 1) as nat, k);
        let before = selected(names, chosen, (n - 1) as nat);
        assert(names.take(n as int) =~= names.take(n - 1).push(names[n - 1]));
        lemma_pushed(before, names[n - 1], k);
        lemma_pushed(names.take(n - 1), names[n - 1], k);
    }
}

/// The plan of a reload names a listener among its replacements exactly where it runs, changes and
/// has room, and among the blocked ones exactly where it runs, changes and has none. The plan of a
/// restart does so for public listeners, whether they change or not.
#[verifier::rlimit(40)]
pub proof fn plans_name_what_is_replaced(
    current: Map<Seq<char>, CurrentListenerIdentity>,
    candidates: Map<Seq<char>, CompiledServeListener>,
    name: Seq<char>,
)
    requires
        ordered_names(candidates, name_order(candidates)),
    ensures
        ({
            let there = current.contains_key(name) && candidates.contains_key(name);
            let changes = !is_as_asked(current[name], candidates[name]);
            let public = current[name].class == ListenerClassConfig::Public;
            let room = current[name].local_addr != candidates[name].bind_address;
            &&& supported_names(current, candidates).contains(name) <==> there && changes && room
            &&& blocked_names(current, candidates).contains(name) <==> there && changes && !room
            &&& restart_supported_names(current, candidates).contains(name) <==> there && public
                && room
            &&& restart_blocked_names(current, candidates).contains(name) <==> there && public
                && !room
        }),
{
    let order = name_order(candidates);
    assert(order.take(order.len() as int) =~= order);
    assert(candidates.contains_key(name) <==> order.contains(name));
    lemma_selected(
        order,
        |name: Seq<char>| crate::supervisor::supported(current, candidates, name),
        order.len(),
        name,
    );
    lemma_selected(
        order,
        |name: Seq<char>| crate::supervisor::blocked(current, candidates, name),
        order.len(),
        name,
    );
    lemma_selected(
        order,
        |name: Seq<char>| crate::supervisor::restart_supported(current, candidates, name),
        order.len(),
        name,
    );
    lemma_selected(
        order,
        |name: Seq<char>| crate::supervisor::restart_blocked(current, candidates, name),
        order.len(),
        name,
    );
}

/// A change is expected to take as long as the longest of the drains that it waits for, as far as
/// that can be counted, and nothing is expected where it waits for none.
#[verifier::rlimit(40)]
pub proof fn changes_take_as_long_as_their_longest_drain(
    candidates: Map<Seq<char>, CompiledServeListener>,
    names: Seq<Seq<char>>,
    n: nat,
)
    requires
        n <= names.len(),
    ensures
        ({
            let longest = longest_drain(candidates, names, n);
            &&& longest is None <==> forall|i: int|
                0 <= i < n ==> !candidates.contains_key(#[trigger] names[i])
            &&& longest matches Some(ms) ==> {
                &&& forall|i: int|
                    0 <= i < n && candidates.contains_key(#[trigger] names[i]) ==> (ms == u64::MAX
                        || candidates[names[i]].drain_timeout_ms <= ms)
                &&& exists|i: int|
                    0 <= i < n && candidates.contains_key(#[trigger] names[i]) && (ms
                        == candidates[names[i]].drain_timeout_ms || (ms == u64::MAX
                        && candidates[names[i]].drain_timeout_ms > u64::MAX))
            }
        }),
    decreases n,
{
    if n > 0 {
        changes_take_as_long_as_their_longest_drain(candidates, names, (n - 1) as nat);
        let before = longest_drain(candidates, names, (n - 1) as nat);
        let longest = longest_drain(candidates, names, n);
        if before is Some && longest == before {
            let i = choose|i: int|
                0 <= i < n - 1 && candidates.contains_key(#[trigger] names[i]) && (before->0
                    == candidates[names[i]].drain_timeout_ms || (before->0 == u64::MAX
                    && candidates[names[i]].drain_timeout_ms > u64::MAX));
            assert(candidates.contains_key(names[i]));
        } else if candidates.contains_key(names[n - 1]) {
            assert(candidates.contains_key(names[n - 1]));
        }
    }
}

/// Whether a listener of a candidate configuration is for administration.
pub open spec fn administers(spec: CompiledServeListener) -> bool {
    spec.service is Admin
}

/// As many administration events are kept as the administration listener asks for that asks for the
/// most.
#[verifier::rlimit(40)]
pub proof fn as_many_events_are_kept_as_asked_for(
    candidates: Map<Seq<char>, CompiledServeListener>,
    order: Seq<Seq<char>>,
    n: nat,
)
    requires
        n <= order.len(),
    ensures
        ({
            let largest = largest_capacity(candidates, order, n);
            &&& largest is None <==> forall|i: int|
                0 <= i < n ==> !administers(candidates[#[trigger] order[i]])
            &&& largest matches Some(capacity) ==> {
                &&& forall|i: int|
                    0 <= i < n && administers(candidates[#[trigger] order[i]])
                        ==> candidates[order[i]].service->Admin_policy.audit_capacity <= capacity
                &&& exists|i: int|
                    0 <= i < n && administers(candidates[#[trigger] order[i]])
                        && candidates[order[i]].service->Admin_policy.audit_capacity == capacity
            }
        }),
    decreases n,
{
    if n > 0 {
        as_many_events_are_kept_as_asked_for(candidates, order, (n - 1) as nat);
        let before = largest_capacity(candidates, order, (n - 1) as nat);
        let largest = largest_capacity(candidates, order, n);
        if administers(candidates[order[n - 1]])
            && candidates[order[n - 1]].service->Admin_policy.audit_capacity == largest->0 {
            assert(administers(candidates[order[n - 1]]));
        } else if before is Some {
            let i = choose|i: int|
                0 <= i < n - 1 && administers(candidates[#[trigger] order[i]])
                    && candidates[order[i]].service->Admin_policy.audit_capacity == before->0;
            assert(administers(candidates[order[i]]));
        }
    }
}

} // verus!
