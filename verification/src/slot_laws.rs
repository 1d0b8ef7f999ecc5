//! What holds of all listeners that are replaced: what drains, what is retired, what is remembered
//! of that, and how it is told.

use crate::addr::SocketAddress;
use crate::apply_run::{given_up, opened, ApplyRun};
use crate::compile_runtime::CompiledServeListener;
use crate::listener_lifecycle::{
    first_place, remembered_with, CurrentListenerIdentity, ListenerDrainOutcome, ListenerIdentity,
    RetiredView, SlotView,
};
use crate::named_map::{name_order, ordered_names};
use crate::reload_laws::is_as_asked;
use crate::reload_plan::{ApplyMode, ReloadApplyOutcome, ReloadAuditPlan, WarmRestartApplyOutcome};
use crate::supervisor::selected;
use crate::switch_over::{
    activated, counted_up, missing_names, remaining, retired_by_switch, retired_with, switched_over,
    takes_effect_in_place, timed_out_names, update_list, updated_slots,
};
use vstd::prelude::*;
use vstd::string::*;

verus! {

/// Whether an identity is that of a running socket, field by field.
pub open spec fn is_identity_of(
    identity: ListenerIdentity,
    current: CurrentListenerIdentity,
) -> bool {
    &&& identity.class == current.class
    &&& identity.protocol == current.protocol
    &&& identity.proxy_protocol == current.proxy_protocol
    &&& identity.configured_bind == current.configured_bind
    &&& identity.bind_mode == current.bind_mode
}

/// Whether an identity is what a compiled listener asks for, field by field.
pub open spec fn is_asked_for(identity: ListenerIdentity, spec: CompiledServeListener) -> bool {
    &&& identity.class == spec.class
    &&& identity.protocol == spec.protocol
    &&& identity.proxy_protocol == spec.proxy_protocol
    &&& identity.configured_bind == spec.bind_address
    &&& identity.bind_mode == spec.bind_mode
}

/// A socket that is opened for a compiled listener is what it asks for, at the address that it got.
pub proof fn opened_sockets_are_as_asked(spec: CompiledServeListener, local_addr: SocketAddress)
    ensures
        is_as_asked(opened(spec, local_addr), spec),
        opened(spec, local_addr).local_addr == local_addr,
        opened(spec, local_addr).matches(spec),
{
}

/// A listener that was just started serves its socket, and nothing of it drains or was retired.
pub proof fn started_listeners_have_no_past(active: CurrentListenerIdentity)
    ensures
        ({
            let slot = SlotView::fresh(active);
            &&& slot.active == active
            &&& slot.serving is Some && is_identity_of(slot.serving->0, active)
            &&& is_identity_of(slot.desired, active)
            &&& slot.draining.len() == 0
            &&& slot.retired.len() == 0
            &&& slot.timed_out.len() == 0
            &&& slot.failed_start is None
        }),
{
}

/// A listener that is updated in place keeps its socket and its past, serves what is asked for, and
/// forgets a start that failed.
pub proof fn updated_listeners_keep_their_socket(slot: SlotView, spec: CompiledServeListener)
    ensures
        ({
            let after = slot.updated(spec);
            &&& after.active == slot.active
            &&& after.serving is Some && is_asked_for(after.serving->0, spec)
            &&& is_asked_for(after.desired, spec)
            &&& after.draining == slot.draining
            &&& after.retired == slot.retired
            &&& after.timed_out == slot.timed_out
            &&& after.failed_start is None
        }),
{
}

/// The socket that is replaced drains, behind those that drain already; its replacement is served,
/// and nothing is retired yet.
pub proof fn replaced_sockets_drain(slot: SlotView, replacement: CurrentListenerIdentity)
    requires
        slot.serving is Some,
    ensures
        ({
            let after = slot.replaced(replacement);
            &&& after.active == replacement
            &&& after.serving is Some && is_identity_of(after.serving->0, replacement)
            &&& is_identity_of(after.desired, replacement)
            &&& after.draining.len() == slot.draining.len() + 1
            &&& after.draining.last() == slot.serving->0
            &&& forall|i: int|
                0 <= i < slot.draining.len() ==> #[trigger] after.draining[i] == slot.draining[i]
            &&& after.retired == slot.retired
            &&& after.timed_out == slot.timed_out
            &&& after.failed_start is None
        }),
{
}

/// A start that failed is remembered with what it asked for and why it failed; nothing else about
/// the listener changes.
pub proof fn failed_starts_are_remembered(
    slot: SlotView,
    spec: CompiledServeListener,
    detail: Seq<char>,
)
    ensures
        ({
            let after = slot.failed(spec, detail);
            &&& after.failed_start matches Some((asked, why))
            &&& is_asked_for(asked, spec)
            &&& why == detail
            &&& after.active == slot.active
            &&& after.serving == slot.serving
            &&& after.desired == slot.desired
            &&& after.draining == slot.draining
            &&& after.retired == slot.retired
            &&& after.timed_out == slot.timed_out
        }),
{
}

/// The place of an identity in a list is the first where it stands, and there is none exactly where
/// it does not stand there.
#[verifier::rlimit(40)]
pub proof fn identities_are_found_where_they_first_stand(
    list: Seq<ListenerIdentity>,
    identity: ListenerIdentity,
)
    ensures
        first_place(list, identity) is None <==> forall|i: int|
            0 <= i < list.len() ==> #[trigger] list[i] != identity,
        first_place(list, identity) matches Some(at) ==> {
            &&& 0 <= at < list.len()
            &&& list[at] == identity
            &&& forall|i: int| 0 <= i < at ==> #[trigger] list[i] != identity
        },
    decreases list.len(),
{
    if list.len() > 0 && list[0] != identity {
        let rest = list.drop_first();
        identities_are_found_where_they_first_stand(rest, identity);
        assert forall|i: int| 0 < i < list.len() implies #[trigger] list[i] == rest[i - 1] by {}
        if first_place(rest, identity) is None {
            assert forall|i: int| 0 <= i < list.len() implies #[trigger] list[i] != identity by {
                if i > 0 {
                    assert(rest[i - 1] != identity);
                }
            }
        } else {
            let at = first_place(rest, identity)->0 + 1;
            assert(list[at] == rest[at - 1]);
            assert forall|i: int| 0 <= i < at implies #[trigger] list[i] != identity by {
                if i > 0 {
                    assert(rest[i - 1] != identity);
                }
            }
        }
    }
}

/// The last four are remembered, the latest of them last, in the order in which they came.
pub proof fn the_last_four_are_remembered(list: Seq<ListenerIdentity>, identity: ListenerIdentity)
    requires
        list.len() <= 4,
    ensures
        ({
            let after = remembered_with(list, identity);
            &&& after.last() == identity
            &&& after.len() == (if list.len() == 4 {
                4
            } else {
                list.len() + 1
            })
            &&& forall|i: int|
                0 <= i < after.len() - 1 ==> #[trigger] after[i] == list[i + list.len() + 1
                    - after.len()]
        }),
{
}

/// A socket that is gone no longer drains and is the latest of those retired, and of those that took
/// too long exactly where it did. What is served does not change, nor do the other sockets that
/// drain. Nothing changes for a socket that does not drain.
pub proof fn drained_sockets_are_retired(
    slot: SlotView,
    identity: ListenerIdentity,
    outcome: ListenerDrainOutcome,
)
    ensures
        ({
            let after = slot.drained(identity, outcome);
            let drains = exists|i: int|
                0 <= i < slot.draining.len() && #[trigger] slot.draining[i] == identity;
            &&& after.active == slot.active
            &&& after.serving == slot.serving
            &&& after.desired == slot.desired
            &&& after.failed_start == slot.failed_start
            &&& !drains ==> after == slot
            &&& drains ==> after.draining.len() == slot.draining.len() - 1
            &&& drains ==> after.retired == remembered_with(slot.retired, identity)
            &&& drains && outcome == ListenerDrainOutcome::TimedOut ==> after.timed_out
                == remembered_with(slot.timed_out, identity)
            &&& drains && outcome == ListenerDrainOutcome::Completed ==> after.timed_out
                == slot.timed_out
            &&& drains ==> exists|at: int|
                0 <= at < slot.draining.len() && #[trigger] slot.draining[at] == identity
                    && after.draining == slot.draining.take(at) + slot.draining.skip(at + 1)
        }),
{
    identities_are_found_where_they_first_stand(slot.draining, identity);
    if first_place(slot.draining, identity) is Some {
        let at = first_place(slot.draining, identity)->0;
        assert(slot.draining[at] == identity);
        assert(slot.draining.remove(at) =~= slot.draining.take(at) + slot.draining.skip(at + 1));
    }
}

/// Counts go up by one and stay at the largest number.
pub proof fn counts_stay_at_the_largest(n: usize)
    ensures
        n < usize::MAX ==> counted_up(n) == n + 1,
        n == usize::MAX ==> counted_up(n) == usize::MAX,
{
}

/// The names of those that took too long: one that did is there, whoever else was is still there,
/// and nobody else comes in; a name stands there once.
#[verifier::rlimit(40)]
pub proof fn late_replacements_are_named_once(
    names: Seq<Seq<char>>,
    slot_name: Option<Seq<char>>,
    drain: ListenerDrainOutcome,
    name: Seq<char>,
)
    ensures
        timed_out_names(names, slot_name, drain).contains(name) <==> names.contains(name) || (drain
            == ListenerDrainOutcome::TimedOut && slot_name == Some(name)),
        names.no_duplicates() ==> timed_out_names(names, slot_name, drain).no_duplicates(),
{
    let after = timed_out_names(names, slot_name, drain);
    if names.contains(name) {
        let i = choose|i: int| 0 <= i < names.len() && names[i] == name;
        assert(after[i] == name);
    }
    if drain is TimedOut && slot_name == Some(name) && !names.contains(name) {
        assert(after[names.len() as int] == name);
    }
    if after.contains(name) && !names.contains(name) {
        let i = choose|i: int| 0 <= i < after.len() && after[i] == name;
        if i < names.len() {
            assert(names[i] == name);
        }
    }
    if names.no_duplicates() {
        assert forall|i: int, j: int|
            0 <= i < after.len() && 0 <= j < after.len() && i != j implies after[i] != after[j] by {
            if i < names.len() {
                assert(names.contains(names[i]));
            }
            if j < names.len() {
                assert(names.contains(names[j]));
            }
        }
    }
}

#[verifier::rlimit(40)]
proof fn lemma_pushed(list: Seq<Seq<char>>, last: Seq<char>, k: Seq<char>)
    ensures
        list.push(last).contains(k) <==> list.contains(k) || last == k,
{
    let longer = list.push(last);
    if list.contains(k) {
        let i = choose|i: int| 0 <= i < list.len() && list[i] == k;
        assert(longer[i] == k);
    }
    if last == k {
        assert(longer[list.len() as int] == k);
    }
    if longer.contains(k) && last != k {
        let i = choose|i: int| 0 <= i < longer.len() && longer[i] == k;
        assert(list[i] == k);
    }
}

proof fn lemma_selected(
    names: Seq<Seq<char>>,
    chosen: spec_fn(Seq<char>) -> bool,
    n: nat,
    k: Seq<char>,
)
    requires
        n <= names.len(),
    ensures
        selected(names, chosen, n).contains(k) <==> names.take(n as int).contains(k) && chosen(k),
    decreases n,
{
    if n == 0 {
        assert(names.take(0).len() == 0);
    } else {
        lemma_selected(names, chosen, (n - 1) as nat, k);
        let before = selected(names, chosen, (n - 1) as nat);
        assert(names.take(n as int) =~= names.take(n - 1).push(names[n - 1]));
        lemma_pushed(before, names[n - 1], k);
        lemma_pushed(names.take(n - 1), names[n - 1], k);
    }
}

proof fn lemma_updated(
    slots: Map<Seq<char>, SlotView>,
    candidates: Map<Seq<char>, CompiledServeListener>,
    names: Seq<Seq<char>>,
    n: nat,
    k: Seq<char>,
)
    requires
        n <= names.len(),
    ensures
        updated_slots(slots, candidates, names, n).contains_key(k) <==> slots.contains_key(k),
        slots.contains_key(k) ==> {
            let after = updated_slots(slots, candidates, names, n)[k];
            &&& after.active == slots[k].active
            &&& after.draining == slots[k].draining
            &&& after.retired == slots[k].retired
            &&& after.timed_out == slots[k].timed_out
            &&& !names.take(n as int).contains(k) ==> after == slots[k]
        },
    decreases n,
{
    if n > 0 {
        lemma_updated(slots, candidates, names, (n - 1) as nat, k);
        assert(names.take(n as int) =~= names.take(n - 1).push(names[n - 1]));
        lemma_pushed(names.take(n - 1), names[n - 1], k);
    }
}

/// Whether a listener is among those that were started.
pub open spec fn is_started(
    started: Seq<(Seq<char>, CurrentListenerIdentity)>,
    name: Seq<char>,
) -> bool {
    exists|i: int| 0 <= i < started.len() && (#[trigger] started[i]).0 == name
}

/// Whether listeners that were started have each a name of their own.
pub open spec fn are_named_apart(started: Seq<(Seq<char>, CurrentListenerIdentity)>) -> bool {
    forall|i: int, j: int|
        #![trigger started[i], started[j]]
        0 <= i < started.len() && 0 <= j < started.len() && i != j ==> started[i].0 != started[j].0
}

proof fn lemma_untouched(
    slots: Map<Seq<char>, SlotView>,
    started: Seq<(Seq<char>, CurrentListenerIdentity)>,
    n: nat,
    k: Seq<char>,
)
    requires
        n <= started.len(),
        forall|i: int| 0 <= i < n ==> (#[trigger] started[i]).0 != k,
    ensures
        activated(slots, started, n).0.contains_key(k) <==> slots.contains_key(k),
        slots.contains_key(k) ==> activated(slots, started, n).0[k] == slots[k],
        forall|j: int|
            0 <= j < activated(slots, started, n).1.len() ==> (#[trigger] activated(
                slots,
                started,
                n,
            ).1[j]).slot_name != Some(k),
    decreases n,
{
    if n > 0 {
        lemma_untouched(slots, started, (n - 1) as nat, k);
        assert(started[n - 1].0 != k);
    }
}

#[verifier::rlimit(40)]
proof fn lemma_started(
    slots: Map<Seq<char>, SlotView>,
    started: Seq<(Seq<char>, CurrentListenerIdentity)>,
    n: nat,
    at: int,
)
    requires
        0 <= at < n <= started.len(),
        are_named_apart(started),
    ensures
        ({
            let (after, retired) = activated(slots, started, n);
            let name = started[at].0;
            &&& after.contains_key(name)
            &&& after[name] == (if slots.contains_key(name) {
                slots[name].replaced(started[at].1)
            } else {
                SlotView::fresh(started[at].1)
            })
            &&& slots.contains_key(name) ==> exists|j: int|
                0 <= j < retired.len() && #[trigger] retired[j] == (RetiredView {
                    slot_name: Some(name),
                    identity: slots[name].active.identity(),
                })
            &&& !slots.contains_key(name) ==> forall|j: int|
                0 <= j < retired.len() ==> (#[trigger] retired[j]).slot_name != Some(name)
        }),
    decreases n,
{
    let name = started[at].0;
    let (before, earlier) = activated(slots, started, (n - 1) as nat);
    let (after, retired) = activated(slots, started, n);
    if at == n - 1 {
        assert forall|i: int| 0 <= i < n - 1 implies (#[trigger] started[i]).0 != name by {
            assert(started[at].0 == name);
        }
        lemma_untouched(slots, started, (n - 1) as nat, name);
        if slots.contains_key(name) {
            assert(retired[earlier.len() as int] == (RetiredView {
                slot_name: Some(name),
                identity: slots[name].active.identity(),
            }));
        }
    } else {
        lemma_started(slots, started, (n - 1) as nat, at);
        assert(started[n - 1].0 != started[at].0);
        if slots.contains_key(name) {
            let j = choose|j: int|
                0 <= j < earlier.len() && #[trigger] earlier[j] == (RetiredView {
                    slot_name: Some(name),
                    identity: slots[name].active.identity(),
                });
            assert(retired[j] == earlier[j]);
        }
    }
}

#[verifier::rlimit(40)]
proof fn lemma_in_place(
    mode: ApplyMode,
    slots: Map<Seq<char>, SlotView>,
    candidates: Map<Seq<char>, CompiledServeListener>,
    name: Seq<char>,
)
    requires
        ordered_names(candidates, name_order(candidates)),
        slots.contains_key(name),
    ensures
        ({
            let updates = update_list(mode, slots, candidates);
            let updated = updated_slots(slots, candidates, updates, updates.len());
            &&& updated.contains_key(name)
            &&& updated[name].active == slots[name].active
            &&& updated[name].draining == slots[name].draining
            &&& updated[name].retired == slots[name].retired
            &&& updated[name].timed_out == slots[name].timed_out
            &&& !candidates.contains_key(name) ==> updated[name] == slots[name]
        }),
{
    let order = name_order(candidates);
    let updates = update_list(mode, slots, candidates);
    assert(updates.take(updates.len() as int) =~= updates);
    assert(order.take(order.len() as int) =~= order);
    lemma_updated(slots, candidates, updates, updates.len(), name);
    lemma_selected(
        order,
        |name: Seq<char>| takes_effect_in_place(mode, slots, candidates, name),
        order.len(),
        name,
    );
}

/// A listener that is neither started nor gone keeps its socket: nothing more of it drains than
/// before, and nothing of it is retired.
#[verifier::rlimit(40)]
pub proof fn listeners_that_are_not_started_keep_their_socket(
    mode: ApplyMode,
    slots: Map<Seq<char>, SlotView>,
    candidates: Map<Seq<char>, CompiledServeListener>,
    started: Seq<(Seq<char>, CurrentListenerIdentity)>,
    name: Seq<char>,
)
    requires
        ordered_names(candidates, name_order(candidates)),
        slots.contains_key(name),
        candidates.contains_key(name),
        !is_started(started, name),
    ensures
        ({
            let after = switched_over(mode, slots, candidates, started);
            let retired = retired_by_switch(mode, slots, candidates, started);
            &&& after.contains_key(name)
            &&& after[name].active == slots[name].active
            &&& after[name].draining == slots[name].draining
            &&& after[name].retired == slots[name].retired
            &&& after[name].timed_out == slots[name].timed_out
            &&& forall|j: int|
                0 <= j < retired.len() ==> (#[trigger] retired[j]).slot_name != Some(name)
        }),
{
    let updates = update_list(mode, slots, candidates);
    let updated = updated_slots(slots, candidates, updates, updates.len());
    let kept = remaining(updated, candidates);
    lemma_in_place(mode, slots, candidates, name);
    assert forall|i: int| 0 <= i < started.len() implies (#[trigger] started[i]).0 != name by {}
    lemma_untouched(kept, started, started.len(), name);
    let retired = retired_by_switch(mode, slots, candidates, started);
    let gone = retired_with(updated, missing_names(updated, candidates));
    let replaced = activated(kept, started, started.len()).1;
    assert forall|j: int| 0 <= j < retired.len() implies (#[trigger] retired[j]).slot_name != Some(
        name,
    ) by {
        if j < gone.len() {
            assert(retired[j] == gone[j]);
        } else {
            assert(retired[j] == replaced[j - gone.len()]);
        }
    }
}

/// A listener that is started runs on its new socket. The socket that it ran on before, if it did,
/// drains behind those that drain already and is retired under the listener's name.
#[verifier::rlimit(40)]
pub proof fn started_listeners_replace_their_socket(
    mode: ApplyMode,
    slots: Map<Seq<char>, SlotView>,
    candidates: Map<Seq<char>, CompiledServeListener>,
    started: Seq<(Seq<char>, CurrentListenerIdentity)>,
    at: int,
)
    requires
        ordered_names(candidates, name_order(candidates)),
        are_named_apart(started),
        0 <= at < started.len(),
        candidates.contains_key(started[at].0),
    ensures
        ({
            let name = started[at].0;
            let after = switched_over(mode, slots, candidates, started);
            let retired = retired_by_switch(mode, slots, candidates, started);
            &&& after.contains_key(name)
            &&& after[name].active == started[at].1
            &&& slots.contains_key(name) ==> after[name].retired == slots[name].retired
            &&& slots.contains_key(name) && slots[name].wf() ==> after[name].draining.len()
                >= slots[name].draining.len()
            &&& slots.contains_key(name) ==> exists|j: int|
                0 <= j < retired.len() && (#[trigger] retired[j]).slot_name == Some(name)
                    && is_identity_of(retired[j].identity, slots[name].active)
            &&& !slots.contains_key(name) ==> after[name].draining.len() == 0
        }),
{
    let name = started[at].0;
    let updates = update_list(mode, slots, candidates);
    let updated = updated_slots(slots, candidates, updates, updates.len());
    let kept = remaining(updated, candidates);
    assert(updates.take(updates.len() as int) =~= updates);
    lemma_updated(slots, candidates, updates, updates.len(), name);
    lemma_started(kept, started, started.len(), at);
    let gone = retired_with(updated, missing_names(updated, candidates));
    let replaced = activated(kept, started, started.len()).1;
    let retired = retired_by_switch(mode, slots, candidates, started);
    if slots.contains_key(name) {
        let j = choose|j: int|
            0 <= j < replaced.len() && #[trigger] replaced[j] == (RetiredView {
                slot_name: Some(name),
                identity: kept[name].active.identity(),
            });
        assert(retired[gone.len() + j] == replaced[j]);
    }
}

/// A listener that the new configuration no longer has is gone, and what it served is retired with
/// its slot.
#[verifier::rlimit(40)]
pub proof fn listeners_that_are_gone_are_retired(
    mode: ApplyMode,
    slots: Map<Seq<char>, SlotView>,
    candidates: Map<Seq<char>, CompiledServeListener>,
    started: Seq<(Seq<char>, CurrentListenerIdentity)>,
    name: Seq<char>,
)
    requires
        ordered_names(candidates, name_order(candidates)),
        slots.dom().finite(),
        slots.contains_key(name),
        slots[name].serving is Some,
        !candidates.contains_key(name),
        !is_started(started, name),
    ensures
        !switched_over(mode, slots, candidates, started).contains_key(name),
        exists|j: int|
            0 <= j < retired_by_switch(mode, slots, candidates, started).len()
                && #[trigger] retired_by_switch(mode, slots, candidates, started)[j]
                == (RetiredView { slot_name: None, identity: slots[name].serving->0 }),
{
    let updates = update_list(mode, slots, candidates);
    let updated = updated_slots(slots, candidates, updates, updates.len());
    let kept = remaining(updated, candidates);
    lemma_in_place(mode, slots, candidates, name);
    assert forall|i: int| 0 <= i < started.len() implies (#[trigger] started[i]).0 != name by {}
    lemma_untouched(kept, started, started.len(), name);
    assert(updated.dom() =~= slots.dom()) by {
        assert forall|k: Seq<char>| updated.dom().contains(k) <==> slots.dom().contains(k) by {
            assert(updates.take(updates.len() as int) =~= updates);
            lemma_updated(slots, candidates, updates, updates.len(), k);
            assert(updated.contains_key(k) <==> slots.contains_key(k));
        }
    }
    crate::named_map::names_can_be_ordered(updated);
    let order = name_order(updated);
    assert(order.take(order.len() as int) =~= order);
    assert(order.contains(name)) by {
        assert(updated.contains_key(name));
    }
    lemma_selected(
        order,
        |name: Seq<char>| !candidates.contains_key(name),
        order.len(),
        name,
    );
    let missing = missing_names(updated, candidates);
    let j = choose|j: int| 0 <= j < missing.len() && missing[j] == name;
    let gone = retired_with(updated, missing);
    let retired = retired_by_switch(mode, slots, candidates, started);
    assert(retired[j] == gone[j]);
}

proof fn lemma_replaced(
    slots: Map<Seq<char>, SlotView>,
    started: Seq<(Seq<char>, CurrentListenerIdentity)>,
    n: nat,
    j: int,
) -> (at: int)
    requires
        n <= started.len(),
        are_named_apart(started),
        0 <= j < activated(slots, started, n).1.len(),
    ensures
        0 <= at < n,
        slots.contains_key(started[at].0),
        activated(slots, started, n).1[j] == (RetiredView {
            slot_name: Some(started[at].0),
            identity: slots[started[at].0].active.identity(),
        }),
    decreases n,
{
    let (before, earlier) = activated(slots, started, (n - 1) as nat);
    let name = started[n - 1].0;
    if j < earlier.len() {
        lemma_replaced(slots, started, (n - 1) as nat, j)
    } else {
        assert forall|i: int| 0 <= i < n - 1 implies (#[trigger] started[i]).0 != name by {
            assert(started[n - 1].0 == name);
        }
        lemma_untouched(slots, started, (n - 1) as nat, name);
        n - 1
    }
}

/// Nothing else is retired: what is retired is either a listener that the new configuration no longer
/// has, with its slot, or the socket of a listener that was started anew, under its name.
pub proof fn only_what_is_gone_or_replaced_is_retired(
    mode: ApplyMode,
    slots: Map<Seq<char>, SlotView>,
    candidates: Map<Seq<char>, CompiledServeListener>,
    started: Seq<(Seq<char>, CurrentListenerIdentity)>,
    j: int,
)
    requires
        ordered_names(candidates, name_order(candidates)),
        slots.dom().finite(),
        are_named_apart(started),
        0 <= j < retired_by_switch(mode, slots, candidates, started).len(),
    ensures
        ({
            let retired = retired_by_switch(mode, slots, candidates, started)[j];
            match retired.slot_name {
                Some(name) => is_started(started, name) && slots.contains_key(name)
                    && candidates.contains_key(name) && is_identity_of(
                    retired.identity,
                    slots[name].active,
                ),
                None => exists|name: Seq<char>| #[trigger]
                    slots.contains_key(name) && !candidates.contains_key(name) && retired.identity
                        == (if slots[name].serving is Some {
                        slots[name].serving->0
                    } else {
                        slots[name].active.identity()
                    }),
            }
        }),
{
    let updates = update_list(mode, slots, candidates);
    let updated = updated_slots(slots, candidates, updates, updates.len());
    let kept = remaining(updated, candidates);
    let missing = missing_names(updated, candidates);
    let gone = retired_with(updated, missing);
    let replaced = activated(kept, started, started.len()).1;
    let retired = retired_by_switch(mode, slots, candidates, started);
    assert(updates.take(updates.len() as int) =~= updates);
    if j < gone.len() {
        let name = missing[j];
        assert(retired[j] == gone[j]);
        assert(updated.dom() =~= slots.dom()) by {
            assert forall|k: Seq<char>| updated.dom().contains(k) <==> slots.dom().contains(k) by {
                lemma_updated(slots, candidates, updates, updates.len(), k);
                assert(updated.contains_key(k) <==> slots.contains_key(k));
            }
        }
        crate::named_map::names_can_be_ordered(updated);
        let order = name_order(updated);
        assert(order.take(order.len() as int) =~= order);
        lemma_selected(
            order,
            |name: Seq<char>| !candidates.contains_key(name),
            order.len(),
            name,
        );
        assert(missing.contains(name));
        assert(updated.contains_key(name));
        assert(slots.contains_key(name)) by {
            assert(updated.dom().contains(name));
        }
        lemma_in_place(mode, slots, candidates, name);
    } else {
        assert(retired[j] == replaced[j - gone.len()]);
        let at = lemma_replaced(kept, started, started.len(), j - gone.len());
        let name = started[at].0;
        lemma_updated(slots, candidates, updates, updates.len(), name);
        assert(is_started(started, name));
    }
}

/// A listener that could not be started leaves all as it was, but for the failure that is remembered
/// with the listener of its name, where one runs.
pub proof fn failures_are_remembered_with_their_listener(
    run: ApplyRun,
    slots: Map<Seq<char>, SlotView>,
    candidates: Map<Seq<char>, CompiledServeListener>,
    detail: Seq<char>,
    name: Seq<char>,
)
    requires
        run.next() == Some(name),
        slots.contains_key(name),
        candidates.contains_key(name),
    ensures
        ({
            let after = given_up(run, slots, candidates, detail);
            &&& after[name].failed_start matches Some((asked, why))
            &&& why == detail
            &&& is_asked_for(asked, candidates[name])
            &&& after[name].active == slots[name].active
            &&& after[name].draining == slots[name].draining
        }),
{
}

/// What is said of a reload follows from its plan and from how it went: blocked changes come before
/// replacements, and a drain that took too long before one that did not.
pub proof fn reloads_are_told_by_their_plan(plan: ReloadAuditPlan, outcome: ReloadApplyOutcome)
    ensures
        ({
            let blocked = plan.blocked_replacements@.len() > 0;
            let overlaps = plan.supported_replacements@.len() > 0;
            let late = outcome.drain_timed_out_replacements@.len() > 0;
            &&& plan.start_code_text() == (if blocked {
                "reload_started_blocked_candidate"@
            } else if overlaps {
                "reload_started_overlap_drain"@
            } else {
                "reload_started_in_place"@
            })
            &&& plan.success_code_text(outcome) == (if late {
                "reload_applied_overlap_drain_timeout"@
            } else if overlaps {
                "reload_applied_overlap_drain"@
            } else {
                "reload_applied_in_place"@
            })
            &&& plan.failure_code_text() == (if blocked {
                "reload_failed_blocked_change"@
            } else if overlaps {
                "reload_failed_rollback_preserved"@
            } else {
                "reload_failed_apply"@
            })
            &&& outcome.success_code() == (if late {
                "reload_applied_with_drain_timeout"@
            } else {
                "reload_applied"@
            })
        }),
{
}

/// What is said of a warm restart follows from its plan and from how it went. One is late where some
/// drain took too long, and did nothing where nothing was restarted.
pub proof fn restarts_are_told_by_their_plan(
    plan: ReloadAuditPlan,
    outcome: WarmRestartApplyOutcome,
)
    ensures
        ({
            let blocked = plan.blocked_replacements@.len() > 0;
            let overlaps = plan.supported_replacements@.len() > 0;
            let late = outcome.drain_timeout_count > 0
                || outcome.drain_timed_out_replacements@.len() > 0;
            &&& plan.restart_start_code_text() == (if blocked {
                "restart_started_blocked"@
            } else if overlaps {
                "restart_started_overlap_drain"@
            } else {
                "restart_started_noop"@
            })
            &&& plan.restart_success_code_text(outcome) == (if late {
                "restart_applied_overlap_drain_timeout"@
            } else if outcome.restarted_listener_count > 0 {
                "restart_applied_overlap_drain"@
            } else {
                "restart_applied_noop"@
            })
            &&& plan.restart_failure_code_text() == (if blocked {
                "restart_failed_blocked"@
            } else {
                "restart_failed_apply"@
            })
        }),
{
}

} // verus!
