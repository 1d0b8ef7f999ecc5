//! The steps of putting a compiled configuration in the place of the one that is served, once its
//! new sockets are open: updates in place, retirements, activations, and the count of drains.

use crate::compile_runtime::CompiledServeListener;
use crate::config::ListenerClassConfig;
use crate::listener_lifecycle::{
    CurrentListenerIdentity, ListenerDrainOutcome, ManagedListenerSlot, RetiredListener,
    RetiredView, SlotView,
};
use crate::named_map::{name_order, names_in_order_are_distinct, ordered_names, NamedMap};
use crate::reload_plan::{ApplyMode, ReloadApplyOutcome};
use crate::supervisor::{
    blocked, blocked_names, chosen_names, decision_on, planned_starts, restart_blocked,
    restart_blocked_names, running, selected, start_list, supported, supported_names,
};
use crate::text::{str_eq, texts};
use vstd::prelude::*;

verus! {

/// The running sockets of slots.
pub open spec fn identities(slots: Map<Seq<char>, SlotView>) -> Map<
    Seq<char>,
    CurrentListenerIdentity,
> {
    slots.map_values(|slot: SlotView| slot.active)
}

/// The running sockets, under the names of their listeners.
pub fn current_identities(slots: &NamedMap<ManagedListenerSlot>) -> (r: NamedMap<
    CurrentListenerIdentity,
>)
    ensures
        r@ == identities(slots.deep_view()),
{
    let ghost names = slots.names();
    let total: usize = slots.len();
    let mut out: NamedMap<CurrentListenerIdentity> = NamedMap::new();
    let mut i: usize = 0;
    while i < total
        invariant
            total == names.len(),
            names == slots.names(),
            ordered_names(slots@, names),
            i <= total,
            forall|k: Seq<char>| #[trigger]
                out@.contains_key(k) <==> names.take(i as int).contains(k),
            forall|k: Seq<char>| #[trigger] out@.contains_key(k) ==> out@[k] == slots@[k].active,
        decreases total - i,
    {
        let name = slots.name_at(i);
        let identity = slots.value_at(i).current_identity();
        let ghost before = out@;
        out.insert(name.clone(), identity);
        proof {
            assert forall|k: Seq<char>| #[trigger]
                out@.contains_key(k) <==> names.take(i + 1).contains(k) by {
                lemma_take_contains(names, i as int, k);
            }
        }
        i = i + 1;
    }
    proof {
        assert(names.take(total as int) =~= names);
        assert(out@ =~= identities(slots.deep_view()));
    }
    out
}

proof fn lemma_take_contains(names: Seq<Seq<char>>, i: int, k: Seq<char>)
    requires
        0 <= i < names.len(),
    ensures
        names.take(i + 1).contains(k) <==> names.take(i).contains(k) || names[i] == k,
{
    let longer = names.take(i + 1);
    let shorter = names.take(i);
    if longer.contains(k) {
        let j = choose|j: int| 0 <= j < longer.len() && longer[j] == k;
        if j < i {
            assert(shorter[j] == k);
        }
    }
    if shorter.contains(k) {
        let j = choose|j: int| 0 <= j < shorter.len() && shorter[j] == k;
        assert(longer[j] == k);
    }
    if names[i] == k {
        assert(longer[i] == k);
    }
}

/// Whether a compiled listener takes effect on the running socket of its name. In a warm restart
/// only administration listeners go on as they are.
pub open spec fn takes_effect_in_place(
    mode: ApplyMode,
    slots: Map<Seq<char>, SlotView>,
    candidates: Map<Seq<char>, CompiledServeListener>,
    name: Seq<char>,
) -> bool {
    &&& slots.contains_key(name)
    &&& mode is Reload || slots[name].active.class is Admin
    &&& slots[name].active.matches(candidates[name])
}

/// The listeners that are updated in place, in the order of their names.
pub open spec fn update_list(
    mode: ApplyMode,
    slots: Map<Seq<char>, SlotView>,
    candidates: Map<Seq<char>, CompiledServeListener>,
) -> Seq<Seq<char>> {
    chosen_names(candidates, |name: Seq<char>| takes_effect_in_place(mode, slots, candidates, name))
}

/// The listeners that are updated in place.
pub fn plan_updates(
    mode: ApplyMode,
    slots: &NamedMap<ManagedListenerSlot>,
    candidates: &NamedMap<CompiledServeListener>,
) -> (r: Vec<String>)
    ensures
        texts(r@) == update_list(mode, slots.deep_view(), candidates@),
{
    let ghost chosen = |name: Seq<char>|
        takes_effect_in_place(mode, slots.deep_view(), candidates@, name);
    let ghost names = candidates.names();
    let mut out: Vec<String> = Vec::new();
    let total: usize = candidates.len();
    let mut i: usize = 0;
    proof {
        assert(texts(out@) =~= selected(names, chosen, 0));
    }
    while i < total
        invariant
            total == names.len(),
            names == candidates.names(),
            i <= total,
            chosen == (|name: Seq<char>|
                takes_effect_in_place(mode, slots.deep_view(), candidates@, name)),
            texts(out@) == selected(names, chosen, i as nat),
        decreases total - i,
    {
        let name = candidates.name_at(i);
        let spec = candidates.value_at(i);
        match slots.get(name.as_str()) {
            Some(slot) => {
                proof {
                    assert(slots.deep_view().contains_key(name@));
                    assert(slots.deep_view()[name@] == slot.deep_view());
                }
                let administration = match slot.active.class {
                    ListenerClassConfig::Admin => true,
                    ListenerClassConfig::Public => false,
                };
                if (!mode.force_replace_matching() || administration) && slot.can_update_in_place(
                    spec,
                ) {
                    let ghost before = out@;
                    out.push(name.clone());
                    proof {
                        assert(texts(out@) =~= texts(before).push(name@));
                    }
                }
            },
            None => {},
        }
        i = i + 1;
    }
    out
}

/// Takes note that a compiled listener took effect on the running socket of its name. Nothing
/// happens where none runs.
pub fn record_update(
    slots: &mut NamedMap<ManagedListenerSlot>,
    name: &String,
    spec: &CompiledServeListener,
)
    ensures
        final(slots).deep_view() == (if old(slots).deep_view().contains_key(name@) {
            old(slots).deep_view().insert(name@, old(slots).deep_view()[name@].updated(*spec))
        } else {
            old(slots).deep_view()
        }),
{
    let ghost before = slots.deep_view();
    match slots.remove(name.as_str()) {
        Some(slot) => {
            let mut slot = slot;
            slot.apply_update(spec);
            slots.insert(name.clone(), slot);
            proof {
                assert(slots.deep_view() =~= before.insert(name@, before[name@].updated(*spec)));
            }
        },
        None => {
            proof {
                assert(slots.deep_view() =~= before);
            }
        },
    }
}

/// The slots after the first `n` of some listeners were updated in place.
pub open spec fn updated_slots(
    slots: Map<Seq<char>, SlotView>,
    candidates: Map<Seq<char>, CompiledServeListener>,
    names: Seq<Seq<char>>,
    n: nat,
) -> Map<Seq<char>, SlotView>
    decreases n,
{
    if n == 0 {
        slots
    } else {
        let before = updated_slots(slots, candidates, names, (n - 1) as nat);
        let name = names[n - 1];
        if before.contains_key(name) {
            before.insert(name, before[name].updated(candidates[name]))
        } else {
            before
        }
    }
}

/// Takes note of a replacement that could not be started. Nothing else about the listeners
/// changes: what was served before is served still.
pub fn record_failed_start(
    slots: &mut NamedMap<ManagedListenerSlot>,
    name: &String,
    spec: &CompiledServeListener,
    detail: String,
)
    ensures
        final(slots).deep_view() == (if old(slots).deep_view().contains_key(name@) {
            old(slots).deep_view().insert(
                name@,
                old(slots).deep_view()[name@].failed(*spec, detail@),
            )
        } else {
            old(slots).deep_view()
        }),
        identities(final(slots).deep_view()) == identities(old(slots).deep_view()),
{
    let ghost before = slots.deep_view();
    match slots.remove(name.as_str()) {
        Some(slot) => {
            let mut slot = slot;
            slot.record_failed_start(spec, detail);
            slots.insert(name.clone(), slot);
            proof {
                assert(slots.deep_view() =~= before.insert(
                    name@,
                    before[name@].failed(*spec, detail@),
                ));
            }
        },
        None => {
            proof {
                assert(slots.deep_view() =~= before);
            }
        },
    }
    proof {
        assert(identities(slots.deep_view()) =~= identities(before));
    }
}

/// The listeners that a candidate configuration no longer has, in the order of their names.
pub open spec fn missing_names(
    slots: Map<Seq<char>, SlotView>,
    candidates: Map<Seq<char>, CompiledServeListener>,
) -> Seq<Seq<char>> {
    selected(
        name_order(slots),
        |name: Seq<char>| !candidates.contains_key(name),
        name_order(slots).len(),
    )
}

/// What is retired together with the slots of some names.
pub open spec fn retired_with(slots: Map<Seq<char>, SlotView>, names: Seq<Seq<char>>) -> Seq<
    RetiredView,
> {
    names.map_values(
        |name: Seq<char>|
            RetiredView { slot_name: None, identity: slots[name].last_identity() },
    )
}

/// The slots that a candidate configuration still has.
pub open spec fn remaining(
    slots: Map<Seq<char>, SlotView>,
    candidates: Map<Seq<char>, CompiledServeListener>,
) -> Map<Seq<char>, SlotView> {
    slots.restrict(candidates.dom())
}

proof fn lemma_selected_is_a_choice(
    names: Seq<Seq<char>>,
    chosen: spec_fn(Seq<char>) -> bool,
    n: nat,
    k: Seq<char>,
)
    requires
        n <= names.len(),
    ensures
        selected(names, chosen, n).contains(k) <==> names.take(n as int).contains(k) && chosen(k),
    decreases n,
{
    if n == 0 {
        assert(names.take(0).len() == 0);
    } else {
        lemma_selected_is_a_choice(names, chosen, (n - 1) as nat, k);
        lemma_take_contains(names, n - 1, k);
        let before = selected(names, chosen, (n - 1) as nat);
        let last = names[n - 1];
        if chosen(last) {
            let now = before.push(last);
            if before.contains(k) {
                let j = choose|j: int| 0 <= j < before.len() && before[j] == k;
                assert(now[j] == k);
            }
            if last == k {
                assert(now[before.len() as int] == k);
            }
            if now.contains(k) {
                let j = choose|j: int| 0 <= j < now.len() && now[j] == k;
                if j < before.len() {
                    assert(before[j] == k);
                }
            }
        }
    }
}

/// Retires the listeners that a candidate configuration no longer has.
pub fn retire_missing(
    slots: &mut NamedMap<ManagedListenerSlot>,
    candidates: &NamedMap<CompiledServeListener>,
) -> (r: Vec<RetiredListener>)
    ensures
        r.deep_view() == retired_with(
            old(slots).deep_view(),
            missing_names(old(slots).deep_view(), candidates@),
        ),
        final(slots).deep_view() == remaining(old(slots).deep_view(), candidates@),
{
    let ghost before = slots.deep_view();
    let ghost chosen = |name: Seq<char>| !candidates@.contains_key(name);
    let ghost names = slots.names();
    let mut gone: Vec<String> = Vec::new();
    let total: usize = slots.len();
    proof {
        assert(ordered_names(before, names)) by {
            assert forall|k: Seq<char>| #[trigger] before.contains_key(k) <==> names.contains(
                k,
            ) by {
                assert(before.contains_key(k) <==> slots@.contains_key(k));
            }
        }
        crate::named_map::order_is_unique(before, names, names);
        assert(texts(gone@) =~= selected(names, chosen, 0));
    }
    let mut i: usize = 0;
    while i < total
        invariant
            total == names.len(),
            names == slots.names(),
            before == slots.deep_view(),
            i <= total,
            chosen == (|name: Seq<char>| !candidates@.contains_key(name)),
            texts(gone@) == selected(names, chosen, i as nat),
        decreases total - i,
    {
        let name = slots.name_at(i);
        if !candidates.contains_key(name.as_str()) {
            let ghost earlier = gone@;
            gone.push(name.clone());
            proof {
                assert(texts(gone@) =~= texts(earlier).push(name@));
            }
        }
        i = i + 1;
    }
    let ghost missing = texts(gone@);
    proof {
        assert(names.take(total as int) =~= names);
        names_in_order_are_distinct(names);
        lemma_selected_distinct(names, chosen, total as nat);
    }
    let mut retired: Vec<RetiredListener> = Vec::new();
    let mut j: usize = 0;
    proof {
        assert(retired.deep_view() =~= retired_with(before, missing).take(0));
        assert(slots.deep_view() =~= before.remove_keys(missing.take(0).to_set()));
        assert forall|k: int| 0 <= k < missing.len() implies before.contains_key(missing[k]) by {
            lemma_selected_is_a_choice(names, chosen, total as nat, missing[k]);
            assert(missing.contains(missing[k]));
        }
    }
    while j < gone.len()
        invariant
            j <= gone@.len(),
            missing == texts(gone@),
            missing.no_duplicates(),
            forall|k: int| 0 <= k < missing.len() ==> before.contains_key(#[trigger] missing[k]),
            retired.deep_view() == retired_with(before, missing).take(j as int),
            slots.deep_view() == before.remove_keys(missing.take(j as int).to_set()),
        decreases gone@.len() - j,
    {
        let name = &gone[j];
        proof {
            assert(missing[j as int] == name@);
            assert(!missing.take(j as int).contains(name@)) by {
                let earlier = missing.take(j as int);
                if earlier.contains(name@) {
                    let k = choose|k: int| 0 <= k < earlier.len() && earlier[k] == name@;
                    assert(missing[k] == missing[j as int]);
                }
            }
            assert(slots.deep_view().contains_key(name@));
        }
        let ghost earlier = slots.deep_view();
        let ghost done = retired.deep_view();
        match slots.remove(name.as_str()) {
            Some(slot) => {
                proof {
                    assert(slot.deep_view() == earlier[name@]);
                }
                let one = slot.into_retired();
                retired.push(one);
                proof {
                    assert(retired.deep_view() =~= done.push(one.deep_view()));
                    assert(retired.deep_view() =~= retired_with(before, missing).take(j + 1));
                }
            },
            None => {},
        }
        proof {
            assert(slots.deep_view() =~= earlier.remove(name@));
            assert forall|k: Seq<char>|
                missing.take(j + 1).to_set().contains(k) <==> missing.take(
                    j as int,
                ).to_set().contains(k) || k == name@ by {
                lemma_take_contains(missing, j as int, k);
            }
            assert(slots.deep_view() =~= before.remove_keys(missing.take(j + 1).to_set()));
        }
        j = j + 1;
    }
    proof {
        assert(missing.take(missing.len() as int) =~= missing);
        assert(retired_with(before, missing).take(missing.len() as int) =~= retired_with(
            before,
            missing,
        ));
        assert forall|k: Seq<char>| before.contains_key(k) implies (missing.to_set().contains(k)
            <==> !candidates@.contains_key(k)) by {
            lemma_selected_is_a_choice(names, chosen, total as nat, k);
        }
        assert(slots.deep_view() =~= remaining(before, candidates@));
    }
    retired
}

proof fn lemma_selected_distinct(
    names: Seq<Seq<char>>,
    chosen: spec_fn(Seq<char>) -> bool,
    n: nat,
)
    requires
        names.no_duplicates(),
        n <= names.len(),
    ensures
        selected(names, chosen, n).no_duplicates(),
    decreases n,
{
    if n > 0 {
        lemma_selected_distinct(names, chosen, (n - 1) as nat);
        let before = selected(names, chosen, (n - 1) as nat);
        let last = names[n - 1];
        if chosen(last) {
            lemma_selected_is_a_choice(names, chosen, (n - 1) as nat, last);
            assert(!before.contains(last)) by {
                let earlier = names.take(n - 1);
                if earlier.contains(last) {
                    let k = choose|k: int| 0 <= k < earlier.len() && earlier[k] == last;
                    assert(names[k] == names[n - 1]);
                }
            }
            let now = before.push(last);
            assert forall|i: int, j: int|
                0 <= i < now.len() && 0 <= j < now.len() && i != j implies now[i] != now[j] by {
                if i < before.len() && j < before.len() {
                } else if i < before.len() {
                    assert(before.contains(before[i]));
                } else {
                    assert(before.contains(before[j]));
                }
            }
        }
    }
}

/// A listener that was just started.
#[derive(Debug)]
pub struct StartedListener {
    pub name: String,
    pub identity: CurrentListenerIdentity,
}

impl DeepView for StartedListener {
    type V = (Seq<char>, CurrentListenerIdentity);

    open spec fn deep_view(&self) -> (Seq<char>, CurrentListenerIdentity) {
        (self.name@, self.identity)
    }
}

/// The slots after the first `n` started listeners became active, and the sockets that they
/// replaced.
pub open spec fn activated(
    slots: Map<Seq<char>, SlotView>,
    started: Seq<(Seq<char>, CurrentListenerIdentity)>,
    n: nat,
) -> (Map<Seq<char>, SlotView>, Seq<RetiredView>)
    decreases n,
{
    if n == 0 {
        (slots, Seq::empty())
    } else {
        let (before, retired) = activated(slots, started, (n - 1) as nat);
        let (name, identity) = started[n - 1];
        if before.contains_key(name) {
            (
                before.insert(name, before[name].replaced(identity)),
                retired.push(
                    RetiredView {
                        slot_name: Some(name),
                        identity: before[name].active.identity(),
                    },
                ),
            )
        } else {
            (before.insert(name, SlotView::fresh(identity)), retired)
        }
    }
}

/// Makes started listeners active. The sockets that they replace have to drain.
pub fn activate_started(
    slots: &mut NamedMap<ManagedListenerSlot>,
    started: &Vec<StartedListener>,
) -> (r: Vec<RetiredListener>)
    ensures
        activated(old(slots).deep_view(), started.deep_view(), started@.len()) == (
            final(slots).deep_view(),
            r.deep_view(),
        ),
{
    let ghost first = slots.deep_view();
    let ghost list = started.deep_view();
    let mut retired: Vec<RetiredListener> = Vec::new();
    let mut i: usize = 0;
    proof {
        assert(retired.deep_view() =~= Seq::empty());
    }
    while i < started.len()
        invariant
            i <= started@.len(),
            list == started.deep_view(),
            activated(first, list, i as nat) == (slots.deep_view(), retired.deep_view()),
        decreases started@.len() - i,
    {
        let name = &started[i].name;
        let identity = started[i].identity;
        let ghost before = slots.deep_view();
        let ghost done = retired.deep_view();
        proof {
            assert(list[i as int] == (name@, identity));
        }
        match slots.remove(name.as_str()) {
            Some(slot) => {
                let mut slot = slot;
                proof {
                    assert(before.contains_key(name@));
                    assert(before[name@] == slot.deep_view());
                }
                let one = slot.activate_replacement(name.clone(), identity);
                slots.insert(name.clone(), slot);
                retired.push(one);
                proof {
                    assert(slots.deep_view() =~= before.insert(
                        name@,
                        before[name@].replaced(identity),
                    ));
                    assert(retired.deep_view() =~= done.push(one.deep_view()));
                }
            },
            None => {
                slots.insert(name.clone(), ManagedListenerSlot::new(identity));
                proof {
                    assert(!before.contains_key(name@));
                    assert(slots.deep_view() =~= before.insert(name@, SlotView::fresh(identity)));
                }
            },
        }
        i = i + 1;
    }
    retired
}

fn add_one(n: usize) -> (r: usize)
    ensures
        r == counted_up(n),
{
    if n == usize::MAX {
        usize::MAX
    } else {
        n + 1
    }
}

/// One more, as far as it can be counted.
pub open spec fn counted_up(n: usize) -> usize {
    if n == usize::MAX {
        usize::MAX
    } else {
        (n + 1) as usize
    }
}

/// The names of the replaced listeners that did not drain in time, after one more drain. A name
/// stands there once.
pub open spec fn timed_out_names(
    names: Seq<Seq<char>>,
    slot_name: Option<Seq<char>>,
    drain: ListenerDrainOutcome,
) -> Seq<Seq<char>> {
    match slot_name {
        Some(name) => if drain is TimedOut && !names.contains(name) {
            names.push(name)
        } else {
            names
        },
        None => names,
    }
}

/// Takes note of the end of a retired listener: in the outcome of the change, and in the slot of
/// the listener that replaced it.
pub fn record_drain(
    outcome: &mut ReloadApplyOutcome,
    slots: &mut NamedMap<ManagedListenerSlot>,
    retired: &RetiredListener,
    drain: ListenerDrainOutcome,
)
    ensures
        final(outcome).drained_listener_count == counted_up(old(outcome).drained_listener_count),
        final(outcome).completed_drain_count == (if drain is Completed {
            counted_up(old(outcome).completed_drain_count)
        } else {
            old(outcome).completed_drain_count
        }),
        final(outcome).drain_timeout_count == (if drain is TimedOut {
            counted_up(old(outcome).drain_timeout_count)
        } else {
            old(outcome).drain_timeout_count
        }),
        texts(final(outcome).drain_timed_out_replacements@) == timed_out_names(
            texts(old(outcome).drain_timed_out_replacements@),
            retired.deep_view().slot_name,
            drain,
        ),
        final(slots).deep_view() == (match retired.deep_view().slot_name {
            Some(name) => if old(slots).deep_view().contains_key(name) {
                old(slots).deep_view().insert(
                    name,
                    old(slots).deep_view()[name].drained(retired.identity, drain),
                )
            } else {
                old(slots).deep_view()
            },
            None => old(slots).deep_view(),
        }),
        old(outcome).drained_listener_count < usize::MAX && old(outcome).completed_drain_count
            + old(outcome).drain_timeout_count == old(outcome).drained_listener_count
            ==> final(outcome).completed_drain_count + final(outcome).drain_timeout_count
            == final(outcome).drained_listener_count,
{
    let ghost before = slots.deep_view();
    outcome.drained_listener_count = add_one(outcome.drained_listener_count);
    match drain {
        ListenerDrainOutcome::Completed => {
            outcome.completed_drain_count = add_one(outcome.completed_drain_count);
        },
        ListenerDrainOutcome::TimedOut => {
            outcome.drain_timeout_count = add_one(outcome.drain_timeout_count);
        },
    }
    match &retired.slot_name {
        Some(name) => {
            match slots.remove(name.as_str()) {
                Some(slot) => {
                    let mut slot = slot;
                    slot.finish_draining_with_outcome(retired.identity, drain);
                    slots.insert(name.clone(), slot);
                    proof {
                        assert(slots.deep_view() =~= before.insert(
                            name@,
                            before[name@].drained(retired.identity, drain),
                        ));
                    }
                },
                None => {
                    proof {
                        assert(slots.deep_view() =~= before);
                    }
                },
            }
            let timed_out = match drain {
                ListenerDrainOutcome::TimedOut => true,
                ListenerDrainOutcome::Completed => false,
            };
            if timed_out && !holds_text(&outcome.drain_timed_out_replacements, name.as_str()) {
                let ghost names = outcome.drain_timed_out_replacements@;
                outcome.drain_timed_out_replacements.push(name.clone());
                proof {
                    assert(texts(outcome.drain_timed_out_replacements@) =~= texts(names).push(
                        name@,
                    ));
                }
            }
        },
        None => {},
    }
}

/// Whether a list has a text.
pub fn holds_text(list: &Vec<String>, s: &str) -> (r: bool)
    ensures
        r == texts(list@).contains(s@),
{
    let ghost all = texts(list@);
    let mut i: usize = 0;
    while i < list.len()
        invariant
            i <= list@.len(),
            all == texts(list@),
            forall|j: int| 0 <= j < i ==> all[j] != s@,
        decreases list@.len() - i,
    {
        proof {
            assert(all[i as int] == list@[i as int]@);
        }
        if str_eq(list[i].as_str(), s) {
            return true;
        }
        i = i + 1;
    }
    false
}

/// Retires all listeners.
pub fn retire_all(slots: &mut NamedMap<ManagedListenerSlot>) -> (r: Vec<RetiredListener>)
    ensures
        r.deep_view() == retired_with(
            old(slots).deep_view(),
            missing_names(old(slots).deep_view(), Map::<Seq<char>, CompiledServeListener>::empty()),
        ),
        final(slots).deep_view() == Map::<Seq<char>, SlotView>::empty(),
{
    let none: NamedMap<CompiledServeListener> = NamedMap::new();
    let retired = retire_missing(slots, &none);
    proof {
        assert(slots.deep_view() =~= Map::<Seq<char>, SlotView>::empty());
    }
    retired
}

proof fn lemma_updated_slots(
    slots: Map<Seq<char>, SlotView>,
    candidates: Map<Seq<char>, CompiledServeListener>,
    names: Seq<Seq<char>>,
    n: nat,
    k: Seq<char>,
)
    requires
        n <= names.len(),
    ensures
        updated_slots(slots, candidates, names, n).contains_key(k) <==> slots.contains_key(k),
        slots.contains_key(k) ==> updated_slots(slots, candidates, names, n)[k] == (
        if names.take(n as int).contains(k) {
            slots[k].updated(candidates[k])
        } else {
            slots[k]
        }),
    decreases n,
{
    if n == 0 {
        assert(names.take(0).len() == 0);
    } else {
        lemma_updated_slots(slots, candidates, names, (n - 1) as nat, k);
        lemma_take_contains(names, n - 1, k);
    }
}

pub(crate) proof fn lemma_start_list(
    mode: ApplyMode,
    current: Map<Seq<char>, CurrentListenerIdentity>,
    candidates: Map<Seq<char>, CompiledServeListener>,
    order: Seq<Seq<char>>,
    n: nat,
    k: Seq<char>,
)
    requires
        n <= order.len(),
        start_list(mode, current, candidates, order, n) is Ok,
    ensures
        start_list(mode, current, candidates, order, n)->Ok_0.contains(k) <==> order.take(
            n as int,
        ).contains(k) && decision_on(mode, current, candidates, k) is Start,
        order.take(n as int).contains(k) ==> decision_on(mode, current, candidates, k) is Start
            || decision_on(mode, current, candidates, k) is Keep,
    decreases n,
{
    if n == 0 {
        assert(order.take(0).len() == 0);
    } else {
        lemma_start_list(mode, current, candidates, order, (n - 1) as nat, k);
        lemma_take_contains(order, n - 1, k);
        let before = start_list(mode, current, candidates, order, (n - 1) as nat)->Ok_0;
        let last = order[n - 1];
        if decision_on(mode, current, candidates, last) is Start {
            let now = before.push(last);
            if before.contains(k) {
                let j = choose|j: int| 0 <= j < before.len() && before[j] == k;
                assert(now[j] == k);
            }
            if last == k {
                assert(now[before.len() as int] == k);
            }
            if now.contains(k) {
                let j = choose|j: int| 0 <= j < now.len() && now[j] == k;
                if j < before.len() {
                    assert(before[j] == k);
                }
            }
        }
    }
}

/// Whether a slot serves a compiled listener and nothing of an earlier failure is left.
pub open spec fn serves(slot: SlotView, spec: CompiledServeListener) -> bool {
    &&& slot.active.matches(spec)
    &&& slot.serving == Some(slot.active.identity())
    &&& slot.desired == slot.active.identity()
    &&& slot.failed_start is None
}

/// Whether started listeners are those of some names, each with the socket that its compiled
/// listener asks for.
pub open spec fn started_as_asked(
    started: Seq<(Seq<char>, CurrentListenerIdentity)>,
    names: Seq<Seq<char>>,
    candidates: Map<Seq<char>, CompiledServeListener>,
) -> bool {
    &&& started.len() == names.len()
    &&& forall|i: int|
        0 <= i < started.len() ==> (#[trigger] started[i]).0 == names[i] && started[i].1.matches(
            candidates[names[i]],
        )
}

proof fn lemma_activated(
    slots: Map<Seq<char>, SlotView>,
    started: Seq<(Seq<char>, CurrentListenerIdentity)>,
    names: Seq<Seq<char>>,
    candidates: Map<Seq<char>, CompiledServeListener>,
    n: nat,
    k: Seq<char>,
)
    requires
        started_as_asked(started, names, candidates),
        n <= started.len(),
    ensures
        ({
            let after = activated(slots, started, n).0;
            &&& after.contains_key(k) <==> slots.contains_key(k) || names.take(n as int).contains(k)
            &&& names.take(n as int).contains(k) ==> serves(after[k], candidates[k])
            &&& !names.take(n as int).contains(k) && slots.contains_key(k) ==> after[k] == slots[k]
        }),
    decreases n,
{
    if n == 0 {
        assert(names.take(0).len() == 0);
    } else {
        lemma_activated(slots, started, names, candidates, (n - 1) as nat, k);
        lemma_take_contains(names, n - 1, k);
        assert(started[n - 1].0 == names[n - 1]);
    }
}

/// The slots after a compiled configuration took the place of the one that was served.
pub open spec fn switched_over(
    mode: ApplyMode,
    slots: Map<Seq<char>, SlotView>,
    candidates: Map<Seq<char>, CompiledServeListener>,
    started: Seq<(Seq<char>, CurrentListenerIdentity)>,
) -> Map<Seq<char>, SlotView> {
    let updates = update_list(mode, slots, candidates);
    let updated = updated_slots(slots, candidates, updates, updates.len());
    activated(remaining(updated, candidates), started, started.len()).0
}

/// What is retired when a compiled configuration takes the place of the one that was served: first
/// the listeners that it no longer has, then the sockets that were replaced.
pub open spec fn retired_by_switch(
    mode: ApplyMode,
    slots: Map<Seq<char>, SlotView>,
    candidates: Map<Seq<char>, CompiledServeListener>,
    started: Seq<(Seq<char>, CurrentListenerIdentity)>,
) -> Seq<RetiredView> {
    let updates = update_list(mode, slots, candidates);
    let updated = updated_slots(slots, candidates, updates, updates.len());
    retired_with(updated, missing_names(updated, candidates)) + activated(
        remaining(updated, candidates),
        started,
        started.len(),
    ).1
}

fn record_updates(
    slots: &mut NamedMap<ManagedListenerSlot>,
    candidates: &NamedMap<CompiledServeListener>,
    names: &Vec<String>,
)
    requires
        forall|i: int| 0 <= i < names@.len() ==> candidates@.contains_key((#[trigger] names@[i])@),
    ensures
        final(slots).deep_view() == updated_slots(
            old(slots).deep_view(),
            candidates@,
            texts(names@),
            names@.len(),
        ),
{
    let ghost first = slots.deep_view();
    let ghost all = texts(names@);
    let mut i: usize = 0;
    while i < names.len()
        invariant
            i <= names@.len(),
            all == texts(names@),
            forall|j: int|
                0 <= j < names@.len() ==> candidates@.contains_key((#[trigger] names@[j])@),
            slots.deep_view() == updated_slots(first, candidates@, all, i as nat),
        decreases names@.len() - i,
    {
        proof {
            assert(all[i as int] == names@[i as int]@);
        }
        match candidates.get(names[i].as_str()) {
            Some(spec) => {
                record_update(slots, &names[i], spec);
            },
            None => {},
        }
        i = i + 1;
    }
}

fn append_retired(list: &mut Vec<RetiredListener>, more: Vec<RetiredListener>)
    ensures
        final(list).deep_view() == old(list).deep_view() + more.deep_view(),
{
    let ghost before = list.deep_view();
    let ghost added = more.deep_view();
    let mut more = more;
    let ghost old_list = list@;
    let ghost old_more = more@;
    list.append(&mut more);
    proof {
        assert(list@ == old_list + old_more);
        assert(list.deep_view() =~= before + added);
    }
}

/// Puts a compiled configuration in the place of the one that is served, once its listeners were
/// started and those that go on were updated. The result are the listeners that have to drain.
pub fn switch_over(
    mode: ApplyMode,
    slots: &mut NamedMap<ManagedListenerSlot>,
    candidates: &NamedMap<CompiledServeListener>,
    started: &Vec<StartedListener>,
) -> (r: Vec<RetiredListener>)
    ensures
        final(slots).deep_view() == switched_over(
            mode,
            old(slots).deep_view(),
            candidates@,
            started.deep_view(),
        ),
        r.deep_view() == retired_by_switch(
            mode,
            old(slots).deep_view(),
            candidates@,
            started.deep_view(),
        ),
{
    let ghost first = slots.deep_view();
    let updates = plan_updates(mode, slots, candidates);
    let total: usize = candidates.len();
    proof {
        let order = name_order(candidates@);
        let in_place = |name: Seq<char>| takes_effect_in_place(mode, first, candidates@, name);
        assert(total == order.len());
        assert(order.take(order.len() as int) =~= order);
        assert forall|i: int| 0 <= i < updates@.len() implies candidates@.contains_key(
            (#[trigger] updates@[i])@,
        ) by {
            let name = updates@[i]@;
            assert(texts(updates@)[i] == name);
            assert(texts(updates@).contains(name));
            lemma_selected_is_a_choice(order, in_place, order.len(), name);
        }
    }
    record_updates(slots, candidates, &updates);
    let mut retired = retire_missing(slots, candidates);
    let replaced = activate_started(slots, started);
    append_retired(&mut retired, replaced);
    retired
}

/// Where nothing is blocked and every planned listener could be started, the listeners afterwards
/// are those of the candidate configuration, no more and no fewer, and each serves what its
/// compiled listener asks for.
pub proof fn applied_candidates_are_served(
    mode: ApplyMode,
    slots: Map<Seq<char>, SlotView>,
    candidates: Map<Seq<char>, CompiledServeListener>,
    started: Seq<(Seq<char>, CurrentListenerIdentity)>,
)
    requires
        ordered_names(candidates, name_order(candidates)),
        planned_starts(mode, identities(slots), candidates) is Ok,
        started_as_asked(
            started,
            planned_starts(mode, identities(slots), candidates)->Ok_0,
            candidates,
        ),
    ensures
        switched_over(mode, slots, candidates, started).dom() == candidates.dom(),
        forall|name: Seq<char>| #[trigger]
            candidates.contains_key(name) ==> serves(
                switched_over(mode, slots, candidates, started)[name],
                candidates[name],
            ),
{
    let after = switched_over(mode, slots, candidates, started);
    let current = identities(slots);
    let order = name_order(candidates);
    let names = planned_starts(mode, current, candidates)->Ok_0;
    let updates = update_list(mode, slots, candidates);
    let updated = updated_slots(slots, candidates, updates, updates.len());
    let kept = remaining(updated, candidates);
    let in_place = |name: Seq<char>| takes_effect_in_place(mode, slots, candidates, name);
    assert(order.take(order.len() as int) =~= order);
    assert(updates.take(updates.len() as int) =~= updates);
    assert(names.take(names.len() as int) =~= names);
    assert forall|k: Seq<char>| #[trigger]
        after.contains_key(k) <==> candidates.contains_key(k) by {
        lemma_activated(kept, started, names, candidates, started.len(), k);
        lemma_start_list(mode, current, candidates, order, order.len(), k);
        lemma_updated_slots(slots, candidates, updates, updates.len(), k);
        assert(candidates.contains_key(k) <==> order.contains(k));
        if candidates.contains_key(k) && !slots.contains_key(k) {
            assert(running(current, k) is None);
        }
    }
    assert(after.dom() =~= candidates.dom()) by {
        assert forall|k: Seq<char>| after.dom().contains(k) <==> candidates.dom().contains(k) by {
            assert(after.contains_key(k) <==> candidates.contains_key(k));
        }
    }
    assert forall|k: Seq<char>| #[trigger] candidates.contains_key(k) implies serves(
        after[k],
        candidates[k],
    ) by {
        lemma_activated(kept, started, names, candidates, started.len(), k);
        lemma_start_list(mode, current, candidates, order, order.len(), k);
        lemma_updated_slots(slots, candidates, updates, updates.len(), k);
        lemma_selected_is_a_choice(order, in_place, order.len(), k);
        assert(order.contains(k));
        if !names.contains(k) {
            assert(decision_on(mode, current, candidates, k) is Keep);
            assert(slots.contains_key(k));
            assert(current[k] == slots[k].active);
            assert(in_place(k));
        }
    }
}

proof fn lemma_blocked_prefix(
    current: Map<Seq<char>, CurrentListenerIdentity>,
    candidates: Map<Seq<char>, CompiledServeListener>,
    order: Seq<Seq<char>>,
    n: nat,
)
    requires
        n <= order.len(),
        forall|i: int| 0 <= i < order.len() ==> candidates.contains_key(#[trigger] order[i]),
    ensures
        start_list(ApplyMode::Reload, current, candidates, order, n) is Err <==> selected(
            order,
            |name: Seq<char>| blocked(current, candidates, name),
            n,
        ).len() > 0,
    decreases n,
{
    if n > 0 {
        lemma_blocked_prefix(current, candidates, order, (n - 1) as nat);
        assert(candidates.contains_key(order[n - 1]));
    }
}

/// A reload is refused before anything is started if and only if some listener would have to be
/// retired before its replacement can start.
pub proof fn reload_is_refused_where_blocked(
    current: Map<Seq<char>, CurrentListenerIdentity>,
    candidates: Map<Seq<char>, CompiledServeListener>,
)
    requires
        ordered_names(candidates, name_order(candidates)),
    ensures
        planned_starts(ApplyMode::Reload, current, candidates) is Err <==> blocked_names(
            current,
            candidates,
        ).len() > 0,
{
    let order = name_order(candidates);
    assert forall|i: int| 0 <= i < order.len() implies candidates.contains_key(
        #[trigger] order[i],
    ) by {
        assert(order.contains(order[i]));
    }
    lemma_blocked_prefix(current, candidates, order, order.len());
}

proof fn lemma_restart_blocked_prefix(
    current: Map<Seq<char>, CurrentListenerIdentity>,
    candidates: Map<Seq<char>, CompiledServeListener>,
    order: Seq<Seq<char>>,
    n: nat,
)
    requires
        n <= order.len(),
        forall|i: int| 0 <= i < order.len() ==> candidates.contains_key(#[trigger] order[i]),
    ensures
        start_list(ApplyMode::WarmRestart, current, candidates, order, n) is Err <==> selected(
            order,
            |name: Seq<char>| restart_blocked(current, candidates, name),
            n,
        ).len() > 0 || selected(
            order,
            |name: Seq<char>| administration_blocked(current, candidates, name),
            n,
        ).len() > 0,
    decreases n,
{
    if n > 0 {
        lemma_restart_blocked_prefix(current, candidates, order, (n - 1) as nat);
        assert(candidates.contains_key(order[n - 1]));
    }
}

/// Whether a running administration listener would have to be retired before its replacement can
/// start.
pub open spec fn administration_blocked(
    current: Map<Seq<char>, CurrentListenerIdentity>,
    candidates: Map<Seq<char>, CompiledServeListener>,
    name: Seq<char>,
) -> bool {
    blocked(current, candidates, name) && current[name].class is Admin
}

/// A warm restart is refused before anything is started if and only if some public listener cannot
/// be opened beside itself, or some administration listener that changes cannot be replaced.
pub proof fn restart_is_refused_where_blocked(
    current: Map<Seq<char>, CurrentListenerIdentity>,
    candidates: Map<Seq<char>, CompiledServeListener>,
)
    requires
        ordered_names(candidates, name_order(candidates)),
    ensures
        planned_starts(ApplyMode::WarmRestart, current, candidates) is Err
            <==> restart_blocked_names(current, candidates).len() > 0 || chosen_names(
            candidates,
            |name: Seq<char>| administration_blocked(current, candidates, name),
        ).len() > 0,
{
    let order = name_order(candidates);
    assert forall|i: int| 0 <= i < order.len() implies candidates.contains_key(
        #[trigger] order[i],
    ) by {
        assert(order.contains(order[i]));
    }
    lemma_restart_blocked_prefix(current, candidates, order, order.len());
}

/// A running listener that has to be replaced is named either among those that are replaced while
/// they drain or among those that block the change, and never among both.
pub proof fn replacements_are_named_once(
    current: Map<Seq<char>, CurrentListenerIdentity>,
    candidates: Map<Seq<char>, CompiledServeListener>,
    name: Seq<char>,
)
    requires
        ordered_names(candidates, name_order(candidates)),
        current.contains_key(name),
        candidates.contains_key(name),
    ensures
        !current[name].matches(candidates[name]) <==> supported_names(
            current,
            candidates,
        ).contains(name) || blocked_names(current, candidates).contains(name),
        !(supported_names(current, candidates).contains(name) && blocked_names(
            current,
            candidates,
        ).contains(name)),
{
    let order = name_order(candidates);
    assert(order.take(order.len() as int) =~= order);
    assert(order.contains(name));
    lemma_selected_is_a_choice(
        order,
        |name: Seq<char>| supported(current, candidates, name),
        order.len(),
        name,
    );
    lemma_selected_is_a_choice(
        order,
        |name: Seq<char>| blocked(current, candidates, name),
        order.len(),
        name,
    );
}

} // verus!
