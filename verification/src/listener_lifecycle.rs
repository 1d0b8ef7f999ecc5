//! The life of a listener: which socket is active, which are draining, and which have been
//! retired.

use crate::addr::SocketAddress;
use crate::compile_runtime::CompiledServeListener;
use crate::config::{ListenerBindMode, ListenerClassConfig, ListenerProtocolConfig};
use crate::proxy_protocol::ProxyProtocolModeConfig;
use vstd::prelude::*;

verus! {

/// How many retired sockets, and how many that did not drain in time, are remembered.
pub const MAX_REMEMBERED_IDENTITIES: usize = 4;

/// How the draining of a listener ended.
#[derive(Debug, Clone, Copy, PartialEq, Eq, Structural)]
pub enum ListenerDrainOutcome {
    Completed,
    TimedOut,
}

/// What a listener's socket is, as far as replacing it depends on it.
#[derive(Debug, Clone, Copy, PartialEq, Eq, Structural)]
pub struct ListenerIdentity {
    pub class: ListenerClassConfig,
    pub protocol: ListenerProtocolConfig,
    pub proxy_protocol: ProxyProtocolModeConfig,
    pub configured_bind: SocketAddress,
    pub bind_mode: ListenerBindMode,
}

/// The identity that a compiled listener will have.
pub open spec fn identity_of(spec: CompiledServeListener) -> ListenerIdentity {
    ListenerIdentity {
        class: spec.class,
        protocol: spec.protocol,
        proxy_protocol: spec.proxy_protocol,
        configured_bind: spec.bind_address,
        bind_mode: spec.bind_mode,
    }
}

impl ListenerIdentity {
    /// The identity that a compiled listener will have.
    pub fn from_spec(spec: &CompiledServeListener) -> (r: Self)
        ensures
            r == identity_of(*spec),
    {
        ListenerIdentity {
            class: spec.class,
            protocol: spec.protocol,
            proxy_protocol: spec.proxy_protocol,
            configured_bind: spec.bind_address,
            bind_mode: spec.bind_mode,
        }
    }
}

/// Where an identity stands in the life of a listener.
#[derive(Debug, Clone, Copy, PartialEq, Eq, Structural)]
pub enum ListenerLifecycleState {
    Active,
    Draining,
    Retired,
    FailedStart,
}

/// An identity and where it stands.
#[derive(Debug, Clone, Copy, PartialEq, Eq, Structural)]
pub struct ListenerLifecycleEntry {
    pub identity: ListenerIdentity,
    pub state: ListenerLifecycleState,
}

/// A replacement that could not be started.
#[derive(Debug)]
pub struct FailedListenerStart {
    pub identity: ListenerIdentity,
    pub detail: String,
}

/// The life of a listener.
#[derive(Debug)]
pub struct ListenerLifecycleModel {
    pub desired_identity: ListenerIdentity,
    pub active_identity: Option<ListenerIdentity>,
    pub draining_identities: Vec<ListenerIdentity>,
    pub retired_identities: Vec<ListenerIdentity>,
    pub drain_timed_out_identities: Vec<ListenerIdentity>,
    pub failed_start: Option<FailedListenerStart>,
}

/// A list of at most four with one more at its end; the first gives way in a full one.
pub open spec fn remembered_with(
    list: Seq<ListenerIdentity>,
    identity: ListenerIdentity,
) -> Seq<ListenerIdentity> {
    if list.len() == MAX_REMEMBERED_IDENTITIES {
        list.drop_first().push(identity)
    } else {
        list.push(identity)
    }
}

fn remember(list: &mut Vec<ListenerIdentity>, identity: ListenerIdentity)
    ensures
        final(list)@ == remembered_with(old(list)@, identity),
{
    if list.len() == MAX_REMEMBERED_IDENTITIES {
        let ghost before = list@;
        let _ = list.remove(0);
        proof {
            assert(list@ =~= before.drop_first());
        }
    }
    list.push(identity);
}

/// Where an identity first stands in a list.
pub open spec fn first_place(list: Seq<ListenerIdentity>, identity: ListenerIdentity) -> Option<int>
    decreases list.len(),
{
    if list.len() == 0 {
        None
    } else if list[0] == identity {
        Some(0int)
    } else {
        match first_place(list.drop_first(), identity) {
            Some(i) => Some(i + 1),
            None => None,
        }
    }
}

fn find_place(list: &Vec<ListenerIdentity>, identity: ListenerIdentity) -> (r: Option<usize>)
    ensures
        match first_place(list@, identity) {
            Some(i) => r matches Some(k) && k == i && k < list@.len() && list@[i] == identity,
            None => r is None && !list@.contains(identity),
        },
{
    let mut i: usize = 0;
    proof {
        assert(list@.skip(0) =~= list@);
    }
    while i < list.len()
        invariant
            i <= list@.len(),
            forall|j: int| 0 <= j < i ==> list@[j] != identity,
            match first_place(list@.skip(i as int), identity) {
                Some(k) => first_place(list@, identity) == Some(k + i),
                None => first_place(list@, identity) is None,
            },
        decreases list@.len() - i,
    {
        if list[i] == identity {
            return Some(i);
        }
        proof {
            assert(list@.skip(i as int).drop_first() =~= list@.skip(i + 1));
        }
        i = i + 1;
    }
    None
}

/// Entries of one state for each identity of a list.
pub open spec fn entries_in(list: Seq<ListenerIdentity>, state: ListenerLifecycleState) -> Seq<
    ListenerLifecycleEntry,
> {
    list.map_values(|identity: ListenerIdentity| ListenerLifecycleEntry { identity, state })
}

impl ListenerLifecycleModel {
    /// The remembered lists are short.
    pub open spec fn wf(self) -> bool {
        &&& self.retired_identities@.len() <= MAX_REMEMBERED_IDENTITIES
        &&& self.drain_timed_out_identities@.len() <= MAX_REMEMBERED_IDENTITIES
    }

    /// A listener that has just become active.
    pub fn new_active(identity: ListenerIdentity) -> (r: Self)
        ensures
            r.desired_identity == identity,
            r.active_identity == Some(identity),
            r.draining_identities@.len() == 0,
            r.retired_identities@.len() == 0,
            r.drain_timed_out_identities@.len() == 0,
            r.failed_start is None,
            r.wf(),
    {
        ListenerLifecycleModel {
            desired_identity: identity,
            active_identity: Some(identity),
            draining_identities: Vec::new(),
            retired_identities: Vec::new(),
            drain_timed_out_identities: Vec::new(),
            failed_start: None,
        }
    }

    /// The active identity.
    pub fn active_identity(&self) -> (r: Option<ListenerIdentity>)
        ensures
            r == self.active_identity,
    {
        self.active_identity
    }

    /// Gives the active listener another identity without replacing its socket.
    pub fn apply_in_place(&mut self, identity: ListenerIdentity)
        ensures
            final(self).desired_identity == identity,
            final(self).active_identity == Some(identity),
            final(self).draining_identities == old(self).draining_identities,
            final(self).retired_identities == old(self).retired_identities,
            final(self).drain_timed_out_identities == old(self).drain_timed_out_identities,
            final(self).failed_start is None,
    {
        self.desired_identity = identity;
        self.active_identity = Some(identity);
        self.failed_start = None;
    }

    /// Makes a replacement active; the listener that was active starts to drain.
    pub fn activate_replacement(&mut self, identity: ListenerIdentity) -> (r: Option<
        ListenerIdentity,
    >)
        ensures
            r == old(self).active_identity,
            final(self).desired_identity == identity,
            final(self).active_identity == Some(identity),
            final(self).draining_identities@ == (match old(self).active_identity {
                Some(previous) => old(self).draining_identities@.push(previous),
                None => old(self).draining_identities@,
            }),
            final(self).retired_identities == old(self).retired_identities,
            final(self).drain_timed_out_identities == old(self).drain_timed_out_identities,
            final(self).failed_start is None,
    {
        let previous = self.active_identity;
        self.active_identity = Some(identity);
        match previous {
            Some(previous) => {
                self.draining_identities.push(previous);
            },
            None => {},
        }
        self.desired_identity = identity;
        self.failed_start = None;
        previous
    }

    /// Takes note that a draining listener is gone. Nothing happens for one that does not drain.
    pub fn finish_draining(&mut self, identity: ListenerIdentity, outcome: ListenerDrainOutcome)
        ensures
            final(self).desired_identity == old(self).desired_identity,
            final(self).active_identity == old(self).active_identity,
            final(self).failed_start == old(self).failed_start,
            match first_place(old(self).draining_identities@, identity) {
                Some(i) => {
                    &&& final(self).draining_identities@ == old(self).draining_identities@.remove(i)
                    &&& final(self).retired_identities@ == remembered_with(
                        old(self).retired_identities@,
                        identity,
                    )
                    &&& final(self).drain_timed_out_identities@ == (if outcome is TimedOut {
                        remembered_with(old(self).drain_timed_out_identities@, identity)
                    } else {
                        old(self).drain_timed_out_identities@
                    })
                },
                None => {
                    &&& final(self).draining_identities@ == old(self).draining_identities@
                    &&& final(self).retired_identities@ == old(self).retired_identities@
                    &&& final(self).drain_timed_out_identities@
                        == old(self).drain_timed_out_identities@
                },
            },
            old(self).wf() ==> final(self).wf(),
    {
        match find_place(&self.draining_identities, identity) {
            Some(index) => {
                let retired = self.draining_identities.remove(index);
                remember(&mut self.retired_identities, retired);
                match outcome {
                    ListenerDrainOutcome::TimedOut => {
                        remember(&mut self.drain_timed_out_identities, retired);
                    },
                    ListenerDrainOutcome::Completed => {},
                }
            },
            None => {},
        }
    }

    /// Retires the active listener.
    pub fn retire_active(&mut self) -> (r: Option<ListenerIdentity>)
        ensures
            r == old(self).active_identity,
            final(self).desired_identity == old(self).desired_identity,
            final(self).draining_identities == old(self).draining_identities,
            final(self).drain_timed_out_identities == old(self).drain_timed_out_identities,
            match old(self).active_identity {
                Some(identity) => {
                    &&& final(self).active_identity is None
                    &&& final(self).retired_identities@ == remembered_with(
                        old(self).retired_identities@,
                        identity,
                    )
                    &&& final(self).failed_start is None
                },
                None => *final(self) == *old(self),
            },
            old(self).wf() ==> final(self).wf(),
    {
        match self.active_identity {
            Some(retired) => {
                self.active_identity = None;
                remember(&mut self.retired_identities, retired);
                self.failed_start = None;
                Some(retired)
            },
            None => None,
        }
    }

    /// Takes note of a replacement that could not be started.
    pub fn record_failed_start(&mut self, identity: ListenerIdentity, detail: String)
        ensures
            final(self).desired_identity == old(self).desired_identity,
            final(self).active_identity == old(self).active_identity,
            final(self).draining_identities == old(self).draining_identities,
            final(self).retired_identities == old(self).retired_identities,
            final(self).drain_timed_out_identities == old(self).drain_timed_out_identities,
            final(self).failed_start == Some(FailedListenerStart { identity, detail }),
    {
        self.failed_start = Some(FailedListenerStart { identity, detail });
    }

    /// All identities and where they stand: the active one, those that drain, those that are
    /// retired, and the replacement that could not be started.
    pub open spec fn all_entries(self) -> Seq<ListenerLifecycleEntry> {
        (match self.active_identity {
            Some(identity) => seq![
                ListenerLifecycleEntry { identity, state: ListenerLifecycleState::Active },
            ],
            None => Seq::empty(),
        }) + entries_in(self.draining_identities@, ListenerLifecycleState::Draining) + entries_in(
            self.retired_identities@,
            ListenerLifecycleState::Retired,
        ) + (match self.failed_start {
            Some(failed) => seq![
                ListenerLifecycleEntry {
                    identity: failed.identity,
                    state: ListenerLifecycleState::FailedStart,
                },
            ],
            None => Seq::empty(),
        })
    }

    /// All identities and where they stand.
    pub fn entries(&self) -> (r: Vec<ListenerLifecycleEntry>)
        ensures
            r@ == self.all_entries(),
    {
        let mut out: Vec<ListenerLifecycleEntry> = Vec::new();
        match self.active_identity {
            Some(identity) => {
                out.push(
                    ListenerLifecycleEntry { identity, state: ListenerLifecycleState::Active },
                );
            },
            None => {},
        }
        add_entries(&mut out, &self.draining_identities, ListenerLifecycleState::Draining);
        add_entries(&mut out, &self.retired_identities, ListenerLifecycleState::Retired);
        match &self.failed_start {
            Some(failed) => {
                out.push(
                    ListenerLifecycleEntry {
                        identity: failed.identity,
                        state: ListenerLifecycleState::FailedStart,
                    },
                );
            },
            None => {},
        }
        proof {
            assert(out@ =~= self.all_entries());
        }
        out
    }
}

fn add_entries(
    out: &mut Vec<ListenerLifecycleEntry>,
    list: &Vec<ListenerIdentity>,
    state: ListenerLifecycleState,
)
    ensures
        final(out)@ == old(out)@ + entries_in(list@, state),
{
    let ghost before = out@;
    let mut i: usize = 0;
    proof {
        assert(out@ =~= before + entries_in(list@, state).take(0));
    }
    while i < list.len()
        invariant
            i <= list@.len(),
            out@ == before + entries_in(list@, state).take(i as int),
        decreases list@.len() - i,
    {
        out.push(ListenerLifecycleEntry { identity: list[i], state });
        i = i + 1;
        proof {
            assert(out@ =~= before + entries_in(list@, state).take(i as int));
        }
    }
    proof {
        assert(entries_in(list@, state).take(list@.len() as int) =~= entries_in(list@, state));
    }
}

/// What a running listener's socket is, and where it listens.
#[derive(Debug, Clone, Copy, PartialEq, Eq, Structural)]
pub struct CurrentListenerIdentity {
    pub class: ListenerClassConfig,
    pub protocol: ListenerProtocolConfig,
    pub proxy_protocol: ProxyProtocolModeConfig,
    pub configured_bind: SocketAddress,
    pub bind_mode: ListenerBindMode,
    pub local_addr: SocketAddress,
}

impl CurrentListenerIdentity {
    /// The identity without the address.
    pub open spec fn identity(self) -> ListenerIdentity {
        ListenerIdentity {
            class: self.class,
            protocol: self.protocol,
            proxy_protocol: self.proxy_protocol,
            configured_bind: self.configured_bind,
            bind_mode: self.bind_mode,
        }
    }

    /// Whether the running socket is the one that a compiled listener asks for.
    pub open spec fn matches(self, spec: CompiledServeListener) -> bool {
        self.identity() == identity_of(spec)
    }

    /// Whether a compiled listener's socket can be opened beside the running one.
    pub open spec fn can_stage(self, spec: CompiledServeListener) -> bool {
        spec.bind_address != self.local_addr
    }

    /// The identity without the address.
    pub fn listener_identity(&self) -> (r: ListenerIdentity)
        ensures
            r == self.identity(),
    {
        ListenerIdentity {
            class: self.class,
            protocol: self.protocol,
            proxy_protocol: self.proxy_protocol,
            configured_bind: self.configured_bind,
            bind_mode: self.bind_mode,
        }
    }

    /// Whether the running socket is the one that a compiled listener asks for.
    pub fn matches_spec(&self, spec: &CompiledServeListener) -> (r: bool)
        ensures
            r == self.matches(*spec),
    {
        self.class == spec.class && self.protocol == spec.protocol && self.proxy_protocol
            == spec.proxy_protocol && self.configured_bind == spec.bind_address && self.bind_mode
            == spec.bind_mode
    }

    /// Whether the running socket has to be replaced for a compiled listener.
    pub fn needs_replacement(&self, spec: &CompiledServeListener) -> (r: bool)
        ensures
            r == !self.matches(*spec),
    {
        !self.matches_spec(spec)
    }

    /// Whether a compiled listener's socket can be opened beside the running one.
    pub fn can_stage_replacement(&self, spec: &CompiledServeListener) -> (r: bool)
        ensures
            r == self.can_stage(*spec),
    {
        spec.bind_address != self.local_addr
    }
}

/// A listener under its name: the running socket and the life so far.
#[derive(Debug)]
pub struct ManagedListenerSlot {
    pub lifecycle: ListenerLifecycleModel,
    pub active: CurrentListenerIdentity,
}

/// A listener that no longer takes connections and has to drain. One that was replaced still has
/// its slot.
#[derive(Debug)]
pub struct RetiredListener {
    pub slot_name: Option<String>,
    pub identity: ListenerIdentity,
}

/// What a slot is, as a mathematical value.
#[verifier::ext_equal]
pub struct SlotView {
    pub active: CurrentListenerIdentity,
    pub desired: ListenerIdentity,
    pub serving: Option<ListenerIdentity>,
    pub draining: Seq<ListenerIdentity>,
    pub retired: Seq<ListenerIdentity>,
    pub timed_out: Seq<ListenerIdentity>,
    pub failed_start: Option<(ListenerIdentity, Seq<char>)>,
}

impl DeepView for ManagedListenerSlot {
    type V = SlotView;

    open spec fn deep_view(&self) -> SlotView {
        SlotView {
            active: self.active,
            desired: self.lifecycle.desired_identity,
            serving: self.lifecycle.active_identity,
            draining: self.lifecycle.draining_identities@,
            retired: self.lifecycle.retired_identities@,
            timed_out: self.lifecycle.drain_timed_out_identities@,
            failed_start: match self.lifecycle.failed_start {
                Some(failed) => Some((failed.identity, failed.detail@)),
                None => None,
            },
        }
    }
}

impl SlotView {
    /// The slot of a listener that was just started.
    pub open spec fn fresh(active: CurrentListenerIdentity) -> SlotView {
        SlotView {
            active,
            desired: active.identity(),
            serving: Some(active.identity()),
            draining: Seq::empty(),
            retired: Seq::empty(),
            timed_out: Seq::empty(),
            failed_start: None,
        }
    }

    /// The slot after a compiled listener took effect on the running socket.
    pub open spec fn updated(self, spec: CompiledServeListener) -> SlotView {
        SlotView {
            desired: identity_of(spec),
            serving: Some(identity_of(spec)),
            failed_start: None,
            ..self
        }
    }

    /// The slot after another socket took the place of the running one.
    pub open spec fn replaced(self, replacement: CurrentListenerIdentity) -> SlotView {
        SlotView {
            active: replacement,
            desired: replacement.identity(),
            serving: Some(replacement.identity()),
            draining: match self.serving {
                Some(previous) => self.draining.push(previous),
                None => self.draining,
            },
            failed_start: None,
            ..self
        }
    }

    /// The slot after a draining socket is gone.
    pub open spec fn drained(
        self,
        identity: ListenerIdentity,
        outcome: ListenerDrainOutcome,
    ) -> SlotView {
        match first_place(self.draining, identity) {
            Some(i) => SlotView {
                draining: self.draining.remove(i),
                retired: remembered_with(self.retired, identity),
                timed_out: if outcome is TimedOut {
                    remembered_with(self.timed_out, identity)
                } else {
                    self.timed_out
                },
                ..self
            },
            None => self,
        }
    }

    /// The slot after a replacement could not be started.
    pub open spec fn failed(self, spec: CompiledServeListener, detail: Seq<char>) -> SlotView {
        SlotView { failed_start: Some((identity_of(spec), detail)), ..self }
    }

    /// What is retired together with the slot.
    pub open spec fn last_identity(self) -> ListenerIdentity {
        match self.serving {
            Some(identity) => identity,
            None => self.active.identity(),
        }
    }

    /// What the slot says it serves is what its socket is, and the remembered lists are short.
    pub open spec fn wf(self) -> bool {
        &&& self.serving == Some(self.active.identity())
        &&& self.retired.len() <= MAX_REMEMBERED_IDENTITIES
        &&& self.timed_out.len() <= MAX_REMEMBERED_IDENTITIES
    }
}

/// A retired listener, as a mathematical value.
#[verifier::ext_equal]
pub struct RetiredView {
    pub slot_name: Option<Seq<char>>,
    pub identity: ListenerIdentity,
}

impl DeepView for RetiredListener {
    type V = RetiredView;

    open spec fn deep_view(&self) -> RetiredView {
        RetiredView {
            slot_name: match self.slot_name {
                Some(name) => Some(name@),
                None => None,
            },
            identity: self.identity,
        }
    }
}

impl ManagedListenerSlot {
    /// A slot for a listener that was just started.
    pub fn new(active: CurrentListenerIdentity) -> (r: Self)
        ensures
            r.deep_view() == SlotView::fresh(active),
            r.deep_view().wf(),
    {
        let identity = active.listener_identity();
        let slot = ManagedListenerSlot {
            lifecycle: ListenerLifecycleModel::new_active(identity),
            active,
        };
        proof {
            assert(slot.deep_view() =~= SlotView::fresh(active));
        }
        slot
    }

    /// What the running socket is.
    pub fn current_identity(&self) -> (r: CurrentListenerIdentity)
        ensures
            r == self.active,
    {
        self.active
    }

    /// Whether a compiled listener can take effect on the running socket.
    pub fn can_update_in_place(&self, spec: &CompiledServeListener) -> (r: bool)
        ensures
            r == self.active.matches(*spec),
    {
        self.active.matches_spec(spec)
    }

    /// Takes note that a compiled listener took effect on the running socket.
    pub fn apply_update(&mut self, spec: &CompiledServeListener)
        ensures
            final(self).deep_view() == old(self).deep_view().updated(*spec),
    {
        self.lifecycle.apply_in_place(ListenerIdentity::from_spec(spec));
    }

    /// Puts a replacement in the place of the running socket, which has to drain.
    pub fn activate_replacement(
        &mut self,
        slot_name: String,
        replacement: CurrentListenerIdentity,
    ) -> (r: RetiredListener)
        ensures
            r.slot_name == Some(slot_name),
            r.identity == old(self).active.identity(),
            final(self).deep_view() == old(self).deep_view().replaced(replacement),
    {
        let identity = self.active.listener_identity();
        let _ = self.lifecycle.activate_replacement(replacement.listener_identity());
        self.active = replacement;
        RetiredListener { slot_name: Some(slot_name), identity }
    }

    /// Retires the listener together with its slot.
    pub fn into_retired(self) -> (r: RetiredListener)
        ensures
            r.slot_name is None,
            r.identity == self.deep_view().last_identity(),
    {
        let active = self.active;
        let mut lifecycle = self.lifecycle;
        let identity = match lifecycle.retire_active() {
            Some(identity) => identity,
            None => active.listener_identity(),
        };
        RetiredListener { slot_name: None, identity }
    }

    /// Takes note that a draining socket is gone.
    pub fn finish_draining_with_outcome(
        &mut self,
        identity: ListenerIdentity,
        outcome: ListenerDrainOutcome,
    )
        ensures
            final(self).deep_view() == old(self).deep_view().drained(identity, outcome),
    {
        self.lifecycle.finish_draining(identity, outcome);
    }

    /// Takes note of a replacement that could not be started.
    pub fn record_failed_start(&mut self, spec: &CompiledServeListener, detail: String)
        ensures
            final(self).deep_view() == old(self).deep_view().failed(*spec, detail@),
    {
        self.lifecycle.record_failed_start(ListenerIdentity::from_spec(spec), detail);
    }
}

/// After a replacement and the end of its predecessor's draining, the predecessor is no longer
/// draining and is the latest of those retired.
pub proof fn drained_listeners_are_retired(
    draining: Seq<ListenerIdentity>,
    retired: Seq<ListenerIdentity>,
    previous: ListenerIdentity,
)
    requires
        !draining.contains(previous),
    ensures
        ({
            let during = draining.push(previous);
            &&& first_place(during, previous) matches Some(i) && during.remove(i) == draining
            &&& remembered_with(retired, previous).last() == previous
        }),
{
    lemma_first_place_of_pushed(draining, previous);
    assert(draining.push(previous).remove(draining.len() as int) =~= draining);
}

proof fn lemma_first_place_of_pushed(list: Seq<ListenerIdentity>, identity: ListenerIdentity)
    requires
        !list.contains(identity),
    ensures
        first_place(list.push(identity), identity) == Some(list.len() as int),
    decreases list.len(),
{
    let all = list.push(identity);
    if list.len() == 0 {
        assert(all[0] == identity);
    } else {
        assert(list.contains(list[0]));
        assert(all[0] == list[0]);
        assert(all.drop_first() =~= list.drop_first().push(identity));
        assert(!list.drop_first().contains(identity)) by {
            if list.drop_first().contains(identity) {
                let i = choose|i: int|
                    0 <= i < list.drop_first().len() && list.drop_first()[i] == identity;
                assert(list[i + 1] == identity);
            }
        }
        lemma_first_place_of_pushed(list.drop_first(), identity);
    }
}

} // verus!
