//! One run of putting a compiled configuration in the place of the one that is served. Its new
//! sockets are opened first, one after the other; only when all of them are open does it take
//! effect, and one that cannot be opened leaves everything as it was.

use crate::addr::SocketAddress;
use crate::compile_runtime::{CompiledServeListener, ListenerService, ManagedProxyConfig};
use crate::error::ServeError;
use crate::listener_lifecycle::{
    CurrentListenerIdentity, ManagedListenerSlot, RetiredListener, SlotView,
};
use crate::named_map::{name_order, ordered_names, NamedMap};
use crate::reload_plan::ApplyMode;
use crate::supervisor::{plan_starts, planned_starts};
use crate::switch_over::{
    applied_candidates_are_served, current_identities, identities, lemma_start_list,
    record_failed_start, retired_by_switch, serves, started_as_asked, switch_over, switched_over,
    StartedListener,
};
use crate::text::texts;
use vstd::prelude::*;

verus! {

/// What is opened for a listener.
#[derive(Debug, Clone, Copy, PartialEq, Eq, Structural)]
pub struct StartPlan {
    /// Whether its socket takes datagrams; else it takes streams.
    pub datagrams: bool,
    /// Whether the health of its backends is probed beside it.
    pub probes: bool,
}

/// What is opened for a listener. HTTP/3 runs over datagrams and is not probed, and the
/// administration interface has no backends.
pub fn start_plan(spec: &CompiledServeListener) -> (r: StartPlan)
    ensures
        r.datagrams == (spec.service matches ListenerService::Public(proxy) && proxy is Http3),
        r.probes == (spec.service matches ListenerService::Public(proxy) && !(proxy is Http3)),
{
    match &spec.service {
        ListenerService::Public(proxy) => match proxy {
            ManagedProxyConfig::Http3 { .. } => StartPlan { datagrams: true, probes: false },
            _ => StartPlan { datagrams: false, probes: true },
        },
        ListenerService::Admin { .. } => StartPlan { datagrams: false, probes: false },
    }
}

/// What the socket of a compiled listener is, once it is open at an address.
pub open spec fn opened(
    spec: CompiledServeListener,
    local_addr: SocketAddress,
) -> CurrentListenerIdentity {
    CurrentListenerIdentity {
        class: spec.class,
        protocol: spec.protocol,
        proxy_protocol: spec.proxy_protocol,
        configured_bind: spec.bind_address,
        bind_mode: spec.bind_mode,
        local_addr,
    }
}

/// A run: the listeners that it starts, and those that it has started so far.
#[derive(Debug)]
pub struct ApplyRun {
    pub mode: ApplyMode,
    pub planned: Vec<String>,
    pub started: Vec<StartedListener>,
}

impl ApplyRun {
    /// Whether a run is one from the running sockets to the candidates: it starts what has to be
    /// started, in that order, and each as its compiled listener asks.
    pub open spec fn fits(
        self,
        current: Map<Seq<char>, CurrentListenerIdentity>,
        candidates: Map<Seq<char>, CompiledServeListener>,
    ) -> bool {
        &&& planned_starts(self.mode, current, candidates) == Ok::<Seq<Seq<char>>, Seq<char>>(
            texts(self.planned@),
        )
        &&& self.started@.len() <= self.planned@.len()
        &&& started_as_asked(
            self.started.deep_view(),
            texts(self.planned@).take(self.started@.len() as int),
            candidates,
        )
    }

    /// The name of the listener that is started next.
    pub open spec fn next(self) -> Option<Seq<char>> {
        if self.started@.len() < self.planned@.len() {
            Some(self.planned@[self.started@.len() as int]@)
        } else {
            None
        }
    }

    /// Plans a run. It is refused where some change would need downtime.
    pub fn begin(
        mode: ApplyMode,
        slots: &NamedMap<ManagedListenerSlot>,
        candidates: &NamedMap<CompiledServeListener>,
    ) -> (r: Result<Self, ServeError>)
        ensures
            match planned_starts(mode, identities(slots.deep_view()), candidates@) {
                Ok(names) => {
                    &&& r matches Ok(run)
                    &&& run.mode == mode
                    &&& texts(run.planned@) == names
                    &&& run.started@.len() == 0
                    &&& run.fits(identities(slots.deep_view()), candidates@)
                },
                Err(message) => r matches Err(e) && e.message@ == message,
            },
    {
        let current = current_identities(slots);
        match plan_starts(mode, &current, candidates) {
            Ok(planned) => {
                let run = ApplyRun { mode, planned, started: Vec::new() };
                proof {
                    assert(run.started.deep_view() =~= Seq::empty());
                    assert(texts(run.planned@).take(0) =~= Seq::<Seq<char>>::empty());
                }
                Ok(run)
            },
            Err(error) => Err(error),
        }
    }

    /// The listener that is started next; none once all are.
    pub fn next_start(&self) -> (r: Option<&String>)
        ensures
            match self.next() {
                Some(name) => r matches Some(n) && n@ == name,
                None => r is None,
            },
    {
        if self.started.len() < self.planned.len() {
            Some(&self.planned[self.started.len()])
        } else {
            None
        }
    }

    /// Takes note that the next listener was started, and where it listens. The result says
    /// whether there was one to start.
    pub fn note_started(
        &mut self,
        candidates: &NamedMap<CompiledServeListener>,
        local_addr: SocketAddress,
    ) -> (r: bool)
        ensures
            final(self).mode == old(self).mode,
            final(self).planned == old(self).planned,
            r == (old(self).next() matches Some(name) && candidates@.contains_key(name)),
            final(self).started.deep_view() == (if r {
                let name = old(self).next()->0;
                old(self).started.deep_view().push((name, opened(candidates@[name], local_addr)))
            } else {
                old(self).started.deep_view()
            }),
            forall|current: Map<Seq<char>, CurrentListenerIdentity>| #[trigger]
                old(self).fits(current, candidates@) ==> final(self).fits(current, candidates@) && (
                r <==> old(self).next() is Some),
    {
        let total: usize = candidates.len();
        proof {
            assert forall|current: Map<Seq<char>, CurrentListenerIdentity>|
                #[trigger] self.fits(current, candidates@)
                    && self.next() is Some implies candidates@.contains_key(self.next()->0) by {
                let order = name_order(candidates@);
                let names = texts(self.planned@);
                let name = self.next()->0;
                assert(total == order.len());
                assert(names[self.started@.len() as int] == name);
                assert(names.contains(name));
                assert(order.take(order.len() as int) =~= order);
                lemma_start_list(self.mode, current, candidates@, order, order.len(), name);
            }
        }
        if self.started.len() >= self.planned.len() {
            return false;
        }
        let name = self.planned[self.started.len()].clone();
        let ghost before = *self;
        match candidates.get(name.as_str()) {
            Some(spec) => {
                let identity = CurrentListenerIdentity {
                    class: spec.class,
                    protocol: spec.protocol,
                    proxy_protocol: spec.proxy_protocol,
                    configured_bind: spec.bind_address,
                    bind_mode: spec.bind_mode,
                    local_addr,
                };
                self.started.push(StartedListener { name, identity });
                proof {
                    let list = before.started.deep_view();
                    let names = texts(before.planned@);
                    let n = list.len() as int;
                    assert(self.started.deep_view() =~= list.push((name@, identity)));
                    assert(names.take(n + 1) =~= names.take(n).push(names[n]));
                    assert forall|current: Map<Seq<char>, CurrentListenerIdentity>| #[trigger]
                        before.fits(current, candidates@) implies self.fits(current, candidates@) by {
                        let more = list.push((name@, identity));
                        assert forall|i: int| 0 <= i < more.len() implies (#[trigger] more[i]).0
                            == names.take(n + 1)[i] && more[i].1.matches(
                            candidates@[names.take(n + 1)[i]],
                        ) by {
                            if i < n {
                                assert(more[i] == list[i]);
                                assert(names.take(n)[i] == names.take(n + 1)[i]);
                            }
                        }
                    }
                }
                true
            },
            None => false,
        }
    }

    /// Ends a run whose next listener could not be started, and takes note of that where the
    /// listener has a slot. The result are the listeners that were started and have to be stopped.
    pub fn give_up(
        self,
        slots: &mut NamedMap<ManagedListenerSlot>,
        candidates: &NamedMap<CompiledServeListener>,
        detail: String,
    ) -> (r: Vec<StartedListener>)
        ensures
            r == self.started,
            final(slots).deep_view() == given_up(self, old(slots).deep_view(), candidates@, detail@),
            identities(final(slots).deep_view()) == identities(old(slots).deep_view()),
    {
        if self.started.len() < self.planned.len() {
            let name = &self.planned[self.started.len()];
            match candidates.get(name.as_str()) {
                Some(spec) => {
                    record_failed_start(slots, name, spec, detail);
                },
                None => {},
            }
        }
        self.started
    }

    /// Lets the configuration of a run take effect once all its listeners were started. The result
    /// are the listeners that have to drain. Before that nothing happens.
    pub fn take_effect(
        self,
        slots: &mut NamedMap<ManagedListenerSlot>,
        candidates: &NamedMap<CompiledServeListener>,
    ) -> (r: Option<Vec<RetiredListener>>)
        ensures
            r is Some <==> self.next() is None,
            match r {
                Some(retired) => {
                    &&& final(slots).deep_view() == switched_over(
                        self.mode,
                        old(slots).deep_view(),
                        candidates@,
                        self.started.deep_view(),
                    )
                    &&& retired.deep_view() == retired_by_switch(
                        self.mode,
                        old(slots).deep_view(),
                        candidates@,
                        self.started.deep_view(),
                    )
                },
                None => final(slots).deep_view() == old(slots).deep_view(),
            },
    {
        if self.started.len() < self.planned.len() {
            return None;
        }
        Some(switch_over(self.mode, slots, candidates, &self.started))
    }
}

/// The slots after a run was given up.
pub open spec fn given_up(
    run: ApplyRun,
    slots: Map<Seq<char>, SlotView>,
    candidates: Map<Seq<char>, CompiledServeListener>,
    detail: Seq<char>,
) -> Map<Seq<char>, SlotView> {
    match run.next() {
        Some(name) => if candidates.contains_key(name) && slots.contains_key(name) {
            slots.insert(name, slots[name].failed(candidates[name], detail))
        } else {
            slots
        },
        None => slots,
    }
}

/// A run that took effect serves the candidates, no more and no fewer.
pub proof fn completed_runs_serve_their_candidates(
    run: ApplyRun,
    slots: Map<Seq<char>, SlotView>,
    candidates: Map<Seq<char>, CompiledServeListener>,
)
    requires
        ordered_names(candidates, name_order(candidates)),
        run.fits(identities(slots), candidates),
        run.next() is None,
    ensures
        ({
            let after = switched_over(run.mode, slots, candidates, run.started.deep_view());
            &&& after.dom() == candidates.dom()
            &&& forall|name: Seq<char>| #[trigger]
                candidates.contains_key(name) ==> serves(after[name], candidates[name])
        }),
{
    assert(texts(run.planned@).take(run.started@.len() as int) =~= texts(run.planned@));
    applied_candidates_are_served(run.mode, slots, candidates, run.started.deep_view());
}

/// A run that is given up leaves every listener serving what it served: only the failure is
/// remembered, with the listener that could not be replaced.
pub proof fn abandoned_runs_change_nothing_that_is_served(
    run: ApplyRun,
    slots: Map<Seq<char>, SlotView>,
    candidates: Map<Seq<char>, CompiledServeListener>,
    detail: Seq<char>,
)
    ensures
        ({
            let after = given_up(run, slots, candidates, detail);
            &&& after.dom() == slots.dom()
            &&& forall|name: Seq<char>| #[trigger]
                slots.contains_key(name) ==> after[name] == (SlotView {
                    failed_start: after[name].failed_start,
                    ..slots[name]
                })
            &&& forall|name: Seq<char>| #[trigger]
                slots.contains_key(name) && Some(name) != run.next() ==> after[name] == slots[name]
        }),
{
    let after = given_up(run, slots, candidates, detail);
    assert(after.dom() =~= slots.dom());
}

} // verus!
