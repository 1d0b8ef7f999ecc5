//! Whether the listeners are ready to serve, and why not.

use crate::addr::SocketAddress;
use crate::config::{ListenerClassConfig, ListenerProtocolConfig};
use crate::json::{bool_json, escaped, put_bool, put_escaped, put_quoted_list, quoted_list};
use crate::listener_status::{
    class_name, health_name, listener_class_name, listener_protocol_name, protocol_name,
    push_unique_reason, reload_health_name, with_reason, with_reason_if, ListenerStatus,
    ReloadHealthState,
};
use crate::text::{join, joined, str_eq, text, texts};
use vstd::prelude::*;
use vstd::string::*;

verus! {

/// Whether a listener is ready, as it is reported.
#[derive(Debug)]
pub struct ListenerReadinessStatus {
    pub name: String,
    pub class: ListenerClassConfig,
    pub protocol: ListenerProtocolConfig,
    pub configured_bind: SocketAddress,
    pub ready: bool,
    pub status: String,
    pub reason_codes: Vec<String>,
}

/// Whether the listeners together are ready, as it is reported.
#[derive(Debug)]
pub struct WorkspaceReadinessStatus {
    pub ready: bool,
    pub status: String,
    pub evaluated_listener_scope: String,
    pub reload_status: String,
    pub reason_codes: Vec<String>,
    pub listeners: Vec<ListenerReadinessStatus>,
}

/// The word for being ready or not.
pub open spec fn ready_word(ready: bool) -> Seq<char> {
    if ready {
        "ready"@
    } else {
        "not_ready"@
    }
}

fn ready_text(ready: bool) -> (r: String)
    ensures
        r@ == ready_word(ready),
{
    if ready {
        text("ready")
    } else {
        text("not_ready")
    }
}

/// Reasons with those that the first `n` codes of hostile-edge protection give.
pub open spec fn with_abuse_reasons(
    reasons: Seq<Seq<char>>,
    codes: Seq<Seq<char>>,
    n: nat,
) -> Seq<Seq<char>>
    decreases n,
{
    if n == 0 {
        reasons
    } else {
        let before = with_abuse_reasons(reasons, codes, (n - 1) as nat);
        if codes[n - 1] == "tracked_source_capacity_saturated"@ {
            with_reason(before, "listener_abuse_source_tracking_saturated"@)
        } else if codes[n - 1] == "handshake_guard_saturated"@ {
            with_reason(before, "listener_abuse_handshake_saturated"@)
        } else {
            before
        }
    }
}

/// The reason that a listener's state gives for not being ready.
pub open spec fn state_reasons(state: Seq<char>) -> Seq<Seq<char>> {
    let none: Seq<Seq<char>> = Seq::empty();
    if state == "running"@ {
        none
    } else if state == "draining"@ {
        with_reason(none, "listener_draining"@)
    } else {
        with_reason(none, "listener_not_running"@)
    }
}

/// Reasons with the one that a listener's load gives.
pub open spec fn with_overload_reason(
    reasons: Seq<Seq<char>>,
    overload_state: Seq<char>,
) -> Seq<Seq<char>> {
    if overload_state == "shedding"@ {
        with_reason(reasons, "listener_overload_shedding"@)
    } else if overload_state == "brownout"@ {
        with_reason(reasons, "listener_overload_brownout"@)
    } else {
        reasons
    }
}

/// Why a listener is not ready.
pub open spec fn listener_reasons(listener: ListenerStatus) -> Seq<Seq<char>> {
    let overload = with_overload_reason(
        state_reasons(listener.state@),
        listener.overload_state@,
    );
    let replacement = with_reason_if(
        overload,
        listener.replacement.failed_start is Some || listener.replacement.state@
            == "failed_start_preserved"@,
        "listener_replacement_failed"@,
    );
    with_abuse_reasons(
        replacement,
        texts(listener.abuse_protection.reason_codes@),
        listener.abuse_protection.reason_codes@.len(),
    )
}

impl ListenerReadinessStatus {
    /// Whether this says of a listener whether it is ready: it is if and only if there is no
    /// reason against it.
    pub open spec fn reduces(self, listener: ListenerStatus) -> bool {
        &&& self.name == listener.name
        &&& self.class == listener.class
        &&& self.protocol == listener.protocol
        &&& self.configured_bind == listener.configured_bind
        &&& texts(self.reason_codes@) == listener_reasons(listener)
        &&& self.ready == (listener_reasons(listener).len() == 0)
        &&& self.status@ == ready_word(self.ready)
    }

    /// The report as a JSON object.
    pub open spec fn json(self) -> Seq<char> {
        "{\"name\":\""@ + escaped(self.name@) + "\",\"class\":\""@ + class_name(self.class)
            + "\",\"protocol\":\""@ + protocol_name(self.protocol) + "\",\"configured_bind\":\""@
            + self.configured_bind.written() + "\",\"ready\":"@ + bool_json(self.ready)
            + ",\"status\":\""@ + escaped(self.status@) + "\",\"reason_codes\":["@ + quoted_list(
            texts(self.reason_codes@),
        ) + "]}"@
    }

    /// The report as a JSON object.
    pub fn to_json(&self) -> (r: String)
        ensures
            r@ == self.json(),
    {
        let mut out = text("{\"name\":\"");
        put_escaped(&mut out, self.name.as_str());
        out.append("\",\"class\":\"");
        out.append(listener_class_name(self.class));
        out.append("\",\"protocol\":\"");
        out.append(listener_protocol_name(self.protocol));
        out.append("\",\"configured_bind\":\"");
        let address = self.configured_bind.to_text();
        out.append(address.as_str());
        out.append("\",\"ready\":");
        put_bool(&mut out, self.ready);
        out.append(",\"status\":\"");
        put_escaped(&mut out, self.status.as_str());
        out.append("\",\"reason_codes\":[");
        put_quoted_list(&mut out, &self.reason_codes);
        out.append("]}");
        out
    }
}

/// Says of a listener whether it is ready, and why not.
pub fn reduce_listener_readiness(listener: &ListenerStatus) -> (r: ListenerReadinessStatus)
    ensures
        r.reduces(*listener),
{
    let mut reason_codes: Vec<String> = Vec::new();
    proof {
        assert(texts(reason_codes@) =~= Seq::<Seq<char>>::empty());
    }
    if str_eq(listener.state.as_str(), "running") {
    } else if str_eq(listener.state.as_str(), "draining") {
        push_unique_reason(&mut reason_codes, "listener_draining");
    } else {
        push_unique_reason(&mut reason_codes, "listener_not_running");
    }
    if str_eq(listener.overload_state.as_str(), "shedding") {
        push_unique_reason(&mut reason_codes, "listener_overload_shedding");
    } else if str_eq(listener.overload_state.as_str(), "brownout") {
        push_unique_reason(&mut reason_codes, "listener_overload_brownout");
    }
    if listener.replacement.failed_start.is_some() || str_eq(
        listener.replacement.state.as_str(),
        "failed_start_preserved",
    ) {
        push_unique_reason(&mut reason_codes, "listener_replacement_failed");
    }
    let ghost before = texts(reason_codes@);
    let ghost codes = texts(listener.abuse_protection.reason_codes@);
    let mut i: usize = 0;
    while i < listener.abuse_protection.reason_codes.len()
        invariant
            i <= listener.abuse_protection.reason_codes@.len(),
            codes == texts(listener.abuse_protection.reason_codes@),
            texts(reason_codes@) == with_abuse_reasons(before, codes, i as nat),
        decreases listener.abuse_protection.reason_codes@.len() - i,
    {
        let reason = listener.abuse_protection.reason_codes[i].as_str();
        proof {
            assert(codes[i as int] == reason@);
        }
        if str_eq(reason, "tracked_source_capacity_saturated") {
            push_unique_reason(&mut reason_codes, "listener_abuse_source_tracking_saturated");
        } else if str_eq(reason, "handshake_guard_saturated") {
            push_unique_reason(&mut reason_codes, "listener_abuse_handshake_saturated");
        }
        i = i + 1;
    }
    let ready = reason_codes.len() == 0;
    ListenerReadinessStatus {
        name: listener.name.clone(),
        class: listener.class,
        protocol: listener.protocol,
        configured_bind: listener.configured_bind,
        ready,
        status: ready_text(ready),
        reason_codes,
    }
}

/// Whether some listener is public.
pub open spec fn some_public(listeners: Seq<ListenerStatus>) -> bool {
    exists|i: int| 0 <= i < listeners.len() && (#[trigger] listeners[i]).class is Public
}

/// Those of the first `n` listeners on which readiness depends: the public ones, or all where
/// none is public.
pub open spec fn in_scope(
    listeners: Seq<ListenerStatus>,
    public_only: bool,
    n: nat,
) -> Seq<ListenerStatus>
    decreases n,
{
    if n == 0 {
        Seq::empty()
    } else {
        let before = in_scope(listeners, public_only, (n - 1) as nat);
        if !public_only || listeners[n - 1].class is Public {
            before.push(listeners[n - 1])
        } else {
            before
        }
    }
}

/// The listeners on which readiness depends.
pub open spec fn evaluated(listeners: Seq<ListenerStatus>) -> Seq<ListenerStatus> {
    in_scope(listeners, some_public(listeners), listeners.len())
}

/// Reasons with the first `n` of others.
pub open spec fn with_reasons(
    reasons: Seq<Seq<char>>,
    others: Seq<Seq<char>>,
    n: nat,
) -> Seq<Seq<char>>
    decreases n,
{
    if n == 0 {
        reasons
    } else {
        with_reason(with_reasons(reasons, others, (n - 1) as nat), others[n - 1])
    }
}

/// Reasons with those of the first `n` listeners.
pub open spec fn with_listener_reasons(
    reasons: Seq<Seq<char>>,
    listeners: Seq<ListenerStatus>,
    n: nat,
) -> Seq<Seq<char>>
    decreases n,
{
    if n == 0 {
        reasons
    } else {
        let own = listener_reasons(listeners[n - 1]);
        with_reasons(with_listener_reasons(reasons, listeners, (n - 1) as nat), own, own.len())
    }
}

/// Why the listeners together are not ready.
pub open spec fn workspace_reasons(
    listeners: Seq<ListenerStatus>,
    reload_health: ReloadHealthState,
) -> Seq<Seq<char>> {
    let none: Seq<Seq<char>> = Seq::empty();
    let reload = with_reason_if(none, reload_health is Failed, "reload_failed"@);
    let serving = with_reason_if(
        reload,
        evaluated(listeners).len() == 0,
        "no_serving_listeners"@,
    );
    with_listener_reasons(serving, evaluated(listeners), evaluated(listeners).len())
}

/// The reports of listeners as the elements of a JSON array, without its brackets.
pub open spec fn readiness_list(list: Seq<ListenerReadinessStatus>) -> Seq<char> {
    joined(list.map_values(|status: ListenerReadinessStatus| status.json()), ","@)
}

impl WorkspaceReadinessStatus {
    /// Whether this says whether the listeners together are ready.
    pub open spec fn evaluates(
        self,
        listeners: Seq<ListenerStatus>,
        reload_health: ReloadHealthState,
    ) -> bool {
        &&& self.evaluated_listener_scope@ == (if some_public(listeners) {
            "public"@
        } else {
            "all"@
        })
        &&& self.reload_status@ == health_name(reload_health)
        &&& texts(self.reason_codes@) == workspace_reasons(listeners, reload_health)
        &&& self.ready == (workspace_reasons(listeners, reload_health).len() == 0)
        &&& self.status@ == ready_word(self.ready)
        &&& self.listeners@.len() == evaluated(listeners).len()
        &&& forall|i: int|
            0 <= i < self.listeners@.len() ==> (#[trigger] self.listeners@[i]).reduces(
                evaluated(listeners)[i],
            )
    }

    /// The report as a JSON object.
    pub open spec fn json(self) -> Seq<char> {
        "{\"ready\":"@ + bool_json(self.ready) + ",\"status\":\""@ + escaped(self.status@)
            + "\",\"evaluated_listener_scope\":\""@ + escaped(self.evaluated_listener_scope@)
            + "\",\"reload_status\":\""@ + escaped(self.reload_status@)
            + "\",\"reason_codes\":["@ + quoted_list(texts(self.reason_codes@))
            + "],\"listeners\":["@ + readiness_list(self.listeners@) + "]}"@
    }

    /// The report as a JSON object.
    pub fn to_json(&self) -> (r: String)
        ensures
            r@ == self.json(),
    {
        let mut out = text("{\"ready\":");
        put_bool(&mut out, self.ready);
        out.append(",\"status\":\"");
        put_escaped(&mut out, self.status.as_str());
        out.append("\",\"evaluated_listener_scope\":\"");
        put_escaped(&mut out, self.evaluated_listener_scope.as_str());
        out.append("\",\"reload_status\":\"");
        put_escaped(&mut out, self.reload_status.as_str());
        out.append("\",\"reason_codes\":[");
        put_quoted_list(&mut out, &self.reason_codes);
        out.append("],\"listeners\":[");
        let mut items: Vec<String> = Vec::new();
        let mut i: usize = 0;
        while i < self.listeners.len()
            invariant
                i <= self.listeners@.len(),
                items@.len() == i,
                forall|j: int| 0 <= j < i ==> (#[trigger] items@[j])@ == self.listeners@[j].json(),
            decreases self.listeners@.len() - i,
        {
            items.push(self.listeners[i].to_json());
            i = i + 1;
        }
        let all = join(&items, ",");
        proof {
            assert(texts(items@) =~= self.listeners@.map_values(
                |status: ListenerReadinessStatus| status.json(),
            ));
        }
        out.append(all.as_str());
        out.append("]}");
        out
    }
}

fn has_public(listeners: &Vec<ListenerStatus>) -> (r: bool)
    ensures
        r == some_public(listeners@),
{
    let mut i: usize = 0;
    while i < listeners.len()
        invariant
            i <= listeners@.len(),
            forall|j: int| 0 <= j < i ==> !((#[trigger] listeners@[j]).class is Public),
        decreases listeners@.len() - i,
    {
        match listeners[i].class {
            ListenerClassConfig::Public => {
                return true;
            },
            ListenerClassConfig::Admin => {},
        }
        i = i + 1;
    }
    false
}

fn add_reasons(reasons: &mut Vec<String>, others: &Vec<String>)
    ensures
        texts(final(reasons)@) == with_reasons(
            texts(old(reasons)@),
            texts(others@),
            others@.len(),
        ),
{
    let ghost first = texts(reasons@);
    let ghost all = texts(others@);
    let mut i: usize = 0;
    while i < others.len()
        invariant
            i <= others@.len(),
            all == texts(others@),
            texts(reasons@) == with_reasons(first, all, i as nat),
        decreases others@.len() - i,
    {
        proof {
            assert(all[i as int] == others@[i as int]@);
        }
        push_unique_reason(reasons, others[i].as_str());
        i = i + 1;
    }
}

/// Says whether the listeners together are ready, and why not.
pub fn evaluate_workspace_readiness(
    listener_statuses: &Vec<ListenerStatus>,
    reload_health: ReloadHealthState,
) -> (r: WorkspaceReadinessStatus)
    ensures
        r.evaluates(listener_statuses@, reload_health),
{
    let public_only = has_public(listener_statuses);
    let evaluated_listener_scope = if public_only {
        text("public")
    } else {
        text("all")
    };
    let mut listeners: Vec<ListenerReadinessStatus> = Vec::new();
    let ghost all = listener_statuses@;
    let mut i: usize = 0;
    while i < listener_statuses.len()
        invariant
            i <= listener_statuses@.len(),
            all == listener_statuses@,
            public_only == some_public(all),
            listeners@.len() == in_scope(all, public_only, i as nat).len(),
            forall|j: int|
                0 <= j < listeners@.len() ==> (#[trigger] listeners@[j]).reduces(
                    in_scope(all, public_only, i as nat)[j],
                ),
        decreases listener_statuses@.len() - i,
    {
        let public = match listener_statuses[i].class {
            ListenerClassConfig::Public => true,
            ListenerClassConfig::Admin => false,
        };
        if !public_only || public {
            listeners.push(reduce_listener_readiness(&listener_statuses[i]));
        }
        i = i + 1;
    }
    let ghost scope = evaluated(all);
    let mut reason_codes: Vec<String> = Vec::new();
    proof {
        assert(texts(reason_codes@) =~= Seq::<Seq<char>>::empty());
    }
    match reload_health {
        ReloadHealthState::Failed => {
            push_unique_reason(&mut reason_codes, "reload_failed");
        },
        _ => {},
    }
    if listeners.len() == 0 {
        push_unique_reason(&mut reason_codes, "no_serving_listeners");
    }
    let ghost first = texts(reason_codes@);
    let mut k: usize = 0;
    while k < listeners.len()
        invariant
            k <= listeners@.len(),
            listeners@.len() == scope.len(),
            forall|j: int|
                0 <= j < listeners@.len() ==> (#[trigger] listeners@[j]).reduces(scope[j]),
            texts(reason_codes@) == with_listener_reasons(first, scope, k as nat),
        decreases listeners@.len() - k,
    {
        proof {
            assert(listeners@[k as int].reduces(scope[k as int]));
        }
        add_reasons(&mut reason_codes, &listeners[k].reason_codes);
        k = k + 1;
    }
    let ready = reason_codes.len() == 0;
    WorkspaceReadinessStatus {
        ready,
        status: ready_text(ready),
        evaluated_listener_scope,
        reload_status: text(reload_health_name(reload_health)),
        reason_codes,
        listeners,
    }
}

proof fn lemma_with_reasons_empty(reasons: Seq<Seq<char>>, others: Seq<Seq<char>>, n: nat)
    ensures
        with_reasons(reasons, others, n).len() == 0 <==> reasons.len() == 0 && n == 0,
    decreases n,
{
    if n > 0 {
        lemma_with_reasons_empty(reasons, others, (n - 1) as nat);
        let before = with_reasons(reasons, others, (n - 1) as nat);
        if before.contains(others[n - 1]) {
            assert(before.len() > 0);
        }
    }
}

proof fn lemma_with_listener_reasons_empty(
    reasons: Seq<Seq<char>>,
    listeners: Seq<ListenerStatus>,
    n: nat,
)
    requires
        n <= listeners.len(),
    ensures
        with_listener_reasons(reasons, listeners, n).len() == 0 <==> reasons.len() == 0 && (forall|
            i: int,
        |
            0 <= i < n ==> listener_reasons(#[trigger] listeners[i]).len() == 0),
    decreases n,
{
    if n > 0 {
        lemma_with_listener_reasons_empty(reasons, listeners, (n - 1) as nat);
        let own = listener_reasons(listeners[n - 1]);
        lemma_with_reasons_empty(
            with_listener_reasons(reasons, listeners, (n - 1) as nat),
            own,
            own.len(),
        );
    }
}

/// The listeners together are ready if and only if the latest reload did not fail, there is a
/// listener to serve, and every listener on which readiness depends is ready itself.
pub proof fn readiness_is_that_of_its_parts(
    listeners: Seq<ListenerStatus>,
    reload_health: ReloadHealthState,
)
    ensures
        workspace_reasons(listeners, reload_health).len() == 0 <==> {
            &&& !(reload_health is Failed)
            &&& evaluated(listeners).len() > 0
            &&& forall|i: int|
                0 <= i < evaluated(listeners).len() ==> listener_reasons(
                    #[trigger] evaluated(listeners)[i],
                ).len() == 0
        },
{
    let none: Seq<Seq<char>> = Seq::empty();
    let reload = with_reason_if(none, reload_health is Failed, "reload_failed"@);
    let serving = with_reason_if(
        reload,
        evaluated(listeners).len() == 0,
        "no_serving_listeners"@,
    );
    if reload.contains("no_serving_listeners"@) {
        assert(reload.len() > 0);
    }
    lemma_with_listener_reasons_empty(serving, evaluated(listeners), evaluated(listeners).len());
}

proof fn lemma_scope(listeners: Seq<ListenerStatus>, public_only: bool, n: nat)
    requires
        n <= listeners.len(),
    ensures
        forall|i: int|
            0 <= i < in_scope(listeners, public_only, n).len() ==> (public_only ==> (
            #[trigger] in_scope(listeners, public_only, n)[i]).class is Public),
        !public_only ==> in_scope(listeners, public_only, n) =~= listeners.take(n as int),
    decreases n,
{
    if n > 0 {
        lemma_scope(listeners, public_only, (n - 1) as nat);
    }
}

/// Where some listener is public, readiness depends on public listeners alone; where none is, it
/// depends on all.
pub proof fn administration_does_not_block_public_readiness(listeners: Seq<ListenerStatus>)
    ensures
        some_public(listeners) ==> forall|i: int|
            0 <= i < evaluated(listeners).len() ==> (#[trigger] evaluated(
                listeners,
            )[i]).class is Public,
        !some_public(listeners) ==> evaluated(listeners) == listeners,
{
    lemma_scope(listeners, some_public(listeners), listeners.len());
    assert(listeners.take(listeners.len() as int) =~= listeners);
}

} // verus!
