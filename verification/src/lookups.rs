//! Lookups by name: which entry of a list a name stands for.

use crate::config::{
    cluster_named, policy_named, route_named, rule_labelled, NamedPolicy, RouteConfig,
    RoutePrefixRule, UpstreamClusterConfig,
};
use vstd::prelude::*;

verus! {

/// Whether the route at a place is the first in a list with a name.
pub open spec fn is_first_route(list: Seq<RouteConfig>, i: int, name: Seq<char>) -> bool {
    &&& 0 <= i < list.len()
    &&& list[i].name@ == name
    &&& forall|k: int| 0 <= k < i ==> (#[trigger] list[k]).name@ != name
}

/// A name stands for the first route in a list that has it.
pub proof fn first_route_is_found(list: Seq<RouteConfig>, i: int, name: Seq<char>)
    requires
        is_first_route(list, i, name),
    ensures
        route_named(list, name) == Some(list[i]),
    decreases list.len(),
{
    if i > 0 {
        let rest = list.drop_first();
        assert(list[0].name@ != name);
        assert forall|k: int| 0 <= k < i - 1 implies (#[trigger] rest[k]).name@ != name by {
            assert(rest[k] == list[k + 1]);
        }
        first_route_is_found(rest, i - 1, name);
    }
}

/// A name that no route in a list has stands for none, and only such a name does.
#[verifier::rlimit(40)]
pub proof fn unknown_route_is_not_found(list: Seq<RouteConfig>, name: Seq<char>)
    ensures
        route_named(list, name) is None <==> forall|k: int|
            0 <= k < list.len() ==> (#[trigger] list[k]).name@ != name,
    decreases list.len(),
{
    if list.len() > 0 {
        let rest = list.drop_first();
        unknown_route_is_not_found(rest, name);
        if route_named(list, name) is None {
            assert forall|k: int| 0 <= k < list.len() implies (#[trigger] list[k]).name@
                != name by {
                if k > 0 {
                    assert(rest[k - 1] == list[k]);
                }
            }
        } else if list[0].name@ != name {
            let k = choose|k: int| 0 <= k < rest.len() && (#[trigger] rest[k]).name@ == name;
            assert(list[k + 1].name@ == name);
        }
    }
}

/// Where a name stands for a route, that is the first in the list.
#[verifier::rlimit(40)]
pub proof fn found_route_is_first(list: Seq<RouteConfig>, name: Seq<char>) -> (i: int)
    requires
        route_named(list, name) is Some,
    ensures
        is_first_route(list, i, name),
        route_named(list, name) == Some(list[i]),
    decreases list.len(),
{
    if list[0].name@ == name {
        0
    } else {
        let rest = list.drop_first();
        let j = found_route_is_first(rest, name);
        assert forall|k: int| 0 <= k < j + 1 implies (#[trigger] list[k]).name@ != name by {
            if k > 0 {
                assert(rest[k - 1] == list[k]);
            }
        }
        j + 1
    }
}

/// Whether the cluster at a place is the first in a list with a name.
pub open spec fn is_first_cluster(list: Seq<UpstreamClusterConfig>, i: int, name: Seq<char>) -> bool {
    &&& 0 <= i < list.len()
    &&& list[i].name@ == name
    &&& forall|k: int| 0 <= k < i ==> (#[trigger] list[k]).name@ != name
}

/// A name stands for the first cluster in a list that has it.
pub proof fn first_cluster_is_found(list: Seq<UpstreamClusterConfig>, i: int, name: Seq<char>)
    requires
        is_first_cluster(list, i, name),
    ensures
        cluster_named(list, name) == Some(list[i]),
    decreases list.len(),
{
    if i > 0 {
        let rest = list.drop_first();
        assert(list[0].name@ != name);
        assert forall|k: int| 0 <= k < i - 1 implies (#[trigger] rest[k]).name@ != name by {
            assert(rest[k] == list[k + 1]);
        }
        first_cluster_is_found(rest, i - 1, name);
    }
}

/// A name that no cluster in a list has stands for none, and only such a name does.
#[verifier::rlimit(40)]
pub proof fn unknown_cluster_is_not_found(list: Seq<UpstreamClusterConfig>, name: Seq<char>)
    ensures
        cluster_named(list, name) is None <==> forall|k: int|
            0 <= k < list.len() ==> (#[trigger] list[k]).name@ != name,
    decreases list.len(),
{
    if list.len() > 0 {
        let rest = list.drop_first();
        unknown_cluster_is_not_found(rest, name);
        if cluster_named(list, name) is None {
            assert forall|k: int| 0 <= k < list.len() implies (#[trigger] list[k]).name@
                != name by {
                if k > 0 {
                    assert(rest[k - 1] == list[k]);
                }
            }
        } else if list[0].name@ != name {
            let k = choose|k: int| 0 <= k < rest.len() && (#[trigger] rest[k]).name@ == name;
            assert(list[k + 1].name@ == name);
        }
    }
}

/// Where a name stands for a cluster, that is the first in the list.
#[verifier::rlimit(40)]
pub proof fn found_cluster_is_first(list: Seq<UpstreamClusterConfig>, name: Seq<char>) -> (i: int)
    requires
        cluster_named(list, name) is Some,
    ensures
        is_first_cluster(list, i, name),
        cluster_named(list, name) == Some(list[i]),
    decreases list.len(),
{
    if list[0].name@ == name {
        0
    } else {
        let rest = list.drop_first();
        let j = found_cluster_is_first(rest, name);
        assert forall|k: int| 0 <= k < j + 1 implies (#[trigger] list[k]).name@ != name by {
            if k > 0 {
                assert(rest[k - 1] == list[k]);
            }
        }
        j + 1
    }
}

/// Whether the rule at a place is the first in a list with a label.
pub open spec fn is_first_rule(list: Seq<RoutePrefixRule>, i: int, label: Seq<char>) -> bool {
    &&& 0 <= i < list.len()
    &&& list[i].label@ == label
    &&& forall|k: int| 0 <= k < i ==> (#[trigger] list[k]).label@ != label
}

/// A label stands for the first rule in a list that has it.
pub proof fn first_rule_is_found(list: Seq<RoutePrefixRule>, i: int, label: Seq<char>)
    requires
        is_first_rule(list, i, label),
    ensures
        rule_labelled(list, label) == Some(list[i]),
    decreases list.len(),
{
    if i > 0 {
        let rest = list.drop_first();
        assert(list[0].label@ != label);
        assert forall|k: int| 0 <= k < i - 1 implies (#[trigger] rest[k]).label@ != label by {
            assert(rest[k] == list[k + 1]);
        }
        first_rule_is_found(rest, i - 1, label);
    }
}

/// A label that no rule in a list has stands for none, and only such a label does.
#[verifier::rlimit(40)]
pub proof fn unknown_rule_is_not_found(list: Seq<RoutePrefixRule>, label: Seq<char>)
    ensures
        rule_labelled(list, label) is None <==> forall|k: int|
            0 <= k < list.len() ==> (#[trigger] list[k]).label@ != label,
    decreases list.len(),
{
    if list.len() > 0 {
        let rest = list.drop_first();
        unknown_rule_is_not_found(rest, label);
        if rule_labelled(list, label) is None {
            assert forall|k: int| 0 <= k < list.len() implies (#[trigger] list[k]).label@
                != label by {
                if k > 0 {
                    assert(rest[k - 1] == list[k]);
                }
            }
        } else if list[0].label@ != label {
            let k = choose|k: int| 0 <= k < rest.len() && (#[trigger] rest[k]).label@ == label;
            assert(list[k + 1].label@ == label);
        }
    }
}

/// Where a label stands for a rule, that is the first in the list.
#[verifier::rlimit(40)]
pub proof fn found_rule_is_first(list: Seq<RoutePrefixRule>, label: Seq<char>) -> (i: int)
    requires
        rule_labelled(list, label) is Some,
    ensures
        is_first_rule(list, i, label),
        rule_labelled(list, label) == Some(list[i]),
    decreases list.len(),
{
    if list[0].label@ == label {
        0
    } else {
        let rest = list.drop_first();
        let j = found_rule_is_first(rest, label);
        assert forall|k: int| 0 <= k < j + 1 implies (#[trigger] list[k]).label@ != label by {
            if k > 0 {
                assert(rest[k - 1] == list[k]);
            }
        }
        j + 1
    }
}

/// Whether the policy at a place is the first in a list with a name.
pub open spec fn is_first_policy<S>(list: Seq<NamedPolicy<S>>, i: int, name: Seq<char>) -> bool {
    &&& 0 <= i < list.len()
    &&& list[i].name@ == name
    &&& forall|k: int| 0 <= k < i ==> (#[trigger] list[k]).name@ != name
}

/// A name stands for the first policy in a list that has it.
pub proof fn first_policy_is_found<S>(list: Seq<NamedPolicy<S>>, i: int, name: Seq<char>)
    requires
        is_first_policy(list, i, name),
    ensures
        policy_named(list, name) == Some(list[i].spec),
    decreases list.len(),
{
    if i > 0 {
        let rest = list.drop_first();
        assert(list[0].name@ != name);
        assert forall|k: int| 0 <= k < i - 1 implies (#[trigger] rest[k]).name@ != name by {
            assert(rest[k] == list[k + 1]);
        }
        first_policy_is_found(rest, i - 1, name);
    }
}

/// A name that no policy in a list has stands for none, and only such a name does.
#[verifier::rlimit(40)]
pub proof fn unknown_policy_is_not_found<S>(list: Seq<NamedPolicy<S>>, name: Seq<char>)
    ensures
        policy_named(list, name) is None <==> forall|k: int|
            0 <= k < list.len() ==> (#[trigger] list[k]).name@ != name,
    decreases list.len(),
{
    if list.len() > 0 {
        let rest = list.drop_first();
        unknown_policy_is_not_found(rest, name);
        if policy_named(list, name) is None {
            assert forall|k: int| 0 <= k < list.len() implies (#[trigger] list[k]).name@
                != name by {
                if k > 0 {
                    assert(rest[k - 1] == list[k]);
                }
            }
        } else if list[0].name@ != name {
            let k = choose|k: int| 0 <= k < rest.len() && (#[trigger] rest[k]).name@ == name;
            assert(list[k + 1].name@ == name);
        }
    }
}

/// Where a name stands for a policy, that is the first in the list.
#[verifier::rlimit(40)]
pub proof fn found_policy_is_first<S>(list: Seq<NamedPolicy<S>>, name: Seq<char>) -> (i: int)
    requires
        policy_named(list, name) is Some,
    ensures
        is_first_policy(list, i, name),
        policy_named(list, name) == Some(list[i].spec),
    decreases list.len(),
{
    if list[0].name@ == name {
        0
    } else {
        let rest = list.drop_first();
        let j = found_policy_is_first(rest, name);
        assert forall|k: int| 0 <= k < j + 1 implies (#[trigger] list[k]).name@ != name by {
            if k > 0 {
                assert(rest[k - 1] == list[k]);
            }
        }
        j + 1
    }
}

} // verus!
