//! What the planning, parsing, import, edit and listing operations are
//! for, stated over all their inputs: which commands are planned in which
//! scope, which word names which resource, which context an import reads,
//! what an edit replaces, and which cell of a row sits under which header.

use vstd::prelude::*;
use crate::commands::{
    cluster_named, context_named, import_result, merged, namespace_or_default, user_auth, user_named,
    ClusterInput, KcNamedCluster, KcNamedContext, KcNamedUser, KcRoot, KcUser,
};
use crate::error::ErrorV;
use crate::executor::{
    action_result, count_or_empty, headers_of, or_zero, ratio, ready_status, row_of, KubeActionV,
    ObjectSummary, ScopeV,
};
use crate::parser::{resource_result, CommandV, Resource};
use crate::store::ClusterV;
use crate::text::{decimal, int_decimal, lower, text_or_empty};

verus! {

// ---------- planning a command ----------

/// In a single namespace, scaling a Deployment, a StatefulSet or a
/// ReplicaSet is planned as a scale of that object to the given count in
/// that namespace; every other kind is refused as not scalable.
pub proof fn scaling_plans_workloads(
    ns: Seq<char>,
    resource: Resource,
    name: Seq<char>,
    replicas: i32,
    body: Option<Seq<char>>,
)
    requires
        ns != "*"@,
    ensures
        resource == Resource::Deployments || resource == Resource::StatefulSets || resource
            == Resource::ReplicaSets ==> action_result(ns, CommandV::Scale { resource, name, replicas }, body)
            == Ok::<KubeActionV, ErrorV>(KubeActionV::Scale { resource, namespace: ns, name, replicas }),
        !(resource == Resource::Deployments || resource == Resource::StatefulSets || resource
            == Resource::ReplicaSets) ==> action_result(ns, CommandV::Scale { resource, name, replicas }, body)
            matches Err(ErrorV::BadInput(_)),
{
}

/// In a single namespace, a rollout restart of a Deployment, a StatefulSet
/// or a DaemonSet is planned on that object in that namespace; every other
/// kind is refused.
pub proof fn restart_plans_rollouts(ns: Seq<char>, resource: Resource, name: Seq<char>, body: Option<Seq<char>>)
    requires
        ns != "*"@,
    ensures
        resource == Resource::Deployments || resource == Resource::StatefulSets || resource
            == Resource::DaemonSets ==> action_result(ns, CommandV::RolloutRestart { resource, name }, body)
            == Ok::<KubeActionV, ErrorV>(KubeActionV::RolloutRestart { resource, namespace: ns, name }),
        !(resource == Resource::Deployments || resource == Resource::StatefulSets || resource
            == Resource::DaemonSets) ==> action_result(ns, CommandV::RolloutRestart { resource, name }, body)
            matches Err(ErrorV::BadInput(_)),
{
}

/// The scope a call on `resource` gets in the namespace `ns`: nodes and
/// namespaces are cluster objects, every other kind lives in `ns`.
pub open spec fn expected_scope(resource: Resource, ns: Seq<char>) -> ScopeV {
    if resource == Resource::Nodes || resource == Resource::Namespaces {
        ScopeV::Cluster
    } else {
        ScopeV::Namespace(ns)
    }
}

/// In a single namespace, each command is planned on what it names, in
/// that namespace (or on the cluster for nodes and namespaces).
pub proof fn single_namespace_plans(ns: Seq<char>, c: CommandV, body: Option<Seq<char>>)
    requires
        ns != "*"@,
    ensures
        c matches CommandV::Get { resource, name } ==> action_result(ns, c, body) == Ok::<KubeActionV, ErrorV>(
            KubeActionV::Get { resource, scope: expected_scope(resource, ns), name },
        ),
        c matches CommandV::Describe { resource, name } ==> action_result(ns, c, body) == Ok::<
            KubeActionV,
            ErrorV,
        >(KubeActionV::Describe { resource, scope: expected_scope(resource, ns), name }),
        c matches CommandV::Delete { resource, name } ==> action_result(ns, c, body) == Ok::<KubeActionV, ErrorV>(
            KubeActionV::Delete { resource, scope: expected_scope(resource, ns), name },
        ),
        c matches CommandV::Logs { pod, container, tail, .. } ==> action_result(ns, c, body) == Ok::<
            KubeActionV,
            ErrorV,
        >(KubeActionV::Logs { namespace: ns, pod, container, tail_lines: tail }),
        c is Apply && body is Some ==> action_result(ns, c, body) == Ok::<KubeActionV, ErrorV>(
            KubeActionV::Apply { namespace: ns, body: body->0 },
        ),
        c is Apply && body is None ==> action_result(ns, c, body) matches Err(ErrorV::BadInput(_)),
        c is Help ==> action_result(ns, c, body) == Ok::<KubeActionV, ErrorV>(KubeActionV::Help),
{
}

/// Across every namespace (`*`), listing is planned across all namespaces
/// (nodes and namespaces on the cluster), and every command that acts on
/// one object or one namespace is refused.
pub proof fn all_namespaces_plans(c: CommandV, body: Option<Seq<char>>)
    ensures
        c matches CommandV::Get { resource, name } ==> action_result("*"@, c, body) == Ok::<KubeActionV, ErrorV>(
            KubeActionV::Get {
                resource,
                scope: if resource == Resource::Nodes || resource == Resource::Namespaces {
                    ScopeV::Cluster
                } else {
                    ScopeV::AllNamespaces
                },
                name,
            },
        ),
        (c is Describe || c is Logs || c is Delete || c is Scale || c is RolloutRestart || c is Apply)
            ==> action_result("*"@, c, body) matches Err(ErrorV::BadInput(_)),
{
}

// ---------- resource names ----------

/// The words the command language accepts for each resource, as the help
/// text lists them with their long forms.
pub open spec fn resource_aliases() -> Seq<(Seq<char>, Resource)> {
    seq![
        ("pod"@, Resource::Pods), ("pods"@, Resource::Pods), ("po"@, Resource::Pods),
        ("deploy"@, Resource::Deployments), ("deployment"@, Resource::Deployments),
        ("deployments"@, Resource::Deployments),
        ("svc"@, Resource::Services), ("service"@, Resource::Services), ("services"@, Resource::Services),
        ("node"@, Resource::Nodes), ("nodes"@, Resource::Nodes), ("no"@, Resource::Nodes),
        ("ns"@, Resource::Namespaces), ("namespace"@, Resource::Namespaces),
        ("namespaces"@, Resource::Namespaces),
        ("cm"@, Resource::ConfigMaps), ("configmap"@, Resource::ConfigMaps),
        ("configmaps"@, Resource::ConfigMaps),
        ("secret"@, Resource::Secrets), ("secrets"@, Resource::Secrets),
        ("event"@, Resource::Events), ("events"@, Resource::Events), ("ev"@, Resource::Events),
        ("rs"@, Resource::ReplicaSets), ("replicaset"@, Resource::ReplicaSets),
        ("replicasets"@, Resource::ReplicaSets),
        ("sts"@, Resource::StatefulSets), ("statefulset"@, Resource::StatefulSets),
        ("statefulsets"@, Resource::StatefulSets),
        ("ds"@, Resource::DaemonSets), ("daemonset"@, Resource::DaemonSets),
        ("daemonsets"@, Resource::DaemonSets),
        ("ing"@, Resource::Ingresses), ("ingress"@, Resource::Ingresses), ("ingresses"@, Resource::Ingresses),
        ("job"@, Resource::Jobs), ("jobs"@, Resource::Jobs),
        ("cj"@, Resource::CronJobs), ("cronjob"@, Resource::CronJobs), ("cronjobs"@, Resource::CronJobs),
    ]
}


/// The listed words, with their lengths, are pairwise different texts.
proof fn alias_words_distinct()
    ensures
        "pod"@.len() == 3,
        "pods"@.len() == 4,
        "po"@.len() == 2,
        "deploy"@.len() == 6,
        "deployment"@.len() == 10,
        "deployments"@.len() == 11,
        "svc"@.len() == 3,
        "service"@.len() == 7,
        "services"@.len() == 8,
        "node"@.len() == 4,
        "nodes"@.len() == 5,
        "no"@.len() == 2,
        "ns"@.len() == 2,
        "namespace"@.len() == 9,
        "namespaces"@.len() == 10,
        "cm"@.len() == 2,
        "configmap"@.len() == 9,
        "configmaps"@.len() == 10,
        "secret"@.len() == 6,
        "secrets"@.len() == 7,
        "event"@.len() == 5,
        "events"@.len() == 6,
        "ev"@.len() == 2,
        "rs"@.len() == 2,
        "replicaset"@.len() == 10,
        "replicasets"@.len() == 11,
        "sts"@.len() == 3,
        "statefulset"@.len() == 11,
        "statefulsets"@.len() == 12,
        "ds"@.len() == 2,
        "daemonset"@.len() == 9,
        "daemonsets"@.len() == 10,
        "ing"@.len() == 3,
        "ingress"@.len() == 7,
        "ingresses"@.len() == 9,
        "job"@.len() == 3,
        "jobs"@.len() == 4,
        "cj"@.len() == 2,
        "cronjob"@.len() == 7,
        "cronjobs"@.len() == 8,
        "pod"@ != "svc"@,
        "pod"@ != "sts"@,
        "pod"@ != "ing"@,
        "pod"@ != "job"@,
        "pods"@ != "node"@,
        "pods"@ != "jobs"@,
        "po"@ != "no"@,
        "po"@ != "ns"@,
        "po"@ != "cm"@,
        "po"@ != "ev"@,
        "po"@ != "rs"@,
        "po"@ != "ds"@,
        "po"@ != "cj"@,
        "deploy"@ != "secret"@,
        "deploy"@ != "events"@,
        "deployment"@ != "namespaces"@,
        "deployment"@ != "configmaps"@,
        "deployment"@ != "replicaset"@,
        "deployment"@ != "daemonsets"@,
        "deployments"@ != "replicasets"@,
        "deployments"@ != "statefulset"@,
        "svc"@ != "sts"@,
        "svc"@ != "ing"@,
        "svc"@ != "job"@,
        "service"@ != "secrets"@,
        "service"@ != "ingress"@,
        "service"@ != "cronjob"@,
        "services"@ != "cronjobs"@,
        "node"@ != "jobs"@,
        "nodes"@ != "event"@,
        "no"@ != "ns"@,
        "no"@ != "cm"@,
        "no"@ != "ev"@,
        "no"@ != "rs"@,
        "no"@ != "ds"@,
        "no"@ != "cj"@,
        "ns"@ != "cm"@,
        "ns"@ != "ev"@,
        "ns"@ != "rs"@,
        "ns"@ != "ds"@,
        "ns"@ != "cj"@,
        "namespace"@ != "configmap"@,
        "namespace"@ != "daemonset"@,
        "namespace"@ != "ingresses"@,
        "namespaces"@ != "configmaps"@,
        "namespaces"@ != "replicaset"@,
        "namespaces"@ != "daemonsets"@,
        "cm"@ != "ev"@,
        "cm"@ != "rs"@,
        "cm"@ != "ds"@,
        "cm"@ != "cj"@,
        "configmap"@ != "daemonset"@,
        "configmap"@ != "ingresses"@,
        "configmaps"@ != "replicaset"@,
        "configmaps"@ != "daemonsets"@,
        "secret"@ != "events"@,
        "secrets"@ != "ingress"@,
        "secrets"@ != "cronjob"@,
        "ev"@ != "rs"@,
        "ev"@ != "ds"@,
        "ev"@ != "cj"@,
        "rs"@ != "ds"@,
        "rs"@ != "cj"@,
        "replicaset"@ != "daemonsets"@,
        "replicasets"@ != "statefulset"@,
        "sts"@ != "ing"@,
        "sts"@ != "job"@,
        "ds"@ != "cj"@,
        "daemonset"@ != "ingresses"@,
        "ing"@ != "job"@,
        "ingress"@ != "cronjob"@,
{
    reveal_strlit("pod");
    reveal_strlit("pods");
    reveal_strlit("po");
    reveal_strlit("deploy");
    reveal_strlit("deployment");
    reveal_strlit("deployments");
    reveal_strlit("svc");
    reveal_strlit("service");
    reveal_strlit("services");
    reveal_strlit("node");
    reveal_strlit("nodes");
    reveal_strlit("no");
    reveal_strlit("ns");
    reveal_strlit("namespace");
    reveal_strlit("namespaces");
    reveal_strlit("cm");
    reveal_strlit("configmap");
    reveal_strlit("configmaps");
    reveal_strlit("secret");
    reveal_strlit("secrets");
    reveal_strlit("event");
    reveal_strlit("events");
    reveal_strlit("ev");
    reveal_strlit("rs");
    reveal_strlit("replicaset");
    reveal_strlit("replicasets");
    reveal_strlit("sts");
    reveal_strlit("statefulset");
    reveal_strlit("statefulsets");
    reveal_strlit("ds");
    reveal_strlit("daemonset");
    reveal_strlit("daemonsets");
    reveal_strlit("ing");
    reveal_strlit("ingress");
    reveal_strlit("ingresses");
    reveal_strlit("job");
    reveal_strlit("jobs");
    reveal_strlit("cj");
    reveal_strlit("cronjob");
    reveal_strlit("cronjobs");
    assert("pod"@[0] != "svc"@[0]);
    assert("pod"@[0] != "sts"@[0]);
    assert("pod"@[0] != "ing"@[0]);
    assert("pod"@[0] != "job"@[0]);
    assert("pods"@[0] != "node"@[0]);
    assert("pods"@[0] != "jobs"@[0]);
    assert("po"@[0] != "no"@[0]);
    assert("po"@[0] != "ns"@[0]);
    assert("po"@[0] != "cm"@[0]);
    assert("po"@[0] != "ev"@[0]);
    assert("po"@[0] != "rs"@[0]);
    assert("po"@[0] != "ds"@[0]);
    assert("po"@[0] != "cj"@[0]);
    assert("deploy"@[0] != "secret"@[0]);
    assert("deploy"@[0] != "events"@[0]);
    assert("deployment"@[0] != "namespaces"@[0]);
    assert("deployment"@[0] != "configmaps"@[0]);
    assert("deployment"@[0] != "replicaset"@[0]);
    assert("deployment"@[1] != "daemonsets"@[1]);
    assert("deployments"@[0] != "replicasets"@[0]);
    assert("deployments"@[0] != "statefulset"@[0]);
    assert("svc"@[1] != "sts"@[1]);
    assert("svc"@[0] != "ing"@[0]);
    assert("svc"@[0] != "job"@[0]);
    assert("service"@[2] != "secrets"@[2]);
    assert("service"@[0] != "ingress"@[0]);
    assert("service"@[0] != "cronjob"@[0]);
    assert("services"@[0] != "cronjobs"@[0]);
    assert("node"@[0] != "jobs"@[0]);
    assert("nodes"@[0] != "event"@[0]);
    assert("no"@[1] != "ns"@[1]);
    assert("no"@[0] != "cm"@[0]);
    assert("no"@[0] != "ev"@[0]);
    assert("no"@[0] != "rs"@[0]);
    assert("no"@[0] != "ds"@[0]);
    assert("no"@[0] != "cj"@[0]);
    assert("ns"@[0] != "cm"@[0]);
    assert("ns"@[0] != "ev"@[0]);
    assert("ns"@[0] != "rs"@[0]);
    assert("ns"@[0] != "ds"@[0]);
    assert("ns"@[0] != "cj"@[0]);
    assert("namespace"@[0] != "configmap"@[0]);
    assert("namespace"@[0] != "daemonset"@[0]);
    assert("namespace"@[0] != "ingresses"@[0]);
    assert("namespaces"@[0] != "configmaps"@[0]);
    assert("namespaces"@[0] != "replicaset"@[0]);
    assert("namespaces"@[0] != "daemonsets"@[0]);
    assert("cm"@[0] != "ev"@[0]);
    assert("cm"@[0] != "rs"@[0]);
    assert("cm"@[0] != "ds"@[0]);
    assert("cm"@[1] != "cj"@[1]);
    assert("configmap"@[0] != "daemonset"@[0]);
    assert("configmap"@[0] != "ingresses"@[0]);
    assert("configmaps"@[0] != "replicaset"@[0]);
    assert("configmaps"@[0] != "daemonsets"@[0]);
    assert("secret"@[0] != "events"@[0]);
    assert("secrets"@[0] != "ingress"@[0]);
    assert("secrets"@[0] != "cronjob"@[0]);
    assert("ev"@[0] != "rs"@[0]);
    assert("ev"@[0] != "ds"@[0]);
    assert("ev"@[0] != "cj"@[0]);
    assert("rs"@[0] != "ds"@[0]);
    assert("rs"@[0] != "cj"@[0]);
    assert("replicaset"@[0] != "daemonsets"@[0]);
    assert("replicasets"@[0] != "statefulset"@[0]);
    assert("sts"@[0] != "ing"@[0]);
    assert("sts"@[0] != "job"@[0]);
    assert("ds"@[0] != "cj"@[0]);
    assert("daemonset"@[0] != "ingresses"@[0]);
    assert("ing"@[0] != "job"@[0]);
    assert("ingress"@[0] != "cronjob"@[0]);
}

/// Each listed word, in any ASCII case, names the resource it is listed
/// under.
pub proof fn alias_names_its_resource(s: Seq<char>, i: int)
    requires
        0 <= i < resource_aliases().len(),
        lower(s) == resource_aliases()[i].0,
    ensures
        resource_result(s) == Ok::<Resource, ErrorV>(resource_aliases()[i].1),
{
    alias_words_distinct();
    let t = resource_aliases();
    if i == 0 {
        assert(t[0] == ("pod"@, Resource::Pods));
    } else if i == 1 {
        assert(t[1] == ("pods"@, Resource::Pods));
    } else if i == 2 {
        assert(t[2] == ("po"@, Resource::Pods));
    } else if i == 3 {
        assert(t[3] == ("deploy"@, Resource::Deployments));
    } else if i == 4 {
        assert(t[4] == ("deployment"@, Resource::Deployments));
    } else if i == 5 {
        assert(t[5] == ("deployments"@, Resource::Deployments));
    } else if i == 6 {
        assert(t[6] == ("svc"@, Resource::Services));
    } else if i == 7 {
        assert(t[7] == ("service"@, Resource::Services));
    } else if i == 8 {
        assert(t[8] == ("services"@, Resource::Services));
    } else if i == 9 {
        assert(t[9] == ("node"@, Resource::Nodes));
    } else if i == 10 {
        assert(t[10] == ("nodes"@, Resource::Nodes));
    } else if i == 11 {
        assert(t[11] == ("no"@, Resource::Nodes));
    } else if i == 12 {
        assert(t[12] == ("ns"@, Resource::Namespaces));
    } else if i == 13 {
        assert(t[13] == ("namespace"@, Resource::Namespaces));
    } else if i == 14 {
        assert(t[14] == ("namespaces"@, Resource::Namespaces));
    } else if i == 15 {
        assert(t[15] == ("cm"@, Resource::ConfigMaps));
    } else if i == 16 {
        assert(t[16] == ("configmap"@, Resource::ConfigMaps));
    } else if i == 17 {
        assert(t[17] == ("configmaps"@, Resource::ConfigMaps));
    } else if i == 18 {
        assert(t[18] == ("secret"@, Resource::Secrets));
    } else if i == 19 {
        assert(t[19] == ("secrets"@, Resource::Secrets));
    } else if i == 20 {
        assert(t[20] == ("event"@, Resource::Events));
    } else if i == 21 {
        assert(t[21] == ("events"@, Resource::Events));
    } else if i == 22 {
        assert(t[22] == ("ev"@, Resource::Events));
    } else if i == 23 {
        assert(t[23] == ("rs"@, Resource::ReplicaSets));
    } else if i == 24 {
        assert(t[24] == ("replicaset"@, Resource::ReplicaSets));
    } else if i == 25 {
        assert(t[25] == ("replicasets"@, Resource::ReplicaSets));
    } else if i == 26 {
        assert(t[26] == ("sts"@, Resource::StatefulSets));
    } else if i == 27 {
        assert(t[27] == ("statefulset"@, Resource::StatefulSets));
    } else if i == 28 {
        assert(t[28] == ("statefulsets"@, Resource::StatefulSets));
    } else if i == 29 {
        assert(t[29] == ("ds"@, Resource::DaemonSets));
    } else if i == 30 {
        assert(t[30] == ("daemonset"@, Resource::DaemonSets));
    } else if i == 31 {
        assert(t[31] == ("daemonsets"@, Resource::DaemonSets));
    } else if i == 32 {
        assert(t[32] == ("ing"@, Resource::Ingresses));
    } else if i == 33 {
        assert(t[33] == ("ingress"@, Resource::Ingresses));
    } else if i == 34 {
        assert(t[34] == ("ingresses"@, Resource::Ingresses));
    } else if i == 35 {
        assert(t[35] == ("job"@, Resource::Jobs));
    } else if i == 36 {
        assert(t[36] == ("jobs"@, Resource::Jobs));
    } else if i == 37 {
        assert(t[37] == ("cj"@, Resource::CronJobs));
    } else if i == 38 {
        assert(t[38] == ("cronjob"@, Resource::CronJobs));
    } else if i == 39 {
        assert(t[39] == ("cronjobs"@, Resource::CronJobs));
    }
}

/// A word names a resource only where it is listed (in lower case) under
/// that resource; any other word is refused.
pub proof fn only_listed_words_name_resources(s: Seq<char>)
    ensures
        resource_result(s) matches Ok(r) ==> exists|i: int|
            0 <= i < resource_aliases().len() && #[trigger] resource_aliases()[i] == (lower(s), r),
        resource_result(s) is Err ==> forall|i: int|
            0 <= i < resource_aliases().len() ==> (#[trigger] resource_aliases()[i]).0 != lower(s),
{
    alias_words_distinct();
    let w = lower(s);
    let t = resource_aliases();
    if resource_result(s) is Ok {
        let r = resource_result(s)->Ok_0;
        if w == "pod"@ { assert(t[0] == (w, r)); }
        else if w == "pods"@ { assert(t[1] == (w, r)); }
        else if w == "po"@ { assert(t[2] == (w, r)); }
        else if w == "deploy"@ { assert(t[3] == (w, r)); }
        else if w == "deployment"@ { assert(t[4] == (w, r)); }
        else if w == "deployments"@ { assert(t[5] == (w, r)); }
        else if w == "svc"@ { assert(t[6] == (w, r)); }
        else if w == "service"@ { assert(t[7] == (w, r)); }
        else if w == "services"@ { assert(t[8] == (w, r)); }
        else if w == "node"@ { assert(t[9] == (w, r)); }
        else if w == "nodes"@ { assert(t[10] == (w, r)); }
        else if w == "no"@ { assert(t[11] == (w, r)); }
        else if w == "ns"@ { assert(t[12] == (w, r)); }
        else if w == "namespace"@ { assert(t[13] == (w, r)); }
        else if w == "namespaces"@ { assert(t[14] == (w, r)); }
        else if w == "cm"@ { assert(t[15] == (w, r)); }
        else if w == "configmap"@ { assert(t[16] == (w, r)); }
        else if w == "configmaps"@ { assert(t[17] == (w, r)); }
        else if w == "secret"@ { assert(t[18] == (w, r)); }
        else if w == "secrets"@ { assert(t[19] == (w, r)); }
        else if w == "event"@ { assert(t[20] == (w, r)); }
        else if w == "events"@ { assert(t[21] == (w, r)); }
        else if w == "ev"@ { assert(t[22] == (w, r)); }
        else if w == "rs"@ { assert(t[23] == (w, r)); }
        else if w == "replicaset"@ { assert(t[24] == (w, r)); }
        else if w == "replicasets"@ { assert(t[25] == (w, r)); }
        else if w == "sts"@ { assert(t[26] == (w, r)); }
        else if w == "statefulset"@ { assert(t[27] == (w, r)); }
        else if w == "statefulsets"@ { assert(t[28] == (w, r)); }
        else if w == "ds"@ { assert(t[29] == (w, r)); }
        else if w == "daemonset"@ { assert(t[30] == (w, r)); }
        else if w == "daemonsets"@ { assert(t[31] == (w, r)); }
        else if w == "ing"@ { assert(t[32] == (w, r)); }
        else if w == "ingress"@ { assert(t[33] == (w, r)); }
        else if w == "ingresses"@ { assert(t[34] == (w, r)); }
        else if w == "job"@ { assert(t[35] == (w, r)); }
        else if w == "jobs"@ { assert(t[36] == (w, r)); }
        else if w == "cj"@ { assert(t[37] == (w, r)); }
        else if w == "cronjob"@ { assert(t[38] == (w, r)); }
        else { assert(t[39] == (w, r)); }
    } else {
        assert forall|i: int| 0 <= i < t.len() implies (#[trigger] resource_aliases()[i]).0 != lower(s) by {
            if resource_aliases()[i].0 == lower(s) {
                alias_names_its_resource(s, i);
            }
        };
    }
}

// ---------- editing a stored cluster ----------

/// An edit replaces every non-secret field with the form's value (a blank
/// namespace reads as `default`), keeps the id, and takes the CA and the
/// credentials from the form exactly where the form supplies them.
pub proof fn edit_replaces_non_secret_fields(stored: ClusterV, i: ClusterInput)
    ensures
        merged(stored, i).id == stored.id,
        merged(stored, i).name == i.name@,
        merged(stored, i).environment == i.environment,
        merged(stored, i).api_server == i.api_server@,
        merged(stored, i).insecure_skip_tls_verify == i.insecure_skip_tls_verify,
        merged(stored, i).default_namespace == namespace_or_default(i.default_namespace@),
        i.ca_pem@.len() > 0 ==> merged(stored, i).ca_pem == i.ca_pem@,
        i.ca_pem@.len() == 0 ==> merged(stored, i).ca_pem == stored.ca_pem,
        crate::commands::replaces_auth(i.auth@) ==> merged(stored, i).auth == i.auth@,
        !crate::commands::replaces_auth(i.auth@) ==> merged(stored, i).auth == stored.auth,
{
}

// ---------- importing a kubeconfig ----------

/// `k` is the first position whose context has this name.
pub open spec fn first_context(cs: Seq<KcNamedContext>, name: Seq<char>, k: int) -> bool {
    &&& 0 <= k < cs.len()
    &&& cs[k].name@ == name
    &&& forall|j: int| 0 <= j < k ==> (#[trigger] cs[j]).name@ != name
}

/// `k` is the first position whose cluster has this name.
pub open spec fn first_cluster(cs: Seq<KcNamedCluster>, name: Seq<char>, k: int) -> bool {
    &&& 0 <= k < cs.len()
    &&& cs[k].name@ == name
    &&& forall|j: int| 0 <= j < k ==> (#[trigger] cs[j]).name@ != name
}

/// `k` is the first position whose user has this name.
pub open spec fn first_user(us: Seq<KcNamedUser>, name: Seq<char>, k: int) -> bool {
    &&& 0 <= k < us.len()
    &&& us[k].name@ == name
    &&& forall|j: int| 0 <= j < k ==> (#[trigger] us[j]).name@ != name
}

proof fn lemma_context_named(cs: Seq<KcNamedContext>, name: Seq<char>)
    ensures
        context_named(cs, name) matches Some(k) ==> first_context(cs, name, k),
    decreases cs.len(),
{
    if cs.len() > 0 && cs[0].name@ != name {
        lemma_context_named(cs.drop_first(), name);
        if let Some(k) = context_named(cs.drop_first(), name) {
            assert forall|j: int| 0 <= j < k + 1 implies (#[trigger] cs[j]).name@ != name by {
                if j > 0 {
                    assert(cs[j] == cs.drop_first()[j - 1]);
                }
            };
        }
    }
}

proof fn lemma_cluster_named(cs: Seq<KcNamedCluster>, name: Seq<char>)
    ensures
        cluster_named(cs, name) matches Some(k) ==> first_cluster(cs, name, k),
    decreases cs.len(),
{
    if cs.len() > 0 && cs[0].name@ != name {
        lemma_cluster_named(cs.drop_first(), name);
        if let Some(k) = cluster_named(cs.drop_first(), name) {
            assert forall|j: int| 0 <= j < k + 1 implies (#[trigger] cs[j]).name@ != name by {
                if j > 0 {
                    assert(cs[j] == cs.drop_first()[j - 1]);
                }
            };
        }
    }
}

proof fn lemma_user_named(us: Seq<KcNamedUser>, name: Seq<char>)
    ensures
        user_named(us, name) matches Some(k) ==> first_user(us, name, k),
    decreases us.len(),
{
    if us.len() > 0 && us[0].name@ != name {
        lemma_user_named(us.drop_first(), name);
        if let Some(k) = user_named(us.drop_first(), name) {
            assert forall|j: int| 0 <= j < k + 1 implies (#[trigger] us[j]).name@ != name by {
                if j > 0 {
                    assert(us[j] == us.drop_first()[j - 1]);
                }
            };
        }
    }
}

/// The name of the context an import reads: `current-context` where the
/// kubeconfig has one, else the first context's name.
pub open spec fn context_to_read(root: KcRoot) -> Seq<char> {
    match root.current_context {
        Some(c) => c@,
        None => root.contexts@[0].name@,
    }
}

/// An import that succeeds reads the context named by `current-context`
/// (else the first context): the record's server is that of the cluster
/// this context names, its credentials those of the user it names, its
/// namespace the context's (else `default`), and its name and environment
/// the ones given.
pub proof fn import_reads_the_chosen_context(root: KcRoot, name: Seq<char>, env: crate::store::Environment)
    ensures
        import_result(root, name, env) matches Ok(rec) ==> exists|ci: int, cl: int, ui: int|
            #![trigger root.contexts@[ci], root.clusters@[cl], root.users@[ui]]
            {
                let ctx = root.contexts@[ci].context;
                &&& first_context(root.contexts@, context_to_read(root), ci)
                &&& first_cluster(root.clusters@, ctx.cluster@, cl)
                &&& first_user(root.users@, ctx.user@, ui)
                &&& rec.api_server == root.clusters@[cl].cluster.server@
                &&& root.users@[ui].user matches KcUser::Mapping(es) && user_auth(es@) == Ok::<
                    crate::store::AuthV,
                    ErrorV,
                >(rec.auth)
                &&& rec.default_namespace == match ctx.namespace {
                    Some(ns) => ns@,
                    None => "default"@,
                }
                &&& rec.name == name
                &&& rec.environment == env
                &&& rec.id == 0
            },
{
    if let Ok(rec) = import_result(root, name, env) {
        let cname = crate::commands::chosen_context(root)->0;
        assert(cname == context_to_read(root));
        lemma_context_named(root.contexts@, cname);
        let ci = context_named(root.contexts@, cname)->0;
        let ctx = root.contexts@[ci].context;
        lemma_cluster_named(root.clusters@, ctx.cluster@);
        lemma_user_named(root.users@, ctx.user@);
        let cl = cluster_named(root.clusters@, ctx.cluster@)->0;
        let ui = user_named(root.users@, ctx.user@)->0;
        assert(first_context(root.contexts@, context_to_read(root), ci));
        assert(first_cluster(root.clusters@, ctx.cluster@, cl));
        assert(first_user(root.users@, ctx.user@, ui));
    }
}

// ---------- table rows ----------

/// The kind of object a row summary belongs to.
pub open spec fn kind_of(s: ObjectSummary) -> Resource {
    match s {
        ObjectSummary::Pod { .. } => Resource::Pods,
        ObjectSummary::Deployment { .. } => Resource::Deployments,
        ObjectSummary::Service { .. } => Resource::Services,
        ObjectSummary::ConfigMap { .. } => Resource::ConfigMaps,
        ObjectSummary::Secret { .. } => Resource::Secrets,
        ObjectSummary::Event { .. } => Resource::Events,
        ObjectSummary::ReplicaSet { .. } => Resource::ReplicaSets,
        ObjectSummary::StatefulSet { .. } => Resource::StatefulSets,
        ObjectSummary::DaemonSet { .. } => Resource::DaemonSets,
        ObjectSummary::Ingress { .. } => Resource::Ingresses,
        ObjectSummary::Job { .. } => Resource::Jobs,
        ObjectSummary::CronJob { .. } => Resource::CronJobs,
        ObjectSummary::Node { .. } => Resource::Nodes,
        ObjectSummary::Namespace { .. } => Resource::Namespaces,
    }
}

/// The field of a summary that a column header names.
pub open spec fn field_under(s: ObjectSummary, header: Seq<char>) -> Seq<char> {
    match s {
        ObjectSummary::Pod { name, phase, node } => if header == "NAME"@ {
            text_or_empty(name)
        } else if header == "PHASE"@ {
            text_or_empty(phase)
        } else {
            text_or_empty(node)
        },
        ObjectSummary::Deployment { name, status } => if header == "NAME"@ {
            text_or_empty(name)
        } else if header == "READY"@ {
            match status {
                Some(st) => ratio(or_zero(st.0), or_zero(st.1)),
                None => seq![],
            }
        } else {
            match status {
                Some(st) => count_or_empty(st.2),
                None => seq![],
            }
        },
        ObjectSummary::Service { name, service_type, cluster_ip } => if header == "NAME"@ {
            text_or_empty(name)
        } else if header == "TYPE"@ {
            text_or_empty(service_type)
        } else {
            text_or_empty(cluster_ip)
        },
        ObjectSummary::ConfigMap { name, data_len } => if header == "NAME"@ {
            text_or_empty(name)
        } else {
            match data_len {
                Some(n) => decimal(n as nat),
                None => "0"@,
            }
        },
        ObjectSummary::Secret { name, secret_type } => if header == "NAME"@ {
            text_or_empty(name)
        } else {
            text_or_empty(secret_type)
        },
        ObjectSummary::Event { last, event_type, reason, message } => if header == "LAST"@ {
            text_or_empty(last)
        } else if header == "TYPE"@ {
            text_or_empty(event_type)
        } else if header == "REASON"@ {
            text_or_empty(reason)
        } else {
            text_or_empty(message)
        },
        ObjectSummary::ReplicaSet { name, desired, ready } => if header == "NAME"@ {
            text_or_empty(name)
        } else if header == "DESIRED"@ {
            count_or_empty(desired)
        } else {
            count_or_empty(ready)
        },
        ObjectSummary::StatefulSet { name, status } => if header == "NAME"@ {
            text_or_empty(name)
        } else {
            match status {
                Some(st) => ratio(or_zero(st.0), st.1 as int),
                None => seq![],
            }
        },
        ObjectSummary::DaemonSet { name, status } => if header == "NAME"@ {
            text_or_empty(name)
        } else if header == "READY"@ {
            match status {
                Some(st) => int_decimal(st.0 as int),
                None => seq![],
            }
        } else {
            match status {
                Some(st) => count_or_empty(st.1),
                None => seq![],
            }
        },
        ObjectSummary::Ingress { name, class } => if header == "NAME"@ {
            text_or_empty(name)
        } else {
            text_or_empty(class)
        },
        ObjectSummary::Job { name, succeeded } => if header == "NAME"@ {
            text_or_empty(name)
        } else {
            count_or_empty(succeeded)
        },
        ObjectSummary::CronJob { name, schedule } => if header == "NAME"@ {
            text_or_empty(name)
        } else {
            text_or_empty(schedule)
        },
        ObjectSummary::Node { name, conditions } => if header == "NAME"@ {
            text_or_empty(name)
        } else {
            ready_status(conditions@)
        },
        ObjectSummary::Namespace { name, phase } => if header == "NAME"@ {
            text_or_empty(name)
        } else {
            text_or_empty(phase)
        },
    }
}

/// A row has one cell per column of its kind's table, and each cell holds
/// the field that its column's header names.
pub proof fn row_cells_sit_under_their_headers(s: ObjectSummary)
    ensures
        row_of(s).len() == headers_of(kind_of(s)).len(),
        forall|i: int|
            0 <= i < row_of(s).len() ==> #[trigger] row_of(s)[i] == field_under(s, headers_of(kind_of(s))[i]),
{
    reveal_strlit("NAME");
    reveal_strlit("PHASE");
    reveal_strlit("NODE");
    reveal_strlit("READY");
    reveal_strlit("AVAILABLE");
    reveal_strlit("TYPE");
    reveal_strlit("CLUSTER-IP");
    reveal_strlit("DATA");
    reveal_strlit("LAST");
    reveal_strlit("REASON");
    reveal_strlit("MESSAGE");
    reveal_strlit("DESIRED");
    reveal_strlit("CLASS");
    reveal_strlit("COMPLETIONS");
    reveal_strlit("SCHEDULE");
    assert("NAME"@[1] != "NODE"@[1]);
    assert("NAME"@[0] != "TYPE"@[0]);
    assert("NAME"@[0] != "DATA"@[0]);
    assert("NAME"@[0] != "LAST"@[0]);
    assert("PHASE"@[0] != "READY"@[0]);
    assert("PHASE"@[0] != "CLASS"@[0]);
    assert("NODE"@[0] != "TYPE"@[0]);
    assert("NODE"@[0] != "DATA"@[0]);
    assert("NODE"@[0] != "LAST"@[0]);
    assert("READY"@[0] != "CLASS"@[0]);
    assert("TYPE"@[0] != "DATA"@[0]);
    assert("TYPE"@[0] != "LAST"@[0]);
    assert("DATA"@[0] != "LAST"@[0]);
    assert("MESSAGE"@[0] != "DESIRED"@[0]);
    assert forall|i: int| 0 <= i < row_of(s).len() implies #[trigger] row_of(s)[i] == field_under(
        s,
        headers_of(kind_of(s))[i],
    ) by {
        if i == 0 {
        } else if i == 1 {
        } else if i == 2 {
        } else {
        }
    };
}

/// The column headers of each kind's table, in order.
pub proof fn table_columns(r: Resource)
    ensures
        r == Resource::Pods ==> headers_of(r) == seq!["NAME"@, "PHASE"@, "NODE"@],
        r == Resource::Deployments ==> headers_of(r) == seq!["NAME"@, "READY"@, "AVAILABLE"@],
        r == Resource::Services ==> headers_of(r) == seq!["NAME"@, "TYPE"@, "CLUSTER-IP"@],
        r == Resource::ConfigMaps ==> headers_of(r) == seq!["NAME"@, "DATA"@],
        r == Resource::Secrets ==> headers_of(r) == seq!["NAME"@, "TYPE"@],
        r == Resource::Events ==> headers_of(r) == seq!["LAST"@, "TYPE"@, "REASON"@, "MESSAGE"@],
        r == Resource::ReplicaSets ==> headers_of(r) == seq!["NAME"@, "DESIRED"@, "READY"@],
        r == Resource::StatefulSets ==> headers_of(r) == seq!["NAME"@, "READY"@],
        r == Resource::DaemonSets ==> headers_of(r) == seq!["NAME"@, "READY"@, "AVAILABLE"@],
        r == Resource::Ingresses ==> headers_of(r) == seq!["NAME"@, "CLASS"@],
        r == Resource::Jobs ==> headers_of(r) == seq!["NAME"@, "COMPLETIONS"@],
        r == Resource::CronJobs ==> headers_of(r) == seq!["NAME"@, "SCHEDULE"@],
        r == Resource::Nodes ==> headers_of(r) == seq!["NAME"@, "READY"@],
        r == Resource::Namespaces ==> headers_of(r) == seq!["NAME"@, "PHASE"@],
{
}

// ---------- command lines ----------

/// The verb of a command line: its first word, in lower case.
pub open spec fn verb_of(input: Seq<char>) -> Seq<char> {
    lower(crate::text::words(input)[0])
}

/// The words of a command line after its verb.
pub open spec fn args_of(input: Seq<char>) -> Seq<Seq<char>> {
    crate::text::words(input).drop_first()
}

/// A command line without forbidden words means what its verb says, on
/// the resource its next word names: `get`/`ls`/`list <res> [name]`,
/// `describe`/`desc <res> <name>`, `delete`/`del`/`rm <res> <name>`,
/// `scale <res> <name> --replicas N` (N not negative), `rollout restart
/// <res> <name>`, and `help`/`?`.
pub proof fn verbs_pick_commands(input: Seq<char>)
    requires
        crate::text::words(input).len() >= 1,
        crate::parser::first_forbidden(crate::text::words(input)) is None,
    ensures
        (verb_of(input) == "get"@ || verb_of(input) == "ls"@ || verb_of(input) == "list"@) && args_of(input).len()
            >= 1 && resource_result(args_of(input)[0]) is Ok ==> crate::parser::command_result(input) == Ok::<
            CommandV,
            ErrorV,
        >(
            CommandV::Get {
                resource: resource_result(args_of(input)[0])->Ok_0,
                name: if args_of(input).len() > 1 {
                    Some(args_of(input)[1])
                } else {
                    None
                },
            },
        ),
        (verb_of(input) == "describe"@ || verb_of(input) == "desc"@) && args_of(input).len() >= 2
            && resource_result(args_of(input)[0]) is Ok ==> crate::parser::command_result(input) == Ok::<
            CommandV,
            ErrorV,
        >(CommandV::Describe { resource: resource_result(args_of(input)[0])->Ok_0, name: args_of(input)[1] }),
        (verb_of(input) == "delete"@ || verb_of(input) == "del"@ || verb_of(input) == "rm"@) && args_of(input).len()
            >= 2 && resource_result(args_of(input)[0]) is Ok ==> crate::parser::command_result(input) == Ok::<
            CommandV,
            ErrorV,
        >(CommandV::Delete { resource: resource_result(args_of(input)[0])->Ok_0, name: args_of(input)[1] }),
        verb_of(input) == "scale"@ && args_of(input).len() == 4 && crate::text::find_char(args_of(input)[0], '/')
            is None && resource_result(args_of(input)[0]) is Ok && args_of(input)[2] == "--replicas"@
            && crate::text::parse_i32_spec(args_of(input)[3]) is Some && crate::text::parse_i32_spec(
            args_of(input)[3],
        )->0 >= 0 ==> crate::parser::command_result(input) == Ok::<CommandV, ErrorV>(
            CommandV::Scale {
                resource: resource_result(args_of(input)[0])->Ok_0,
                name: args_of(input)[1],
                replicas: crate::text::parse_i32_spec(args_of(input)[3])->0,
            },
        ),
        verb_of(input) == "rollout"@ && args_of(input).len() == 3 && lower(args_of(input)[0]) == "restart"@
            && crate::text::find_char(args_of(input)[1], '/') is None && resource_result(args_of(input)[1]) is Ok
            ==> crate::parser::command_result(input) == Ok::<CommandV, ErrorV>(
            CommandV::RolloutRestart { resource: resource_result(args_of(input)[1])->Ok_0, name: args_of(input)[2] },
        ),
        (verb_of(input) == "help"@ || verb_of(input) == "?"@) ==> crate::parser::command_result(input) == Ok::<
            CommandV,
            ErrorV,
        >(CommandV::Help),
{
    reveal_strlit("help");
    reveal_strlit("?");
    reveal_strlit("get");
    reveal_strlit("ls");
    reveal_strlit("list");
    reveal_strlit("describe");
    reveal_strlit("desc");
    reveal_strlit("logs");
    reveal_strlit("log");
    reveal_strlit("delete");
    reveal_strlit("del");
    reveal_strlit("rm");
    reveal_strlit("scale");
    reveal_strlit("rollout");
    reveal_strlit("apply");
    reveal_strlit("restart");
    reveal_strlit("--replicas");
    assert("help"@[0] != "list"@[0]);
    assert("help"@[0] != "desc"@[0]);
    assert("help"@[0] != "logs"@[0]);
    assert("get"@[0] != "log"@[0]);
    assert("get"@[0] != "del"@[0]);
    assert("ls"@[0] != "rm"@[0]);
    assert("list"@[0] != "desc"@[0]);
    assert("list"@[1] != "logs"@[1]);
    assert("desc"@[0] != "logs"@[0]);
    assert("log"@[0] != "del"@[0]);
    assert("scale"@[0] != "apply"@[0]);
    assert("rollout"@[1] != "restart"@[1]);
    let rest = args_of(input);
    if verb_of(input) == "scale"@ && rest.len() == 4 && rest[2] == "--replicas"@ {
        let tail = rest.skip(2);
        assert(tail[0] == rest[2]);
        assert(tail[1] == rest[3]);
        assert(tail.len() == 2);
        if crate::text::parse_i32_spec(rest[3]) is Some {
            assert(crate::parser::scale_scan(tail, 2, crate::text::parse_i32_spec(rest[3])) == Ok::<
                Option<i32>,
                ErrorV,
            >(crate::text::parse_i32_spec(rest[3])));
        }
    }
}

// ---------- what needs confirmation ----------

/// Whether a planned call changes what is on the cluster.
pub open spec fn changes_cluster(a: KubeActionV) -> bool {
    a is Delete || a is Scale || a is RolloutRestart || a is Apply
}

/// Every command whose planned call changes the cluster is classified
/// destructive (and so needs a confirmation), and every command whose call
/// only reads is classified safe.
pub proof fn changing_calls_are_destructive(ns: Seq<char>, c: CommandV, body: Option<Seq<char>>)
    ensures
        action_result(ns, c, body) matches Ok(a) ==> (changes_cluster(a) <==> crate::safety::severity_of(c)
            == crate::safety::Severity::Destructive),
        action_result(ns, c, body) matches Ok(a) ==> (!changes_cluster(a) <==> crate::safety::severity_of(c)
            == crate::safety::Severity::Safe),
{
}

} // verus!
