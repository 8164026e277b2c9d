//! What a parsed command asks of the cluster API, and how the answers are
//! shown. The cluster and namespace are passed in by the caller and
//! **cannot** be overridden by the user input (the parser already rejects
//! override flags); the API calls themselves are made around this module.

use vstd::prelude::*;
use serde::Deserialize;
use crate::error::{bad_input, AppError, ErrorV};
use crate::parser::{Command, CommandV, Resource};
use crate::safety::{resource_label, resource_name};
use crate::text::{
    append, chars_of, concat, first_index, find_char, int_decimal, lower, lowercase, push_char,
    push_decimal, push_int, decimal, str_eq, string_of, text_or_empty,
};

verus! {

/// What a command shows.
#[derive(Debug, Clone)]
pub enum CommandOutput {
    Table { headers: Vec<String>, rows: Vec<Vec<String>> },
    Yaml { body: String },
    Text { body: String },
    /// A completed change, with what was done.
    Done { message: String },
}

/// Where an API call looks: every namespace, one namespace, or the
/// cluster-scoped objects.
#[derive(Debug, Clone)]
pub enum Scope {
    AllNamespaces,
    Namespace(String),
    Cluster,
}

pub enum ScopeV {
    AllNamespaces,
    Namespace(Seq<char>),
    Cluster,
}

impl View for Scope {
    type V = ScopeV;

    open spec fn view(&self) -> ScopeV {
        match self {
            Scope::AllNamespaces => ScopeV::AllNamespaces,
            Scope::Namespace(s) => ScopeV::Namespace(s@),
            Scope::Cluster => ScopeV::Cluster,
        }
    }
}

/// The API call a command makes.
#[derive(Debug, Clone)]
pub enum KubeAction {
    /// Show the help text; no call.
    Help,
    /// Fetch one object (as YAML) or list them (as a table).
    Get { resource: Resource, scope: Scope, name: Option<String> },
    Describe { resource: Resource, scope: Scope, name: String },
    /// Read a pod's log, with timestamps.
    Logs { namespace: String, pod: String, container: Option<String>, tail_lines: Option<i64> },
    Delete { resource: Resource, scope: Scope, name: String },
    /// Merge-patch `spec.replicas`.
    Scale { resource: Resource, namespace: String, name: String, replicas: i32 },
    /// Merge-patch the pod template's restart annotation.
    RolloutRestart { resource: Resource, namespace: String, name: String },
    /// Server-side apply of each YAML document, forced into the namespace.
    Apply { namespace: String, body: String },
}

pub enum KubeActionV {
    Help,
    Get { resource: Resource, scope: ScopeV, name: Option<Seq<char>> },
    Describe { resource: Resource, scope: ScopeV, name: Seq<char> },
    Logs { namespace: Seq<char>, pod: Seq<char>, container: Option<Seq<char>>, tail_lines: Option<i64> },
    Delete { resource: Resource, scope: ScopeV, name: Seq<char> },
    Scale { resource: Resource, namespace: Seq<char>, name: Seq<char>, replicas: i32 },
    RolloutRestart { resource: Resource, namespace: Seq<char>, name: Seq<char> },
    Apply { namespace: Seq<char>, body: Seq<char> },
}

impl View for KubeAction {
    type V = KubeActionV;

    open spec fn view(&self) -> KubeActionV {
        match self {
            KubeAction::Help => KubeActionV::Help,
            KubeAction::Get { resource, scope, name } => KubeActionV::Get {
                resource: *resource,
                scope: scope@,
                name: crate::parser::opt_view(*name),
            },
            KubeAction::Describe { resource, scope, name } => KubeActionV::Describe {
                resource: *resource,
                scope: scope@,
                name: name@,
            },
            KubeAction::Logs { namespace, pod, container, tail_lines } => KubeActionV::Logs {
                namespace: namespace@,
                pod: pod@,
                container: crate::parser::opt_view(*container),
                tail_lines: *tail_lines,
            },
            KubeAction::Delete { resource, scope, name } => KubeActionV::Delete {
                resource: *resource,
                scope: scope@,
                name: name@,
            },
            KubeAction::Scale { resource, namespace, name, replicas } => KubeActionV::Scale {
                resource: *resource,
                namespace: namespace@,
                name: name@,
                replicas: *replicas,
            },
            KubeAction::RolloutRestart { resource, namespace, name } => KubeActionV::RolloutRestart {
                resource: *resource,
                namespace: namespace@,
                name: name@,
            },
            KubeAction::Apply { namespace, body } => KubeActionV::Apply {
                namespace: namespace@,
                body: body@,
            },
        }
    }
}

/// Nodes and namespaces are cluster-scoped; the rest live in a namespace.
pub open spec fn is_cluster_scoped(r: Resource) -> bool {
    r == Resource::Nodes || r == Resource::Namespaces
}

/// The namespace selector that means every namespace.
pub open spec fn is_all(ns: Seq<char>) -> bool {
    ns == "*"@
}

pub open spec fn single_namespace_error(what: Seq<char>) -> ErrorV {
    ErrorV::BadInput("select a specific namespace \u{2014} "@ + what + " requires a single namespace"@)
}

/// The scope of a call on one namespace's or the cluster's objects.
pub open spec fn scope_in(r: Resource, ns: Seq<char>) -> ScopeV {
    if is_cluster_scoped(r) {
        ScopeV::Cluster
    } else {
        ScopeV::Namespace(ns)
    }
}

pub open spec fn scalable(r: Resource) -> bool {
    r == Resource::Deployments || r == Resource::StatefulSets || r == Resource::ReplicaSets
}

pub open spec fn restartable(r: Resource) -> bool {
    r == Resource::Deployments || r == Resource::StatefulSets || r == Resource::DaemonSets
}

/// The call a command makes in namespace `ns` (`*` for every namespace),
/// or why it cannot be made.
pub open spec fn action_result(ns: Seq<char>, c: CommandV, apply_body: Option<Seq<char>>) -> Result<KubeActionV, ErrorV> {
    match c {
        CommandV::Help => Ok(KubeActionV::Help),
        CommandV::Get { resource, name } => Ok(
            KubeActionV::Get {
                resource,
                scope: if is_cluster_scoped(resource) {
                    ScopeV::Cluster
                } else if is_all(ns) {
                    ScopeV::AllNamespaces
                } else {
                    ScopeV::Namespace(ns)
                },
                name,
            },
        ),
        CommandV::Describe { resource, name } => if is_all(ns) {
            Err(single_namespace_error("describe"@))
        } else {
            Ok(KubeActionV::Describe { resource, scope: scope_in(resource, ns), name })
        },
        CommandV::Logs { pod, container, tail, follow } => if is_all(ns) {
            Err(single_namespace_error("logs"@))
        } else {
            Ok(KubeActionV::Logs { namespace: ns, pod, container, tail_lines: tail })
        },
        CommandV::Delete { resource, name } => if is_all(ns) {
            Err(single_namespace_error("delete"@))
        } else {
            Ok(KubeActionV::Delete { resource, scope: scope_in(resource, ns), name })
        },
        CommandV::Scale { resource, name, replicas } => if is_all(ns) {
            Err(single_namespace_error("scale"@))
        } else if !scalable(resource) {
            Err(ErrorV::BadInput("scale not supported for resource "@ + resource_label(resource)))
        } else {
            Ok(KubeActionV::Scale { resource, namespace: ns, name, replicas })
        },
        CommandV::RolloutRestart { resource, name } => if is_all(ns) {
            Err(single_namespace_error("rollout restart"@))
        } else if !restartable(resource) {
            Err(ErrorV::BadInput("rollout restart not supported for "@ + resource_label(resource)))
        } else {
            Ok(KubeActionV::RolloutRestart { resource, namespace: ns, name })
        },
        CommandV::Apply { .. } => match apply_body {
            None => Err(ErrorV::BadInput("apply requires a YAML body"@)),
            Some(body) => if is_all(ns) {
                Err(single_namespace_error("apply"@))
            } else {
                Ok(KubeActionV::Apply { namespace: ns, body })
            },
        },
    }
}

fn one_namespace_error(what: &str) -> (r: AppError)
    ensures
        r@ == single_namespace_error(what@),
{
    let mut s = String::from_str("select a specific namespace \u{2014} ");
    append(&mut s, what);
    append(&mut s, " requires a single namespace");
    AppError::BadInput(s)
}

fn is_cluster_scoped_exec(r: Resource) -> (b: bool)
    ensures
        b == is_cluster_scoped(r),
{
    r == Resource::Nodes || r == Resource::Namespaces
}

fn scope_for(r: Resource, ns: &str) -> (s: Scope)
    ensures
        s@ == scope_in(r, ns@),
{
    if is_cluster_scoped_exec(r) {
        Scope::Cluster
    } else {
        Scope::Namespace(String::from_str(ns))
    }
}

pub open spec fn action_res_view(r: Result<KubeAction, AppError>) -> Result<KubeActionV, ErrorV> {
    match r {
        Ok(a) => Ok(a@),
        Err(e) => Err(e@),
    }
}

/// The API call a command makes in `namespace` (`*` for every namespace).
pub fn plan(namespace: &str, cmd: Command, apply_body: Option<String>) -> (r: Result<KubeAction, AppError>)
    ensures
        action_res_view(r) == action_result(namespace@, cmd@, crate::parser::opt_view(apply_body)),
{
    let all = str_eq(namespace, "*");
    match cmd {
        Command::Help => Ok(KubeAction::Help),
        Command::Get { resource, name } => {
            let scope = if is_cluster_scoped_exec(resource) {
                Scope::Cluster
            } else if all {
                Scope::AllNamespaces
            } else {
                Scope::Namespace(String::from_str(namespace))
            };
            Ok(KubeAction::Get { resource, scope, name })
        },
        Command::Describe { resource, name } => {
            if all {
                return Err(one_namespace_error("describe"));
            }
            Ok(KubeAction::Describe { resource, scope: scope_for(resource, namespace), name })
        },
        Command::Logs { pod, container, tail, follow: _ } => {
            if all {
                return Err(one_namespace_error("logs"));
            }
            Ok(
                KubeAction::Logs {
                    namespace: String::from_str(namespace),
                    pod,
                    container,
                    tail_lines: tail,
                },
            )
        },
        Command::Delete { resource, name } => {
            if all {
                return Err(one_namespace_error("delete"));
            }
            Ok(KubeAction::Delete { resource, scope: scope_for(resource, namespace), name })
        },
        Command::Scale { resource, name, replicas } => {
            if all {
                return Err(one_namespace_error("scale"));
            }
            if !(resource == Resource::Deployments || resource == Resource::StatefulSets || resource
                == Resource::ReplicaSets) {
                return Err(AppError::BadInput(concat("scale not supported for resource ", resource_name(resource))));
            }
            Ok(KubeAction::Scale { resource, namespace: String::from_str(namespace), name, replicas })
        },
        Command::RolloutRestart { resource, name } => {
            if all {
                return Err(one_namespace_error("rollout restart"));
            }
            if !(resource == Resource::Deployments || resource == Resource::StatefulSets || resource
                == Resource::DaemonSets) {
                return Err(AppError::BadInput(concat("rollout restart not supported for ", resource_name(resource))));
            }
            Ok(KubeAction::RolloutRestart { resource, namespace: String::from_str(namespace), name })
        },
        Command::Apply { paste_id: _ } => {
            let body = match apply_body {
                None => return Err(bad_input("apply requires a YAML body")),
                Some(b) => b,
            };
            if all {
                return Err(one_namespace_error("apply"));
            }
            Ok(KubeAction::Apply { namespace: String::from_str(namespace), body })
        },
    }
}

// ---------- help ----------

pub open spec fn help_body() -> Seq<char> {
    "Available commands (cluster + namespace are auto-applied):\n\n  get <resource> [name]        list or fetch a resource\n  describe <resource> <name>   full YAML for one resource\n  logs <pod> [-c c] [--tail N] [-f]\n  delete <resource> <name>     [destructive]\n  scale <res> <name> --replicas N    [destructive]\n  rollout restart <res> <name>       [destructive]\n  apply paste:<id>             [destructive] (paste YAML first)\n  help                         this message\n\nResources: pods, deploy, svc, nodes, ns, cm, secrets, events, rs, sts, ds, ing, jobs, cj\n"@
}

/// The help text.
pub fn help_text() -> (r: String)
    ensures
        r@ == help_body(),
{
    String::from_str(
        "Available commands (cluster + namespace are auto-applied):\n\n  get <resource> [name]        list or fetch a resource\n  describe <resource> <name>   full YAML for one resource\n  logs <pod> [-c c] [--tail N] [-f]\n  delete <resource> <name>     [destructive]\n  scale <res> <name> --replicas N    [destructive]\n  rollout restart <res> <name>       [destructive]\n  apply paste:<id>             [destructive] (paste YAML first)\n  help                         this message\n\nResources: pods, deploy, svc, nodes, ns, cm, secrets, events, rs, sts, ds, ing, jobs, cj\n",
    )
}

// ---------- tables ----------

/// The fields of a listed object that its table row shows.
#[derive(Debug, Clone)]
pub enum ObjectSummary {
    Pod { name: Option<String>, phase: Option<String>, node: Option<String> },
    /// `status` is `(ready_replicas, replicas, available_replicas)` where present.
    Deployment { name: Option<String>, status: Option<(Option<i32>, Option<i32>, Option<i32>)> },
    Service { name: Option<String>, service_type: Option<String>, cluster_ip: Option<String> },
    /// `data_len` is the number of data keys where `data` is present.
    ConfigMap { name: Option<String>, data_len: Option<usize> },
    Secret { name: Option<String>, secret_type: Option<String> },
    /// `last` is the last timestamp in RFC 3339.
    Event { last: Option<String>, event_type: Option<String>, reason: Option<String>, message: Option<String> },
    ReplicaSet { name: Option<String>, desired: Option<i32>, ready: Option<i32> },
    /// `status` is `(ready_replicas, replicas)` where present.
    StatefulSet { name: Option<String>, status: Option<(Option<i32>, i32)> },
    /// `status` is `(number_ready, number_available)` where present.
    DaemonSet { name: Option<String>, status: Option<(i32, Option<i32>)> },
    Ingress { name: Option<String>, class: Option<String> },
    Job { name: Option<String>, succeeded: Option<i32> },
    CronJob { name: Option<String>, schedule: Option<String> },
    /// `conditions` are the `(type, status)` pairs of the node's conditions.
    Node { name: Option<String>, conditions: Vec<(String, String)> },
    Namespace { name: Option<String>, phase: Option<String> },
}

/// A listed object: its namespace (where it has one) and its row fields.
#[derive(Debug, Clone)]
pub struct ListedObject {
    pub namespace: Option<String>,
    pub summary: ObjectSummary,
}

pub open spec fn texts(v: Seq<String>) -> Seq<Seq<char>> {
    v.map_values(|s: String| s@)
}


pub open spec fn count_or_empty(o: Option<i32>) -> Seq<char> {
    match o {
        Some(n) => int_decimal(n as int),
        None => seq![],
    }
}

pub open spec fn ratio(a: int, b: int) -> Seq<char> {
    int_decimal(a) + seq!['/'] + int_decimal(b)
}

pub open spec fn or_zero(o: Option<i32>) -> int {
    match o {
        Some(n) => n as int,
        None => 0,
    }
}

/// The status of the first condition of type `Ready`, or empty.
pub open spec fn ready_status(cs: Seq<(String, String)>) -> Seq<char>
    decreases cs.len(),
{
    if cs.len() == 0 {
        seq![]
    } else if cs[0].0@ == "Ready"@ {
        cs[0].1@
    } else {
        ready_status(cs.drop_first())
    }
}

/// The cells of an object's table row.
pub open spec fn row_of(s: ObjectSummary) -> Seq<Seq<char>> {
    match s {
        ObjectSummary::Pod { name, phase, node } => seq![text_or_empty(name), text_or_empty(phase), text_or_empty(node)],
        ObjectSummary::Deployment { name, status } => seq![
            text_or_empty(name),
            match status {
                Some(st) => ratio(or_zero(st.0), or_zero(st.1)),
                None => seq![],
            },
            match status {
                Some(st) => count_or_empty(st.2),
                None => seq![],
            },
        ],
        ObjectSummary::Service { name, service_type, cluster_ip } => seq![
            text_or_empty(name),
            text_or_empty(service_type),
            text_or_empty(cluster_ip),
        ],
        ObjectSummary::ConfigMap { name, data_len } => seq![
            text_or_empty(name),
            match data_len {
                Some(n) => decimal(n as nat),
                None => "0"@,
            },
        ],
        ObjectSummary::Secret { name, secret_type } => seq![text_or_empty(name), text_or_empty(secret_type)],
        ObjectSummary::Event { last, event_type, reason, message } => seq![
            text_or_empty(last),
            text_or_empty(event_type),
            text_or_empty(reason),
            text_or_empty(message),
        ],
        ObjectSummary::ReplicaSet { name, desired, ready } => seq![
            text_or_empty(name),
            count_or_empty(desired),
            count_or_empty(ready),
        ],
        ObjectSummary::StatefulSet { name, status } => seq![
            text_or_empty(name),
            match status {
                Some(st) => ratio(or_zero(st.0), st.1 as int),
                None => seq![],
            },
        ],
        ObjectSummary::DaemonSet { name, status } => seq![
            text_or_empty(name),
            match status {
                Some(st) => int_decimal(st.0 as int),
                None => seq![],
            },
            match status {
                Some(st) => count_or_empty(st.1),
                None => seq![],
            },
        ],
        ObjectSummary::Ingress { name, class } => seq![text_or_empty(name), text_or_empty(class)],
        ObjectSummary::Job { name, succeeded } => seq![text_or_empty(name), count_or_empty(succeeded)],
        ObjectSummary::CronJob { name, schedule } => seq![text_or_empty(name), text_or_empty(schedule)],
        ObjectSummary::Node { name, conditions } => seq![text_or_empty(name), ready_status(conditions@)],
        ObjectSummary::Namespace { name, phase } => seq![text_or_empty(name), text_or_empty(phase)],
    }
}

/// The column headers of a resource's table.
pub open spec fn headers_of(r: Resource) -> Seq<Seq<char>> {
    match r {
        Resource::Pods => seq!["NAME"@, "PHASE"@, "NODE"@],
        Resource::Deployments => seq!["NAME"@, "READY"@, "AVAILABLE"@],
        Resource::Services => seq!["NAME"@, "TYPE"@, "CLUSTER-IP"@],
        Resource::ConfigMaps => seq!["NAME"@, "DATA"@],
        Resource::Secrets => seq!["NAME"@, "TYPE"@],
        Resource::Events => seq!["LAST"@, "TYPE"@, "REASON"@, "MESSAGE"@],
        Resource::ReplicaSets => seq!["NAME"@, "DESIRED"@, "READY"@],
        Resource::StatefulSets => seq!["NAME"@, "READY"@],
        Resource::DaemonSets => seq!["NAME"@, "READY"@, "AVAILABLE"@],
        Resource::Ingresses => seq!["NAME"@, "CLASS"@],
        Resource::Jobs => seq!["NAME"@, "COMPLETIONS"@],
        Resource::CronJobs => seq!["NAME"@, "SCHEDULE"@],
        Resource::Nodes => seq!["NAME"@, "READY"@],
        Resource::Namespaces => seq!["NAME"@, "PHASE"@],
    }
}

fn strings(items: &[&str]) -> (r: Vec<String>)
    ensures
        texts(r@) == items@.map_values(|s: &str| s@),
{
    let mut out: Vec<String> = Vec::new();
    let mut i: usize = 0;
    while i < items.len()
        invariant
            i <= items@.len(),
            texts(out@) == items@.take(i as int).map_values(|s: &str| s@),
        decreases items@.len() - i,
    {
        let ghost o = out@;
        out.push(String::from_str(items[i]));
        assert(texts(out@) =~= texts(o).push(items@[i as int]@));
        assert(items@.take(i + 1).map_values(|s: &str| s@) =~= items@.take(i as int).map_values(
            |s: &str| s@,
        ).push(items@[i as int]@));
        i = i + 1;
    }
    assert(items@.take(items@.len() as int) =~= items@);
    out
}

fn row3(a: String, b: String, c: String) -> (r: Vec<String>)
    ensures
        texts(r@) == seq![a@, b@, c@],
{
    let r = vec![a, b, c];
    assert(texts(r@) =~= seq![a@, b@, c@]);
    r
}

fn row2(a: String, b: String) -> (r: Vec<String>)
    ensures
        texts(r@) == seq![a@, b@],
{
    let r = vec![a, b];
    assert(texts(r@) =~= seq![a@, b@]);
    r
}

/// The column headers of a resource's table.
pub fn table_headers(r: Resource) -> (h: Vec<String>)
    ensures
        texts(h@) == headers_of(r),
{
    let h = match r {
        Resource::Pods => strings(&["NAME", "PHASE", "NODE"]),
        Resource::Deployments => strings(&["NAME", "READY", "AVAILABLE"]),
        Resource::Services => strings(&["NAME", "TYPE", "CLUSTER-IP"]),
        Resource::ConfigMaps => strings(&["NAME", "DATA"]),
        Resource::Secrets => strings(&["NAME", "TYPE"]),
        Resource::Events => strings(&["LAST", "TYPE", "REASON", "MESSAGE"]),
        Resource::ReplicaSets => strings(&["NAME", "DESIRED", "READY"]),
        Resource::StatefulSets => strings(&["NAME", "READY"]),
        Resource::DaemonSets => strings(&["NAME", "READY", "AVAILABLE"]),
        Resource::Ingresses => strings(&["NAME", "CLASS"]),
        Resource::Jobs => strings(&["NAME", "COMPLETIONS"]),
        Resource::CronJobs => strings(&["NAME", "SCHEDULE"]),
        Resource::Nodes => strings(&["NAME", "READY"]),
        Resource::Namespaces => strings(&["NAME", "PHASE"]),
    };
    assert(texts(h@) =~= headers_of(r));
    h
}

fn text_of(o: &Option<String>) -> (r: String)
    ensures
        r@ == text_or_empty(*o),
{
    match o {
        Some(s) => s.clone(),
        None => String::new(),
    }
}

fn count_text(o: Option<i32>) -> (r: String)
    ensures
        r@ == count_or_empty(o),
{
    match o {
        Some(n) => {
            let mut s = String::new();
            push_int(&mut s, n as i64);
            s
        },
        None => String::new(),
    }
}

fn ratio_text(a: i32, b: i32) -> (r: String)
    ensures
        r@ == ratio(a as int, b as int),
{
    let mut s = String::new();
    push_int(&mut s, a as i64);
    push_char(&mut s, '/');
    push_int(&mut s, b as i64);
    assert(s@ =~= ratio(a as int, b as int));
    s
}

fn zero_if_none(o: Option<i32>) -> (r: i32)
    ensures
        r as int == or_zero(o),
{
    match o {
        Some(n) => n,
        None => 0,
    }
}

fn ready_of(cs: &Vec<(String, String)>) -> (r: String)
    ensures
        r@ == ready_status(cs@),
{
    let mut i: usize = 0;
    assert(cs@.skip(0) =~= cs@);
    while i < cs.len()
        invariant
            i <= cs@.len(),
            ready_status(cs@) == ready_status(cs@.skip(i as int)),
        decreases cs@.len() - i,
    {
        assert(cs@.skip(i as int).drop_first() =~= cs@.skip(i + 1));
        if str_eq(cs[i].0.as_str(), "Ready") {
            return cs[i].1.clone();
        }
        i = i + 1;
    }
    String::new()
}

/// The cells of an object's table row.
pub fn row(s: &ObjectSummary) -> (r: Vec<String>)
    ensures
        texts(r@) == row_of(*s),
{
    match s {
        ObjectSummary::Pod { name, phase, node } => row3(text_of(name), text_of(phase), text_of(node)),
        ObjectSummary::Deployment { name, status } => {
            let (ready, avail) = match status {
                Some(st) => (ratio_text(zero_if_none(st.0), zero_if_none(st.1)), count_text(st.2)),
                None => (String::new(), String::new()),
            };
            row3(text_of(name), ready, avail)
        },
        ObjectSummary::Service { name, service_type, cluster_ip } => row3(
            text_of(name),
            text_of(service_type),
            text_of(cluster_ip),
        ),
        ObjectSummary::ConfigMap { name, data_len } => {
            let data = match data_len {
                Some(n) => {
                    let mut t = String::new();
                    push_decimal(&mut t, *n as u128);
                    t
                },
                None => String::from_str("0"),
            };
            row2(text_of(name), data)
        },
        ObjectSummary::Secret { name, secret_type } => row2(text_of(name), text_of(secret_type)),
        ObjectSummary::Event { last, event_type, reason, message } => {
            let r = vec![text_of(last), text_of(event_type), text_of(reason), text_of(message)];
            assert(texts(r@) =~= row_of(*s));
            r
        },
        ObjectSummary::ReplicaSet { name, desired, ready } => row3(
            text_of(name),
            count_text(*desired),
            count_text(*ready),
        ),
        ObjectSummary::StatefulSet { name, status } => {
            let ready = match status {
                Some(st) => ratio_text(zero_if_none(st.0), st.1),
                None => String::new(),
            };
            row2(text_of(name), ready)
        },
        ObjectSummary::DaemonSet { name, status } => {
            let (ready, avail) = match status {
                Some(st) => (count_text(Some(st.0)), count_text(st.1)),
                None => (String::new(), String::new()),
            };
            row3(text_of(name), ready, avail)
        },
        ObjectSummary::Ingress { name, class } => row2(text_of(name), text_of(class)),
        ObjectSummary::Job { name, succeeded } => row2(text_of(name), count_text(*succeeded)),
        ObjectSummary::CronJob { name, schedule } => row2(text_of(name), text_of(schedule)),
        ObjectSummary::Node { name, conditions } => row2(text_of(name), ready_of(conditions)),
        ObjectSummary::Namespace { name, phase } => row2(text_of(name), text_of(phase)),
    }
}

/// The table a listing shows: across every namespace, each row starts
/// with the object's namespace under a `NAMESPACE` column.
pub open spec fn table_of(r: Resource, all_namespaces: bool, items: Seq<ListedObject>) -> (Seq<Seq<char>>, Seq<Seq<Seq<char>>>) {
    if all_namespaces {
        (
            seq!["NAMESPACE"@] + headers_of(r),
            items.map_values(|o: ListedObject| seq![text_or_empty(o.namespace)] + row_of(o.summary)),
        )
    } else {
        (headers_of(r), items.map_values(|o: ListedObject| row_of(o.summary)))
    }
}

/// The table output of a listing.
pub fn list_table(r: Resource, all_namespaces: bool, items: &Vec<ListedObject>) -> (out: CommandOutput)
    ensures
        out matches CommandOutput::Table { headers, rows } && texts(headers@) == table_of(
            r,
            all_namespaces,
            items@,
        ).0 && rows@.map_values(|row: Vec<String>| texts(row@)) == table_of(r, all_namespaces, items@).1,
{
    let mut headers = if all_namespaces {
        vec![String::from_str("NAMESPACE")]
    } else {
        Vec::new()
    };
    let ghost h0 = headers@;
    let mut hs = table_headers(r);
    headers.append(&mut hs);
    assert(texts(headers@) =~= table_of(r, all_namespaces, items@).0);
    let ghost want = table_of(r, all_namespaces, items@).1;
    let mut rows: Vec<Vec<String>> = Vec::new();
    let mut i: usize = 0;
    while i < items.len()
        invariant
            i <= items@.len(),
            want == table_of(r, all_namespaces, items@).1,
            want.len() == items@.len(),
            rows@.len() == i,
            forall|j: int| 0 <= j < i ==> texts((#[trigger] rows@[j])@) == want[j],
        decreases items@.len() - i,
    {
        let item = &items[i];
        let mut cells = if all_namespaces {
            vec![text_of(&item.namespace)]
        } else {
            Vec::new()
        };
        let ghost c0 = cells@;
        let mut rest = row(&item.summary);
        cells.append(&mut rest);
        assert(texts(cells@) =~= want[i as int]);
        rows.push(cells);
        i = i + 1;
    }
    assert(rows@.map_values(|row: Vec<String>| texts(row@)) =~= want);
    CommandOutput::Table { headers, rows }
}

// ---------- messages ----------

pub fn deleted_message(name: &str) -> (r: String)
    ensures
        r@ == "deleted "@ + name@,
{
    concat("deleted ", name)
}

pub fn scaled_message(name: &str, replicas: i32) -> (r: String)
    ensures
        r@ == "scaled "@ + name@ + " to "@ + int_decimal(replicas as int) + " replicas"@,
{
    let mut s = concat("scaled ", name);
    append(&mut s, " to ");
    push_int(&mut s, replicas as i64);
    append(&mut s, " replicas");
    s
}

pub fn restarted_message(name: &str) -> (r: String)
    ensures
        r@ == "rollout restart triggered for "@ + name@,
{
    concat("rollout restart triggered for ", name)
}

/// The group and version of an `apiVersion`: split at the first `/`, or
/// the core group (empty) with the whole text as the version.
pub open spec fn api_version_parts(v: Seq<char>) -> (Seq<char>, Seq<char>) {
    match find_char(v, '/') {
        Some(k) => (v.take(k as int), v.skip(k + 1 as int)),
        None => (seq![], v),
    }
}

pub fn split_api_version(api_version: &str) -> (r: (String, String))
    ensures
        (r.0@, r.1@) == api_version_parts(api_version@),
{
    let v = chars_of(api_version);
    match first_index(v.as_slice(), '/') {
        Some(k) => {
            let g = vstd::slice::slice_subrange(v.as_slice(), 0, k);
            let n = v.len();
            let rest = vstd::slice::slice_subrange(v.as_slice(), k + 1, n);
            assert(g@ =~= v@.take(k as int));
            assert(rest@ =~= v@.skip(k + 1 as int));
            (string_of(g), string_of(rest))
        },
        None => (String::new(), String::from_str(api_version)),
    }
}

/// Where one applied document goes: the group, version and kind it is
/// resolved by, and the namespace it is forced into.
#[derive(Debug, Clone)]
pub struct ApplyTarget {
    pub group: String,
    pub version: String,
    pub kind: String,
    pub namespace: String,
}

/// The target of an applied document with the given type fields (its
/// `apiVersion` and `kind`, where it has both), in the active namespace:
/// whatever namespace the document names, it is replaced by the active one.
pub fn apply_target(types: Option<(String, String)>, namespace: &str) -> (r: Result<ApplyTarget, AppError>)
    ensures
        match types {
            None => r matches Err(e) && e@ == ErrorV::BadInput("apply: missing apiVersion/kind"@),
            Some((api_version, kind)) => r matches Ok(t) && (t.group@, t.version@) == api_version_parts(
                api_version@,
            ) && t.kind@ == kind@ && t.namespace@ == namespace@,
        },
{
    match types {
        None => Err(bad_input("apply: missing apiVersion/kind")),
        Some((api_version, kind)) => {
            let (group, version) = split_api_version(api_version.as_str());
            Ok(ApplyTarget { group, version, kind, namespace: String::from_str(namespace) })
        },
    }
}

// ---------- the documents of an apply ----------

#[verifier::external_type_specification]
#[verifier::external_body]
pub struct ExDynamicObject(kube::core::DynamicObject);

/// One document of a YAML stream: null, an object of no Kubernetes shape
/// (with serde_yaml's message), or an object with its type fields and name.
pub enum YamlDoc {
    Null,
    Bad(String),
    Object { types: Option<(String, String)>, name: Option<String>, object: kube::core::DynamicObject },
}

/// A document as plain values (the object itself is carried, not read).
pub enum YamlDocV {
    Null,
    Bad(Seq<char>),
    Object { types: Option<(Seq<char>, Seq<char>)>, name: Option<Seq<char>> },
}

pub open spec fn yaml_doc_view(d: YamlDoc) -> YamlDocV {
    match d {
        YamlDoc::Null => YamlDocV::Null,
        YamlDoc::Bad(m) => YamlDocV::Bad(m@),
        YamlDoc::Object { types, name, .. } => YamlDocV::Object {
            types: match types {
                Some((a, k)) => Some((a@, k@)),
                None => None,
            },
            name: crate::parser::opt_view(name),
        },
    }
}

pub open spec fn yaml_docs_view(r: Result<Vec<YamlDoc>, String>) -> Result<Seq<YamlDocV>, Seq<char>> {
    match r {
        Ok(v) => Ok(v@.map_values(|d: YamlDoc| yaml_doc_view(d))),
        Err(m) => Err(m@),
    }
}

/// What serde_yaml reads of a YAML stream: each document, or the message
/// of the error that stops the stream.
pub uninterp spec fn yaml_documents(body: Seq<char>) -> Result<Seq<YamlDocV>, Seq<char>>;

/// Calls `serde_yaml::Deserializer::from_str` and reads each document as a
/// `serde_yaml::Value`, then each non-null one with `serde_yaml::from_value`
/// as a `DynamicObject` (kube). Claims only that what it gives is
/// `yaml_documents` of the text.
#[verifier::external_body]
fn parse_yaml_documents(body: &str) -> (r: Result<Vec<YamlDoc>, String>)
    ensures
        yaml_docs_view(r) == yaml_documents(body@),
{
    let mut docs = Vec::new();
    for de in serde_yaml::Deserializer::from_str(body) {
        let v = serde_yaml::Value::deserialize(de).map_err(|e| e.to_string())?;
        docs.push(match v {
            serde_yaml::Value::Null => YamlDoc::Null,
            v => match serde_yaml::from_value::<kube::core::DynamicObject>(v) {
                Err(e) => YamlDoc::Bad(e.to_string()),
                Ok(o) => YamlDoc::Object { types: o.types.clone().map(|t| (t.api_version, t.kind)), name: o.metadata.name.clone(), object: o },
            },
        });
    }
    Ok(docs)
}

/// One document to apply: the object, where it goes (its namespace forced
/// to the active one), and the name it is patched under, if it has one.
pub struct ApplyDoc {
    pub object: kube::core::DynamicObject,
    pub target: ApplyTarget,
    pub name: Option<String>,
}

pub struct ApplyDocV {
    pub group: Seq<char>,
    pub version: Seq<char>,
    pub kind: Seq<char>,
    pub namespace: Seq<char>,
    pub name: Option<Seq<char>>,
}

pub open spec fn apply_doc_view(d: ApplyDoc) -> ApplyDocV {
    ApplyDocV {
        group: d.target.group@,
        version: d.target.version@,
        kind: d.target.kind@,
        namespace: d.target.namespace@,
        name: crate::parser::opt_view(d.name),
    }
}

pub open spec fn step_view(r: Result<ApplyDoc, AppError>) -> Result<ApplyDocV, ErrorV> {
    match r {
        Ok(d) => Ok(apply_doc_view(d)),
        Err(e) => Err(e@),
    }
}

/// The error for YAML that serde_yaml refuses.
pub open spec fn yaml_error(m: Seq<char>) -> ErrorV {
    ErrorV::KubeconfigRejected("yaml: "@ + m)
}

/// What one non-null document comes to in namespace `ns`.
pub open spec fn apply_step_of(d: YamlDocV, ns: Seq<char>) -> Result<ApplyDocV, ErrorV> {
    match d {
        YamlDocV::Object { types, name } => match types {
            Some((av, k)) => Ok(
                ApplyDocV {
                    group: api_version_parts(av).0,
                    version: api_version_parts(av).1,
                    kind: k,
                    namespace: ns,
                    name,
                },
            ),
            None => Err(ErrorV::BadInput("apply: missing apiVersion/kind"@)),
        },
        YamlDocV::Bad(m) => Err(yaml_error(m)),
        YamlDocV::Null => Err(yaml_error(seq![])),
    }
}

/// The steps of an apply: one per non-null document, in order.
pub open spec fn apply_steps(ds: Seq<YamlDocV>, ns: Seq<char>) -> Seq<Result<ApplyDocV, ErrorV>>
    decreases ds.len(),
{
    if ds.len() == 0 {
        seq![]
    } else if ds.last() is Null {
        apply_steps(ds.drop_last(), ns)
    } else {
        apply_steps(ds.drop_last(), ns).push(apply_step_of(ds.last(), ns))
    }
}

/// Plans an apply of a pasted YAML stream into namespace `namespace`: the
/// whole stream is read first, and an unreadable stream is refused; then
/// each non-null document, in order, becomes a step: the document with
/// its namespace forced to `namespace`, or the error it is refused with.
/// Null documents are skipped.
pub fn plan_apply(body: &str, namespace: &str) -> (r: Result<Vec<Result<ApplyDoc, AppError>>, AppError>)
    ensures
        match yaml_documents(body@) {
            Err(m) => r matches Err(e) && e@ == yaml_error(m),
            Ok(ds) => r matches Ok(steps) && steps@.map_values(|s: Result<ApplyDoc, AppError>| step_view(s))
                == apply_steps(ds, namespace@),
        },
{
    let docs = match parse_yaml_documents(body) {
        Err(m) => return Err(AppError::from_yaml_message(m.as_str())),
        Ok(d) => d,
    };
    let ghost ds = docs@.map_values(|d: YamlDoc| yaml_doc_view(d));
    assert forall|j: int| 0 <= j < docs@.len() implies yaml_doc_view(#[trigger] docs@[j]) == ds[0 + j] by {};
    let mut steps: Vec<Result<ApplyDoc, AppError>> = Vec::new();
    let mut rest = docs;
    let n = rest.len();
    let mut k: usize = 0;
    while k < n
        invariant
            n == ds.len(),
            k <= n,
            rest@.len() == n - k,
            forall|j: int| 0 <= j < n - k ==> yaml_doc_view(#[trigger] rest@[j]) == ds[k + j],
            steps@.map_values(|s: Result<ApplyDoc, AppError>| step_view(s)) == apply_steps(ds.take(k as int), namespace@),
        decreases n - k,
    {
        let ghost old_rest = rest@;
        let d = rest.remove(0);
        let ghost dv = yaml_doc_view(d);
        assert(dv == ds[k as int]) by {
            assert(yaml_doc_view(old_rest[0]) == ds[k + 0]);
        };
        assert forall|j: int| 0 <= j < n - (k + 1) implies yaml_doc_view(#[trigger] rest@[j]) == ds[(k + 1) + j] by {
            assert(rest@[j] == old_rest[j + 1]);
            assert(yaml_doc_view(old_rest[j + 1]) == ds[k + (j + 1)]);
        };
        assert(ds.take(k + 1).drop_last() =~= ds.take(k as int));
        assert(ds.take(k + 1).last() == dv);
        let ghost before = steps@;
        match d {
            YamlDoc::Null => {},
            YamlDoc::Bad(m) => {
                steps.push(Err(AppError::from_yaml_message(m.as_str())));
                assert(steps@.map_values(|s: Result<ApplyDoc, AppError>| step_view(s)) =~= before.map_values(|s: Result<ApplyDoc, AppError>| step_view(s)).push(apply_step_of(dv, namespace@)));
            },
            YamlDoc::Object { types, name, object } => {
                let step = match apply_target(types, namespace) {
                    Err(e) => Err(e),
                    Ok(target) => Ok(ApplyDoc { object, target, name }),
                };
                steps.push(step);
                assert(steps@.map_values(|s: Result<ApplyDoc, AppError>| step_view(s)) =~= before.map_values(|s: Result<ApplyDoc, AppError>| step_view(s)).push(apply_step_of(dv, namespace@)));
            },
        }
        k = k + 1;
    }
    assert(ds.take(n as int) =~= ds);
    Ok(steps)
}

/// The error for a kind the cluster's API discovery does not know.
pub fn unknown_kind(kind: &str) -> (r: AppError)
    ensures
        r@ == ErrorV::BadInput("unknown kind "@ + kind@),
{
    AppError::BadInput(concat("unknown kind ", kind))
}

/// The name an applied document is patched under.
pub fn applied_name(name: Option<String>) -> (r: Result<String, AppError>)
    ensures
        match name {
            Some(n) => r matches Ok(m) && m@ == n@,
            None => r matches Err(e) && e@ == ErrorV::BadInput("apply: object missing metadata.name"@),
        },
{
    match name {
        Some(n) => Ok(n),
        None => Err(bad_input("apply: object missing metadata.name")),
    }
}

/// How an applied object is named in the result: its kind in lower case,
/// a slash, its name.
pub fn applied_entry(kind: &str, name: &str) -> (r: String)
    ensures
        r@ == lower(kind@) + seq!['/'] + name@,
{
    let k = chars_of(kind);
    let lk = lowercase(k.as_slice());
    let mut s = string_of(lk.as_slice());
    push_char(&mut s, '/');
    append(&mut s, name);
    assert(s@ =~= lower(kind@) + seq!['/'] + name@);
    s
}

/// Texts joined by `, `.
pub open spec fn join_comma(ws: Seq<Seq<char>>) -> Seq<char>
    decreases ws.len(),
{
    if ws.len() == 0 {
        seq![]
    } else if ws.len() == 1 {
        ws[0]
    } else {
        join_comma(ws.drop_last()) + ", "@ + ws.last()
    }
}

/// The result message of an apply.
pub fn applied_message(entries: &Vec<String>) -> (r: String)
    ensures
        r@ == "applied: "@ + join_comma(texts(entries@)),
{
    let mut joined = String::new();
    let mut i: usize = 0;
    while i < entries.len()
        invariant
            i <= entries@.len(),
            joined@ == join_comma(texts(entries@.take(i as int))),
        decreases entries@.len() - i,
    {
        let ghost before = joined@;
        if i > 0 {
            append(&mut joined, ", ");
        }
        append(&mut joined, entries[i].as_str());
        let ghost t = texts(entries@.take(i + 1));
        assert(texts(entries@.take(i + 1)).drop_last() =~= texts(entries@.take(i as int)));
        if i == 0 {
            assert(t =~= seq![entries@[0]@]);
        }
        assert(joined@ =~= join_comma(t));
        i = i + 1;
    }
    assert(entries@.take(entries@.len() as int) =~= entries@);
    concat("applied: ", joined.as_str())
}

} // verus!
