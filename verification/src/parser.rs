//! Restricted command DSL.
//!
//! Users do **not** type `kubectl`. Allowed verbs are a small whitelist; any
//! flag that could redirect the command at a different cluster/context
//! (`--context`, `--kubeconfig`, `--server`, `--token`, ...) is rejected.

use vstd::prelude::*;
use crate::error::{bad_input, parse_error, quoted, AppError, ErrorV};
use crate::text::{
    chars_of, find_char, first_index, lower, lowercase, parse_i32, parse_i32_spec, parse_i64,
    parse_i64_spec, same_text, split_words, starts_with, string_of, views, words,
};

verus! {

#[derive(Debug, Clone, Copy, PartialEq, Eq, Structural)]
pub enum Resource {
    Pods,
    Deployments,
    Services,
    Nodes,
    Namespaces,
    ConfigMaps,
    Secrets,
    Events,
    ReplicaSets,
    StatefulSets,
    DaemonSets,
    Ingresses,
    Jobs,
    CronJobs,
}

#[derive(Debug, Clone, PartialEq, Eq)]
#[allow(inconsistent_fields)]
pub enum Command {
    Get { resource: Resource, name: Option<String> },
    Describe { resource: Resource, name: String },
    Logs { pod: String, container: Option<String>, tail: Option<i64>, follow: bool },
    Delete { resource: Resource, name: String },
    /// Deployments / statefulsets / replicasets.
    Scale { resource: Resource, name: String, replicas: i32 },
    RolloutRestart { resource: Resource, name: String },
    /// The inline YAML body is supplied through a separate paste field and
    /// referenced here by an opaque id.
    Apply { paste_id: String },
    Help,
}

/// A `Command` with its texts as character sequences.
#[allow(inconsistent_fields)]
pub enum CommandV {
    Get { resource: Resource, name: Option<Seq<char>> },
    Describe { resource: Resource, name: Seq<char> },
    Logs { pod: Seq<char>, container: Option<Seq<char>>, tail: Option<i64>, follow: bool },
    Delete { resource: Resource, name: Seq<char> },
    Scale { resource: Resource, name: Seq<char>, replicas: i32 },
    RolloutRestart { resource: Resource, name: Seq<char> },
    Apply { paste_id: Seq<char> },
    Help,
}

pub open spec fn opt_view(o: Option<String>) -> Option<Seq<char>> {
    match o {
        Some(s) => Some(s@),
        None => None,
    }
}

impl View for Command {
    type V = CommandV;

    open spec fn view(&self) -> CommandV {
        match self {
            Command::Get { resource, name } => CommandV::Get { resource: *resource, name: opt_view(*name) },
            Command::Describe { resource, name } => CommandV::Describe { resource: *resource, name: name@ },
            Command::Logs { pod, container, tail, follow } => CommandV::Logs {
                pod: pod@,
                container: opt_view(*container),
                tail: *tail,
                follow: *follow,
            },
            Command::Delete { resource, name } => CommandV::Delete { resource: *resource, name: name@ },
            Command::Scale { resource, name, replicas } => CommandV::Scale {
                resource: *resource,
                name: name@,
                replicas: *replicas,
            },
            Command::RolloutRestart { resource, name } => CommandV::RolloutRestart {
                resource: *resource,
                name: name@,
            },
            Command::Apply { paste_id } => CommandV::Apply { paste_id: paste_id@ },
            Command::Help => CommandV::Help,
        }
    }
}

// ---------- resources ----------

/// The resource a lower-case name or abbreviation stands for.
pub open spec fn resource_named(w: Seq<char>) -> Option<Resource> {
    if w == "pod"@ || w == "pods"@ || w == "po"@ {
        Some(Resource::Pods)
    } else if w == "deploy"@ || w == "deployment"@ || w == "deployments"@ {
        Some(Resource::Deployments)
    } else if w == "svc"@ || w == "service"@ || w == "services"@ {
        Some(Resource::Services)
    } else if w == "node"@ || w == "nodes"@ || w == "no"@ {
        Some(Resource::Nodes)
    } else if w == "ns"@ || w == "namespace"@ || w == "namespaces"@ {
        Some(Resource::Namespaces)
    } else if w == "cm"@ || w == "configmap"@ || w == "configmaps"@ {
        Some(Resource::ConfigMaps)
    } else if w == "secret"@ || w == "secrets"@ {
        Some(Resource::Secrets)
    } else if w == "event"@ || w == "events"@ || w == "ev"@ {
        Some(Resource::Events)
    } else if w == "rs"@ || w == "replicaset"@ || w == "replicasets"@ {
        Some(Resource::ReplicaSets)
    } else if w == "sts"@ || w == "statefulset"@ || w == "statefulsets"@ {
        Some(Resource::StatefulSets)
    } else if w == "ds"@ || w == "daemonset"@ || w == "daemonsets"@ {
        Some(Resource::DaemonSets)
    } else if w == "ing"@ || w == "ingress"@ || w == "ingresses"@ {
        Some(Resource::Ingresses)
    } else if w == "job"@ || w == "jobs"@ {
        Some(Resource::Jobs)
    } else if w == "cj"@ || w == "cronjob"@ || w == "cronjobs"@ {
        Some(Resource::CronJobs)
    } else {
        None
    }
}

/// What `Resource::parse` gives for a word: the resource its lower case
/// names, else a parse error quoting the lower-case word.
pub open spec fn resource_result(s: Seq<char>) -> Result<Resource, ErrorV> {
    match resource_named(lower(s)) {
        Some(r) => Ok(r),
        None => Err(ErrorV::Parse("unknown resource '"@ + lower(s) + "'"@)),
    }
}

fn any_of(w: &[char], a: &str, b: &str, c: &str) -> (r: bool)
    ensures
        r == (w@ == a@ || w@ == b@ || w@ == c@),
{
    same_text(w, a) || same_text(w, b) || same_text(w, c)
}

fn resource_of(w: &[char]) -> (r: Option<Resource>)
    ensures
        r == resource_named(w@),
{
    if any_of(w, "pod", "pods", "po") {
        Some(Resource::Pods)
    } else if any_of(w, "deploy", "deployment", "deployments") {
        Some(Resource::Deployments)
    } else if any_of(w, "svc", "service", "services") {
        Some(Resource::Services)
    } else if any_of(w, "node", "nodes", "no") {
        Some(Resource::Nodes)
    } else if any_of(w, "ns", "namespace", "namespaces") {
        Some(Resource::Namespaces)
    } else if any_of(w, "cm", "configmap", "configmaps") {
        Some(Resource::ConfigMaps)
    } else if same_text(w, "secret") || same_text(w, "secrets") {
        Some(Resource::Secrets)
    } else if any_of(w, "event", "events", "ev") {
        Some(Resource::Events)
    } else if any_of(w, "rs", "replicaset", "replicasets") {
        Some(Resource::ReplicaSets)
    } else if any_of(w, "sts", "statefulset", "statefulsets") {
        Some(Resource::StatefulSets)
    } else if any_of(w, "ds", "daemonset", "daemonsets") {
        Some(Resource::DaemonSets)
    } else if any_of(w, "ing", "ingress", "ingresses") {
        Some(Resource::Ingresses)
    } else if same_text(w, "job") || same_text(w, "jobs") {
        Some(Resource::Jobs)
    } else if any_of(w, "cj", "cronjob", "cronjobs") {
        Some(Resource::CronJobs)
    } else {
        None
    }
}

fn resource_from(w: &[char]) -> (r: Result<Resource, AppError>)
    ensures
        res_view_r(r) == resource_result(w@),
{
    let lc = lowercase(w);
    match resource_of(lc.as_slice()) {
        Some(r) => Ok(r),
        None => Err(AppError::Parse(quoted("unknown resource '", lc.as_slice(), "'"))),
    }
}

pub open spec fn res_view_r(r: Result<Resource, AppError>) -> Result<Resource, ErrorV> {
    match r {
        Ok(v) => Ok(v),
        Err(e) => Err(e@),
    }
}

impl Resource {
    /// Parses a resource name or abbreviation, in any ASCII case.
    pub fn parse(s: &str) -> (r: Result<Resource, AppError>)
        ensures
            res_view_r(r) == resource_result(s@),
    {
        let w = chars_of(s);
        resource_from(w.as_slice())
    }
}

// ---------- forbidden tokens ----------

/// The lower-case tokens that, present anywhere in the input, reject it:
/// attempts to escape the app-managed cluster and namespace.
pub open spec fn is_forbidden_word(w: Seq<char>) -> bool {
    ||| w == "kubectl"@
    ||| w == "--kubeconfig"@
    ||| w == "--context"@
    ||| w == "--server"@
    ||| w == "--token"@
    ||| w == "--user"@
    ||| w == "--cluster"@
    ||| w == "--as"@
    ||| w == "--as-group"@
    ||| w == "--certificate-authority"@
    ||| w == "--client-certificate"@
    ||| w == "--client-key"@
    ||| w == "--insecure-skip-tls-verify"@
    ||| w == "exec"@
    ||| w == "cp"@
    ||| w == "port-forward"@
    ||| w == "proxy"@
    ||| w == "auth"@
    ||| w == "config"@
}

/// A token is forbidden when its ASCII lower case is one of the forbidden words.
pub open spec fn is_forbidden_token(t: Seq<char>) -> bool {
    is_forbidden_word(lower(t))
}

fn is_forbidden(t: &[char]) -> (r: bool)
    ensures
        r == is_forbidden_token(t@),
{
    let lc = lowercase(t);
    let w = lc.as_slice();
    any_of(w, "kubectl", "--kubeconfig", "--context") || any_of(w, "--server", "--token", "--user")
        || any_of(w, "--cluster", "--as", "--as-group") || any_of(
        w,
        "--certificate-authority",
        "--client-certificate",
        "--client-key",
    ) || any_of(w, "--insecure-skip-tls-verify", "exec", "cp") || any_of(
        w,
        "port-forward",
        "proxy",
        "auth",
    ) || same_text(w, "config")
}

/// The first forbidden token, if any.
pub open spec fn first_forbidden(toks: Seq<Seq<char>>) -> Option<Seq<char>>
    decreases toks.len(),
{
    if toks.len() == 0 {
        None
    } else if is_forbidden_token(toks[0]) {
        Some(toks[0])
    } else {
        first_forbidden(toks.drop_first())
    }
}

pub open spec fn forbidden_message(t: Seq<char>) -> Seq<char> {
    "token '"@ + t + "' is not allowed; the cluster and namespace are managed by the app"@
}

// ---------- the grammar ----------

pub open spec fn perr<T>(msg: Seq<char>) -> Result<T, ErrorV> {
    Err(ErrorV::Parse(msg))
}

pub open spec fn get_result(rest: Seq<Seq<char>>) -> Result<CommandV, ErrorV> {
    if rest.len() == 0 {
        perr("usage: get <resource> [name]"@)
    } else {
        match resource_result(rest[0]) {
            Err(e) => Err(e),
            Ok(r) => Ok(
                CommandV::Get {
                    resource: r,
                    name: if rest.len() > 1 {
                        Some(rest[1])
                    } else {
                        None
                    },
                },
            ),
        }
    }
}

pub open spec fn describe_result(rest: Seq<Seq<char>>) -> Result<CommandV, ErrorV> {
    if rest.len() < 2 {
        perr("usage: describe <resource> <name>"@)
    } else {
        match resource_result(rest[0]) {
            Err(e) => Err(e),
            Ok(r) => Ok(CommandV::Describe { resource: r, name: rest[1] }),
        }
    }
}

pub open spec fn delete_result(rest: Seq<Seq<char>>) -> Result<CommandV, ErrorV> {
    if rest.len() < 2 {
        perr("usage: delete <resource> <name>"@)
    } else {
        match resource_result(rest[0]) {
            Err(e) => Err(e),
            Ok(r) => Ok(CommandV::Delete { resource: r, name: rest[1] }),
        }
    }
}

/// What the `logs` options read so far have set.
pub struct LogsState {
    pub pod: Option<Seq<char>>,
    pub container: Option<Seq<char>>,
    pub tail: Option<i64>,
    pub follow: bool,
}

pub open spec fn unexpected(t: Seq<char>) -> Seq<char> {
    "unexpected token '"@ + t + "'"@
}

/// Reads the `logs` options from position `i` on.
pub open spec fn logs_scan(rest: Seq<Seq<char>>, i: int, st: LogsState) -> Result<LogsState, ErrorV>
    decreases rest.len() - i,
{
    if i < 0 || i >= rest.len() {
        Ok(st)
    } else {
        let t = rest[i];
        if t == "-c"@ || t == "--container"@ {
            if i + 1 < rest.len() {
                logs_scan(rest, i + 2, LogsState { container: Some(rest[i + 1]), ..st })
            } else {
                perr("expected container name"@)
            }
        } else if t == "--tail"@ {
            if i + 1 < rest.len() {
                match parse_i64_spec(rest[i + 1]) {
                    Some(n) => logs_scan(rest, i + 2, LogsState { tail: Some(n), ..st }),
                    None => perr("--tail must be an integer"@),
                }
            } else {
                perr("expected --tail value"@)
            }
        } else if t == "-f"@ || t == "--follow"@ {
            logs_scan(rest, i + 1, LogsState { follow: true, ..st })
        } else if !(t.len() > 0 && t[0] == '-') && st.pod is None {
            logs_scan(rest, i + 1, LogsState { pod: Some(t), ..st })
        } else {
            perr(unexpected(t))
        }
    }
}

pub open spec fn logs_result(rest: Seq<Seq<char>>) -> Result<CommandV, ErrorV> {
    if rest.len() == 0 {
        perr("usage: logs <pod> [-c container] [--tail N] [-f]"@)
    } else {
        match logs_scan(rest, 0, LogsState { pod: None, container: None, tail: None, follow: false }) {
            Err(e) => Err(e),
            Ok(st) => match st.pod {
                None => perr("pod name required"@),
                Some(p) => Ok(
                    CommandV::Logs { pod: p, container: st.container, tail: st.tail, follow: st.follow },
                ),
            },
        }
    }
}

/// Reads the `scale` options from position `i` on; the last `--replicas` wins.
pub open spec fn scale_scan(tail: Seq<Seq<char>>, i: int, replicas: Option<i32>) -> Result<Option<i32>, ErrorV>
    decreases tail.len() - i,
{
    if i < 0 || i >= tail.len() {
        Ok(replicas)
    } else {
        let t = tail[i];
        if t == "--replicas"@ {
            if i + 1 < tail.len() {
                match parse_i32_spec(tail[i + 1]) {
                    Some(n) => scale_scan(tail, i + 2, Some(n)),
                    None => perr("--replicas must be an integer"@),
                }
            } else {
                perr("expected replicas value"@)
            }
        } else if "--replicas="@.is_prefix_of(t) {
            match parse_i32_spec(t.skip(11)) {
                Some(n) => scale_scan(tail, i + 1, Some(n)),
                None => perr("--replicas must be an integer"@),
            }
        } else {
            perr(unexpected(t))
        }
    }
}

pub open spec fn scale_usage() -> Seq<char> {
    "usage: scale <resource> <name> --replicas N"@
}

pub open spec fn scale_finish(r: Result<Resource, ErrorV>, name: Seq<char>, tail: Seq<Seq<char>>) -> Result<CommandV, ErrorV> {
    match r {
        Err(e) => Err(e),
        Ok(res) => match scale_scan(tail, 0, None) {
            Err(e) => Err(e),
            Ok(None) => perr("--replicas required"@),
            Ok(Some(n)) => if n < 0 {
                Err(ErrorV::BadInput("--replicas must be >= 0"@))
            } else {
                Ok(CommandV::Scale { resource: res, name: name, replicas: n })
            },
        },
    }
}

/// `scale <resource>/<name> ...` (split at the first `/`) or
/// `scale <resource> <name> ...`.
pub open spec fn scale_result(rest: Seq<Seq<char>>) -> Result<CommandV, ErrorV> {
    if rest.len() == 0 {
        perr(scale_usage())
    } else {
        match find_char(rest[0], '/') {
            Some(k) => scale_finish(
                resource_result(rest[0].take(k as int)),
                rest[0].skip(k + 1 as int),
                rest.drop_first(),
            ),
            None => if rest.len() >= 2 {
                scale_finish(resource_result(rest[0]), rest[1], rest.skip(2))
            } else {
                perr(scale_usage())
            },
        }
    }
}

/// `rollout restart <resource>/<name>` (split at the first `/`) or
/// `rollout restart <resource> <name>`; the sub-command in any ASCII case.
pub open spec fn rollout_result(rest: Seq<Seq<char>>) -> Result<CommandV, ErrorV> {
    if rest.len() < 2 || lower(rest[0]) != "restart"@ {
        perr(rollout_usage())
    } else {
        match find_char(rest[1], '/') {
            Some(k) => match resource_result(rest[1].take(k as int)) {
                Err(e) => Err(e),
                Ok(r) => Ok(CommandV::RolloutRestart { resource: r, name: rest[1].skip(k + 1 as int) }),
            },
            None => if rest.len() < 3 {
                perr(rollout_usage())
            } else {
                match resource_result(rest[1]) {
                    Err(e) => Err(e),
                    Ok(r) => Ok(CommandV::RolloutRestart { resource: r, name: rest[2] }),
                }
            },
        }
    }
}

pub open spec fn rollout_usage() -> Seq<char> {
    "usage: rollout restart <resource> <name>"@
}

pub open spec fn apply_result(rest: Seq<Seq<char>>) -> Result<CommandV, ErrorV> {
    if rest.len() != 1 {
        perr("usage: apply paste:<id>  (paste YAML in the apply dialog first)"@)
    } else if !"paste:"@.is_prefix_of(rest[0]) {
        perr("apply requires a paste:<id> reference"@)
    } else if rest[0].len() == 6 {
        perr("paste id is empty"@)
    } else {
        Ok(CommandV::Apply { paste_id: rest[0].skip(6) })
    }
}

/// What a command line means: its words are checked for forbidden tokens,
/// then the first word (in any ASCII case) picks the verb.
pub open spec fn command_result(input: Seq<char>) -> Result<CommandV, ErrorV> {
    let toks = words(input);
    if toks.len() == 0 {
        perr("empty command"@)
    } else if first_forbidden(toks) is Some {
        Err(ErrorV::Forbidden(forbidden_message(first_forbidden(toks)->0)))
    } else {
        let verb = lower(toks[0]);
        let rest = toks.drop_first();
        if verb == "help"@ || verb == "?"@ {
            Ok(CommandV::Help)
        } else if verb == "get"@ || verb == "ls"@ || verb == "list"@ {
            get_result(rest)
        } else if verb == "describe"@ || verb == "desc"@ {
            describe_result(rest)
        } else if verb == "logs"@ || verb == "log"@ {
            logs_result(rest)
        } else if verb == "delete"@ || verb == "del"@ || verb == "rm"@ {
            delete_result(rest)
        } else if verb == "scale"@ {
            scale_result(rest)
        } else if verb == "rollout"@ {
            rollout_result(rest)
        } else if verb == "apply"@ {
            apply_result(rest)
        } else {
            perr("unknown verb '"@ + verb + "'. type 'help' for a list"@)
        }
    }
}

// ---------- the parser ----------

pub open spec fn cmd_res_view(r: Result<Command, AppError>) -> Result<CommandV, ErrorV> {
    match r {
        Ok(c) => Ok(c@),
        Err(e) => Err(e@),
    }
}

fn parse_get(rest: &[Vec<char>]) -> (r: Result<Command, AppError>)
    ensures
        cmd_res_view(r) == get_result(views(rest@)),
{
    if rest.len() == 0 {
        return Err(parse_error("usage: get <resource> [name]"));
    }
    let resource = match resource_from(rest[0].as_slice()) {
        Ok(r) => r,
        Err(e) => return Err(e),
    };
    let name = if rest.len() > 1 {
        Some(string_of(rest[1].as_slice()))
    } else {
        None
    };
    Ok(Command::Get { resource, name })
}

fn parse_describe(rest: &[Vec<char>]) -> (r: Result<Command, AppError>)
    ensures
        cmd_res_view(r) == describe_result(views(rest@)),
{
    if rest.len() < 2 {
        return Err(parse_error("usage: describe <resource> <name>"));
    }
    let resource = match resource_from(rest[0].as_slice()) {
        Ok(r) => r,
        Err(e) => return Err(e),
    };
    Ok(Command::Describe { resource, name: string_of(rest[1].as_slice()) })
}

fn parse_delete(rest: &[Vec<char>]) -> (r: Result<Command, AppError>)
    ensures
        cmd_res_view(r) == delete_result(views(rest@)),
{
    if rest.len() < 2 {
        return Err(parse_error("usage: delete <resource> <name>"));
    }
    let resource = match resource_from(rest[0].as_slice()) {
        Ok(r) => r,
        Err(e) => return Err(e),
    };
    Ok(Command::Delete { resource, name: string_of(rest[1].as_slice()) })
}

pub open spec fn opt_chars(o: Option<Vec<char>>) -> Option<Seq<char>> {
    match o {
        Some(v) => Some(v@),
        None => None,
    }
}

fn opt_string(o: &Option<Vec<char>>) -> (r: Option<String>)
    ensures
        opt_view(r) == opt_chars(*o),
{
    match o {
        Some(v) => Some(string_of(v.as_slice())),
        None => None,
    }
}

fn parse_logs(rest: &[Vec<char>]) -> (r: Result<Command, AppError>)
    ensures
        cmd_res_view(r) == logs_result(views(rest@)),
{
    let ghost toks = views(rest@);
    if rest.len() == 0 {
        return Err(parse_error("usage: logs <pod> [-c container] [--tail N] [-f]"));
    }
    let mut pod: Option<Vec<char>> = None;
    let mut container: Option<Vec<char>> = None;
    let mut tail: Option<i64> = None;
    let mut follow = false;
    let mut i: usize = 0;
    let ghost init = LogsState { pod: None, container: None, tail: None, follow: false };
    while i < rest.len()
        invariant
            toks == views(rest@),
            toks.len() == rest@.len(),
            init == (LogsState { pod: None, container: None, tail: None, follow: false }),
            i <= rest@.len() + 1,
            logs_scan(toks, 0, init) == logs_scan(
                toks,
                i as int,
                LogsState {
                    pod: opt_chars(pod),
                    container: opt_chars(container),
                    tail: tail,
                    follow: follow,
                },
            ),
        decreases rest@.len() - i,
    {
        let t = rest[i].as_slice();
        assert(t@ == toks[i as int]);
        let ghost cur = LogsState {
            pod: opt_chars(pod),
            container: opt_chars(container),
            tail: tail,
            follow: follow,
        };
        if same_text(t, "-c") || same_text(t, "--container") {
            if i + 1 < rest.len() {
                assert(rest@[i + 1]@ == toks[i + 1]);
                container = Some(rest[i + 1].clone());
                i = i + 2;
            } else {
                assert(logs_scan(toks, i as int, cur) == perr::<LogsState>("expected container name"@));
                return Err(parse_error("expected container name"));
            }
        } else if same_text(t, "--tail") {
            if i + 1 < rest.len() {
                assert(rest@[i + 1]@ == toks[i + 1]);
                match parse_i64(rest[i + 1].as_slice()) {
                    Some(n) => {
                        tail = Some(n);
                        i = i + 2;
                    },
                    None => {
                        assert(logs_scan(toks, i as int, cur) == perr::<LogsState>("--tail must be an integer"@));
                        return Err(parse_error("--tail must be an integer"));
                    },
                }
            } else {
                return Err(parse_error("expected --tail value"));
            }
        } else if same_text(t, "-f") || same_text(t, "--follow") {
            follow = true;
            i = i + 1;
        } else if !(t.len() > 0 && t[0] == '-') && pod.is_none() {
            pod = Some(rest[i].clone());
            i = i + 1;
        } else {
            return Err(AppError::Parse(quoted("unexpected token '", t, "'")));
        }
    }
    let ghost st = LogsState {
        pod: opt_chars(pod),
        container: opt_chars(container),
        tail: tail,
        follow: follow,
    };
    assert(logs_scan(toks, i as int, st) == Ok::<LogsState, ErrorV>(st));
    match pod {
        None => Err(parse_error("pod name required")),
        Some(p) => Ok(
            Command::Logs {
                pod: string_of(p.as_slice()),
                container: opt_string(&container),
                tail,
                follow,
            },
        ),
    }
}

fn scan_replicas(tail: &[Vec<char>]) -> (r: Result<Option<i32>, AppError>)
    ensures
        match r {
            Ok(v) => scale_scan(views(tail@), 0, None) == Ok::<Option<i32>, ErrorV>(v),
            Err(e) => scale_scan(views(tail@), 0, None) == Err::<Option<i32>, ErrorV>(e@),
        },
{
    let ghost toks = views(tail@);
    let mut replicas: Option<i32> = None;
    let mut i: usize = 0;
    while i < tail.len()
        invariant
            toks == views(tail@),
            toks.len() == tail@.len(),
            i <= tail@.len() + 1,
            scale_scan(toks, 0, None) == scale_scan(toks, i as int, replicas),
        decreases tail@.len() - i,
    {
        let t = tail[i].as_slice();
        assert(t@ == toks[i as int]);
        if same_text(t, "--replicas") {
            if i + 1 < tail.len() {
                assert(tail@[i + 1]@ == toks[i + 1]);
                match parse_i32(tail[i + 1].as_slice()) {
                    Some(n) => {
                        replicas = Some(n);
                        i = i + 2;
                    },
                    None => return Err(parse_error("--replicas must be an integer")),
                }
            } else {
                return Err(parse_error("expected replicas value"));
            }
        } else if starts_with(t, "--replicas=") {
            proof {
                reveal_strlit("--replicas=");
            }
            let v = vstd::slice::slice_subrange(t, 11, t.len());
            assert(v@ =~= t@.skip(11));
            match parse_i32(v) {
                Some(n) => {
                    replicas = Some(n);
                    i = i + 1;
                },
                None => return Err(parse_error("--replicas must be an integer")),
            }
        } else {
            return Err(AppError::Parse(quoted("unexpected token '", t, "'")));
        }
    }
    Ok(replicas)
}

fn finish_scale(resource: Result<Resource, AppError>, name: &[char], tail: &[Vec<char>]) -> (r: Result<Command, AppError>)
    ensures
        cmd_res_view(r) == scale_finish(res_view_r(resource), name@, views(tail@)),
{
    let res = match resource {
        Ok(r) => r,
        Err(e) => return Err(e),
    };
    let replicas = match scan_replicas(tail) {
        Ok(Some(n)) => n,
        Ok(None) => return Err(parse_error("--replicas required")),
        Err(e) => return Err(e),
    };
    if replicas < 0 {
        return Err(bad_input("--replicas must be >= 0"));
    }
    Ok(Command::Scale { resource: res, name: string_of(name), replicas })
}

fn parse_scale(rest: &[Vec<char>]) -> (r: Result<Command, AppError>)
    ensures
        cmd_res_view(r) == scale_result(views(rest@)),
{
    let ghost toks = views(rest@);
    if rest.len() == 0 {
        return Err(parse_error("usage: scale <resource> <name> --replicas N"));
    }
    let head = rest[0].as_slice();
    assert(head@ == toks[0]);
    match first_index(head, '/') {
        Some(k) => {
            let r = vstd::slice::slice_subrange(head, 0, k);
            let hl = head.len();
            assert(k < hl);
            let n = vstd::slice::slice_subrange(head, k + 1, hl);
            assert(r@ =~= head@.take(k as int));
            assert(n@ =~= head@.skip(k + 1));
            let tail = vstd::slice::slice_subrange(rest, 1, rest.len());
            assert(views(tail@) =~= toks.drop_first());
            finish_scale(resource_from(r), n, tail)
        },
        None => {
            if rest.len() >= 2 {
                assert(rest@[1]@ == toks[1]);
                let tail = vstd::slice::slice_subrange(rest, 2, rest.len());
                assert(views(tail@) =~= toks.skip(2));
                finish_scale(resource_from(head), rest[1].as_slice(), tail)
            } else {
                Err(parse_error("usage: scale <resource> <name> --replicas N"))
            }
        },
    }
}

fn parse_rollout(rest: &[Vec<char>]) -> (r: Result<Command, AppError>)
    ensures
        cmd_res_view(r) == rollout_result(views(rest@)),
{
    let ghost toks = views(rest@);
    if rest.len() < 2 {
        return Err(parse_error("usage: rollout restart <resource> <name>"));
    }
    assert(rest@[0]@ == toks[0]);
    assert(rest@[1]@ == toks[1]);
    let lc = lowercase(rest[0].as_slice());
    if !same_text(lc.as_slice(), "restart") {
        return Err(parse_error("usage: rollout restart <resource> <name>"));
    }
    let target = rest[1].as_slice();
    match first_index(target, '/') {
        Some(k) => {
            let tl = target.len();
            assert(k < tl);
            let r = vstd::slice::slice_subrange(target, 0, k);
            let n = vstd::slice::slice_subrange(target, k + 1, tl);
            assert(r@ =~= target@.take(k as int));
            assert(n@ =~= target@.skip(k + 1));
            let resource = match resource_from(r) {
                Ok(res) => res,
                Err(e) => return Err(e),
            };
            Ok(Command::RolloutRestart { resource, name: string_of(n) })
        },
        None => {
            if rest.len() < 3 {
                return Err(parse_error("usage: rollout restart <resource> <name>"));
            }
            assert(rest@[2]@ == toks[2]);
            let resource = match resource_from(target) {
                Ok(res) => res,
                Err(e) => return Err(e),
            };
            Ok(Command::RolloutRestart { resource, name: string_of(rest[2].as_slice()) })
        },
    }
}

fn parse_apply(rest: &[Vec<char>]) -> (r: Result<Command, AppError>)
    ensures
        cmd_res_view(r) == apply_result(views(rest@)),
{
    let ghost toks = views(rest@);
    if rest.len() != 1 {
        return Err(parse_error("usage: apply paste:<id>  (paste YAML in the apply dialog first)"));
    }
    let t = rest[0].as_slice();
    assert(t@ == toks[0]);
    if !starts_with(t, "paste:") {
        return Err(parse_error("apply requires a paste:<id> reference"));
    }
    proof {
        reveal_strlit("paste:");
    }
    if t.len() == 6 {
        return Err(parse_error("paste id is empty"));
    }
    let id = vstd::slice::slice_subrange(t, 6, t.len());
    assert(id@ =~= t@.skip(6));
    Ok(Command::Apply { paste_id: string_of(id) })
}

/// Parses a command line.
pub fn parse(input: &str) -> (r: Result<Command, AppError>)
    ensures
        cmd_res_view(r) == command_result(input@),
{
    let chars = chars_of(input);
    let tokens = split_words(chars.as_slice());
    let ghost toks = views(tokens@);
    if tokens.len() == 0 {
        return Err(parse_error("empty command"));
    }
    let mut i: usize = 0;
    assert(toks.skip(0) =~= toks);
    while i < tokens.len()
        invariant
            toks == views(tokens@),
            toks == words(input@),
            toks.len() == tokens@.len(),
            i <= tokens@.len(),
            first_forbidden(toks) == first_forbidden(toks.skip(i as int)),
        decreases tokens@.len() - i,
    {
        let t = tokens[i].as_slice();
        assert(toks.skip(i as int)[0] == t@);
        assert(toks.skip(i as int).drop_first() =~= toks.skip(i + 1));
        assert(toks.skip(i as int).len() > 0);
        if is_forbidden(t) {
            assert(first_forbidden(toks.skip(i as int)) == Some(t@));
            return Err(
                AppError::Forbidden(
                    quoted(
                        "token '",
                        t,
                        "' is not allowed; the cluster and namespace are managed by the app",
                    ),
                ),
            );
        }
        i = i + 1;
    }
    assert(toks.skip(toks.len() as int) =~= Seq::<Seq<char>>::empty());
    let verb_lc = lowercase(tokens[0].as_slice());
    let verb = verb_lc.as_slice();
    let rest = vstd::slice::slice_subrange(tokens.as_slice(), 1, tokens.len());
    assert(views(rest@) =~= toks.drop_first());
    if same_text(verb, "help") || same_text(verb, "?") {
        Ok(Command::Help)
    } else if any_of(verb, "get", "ls", "list") {
        parse_get(rest)
    } else if same_text(verb, "describe") || same_text(verb, "desc") {
        parse_describe(rest)
    } else if same_text(verb, "logs") || same_text(verb, "log") {
        parse_logs(rest)
    } else if any_of(verb, "delete", "del", "rm") {
        parse_delete(rest)
    } else if same_text(verb, "scale") {
        parse_scale(rest)
    } else if same_text(verb, "rollout") {
        parse_rollout(rest)
    } else if same_text(verb, "apply") {
        parse_apply(rest)
    } else {
        Err(AppError::Parse(quoted("unknown verb '", verb, "'. type 'help' for a list")))
    }
}

} // verus!
