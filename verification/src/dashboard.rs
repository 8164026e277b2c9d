//! The Kubernetes Dashboard proxy's decisions: which pod serves the
//! dashboard and on which port, whether that port speaks TLS, where the
//! bearer token comes from, the auto-login bridge page, and the registry
//! of running proxies (one per cluster). The proxy's sockets, port-forward
//! and TLS live around this module.

use vstd::prelude::*;
use std::sync::Arc;
use std::sync::atomic::AtomicBool;
use crate::crypto::utf8_string;
use crate::error::{AppError, ErrorV};
use crate::registry::Registry;
use crate::text::{
    append, chars_of, contains, contains_text, decimal, lower, lowercase, push_char, push_decimal,
    opt_str_is, str_eq, text_or_empty,
};

verus! {

// ---------- ports ----------

pub open spec fn https_port_number(port: u16) -> bool {
    port == 443 || port == 8443 || port == 9443
}

/// A port speaks HTTPS where its name mentions `https`, `tls` or `secure`
/// (in any ASCII case), or where it is 443, 8443 or 9443.
pub open spec fn is_https_port(port: u16, name: Option<Seq<char>>) -> bool {
    ||| (name matches Some(n) && (contains_text(lower(n), "https"@) || contains_text(lower(n), "tls"@)
        || contains_text(lower(n), "secure"@)))
    ||| https_port_number(port)
}

/// Returns `true` if the port / port-name indicates an HTTPS endpoint.
pub fn port_is_https(port: u16, name: Option<&str>) -> (r: bool)
    ensures
        r == is_https_port(port, match name {
            Some(n) => Some(n@),
            None => None,
        }),
{
    if let Some(n) = name {
        let lc = lowercase(chars_of(n).as_slice());
        if contains(lc.as_slice(), "https") || contains(lc.as_slice(), "tls") || contains(lc.as_slice(), "secure") {
            return true;
        }
    }
    port == 443 || port == 8443 || port == 9443
}

// ---------- finding the dashboard pod ----------

/// A container port as the pod spec declares it.
#[derive(Debug, Clone)]
pub struct ContainerPort {
    pub container_port: i32,
    pub name: Option<String>,
}

/// What the search reads of a listed pod: its name, its phase, and the
/// ports of its first container.
#[derive(Debug, Clone)]
pub struct PodCandidate {
    pub name: Option<String>,
    pub phase: Option<String>,
    pub ports: Vec<ContainerPort>,
}

/// Where the dashboard is served.
#[derive(Debug, Clone)]
pub struct DashboardTarget {
    pub pod_name: String,
    pub port: u16,
    pub https: bool,
}

/// The namespaces searched, in order.
pub fn dashboard_namespaces() -> (r: Vec<&'static str>)
    ensures
        r@.len() == 3,
        r@[0]@ == "kubernetes-dashboard"@,
        r@[1]@ == "kube-system"@,
        r@[2]@ == "default"@,
{
    vec!["kubernetes-dashboard", "kube-system", "default"]
}

/// The label selectors tried in each namespace, in order.
pub fn dashboard_selectors() -> (r: Vec<&'static str>)
    ensures
        r@.len() == 4,
        r@[0]@ == "app.kubernetes.io/name=kubernetes-dashboard"@,
        r@[1]@ == "app=kubernetes-dashboard"@,
        r@[2]@ == "k8s-app=kubernetes-dashboard"@,
        r@[3]@ == "app.kubernetes.io/part-of=kubernetes-dashboard"@,
{
    vec![
        "app.kubernetes.io/name=kubernetes-dashboard",
        "app=kubernetes-dashboard",
        "k8s-app=kubernetes-dashboard",
        "app.kubernetes.io/part-of=kubernetes-dashboard",
    ]
}

pub open spec fn plain_http_port(p: i32) -> bool {
    p == 9090 || p == 8080 || p == 80
}

/// The first plain-HTTP port (9090, 8080 or 80).
pub open spec fn first_plain_port(ports: Seq<ContainerPort>) -> Option<ContainerPort>
    decreases ports.len(),
{
    if ports.len() == 0 {
        None
    } else if plain_http_port(ports[0].container_port) {
        Some(ports[0])
    } else {
        first_plain_port(ports.drop_first())
    }
}

/// The first plain-HTTP port (9090, 8080 or 80), else the first port.
pub open spec fn preferred_port(ports: Seq<ContainerPort>) -> Option<ContainerPort> {
    match first_plain_port(ports) {
        Some(p) => Some(p),
        None => if ports.len() > 0 {
            Some(ports[0])
        } else {
            None
        },
    }
}

/// The port to forward to and whether it speaks TLS; 9090 without TLS
/// where the container declares no port.
pub open spec fn endpoint_of(ports: Seq<ContainerPort>) -> (u16, bool) {
    match preferred_port(ports) {
        Some(p) => (
            p.container_port as u16,
            is_https_port(p.container_port as u16, crate::parser::opt_view(p.name)),
        ),
        None => (9090, false),
    }
}

pub open spec fn running_name(p: PodCandidate) -> Option<Seq<char>> {
    if text_or_empty(p.phase) == "Running"@ {
        crate::parser::opt_view(p.name)
    } else {
        None
    }
}

/// The first running, named pod of a listing, and its endpoint.
pub open spec fn target_of(pods: Seq<PodCandidate>) -> Option<(Seq<char>, u16, bool)>
    decreases pods.len(),
{
    if pods.len() == 0 {
        None
    } else {
        match running_name(pods[0]) {
            Some(n) => Some((n, endpoint_of(pods[0].ports@).0, endpoint_of(pods[0].ports@).1)),
            None => target_of(pods.drop_first()),
        }
    }
}

fn choose_port(ports: &Vec<ContainerPort>) -> (r: Option<usize>)
    ensures
        match r {
            Some(k) => k < ports@.len() && preferred_port(ports@) == Some(ports@[k as int]),
            None => preferred_port(ports@) is None,
        },
{
    let mut i: usize = 0;
    assert(ports@.skip(0) =~= ports@);
    while i < ports.len()
        invariant
            i <= ports@.len(),
            first_plain_port(ports@) == first_plain_port(ports@.skip(i as int)),
        decreases ports@.len() - i,
    {
        assert(ports@.skip(i as int).drop_first() =~= ports@.skip(i + 1));
        assert(ports@.skip(i as int)[0] == ports@[i as int]);
        let p = ports[i].container_port;
        if p == 9090 || p == 8080 || p == 80 {
            return Some(i);
        }
        i = i + 1;
    }
    if ports.len() > 0 {
        assert(ports@.skip(ports@.len() as int) =~= Seq::<ContainerPort>::empty());
        Some(0)
    } else {
        None
    }
}

fn endpoint(ports: &Vec<ContainerPort>) -> (r: (u16, bool))
    ensures
        r == endpoint_of(ports@),
{
    match choose_port(ports) {
        Some(k) => {
            let p = &ports[k];
            #[verifier::truncate]
            let port = p.container_port as u16;
            let name: Option<&str> = match &p.name {
                Some(n) => Some(n.as_str()),
                None => None,
            };
            (port, port_is_https(port, name))
        },
        None => (9090, false),
    }
}

/// The first running, named pod of a listing and where it serves.
pub fn pick_dashboard_pod(pods: &Vec<PodCandidate>) -> (r: Option<DashboardTarget>)
    ensures
        match r {
            Some(t) => target_of(pods@) == Some((t.pod_name@, t.port, t.https)),
            None => target_of(pods@) is None,
        },
{
    let mut i: usize = 0;
    assert(pods@.skip(0) =~= pods@);
    while i < pods.len()
        invariant
            i <= pods@.len(),
            target_of(pods@) == target_of(pods@.skip(i as int)),
        decreases pods@.len() - i,
    {
        assert(pods@.skip(i as int).drop_first() =~= pods@.skip(i + 1));
        assert(pods@.skip(i as int)[0] == pods@[i as int]);
        let pod = &pods[i];
        proof {
            reveal_strlit("Running");
        }
        let running = opt_str_is(&pod.phase, "Running");
        if running {
            if let Some(name) = &pod.name {
                let (port, https) = endpoint(&pod.ports);
                return Some(DashboardTarget { pod_name: name.clone(), port, https });
            }
        }
        assert(running_name(pods@[i as int]) is None);
        assert(target_of(pods@.skip(i as int)) == target_of(pods@.skip(i + 1)));
        i = i + 1;
    }
    assert(pods@.skip(pods@.len() as int) =~= Seq::<PodCandidate>::empty());
    None
}

pub open spec fn not_found_message() -> Seq<char> {
    "kubernetes-dashboard pod not found. Make sure the dashboard is deployed and running in the 'kubernetes-dashboard' or 'kube-system' namespace."@
}

/// The error when no namespace and selector found a running dashboard pod.
pub fn dashboard_not_found() -> (r: AppError)
    ensures
        r@ == ErrorV::Kube(not_found_message()),
{
    AppError::Kube(String::from_str("kubernetes-dashboard pod not found. Make sure the dashboard is deployed and running in the 'kubernetes-dashboard' or 'kube-system' namespace."))
}

// ---------- the search over namespaces and selectors ----------

/// Where the pod search stands: the listing to make next (by index into
/// the namespaces and the selectors), or its end.
#[derive(Debug, Clone)]
pub enum SearchStep {
    /// List the pods of namespace `ns` that match selector `sel`.
    Probe { ns: usize, sel: usize },
    /// A running dashboard pod, in namespace `ns`.
    Found { target: DashboardTarget, ns: usize },
    /// No namespace and selector gave a running pod.
    NotFound,
}

pub enum SearchStepV {
    Probe { ns: int, sel: int },
    Found { target: (Seq<char>, u16, bool), ns: int },
    NotFound,
}

pub open spec fn search_view(s: SearchStep) -> SearchStepV {
    match s {
        SearchStep::Probe { ns, sel } => SearchStepV::Probe { ns: ns as int, sel: sel as int },
        SearchStep::Found { target, ns } => SearchStepV::Found {
            target: (target.pod_name@, target.port, target.https),
            ns: ns as int,
        },
        SearchStep::NotFound => SearchStepV::NotFound,
    }
}

/// The listing after `(ns, sel)`: the next selector in the same namespace,
/// else the first selector of the next namespace, else the end.
pub open spec fn probe_after(ns: int, sel: int) -> SearchStepV {
    if sel + 1 < 4 {
        SearchStepV::Probe { ns, sel: sel + 1 }
    } else if ns + 1 < 3 {
        SearchStepV::Probe { ns: ns + 1, sel: 0 }
    } else {
        SearchStepV::NotFound
    }
}

/// What follows the listing of `(ns, sel)`: its first running, named pod
/// ends the search; a listing without one, or one that failed (`None`),
/// moves on.
pub open spec fn search_after(ns: int, sel: int, listing: Option<Seq<PodCandidate>>) -> SearchStepV {
    match listing {
        Some(pods) => match target_of(pods) {
            Some(t) => SearchStepV::Found { target: t, ns },
            None => probe_after(ns, sel),
        },
        None => probe_after(ns, sel),
    }
}

/// The first listing of the search: the first namespace, the first selector.
pub fn first_search_step() -> (r: SearchStep)
    ensures
        search_view(r) == (SearchStepV::Probe { ns: 0, sel: 0 }),
{
    SearchStep::Probe { ns: 0, sel: 0 }
}

/// Decides what follows the listing of namespace `ns` and selector `sel`.
pub fn next_search_step(ns: usize, sel: usize, listing: Option<Vec<PodCandidate>>) -> (r: SearchStep)
    requires
        ns < 3,
        sel < 4,
    ensures
        search_view(r) == search_after(
            ns as int,
            sel as int,
            match listing {
                Some(v) => Some(v@),
                None => None,
            },
        ),
{
    if let Some(pods) = &listing {
        if let Some(t) = pick_dashboard_pod(pods) {
            return SearchStep::Found { target: t, ns };
        }
    }
    if sel + 1 < 4 {
        SearchStep::Probe { ns, sel: sel + 1 }
    } else if ns + 1 < 3 {
        SearchStep::Probe { ns: ns + 1, sel: 0 }
    } else {
        SearchStep::NotFound
    }
}

// ---------- the dashboard token ----------

/// The steps of obtaining a bearer token for the dashboard, in the order
/// they are tried.
#[derive(Debug, Clone, Copy, PartialEq, Eq, Structural)]
pub enum TokenStep {
    /// Mint a token for the `admin-user` service account.
    MintAdminUser,
    /// Mint a token for the `dashboard-admin` service account.
    MintDashboardAdmin,
    /// Create the `k8sdesk-admin` service account and its cluster-admin binding.
    ProvisionAdmin,
    /// Mint a token for the provisioned `k8sdesk-admin` account.
    MintProvisioned,
    /// Mint a token for the dashboard's own `kubernetes-dashboard` account.
    MintDashboardAccount,
    /// Look for a legacy service-account token secret.
    ScanSecrets,
}

/// What a step came to: a token (or none), or whether provisioning worked.
#[derive(Debug, Clone)]
pub enum TokenOutcome {
    Token(Option<String>),
    Provisioned(bool),
}

/// What to do after a step.
#[derive(Debug, Clone)]
pub enum TokenDecision {
    Next(TokenStep),
    Done(String),
    Fail(AppError),
}

pub open spec fn step_rank(s: TokenStep) -> nat {
    match s {
        TokenStep::MintAdminUser => 0,
        TokenStep::MintDashboardAdmin => 1,
        TokenStep::ProvisionAdmin => 2,
        TokenStep::MintProvisioned => 3,
        TokenStep::MintDashboardAccount => 4,
        TokenStep::ScanSecrets => 5,
    }
}

pub open spec fn token_failure_message() -> Seq<char> {
    "Could not obtain a dashboard token. The cluster credentials configured in k8sdesk lack permission to create ServiceAccounts / ClusterRoleBindings or call the TokenRequest API."@
}

/// The step after `step` when it found no token (or provisioning failed).
pub open spec fn fallback_of(step: TokenStep, provisioned: bool) -> Option<TokenStep> {
    match step {
        TokenStep::MintAdminUser => Some(TokenStep::MintDashboardAdmin),
        TokenStep::MintDashboardAdmin => Some(TokenStep::ProvisionAdmin),
        TokenStep::ProvisionAdmin => if provisioned {
            Some(TokenStep::MintProvisioned)
        } else {
            Some(TokenStep::MintDashboardAccount)
        },
        TokenStep::MintProvisioned => Some(TokenStep::MintDashboardAccount),
        TokenStep::MintDashboardAccount => Some(TokenStep::ScanSecrets),
        TokenStep::ScanSecrets => None,
    }
}

pub enum TokenDecisionV {
    Next(TokenStep),
    Done(Seq<char>),
    Fail(ErrorV),
}

/// The decision after a step: a token ends the search; otherwise the next
/// step, or failure after the last. An outcome of the wrong kind for the
/// step counts as the step failing.
pub open spec fn decision_of(step: TokenStep, outcome: TokenOutcome) -> TokenDecisionV {
    match outcome {
        TokenOutcome::Token(Some(t)) => if step == TokenStep::ProvisionAdmin {
            TokenDecisionV::Next(TokenStep::MintDashboardAccount)
        } else {
            TokenDecisionV::Done(t@)
        },
        _ => {
            let provisioned = outcome matches TokenOutcome::Provisioned(true);
            match fallback_of(step, provisioned) {
                Some(n) => TokenDecisionV::Next(n),
                None => TokenDecisionV::Fail(ErrorV::Kube(token_failure_message())),
            }
        },
    }
}

/// The service account (and cluster role binding) provisioned for the
/// dashboard where no admin account exists.
pub const PROVISIONED_ACCOUNT: &'static str = "k8sdesk-admin";

impl TokenStep {
    /// The service account whose token this step mints, if it mints one.
    pub fn service_account(self) -> (r: Option<&'static str>)
        ensures
            match self {
                TokenStep::MintAdminUser => r matches Some(s) && s@ == "admin-user"@,
                TokenStep::MintDashboardAdmin => r matches Some(s) && s@ == "dashboard-admin"@,
                TokenStep::MintProvisioned => r matches Some(s) && s@ == "k8sdesk-admin"@,
                TokenStep::MintDashboardAccount => r matches Some(s) && s@ == "kubernetes-dashboard"@,
                _ => r is None,
            },
    {
        match self {
            TokenStep::MintAdminUser => Some("admin-user"),
            TokenStep::MintDashboardAdmin => Some("dashboard-admin"),
            TokenStep::MintProvisioned => Some(PROVISIONED_ACCOUNT),
            TokenStep::MintDashboardAccount => Some("kubernetes-dashboard"),
            _ => None,
        }
    }
}

/// The first step of the token search.
pub fn first_token_step() -> (r: TokenStep)
    ensures
        r == TokenStep::MintAdminUser,
{
    TokenStep::MintAdminUser
}

pub open spec fn decision_view(d: TokenDecision) -> TokenDecisionV {
    match d {
        TokenDecision::Next(s) => TokenDecisionV::Next(s),
        TokenDecision::Done(t) => TokenDecisionV::Done(t@),
        TokenDecision::Fail(e) => TokenDecisionV::Fail(e@),
    }
}

/// Decides what follows a step of the token search.
pub fn next_token_step(step: TokenStep, outcome: TokenOutcome) -> (r: TokenDecision)
    ensures
        decision_view(r) == decision_of(step, outcome),
{
    let ghost o = outcome;
    match outcome {
        TokenOutcome::Token(Some(t)) => {
            if step == TokenStep::ProvisionAdmin {
                TokenDecision::Next(TokenStep::MintDashboardAccount)
            } else {
                TokenDecision::Done(t)
            }
        },
        other => {
            let provisioned = match other {
                TokenOutcome::Provisioned(b) => b,
                _ => false,
            };
            let next = match step {
                TokenStep::MintAdminUser => Some(TokenStep::MintDashboardAdmin),
                TokenStep::MintDashboardAdmin => Some(TokenStep::ProvisionAdmin),
                TokenStep::ProvisionAdmin => if provisioned {
                    Some(TokenStep::MintProvisioned)
                } else {
                    Some(TokenStep::MintDashboardAccount)
                },
                TokenStep::MintProvisioned => Some(TokenStep::MintDashboardAccount),
                TokenStep::MintDashboardAccount => Some(TokenStep::ScanSecrets),
                TokenStep::ScanSecrets => None,
            };
            match next {
                Some(n) => TokenDecision::Next(n),
                None => TokenDecision::Fail(AppError::Kube(String::from_str("Could not obtain a dashboard token. The cluster credentials configured in k8sdesk lack permission to create ServiceAccounts / ClusterRoleBindings or call the TokenRequest API."))),
            }
        },
    }
}

// ---------- provisioning the admin account ----------

/// The steps of provisioning the `k8sdesk-admin` account: look up the
/// service account and create it where it is missing, then the same for
/// its cluster-admin role binding.
#[derive(Debug, Clone, Copy, PartialEq, Eq, Structural)]
pub enum ProvisionStep {
    LookupAccount,
    CreateAccount,
    LookupBinding,
    CreateBinding,
}

/// What to do after a provisioning step.
#[derive(Debug, Clone)]
pub enum ProvisionAction {
    Next(ProvisionStep),
    Done,
    Fail(AppError),
}

pub enum ProvisionActionV {
    Next(ProvisionStep),
    Done,
    Fail(ErrorV),
}

pub open spec fn provision_action_view(a: ProvisionAction) -> ProvisionActionV {
    match a {
        ProvisionAction::Next(s) => ProvisionActionV::Next(s),
        ProvisionAction::Done => ProvisionActionV::Done,
        ProvisionAction::Fail(e) => ProvisionActionV::Fail(e@),
    }
}

/// The decision after a provisioning step. A lookup reports `Ok(found)`;
/// a lookup that fails counts as not found, so the object is created. A
/// creation reports `Ok(_)` or the cluster's refusal, which ends the
/// provisioning with that message.
pub open spec fn provision_decision(step: ProvisionStep, outcome: Result<bool, Seq<char>>) -> ProvisionActionV {
    let found = outcome matches Ok(true);
    match step {
        ProvisionStep::LookupAccount => if found {
            ProvisionActionV::Next(ProvisionStep::LookupBinding)
        } else {
            ProvisionActionV::Next(ProvisionStep::CreateAccount)
        },
        ProvisionStep::CreateAccount => match outcome {
            Ok(_) => ProvisionActionV::Next(ProvisionStep::LookupBinding),
            Err(m) => ProvisionActionV::Fail(ErrorV::Kube("create ServiceAccount"@ + ": "@ + m)),
        },
        ProvisionStep::LookupBinding => if found {
            ProvisionActionV::Done
        } else {
            ProvisionActionV::Next(ProvisionStep::CreateBinding)
        },
        ProvisionStep::CreateBinding => match outcome {
            Ok(_) => ProvisionActionV::Done,
            Err(m) => ProvisionActionV::Fail(ErrorV::Kube("create ClusterRoleBinding"@ + ": "@ + m)),
        },
    }
}

/// The first provisioning step.
pub fn first_provision_step() -> (r: ProvisionStep)
    ensures
        r == ProvisionStep::LookupAccount,
{
    ProvisionStep::LookupAccount
}

/// Decides what follows a provisioning step.
pub fn next_provision_step(step: ProvisionStep, outcome: Result<bool, String>) -> (r: ProvisionAction)
    ensures
        provision_action_view(r) == provision_decision(step, match outcome {
            Ok(b) => Ok::<bool, Seq<char>>(b),
            Err(m) => Err(m@),
        }),
{
    let found = match &outcome {
        Ok(b) => *b,
        Err(_) => false,
    };
    match step {
        ProvisionStep::LookupAccount => if found {
            ProvisionAction::Next(ProvisionStep::LookupBinding)
        } else {
            ProvisionAction::Next(ProvisionStep::CreateAccount)
        },
        ProvisionStep::CreateAccount => match outcome {
            Ok(_) => ProvisionAction::Next(ProvisionStep::LookupBinding),
            Err(m) => ProvisionAction::Fail(AppError::kube_failure("create ServiceAccount", m.as_str())),
        },
        ProvisionStep::LookupBinding => if found {
            ProvisionAction::Done
        } else {
            ProvisionAction::Next(ProvisionStep::CreateBinding)
        },
        ProvisionStep::CreateBinding => match outcome {
            Ok(_) => ProvisionAction::Done,
            Err(m) => ProvisionAction::Fail(AppError::kube_failure("create ClusterRoleBinding", m.as_str())),
        },
    }
}

/// What the legacy fallback reads of a secret: its type and its `token`
/// data, where it has them.
#[derive(Debug, Clone)]
pub struct LegacySecret {
    pub secret_type: Option<String>,
    pub token: Option<Vec<u8>>,
}

pub open spec fn legacy_token_of(s: LegacySecret) -> Option<Seq<char>> {
    if text_or_empty(s.secret_type) == "kubernetes.io/service-account-token"@ {
        match s.token {
            Some(b) => if vstd::utf8::valid_utf8(b@) {
                Some(vstd::utf8::decode_utf8(b@))
            } else {
                None
            },
            None => None,
        }
    } else {
        None
    }
}

/// The first service-account token secret whose token is UTF-8.
pub open spec fn first_legacy_token(ss: Seq<LegacySecret>) -> Option<Seq<char>>
    decreases ss.len(),
{
    if ss.len() == 0 {
        None
    } else {
        match legacy_token_of(ss[0]) {
            Some(t) => Some(t),
            None => first_legacy_token(ss.drop_first()),
        }
    }
}

/// Picks the token of the first service-account token secret whose token
/// is valid UTF-8.
pub fn pick_legacy_token(secrets: &Vec<LegacySecret>) -> (r: Option<String>)
    ensures
        crate::parser::opt_view(r) == first_legacy_token(secrets@),
{
    let mut i: usize = 0;
    assert(secrets@.skip(0) =~= secrets@);
    while i < secrets.len()
        invariant
            i <= secrets@.len(),
            first_legacy_token(secrets@) == first_legacy_token(secrets@.skip(i as int)),
        decreases secrets@.len() - i,
    {
        assert(secrets@.skip(i as int).drop_first() =~= secrets@.skip(i + 1));
        assert(secrets@.skip(i as int)[0] == secrets@[i as int]);
        let s = &secrets[i];
        proof {
            reveal_strlit("kubernetes.io/service-account-token");
        }
        let is_sa = opt_str_is(&s.secret_type, "kubernetes.io/service-account-token");
        if is_sa {
            if let Some(bytes) = &s.token {
                if let Some(t) = utf8_string(bytes.clone()) {
                    return Some(t);
                }
            }
        }
        assert(legacy_token_of(secrets@[i as int]) is None);
        assert(first_legacy_token(secrets@.skip(i as int)) == first_legacy_token(secrets@.skip(i + 1)));
        i = i + 1;
    }
    assert(secrets@.skip(secrets@.len() as int) =~= Seq::<LegacySecret>::empty());
    None
}

// ---------- the auto-login bridge page ----------

pub open spec fn hex_digit(d: int) -> char {
    if d < 10 {
        (('0' as int) + d) as char
    } else {
        (('a' as int) + d - 10) as char
    }
}

/// How a character stands in a JSON string.
pub open spec fn json_char(c: char) -> Seq<char> {
    if c == '"' {
        seq!['\\', '"']
    } else if c == '\\' {
        seq!['\\', '\\']
    } else if c == '\u{8}' {
        seq!['\\', 'b']
    } else if c == '\t' {
        seq!['\\', 't']
    } else if c == '\n' {
        seq!['\\', 'n']
    } else if c == '\u{c}' {
        seq!['\\', 'f']
    } else if c == '\r' {
        seq!['\\', 'r']
    } else if (c as int) < 0x20 {
        seq!['\\', 'u', '0', '0', hex_digit((c as int) / 16), hex_digit((c as int) % 16)]
    } else {
        seq![c]
    }
}

pub open spec fn json_escaped(s: Seq<char>) -> Seq<char>
    decreases s.len(),
{
    if s.len() == 0 {
        seq![]
    } else {
        json_escaped(s.drop_last()) + json_char(s.last())
    }
}

/// A text as a JSON string literal.
pub open spec fn json_string(s: Seq<char>) -> Seq<char> {
    seq!['"'] + json_escaped(s) + seq!['"']
}

/// Calls `serde_json::to_string` on a text. serde_json writes a string as
/// a quoted literal, escaping `"` and `\`, using `\b \t \n \f \r` for
/// those five control characters and `\u00XX` (lower-case hex) for the
/// other characters below U+0020, and copying every other character; this
/// is `json_string`. For a `&str` it writes into a `Vec<u8>`, whose writes
/// never fail, so it always succeeds.
#[verifier::external_body]
fn json_string_literal(s: &str) -> (r: Option<String>)
    ensures
        r is Some && r->0@ == json_string(s@),
{
    serde_json::to_string(s).ok()
}

/// A character as the plain fallback quoting writes it: backslash and
/// quote escaped, everything else as is.
pub open spec fn plain_char(c: char) -> Seq<char> {
    if c == '"' {
        seq!['\\', '"']
    } else if c == '\\' {
        seq!['\\', '\\']
    } else {
        seq![c]
    }
}

pub open spec fn plain_escaped(s: Seq<char>) -> Seq<char>
    decreases s.len(),
{
    if s.len() == 0 {
        seq![]
    } else {
        plain_escaped(s.drop_last()) + plain_char(s.last())
    }
}

/// A text in double quotes with only backslashes and quotes escaped.
pub open spec fn plain_quoted(s: Seq<char>) -> Seq<char> {
    seq!['"'] + plain_escaped(s) + seq!['"']
}

/// The fallback quoting of a text: in double quotes, backslashes and
/// quotes escaped.
pub fn plain_quote(s: &str) -> (r: String)
    ensures
        r@ == plain_quoted(s@),
{
    let cs = chars_of(s);
    let mut out = String::new();
    push_char(&mut out, '"');
    let mut i: usize = 0;
    while i < cs.len()
        invariant
            i <= cs@.len(),
            out@ == seq!['"'] + plain_escaped(cs@.take(i as int)),
        decreases cs@.len() - i,
    {
        let c = cs[i];
        if c == '"' || c == '\\' {
            push_char(&mut out, '\\');
        }
        push_char(&mut out, c);
        assert(cs@.take(i + 1).drop_last() =~= cs@.take(i as int));
        i = i + 1;
        assert(out@ =~= seq!['"'] + plain_escaped(cs@.take(i as int)));
    }
    push_char(&mut out, '"');
    assert(cs@.take(cs@.len() as int) =~= cs@);
    assert(out@ =~= plain_quoted(s@));
    out
}

/// The token as a script literal: its JSON string form (with the plain
/// quoting kept for an error serde_json never reports for a text).
pub fn token_literal(token: &str) -> (r: String)
    ensures
        r@ == json_string(token@),
{
    match json_string_literal(token) {
        Some(t) => t,
        None => plain_quote(token),
    }
}

/// The bridge page up to the token.
pub const BRIDGE_PAGE_HEAD: &'static str = r##"<!DOCTYPE html>
<html lang="en">
<head>
  <meta charset="utf-8">
  <title>k8sdesk – Opening Dashboard…</title>
  <style>
    *, *::before, *::after { box-sizing: border-box; }
    body {
      font-family: system-ui, -apple-system, sans-serif;
      display: flex; align-items: center; justify-content: center;
      height: 100vh; margin: 0;
      background: #0f172a; color: #e2e8f0;
    }
    .card { text-align: center; padding: 2rem; max-width: 480px; }
    h1 { font-size: 1.25rem; margin: 0 0 .5rem; }
    p  { margin: .25rem 0; color: #94a3b8; font-size: .9rem; }
    .spinner {
      width: 44px; height: 44px;
      border: 4px solid rgba(255,255,255,.15);
      border-top-color: #38bdf8;
      border-radius: 50%;
      animation: spin .8s linear infinite;
      margin: 1.25rem auto;
    }
    @keyframes spin { to { transform: rotate(360deg); } }
    .err {
      color: #fca5a5; margin-top: 1rem;
      white-space: pre-wrap; word-break: break-all;
      font-size: .8rem; text-align: left;
      background: rgba(239,68,68,.1); padding: .75rem; border-radius: .5rem;
    }
    .hidden { display: none !important; }
  </style>
</head>
<body>
  <div class="card">
    <h1>Kubernetes Dashboard</h1>
    <p>Authenticating — please wait…</p>
    <div class="spinner" id="spinner"></div>
    <div id="err" class="err hidden"></div>
  </div>
  <script>
    (async function () {
      const BEARER = "##;

/// The bridge page after the token.
pub const BRIDGE_PAGE_TAIL: &'static str = r##";

      function setCookie(name, value) {
        // Session cookie, path=/, Lax so it travels with same-origin nav.
        document.cookie =
          name + '=' + value + '; path=/; SameSite=Lax';
      }

      async function getCsrf() {
        const r = await fetch('/api/v1/csrftoken/login', {
          method: 'GET',
          credentials: 'include',
          headers: { 'Accept': 'application/json' }
        });
        if (!r.ok) {
          const body = await r.text().catch(() => '');
          throw new Error('CSRF fetch ' + r.status + (body ? ': ' + body : ''));
        }
        const j = await r.json();
        const t = j && (j.token || j.Token);
        if (!t) throw new Error('CSRF response missing token');
        return t;
      }

      async function login(csrf) {
        const r = await fetch('/api/v1/login', {
          method: 'POST',
          credentials: 'include',
          headers: {
            'Content-Type': 'application/json',
            'X-CSRF-TOKEN': csrf
          },
          body: JSON.stringify({ token: BEARER })
        });
        if (!r.ok) {
          const body = await r.text().catch(() => '');
          throw new Error('login ' + r.status + (body ? ': ' + body : ''));
        }
        let data = null;
        try { data = await r.json(); } catch (_) { /* may be empty */ }
        return data || {};
      }

      try {
        const csrf = await getCsrf();
        const data = await login(csrf);

        // Extract the JWE session token, regardless of which Dashboard
        // version we're talking to.
        const jwe =
          data.jweToken ||
          data.JWEToken ||
          data.token ||
          null;

        if (jwe) {
          // 1) Plant the cookie the Dashboard SPA looks for.
          setCookie('jweToken', jwe);
          // 2) Some forks read it from localStorage instead.
          try { localStorage.setItem('jweToken', jwe); } catch (_) {}
        }

        // Some installs accept the bearer token directly in
        // the `Authorization` header for every API call. Stash it for
        // SPAs that read this on boot.
        try { localStorage.setItem('id_token', BEARER); } catch (_) {}

        // Go to the overview, not `/`, so the SPA bypasses its
        // initial /#/login redirect logic.
        window.location.replace('/#/workloads?namespace=_all');
      } catch (e) {
        document.getElementById('spinner').classList.add('hidden');
        const el = document.getElementById('err');
        el.textContent =
          String(e) +
          '\n\nAuto-login failed. You can still log in manually:\n' +
          'copy the token shown in k8sdesk and paste it on the dashboard login page.';
        el.classList.remove('hidden');
      }
    })();
  </script>
</body>
</html>"##;

/// The auto-login page: it posts the bearer token (as a JSON string) to
/// the dashboard's login endpoint, plants the session cookie and goes to
/// the workloads overview.
pub fn bridge_html(token: &str) -> (r: String)
    ensures
        r@ == BRIDGE_PAGE_HEAD@ + json_string(token@) + BRIDGE_PAGE_TAIL@,
{
    let mut page = String::from_str(BRIDGE_PAGE_HEAD);
    let q = token_literal(token);
    append(&mut page, q.as_str());
    append(&mut page, BRIDGE_PAGE_TAIL);
    page
}

/// The HTTP response that serves a page: status, headers with the page's
/// UTF-8 length, and the page.
pub open spec fn page_response(html: Seq<char>) -> Seq<char> {
    "HTTP/1.1 200 OK\r\nContent-Type: text/html; charset=utf-8\r\nContent-Length: "@ + decimal(
        (vstd::utf8::encode_utf8(html).len() as usize) as nat,
    )
        + "\r\nCache-Control: no-store\r\nConnection: close\r\n\r\n"@ + html
}

pub fn bridge_response(html: &str) -> (r: String)
    ensures
        r@ == page_response(html@),
{
    let mut s = String::from_str("HTTP/1.1 200 OK\r\nContent-Type: text/html; charset=utf-8\r\nContent-Length: ");
    push_decimal(&mut s, html.len() as u128);
    append(&mut s, "\r\nCache-Control: no-store\r\nConnection: close\r\n\r\n");
    append(&mut s, html);
    assert(s@ =~= page_response(html@));
    s
}

/// `http://127.0.0.1:{port}`, the local proxy's root.
pub fn proxy_url(port: u16) -> (r: String)
    ensures
        r@ == "http://127.0.0.1:"@ + decimal(port as nat),
{
    let mut s = String::from_str("http://127.0.0.1:");
    push_decimal(&mut s, port as u128);
    s
}

/// The bridge page's address under a proxy root.
pub fn bridge_url(root: &str) -> (r: String)
    ensures
        r@ == root@ + "/_bridge"@,
{
    let mut s = String::from_str(root);
    append(&mut s, "/_bridge");
    s
}

/// The longest request line the proxy reads before deciding.
pub open spec fn max_request_line() -> nat {
    256
}

/// A request line is read until it ends in CR LF or reaches 256 bytes.
pub fn request_line_complete(line: &[u8]) -> (r: bool)
    ensures
        r == (seq![13u8, 10u8].is_suffix_of(line@) || line@.len() >= max_request_line()),
{
    let n = line.len();
    if n >= 256 {
        return true;
    }
    if n >= 2 && line[n - 2] == 13 && line[n - 1] == 10 {
        assert(seq![13u8, 10u8] =~= line@.subrange(n - 2, n as int));
        return true;
    }
    if n >= 2 {
        assert(!seq![13u8, 10u8].is_suffix_of(line@)) by {
            if seq![13u8, 10u8].is_suffix_of(line@) {
                assert(line@.subrange(n - 2, n as int)[0] == line@[n - 2]);
                assert(line@.subrange(n - 2, n as int)[1] == line@[n - 1]);
            }
        };
    }
    false
}

/// `GET /_bridge`: the request the bridge page answers.
pub open spec fn bridge_request_prefix() -> Seq<u8> {
    seq![71u8, 69u8, 84u8, 32u8, 47u8, 95u8, 98u8, 114u8, 105u8, 100u8, 103u8, 101u8]
}

/// Whether a request line asks for the bridge page.
pub fn is_bridge_request(line: &[u8]) -> (r: bool)
    ensures
        r == bridge_request_prefix().is_prefix_of(line@),
{
    let p: [u8; 12] = [71u8, 69u8, 84u8, 32u8, 47u8, 95u8, 98u8, 114u8, 105u8, 100u8, 103u8, 101u8];
    assert(p@ =~= bridge_request_prefix());
    if line.len() < 12 {
        return false;
    }
    let mut i: usize = 0;
    while i < 12
        invariant
            i <= 12,
            line@.len() >= 12,
            p@ == bridge_request_prefix(),
            forall|j: int| 0 <= j < i ==> line@[j] == p@[j],
        decreases 12 - i,
    {
        if line[i] != p[i] {
            return false;
        }
        i = i + 1;
    }
    assert(line@.take(12) =~= bridge_request_prefix());
    true
}

// ---------- running proxies ----------

#[verifier::external_type_specification]
#[verifier::external_body]
#[verifier::reject_recursive_types(T)]
pub struct ExWatchSender<T>(tokio::sync::watch::Sender<T>);

/// Calls `AtomicBool::load` (relaxed). Nothing is claimed of the value:
/// the proxy task may clear the flag at any time.
#[verifier::external_body]
fn proxy_alive(flag: &Arc<AtomicBool>) -> (r: bool) {
    flag.load(std::sync::atomic::Ordering::Relaxed)
}

/// Calls `Arc::clone`: another handle to the same flag.
#[verifier::external_body]
fn share_flag(flag: &Arc<AtomicBool>) -> (r: Arc<AtomicBool>) {
    Arc::clone(flag)
}

/// Calls `watch::Sender::clone` (tokio): another sender on the same channel.
#[verifier::external_body]
fn clone_sender(tx: &tokio::sync::watch::Sender<bool>) -> (r: tokio::sync::watch::Sender<bool>) {
    tx.clone()
}

/// Calls `watch::Sender::send(true)` (tokio), which tells the proxy's
/// acceptor loop to stop; a send with no receiver left is ignored.
#[verifier::external_body]
fn signal_shutdown(tx: &tokio::sync::watch::Sender<bool>) {
    let _ = tx.send(true);
}

/// A running dashboard proxy.
pub struct DashboardSession {
    /// `http://127.0.0.1:{port}`, the local proxy root URL.
    pub url: String,
    /// Bearer token, shown in the UI as a manual fallback.
    pub token: String,
    /// True while the proxy acceptor task is alive.
    pub alive: Arc<AtomicBool>,
    /// Send `true` to this channel to shut the proxy down.
    pub shutdown_tx: tokio::sync::watch::Sender<bool>,
}

/// What the registry says of a session: its URL and token.
pub open spec fn session_view(s: DashboardSession) -> (Seq<char>, Seq<char>) {
    (s.url@, s.token@)
}

impl DashboardSession {
    /// Another handle to the same session.
    pub fn duplicate(&self) -> (r: DashboardSession)
        ensures
            session_view(r) == session_view(*self),
    {
        DashboardSession {
            url: self.url.clone(),
            token: self.token.clone(),
            alive: share_flag(&self.alive),
            shutdown_tx: clone_sender(&self.shutdown_tx),
        }
    }
}

/// One proxy per cluster, and the record of the proxies told to stop.
pub struct DashboardRegistry {
    inner: Registry<DashboardSession>,
    signalled: Ghost<Seq<(u128, (Seq<char>, Seq<char>))>>,
}

impl DashboardRegistry {
    /// The sessions by cluster id.
    pub closed spec fn sessions(&self) -> Map<u128, (Seq<char>, Seq<char>)> {
        self.inner.view().map_values(|s: DashboardSession| session_view(s))
    }

    /// The sessions whose proxy was sent the shutdown signal, in order,
    /// with the cluster each served.
    pub closed spec fn signalled(&self) -> Seq<(u128, (Seq<char>, Seq<char>))> {
        self.signalled@
    }

    pub fn new() -> (r: DashboardRegistry)
        ensures
            r.sessions() == Map::<u128, (Seq<char>, Seq<char>)>::empty(),
            r.signalled() == Seq::<(u128, (Seq<char>, Seq<char>))>::empty(),
    {
        let r = DashboardRegistry { inner: Registry::new(), signalled: Ghost(Seq::empty()) };
        assert(r.sessions() =~= Map::<u128, (Seq<char>, Seq<char>)>::empty());
        r
    }

    /// Insert or replace a session.
    pub fn insert(&mut self, cluster_id: u128, session: DashboardSession)
        ensures
            final(self).sessions() == old(self).sessions().insert(cluster_id, session_view(session)),
            final(self).signalled() == old(self).signalled(),
    {
        self.inner.insert(cluster_id, session);
        assert(self.sessions() =~= old(self).sessions().insert(cluster_id, session_view(session)));
    }

    /// Settles a held session by whether its proxy is alive: a live one is
    /// handed back and kept; a dead one is dropped.
    pub fn settle(&mut self, cluster_id: u128, alive: bool) -> (r: Option<DashboardSession>)
        ensures
            final(self).signalled() == old(self).signalled(),
            !old(self).sessions().contains_key(cluster_id) ==> r is None && final(self).sessions()
                == old(self).sessions(),
            old(self).sessions().contains_key(cluster_id) && alive ==> (r matches Some(s) && session_view(s)
                == old(self).sessions()[cluster_id]) && final(self).sessions() == old(self).sessions(),
            old(self).sessions().contains_key(cluster_id) && !alive ==> r is None && final(self).sessions()
                == old(self).sessions().remove(cluster_id),
    {
        match self.inner.get(cluster_id) {
            None => return None,
            Some(s) => {
                if alive {
                    return Some(s.duplicate());
                }
            },
        }
        let _ = self.inner.remove(cluster_id);
        assert(self.sessions() =~= old(self).sessions().remove(cluster_id));
        None
    }

    /// The liveness flag of the session held for `cluster_id`, read now.
    fn held_alive(&self, cluster_id: u128) -> (r: bool) {
        match self.inner.get(cluster_id) {
            Some(s) => proxy_alive(&s.alive),
            None => false,
        }
    }

    /// Return the session if the proxy is still alive; a session whose
    /// proxy has stopped is dropped. The flag read is the held session's
    /// own `alive` flag; what `settle` states holds for the value read.
    pub fn get_alive(&mut self, cluster_id: u128) -> (r: Option<DashboardSession>)
        ensures
            final(self).signalled() == old(self).signalled(),
            !old(self).sessions().contains_key(cluster_id) ==> r is None && final(self).sessions()
                == old(self).sessions(),
            old(self).sessions().contains_key(cluster_id) ==> match r {
                Some(s) => session_view(s) == old(self).sessions()[cluster_id] && final(self).sessions()
                    == old(self).sessions(),
                None => final(self).sessions() == old(self).sessions().remove(cluster_id),
            },
    {
        let alive = self.held_alive(cluster_id);
        self.settle(cluster_id, alive)
    }

    /// Signal the proxy for `cluster_id` to shut down and remove it.
    pub fn stop(&mut self, cluster_id: u128)
        ensures
            final(self).sessions() == old(self).sessions().remove(cluster_id),
            old(self).sessions().contains_key(cluster_id) ==> final(self).signalled() == old(
                self,
            ).signalled().push((cluster_id, old(self).sessions()[cluster_id])),
            !old(self).sessions().contains_key(cluster_id) ==> final(self).signalled() == old(
                self,
            ).signalled(),
    {
        if let Some(session) = self.inner.remove(cluster_id) {
            signal_shutdown(&session.shutdown_tx);
            proof {
                self.signalled@ = self.signalled@.push((cluster_id, session_view(session)));
            }
        }
        assert(self.sessions() =~= old(self).sessions().remove(cluster_id));
    }
}

} // verus!
