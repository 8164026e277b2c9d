//! The rules behind the IPC commands: turning form input into records,
//! merging an edit into a stored record without losing secrets, importing
//! a pasted kubeconfig, and gating destructive commands behind a
//! confirmation token.

use vstd::prelude::*;
use crate::crypto::{base64_decode, base64_decoded, utf8_string};
use crate::error::{rejected, AppError, ErrorV};
use crate::parser::{Command, CommandV};
use crate::safety::{
    build_confirmation_request, classify, consumed, fingerprint_of, issued, severity_of,
    summary_of, ConfirmationRequest, PendingConfirmations, Severity,
};
use crate::store::{
    position_of, redact, validation_error, Auth, AuthV, ClusterRecord, ClusterV, EncryptedStore,
    Environment, RedactedCluster,
};
use crate::text::{is_blank, str_blank, str_eq};
use vstd::utf8::{decode_utf8, encode_utf8, valid_utf8};

verus! {

// ---------- form input ----------

/// A cluster as the frontend's form submits it.
#[derive(Debug, Clone)]
pub struct ClusterInput {
    pub name: String,
    pub environment: Environment,
    pub api_server: String,
    pub ca_pem: String,
    pub auth: Auth,
    pub default_namespace: String,
    pub insecure_skip_tls_verify: bool,
}

/// The namespace a record gets: the one given, or `default` where it is blank.
pub open spec fn namespace_or_default(ns: Seq<char>) -> Seq<char> {
    if is_blank(ns) {
        "default"@
    } else {
        ns
    }
}

/// The record a form input makes: nil id, blank namespace read as `default`.
pub open spec fn record_of_input(i: ClusterInput) -> ClusterV {
    ClusterV {
        id: 0,
        name: i.name@,
        environment: i.environment,
        api_server: i.api_server@,
        ca_pem: i.ca_pem@,
        auth: i.auth@,
        default_namespace: namespace_or_default(i.default_namespace@),
        insecure_skip_tls_verify: i.insecure_skip_tls_verify,
    }
}

fn namespace_choice(ns: String) -> (r: String)
    ensures
        r@ == namespace_or_default(ns@),
{
    if str_blank(ns.as_str()) {
        String::from_str("default")
    } else {
        ns
    }
}

impl ClusterInput {
    /// The record this input describes (not yet given an id).
    pub fn into_record(self) -> (r: ClusterRecord)
        ensures
            r@ == record_of_input(self),
    {
        ClusterRecord {
            id: 0,
            name: self.name,
            environment: self.environment,
            api_server: self.api_server,
            ca_pem: self.ca_pem,
            auth: self.auth,
            default_namespace: namespace_choice(self.default_namespace),
            insecure_skip_tls_verify: self.insecure_skip_tls_verify,
        }
    }
}

/// Whether submitted credentials replace the stored ones: a token that is
/// not empty, or a certificate or key that is not empty.
pub open spec fn replaces_auth(a: AuthV) -> bool {
    match a {
        AuthV::BearerToken { token } => token.len() > 0,
        AuthV::ClientCert { cert_pem, key_pem } => cert_pem.len() > 0 || key_pem.len() > 0,
    }
}

/// A stored record edited by a form: the non-secret fields are replaced,
/// the CA and the credentials only where new ones were submitted.
pub open spec fn merged(stored: ClusterV, i: ClusterInput) -> ClusterV {
    ClusterV {
        id: stored.id,
        name: i.name@,
        environment: i.environment,
        api_server: i.api_server@,
        ca_pem: if i.ca_pem@.len() > 0 {
            i.ca_pem@
        } else {
            stored.ca_pem
        },
        auth: if replaces_auth(i.auth@) {
            i.auth@
        } else {
            stored.auth
        },
        default_namespace: namespace_or_default(i.default_namespace@),
        insecure_skip_tls_verify: i.insecure_skip_tls_verify,
    }
}

/// Edits a stored record with a form's input.
pub fn merge_input(stored: ClusterRecord, input: ClusterInput) -> (r: ClusterRecord)
    ensures
        r@ == merged(stored@, input),
{
    let mut rec = stored;
    rec.name = input.name;
    rec.environment = input.environment;
    rec.api_server = input.api_server;
    rec.default_namespace = namespace_choice(input.default_namespace);
    rec.insecure_skip_tls_verify = input.insecure_skip_tls_verify;
    if !input.ca_pem.as_str().is_empty() {
        rec.ca_pem = input.ca_pem;
    }
    let replace_auth = match &input.auth {
        Auth::BearerToken { token } => !token.as_str().is_empty(),
        Auth::ClientCert { cert_pem, key_pem } => !cert_pem.as_str().is_empty()
            || !key_pem.as_str().is_empty(),
    };
    if replace_auth {
        rec.auth = input.auth;
    }
    rec
}

/// Edits the stored record `id` with a form's input, keeping the stored
/// secrets the form left empty.
pub fn update_cluster(store: &mut EncryptedStore, id: u128, input: ClusterInput) -> (r: Result<RedactedCluster, AppError>)
    ensures
        final(store).master_key() == old(store).master_key(),
        match position_of(old(store)@, id) {
            None => r is Err && r->Err_0@ == ErrorV::NotFound && final(store)@ == old(store)@,
            Some(k) => {
                let m = merged(old(store)@[k], input);
                match validation_error(m) {
                    Some(e) => r is Err && r->Err_0@ == e && final(store)@ == old(store)@,
                    None => r is Ok && r->Ok_0@ == redact(m) && final(store)@ == old(store)@.update(k, m),
                }
            },
        },
{
    let stored = match store.get(id) {
        Ok(rec) => rec.duplicate(),
        Err(e) => return Err(e),
    };
    proof {
        crate::store::lemma_position_of_bounds(store@, id);
    }
    let rec = merge_input(stored, input);
    store.update(rec)
}

// ---------- kubeconfig import ----------

/// A pasted kubeconfig import request.
#[derive(Debug, Clone)]
pub struct KubeconfigImport {
    pub yaml: String,
    pub name: String,
    pub environment: Environment,
}

/// The parts of a kubeconfig document the import reads.
#[derive(Debug, Clone)]
pub struct KcRoot {
    pub clusters: Vec<KcNamedCluster>,
    pub users: Vec<KcNamedUser>,
    pub contexts: Vec<KcNamedContext>,
    pub current_context: Option<String>,
}

#[derive(Debug, Clone)]
pub struct KcNamedCluster {
    pub name: String,
    pub cluster: KcCluster,
}

#[derive(Debug, Clone)]
pub struct KcCluster {
    pub server: String,
    pub certificate_authority_data: Option<String>,
    pub insecure_skip_tls_verify: Option<bool>,
}

#[derive(Debug, Clone)]
pub struct KcNamedUser {
    pub name: String,
    pub user: KcUser,
}

/// A `users[].user` entry: a mapping (its string-keyed entries, in order)
/// or any other YAML value.
#[derive(Debug, Clone)]
pub enum KcUser {
    Mapping(Vec<KcEntry>),
    Other,
}

#[derive(Debug, Clone)]
pub struct KcEntry {
    pub key: String,
    pub value: KcValue,
}

/// A YAML value as the import reads it: a string, or anything else.
#[derive(Debug, Clone)]
pub enum KcValue {
    Str(String),
    Other,
}

#[derive(Debug, Clone)]
pub struct KcNamedContext {
    pub name: String,
    pub context: KcContext,
}

#[derive(Debug, Clone)]
pub struct KcContext {
    pub cluster: String,
    pub user: String,
    pub namespace: Option<String>,
}

pub open spec fn context_named(cs: Seq<KcNamedContext>, name: Seq<char>) -> Option<int>
    decreases cs.len(),
{
    if cs.len() == 0 {
        None
    } else if cs[0].name@ == name {
        Some(0)
    } else {
        match context_named(cs.drop_first(), name) {
            Some(k) => Some(k + 1),
            None => None,
        }
    }
}

pub open spec fn cluster_named(cs: Seq<KcNamedCluster>, name: Seq<char>) -> Option<int>
    decreases cs.len(),
{
    if cs.len() == 0 {
        None
    } else if cs[0].name@ == name {
        Some(0)
    } else {
        match cluster_named(cs.drop_first(), name) {
            Some(k) => Some(k + 1),
            None => None,
        }
    }
}

pub open spec fn user_named(us: Seq<KcNamedUser>, name: Seq<char>) -> Option<int>
    decreases us.len(),
{
    if us.len() == 0 {
        None
    } else if us[0].name@ == name {
        Some(0)
    } else {
        match user_named(us.drop_first(), name) {
            Some(k) => Some(k + 1),
            None => None,
        }
    }
}

/// The value under a key of a user mapping.
pub open spec fn entry_value(es: Seq<KcEntry>, key: Seq<char>) -> Option<KcValue>
    decreases es.len(),
{
    if es.len() == 0 {
        None
    } else if es[0].key@ == key {
        Some(es[0].value)
    } else {
        entry_value(es.drop_first(), key)
    }
}

/// A value's text, or the empty text where it is not a string.
pub open spec fn str_or_empty(v: KcValue) -> Seq<char> {
    match v {
        KcValue::Str(s) => s@,
        KcValue::Other => seq![],
    }
}

/// The PEM text that base64 data holds, or the error for it.
pub open spec fn pem_from_base64(data: Seq<char>, bad_b64: Seq<char>, bad_utf8: Seq<char>) -> Result<Seq<char>, ErrorV> {
    match base64_decoded(encode_utf8(data)) {
        None => Err(ErrorV::KubeconfigRejected(bad_b64)),
        Some(bytes) => if valid_utf8(bytes) {
            Ok(decode_utf8(bytes))
        } else {
            Err(ErrorV::KubeconfigRejected(bad_utf8))
        },
    }
}

/// The credentials a user mapping gives: a static token, or client
/// certificate and key data; auth plugins are refused.
pub open spec fn user_auth(es: Seq<KcEntry>) -> Result<AuthV, ErrorV> {
    if entry_value(es, "exec"@) is Some {
        Err(ErrorV::KubeconfigRejected("exec auth plugins are not supported"@))
    } else if entry_value(es, "auth-provider"@) is Some {
        Err(ErrorV::KubeconfigRejected("auth-provider plugins are not supported"@))
    } else {
        match entry_value(es, "token"@) {
            Some(KcValue::Str(t)) => Ok(AuthV::BearerToken { token: t@ }),
            Some(KcValue::Other) => Err(ErrorV::KubeconfigRejected("token must be a string"@)),
            None => match (
                entry_value(es, "client-certificate-data"@),
                entry_value(es, "client-key-data"@),
            ) {
                (Some(cd), Some(kd)) => match (
                    base64_decoded(encode_utf8(str_or_empty(cd))),
                    base64_decoded(encode_utf8(str_or_empty(kd))),
                ) {
                    (None, _) => Err(ErrorV::KubeconfigRejected("bad client-certificate-data"@)),
                    (Some(_), None) => Err(ErrorV::KubeconfigRejected("bad client-key-data"@)),
                    (Some(c), Some(k)) => if !valid_utf8(c) {
                        Err(ErrorV::KubeconfigRejected("cert not UTF-8 PEM"@))
                    } else if !valid_utf8(k) {
                        Err(ErrorV::KubeconfigRejected("key not UTF-8 PEM"@))
                    } else {
                        Ok(AuthV::ClientCert { cert_pem: decode_utf8(c), key_pem: decode_utf8(k) })
                    },
                },
                _ => Err(
                    ErrorV::KubeconfigRejected(
                        "user must have a static token or client-certificate-data + client-key-data"@,
                    ),
                ),
            },
        }
    }
}

/// The context the import uses: the current one, else the first.
pub open spec fn chosen_context(root: KcRoot) -> Option<Seq<char>> {
    match root.current_context {
        Some(c) => Some(c@),
        None => if root.contexts@.len() > 0 {
            Some(root.contexts@[0].name@)
        } else {
            None
        },
    }
}

/// What importing a kubeconfig gives: the record of its chosen context's
/// cluster and user, or why it is rejected.
pub open spec fn import_result(root: KcRoot, name: Seq<char>, env: Environment) -> Result<ClusterV, ErrorV> {
    match chosen_context(root) {
        None => Err(ErrorV::KubeconfigRejected("no contexts found"@)),
        Some(ctx_name) => match context_named(root.contexts@, ctx_name) {
            None => Err(ErrorV::KubeconfigRejected("current-context not in contexts"@)),
            Some(ci) => {
                let ctx = root.contexts@[ci].context;
                match cluster_named(root.clusters@, ctx.cluster@) {
                    None => Err(ErrorV::KubeconfigRejected("cluster ref not found"@)),
                    Some(cl) => {
                        let cluster = root.clusters@[cl].cluster;
                        match user_named(root.users@, ctx.user@) {
                            None => Err(ErrorV::KubeconfigRejected("user ref not found"@)),
                            Some(ui) => match root.users@[ui].user {
                                KcUser::Other => Err(ErrorV::KubeconfigRejected("user entry malformed"@)),
                                KcUser::Mapping(es) => match user_auth(es@) {
                                    Err(e) => Err(e),
                                    Ok(auth) => {
                                        let ca: Result<Seq<char>, ErrorV> = match cluster.certificate_authority_data {
                                            Some(b64) => pem_from_base64(
                                                b64@,
                                                "bad certificate-authority-data"@,
                                                "CA not UTF-8 PEM"@,
                                            ),
                                            None => Ok(seq![]),
                                        };
                                        match ca {
                                            Err(e) => Err(e),
                                            Ok(ca_pem) => Ok(
                                                ClusterV {
                                                    id: 0,
                                                    name: name,
                                                    environment: env,
                                                    api_server: cluster.server@,
                                                    ca_pem: ca_pem,
                                                    auth: auth,
                                                    default_namespace: match ctx.namespace {
                                                        Some(ns) => ns@,
                                                        None => "default"@,
                                                    },
                                                    insecure_skip_tls_verify: match cluster.insecure_skip_tls_verify {
                                                        Some(b) => b,
                                                        None => false,
                                                    },
                                                },
                                            ),
                                        }
                                    },
                                },
                            },
                        }
                    },
                }
            },
        },
    }
}

fn find_context(cs: &Vec<KcNamedContext>, name: &str) -> (r: Option<usize>)
    ensures
        match r {
            Some(k) => context_named(cs@, name@) == Some(k as int) && k < cs@.len(),
            None => context_named(cs@, name@) is None,
        },
{
    let mut i: usize = 0;
    assert(cs@.skip(0) =~= cs@);
    while i < cs.len()
        invariant
            i <= cs@.len(),
            context_named(cs@, name@) == match context_named(cs@.skip(i as int), name@) {
                Some(k) => Some(k + i),
                None => None,
            },
        decreases cs@.len() - i,
    {
        assert(cs@.skip(i as int).drop_first() =~= cs@.skip(i + 1));
        if str_eq(cs[i].name.as_str(), name) {
            return Some(i);
        }
        i = i + 1;
    }
    None
}

fn find_cluster(cs: &Vec<KcNamedCluster>, name: &str) -> (r: Option<usize>)
    ensures
        match r {
            Some(k) => cluster_named(cs@, name@) == Some(k as int) && k < cs@.len(),
            None => cluster_named(cs@, name@) is None,
        },
{
    let mut i: usize = 0;
    assert(cs@.skip(0) =~= cs@);
    while i < cs.len()
        invariant
            i <= cs@.len(),
            cluster_named(cs@, name@) == match cluster_named(cs@.skip(i as int), name@) {
                Some(k) => Some(k + i),
                None => None,
            },
        decreases cs@.len() - i,
    {
        assert(cs@.skip(i as int).drop_first() =~= cs@.skip(i + 1));
        if str_eq(cs[i].name.as_str(), name) {
            return Some(i);
        }
        i = i + 1;
    }
    None
}

fn find_user(us: &Vec<KcNamedUser>, name: &str) -> (r: Option<usize>)
    ensures
        match r {
            Some(k) => user_named(us@, name@) == Some(k as int) && k < us@.len(),
            None => user_named(us@, name@) is None,
        },
{
    let mut i: usize = 0;
    assert(us@.skip(0) =~= us@);
    while i < us.len()
        invariant
            i <= us@.len(),
            user_named(us@, name@) == match user_named(us@.skip(i as int), name@) {
                Some(k) => Some(k + i),
                None => None,
            },
        decreases us@.len() - i,
    {
        assert(us@.skip(i as int).drop_first() =~= us@.skip(i + 1));
        if str_eq(us[i].name.as_str(), name) {
            return Some(i);
        }
        i = i + 1;
    }
    None
}

fn lookup<'a>(es: &'a Vec<KcEntry>, key: &str) -> (r: Option<&'a KcValue>)
    ensures
        match r {
            Some(v) => entry_value(es@, key@) == Some(*v),
            None => entry_value(es@, key@) is None,
        },
{
    let mut i: usize = 0;
    assert(es@.skip(0) =~= es@);
    while i < es.len()
        invariant
            i <= es@.len(),
            entry_value(es@, key@) == entry_value(es@.skip(i as int), key@),
        decreases es@.len() - i,
    {
        assert(es@.skip(i as int).drop_first() =~= es@.skip(i + 1));
        if str_eq(es[i].key.as_str(), key) {
            return Some(&es[i].value);
        }
        i = i + 1;
    }
    None
}

fn value_text(v: &KcValue) -> (r: &str)
    ensures
        r@ == str_or_empty(*v),
{
    match v {
        KcValue::Str(s) => s.as_str(),
        KcValue::Other => {
            proof {
                reveal_strlit("");
            }
            ""
        },
    }
}

fn decode_pem(data: &str, bad_b64: &str, bad_utf8: &str) -> (r: Result<String, AppError>)
    ensures
        match r {
            Ok(s) => pem_from_base64(data@, bad_b64@, bad_utf8@) == Ok::<Seq<char>, ErrorV>(s@),
            Err(e) => pem_from_base64(data@, bad_b64@, bad_utf8@) == Err::<Seq<char>, ErrorV>(e@),
        },
{
    let bytes = match base64_decode(data.as_bytes()) {
        None => return Err(rejected(bad_b64)),
        Some(b) => b,
    };
    match utf8_string(bytes) {
        None => Err(rejected(bad_utf8)),
        Some(s) => Ok(s),
    }
}

fn auth_of_user(es: &Vec<KcEntry>) -> (r: Result<Auth, AppError>)
    ensures
        match r {
            Ok(a) => user_auth(es@) == Ok::<AuthV, ErrorV>(a@),
            Err(e) => user_auth(es@) == Err::<AuthV, ErrorV>(e@),
        },
{
    if lookup(es, "exec").is_some() {
        return Err(rejected("exec auth plugins are not supported"));
    }
    if lookup(es, "auth-provider").is_some() {
        return Err(rejected("auth-provider plugins are not supported"));
    }
    match lookup(es, "token") {
        Some(KcValue::Str(t)) => return Ok(Auth::BearerToken { token: t.clone() }),
        Some(KcValue::Other) => return Err(rejected("token must be a string")),
        None => {},
    }
    let cd = lookup(es, "client-certificate-data");
    let kd = lookup(es, "client-key-data");
    match (cd, kd) {
        (Some(cd), Some(kd)) => {
            let cert = match base64_decode(value_text(cd).as_bytes()) {
                None => return Err(rejected("bad client-certificate-data")),
                Some(b) => b,
            };
            let key = match base64_decode(value_text(kd).as_bytes()) {
                None => return Err(rejected("bad client-key-data")),
                Some(b) => b,
            };
            let cert_pem = match utf8_string(cert) {
                None => return Err(rejected("cert not UTF-8 PEM")),
                Some(s) => s,
            };
            let key_pem = match utf8_string(key) {
                None => return Err(rejected("key not UTF-8 PEM")),
                Some(s) => s,
            };
            Ok(Auth::ClientCert { cert_pem, key_pem })
        },
        _ => Err(
            rejected("user must have a static token or client-certificate-data + client-key-data"),
        ),
    }
}

/// Imports the current context (or the first one) of a parsed kubeconfig
/// as a cluster record with a nil id. Rejects exec / auth-provider plugins.
pub fn import_kubeconfig(root: &KcRoot, name: &str, env: Environment) -> (r: Result<ClusterRecord, AppError>)
    ensures
        match r {
            Ok(c) => import_result(*root, name@, env) == Ok::<ClusterV, ErrorV>(c@),
            Err(e) => import_result(*root, name@, env) == Err::<ClusterV, ErrorV>(e@),
        },
{
    let ctx_name: &str = match &root.current_context {
        Some(c) => c.as_str(),
        None => {
            if root.contexts.len() > 0 {
                root.contexts[0].name.as_str()
            } else {
                return Err(rejected("no contexts found"));
            }
        },
    };
    let ci = match find_context(&root.contexts, ctx_name) {
        None => return Err(rejected("current-context not in contexts")),
        Some(k) => k,
    };
    let ctx = &root.contexts[ci].context;
    let cl = match find_cluster(&root.clusters, ctx.cluster.as_str()) {
        None => return Err(rejected("cluster ref not found")),
        Some(k) => k,
    };
    let cluster = &root.clusters[cl].cluster;
    let ui = match find_user(&root.users, ctx.user.as_str()) {
        None => return Err(rejected("user ref not found")),
        Some(k) => k,
    };
    let es = match &root.users[ui].user {
        KcUser::Other => return Err(rejected("user entry malformed")),
        KcUser::Mapping(es) => es,
    };
    let auth = match auth_of_user(es) {
        Err(e) => return Err(e),
        Ok(a) => a,
    };
    let ca_pem = match &cluster.certificate_authority_data {
        Some(b64) => match decode_pem(b64.as_str(), "bad certificate-authority-data", "CA not UTF-8 PEM") {
            Err(e) => return Err(e),
            Ok(s) => s,
        },
        None => String::new(),
    };
    let default_namespace = match &ctx.namespace {
        Some(ns) => ns.clone(),
        None => String::from_str("default"),
    };
    let insecure = match cluster.insecure_skip_tls_verify {
        Some(b) => b,
        None => false,
    };
    Ok(
        ClusterRecord {
            id: 0,
            name: String::from_str(name),
            environment: env,
            api_server: cluster.server.clone(),
            ca_pem,
            auth,
            default_namespace,
            insecure_skip_tls_verify: insecure,
        },
    )
}

// ---------- command execution ----------

/// A command line to run on a cluster and namespace.
#[derive(Debug, Clone)]
pub struct ExecuteRequest {
    pub cluster_id: u128,
    pub namespace: String,
    pub command: String,
    /// The confirmation token returned by an earlier call, if any.
    pub confirmation: Option<String>,
    /// Inline YAML for `apply`.
    pub apply_body: Option<String>,
}

/// What running a command line answers: its output, or the confirmation
/// it needs first.
#[derive(Debug, Clone)]
pub enum ExecuteResponse {
    Output { severity: Severity, output: crate::executor::CommandOutput },
    NeedsConfirmation { request: ConfirmationRequest },
}

// ---------- opening URLs ----------

/// Only `http://` and `https://` URLs are handed to the system browser.
pub fn check_open_url(url: &str) -> (r: Result<(), AppError>)
    ensures
        ("http://"@.is_prefix_of(url@) || "https://"@.is_prefix_of(url@)) ==> r is Ok,
        !("http://"@.is_prefix_of(url@) || "https://"@.is_prefix_of(url@)) ==> (r matches Err(e) && e@
            == ErrorV::Kube("open_url: only http/https URLs are allowed"@)),
{
    let cs = crate::text::chars_of(url);
    if crate::text::starts_with(cs.as_slice(), "http://") || crate::text::starts_with(cs.as_slice(), "https://") {
        Ok(())
    } else {
        Err(AppError::Kube(String::from_str("open_url: only http/https URLs are allowed")))
    }
}

// ---------- the confirmation gate ----------

/// What to do with a parsed command: run it, or ask for a confirmation.
#[derive(Debug, Clone)]
pub enum Gate {
    Run(Severity),
    NeedsConfirmation(ConfirmationRequest),
}

/// A confirmation request for a command on a cluster record, and the
/// token it names issued for the same cluster, namespace and command.
pub open spec fn challenge_for(before: Map<Seq<char>, crate::safety::PendingV>, after: Map<Seq<char>, crate::safety::PendingV>, key: Seq<u8>, rec: ClusterV, ns: Seq<char>, cmd: CommandV, req: ConfirmationRequest) -> bool {
    &&& req.cluster_id == rec.id
    &&& req.cluster_name@ == rec.name
    &&& req.environment == rec.environment
    &&& req.action_summary@ == summary_of(cmd, ns)
    &&& req.require_typed_name == (rec.environment == Environment::Prod)
    &&& exists|now: u128| #[trigger] issued(before, after, now, req.challenge_id@, rec.id, ns, fingerprint_of(key, rec.id, ns, cmd))
}

/// Lets a safe command through; for a destructive one, issues a
/// confirmation challenge where no token came with it, and consumes the
/// token where one did, letting the command through only if the token is
/// accepted.
pub fn gate_command(pending: &mut PendingConfirmations, rec: &ClusterRecord, namespace: &str, cmd: &Command, confirmation: Option<&str>) -> (r: Result<Gate, AppError>)
    requires
        old(pending).wf(),
    ensures
        final(pending).wf(),
        final(pending).key() == old(pending).key(),
        severity_of(cmd@) == Severity::Safe ==> final(pending)@ == old(pending)@ && r matches Ok(
            Gate::Run(Severity::Safe),
        ),
        severity_of(cmd@) == Severity::Destructive && confirmation is None ==> (r matches Ok(
            Gate::NeedsConfirmation(req),
        ) && challenge_for(old(pending)@, final(pending)@, old(pending).key(), rec@, namespace@, cmd@, req)),
        severity_of(cmd@) == Severity::Destructive && confirmation is Some ==> (exists|now: u128| #[trigger]
            consumed(
                old(pending)@,
                final(pending)@,
                now,
                confirmation->0@,
                rec.id,
                namespace@,
                fingerprint_of(old(pending).key(), rec.id, namespace@, cmd@),
                r is Ok,
            )) && (r is Ok ==> r matches Ok(Gate::Run(Severity::Destructive))) && (r matches Err(e)
                ==> e@ == ErrorV::BadConfirmation),
{
    let severity = classify(cmd);
    match severity {
        Severity::Safe => {
            Ok(Gate::Run(Severity::Safe))
        },
        Severity::Destructive => match confirmation {
            None => {
                let ghost before = pending@;
                let challenge = pending.issue(rec.id, namespace, cmd);
                let ghost fp = fingerprint_of(old(pending).key(), rec.id, namespace@, cmd@);
                let ghost now = choose|now: u128| #[trigger] issued(before, pending@, now, challenge@, rec.id, namespace@, fp);
                let request = build_confirmation_request(rec, namespace, cmd, challenge);
                assert(issued(before, pending@, now, request.challenge_id@, rec.id, namespace@, fp));
                assert(request.cluster_id == rec@.id);
                assert(exists|now: u128| #[trigger] issued(before, pending@, now, request.challenge_id@, rec@.id, namespace@, fingerprint_of(old(pending).key(), rec@.id, namespace@, cmd@)));
                assert(challenge_for(before, pending@, old(pending).key(), rec@, namespace@, cmd@, request));
                Ok(Gate::NeedsConfirmation(request))
            },
            Some(token) => {
                let ghost before = pending@;
                let res = pending.consume(token, rec.id, namespace, cmd);
                let ghost fp = fingerprint_of(old(pending).key(), rec.id, namespace@, cmd@);
                let ghost now = choose|now: u128| #[trigger] consumed(before, pending@, now, token@, rec.id, namespace@, fp, res is Ok);
                assert(consumed(before, pending@, now, confirmation->0@, rec.id, namespace@, fp, res is Ok));
                let out: Result<Gate, AppError> = match res {
                    Ok(()) => Ok(Gate::Run(Severity::Destructive)),
                    Err(e) => Err(e),
                };
                assert(consumed(before, pending@, now, confirmation->0@, rec.id, namespace@, fp, out is Ok));
                out
            },
        },
    }
}

} // verus!

verus! {

// ---------- preparing a command line ----------

/// What a command line comes to before anything is asked of the cluster:
/// a confirmation to ask for, or a command cleared to run on a record.
#[derive(Debug, Clone)]
pub enum Prepared {
    Confirm(ConfirmationRequest),
    Run { severity: Severity, record: ClusterRecord, command: Command },
}

/// The outcome of the confirmation gate for a parsed command on a stored
/// record, as `gate_command` states it.
pub open spec fn gated(
    before: Map<Seq<char>, crate::safety::PendingV>,
    after: Map<Seq<char>, crate::safety::PendingV>,
    key: Seq<u8>,
    rec: ClusterV,
    ns: Seq<char>,
    cmd: CommandV,
    confirmation: Option<Seq<char>>,
    r: Result<Prepared, AppError>,
) -> bool {
    &&& severity_of(cmd) == Severity::Safe ==> after == before && (r matches Ok(
        Prepared::Run { severity, record, command },
    ) && severity == Severity::Safe && record@ == rec && command@ == cmd)
    &&& severity_of(cmd) == Severity::Destructive && confirmation is None ==> (r matches Ok(
        Prepared::Confirm(q),
    ) && challenge_for(before, after, key, rec, ns, cmd, q))
    &&& severity_of(cmd) == Severity::Destructive && confirmation is Some ==> (exists|now: u128| #[trigger]
        consumed(before, after, now, confirmation->0, rec.id, ns, fingerprint_of(key, rec.id, ns, cmd), r is Ok))
        && (r is Ok ==> (r matches Ok(Prepared::Run { severity, record, command }) && severity
        == Severity::Destructive && record@ == rec && command@ == cmd)) && (r matches Err(e) ==> e@
        == ErrorV::BadConfirmation)
}

/// Parses a command line, finds its cluster and passes the confirmation
/// gate, in that order; nothing is cleared to run unless it is safe or its
/// confirmation token is accepted.
pub fn prepare_command(pending: &mut PendingConfirmations, store: &EncryptedStore, req: &ExecuteRequest) -> (r: Result<Prepared, AppError>)
    requires
        old(pending).wf(),
    ensures
        final(pending).wf(),
        final(pending).key() == old(pending).key(),
        match crate::parser::command_result(req.command@) {
            Err(e) => (r matches Err(x) && x@ == e) && final(pending)@ == old(pending)@,
            Ok(cmd) => match position_of(store@, req.cluster_id) {
                None => (r matches Err(x) && x@ == ErrorV::NotFound) && final(pending)@ == old(pending)@,
                Some(k) => gated(
                    old(pending)@,
                    final(pending)@,
                    old(pending).key(),
                    store@[k],
                    req.namespace@,
                    cmd,
                    crate::parser::opt_view(req.confirmation),
                    r,
                ),
            },
        },
{
    let cmd = match crate::parser::parse(req.command.as_str()) {
        Ok(c) => c,
        Err(e) => return Err(e),
    };
    let rec = match store.get(req.cluster_id) {
        Ok(found) => found.duplicate(),
        Err(e) => return Err(e),
    };
    let confirmation: Option<&str> = match &req.confirmation {
        Some(t) => Some(t.as_str()),
        None => None,
    };
    proof {
        crate::store::lemma_position_of_bounds(store@, req.cluster_id);
    }
    let ghost k = position_of(store@, req.cluster_id)->0;
    assert(rec@ == store@[k]);
    assert(confirmation is None <==> req.confirmation is None);
    assert(confirmation is Some ==> confirmation->0@ == crate::parser::opt_view(req.confirmation)->0);
    let ghost before = pending@;
    let ghost key = pending.key();
    let ghost recv = rec@;
    let ghost cmdv = cmd@;
    let g = gate_command(pending, &rec, req.namespace.as_str(), &cmd, confirmation);
    let r = match g {
        Err(e) => Err(e),
        Ok(Gate::NeedsConfirmation(q)) => Ok(Prepared::Confirm(q)),
        Ok(Gate::Run(severity)) => Ok(Prepared::Run { severity, record: rec, command: cmd }),
    };
    proof {
        let conf = crate::parser::opt_view(req.confirmation);
        let fp = fingerprint_of(key, recv.id, req.namespace@, cmdv);
        if severity_of(cmdv) == Severity::Destructive && conf is Some {
            let now = choose|now: u128| #[trigger]
                consumed(before, pending@, now, confirmation->0@, rec.id, req.namespace@, fp, g is Ok);
            assert(consumed(before, pending@, now, conf->0, recv.id, req.namespace@, fp, r is Ok));
        }
    }
    assert(gated(before, pending@, key, recv, req.namespace@, cmdv, crate::parser::opt_view(req.confirmation), r));
    r
}

} // verus!
