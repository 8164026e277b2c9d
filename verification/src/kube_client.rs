//! The connection settings of a cluster, built from its stored record alone
//! (never from `$KUBECONFIG` or any other file), and the cache of connected
//! clients, one per cluster.

use vstd::prelude::*;
use crate::crypto::{base64_encode, base64_encoded};
use crate::registry::Registry;
use crate::store::{Auth, AuthV, ClusterRecord, ClusterV};

verus! {

/// The name of the one cluster entry of the generated configuration.
pub const CLUSTER_ENTRY: &'static str = "k8sdesk-cluster";

/// The name of the one user entry of the generated configuration.
pub const USER_ENTRY: &'static str = "k8sdesk-user";

/// The name of the one context of the generated configuration, which is
/// also its current context.
pub const CONTEXT_ENTRY: &'static str = "k8sdesk-context";

/// How the generated configuration authenticates.
#[derive(Debug, Clone)]
pub enum UserCredential {
    /// A bearer token, as stored.
    Token(String),
    /// A client certificate and key, each base64 of its PEM text.
    ClientCert { cert_data: String, key_data: String },
}

pub enum UserCredentialV {
    Token(Seq<char>),
    ClientCert { cert_data: Seq<char>, key_data: Seq<char> },
}

impl View for UserCredential {
    type V = UserCredentialV;

    open spec fn view(&self) -> UserCredentialV {
        match self {
            UserCredential::Token(t) => UserCredentialV::Token(t@),
            UserCredential::ClientCert { cert_data, key_data } => UserCredentialV::ClientCert {
                cert_data: cert_data@,
                key_data: key_data@,
            },
        }
    }
}

/// A kubeconfig with one cluster, one user and one context, as plain values.
#[derive(Debug, Clone)]
pub struct ConnectionPlan {
    pub cluster_name: String,
    pub user_name: String,
    pub context_name: String,
    pub server: String,
    /// Base64 of the CA bundle's PEM text; none where the record has no CA.
    pub ca_data: Option<String>,
    pub insecure_skip_tls_verify: bool,
    pub credential: UserCredential,
    pub namespace: String,
}

pub struct PlanV {
    pub cluster_name: Seq<char>,
    pub user_name: Seq<char>,
    pub context_name: Seq<char>,
    pub server: Seq<char>,
    pub ca_data: Option<Seq<char>>,
    pub insecure_skip_tls_verify: bool,
    pub credential: UserCredentialV,
    pub namespace: Seq<char>,
}

impl View for ConnectionPlan {
    type V = PlanV;

    open spec fn view(&self) -> PlanV {
        PlanV {
            cluster_name: self.cluster_name@,
            user_name: self.user_name@,
            context_name: self.context_name@,
            server: self.server@,
            ca_data: crate::parser::opt_view(self.ca_data),
            insecure_skip_tls_verify: self.insecure_skip_tls_verify,
            credential: self.credential@,
            namespace: self.namespace@,
        }
    }
}

/// Base64 of a text's UTF-8 bytes.
pub open spec fn base64_text(s: Seq<char>) -> Seq<char> {
    base64_encoded(vstd::utf8::encode_utf8(s))
}

/// The configuration that connects to the cluster of a record: its API
/// server, its CA (base64, where there is one), its TLS choice, its
/// credentials (a token as is, certificate and key in base64) and its
/// default namespace, under the three fixed entry names.
pub open spec fn plan_of(rec: ClusterV) -> PlanV {
    PlanV {
        cluster_name: CLUSTER_ENTRY@,
        user_name: USER_ENTRY@,
        context_name: CONTEXT_ENTRY@,
        server: rec.api_server,
        ca_data: if rec.ca_pem.len() == 0 {
            None
        } else {
            Some(base64_text(rec.ca_pem))
        },
        insecure_skip_tls_verify: rec.insecure_skip_tls_verify,
        credential: match rec.auth {
            AuthV::BearerToken { token } => UserCredentialV::Token(token),
            AuthV::ClientCert { cert_pem, key_pem } => UserCredentialV::ClientCert {
                cert_data: base64_text(cert_pem),
                key_data: base64_text(key_pem),
            },
        },
        namespace: rec.default_namespace,
    }
}

fn encode_text(s: &String) -> (r: String)
    ensures
        r@ == base64_text(s@),
{
    base64_encode(s.as_str().as_bytes())
}

/// Builds the connection settings of a cluster from its record.
pub fn connection_plan(rec: &ClusterRecord) -> (r: ConnectionPlan)
    ensures
        r@ == plan_of(rec@),
{
    let ca_data = if rec.ca_pem.as_str().is_empty() {
        None
    } else {
        Some(encode_text(&rec.ca_pem))
    };
    let credential = match &rec.auth {
        Auth::BearerToken { token } => UserCredential::Token(token.clone()),
        Auth::ClientCert { cert_pem, key_pem } => UserCredential::ClientCert {
            cert_data: encode_text(cert_pem),
            key_data: encode_text(key_pem),
        },
    };
    ConnectionPlan {
        cluster_name: String::from_str(CLUSTER_ENTRY),
        user_name: String::from_str(USER_ENTRY),
        context_name: String::from_str(CONTEXT_ENTRY),
        server: rec.api_server.clone(),
        ca_data,
        insecure_skip_tls_verify: rec.insecure_skip_tls_verify,
        credential,
        namespace: rec.default_namespace.clone(),
    }
}

// ---------- connected clients ----------

#[verifier::external_type_specification]
#[verifier::external_body]
pub struct ExKubeClient(kube::Client);

/// Calls `Client::clone` (kube): another handle on the same connection.
/// Nothing is stated of the handle.
#[verifier::external_body]
fn share_client(c: &kube::Client) -> (r: kube::Client) {
    c.clone()
}

/// Connected clients by cluster id. A client is remembered once built and
/// forgotten when its cluster is changed or removed.
pub struct ClientCache {
    inner: Registry<kube::Client>,
}

impl ClientCache {
    /// The ids of the clusters that have a remembered client.
    pub closed spec fn ids(&self) -> Set<u128> {
        self.inner.view().dom()
    }

    pub fn new() -> (r: ClientCache)
        ensures
            r.ids() == Set::<u128>::empty(),
    {
        let r = ClientCache { inner: Registry::new() };
        assert(r.ids() =~= Set::<u128>::empty());
        r
    }

    /// Forget the client of a cluster.
    pub fn invalidate(&mut self, id: u128)
        ensures
            final(self).ids() == old(self).ids().remove(id),
    {
        let _ = self.inner.remove(id);
        assert(self.ids() =~= old(self).ids().remove(id));
    }

    /// The remembered client of a cluster, where there is one.
    pub fn cached(&self, id: u128) -> (r: Option<kube::Client>)
        ensures
            r is Some <==> self.ids().contains(id),
    {
        match self.inner.get(id) {
            Some(c) => Some(share_client(c)),
            None => None,
        }
    }

    /// Remember the client built for a cluster.
    pub fn remember(&mut self, id: u128, client: kube::Client)
        ensures
            final(self).ids() == old(self).ids().insert(id),
    {
        self.inner.insert(id, client);
        assert(self.ids() =~= old(self).ids().insert(id));
    }
}

} // verus!
