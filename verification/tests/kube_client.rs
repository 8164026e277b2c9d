use k8sdesk::kube_client::{connection_plan, ClientCache, UserCredential};
use k8sdesk::store::{Auth, ClusterRecord, Environment};

fn record(auth: Auth, ca: &str) -> ClusterRecord {
    ClusterRecord {
        id: 3,
        name: "c".into(),
        environment: Environment::Dev,
        api_server: "https://k:6443".into(),
        ca_pem: ca.into(),
        auth,
        default_namespace: "apps".into(),
        insecure_skip_tls_verify: false,
    }
}

#[test]
fn plan_from_token_record() {
    let p = connection_plan(&record(Auth::BearerToken { token: "abc".into() }, "test"));
    assert_eq!(p.cluster_name, "k8sdesk-cluster");
    assert_eq!(p.user_name, "k8sdesk-user");
    assert_eq!(p.context_name, "k8sdesk-context");
    assert_eq!(p.server, "https://k:6443");
    assert_eq!(p.ca_data, Some("dGVzdA==".to_string()));
    assert!(!p.insecure_skip_tls_verify);
    assert_eq!(p.namespace, "apps");
    assert!(matches!(p.credential, UserCredential::Token(ref t) if t == "abc"));
}

#[test]
fn plan_from_certificate_record() {
    let p = connection_plan(&record(Auth::ClientCert { cert_pem: "CERT".into(), key_pem: "KEY".into() }, ""));
    assert_eq!(p.ca_data, None);
    match p.credential {
        UserCredential::ClientCert { cert_data, key_data } => {
            assert_eq!(cert_data, "Q0VSVA==");
            assert_eq!(key_data, "S0VZ");
        }
        other => panic!("unexpected {:?}", other),
    }
}

#[test]
fn empty_client_cache() {
    let mut cache = ClientCache::new();
    assert!(cache.cached(3).is_none());
    cache.invalidate(3);
    assert!(cache.cached(3).is_none());
}
