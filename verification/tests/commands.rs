use k8sdesk::commands::{
    check_open_url, gate_command, prepare_command, ExecuteRequest, Prepared, import_kubeconfig, merge_input, update_cluster, ClusterInput, Gate, KcCluster,
    KcContext, KcEntry, KcNamedCluster, KcNamedContext, KcNamedUser, KcRoot, KcUser, KcValue,
};
use k8sdesk::error::AppError;
use k8sdesk::parser::{Command, Resource};
use k8sdesk::safety::{PendingConfirmations, Severity};
use k8sdesk::store::{Auth, ClusterRecord, EncryptedStore, Environment};
use serde_yaml::Value;

fn text(v: &Value) -> String {
    v.as_str().unwrap().to_string()
}

fn opt_text(v: &Value, key: &str) -> Option<String> {
    v.get(key).and_then(|x| x.as_str()).map(|s| s.to_string())
}

/// Reads the parts of a kubeconfig that the import looks at.
fn kc_root(yaml: &str) -> KcRoot {
    let doc: Value = serde_yaml::from_str(yaml).unwrap();
    let clusters = doc["clusters"]
        .as_sequence()
        .unwrap()
        .iter()
        .map(|c| KcNamedCluster {
            name: text(&c["name"]),
            cluster: KcCluster {
                server: text(&c["cluster"]["server"]),
                certificate_authority_data: opt_text(&c["cluster"], "certificate-authority-data"),
                insecure_skip_tls_verify: c["cluster"]
                    .get("insecure-skip-tls-verify")
                    .and_then(|b| b.as_bool()),
            },
        })
        .collect();
    let users = doc["users"]
        .as_sequence()
        .unwrap()
        .iter()
        .map(|u| KcNamedUser {
            name: text(&u["name"]),
            user: match u["user"].as_mapping() {
                Some(m) => KcUser::Mapping(
                    m.iter()
                        .filter_map(|(k, v)| {
                            k.as_str().map(|k| KcEntry {
                                key: k.to_string(),
                                value: match v.as_str() {
                                    Some(s) => KcValue::Str(s.to_string()),
                                    None => KcValue::Other,
                                },
                            })
                        })
                        .collect(),
                ),
                None => KcUser::Other,
            },
        })
        .collect();
    let contexts = doc["contexts"]
        .as_sequence()
        .unwrap()
        .iter()
        .map(|c| KcNamedContext {
            name: text(&c["name"]),
            context: KcContext {
                cluster: text(&c["context"]["cluster"]),
                user: text(&c["context"]["user"]),
                namespace: opt_text(&c["context"], "namespace"),
            },
        })
        .collect();
    KcRoot { clusters, users, contexts, current_context: opt_text(&doc, "current-context") }
}

fn parse_kubeconfig(yaml: &str, name: &str, env: Environment) -> Result<ClusterRecord, AppError> {
    import_kubeconfig(&kc_root(yaml), name, env)
}

#[test]
fn rejects_exec_plugin() {
    let yaml = r#"
apiVersion: v1
kind: Config
current-context: c
clusters:
- name: cl
  cluster:
    server: https://x
    certificate-authority-data: dGVzdA==
users:
- name: u
  user:
    exec:
      command: aws
      apiVersion: client.authentication.k8s.io/v1beta1
contexts:
- name: c
  context: { cluster: cl, user: u, namespace: default }
"#;
    let r = parse_kubeconfig(yaml, "n", Environment::Dev);
    assert!(matches!(r, Err(AppError::KubeconfigRejected(_))));
}

#[test]
fn imports_token_kubeconfig() {
    let yaml = r#"
apiVersion: v1
kind: Config
current-context: c
clusters:
- name: cl
  cluster:
    server: https://x
    certificate-authority-data: dGVzdA==
users:
- name: u
  user:
    token: abc
contexts:
- name: c
  context: { cluster: cl, user: u, namespace: kube-system }
"#;
    let r = parse_kubeconfig(yaml, "n", Environment::Staging).unwrap();
    assert_eq!(r.api_server, "https://x");
    assert_eq!(r.default_namespace, "kube-system");
    match r.auth {
        Auth::BearerToken { token } => assert_eq!(token, "abc"),
        _ => panic!("expected token"),
    }
}

// ---- further cases ----

fn rejection(r: Result<ClusterRecord, AppError>) -> String {
    match r {
        Err(AppError::KubeconfigRejected(m)) => m,
        other => panic!("expected a rejection, got {:?}", other),
    }
}

const CERT_YAML: &str = r#"
clusters:
- name: cl
  cluster:
    server: https://k:6443
    insecure-skip-tls-verify: true
users:
- name: u
  user:
    client-certificate-data: Q0VSVA==
    client-key-data: S0VZ
contexts:
- name: first
  context: { cluster: cl, user: u }
"#;

#[test]
fn imports_client_certificate_from_first_context() {
    let r = parse_kubeconfig(CERT_YAML, "edge", Environment::Prod).unwrap();
    assert_eq!(r.id, 0);
    assert_eq!(r.name, "edge");
    assert_eq!(r.environment, Environment::Prod);
    assert_eq!(r.ca_pem, "");
    assert!(r.insecure_skip_tls_verify);
    assert_eq!(r.default_namespace, "default");
    match r.auth {
        Auth::ClientCert { cert_pem, key_pem } => {
            assert_eq!(cert_pem, "CERT");
            assert_eq!(key_pem, "KEY");
        }
        _ => panic!("expected a client certificate"),
    }
}

#[test]
fn import_rejections() {
    let auth_provider = r#"
current-context: c
clusters: [{ name: cl, cluster: { server: "https://x" } }]
users: [{ name: u, user: { auth-provider: { name: gcp } } }]
contexts: [{ name: c, context: { cluster: cl, user: u } }]
"#;
    assert_eq!(
        rejection(parse_kubeconfig(auth_provider, "n", Environment::Dev)),
        "auth-provider plugins are not supported"
    );
    let no_contexts = "clusters: []\nusers: []\ncontexts: []\n";
    assert_eq!(rejection(parse_kubeconfig(no_contexts, "n", Environment::Dev)), "no contexts found");
    let missing_ctx = r#"
current-context: zzz
clusters: [{ name: cl, cluster: { server: "https://x" } }]
users: [{ name: u, user: { token: t } }]
contexts: [{ name: c, context: { cluster: cl, user: u } }]
"#;
    assert_eq!(
        rejection(parse_kubeconfig(missing_ctx, "n", Environment::Dev)),
        "current-context not in contexts"
    );
    let missing_cluster = r#"
clusters: [{ name: other, cluster: { server: "https://x" } }]
users: [{ name: u, user: { token: t } }]
contexts: [{ name: c, context: { cluster: cl, user: u } }]
"#;
    assert_eq!(
        rejection(parse_kubeconfig(missing_cluster, "n", Environment::Dev)),
        "cluster ref not found"
    );
    let missing_user = r#"
clusters: [{ name: cl, cluster: { server: "https://x" } }]
users: [{ name: v, user: { token: t } }]
contexts: [{ name: c, context: { cluster: cl, user: u } }]
"#;
    assert_eq!(rejection(parse_kubeconfig(missing_user, "n", Environment::Dev)), "user ref not found");
    let no_creds = r#"
clusters: [{ name: cl, cluster: { server: "https://x" } }]
users: [{ name: u, user: { username: admin } }]
contexts: [{ name: c, context: { cluster: cl, user: u } }]
"#;
    assert_eq!(
        rejection(parse_kubeconfig(no_creds, "n", Environment::Dev)),
        "user must have a static token or client-certificate-data + client-key-data"
    );
    let token_not_text = r#"
clusters: [{ name: cl, cluster: { server: "https://x" } }]
users: [{ name: u, user: { token: [1, 2] } }]
contexts: [{ name: c, context: { cluster: cl, user: u } }]
"#;
    assert_eq!(
        rejection(parse_kubeconfig(token_not_text, "n", Environment::Dev)),
        "token must be a string"
    );
    let bad_ca = r#"
clusters: [{ name: cl, cluster: { server: "https://x", certificate-authority-data: "%%%" } }]
users: [{ name: u, user: { token: t } }]
contexts: [{ name: c, context: { cluster: cl, user: u } }]
"#;
    assert_eq!(
        rejection(parse_kubeconfig(bad_ca, "n", Environment::Dev)),
        "bad certificate-authority-data"
    );
    let ca_not_utf8 = r#"
clusters: [{ name: cl, cluster: { server: "https://x", certificate-authority-data: "/w==" } }]
users: [{ name: u, user: { token: t } }]
contexts: [{ name: c, context: { cluster: cl, user: u } }]
"#;
    assert_eq!(rejection(parse_kubeconfig(ca_not_utf8, "n", Environment::Dev)), "CA not UTF-8 PEM");
    let user_not_mapping = r#"
clusters: [{ name: cl, cluster: { server: "https://x" } }]
users: [{ name: u, user: "nope" }]
contexts: [{ name: c, context: { cluster: cl, user: u } }]
"#;
    assert_eq!(
        rejection(parse_kubeconfig(user_not_mapping, "n", Environment::Dev)),
        "user entry malformed"
    );
}

#[test]
fn ca_data_is_decoded() {
    let yaml = r#"
clusters: [{ name: cl, cluster: { server: "https://x", certificate-authority-data: "dGVzdA==" } }]
users: [{ name: u, user: { token: t } }]
contexts: [{ name: c, context: { cluster: cl, user: u } }]
"#;
    assert_eq!(parse_kubeconfig(yaml, "n", Environment::Dev).unwrap().ca_pem, "test");
}

fn form(token: &str, ca: &str) -> ClusterInput {
    ClusterInput {
        name: "edited".into(),
        environment: Environment::Staging,
        api_server: "https://new:6443".into(),
        ca_pem: ca.into(),
        auth: Auth::BearerToken { token: token.into() },
        default_namespace: "  ".into(),
        insecure_skip_tls_verify: false,
    }
}

fn stored() -> ClusterRecord {
    ClusterRecord {
        id: 9,
        name: "orig".into(),
        environment: Environment::Dev,
        api_server: "https://old:6443".into(),
        ca_pem: "OLD CA".into(),
        auth: Auth::BearerToken { token: "secret".into() },
        default_namespace: "apps".into(),
        insecure_skip_tls_verify: true,
    }
}

#[test]
fn form_input_into_record() {
    let rec = form("tok", "CA").into_record();
    assert_eq!(rec.id, 0);
    assert_eq!(rec.default_namespace, "default");
    assert_eq!(rec.name, "edited");
}

#[test]
fn merge_keeps_blank_secrets() {
    let m = merge_input(stored(), form("", ""));
    assert_eq!(m.id, 9);
    assert_eq!(m.name, "edited");
    assert_eq!(m.api_server, "https://new:6443");
    assert_eq!(m.ca_pem, "OLD CA");
    assert_eq!(m.default_namespace, "default");
    assert!(matches!(m.auth, Auth::BearerToken { ref token } if token == "secret"));
    let m = merge_input(stored(), form("fresh", "NEW CA"));
    assert_eq!(m.ca_pem, "NEW CA");
    assert!(matches!(m.auth, Auth::BearerToken { ref token } if token == "fresh"));
}

#[test]
fn update_cluster_through_store() {
    let mut store = EncryptedStore::from_parts(vec![0u8; 32], vec![stored()]);
    let red = update_cluster(&mut store, 9, form("", "")).unwrap();
    assert_eq!(red.name, "edited");
    assert_eq!(store.get(9).unwrap().ca_pem, "OLD CA");
    assert!(matches!(update_cluster(&mut store, 10, form("", "")), Err(AppError::NotFound)));
    // the merged record must still be valid: no CA and TLS checks on
    let mut no_ca = EncryptedStore::from_parts(vec![0u8; 32], vec![ClusterRecord { ca_pem: String::new(), ..stored() }]);
    assert!(matches!(update_cluster(&mut no_ca, 9, form("", "")), Err(AppError::BadInput(_))));
}

#[test]
fn gate_lets_safe_commands_through_and_guards_destructive_ones() {
    let mut pending = PendingConfirmations::new();
    let rec = stored();
    let get = Command::Get { resource: Resource::Pods, name: None };
    assert!(matches!(gate_command(&mut pending, &rec, "apps", &get, None), Ok(Gate::Run(Severity::Safe))));

    let del = Command::Delete { resource: Resource::Pods, name: "web".into() };
    let req = match gate_command(&mut pending, &rec, "apps", &del, None) {
        Ok(Gate::NeedsConfirmation(req)) => req,
        other => panic!("expected a challenge, got {:?}", other),
    };
    assert_eq!(req.cluster_id, 9);
    assert_eq!(req.cluster_name, "orig");
    assert!(!req.require_typed_name);
    assert_eq!(req.action_summary, "DELETE Pods 'web' in namespace 'apps'");
    let tok = req.challenge_id.clone();
    assert!(matches!(
        gate_command(&mut pending, &rec, "apps", &del, Some(tok.as_str())),
        Ok(Gate::Run(Severity::Destructive))
    ));
    assert!(matches!(
        gate_command(&mut pending, &rec, "apps", &del, Some(tok.as_str())),
        Err(AppError::BadConfirmation)
    ));
}

#[test]
fn only_web_urls_are_opened() {
    assert!(check_open_url("https://example.test").is_ok());
    assert!(check_open_url("http://127.0.0.1:8001/_bridge").is_ok());
    assert!(matches!(
        check_open_url("file:///etc/passwd"),
        Err(AppError::Kube(m)) if m == "open_url: only http/https URLs are allowed"
    ));
}

fn request(cluster_id: u128, command: &str, confirmation: Option<String>) -> ExecuteRequest {
    ExecuteRequest {
        cluster_id,
        namespace: "apps".into(),
        command: command.into(),
        confirmation,
        apply_body: None,
    }
}

#[test]
fn prepare_parses_finds_and_gates() {
    let store = EncryptedStore::from_parts(vec![0u8; 32], vec![stored()]);
    let mut pending = PendingConfirmations::new();
    assert!(matches!(
        prepare_command(&mut pending, &store, &request(9, "kubectl get pods", None)),
        Err(AppError::Forbidden(_))
    ));
    assert!(matches!(
        prepare_command(&mut pending, &store, &request(10, "get pods", None)),
        Err(AppError::NotFound)
    ));
    match prepare_command(&mut pending, &store, &request(9, "get pods", None)) {
        Ok(Prepared::Run { severity: Severity::Safe, record, command }) => {
            assert_eq!(record.id, 9);
            assert_eq!(command, Command::Get { resource: Resource::Pods, name: None });
        }
        other => panic!("unexpected {:?}", other),
    }
    let tok = match prepare_command(&mut pending, &store, &request(9, "delete pod web", None)) {
        Ok(Prepared::Confirm(req)) => req.challenge_id,
        other => panic!("unexpected {:?}", other),
    };
    assert!(matches!(
        prepare_command(&mut pending, &store, &request(9, "delete pod other", Some(tok.clone()))),
        Err(AppError::BadConfirmation)
    ));
    let tok = match prepare_command(&mut pending, &store, &request(9, "delete pod web", None)) {
        Ok(Prepared::Confirm(req)) => req.challenge_id,
        other => panic!("unexpected {:?}", other),
    };
    assert!(matches!(
        prepare_command(&mut pending, &store, &request(9, "delete pod web", Some(tok))),
        Ok(Prepared::Run { severity: Severity::Destructive, .. })
    ));
}
