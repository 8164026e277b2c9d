use k8sdesk::parser::{Command, Resource};
use k8sdesk::safety::{build_confirmation_request, classify, summarize, PendingConfirmations, Severity};
use k8sdesk::store::{Auth, ClusterRecord, Environment};

#[test]
fn classifies_destructive() {
    assert_eq!(
        classify(&Command::Delete { resource: Resource::Pods, name: "x".into() }),
        Severity::Destructive
    );
    assert_eq!(
        classify(&Command::Scale { resource: Resource::Deployments, name: "x".into(), replicas: 0 }),
        Severity::Destructive
    );
    assert_eq!(
        classify(&Command::RolloutRestart { resource: Resource::Deployments, name: "x".into() }),
        Severity::Destructive
    );
    assert_eq!(classify(&Command::Apply { paste_id: "p".into() }), Severity::Destructive);
}

#[test]
fn classifies_safe() {
    assert_eq!(classify(&Command::Get { resource: Resource::Pods, name: None }), Severity::Safe);
    assert_eq!(classify(&Command::Help), Severity::Safe);
}

#[test]
fn confirmation_token_round_trip() {
    let mut p = PendingConfirmations::default();
    let cid = uuid::Uuid::new_v4().as_u128();
    let cmd = Command::Delete { resource: Resource::Pods, name: "x".into() };
    let tok = p.issue(cid, "ns", &cmd);
    // wrong command rejected
    assert!(p
        .consume(&tok, cid, "ns", &Command::Delete { resource: Resource::Pods, name: "y".into() })
        .is_err());
    // correct command accepted
    let tok = p.issue(cid, "ns", &cmd);
    assert!(p.consume(&tok, cid, "ns", &cmd).is_ok());
    // single-use: reusing fails
    assert!(p.consume(&tok, cid, "ns", &cmd).is_err());
}

// ---- further cases ----

#[test]
fn token_bound_to_cluster_and_namespace() {
    let mut p = PendingConfirmations::new();
    let cmd = Command::Scale { resource: Resource::Deployments, name: "api".into(), replicas: 2 };
    let tok = p.issue(7, "prod-ns", &cmd);
    assert!(p.consume(&tok, 8, "prod-ns", &cmd).is_err());
    let tok = p.issue(7, "prod-ns", &cmd);
    assert!(p.consume(&tok, 7, "other", &cmd).is_err());
    let tok = p.issue(7, "prod-ns", &cmd);
    let other = Command::Scale { resource: Resource::Deployments, name: "api".into(), replicas: 3 };
    assert!(p.consume(&tok, 7, "prod-ns", &other).is_err());
    assert!(p.consume("no-such-token", 7, "prod-ns", &cmd).is_err());
}

#[test]
fn token_lifetime_on_explicit_clock() {
    let mut p = PendingConfirmations::new();
    let fp = vec![1u8, 2, 3];
    // accepted at exactly 30 s
    p.issue_at(1_000, "a".into(), 1, "ns", fp.clone());
    assert!(p.consume_at(1_000 + 30_000_000_000, "a", 1, "ns", &fp).is_ok());
    // refused one nanosecond later
    p.issue_at(5_000, "b".into(), 1, "ns", fp.clone());
    assert!(p.consume_at(5_000 + 30_000_000_001, "b", 1, "ns", &fp).is_err());
    // a refused token is gone too
    p.issue_at(0, "c".into(), 1, "ns", fp.clone());
    assert!(p.consume_at(1, "c", 2, "ns", &fp).is_err());
    assert!(p.consume_at(2, "c", 1, "ns", &fp).is_err());
    // wrong fingerprint
    p.issue_at(0, "d".into(), 1, "ns", fp.clone());
    assert!(p.consume_at(0, "d", 1, "ns", &[9u8]).is_err());
}

#[test]
fn summaries() {
    assert_eq!(
        summarize(&Command::Delete { resource: Resource::Pods, name: "web".into() }, "shop"),
        "DELETE Pods 'web' in namespace 'shop'"
    );
    assert_eq!(
        summarize(
            &Command::Scale { resource: Resource::Deployments, name: "api".into(), replicas: 3 },
            "shop"
        ),
        "SCALE Deployments 'api' to 3 replicas in namespace 'shop'"
    );
    assert_eq!(
        summarize(&Command::RolloutRestart { resource: Resource::StatefulSets, name: "db".into() }, "x"),
        "ROLLOUT RESTART StatefulSets 'db' in namespace 'x'"
    );
    assert_eq!(
        summarize(&Command::Apply { paste_id: "p1".into() }, "x"),
        "APPLY pasted manifest 'p1' into namespace 'x'"
    );
    assert_eq!(summarize(&Command::Help, "x"), "safe operation");
}

#[test]
fn confirmation_request_for_prod() {
    let rec = ClusterRecord {
        id: 42,
        name: "main".into(),
        environment: Environment::Prod,
        api_server: "https://k:6443".into(),
        ca_pem: String::new(),
        auth: Auth::BearerToken { token: "t".into() },
        default_namespace: "default".into(),
        insecure_skip_tls_verify: true,
    };
    let cmd = Command::Delete { resource: Resource::Pods, name: "web".into() };
    let req = build_confirmation_request(&rec, "shop", &cmd, "ch-1".into());
    assert_eq!(req.challenge_id, "ch-1");
    assert_eq!(req.cluster_id, 42);
    assert_eq!(req.cluster_name, "main");
    assert_eq!(req.environment, Environment::Prod);
    assert_eq!(req.action_summary, "DELETE Pods 'web' in namespace 'shop'");
    assert!(req.require_typed_name);
}

#[test]
fn token_binding_tells_close_commands_apart() {
    let mut p = PendingConfirmations::new();
    let a = Command::Scale { resource: Resource::Deployments, name: "api1".into(), replicas: 2 };
    let b = Command::Scale { resource: Resource::Deployments, name: "api".into(), replicas: 12 };
    let tok = p.issue(1, "ns", &a);
    assert!(p.consume(&tok, 1, "ns", &b).is_err());
    let c = Command::Logs { pod: "p".into(), container: None, tail: Some(1), follow: false };
    let d = Command::Logs { pod: "p".into(), container: None, tail: Some(1), follow: true };
    let tok = p.issue(1, "ns", &c);
    assert!(p.consume(&tok, 1, "ns", &d).is_err());
    let tok = p.issue(1, "ns", &c);
    assert!(p.consume(&tok, 1, "ns", &c).is_ok());
}
