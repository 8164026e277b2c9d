use std::sync::atomic::{AtomicBool, Ordering};
use std::sync::Arc;

use k8sdesk::dashboard::{
    bridge_html, bridge_response, bridge_url, dashboard_namespaces, dashboard_not_found,
    dashboard_selectors, first_token_step, is_bridge_request, next_token_step,
    pick_dashboard_pod, pick_legacy_token, plain_quote, port_is_https, proxy_url,
    request_line_complete, token_literal, first_search_step, next_search_step,
    first_provision_step, next_provision_step,
    ContainerPort, DashboardRegistry, DashboardSession, LegacySecret, PodCandidate, TokenDecision,
    TokenOutcome, TokenStep, BRIDGE_PAGE_HEAD, BRIDGE_PAGE_TAIL, SearchStep, ProvisionStep,
    ProvisionAction,
};
use k8sdesk::error::AppError;

#[test]
fn https_ports() {
    assert!(port_is_https(8443, None));
    assert!(port_is_https(443, Some("web")));
    assert!(port_is_https(8000, Some("HTTPS-port")));
    assert!(port_is_https(8000, Some("my-tls")));
    assert!(port_is_https(8000, Some("Secure")));
    assert!(!port_is_https(9090, Some("http")));
    assert!(!port_is_https(9090, None));
}

fn pod(name: &str, phase: &str, ports: Vec<ContainerPort>) -> PodCandidate {
    PodCandidate { name: Some(name.into()), phase: Some(phase.into()), ports }
}

fn port(n: i32, name: Option<&str>) -> ContainerPort {
    ContainerPort { container_port: n, name: name.map(|s| s.to_string()) }
}

#[test]
fn picks_first_running_pod_and_its_port() {
    let pods = vec![
        pod("old", "Pending", vec![port(9090, None)]),
        PodCandidate { name: None, phase: Some("Running".into()), ports: vec![] },
        pod("web", "Running", vec![port(8443, Some("https")), port(9090, Some("http"))]),
        pod("later", "Running", vec![]),
    ];
    let t = pick_dashboard_pod(&pods).unwrap();
    assert_eq!(t.pod_name, "web");
    assert_eq!(t.port, 9090);
    assert!(!t.https);

    let only_tls = vec![pod("d", "Running", vec![port(8443, Some("dash"))])];
    let t = pick_dashboard_pod(&only_tls).unwrap();
    assert_eq!((t.port, t.https), (8443, true));

    let no_ports = vec![pod("d", "Running", vec![])];
    let t = pick_dashboard_pod(&no_ports).unwrap();
    assert_eq!((t.port, t.https), (9090, false));

    assert!(pick_dashboard_pod(&vec![pod("x", "Failed", vec![])]).is_none());
    assert!(matches!(dashboard_not_found(), AppError::Kube(m) if m.starts_with("kubernetes-dashboard pod not found")));
}

#[test]
fn search_order() {
    assert_eq!(dashboard_namespaces(), vec!["kubernetes-dashboard", "kube-system", "default"]);
    assert_eq!(dashboard_selectors().len(), 4);
    assert_eq!(dashboard_selectors()[0], "app.kubernetes.io/name=kubernetes-dashboard");
}

fn next(step: TokenStep, outcome: TokenOutcome) -> TokenStep {
    match next_token_step(step, outcome) {
        TokenDecision::Next(s) => s,
        other => panic!("expected another step, got {:?}", other),
    }
}

#[test]
fn token_search_steps() {
    let s = first_token_step();
    assert_eq!(s, TokenStep::MintAdminUser);
    assert_eq!(s.service_account(), Some("admin-user"));
    let s = next(s, TokenOutcome::Token(None));
    assert_eq!(s, TokenStep::MintDashboardAdmin);
    let s = next(s, TokenOutcome::Token(None));
    assert_eq!(s, TokenStep::ProvisionAdmin);
    assert_eq!(s.service_account(), None);
    assert_eq!(next(s, TokenOutcome::Provisioned(true)), TokenStep::MintProvisioned);
    assert_eq!(next(s, TokenOutcome::Provisioned(false)), TokenStep::MintDashboardAccount);
    assert_eq!(next(TokenStep::MintProvisioned, TokenOutcome::Token(None)), TokenStep::MintDashboardAccount);
    assert_eq!(next(TokenStep::MintDashboardAccount, TokenOutcome::Token(None)), TokenStep::ScanSecrets);
    match next_token_step(TokenStep::MintDashboardAdmin, TokenOutcome::Token(Some("tok".into()))) {
        TokenDecision::Done(t) => assert_eq!(t, "tok"),
        other => panic!("unexpected {:?}", other),
    }
    match next_token_step(TokenStep::ScanSecrets, TokenOutcome::Token(None)) {
        TokenDecision::Fail(AppError::Kube(m)) => assert!(m.starts_with("Could not obtain a dashboard token.")),
        other => panic!("unexpected {:?}", other),
    }
}

#[test]
fn legacy_token_secret() {
    let secrets = vec![
        LegacySecret { secret_type: Some("Opaque".into()), token: Some(b"nope".to_vec()) },
        LegacySecret {
            secret_type: Some("kubernetes.io/service-account-token".into()),
            token: Some(vec![0xff, 0xfe]),
        },
        LegacySecret { secret_type: Some("kubernetes.io/service-account-token".into()), token: None },
        LegacySecret {
            secret_type: Some("kubernetes.io/service-account-token".into()),
            token: Some(b"eyJ.token".to_vec()),
        },
    ];
    assert_eq!(pick_legacy_token(&secrets), Some("eyJ.token".to_string()));
    assert_eq!(pick_legacy_token(&vec![]), None);
}

#[test]
fn bridge_page_embeds_token_as_json() {
    assert_eq!(token_literal("a\"b\\c\n</"), "\"a\\\"b\\\\c\\n</\"");
    assert_eq!(token_literal("\u{1}\u{1f}"), "\"\\u0001\\u001f\"");
    assert_eq!(plain_quote("a\"b\\c\n"), "\"a\\\"b\\\\c\n\"");
    let html = bridge_html("t\"k");
    assert_eq!(html, format!("{}{}{}", BRIDGE_PAGE_HEAD, "\"t\\\"k\"", BRIDGE_PAGE_TAIL));
    let resp = bridge_response("héllo");
    assert!(resp.starts_with("HTTP/1.1 200 OK\r\n"));
    assert!(resp.contains("Content-Length: 6\r\n"));
    assert!(resp.ends_with("\r\n\r\nhéllo"));
}

#[test]
fn proxy_addresses_and_requests() {
    assert_eq!(proxy_url(18080), "http://127.0.0.1:18080");
    assert_eq!(bridge_url("http://127.0.0.1:18080"), "http://127.0.0.1:18080/_bridge");
    assert!(request_line_complete(b"GET / HTTP/1.1\r\n"));
    assert!(!request_line_complete(b"GET / HTTP/1.1\r"));
    assert!(request_line_complete(&[b'a'; 256]));
    assert!(is_bridge_request(b"GET /_bridge HTTP/1.1\r\n"));
    assert!(!is_bridge_request(b"GET /api/v1 HTTP/1.1\r\n"));
    assert!(!is_bridge_request(b"GET /_b"));
}

fn session(url: &str) -> (DashboardSession, Arc<AtomicBool>, tokio::sync::watch::Receiver<bool>) {
    let alive = Arc::new(AtomicBool::new(true));
    let (tx, rx) = tokio::sync::watch::channel(false);
    (
        DashboardSession { url: url.into(), token: "tok".into(), alive: alive.clone(), shutdown_tx: tx },
        alive,
        rx,
    )
}

#[test]
fn registry_of_proxies() {
    let mut reg = DashboardRegistry::new();
    assert!(reg.get_alive(1).is_none());
    let (s, alive, rx) = session("http://127.0.0.1:1");
    reg.insert(1, s);
    let got = reg.get_alive(1).unwrap();
    assert_eq!(got.url, "http://127.0.0.1:1");
    assert_eq!(got.token, "tok");
    // a proxy that stopped is dropped
    alive.store(false, Ordering::SeqCst);
    assert!(reg.get_alive(1).is_none());
    assert!(reg.get_alive(1).is_none());
    drop(rx);

    let (s2, _alive2, rx2) = session("http://127.0.0.1:2");
    reg.insert(2, s2);
    reg.stop(2);
    assert!(*rx2.borrow());
    assert!(reg.get_alive(2).is_none());
}

#[test]
fn settle_keeps_a_live_session_and_drops_a_dead_one() {
    let mut reg = DashboardRegistry::new();
    assert!(reg.settle(7, true).is_none());
    let (s, _alive, _rx) = session("http://127.0.0.1:7");
    reg.insert(7, s);
    let kept = reg.settle(7, true).unwrap();
    assert_eq!(kept.url, "http://127.0.0.1:7");
    assert_eq!(kept.token, "tok");
    // still held after a live check
    assert!(reg.settle(7, true).is_some());
    // a dead proxy is removed, whatever is asked after
    assert!(reg.settle(7, false).is_none());
    assert!(reg.settle(7, true).is_none());
}

fn probe(step: &SearchStep) -> Option<(usize, usize)> {
    match step {
        SearchStep::Probe { ns, sel } => Some((*ns, *sel)),
        _ => None,
    }
}

#[test]
fn pod_search_walks_selectors_then_namespaces() {
    let first = first_search_step();
    assert_eq!(probe(&first), Some((0, 0)));
    // an empty listing and a failed listing both move to the next selector
    assert_eq!(probe(&next_search_step(0, 0, Some(vec![]))), Some((0, 1)));
    assert_eq!(probe(&next_search_step(0, 1, None)), Some((0, 2)));
    // after the last selector, the next namespace
    assert_eq!(probe(&next_search_step(0, 3, None)), Some((1, 0)));
    assert_eq!(probe(&next_search_step(1, 3, Some(vec![pod("p", "Pending", vec![])]))), Some((2, 0)));
    // after the last namespace and selector, nothing was found
    assert!(matches!(next_search_step(2, 3, None), SearchStep::NotFound));
    // a running pod ends the search, in the namespace that was listed
    match next_search_step(1, 2, Some(vec![pod("dash", "Running", vec![port(8443, None)])])) {
        SearchStep::Found { target, ns } => {
            assert_eq!(ns, 1);
            assert_eq!(target.pod_name, "dash");
            assert_eq!(target.port, 8443);
            assert!(target.https);
        }
        _ => panic!("expected the pod"),
    }
}

#[test]
fn provisioning_creates_what_is_missing() {
    let s = first_provision_step();
    assert_eq!(s, ProvisionStep::LookupAccount);
    assert!(matches!(next_provision_step(s, Ok(false)), ProvisionAction::Next(ProvisionStep::CreateAccount)));
    // a failed lookup counts as missing
    assert!(matches!(
        next_provision_step(s, Err("forbidden".into())),
        ProvisionAction::Next(ProvisionStep::CreateAccount)
    ));
    assert!(matches!(next_provision_step(s, Ok(true)), ProvisionAction::Next(ProvisionStep::LookupBinding)));
    assert!(matches!(
        next_provision_step(ProvisionStep::CreateAccount, Ok(true)),
        ProvisionAction::Next(ProvisionStep::LookupBinding)
    ));
    assert!(matches!(
        next_provision_step(ProvisionStep::LookupBinding, Ok(false)),
        ProvisionAction::Next(ProvisionStep::CreateBinding)
    ));
    assert!(matches!(next_provision_step(ProvisionStep::LookupBinding, Ok(true)), ProvisionAction::Done));
    assert!(matches!(next_provision_step(ProvisionStep::CreateBinding, Ok(true)), ProvisionAction::Done));
    match next_provision_step(ProvisionStep::CreateAccount, Err("denied".into())) {
        ProvisionAction::Fail(AppError::Kube(m)) => assert_eq!(m, "create ServiceAccount: denied"),
        _ => panic!("expected a failure"),
    }
    match next_provision_step(ProvisionStep::CreateBinding, Err("denied".into())) {
        ProvisionAction::Fail(AppError::Kube(m)) => assert_eq!(m, "create ClusterRoleBinding: denied"),
        _ => panic!("expected a failure"),
    }
}
