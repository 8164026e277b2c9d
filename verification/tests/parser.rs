use k8sdesk::error::AppError;
use k8sdesk::parser::{parse, Command, Resource};

#[test]
fn rejects_kubectl_prefix() {
    assert!(matches!(parse("kubectl get pods"), Err(AppError::Forbidden(_))));
}

#[test]
fn rejects_context_override() {
    assert!(matches!(parse("get pods --context other"), Err(AppError::Forbidden(_))));
    assert!(matches!(parse("get pods --kubeconfig /tmp/kc"), Err(AppError::Forbidden(_))));
    assert!(matches!(parse("get pods --server https://evil"), Err(AppError::Forbidden(_))));
}

#[test]
fn rejects_exec_and_portforward() {
    assert!(matches!(parse("exec my-pod -- sh"), Err(AppError::Forbidden(_))));
    assert!(matches!(parse("port-forward svc/x 8080"), Err(AppError::Forbidden(_))));
}

#[test]
fn parses_get() {
    assert_eq!(
        parse("get pods").unwrap(),
        Command::Get { resource: Resource::Pods, name: None }
    );
    assert_eq!(
        parse("get deploy my-app").unwrap(),
        Command::Get { resource: Resource::Deployments, name: Some("my-app".into()) }
    );
}

#[test]
fn parses_logs_with_flags() {
    let c = parse("logs my-pod -c main --tail 50 -f").unwrap();
    assert_eq!(
        c,
        Command::Logs {
            pod: "my-pod".into(),
            container: Some("main".into()),
            tail: Some(50),
            follow: true,
        }
    );
}

#[test]
fn parses_scale_slash_form() {
    let c = parse("scale deploy/my-app --replicas 3").unwrap();
    assert_eq!(
        c,
        Command::Scale { resource: Resource::Deployments, name: "my-app".into(), replicas: 3 }
    );
}

#[test]
fn parses_rollout_restart() {
    let c = parse("rollout restart deploy my-app").unwrap();
    assert_eq!(
        c,
        Command::RolloutRestart { resource: Resource::Deployments, name: "my-app".into() }
    );
}

#[test]
fn parses_apply_paste_id() {
    let c = parse("apply paste:abc-123").unwrap();
    assert_eq!(c, Command::Apply { paste_id: "abc-123".into() });
}

#[test]
fn empty_rejected() {
    assert!(parse("   ").is_err());
}

// ---- further cases ----

fn parse_message(input: &str) -> String {
    match parse(input) {
        Err(e) => e.message(),
        Ok(c) => panic!("expected an error, got {:?}", c),
    }
}

#[test]
fn forbidden_tokens_in_any_case_and_position() {
    assert!(matches!(parse("GET pods --Context x"), Err(AppError::Forbidden(_))));
    assert!(matches!(parse("describe pod x CONFIG"), Err(AppError::Forbidden(_))));
    assert!(matches!(parse("get pods --as admin"), Err(AppError::Forbidden(_))));
    assert_eq!(
        parse_message("get pods --Token abc"),
        "forbidden command: token '--Token' is not allowed; the cluster and namespace are managed by the app"
    );
}

#[test]
fn empty_command_message() {
    assert_eq!(parse_message(""), "parse error: empty command");
    assert_eq!(parse_message(" \t\n "), "parse error: empty command");
}

#[test]
fn verbs_are_case_insensitive_with_aliases() {
    assert_eq!(parse("HELP").unwrap(), Command::Help);
    assert_eq!(parse("?").unwrap(), Command::Help);
    assert_eq!(
        parse("LS svc").unwrap(),
        Command::Get { resource: Resource::Services, name: None }
    );
    assert_eq!(
        parse("rm po web-1").unwrap(),
        Command::Delete { resource: Resource::Pods, name: "web-1".into() }
    );
    assert_eq!(
        parse("desc cm settings").unwrap(),
        Command::Describe { resource: Resource::ConfigMaps, name: "settings".into() }
    );
}

#[test]
fn unknown_verb_and_resource() {
    assert_eq!(
        parse_message("frobnicate pods"),
        "parse error: unknown verb 'frobnicate'. type 'help' for a list"
    );
    assert!(matches!(parse("get widgets"), Err(AppError::Parse(_))));
    assert!(matches!(Resource::parse("widgets"), Err(AppError::Parse(_))));
    assert_eq!(Resource::parse("Deployments").unwrap(), Resource::Deployments);
    assert_eq!(Resource::parse("cj").unwrap(), Resource::CronJobs);
}

#[test]
fn usage_errors() {
    assert_eq!(parse_message("get"), "parse error: usage: get <resource> [name]");
    assert!(matches!(parse("describe pod"), Err(AppError::Parse(_))));
    assert!(matches!(parse("delete pod"), Err(AppError::Parse(_))));
    assert!(matches!(parse("scale deploy/api"), Err(AppError::Parse(_))));
    assert!(matches!(parse("scale deploy/api --replicas x"), Err(AppError::Parse(_))));
    assert!(matches!(parse("rollout undo deploy api"), Err(AppError::Parse(_))));
    assert!(matches!(parse("apply abc"), Err(AppError::Parse(_))));
    assert!(matches!(parse("apply paste:"), Err(AppError::Parse(_))));
    assert!(matches!(parse("logs my-pod --tail"), Err(AppError::Parse(_))));
    assert!(matches!(parse("logs my-pod --bogus"), Err(AppError::Parse(_))));
}

#[test]
fn logs_defaults() {
    assert_eq!(
        parse("logs api-0").unwrap(),
        Command::Logs { pod: "api-0".into(), container: None, tail: None, follow: false }
    );
    assert_eq!(
        parse("log api-0 --container side --follow").unwrap(),
        Command::Logs {
            pod: "api-0".into(),
            container: Some("side".into()),
            tail: None,
            follow: true,
        }
    );
}

#[test]
fn scale_two_word_form() {
    assert_eq!(
        parse("scale sts db --replicas 0").unwrap(),
        Command::Scale { resource: Resource::StatefulSets, name: "db".into(), replicas: 0 }
    );
}

#[test]
fn scale_replicas_forms() {
    assert_eq!(
        parse("scale deploy/api --replicas=+4").unwrap(),
        Command::Scale { resource: Resource::Deployments, name: "api".into(), replicas: 4 }
    );
    assert!(matches!(parse("scale deploy/api --replicas -1"), Err(AppError::BadInput(_))));
    assert_eq!(
        parse_message("scale deploy/api --replicas 99999999999"),
        "parse error: --replicas must be an integer"
    );
}

#[test]
fn logs_tail_accepts_signed_integers() {
    assert_eq!(
        parse("logs p --tail -3").unwrap(),
        Command::Logs { pod: "p".into(), container: None, tail: Some(-3), follow: false }
    );
}

#[test]
fn rollout_restart_slash_form() {
    assert_eq!(
        parse("rollout restart deploy/api").unwrap(),
        Command::RolloutRestart { resource: Resource::Deployments, name: "api".into() }
    );
    assert_eq!(
        parse("rollout RESTART sts/db").unwrap(),
        Command::RolloutRestart { resource: Resource::StatefulSets, name: "db".into() }
    );
    assert_eq!(parse_message("rollout restart deploy"), "parse error: usage: rollout restart <resource> <name>");
    assert!(matches!(parse("rollout restart widgets/x"), Err(AppError::Parse(_))));
}
