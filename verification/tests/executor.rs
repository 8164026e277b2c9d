use k8sdesk::error::AppError;
use k8sdesk::executor::{
    applied_entry, applied_message, applied_name, apply_target, deleted_message, help_text,
    list_table, plan, restarted_message, row, scaled_message, split_api_version, table_headers,
    unknown_kind, plan_apply, CommandOutput, KubeAction, ListedObject, ObjectSummary, Scope,
};
use k8sdesk::parser::{Command, Resource};

fn bad_input(r: Result<KubeAction, AppError>) -> String {
    match r {
        Err(AppError::BadInput(m)) => m,
        other => panic!("expected bad input, got {:?}", other),
    }
}

#[test]
fn plans_follow_the_namespace() {
    match plan("shop", Command::Get { resource: Resource::Pods, name: None }, None).unwrap() {
        KubeAction::Get { resource: Resource::Pods, scope: Scope::Namespace(ns), name: None } => {
            assert_eq!(ns, "shop")
        }
        other => panic!("unexpected {:?}", other),
    }
    assert!(matches!(
        plan("*", Command::Get { resource: Resource::Pods, name: None }, None).unwrap(),
        KubeAction::Get { scope: Scope::AllNamespaces, .. }
    ));
    assert!(matches!(
        plan("shop", Command::Get { resource: Resource::Nodes, name: None }, None).unwrap(),
        KubeAction::Get { scope: Scope::Cluster, .. }
    ));
    assert!(matches!(plan("shop", Command::Help, None).unwrap(), KubeAction::Help));
}

#[test]
fn single_namespace_commands_refuse_all_namespaces() {
    assert_eq!(
        bad_input(plan("*", Command::Delete { resource: Resource::Pods, name: "x".into() }, None)),
        "select a specific namespace \u{2014} delete requires a single namespace"
    );
    assert_eq!(
        bad_input(plan(
            "*",
            Command::Logs { pod: "p".into(), container: None, tail: None, follow: false },
            None
        )),
        "select a specific namespace \u{2014} logs requires a single namespace"
    );
    assert_eq!(
        bad_input(plan("*", Command::Apply { paste_id: "p".into() }, Some("kind: X".into()))),
        "select a specific namespace \u{2014} apply requires a single namespace"
    );
}

#[test]
fn scale_restart_and_apply_rules() {
    assert_eq!(
        bad_input(plan(
            "ns",
            Command::Scale { resource: Resource::Pods, name: "x".into(), replicas: 1 },
            None
        )),
        "scale not supported for resource Pods"
    );
    assert_eq!(
        bad_input(plan("ns", Command::RolloutRestart { resource: Resource::Jobs, name: "x".into() }, None)),
        "rollout restart not supported for Jobs"
    );
    assert_eq!(
        bad_input(plan("ns", Command::Apply { paste_id: "p".into() }, None)),
        "apply requires a YAML body"
    );
    match plan("ns", Command::Apply { paste_id: "p".into() }, Some("body".into())).unwrap() {
        KubeAction::Apply { namespace, body } => {
            assert_eq!(namespace, "ns");
            assert_eq!(body, "body");
        }
        other => panic!("unexpected {:?}", other),
    }
    assert!(matches!(
        plan(
            "ns",
            Command::Scale { resource: Resource::StatefulSets, name: "db".into(), replicas: 2 },
            None
        )
        .unwrap(),
        KubeAction::Scale { replicas: 2, .. }
    ));
}

#[test]
fn help_lists_commands() {
    let body = help_text();
    assert!(body.starts_with("Available commands (cluster + namespace are auto-applied):"));
    assert!(body.contains("rollout restart <res> <name>"));
    assert!(body.ends_with("ing, jobs, cj\n"));
}

#[test]
fn table_rows_and_headers() {
    assert_eq!(table_headers(Resource::Events), vec!["LAST", "TYPE", "REASON", "MESSAGE"]);
    assert_eq!(
        row(&ObjectSummary::Deployment {
            name: Some("api".into()),
            status: Some((None, Some(3), Some(2)))
        }),
        vec!["api", "0/3", "2"]
    );
    assert_eq!(row(&ObjectSummary::Deployment { name: None, status: None }), vec!["", "", ""]);
    assert_eq!(
        row(&ObjectSummary::ConfigMap { name: Some("c".into()), data_len: None }),
        vec!["c", "0"]
    );
    assert_eq!(
        row(&ObjectSummary::Node {
            name: Some("n1".into()),
            conditions: vec![("MemoryPressure".into(), "False".into()), ("Ready".into(), "True".into())]
        }),
        vec!["n1", "True"]
    );
    assert_eq!(
        row(&ObjectSummary::Node { name: Some("n2".into()), conditions: vec![] }),
        vec!["n2", ""]
    );
    assert_eq!(
        row(&ObjectSummary::StatefulSet { name: Some("db".into()), status: Some((Some(1), 3)) }),
        vec!["db", "1/3"]
    );
    let items = vec![ListedObject {
        namespace: Some("shop".into()),
        summary: ObjectSummary::Pod {
            name: Some("web".into()),
            phase: Some("Running".into()),
            node: None,
        },
    }];
    match list_table(Resource::Pods, true, &items) {
        CommandOutput::Table { headers, rows } => {
            assert_eq!(headers, vec!["NAMESPACE", "NAME", "PHASE", "NODE"]);
            assert_eq!(rows, vec![vec!["shop", "web", "Running", ""]]);
        }
        other => panic!("unexpected {:?}", other),
    }
    match list_table(Resource::Pods, false, &items) {
        CommandOutput::Table { headers, rows } => {
            assert_eq!(headers, vec!["NAME", "PHASE", "NODE"]);
            assert_eq!(rows, vec![vec!["web", "Running", ""]]);
        }
        other => panic!("unexpected {:?}", other),
    }
}

#[test]
fn change_messages() {
    assert_eq!(deleted_message("web"), "deleted web");
    assert_eq!(scaled_message("api", 3), "scaled api to 3 replicas");
    assert_eq!(restarted_message("api"), "rollout restart triggered for api");
    assert_eq!(applied_entry("ConfigMap", "settings"), "configmap/settings");
    assert_eq!(
        applied_message(&vec!["configmap/a".to_string(), "deployment/b".to_string()]),
        "applied: configmap/a, deployment/b"
    );
    assert_eq!(applied_message(&vec![]), "applied: ");
}

#[test]
fn apply_documents() {
    assert_eq!(split_api_version("apps/v1"), ("apps".to_string(), "v1".to_string()));
    assert_eq!(split_api_version("v1"), (String::new(), "v1".to_string()));
    let t = apply_target(Some(("batch/v1".into(), "Job".into())), "shop").unwrap();
    assert_eq!((t.group.as_str(), t.version.as_str(), t.kind.as_str()), ("batch", "v1", "Job"));
    assert_eq!(t.namespace, "shop");
    assert!(matches!(
        apply_target(None, "shop"),
        Err(AppError::BadInput(m)) if m == "apply: missing apiVersion/kind"
    ));
    assert_eq!(applied_name(Some("x".into())).unwrap(), "x");
    assert!(matches!(
        applied_name(None),
        Err(AppError::BadInput(m)) if m == "apply: object missing metadata.name"
    ));
    assert!(matches!(unknown_kind("Widget"), AppError::BadInput(m) if m == "unknown kind Widget"));
}

#[test]
fn apply_plans_each_document_into_the_namespace() {
    let body = "apiVersion: apps/v1\nkind: Deployment\nmetadata:\n  name: api\n  namespace: other\n---\n---\napiVersion: v1\nkind: ConfigMap\nmetadata:\n  name: cfg\n";
    let steps = plan_apply(body, "shop").unwrap();
    // the empty document in the middle is skipped
    assert_eq!(steps.len(), 2);
    let first = steps[0].as_ref().unwrap();
    assert_eq!(first.target.group, "apps");
    assert_eq!(first.target.version, "v1");
    assert_eq!(first.target.kind, "Deployment");
    assert_eq!(first.target.namespace, "shop");
    assert_eq!(first.name.as_deref(), Some("api"));
    let second = steps[1].as_ref().unwrap();
    assert_eq!(second.target.group, "");
    assert_eq!(second.target.version, "v1");
    assert_eq!(second.target.kind, "ConfigMap");
    assert_eq!(second.target.namespace, "shop");
    assert_eq!(second.name.as_deref(), Some("cfg"));
}

#[test]
fn apply_documents_without_type_or_name() {
    let steps = plan_apply("metadata:\n  name: x\n---\napiVersion: v1\nkind: Secret\n", "shop").unwrap();
    assert_eq!(steps.len(), 2);
    match &steps[0] {
        Err(AppError::BadInput(m)) => assert_eq!(m, "apply: missing apiVersion/kind"),
        _ => panic!("expected the missing type error"),
    }
    let second = steps[1].as_ref().unwrap();
    assert_eq!(second.target.kind, "Secret");
    assert!(second.name.is_none());
    assert!(matches!(applied_name(None), Err(AppError::BadInput(_))));
}

#[test]
fn apply_refuses_unreadable_yaml() {
    match plan_apply("a: [1, 2\n", "shop") {
        Err(AppError::KubeconfigRejected(m)) => assert!(m.starts_with("yaml: ")),
        _ => panic!("expected a yaml error"),
    }
    assert_eq!(plan_apply("", "shop").unwrap().len(), 0);
}
