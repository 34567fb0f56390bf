use myapp_controller::children::{build_endpoint, build_workload, create_owner_reference};
use myapp_controller::engine::{
    add_finalizer, classify, error_kind, error_policy, has_finalizer, reconcile,
    remove_finalizer, Action, ObjectStore, Phase, ReconcileError,
};
use myapp_controller::kv::KeyValue;
use myapp_controller::metrics::{MetricEvent, MetricsCollector};
use myapp_controller::resource::{AppState, MyApp, MyAppSpec, ObjectMeta};

const TOKEN: &str = "myapps.example.com/finalizer";

fn demo_app() -> MyApp {
    MyApp {
        metadata: ObjectMeta {
            name: "demo".to_string(),
            namespace: "ns1".to_string(),
            uid: "uid-demo".to_string(),
            generation: 1,
            resource_version: "1".to_string(),
            deletion_timestamp: None,
            finalizers: Vec::new(),
            labels: Vec::new(),
        },
        spec: MyAppSpec {
            replicas: 3,
            image: "nginx:1.25".to_string(),
            env_vars: vec![KeyValue {
                key: "MODE".to_string(),
                value: "fast".to_string(),
            }],
            resources: None,
            scheduling: None,
        },
        status: None,
    }
}

#[test]
fn classify_covers_all_states() {
    let mut app = demo_app();
    assert_eq!(classify(&app), Phase::NeedsFinalizer);
    app.metadata.finalizers.push(TOKEN.to_string());
    assert_eq!(classify(&app), Phase::Active);
    app.metadata.deletion_timestamp = Some("2024-05-01T00:00:00Z".to_string());
    assert_eq!(classify(&app), Phase::Cleanup);
    app.metadata.finalizers.clear();
    assert_eq!(classify(&app), Phase::Done);
}

#[test]
fn finalizer_insertion_is_idempotent() {
    let mut app = demo_app();
    assert!(!has_finalizer(&app.metadata.finalizers));
    assert!(add_finalizer(&mut app));
    assert!(has_finalizer(&app.metadata.finalizers));
    assert_eq!(app.metadata.finalizers, vec![TOKEN.to_string()]);
    assert!(!add_finalizer(&mut app));
    assert_eq!(app.metadata.finalizers, vec![TOKEN.to_string()]);
}

#[test]
fn finalizer_removal_keeps_other_tokens() {
    let mut app = demo_app();
    app.metadata.finalizers.push("other.io/guard".to_string());
    app.metadata.finalizers.push(TOKEN.to_string());
    remove_finalizer(&mut app);
    assert_eq!(app.metadata.finalizers, vec!["other.io/guard".to_string()]);
    remove_finalizer(&mut app);
    assert_eq!(app.metadata.finalizers, vec!["other.io/guard".to_string()]);
}

#[test]
fn scenario_create_and_converge() {
    let mut store = ObjectStore::new();
    let mut metrics = MetricsCollector::new();
    store.apps.push(demo_app());

    let first = reconcile(&mut store, "ns1", "demo", &mut metrics);
    assert!(matches!(first, Ok(Action::RequeueAfterSecs(1))));
    assert_eq!(store.apps[0].metadata.finalizers, vec![TOKEN.to_string()]);
    assert!(store.workloads.is_empty());
    assert!(store.endpoints.is_empty());

    let second = reconcile(&mut store, "ns1", "demo", &mut metrics);
    assert!(matches!(second, Ok(Action::RequeueAfterSecs(300))));

    assert_eq!(store.workloads.len(), 1);
    let workload = &store.workloads[0];
    assert_eq!(workload.name, "demo-deployment");
    assert_eq!(workload.namespace, "ns1");
    assert_eq!(workload.replicas, 3);
    assert_eq!(workload.image, "nginx:1.25");
    assert_eq!(workload.labels.len(), 2);
    assert_eq!(workload.labels[0].key, "app");
    assert_eq!(workload.labels[0].value, "demo");
    assert_eq!(workload.labels[1].key, "managed-by");
    assert_eq!(workload.labels[1].value, "myapp-controller");
    assert_eq!(workload.owner.name, "demo");
    assert_eq!(workload.owner.uid, "uid-demo");
    assert_eq!(workload.owner.kind, "MyApp");
    assert!(workload.owner.controller);
    assert!(workload.owner.block_owner_deletion);
    assert_eq!(workload.env.len(), 1);
    assert_eq!(workload.env[0].key, "MODE");

    assert_eq!(store.endpoints.len(), 1);
    let endpoint = &store.endpoints[0];
    assert_eq!(endpoint.name, "demo-service");
    assert_eq!(endpoint.namespace, "ns1");
    assert_eq!(endpoint.port, 80);
    assert_eq!(endpoint.target_port, 80);
    assert_eq!(endpoint.owner.name, "demo");

    let status = store.apps[0].status.as_ref().expect("status written");
    assert_eq!(status.state, AppState::Running);
    assert_eq!(status.observed_generation, Some(1));
    assert_eq!(status.conditions.len(), 1);
    assert_eq!(status.conditions[0].cond_type, "Ready");
    assert_eq!(status.conditions[0].status, "True");
    assert_eq!(status.conditions[0].reason, "ReconcileSuccess");
    assert!(status.last_updated.is_some());
}

#[test]
fn scenario_reconcile_is_idempotent() {
    let mut store = ObjectStore::new();
    let mut metrics = MetricsCollector::new();
    let mut app = demo_app();
    app.metadata.finalizers.push(TOKEN.to_string());
    store.apps.push(app);

    let first = reconcile(&mut store, "ns1", "demo", &mut metrics);
    assert!(matches!(first, Ok(Action::RequeueAfterSecs(300))));
    let second = reconcile(&mut store, "ns1", "demo", &mut metrics);
    assert!(matches!(second, Ok(Action::RequeueAfterSecs(300))));

    assert_eq!(store.workloads.len(), 1);
    assert_eq!(store.endpoints.len(), 1);
    assert_eq!(store.apps[0].metadata.finalizers, vec![TOKEN.to_string()]);
}

#[test]
fn scenario_deletion_cleans_up() {
    let mut store = ObjectStore::new();
    let mut metrics = MetricsCollector::new();
    store.apps.push(demo_app());

    reconcile(&mut store, "ns1", "demo", &mut metrics).unwrap();
    reconcile(&mut store, "ns1", "demo", &mut metrics).unwrap();
    assert_eq!(store.workloads.len(), 1);
    let status_before = store.apps[0].status.clone().expect("status written");

    store.apps[0].metadata.deletion_timestamp = Some("2024-05-01T00:00:00Z".to_string());
    let third = reconcile(&mut store, "ns1", "demo", &mut metrics);
    assert!(matches!(third, Ok(Action::AwaitChange)));

    assert!(store.workloads.is_empty());
    assert!(store.endpoints.is_empty());
    assert!(store.apps[0].metadata.finalizers.is_empty());

    let status_after = store.apps[0].status.as_ref().expect("status untouched");
    assert_eq!(status_after.state, status_before.state);
    assert_eq!(status_after.observed_generation, status_before.observed_generation);
    assert_eq!(status_after.last_updated, status_before.last_updated);

    let fourth = reconcile(&mut store, "ns1", "demo", &mut metrics);
    assert!(matches!(fourth, Ok(Action::AwaitChange)));
}

#[test]
fn reconcile_unknown_object_is_a_no_op() {
    let mut store = ObjectStore::new();
    let mut metrics = MetricsCollector::new();
    let res = reconcile(&mut store, "ns1", "ghostly", &mut metrics);
    assert!(matches!(res, Ok(Action::AwaitChange)));
    assert!(store.apps.is_empty());
}

#[test]
fn reconcile_surfaces_validation_errors() {
    let mut store = ObjectStore::new();
    let mut metrics = MetricsCollector::new();
    let mut app = demo_app();
    app.metadata.finalizers.push(TOKEN.to_string());
    app.spec.replicas = 0;
    store.apps.push(app);

    let res = reconcile(&mut store, "ns1", "demo", &mut metrics);
    match res {
        Err(ReconcileError::ValidationError(msg)) => {
            assert_eq!(msg, "replicas must be between 1 and 100");
        }
        _ => panic!("expected a validation error"),
    }
    assert!(store.workloads.is_empty());
    assert!(store.endpoints.is_empty());
    assert_eq!(store.apps[0].metadata.finalizers, vec![TOKEN.to_string()]);
    assert!(matches!(
        &metrics.events[1],
        MetricEvent::ErrorRecorded { error_kind, namespace }
            if error_kind == "validation_error" && namespace == "ns1"
    ));
}

#[test]
fn error_policy_maps_every_failure_to_fixed_backoff() {
    let mut metrics = MetricsCollector::new();
    let errors = [
        ReconcileError::KubeError("boom".to_string()),
        ReconcileError::ValidationError("bad spec".to_string()),
        ReconcileError::FinalizerError("stuck".to_string()),
    ];
    let kinds = ["kube_error", "validation_error", "finalizer_error"];
    for (error, kind) in errors.iter().zip(kinds.iter()) {
        assert_eq!(error_kind(error), *kind);
        let action = error_policy(error, "ns1", &mut metrics);
        assert!(matches!(action, Action::RequeueAfterSecs(60)));
    }
    assert_eq!(metrics.events.len(), 3);
    assert!(matches!(
        &metrics.events[2],
        MetricEvent::ErrorRecorded { error_kind, .. } if error_kind == "finalizer_error"
    ));
}

#[test]
fn builders_derive_children_deterministically() {
    let app = demo_app();
    let w1 = build_workload(&app);
    let w2 = build_workload(&app);
    assert_eq!(w1.name, w2.name);
    assert_eq!(w1.name, "demo-deployment");
    assert_eq!(w1.selector.len(), w1.labels.len());
    let e = build_endpoint(&app);
    assert_eq!(e.name, "demo-service");
    assert_eq!(e.selector[0].key, "app");
    let owner = create_owner_reference(&app);
    assert_eq!(owner.api_version, "example.com/v1");
    assert_eq!(owner.kind, "MyApp");
    assert_eq!(owner.name, "demo");
    assert_eq!(owner.uid, "uid-demo");
}
