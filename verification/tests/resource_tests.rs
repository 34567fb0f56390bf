use myapp_controller::kv::{get_value, set_key, KeyValue};
use myapp_controller::resource::{
    AppState, Condition, MyApp, MyAppSpec, MyAppStatus, ObjectMeta,
};

fn plain_app() -> MyApp {
    MyApp {
        metadata: ObjectMeta {
            name: "demo".to_string(),
            namespace: "ns1".to_string(),
            uid: "uid-1".to_string(),
            generation: 4,
            resource_version: "9".to_string(),
            deletion_timestamp: None,
            finalizers: Vec::new(),
            labels: Vec::new(),
        },
        spec: MyAppSpec {
            replicas: 2,
            image: "app:2.0".to_string(),
            env_vars: Vec::new(),
            resources: None,
            scheduling: None,
        },
        status: None,
    }
}

#[test]
fn needs_reconciliation_tracks_observed_generation() {
    let mut app = plain_app();
    assert!(app.needs_reconciliation());

    app.status = Some(MyAppStatus {
        state: AppState::Pending,
        observed_generation: None,
        conditions: Vec::new(),
        last_updated: None,
    });
    assert!(app.needs_reconciliation());

    app.status.as_mut().unwrap().observed_generation = Some(3);
    assert!(app.needs_reconciliation());

    app.status.as_mut().unwrap().observed_generation = Some(4);
    assert!(!app.needs_reconciliation());
}

#[test]
fn ready_condition_carries_verdict_and_reason() {
    let yes = Condition::ready(true, "ReconcileSuccess", "all good");
    assert_eq!(yes.cond_type, "Ready");
    assert_eq!(yes.status, "True");
    assert_eq!(yes.reason, "ReconcileSuccess");
    assert_eq!(yes.message, "all good");

    let no = Condition::ready(false, "ReconcileFailed", "not yet");
    assert_eq!(no.status, "False");
}

#[test]
fn key_value_lists_behave_like_maps() {
    let mut kvs: Vec<KeyValue> = Vec::new();
    assert!(get_value(&kvs, &"a".to_string()).is_none());

    set_key(&mut kvs, &"a".to_string(), &"1".to_string());
    set_key(&mut kvs, &"b".to_string(), &"2".to_string());
    assert_eq!(get_value(&kvs, &"a".to_string()), Some("1".to_string()));
    assert_eq!(get_value(&kvs, &"b".to_string()), Some("2".to_string()));

    set_key(&mut kvs, &"a".to_string(), &"3".to_string());
    assert_eq!(kvs.len(), 2);
    assert_eq!(get_value(&kvs, &"a".to_string()), Some("3".to_string()));
    assert_eq!(kvs[0].key, "a");
    assert_eq!(kvs[1].key, "b");
}

#[test]
fn clones_preserve_content() {
    let mut app = plain_app();
    app.metadata.finalizers.push("token-a".to_string());
    app.metadata.labels.push(KeyValue {
        key: "team".to_string(),
        value: "core".to_string(),
    });
    let copy = app.clone();
    assert_eq!(copy.metadata.name, app.metadata.name);
    assert_eq!(copy.metadata.finalizers, app.metadata.finalizers);
    assert_eq!(copy.metadata.labels[0].key, "team");
    assert_eq!(copy.spec.image, app.spec.image);
    assert!(copy.status.is_none());
}
