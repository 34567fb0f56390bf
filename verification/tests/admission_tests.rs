use myapp_controller::admission::{
    apply_patch, escape_pointer_key, image_tag_is_latest, mutate_patch, mutate_review,
    validate_object, validate_review, PatchOp, Verdict,
};
use myapp_controller::kv::KeyValue;
use myapp_controller::resource::{MyApp, MyAppSpec, ObjectMeta, ResourceRequirements};

fn app_with(replicas: i32, image: &str) -> MyApp {
    MyApp {
        metadata: ObjectMeta {
            name: "demo".to_string(),
            namespace: "ns1".to_string(),
            uid: "uid-1".to_string(),
            generation: 1,
            resource_version: "1".to_string(),
            deletion_timestamp: None,
            finalizers: Vec::new(),
            labels: Vec::new(),
        },
        spec: MyAppSpec {
            replicas,
            image: image.to_string(),
            env_vars: Vec::new(),
            resources: None,
            scheduling: None,
        },
        status: None,
    }
}

fn denial_reason(v: Verdict) -> String {
    match v {
        Verdict::Allowed => panic!("expected a denial"),
        Verdict::Denied { reason } => reason,
    }
}

#[test]
fn validate_rejects_zero_replicas() {
    let v = validate_object(&app_with(0, "app:1.0.0"));
    assert_eq!(denial_reason(v), "replicas must be between 1 and 100");
}

#[test]
fn validate_rejects_excess_replicas() {
    let v = validate_object(&app_with(101, "app:1.0.0"));
    assert_eq!(denial_reason(v), "replicas must be between 1 and 100");
}

#[test]
fn validate_rejects_empty_image() {
    let v = validate_object(&app_with(3, ""));
    assert_eq!(denial_reason(v), "image cannot be empty");
}

#[test]
fn validate_rejects_latest_tag() {
    let v = validate_object(&app_with(3, "app:latest"));
    assert_eq!(denial_reason(v), "Image tag 'latest' is not allowed");
}

#[test]
fn validate_accepts_boundary_replicas_and_pinned_tag() {
    assert!(matches!(validate_object(&app_with(1, "app:1.0.0")), Verdict::Allowed));
    assert!(matches!(validate_object(&app_with(100, "app:1.0.0")), Verdict::Allowed));
    assert!(matches!(validate_object(&app_with(3, "app:1.0.0")), Verdict::Allowed));
}

#[test]
fn spec_validate_reports_first_violation() {
    assert_eq!(
        app_with(0, "").validate().unwrap_err(),
        "replicas must be between 1 and 100"
    );
    assert_eq!(app_with(2, "").validate().unwrap_err(), "image cannot be empty");
    assert!(app_with(2, "app:1.0.0").validate().is_ok());
}

#[test]
fn latest_tag_detection_looks_at_tag_only() {
    assert!(image_tag_is_latest(&"app:latest".to_string()));
    assert!(image_tag_is_latest(&":latest".to_string()));
    assert!(!image_tag_is_latest(&"app:1.25".to_string()));
    assert!(!image_tag_is_latest(&"latest".to_string()));
    assert!(!image_tag_is_latest(&"app:latest-slim".to_string()));
    assert!(!image_tag_is_latest(&"latest:1.0".to_string()));
}

#[test]
fn validate_review_rejects_missing_object() {
    let v = validate_review(None);
    assert_eq!(denial_reason(v), "No object in request");
    let app = app_with(3, "app:1.0.0");
    assert!(matches!(validate_review(Some(&app)), Verdict::Allowed));
}

#[test]
fn mutate_review_rejects_missing_object() {
    assert_eq!(mutate_review(None).unwrap_err(), "No object in request");
    let app = app_with(3, "app:1.0.0");
    assert_eq!(mutate_review(Some(&app)).unwrap().len(), 2);
}

#[test]
fn mutate_adds_label_and_default_resources() {
    let app = app_with(3, "app:1.0.0");
    let ops = mutate_patch(&app);
    assert_eq!(ops.len(), 2);
    match &ops[0] {
        PatchOp::AddLabel { key, value } => {
            assert_eq!(key, "app.kubernetes.io/managed-by");
            assert_eq!(value, "myapp-controller");
        }
        other => panic!("unexpected first operation: {:?}", other.pointer()),
    }
    assert_eq!(ops[0].pointer(), "/metadata/labels/app.kubernetes.io~1managed-by");
    match &ops[1] {
        PatchOp::AddResources { resources } => {
            assert_eq!(resources.cpu, "100m");
            assert_eq!(resources.memory, "128Mi");
        }
        _ => panic!("expected a resources operation"),
    }
    assert_eq!(ops[1].pointer(), "/spec/resources");
}

#[test]
fn mutate_skips_resources_when_present() {
    let mut app = app_with(3, "app:1.0.0");
    app.spec.resources = Some(ResourceRequirements {
        cpu: "250m".to_string(),
        memory: "256Mi".to_string(),
    });
    let ops = mutate_patch(&app);
    assert_eq!(ops.len(), 1);
    assert_eq!(ops[0].pointer(), "/metadata/labels/app.kubernetes.io~1managed-by");
}

#[test]
fn mutation_is_additive_and_idempotent() {
    let mut app = app_with(3, "app:1.0.0");
    app.metadata.labels.push(KeyValue {
        key: "team".to_string(),
        value: "storage".to_string(),
    });
    app.spec.env_vars.push(KeyValue {
        key: "MODE".to_string(),
        value: "fast".to_string(),
    });

    let once = apply_patch(&app, &mutate_patch(&app));
    assert_eq!(once.spec.replicas, 3);
    assert_eq!(once.spec.image, "app:1.0.0");
    assert_eq!(once.spec.env_vars.len(), 1);
    assert_eq!(once.spec.env_vars[0].key, "MODE");
    assert_eq!(once.metadata.labels[0].key, "team");
    assert_eq!(once.metadata.labels[0].value, "storage");
    assert_eq!(once.metadata.labels[1].key, "app.kubernetes.io/managed-by");
    assert_eq!(once.metadata.labels[1].value, "myapp-controller");
    let defaults = once.spec.resources.as_ref().expect("defaults filled in");
    assert_eq!(defaults.cpu, "100m");
    assert_eq!(defaults.memory, "128Mi");

    let twice = apply_patch(&once, &mutate_patch(&once));
    assert_eq!(twice.metadata.labels.len(), once.metadata.labels.len());
    assert_eq!(twice.metadata.labels[1].value, "myapp-controller");
    let kept = twice.spec.resources.as_ref().expect("resources kept");
    assert_eq!(kept.cpu, "100m");
    assert_eq!(kept.memory, "128Mi");
}

#[test]
fn mutation_keeps_user_resources() {
    let mut app = app_with(3, "app:1.0.0");
    app.spec.resources = Some(ResourceRequirements {
        cpu: "2".to_string(),
        memory: "1Gi".to_string(),
    });
    let mutated = apply_patch(&app, &mutate_patch(&app));
    let kept = mutated.spec.resources.as_ref().unwrap();
    assert_eq!(kept.cpu, "2");
    assert_eq!(kept.memory, "1Gi");
}

#[test]
fn pointer_escaping_replaces_slashes() {
    assert_eq!(
        escape_pointer_key("app.kubernetes.io/managed-by"),
        "app.kubernetes.io~1managed-by"
    );
    assert_eq!(escape_pointer_key("a/b/c"), "a~1b~1c");
    assert_eq!(escape_pointer_key("plain"), "plain");
    assert_eq!(escape_pointer_key(""), "");
    assert_eq!(escape_pointer_key("tëam/ünit"), "tëam~1ünit");
}

#[test]
fn mutation_force_sets_the_managed_by_label() {
    let mut app = app_with(3, "app:1.0.0");
    app.metadata.labels.push(KeyValue {
        key: "app.kubernetes.io/managed-by".to_string(),
        value: "someone-else".to_string(),
    });
    let mutated = apply_patch(&app, &mutate_patch(&app));
    assert_eq!(mutated.metadata.labels.len(), 1);
    assert_eq!(mutated.metadata.labels[0].value, "myapp-controller");
}
