use myapp_controller::metrics::{MetricEvent, MetricsCollector};

#[test]
fn test_metrics_collector() {
    let mut collector = MetricsCollector::new();

    let timer = collector.start_reconcile("default", "test-app");
    timer.success(&mut collector);

    collector.record_error("validation_error", "default");

    collector.set_managed_resources("deployment", "default", 5);

    assert!(!collector.events.is_empty());
    assert_eq!(collector.events.len(), 4);
    assert!(matches!(
        &collector.events[0],
        MetricEvent::ReconcileStarted { namespace, name }
            if namespace == "default" && name == "test-app"
    ));
    assert!(matches!(
        &collector.events[1],
        MetricEvent::ReconcileCompleted { namespace, name, succeeded: true }
            if namespace == "default" && name == "test-app"
    ));
    assert!(matches!(
        &collector.events[2],
        MetricEvent::ErrorRecorded { error_kind, namespace }
            if error_kind == "validation_error" && namespace == "default"
    ));
    assert!(matches!(
        &collector.events[3],
        MetricEvent::ManagedResourcesSet { resource_kind, namespace, count: 5 }
            if resource_kind == "deployment" && namespace == "default"
    ));
}

#[test]
fn test_webhook_timing() {
    let mut collector = MetricsCollector::new();

    let timer = collector.start_webhook("validate");
    timer.success(&mut collector);

    let timer = collector.start_webhook("mutate");
    timer.error(&mut collector);

    assert_eq!(collector.events.len(), 4);
    assert!(matches!(
        &collector.events[1],
        MetricEvent::WebhookCompleted { webhook_kind, succeeded: true } if webhook_kind == "validate"
    ));
    assert!(matches!(
        &collector.events[3],
        MetricEvent::WebhookCompleted { webhook_kind, succeeded: false } if webhook_kind == "mutate"
    ));
}

#[test]
fn reconcile_timer_error_records_completion_and_error() {
    let mut collector = MetricsCollector::new();
    let timer = collector.start_reconcile("ns1", "app1");
    timer.error(&mut collector, "kube_error");
    assert_eq!(collector.events.len(), 3);
    assert!(matches!(
        &collector.events[1],
        MetricEvent::ReconcileCompleted { succeeded: false, .. }
    ));
    assert!(matches!(
        &collector.events[2],
        MetricEvent::ErrorRecorded { error_kind, namespace }
            if error_kind == "kube_error" && namespace == "ns1"
    ));
}
