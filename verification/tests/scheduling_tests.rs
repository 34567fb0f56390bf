use myapp_controller::scheduling::{AdvancedScheduler, SchedulingConfig};

#[test]
fn test_placement_recommendations() {
    let config = AdvancedScheduler::recommend_placement("test-app", "default", 5, &[]);

    assert!(config.node_selector.is_empty());
}

#[test]
fn placement_is_unconstrained() {
    let existing = vec!["other-app".to_string()];
    let config = AdvancedScheduler::recommend_placement("app", "ns", 1, &existing);
    assert!(config.node_selector.is_empty());
    assert!(config.priority_class.is_none());
    assert!(config.scheduler_name.is_none());
}

#[test]
fn default_config_is_empty() {
    let config = SchedulingConfig::default();
    assert!(config.node_selector.is_empty());
    assert!(config.priority_class.is_none());
    assert!(config.scheduler_name.is_none());
}
