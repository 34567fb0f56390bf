use crate::kv::{kvs_view, KeyValue, KvView};
use vstd::prelude::*;

verus! {

/// Scheduling preferences for an application resource. The engine treats
/// this configuration as opaque: it is carried through to the child
/// resources and never influences a reconciliation decision.
pub struct SchedulingConfig {
    /// Node selection preferences.
    pub node_selector: Vec<KeyValue>,
    /// Priority class for pod scheduling.
    pub priority_class: Option<String>,
    /// Scheduler name, for custom schedulers.
    pub scheduler_name: Option<String>,
}

/// The mathematical content of a `SchedulingConfig`.
pub ghost struct SchedulingView {
    pub node_selector: Seq<KvView>,
    pub priority_class: Option<Seq<char>>,
    pub scheduler_name: Option<Seq<char>>,
}

impl View for SchedulingConfig {
    type V = SchedulingView;

    open spec fn view(&self) -> SchedulingView {
        SchedulingView {
            node_selector: kvs_view(self.node_selector@),
            priority_class: match self.priority_class {
                Some(p) => Some(p@),
                None => None,
            },
            scheduler_name: match self.scheduler_name {
                Some(s) => Some(s@),
                None => None,
            },
        }
    }
}

/// An empty configuration: no selector entries, no priority class, no
/// custom scheduler.
pub open spec fn spec_scheduling_empty(c: SchedulingView) -> bool {
    &&& c.node_selector.len() == 0
    &&& c.priority_class is None
    &&& c.scheduler_name is None
}

impl Clone for SchedulingConfig {
    fn clone(&self) -> (res: Self)
        ensures
            res@ == self@,
    {
        let node_selector = crate::kv::clone_kvs(&self.node_selector);
        let priority_class = match &self.priority_class {
            Some(p) => Some(p.clone()),
            None => None,
        };
        let scheduler_name = match &self.scheduler_name {
            Some(s) => Some(s.clone()),
            None => None,
        };
        SchedulingConfig { node_selector, priority_class, scheduler_name }
    }
}

impl Default for SchedulingConfig {
    fn default() -> (res: Self)
        ensures
            spec_scheduling_empty(res@),
    {
        SchedulingConfig { node_selector: Vec::new(), priority_class: None, scheduler_name: None }
    }
}

/// Placement recommendation engine. The current strategy is deliberately
/// neutral: it never constrains placement.
pub struct AdvancedScheduler;

impl AdvancedScheduler {
    /// Returns the placement recommendation for an application: always the
    /// unconstrained configuration.
    pub fn recommend_placement(
        app_name: &str,
        namespace: &str,
        replicas: i32,
        existing_apps: &[String],
    ) -> (res: SchedulingConfig)
        ensures
            spec_scheduling_empty(res@),
    {
        let _ = app_name;
        let _ = namespace;
        let _ = replicas;
        let _ = existing_apps;
        SchedulingConfig { node_selector: Vec::new(), priority_class: None, scheduler_name: None }
    }
}

} // verus!
