use vstd::prelude::*;

verus! {

/// One observability event. The collector keeps events in order; outer
/// layers turn them into counters, gauges and histograms.
pub enum MetricEvent {
    /// A reconcile pass began for the named object.
    ReconcileStarted { namespace: String, name: String },
    /// A reconcile pass finished for the named object.
    ReconcileCompleted { namespace: String, name: String, succeeded: bool },
    /// An error of the given kind was counted against a namespace.
    ErrorRecorded { error_kind: String, namespace: String },
    /// The number of managed resources of one kind in a namespace was set.
    ManagedResourcesSet { resource_kind: String, namespace: String, count: i64 },
    /// An admission webhook request of the given kind began.
    WebhookStarted { webhook_kind: String },
    /// An admission webhook request of the given kind finished.
    WebhookCompleted { webhook_kind: String, succeeded: bool },
}

/// The mathematical content of a `MetricEvent`.
pub ghost enum EventView {
    ReconcileStarted { namespace: Seq<char>, name: Seq<char> },
    ReconcileCompleted { namespace: Seq<char>, name: Seq<char>, succeeded: bool },
    ErrorRecorded { error_kind: Seq<char>, namespace: Seq<char> },
    ManagedResourcesSet { resource_kind: Seq<char>, namespace: Seq<char>, count: int },
    WebhookStarted { webhook_kind: Seq<char> },
    WebhookCompleted { webhook_kind: Seq<char>, succeeded: bool },
}

impl View for MetricEvent {
    type V = EventView;

    open spec fn view(&self) -> EventView {
        match self {
            MetricEvent::ReconcileStarted { namespace, name } => EventView::ReconcileStarted {
                namespace: namespace@,
                name: name@,
            },
            MetricEvent::ReconcileCompleted { namespace, name, succeeded } => (
            EventView::ReconcileCompleted {
                namespace: namespace@,
                name: name@,
                succeeded: *succeeded,
            }),
            MetricEvent::ErrorRecorded { error_kind, namespace } => EventView::ErrorRecorded {
                error_kind: error_kind@,
                namespace: namespace@,
            },
            MetricEvent::ManagedResourcesSet { resource_kind, namespace, count } => (
            EventView::ManagedResourcesSet {
                resource_kind: resource_kind@,
                namespace: namespace@,
                count: *count as int,
            }),
            MetricEvent::WebhookStarted { webhook_kind } => EventView::WebhookStarted {
                webhook_kind: webhook_kind@,
            },
            MetricEvent::WebhookCompleted { webhook_kind, succeeded } => (
            EventView::WebhookCompleted {
                webhook_kind: webhook_kind@,
                succeeded: *succeeded,
            }),
        }
    }
}

/// An explicitly constructed metrics sink. It records every event it is
/// handed, in order; a process boundary may replay the log into real
/// counters, and tests may inspect it directly.
pub struct MetricsCollector {
    pub events: Vec<MetricEvent>,
}

impl View for MetricsCollector {
    type V = Seq<EventView>;

    open spec fn view(&self) -> Seq<EventView> {
        self.events@.map_values(|e: MetricEvent| e@)
    }
}

impl MetricsCollector {
    /// A collector that has recorded nothing yet.
    pub fn new() -> (res: Self)
        ensures
            res@ == Seq::<EventView>::empty(),
    {
        let collector = MetricsCollector { events: Vec::new() };
        proof {
            assert(collector@ =~= Seq::<EventView>::empty());
        }
        collector
    }

    fn record(&mut self, event: MetricEvent)
        ensures
            final(self)@ == old(self)@.push(event@),
    {
        let ghost e = event@;
        self.events.push(event);
        proof {
            assert(self@ =~= old(self)@.push(e));
        }
    }

    /// Starts a reconcile pass: records the start event and hands back a
    /// timer that reports how the pass ended.
    pub fn start_reconcile(&mut self, namespace: &str, name: &str) -> (timer: ReconcileTimer)
        ensures
            final(self)@ == old(self)@.push(
                (EventView::ReconcileStarted { namespace: namespace@, name: name@ }),
            ),
            timer.namespace@ == namespace@,
            timer.name@ == name@,
    {
        self.record(
            MetricEvent::ReconcileStarted {
                namespace: namespace.to_owned(),
                name: name.to_owned(),
            },
        );
        ReconcileTimer { namespace: namespace.to_owned(), name: name.to_owned() }
    }

    /// Counts one error of the given kind against the given namespace.
    pub fn record_error(&mut self, error_type: &str, namespace: &str)
        ensures
            final(self)@ == old(self)@.push(
                (EventView::ErrorRecorded { error_kind: error_type@, namespace: namespace@ }),
            ),
    {
        self.record(
            MetricEvent::ErrorRecorded {
                error_kind: error_type.to_owned(),
                namespace: namespace.to_owned(),
            },
        );
    }

    /// Sets the managed-resource gauge for one resource kind in one
    /// namespace.
    pub fn set_managed_resources(&mut self, resource_type: &str, namespace: &str, count: i64)
        ensures
            final(self)@ == old(self)@.push(
                (EventView::ManagedResourcesSet {
                    resource_kind: resource_type@,
                    namespace: namespace@,
                    count: count as int,
                }),
            ),
    {
        self.record(
            MetricEvent::ManagedResourcesSet {
                resource_kind: resource_type.to_owned(),
                namespace: namespace.to_owned(),
                count,
            },
        );
    }

    /// Starts a webhook request: records the start event and hands back a
    /// timer that reports how the request ended.
    pub fn start_webhook(&mut self, webhook_type: &str) -> (timer: WebhookTimer)
        ensures
            final(self)@ == old(self)@.push(
                (EventView::WebhookStarted { webhook_kind: webhook_type@ }),
            ),
            timer.webhook_kind@ == webhook_type@,
    {
        self.record(MetricEvent::WebhookStarted { webhook_kind: webhook_type.to_owned() });
        WebhookTimer { webhook_kind: webhook_type.to_owned() }
    }
}

/// Tracks one reconcile pass from start to completion.
pub struct ReconcileTimer {
    pub namespace: String,
    pub name: String,
}

impl ReconcileTimer {
    /// Completes the reconcile pass with success.
    pub fn success(self, metrics: &mut MetricsCollector)
        ensures
            final(metrics)@ == old(metrics)@.push(
                (EventView::ReconcileCompleted {
                    namespace: self.namespace@,
                    name: self.name@,
                    succeeded: true,
                }),
            ),
    {
        metrics.record(
            MetricEvent::ReconcileCompleted {
                namespace: self.namespace,
                name: self.name,
                succeeded: true,
            },
        );
    }

    /// Completes the reconcile pass with an error of the given kind: the
    /// completion is recorded first, then the error count.
    pub fn error(self, metrics: &mut MetricsCollector, error_type: &str)
        ensures
            final(metrics)@ == old(metrics)@.push(
                (EventView::ReconcileCompleted {
                    namespace: self.namespace@,
                    name: self.name@,
                    succeeded: false,
                }),
            ).push(
                (EventView::ErrorRecorded {
                    error_kind: error_type@,
                    namespace: self.namespace@,
                }),
            ),
    {
        let namespace = self.namespace.clone();
        metrics.record(
            MetricEvent::ReconcileCompleted {
                namespace: self.namespace,
                name: self.name,
                succeeded: false,
            },
        );
        metrics.record(
            MetricEvent::ErrorRecorded {
                error_kind: error_type.to_owned(),
                namespace,
            },
        );
    }
}

/// Tracks one admission webhook request from start to completion.
pub struct WebhookTimer {
    pub webhook_kind: String,
}

impl WebhookTimer {
    /// Completes the webhook request with success.
    pub fn success(self, metrics: &mut MetricsCollector)
        ensures
            final(metrics)@ == old(metrics)@.push(
                (EventView::WebhookCompleted { webhook_kind: self.webhook_kind@, succeeded: true }),
            ),
    {
        metrics.record(
            MetricEvent::WebhookCompleted { webhook_kind: self.webhook_kind, succeeded: true },
        );
    }

    /// Completes the webhook request with an error.
    pub fn error(self, metrics: &mut MetricsCollector)
        ensures
            final(metrics)@ == old(metrics)@.push(
                (EventView::WebhookCompleted {
                    webhook_kind: self.webhook_kind@,
                    succeeded: false,
                }),
            ),
    {
        metrics.record(
            MetricEvent::WebhookCompleted { webhook_kind: self.webhook_kind, succeeded: false },
        );
    }
}

} // verus!
