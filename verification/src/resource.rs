use crate::kv::{kvs_view, KeyValue, KvView};
use crate::scheduling::{SchedulingConfig, SchedulingView};
use vstd::prelude::*;

verus! {

/// The views of a list of strings, in order.
pub open spec fn strings_view(ss: Seq<String>) -> Seq<Seq<char>> {
    ss.map_values(|s: String| s@)
}

/// Clones a list of strings; the copy has the same view.
pub fn clone_strings(ss: &Vec<String>) -> (res: Vec<String>)
    ensures
        res@ == ss@,
{
    let res = ss.clone();
    proof {
        assert(res@ =~= ss@);
    }
    res
}

/// Requested compute resources for the application's workload.
#[derive(Debug)]
pub struct ResourceRequirements {
    pub cpu: String,
    pub memory: String,
}

/// The mathematical content of a `ResourceRequirements`.
pub ghost struct ResourcesView {
    pub cpu: Seq<char>,
    pub memory: Seq<char>,
}

impl View for ResourceRequirements {
    type V = ResourcesView;

    open spec fn view(&self) -> ResourcesView {
        ResourcesView { cpu: self.cpu@, memory: self.memory@ }
    }
}

impl Clone for ResourceRequirements {
    fn clone(&self) -> (res: Self)
        ensures
            res == *self,
    {
        ResourceRequirements { cpu: self.cpu.clone(), memory: self.memory.clone() }
    }
}

/// The desired state of one application resource.
pub struct MyAppSpec {
    /// Number of replicas desired; valid specs keep this within 1 to 100.
    pub replicas: i32,
    /// Image to deploy, written as a name and a tag.
    pub image: String,
    /// Environment variables handed to the workload, keyed uniquely.
    pub env_vars: Vec<KeyValue>,
    /// Requested compute resources; filled with defaults by admission when
    /// absent.
    pub resources: Option<ResourceRequirements>,
    /// Scheduling placement configuration, opaque to the engine.
    pub scheduling: Option<SchedulingConfig>,
}

/// The mathematical content of a `MyAppSpec`.
pub ghost struct SpecView {
    pub replicas: int,
    pub image: Seq<char>,
    pub env_vars: Seq<KvView>,
    pub resources: Option<ResourcesView>,
    pub scheduling: Option<SchedulingView>,
}

impl View for MyAppSpec {
    type V = SpecView;

    open spec fn view(&self) -> SpecView {
        SpecView {
            replicas: self.replicas as int,
            image: self.image@,
            env_vars: kvs_view(self.env_vars@),
            resources: match self.resources {
                Some(r) => Some(r@),
                None => None,
            },
            scheduling: match self.scheduling {
                Some(s) => Some(s@),
                None => None,
            },
        }
    }
}

impl Clone for MyAppSpec {
    fn clone(&self) -> (res: Self)
        ensures
            res@ == self@,
    {
        MyAppSpec {
            replicas: self.replicas,
            image: self.image.clone(),
            env_vars: crate::kv::clone_kvs(&self.env_vars),
            resources: match &self.resources {
                Some(r) => Some(r.clone()),
                None => None,
            },
            scheduling: match &self.scheduling {
                Some(s) => Some(s.clone()),
                None => None,
            },
        }
    }
}

/// The lifecycle state reported in an application's status.
#[derive(Clone, Copy, PartialEq, Eq, Structural, Debug)]
pub enum AppState {
    Pending,
    Running,
    Terminating,
    Failed,
}

/// One entry of an application's condition list.
pub struct Condition {
    pub cond_type: String,
    pub status: String,
    pub reason: String,
    pub message: String,
    pub last_transition_time: String,
}

/// The mathematical content of a `Condition`.
pub ghost struct ConditionView {
    pub cond_type: Seq<char>,
    pub status: Seq<char>,
    pub reason: Seq<char>,
    pub message: Seq<char>,
    pub last_transition_time: Seq<char>,
}

impl View for Condition {
    type V = ConditionView;

    open spec fn view(&self) -> ConditionView {
        ConditionView {
            cond_type: self.cond_type@,
            status: self.status@,
            reason: self.reason@,
            message: self.message@,
            last_transition_time: self.last_transition_time@,
        }
    }
}

impl Clone for Condition {
    fn clone(&self) -> (res: Self)
        ensures
            res == *self,
    {
        Condition {
            cond_type: self.cond_type.clone(),
            status: self.status.clone(),
            reason: self.reason.clone(),
            message: self.message.clone(),
            last_transition_time: self.last_transition_time.clone(),
        }
    }
}

impl Condition {
    /// Builds a fresh `Ready` condition with the given verdict, reason and
    /// message, stamped with the current time.
    pub fn ready(status: bool, reason: &str, message: &str) -> (res: Condition)
        ensures
            res@.cond_type == "Ready"@,
            res@.status == (if status {
                "True"@
            } else {
                "False"@
            }),
            res@.reason == reason@,
            res@.message == message@,
    {
        Condition {
            cond_type: "Ready".to_owned(),
            status: if status {
                "True".to_owned()
            } else {
                "False".to_owned()
            },
            reason: reason.to_owned(),
            message: message.to_owned(),
            last_transition_time: crate::clock::now_rfc3339(),
        }
    }
}

/// The status subresource: what the controller last observed and reported.
pub struct MyAppStatus {
    /// Current lifecycle state of the application.
    pub state: AppState,
    /// The last spec generation the controller fully processed.
    pub observed_generation: Option<i64>,
    /// Conditions, kept with at most one entry per condition type.
    pub conditions: Vec<Condition>,
    /// When the status was last written.
    pub last_updated: Option<String>,
}

/// The mathematical content of a `MyAppStatus`.
pub ghost struct StatusView {
    pub state: AppState,
    pub observed_generation: Option<int>,
    pub conditions: Seq<ConditionView>,
    pub last_updated: Option<Seq<char>>,
}

impl View for MyAppStatus {
    type V = StatusView;

    open spec fn view(&self) -> StatusView {
        StatusView {
            state: self.state,
            observed_generation: match self.observed_generation {
                Some(g) => Some(g as int),
                None => None,
            },
            conditions: self.conditions@.map_values(|c: Condition| c@),
            last_updated: match self.last_updated {
                Some(t) => Some(t@),
                None => None,
            },
        }
    }
}

impl Clone for MyAppStatus {
    fn clone(&self) -> (res: Self)
        ensures
            res@ == self@,
    {
        let mut conditions: Vec<Condition> = Vec::new();
        let mut i: usize = 0;
        while i < self.conditions.len()
            invariant
                0 <= i <= self.conditions.len(),
                conditions@ == self.conditions@.take(i as int),
            decreases self.conditions.len() - i,
        {
            conditions.push(self.conditions[i].clone());
            proof {
                assert(conditions@ =~= self.conditions@.take(i + 1));
            }
            i = i + 1;
        }
        proof {
            assert(self.conditions@.take(self.conditions@.len() as int) =~= self.conditions@);
        }
        MyAppStatus {
            state: self.state,
            observed_generation: self.observed_generation,
            conditions,
            last_updated: match &self.last_updated {
                Some(t) => Some(t.clone()),
                None => None,
            },
        }
    }
}

/// Identity and lifecycle metadata of an application resource.
pub struct ObjectMeta {
    /// Object name, unique within its namespace.
    pub name: String,
    /// Namespace the object lives in.
    pub namespace: String,
    /// Immutable unique identifier assigned by the store.
    pub uid: String,
    /// Monotonically increasing counter, bumped by the store on every spec
    /// change.
    pub generation: i64,
    /// Opaque token used by the store for optimistic-concurrency writes.
    pub resource_version: String,
    /// Set exactly once when deletion is requested, never cleared.
    pub deletion_timestamp: Option<String>,
    /// Finalizer tokens; order-preserving with set membership semantics.
    pub finalizers: Vec<String>,
    /// Labels on the object.
    pub labels: Vec<KeyValue>,
}

/// The mathematical content of an `ObjectMeta`.
pub ghost struct MetaView {
    pub name: Seq<char>,
    pub namespace: Seq<char>,
    pub uid: Seq<char>,
    pub generation: int,
    pub resource_version: Seq<char>,
    pub deletion_timestamp: Option<Seq<char>>,
    pub finalizers: Seq<Seq<char>>,
    pub labels: Seq<KvView>,
}

impl View for ObjectMeta {
    type V = MetaView;

    open spec fn view(&self) -> MetaView {
        MetaView {
            name: self.name@,
            namespace: self.namespace@,
            uid: self.uid@,
            generation: self.generation as int,
            resource_version: self.resource_version@,
            deletion_timestamp: match self.deletion_timestamp {
                Some(t) => Some(t@),
                None => None,
            },
            finalizers: strings_view(self.finalizers@),
            labels: kvs_view(self.labels@),
        }
    }
}

impl Clone for ObjectMeta {
    fn clone(&self) -> (res: Self)
        ensures
            res@ == self@,
    {
        let res = ObjectMeta {
            name: self.name.clone(),
            namespace: self.namespace.clone(),
            uid: self.uid.clone(),
            generation: self.generation,
            resource_version: self.resource_version.clone(),
            deletion_timestamp: match &self.deletion_timestamp {
                Some(t) => Some(t.clone()),
                None => None,
            },
            finalizers: clone_strings(&self.finalizers),
            labels: crate::kv::clone_kvs(&self.labels),
        };
        proof {
            assert(strings_view(res.finalizers@) =~= strings_view(self.finalizers@));
        }
        res
    }
}

/// One application resource: identity, desired state, and observed status.
pub struct MyApp {
    pub metadata: ObjectMeta,
    pub spec: MyAppSpec,
    pub status: Option<MyAppStatus>,
}

/// The mathematical content of a `MyApp`.
pub ghost struct AppView {
    pub metadata: MetaView,
    pub spec: SpecView,
    pub status: Option<StatusView>,
}

impl View for MyApp {
    type V = AppView;

    open spec fn view(&self) -> AppView {
        AppView {
            metadata: self.metadata@,
            spec: self.spec@,
            status: match self.status {
                Some(s) => Some(s@),
                None => None,
            },
        }
    }
}

impl Clone for MyApp {
    fn clone(&self) -> (res: Self)
        ensures
            res@ == self@,
    {
        MyApp {
            metadata: self.metadata.clone(),
            spec: self.spec.clone(),
            status: match &self.status {
                Some(s) => Some(s.clone()),
                None => None,
            },
        }
    }
}

/// Replica counts must stay within this inclusive range.
pub open spec fn spec_replicas_in_range(s: SpecView) -> bool {
    1 <= s.replicas <= 100
}

/// The image reference must not be empty.
pub open spec fn spec_image_present(s: SpecView) -> bool {
    s.image.len() > 0
}

/// A spec is valid when the replica count is in range and an image is
/// given.
pub open spec fn spec_valid(s: SpecView) -> bool {
    spec_replicas_in_range(s) && spec_image_present(s)
}

/// Whether the controller still owes this object a reconciliation pass:
/// true unless the status records the current generation as observed.
pub open spec fn spec_needs_reconciliation(a: AppView) -> bool {
    match a.status {
        None => true,
        Some(st) => match st.observed_generation {
            None => true,
            Some(og) => og != a.metadata.generation,
        },
    }
}

impl MyApp {
    /// Validates the spec: accepts exactly the specs with a replica count
    /// in range and a non-empty image, and reports the first violated rule
    /// otherwise.
    pub fn validate(&self) -> (res: Result<(), String>)
        ensures
            res is Ok <==> spec_valid(self@.spec),
            !spec_replicas_in_range(self@.spec) ==> (res matches Err(m) && m@
                == "replicas must be between 1 and 100"@),
            spec_replicas_in_range(self@.spec) && !spec_image_present(self@.spec) ==> (res matches
                Err(m) && m@ == "image cannot be empty"@),
    {
        if self.spec.replicas < 1 || self.spec.replicas > 100 {
            return Err("replicas must be between 1 and 100".to_owned());
        }
        if self.spec.image.as_str().is_empty() {
            return Err("image cannot be empty".to_owned());
        }
        Ok(())
    }

    /// Whether the object still needs reconciliation, judged from the
    /// observed generation recorded in its status.
    pub fn needs_reconciliation(&self) -> (res: bool)
        ensures
            res == spec_needs_reconciliation(self@),
    {
        match &self.status {
            None => true,
            Some(st) => match st.observed_generation {
                None => true,
                Some(og) => og != self.metadata.generation,
            },
        }
    }
}

} // verus!
