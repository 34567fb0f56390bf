use crate::kv::{kvs_view, KeyValue, KvView};
use crate::resource::{AppView, MyApp};
use vstd::prelude::*;
use vstd::string::StringExecFns;

verus! {

/// A back-reference from a child resource to the application that owns
/// it, consumed by the store's garbage collector.
pub struct OwnerRef {
    pub api_version: String,
    pub kind: String,
    pub name: String,
    pub uid: String,
    pub controller: bool,
    pub block_owner_deletion: bool,
}

/// The mathematical content of an `OwnerRef`.
pub ghost struct OwnerRefView {
    pub api_version: Seq<char>,
    pub kind: Seq<char>,
    pub name: Seq<char>,
    pub uid: Seq<char>,
    pub controller: bool,
    pub block_owner_deletion: bool,
}

impl View for OwnerRef {
    type V = OwnerRefView;

    open spec fn view(&self) -> OwnerRefView {
        OwnerRefView {
            api_version: self.api_version@,
            kind: self.kind@,
            name: self.name@,
            uid: self.uid@,
            controller: self.controller,
            block_owner_deletion: self.block_owner_deletion,
        }
    }
}

/// The workload child resource derived from an application: it runs the
/// configured image with the configured replica count.
pub struct WorkloadResource {
    pub name: String,
    pub namespace: String,
    pub labels: Vec<KeyValue>,
    pub selector: Vec<KeyValue>,
    pub owner: OwnerRef,
    pub replicas: i32,
    pub image: String,
    pub env: Vec<KeyValue>,
}

/// The mathematical content of a `WorkloadResource`.
pub ghost struct WorkloadView {
    pub name: Seq<char>,
    pub namespace: Seq<char>,
    pub labels: Seq<KvView>,
    pub selector: Seq<KvView>,
    pub owner: OwnerRefView,
    pub replicas: int,
    pub image: Seq<char>,
    pub env: Seq<KvView>,
}

impl View for WorkloadResource {
    type V = WorkloadView;

    open spec fn view(&self) -> WorkloadView {
        WorkloadView {
            name: self.name@,
            namespace: self.namespace@,
            labels: kvs_view(self.labels@),
            selector: kvs_view(self.selector@),
            owner: self.owner@,
            replicas: self.replicas as int,
            image: self.image@,
            env: kvs_view(self.env@),
        }
    }
}

/// The network-endpoint child resource derived from an application: it
/// exposes one fixed port routed to the workload's matching port.
pub struct EndpointResource {
    pub name: String,
    pub namespace: String,
    pub labels: Vec<KeyValue>,
    pub selector: Vec<KeyValue>,
    pub owner: OwnerRef,
    pub port: u16,
    pub target_port: u16,
}

/// The mathematical content of an `EndpointResource`.
pub ghost struct EndpointView {
    pub name: Seq<char>,
    pub namespace: Seq<char>,
    pub labels: Seq<KvView>,
    pub selector: Seq<KvView>,
    pub owner: OwnerRefView,
    pub port: int,
    pub target_port: int,
}

impl View for EndpointResource {
    type V = EndpointView;

    open spec fn view(&self) -> EndpointView {
        EndpointView {
            name: self.name@,
            namespace: self.namespace@,
            labels: kvs_view(self.labels@),
            selector: kvs_view(self.selector@),
            owner: self.owner@,
            port: self.port as int,
            target_port: self.target_port as int,
        }
    }
}

/// The deterministic name of an application's workload child.
pub open spec fn spec_workload_name(name: Seq<char>) -> Seq<char> {
    name + "-deployment"@
}

/// The deterministic name of an application's network-endpoint child.
pub open spec fn spec_endpoint_name(name: Seq<char>) -> Seq<char> {
    name + "-service"@
}

/// The label set every child of the named application carries; it doubles
/// as the workload's selector.
pub open spec fn spec_child_labels(name: Seq<char>) -> Seq<KvView> {
    seq![
        KvView { key: "app"@, value: name },
        KvView { key: "managed-by"@, value: "myapp-controller"@ },
    ]
}

/// The owner reference every child of the application carries.
pub open spec fn spec_owner_ref(a: AppView) -> OwnerRefView {
    OwnerRefView {
        api_version: "example.com/v1"@,
        kind: "MyApp"@,
        name: a.metadata.name,
        uid: a.metadata.uid,
        controller: true,
        block_owner_deletion: true,
    }
}

/// The workload child an application is owed: fully derived from the
/// application, never diffed against what exists.
pub open spec fn spec_workload(a: AppView) -> WorkloadView {
    WorkloadView {
        name: spec_workload_name(a.metadata.name),
        namespace: a.metadata.namespace,
        labels: spec_child_labels(a.metadata.name),
        selector: spec_child_labels(a.metadata.name),
        owner: spec_owner_ref(a),
        replicas: a.spec.replicas,
        image: a.spec.image,
        env: a.spec.env_vars,
    }
}

/// The network-endpoint child an application is owed: one fixed port,
/// routed to the same port on the workload.
pub open spec fn spec_endpoint(a: AppView) -> EndpointView {
    EndpointView {
        name: spec_endpoint_name(a.metadata.name),
        namespace: a.metadata.namespace,
        labels: spec_child_labels(a.metadata.name),
        selector: spec_child_labels(a.metadata.name),
        owner: spec_owner_ref(a),
        port: 80,
        target_port: 80,
    }
}

/// Derives the workload child's name from the parent's name.
pub fn workload_name(name: &String) -> (res: String)
    ensures
        res@ == spec_workload_name(name@),
{
    name.clone().concat("-deployment")
}

/// Derives the network-endpoint child's name from the parent's name.
pub fn endpoint_name(name: &String) -> (res: String)
    ensures
        res@ == spec_endpoint_name(name@),
{
    name.clone().concat("-service")
}

/// Builds the label set shared by all children of the named application.
pub fn child_labels(name: &String) -> (res: Vec<KeyValue>)
    ensures
        kvs_view(res@) == spec_child_labels(name@),
{
    let mut labels: Vec<KeyValue> = Vec::new();
    labels.push(KeyValue { key: "app".to_owned(), value: name.clone() });
    labels.push(
        KeyValue { key: "managed-by".to_owned(), value: "myapp-controller".to_owned() },
    );
    proof {
        assert(kvs_view(labels@) =~= spec_child_labels(name@));
    }
    labels
}

/// Builds the owner reference that ties a child back to its application.
pub fn create_owner_reference(myapp: &MyApp) -> (res: OwnerRef)
    ensures
        res@ == spec_owner_ref(myapp@),
{
    OwnerRef {
        api_version: "example.com/v1".to_owned(),
        kind: "MyApp".to_owned(),
        name: myapp.metadata.name.clone(),
        uid: myapp.metadata.uid.clone(),
        controller: true,
        block_owner_deletion: true,
    }
}

/// Builds the workload child resource the application is owed.
pub fn build_workload(myapp: &MyApp) -> (res: WorkloadResource)
    ensures
        res@ == spec_workload(myapp@),
{
    WorkloadResource {
        name: workload_name(&myapp.metadata.name),
        namespace: myapp.metadata.namespace.clone(),
        labels: child_labels(&myapp.metadata.name),
        selector: child_labels(&myapp.metadata.name),
        owner: create_owner_reference(myapp),
        replicas: myapp.spec.replicas,
        image: myapp.spec.image.clone(),
        env: crate::kv::clone_kvs(&myapp.spec.env_vars),
    }
}

/// Builds the network-endpoint child resource the application is owed.
pub fn build_endpoint(myapp: &MyApp) -> (res: EndpointResource)
    ensures
        res@ == spec_endpoint(myapp@),
{
    EndpointResource {
        name: endpoint_name(&myapp.metadata.name),
        namespace: myapp.metadata.namespace.clone(),
        labels: child_labels(&myapp.metadata.name),
        selector: child_labels(&myapp.metadata.name),
        owner: create_owner_reference(myapp),
        port: 80,
        target_port: 80,
    }
}

} // verus!
