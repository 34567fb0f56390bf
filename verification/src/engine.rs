use crate::children::{
    build_endpoint, build_workload, endpoint_name, spec_endpoint, spec_endpoint_name,
    spec_workload, spec_workload_name, workload_name, EndpointResource, EndpointView,
    WorkloadResource, WorkloadView,
};
use crate::metrics::{EventView, MetricsCollector};
use crate::resource::{
    spec_replicas_in_range, spec_valid, strings_view, AppState, AppView, Condition, MetaView,
    MyApp, MyAppStatus, StatusView,
};
use vstd::prelude::*;

verus! {

/// The delay before revisiting an object right after its finalizer was
/// added.
pub const SHORT_REQUEUE_SECS: u64 = 1;

/// The fixed resync interval after a successful reconcile pass.
pub const RESYNC_SECS: u64 = 300;

/// The uniform backoff delay after a failed reconcile pass.
pub const ERROR_REQUEUE_SECS: u64 = 60;

/// The finalizer token this controller owns.
pub open spec fn spec_finalizer() -> Seq<char> {
    "myapps.example.com/finalizer"@
}

/// Builds the controller's finalizer token.
pub fn finalizer_token() -> (res: String)
    ensures
        res@ == spec_finalizer(),
{
    "myapps.example.com/finalizer".to_owned()
}

/// Whether the controller's token appears among the finalizers.
pub open spec fn spec_has_finalizer(fins: Seq<Seq<char>>) -> bool {
    fins.contains(spec_finalizer())
}

/// How often the controller's token appears among the finalizers.
pub open spec fn spec_token_count(fins: Seq<Seq<char>>) -> nat
    decreases fins.len(),
{
    if fins.len() == 0 {
        0
    } else if fins.last() == spec_finalizer() {
        spec_token_count(fins.drop_last()) + 1
    } else {
        spec_token_count(fins.drop_last())
    }
}

/// A list without the token holds it zero times.
proof fn lemma_token_count_absent(fins: Seq<Seq<char>>)
    requires
        forall|k: int| 0 <= k < fins.len() ==> fins[k] != spec_finalizer(),
    ensures
        spec_token_count(fins) == 0,
    decreases fins.len(),
{
    if fins.len() > 0 {
        lemma_token_count_absent(fins.drop_last());
    }
}

/// Pushing the token onto a list raises its count by one.
proof fn lemma_token_count_push(fins: Seq<Seq<char>>)
    ensures
        spec_token_count(fins.push(spec_finalizer())) == spec_token_count(fins) + 1,
{
    assert(fins.push(spec_finalizer()).drop_last() =~= fins);
}

/// The finalizer list after insert-if-absent of the controller's token.
pub open spec fn spec_add_finalizer(fins: Seq<Seq<char>>) -> Seq<Seq<char>> {
    if spec_has_finalizer(fins) {
        fins
    } else {
        fins.push(spec_finalizer())
    }
}

/// The finalizer list after remove-by-value of the controller's token.
pub open spec fn spec_remove_finalizer(fins: Seq<Seq<char>>) -> Seq<Seq<char>> {
    fins.filter(|f: Seq<char>| f != spec_finalizer())
}

/// Law: finalizer insertion is idempotent. Inserting the token twice
/// yields the same list as inserting it once; the token is present after
/// one insertion, and a list that held the token zero or one times holds
/// it exactly once afterwards, never twice.
pub proof fn lemma_add_finalizer_idempotent(fins: Seq<Seq<char>>)
    ensures
        spec_add_finalizer(spec_add_finalizer(fins)) == spec_add_finalizer(fins),
        spec_has_finalizer(spec_add_finalizer(fins)),
        spec_token_count(fins) <= 1 ==> spec_token_count(spec_add_finalizer(fins)) == 1,
{
    if spec_has_finalizer(fins) {
        if spec_token_count(fins) <= 1 {
            lemma_token_count_one_of_member(fins);
        }
    } else {
        let pushed = fins.push(spec_finalizer());
        assert(pushed[fins.len() as int] == spec_finalizer());
        assert(spec_has_finalizer(pushed));
        assert(forall|k: int| 0 <= k < fins.len() ==> fins[k] != spec_finalizer());
        lemma_token_count_absent(fins);
        lemma_token_count_push(fins);
    }
}

/// A list that holds the token at most once and contains it holds it
/// exactly once.
proof fn lemma_token_count_one_of_member(fins: Seq<Seq<char>>)
    requires
        spec_has_finalizer(fins),
        spec_token_count(fins) <= 1,
    ensures
        spec_token_count(fins) == 1,
    decreases fins.len(),
{
    let k = choose|k: int| 0 <= k < fins.len() && fins[k] == spec_finalizer();
    if fins.last() == spec_finalizer() {
    } else {
        assert(fins.drop_last()[k] == spec_finalizer());
        assert(spec_has_finalizer(fins.drop_last()));
        lemma_token_count_one_of_member(fins.drop_last());
    }
}

/// Decides whether the controller's token appears in a finalizer list.
pub fn has_finalizer(finalizers: &Vec<String>) -> (res: bool)
    ensures
        res == spec_has_finalizer(strings_view(finalizers@)),
{
    let token = finalizer_token();
    let ghost fview = strings_view(finalizers@);
    let mut i: usize = 0;
    while i < finalizers.len()
        invariant
            0 <= i <= finalizers.len(),
            fview == strings_view(finalizers@),
            forall|k: int| 0 <= k < i ==> fview[k] != spec_finalizer(),
            token@ == spec_finalizer(),
        decreases finalizers.len() - i,
    {
        if finalizers[i] == token {
            proof {
                assert(fview[i as int] == spec_finalizer());
            }
            return true;
        }
        i = i + 1;
    }
    false
}

/// Inserts the controller's finalizer token if it is absent; reports
/// whether the object changed. Nothing else on the object is touched.
pub fn add_finalizer(myapp: &mut MyApp) -> (added: bool)
    ensures
        final(myapp)@ == (AppView {
            metadata: MetaView {
                finalizers: spec_add_finalizer(old(myapp)@.metadata.finalizers),
                ..old(myapp)@.metadata
            },
            ..old(myapp)@
        }),
        added == !spec_has_finalizer(old(myapp)@.metadata.finalizers),
        spec_has_finalizer(final(myapp)@.metadata.finalizers),
{
    let had = has_finalizer(&myapp.metadata.finalizers);
    if !had {
        let token = finalizer_token();
        myapp.metadata.finalizers.push(token);
        proof {
            let oldf = old(myapp)@.metadata.finalizers;
            assert(strings_view(myapp.metadata.finalizers@) =~= oldf.push(spec_finalizer()));
            assert(oldf.push(spec_finalizer())[oldf.len() as int] == spec_finalizer());
        }
        true
    } else {
        false
    }
}

/// Removes every occurrence of the controller's finalizer token; order
/// among the remaining tokens is kept. Nothing else on the object is
/// touched.
pub fn remove_finalizer(myapp: &mut MyApp)
    ensures
        final(myapp)@ == (AppView {
            metadata: MetaView {
                finalizers: spec_remove_finalizer(old(myapp)@.metadata.finalizers),
                ..old(myapp)@.metadata
            },
            ..old(myapp)@
        }),
        !spec_has_finalizer(final(myapp)@.metadata.finalizers),
{
    let token = finalizer_token();
    let ghost orig = old(myapp)@.metadata.finalizers;
    let ghost pred = |f: Seq<char>| f != spec_finalizer();
    let mut kept: Vec<String> = Vec::new();
    proof {
        reveal(Seq::filter);
        assert(orig.take(0) =~= Seq::<Seq<char>>::empty());
    }
    let mut i: usize = 0;
    while i < myapp.metadata.finalizers.len()
        invariant
            0 <= i <= myapp.metadata.finalizers.len(),
            *myapp == *old(myapp),
            orig == strings_view(myapp.metadata.finalizers@),
            token@ == spec_finalizer(),
            strings_view(kept@) == orig.take(i as int).filter(pred),
            pred == (|f: Seq<char>| f != spec_finalizer()),
        decreases myapp.metadata.finalizers.len() - i,
    {
        proof {
            reveal(Seq::filter);
            assert(orig.take(i + 1).drop_last() =~= orig.take(i as int));
            assert(orig.take(i + 1).last() == orig[i as int]);
        }
        if !(myapp.metadata.finalizers[i] == token) {
            kept.push(myapp.metadata.finalizers[i].clone());
            proof {
                assert(strings_view(kept@) =~= orig.take(i as int).filter(pred).push(
                    orig[i as int],
                ));
            }
        }
        i = i + 1;
    }
    proof {
        assert(orig.take(orig.len() as int) =~= orig);
    }
    myapp.metadata.finalizers = kept;
    proof {
        let fins = spec_remove_finalizer(orig);
        assert forall|k: int| 0 <= k < fins.len() implies fins[k] != spec_finalizer() by {
            orig.lemma_filter_pred(pred, k);
        }
    }
}

/// The control state of one object, recomputed from the object on every
/// pass and never cached.
#[derive(Clone, Copy, PartialEq, Eq, Structural, Debug)]
pub enum Phase {
    /// Deletion not requested, token absent: the token must be added
    /// before anything else happens.
    NeedsFinalizer,
    /// Deletion not requested, token present: children and status are
    /// driven toward the desired state.
    Active,
    /// Deletion requested, token present: children are deleted, then the
    /// token is removed.
    Cleanup,
    /// Deletion requested, token absent: nothing is left to do.
    Done,
}

/// Classifies an object from its deletion timestamp and its finalizers.
pub open spec fn spec_classify(a: AppView) -> Phase {
    if a.metadata.deletion_timestamp is Some {
        if spec_has_finalizer(a.metadata.finalizers) {
            Phase::Cleanup
        } else {
            Phase::Done
        }
    } else {
        if spec_has_finalizer(a.metadata.finalizers) {
            Phase::Active
        } else {
            Phase::NeedsFinalizer
        }
    }
}

/// Classifies an object: the control state is a pure function of the
/// deletion timestamp and the finalizer list.
pub fn classify(myapp: &MyApp) -> (res: Phase)
    ensures
        res == spec_classify(myapp@),
{
    let has = has_finalizer(&myapp.metadata.finalizers);
    match &myapp.metadata.deletion_timestamp {
        Some(_) => if has {
            Phase::Cleanup
        } else {
            Phase::Done
        },
        None => if has {
            Phase::Active
        } else {
            Phase::NeedsFinalizer
        },
    }
}

/// The scheduling directive a reconcile pass hands back to the outer
/// work queue.
#[derive(Clone, Copy, PartialEq, Eq, Structural, Debug)]
pub enum Action {
    /// Wait for the next external event; no revisit is scheduled.
    AwaitChange,
    /// Revisit the object after this many seconds, events or not.
    RequeueAfterSecs(u64),
}

/// A failed reconcile pass. Every failure is retried after the uniform
/// backoff delay; none is fatal to the controller.
#[derive(Debug)]
pub enum ReconcileError {
    /// An object-store call failed or hit a write conflict.
    KubeError(String),
    /// The spec violated an invariant at reconcile time.
    ValidationError(String),
    /// Finalizer management or child cleanup failed.
    FinalizerError(String),
}

/// The mathematical content of a `ReconcileError`.
pub ghost enum ReconcileErrorView {
    KubeError(Seq<char>),
    ValidationError(Seq<char>),
    FinalizerError(Seq<char>),
}

impl View for ReconcileError {
    type V = ReconcileErrorView;

    open spec fn view(&self) -> ReconcileErrorView {
        match self {
            ReconcileError::KubeError(m) => ReconcileErrorView::KubeError(m@),
            ReconcileError::ValidationError(m) => ReconcileErrorView::ValidationError(m@),
            ReconcileError::FinalizerError(m) => ReconcileErrorView::FinalizerError(m@),
        }
    }
}

/// The label under which an error is counted.
pub open spec fn spec_error_kind(e: ReconcileErrorView) -> Seq<char> {
    match e {
        ReconcileErrorView::KubeError(m) => "kube_error"@,
        ReconcileErrorView::ValidationError(m) => "validation_error"@,
        ReconcileErrorView::FinalizerError(m) => "finalizer_error"@,
    }
}

/// Names the kind of a reconcile error, for the error counter.
pub fn error_kind(error: &ReconcileError) -> (res: &'static str)
    ensures
        res@ == spec_error_kind(error@),
{
    match error {
        ReconcileError::KubeError(_) => "kube_error",
        ReconcileError::ValidationError(_) => "validation_error",
        ReconcileError::FinalizerError(_) => "finalizer_error",
    }
}

/// Maps a failed reconcile pass to the uniform backoff directive, after
/// counting the error by kind and namespace. No failure escalates.
pub fn error_policy(
    error: &ReconcileError,
    namespace: &str,
    metrics: &mut MetricsCollector,
) -> (res: Action)
    ensures
        res == Action::RequeueAfterSecs(ERROR_REQUEUE_SECS),
        final(metrics)@ == old(metrics)@.push(
            (EventView::ErrorRecorded {
                error_kind: spec_error_kind(error@),
                namespace: namespace@,
            }),
        ),
{
    metrics.record_error(error_kind(error), namespace);
    Action::RequeueAfterSecs(ERROR_REQUEUE_SECS)
}

/// The status a fully reconciled object is owed, as of generation
/// `a.metadata.generation`.
pub open spec fn spec_status_fresh(st: StatusView, a: AppView) -> bool {
    &&& st.state == AppState::Running
    &&& st.observed_generation == Some(a.metadata.generation)
    &&& st.conditions.len() == 1
    &&& st.conditions[0].cond_type == "Ready"@
    &&& st.conditions[0].status == "True"@
    &&& st.conditions[0].reason == "ReconcileSuccess"@
    &&& st.conditions[0].message == "Resource reconciled successfully"@
    &&& st.last_updated is Some
}

/// Builds the status a fully reconciled object is owed: running, caught
/// up with the current generation, and carrying exactly one fresh
/// `Ready` condition.
pub fn desired_status(myapp: &MyApp) -> (res: MyAppStatus)
    ensures
        spec_status_fresh(res@, myapp@),
{
    let cond = Condition::ready(true, "ReconcileSuccess", "Resource reconciled successfully");
    let mut conditions: Vec<Condition> = Vec::new();
    conditions.push(cond);
    let res = MyAppStatus {
        state: AppState::Running,
        observed_generation: Some(myapp.metadata.generation),
        conditions,
        last_updated: Some(crate::clock::now_rfc3339()),
    };
    res
}

/// A filter that keeps every element returns the list unchanged.
proof fn lemma_filter_all_kept<A>(s: Seq<A>, pred: spec_fn(A) -> bool)
    requires
        forall|k: int| 0 <= k < s.len() ==> pred(#[trigger] s[k]),
    ensures
        s.filter(pred) == s,
    decreases s.len(),
{
    reveal(Seq::filter);
    if s.len() == 0 {
        assert(s.filter(pred) =~= s);
    } else {
        assert(forall|k: int| 0 <= k < s.drop_last().len() ==> pred(#[trigger] s.drop_last()[k]));
        lemma_filter_all_kept(s.drop_last(), pred);
        assert(s.filter(pred) =~= s);
    }
}

/// A filter that drops exactly one element returns the list with that
/// element removed.
proof fn lemma_filter_remove_one<A>(s: Seq<A>, pred: spec_fn(A) -> bool, i: int)
    requires
        0 <= i < s.len(),
        !pred(s[i]),
        forall|k: int| 0 <= k < s.len() && k != i ==> pred(#[trigger] s[k]),
    ensures
        s.filter(pred) == s.remove(i),
    decreases s.len(),
{
    reveal(Seq::filter);
    if i == s.len() - 1 {
        assert(forall|k: int| 0 <= k < s.drop_last().len() ==> pred(#[trigger] s.drop_last()[k]));
        lemma_filter_all_kept(s.drop_last(), pred);
        assert(s.remove(i) =~= s.drop_last());
    } else {
        assert(forall|k: int|
            0 <= k < s.drop_last().len() && k != i ==> pred(#[trigger] s.drop_last()[k]));
        lemma_filter_remove_one(s.drop_last(), pred, i);
        assert(s.remove(i) =~= s.drop_last().remove(i).push(s.last()));
    }
}

/// The in-memory model of the object store the engine drives: the
/// application objects and their child resources, each keyed by
/// namespace and name.
pub struct ObjectStore {
    pub apps: Vec<MyApp>,
    pub workloads: Vec<WorkloadResource>,
    pub endpoints: Vec<EndpointResource>,
}

/// The mathematical content of an `ObjectStore`.
pub ghost struct StoreView {
    pub apps: Seq<AppView>,
    pub workloads: Seq<WorkloadView>,
    pub endpoints: Seq<EndpointView>,
}

impl View for ObjectStore {
    type V = StoreView;

    open spec fn view(&self) -> StoreView {
        StoreView {
            apps: self.apps@.map_values(|a: MyApp| a@),
            workloads: self.workloads@.map_values(|w: WorkloadResource| w@),
            endpoints: self.endpoints@.map_values(|e: EndpointResource| e@),
        }
    }
}

/// Whether an application carries the given namespace and name.
pub open spec fn spec_app_key_matches(a: AppView, namespace: Seq<char>, name: Seq<char>) -> bool {
    a.metadata.namespace == namespace && a.metadata.name == name
}

/// Whether the store holds an application under the given key.
pub open spec fn spec_has_app(s: StoreView, namespace: Seq<char>, name: Seq<char>) -> bool {
    exists|i: int| 0 <= i < s.apps.len() && spec_app_key_matches(s.apps[i], namespace, name)
}

/// Whether the store holds a workload under the given key.
pub open spec fn spec_has_workload(s: StoreView, namespace: Seq<char>, name: Seq<char>) -> bool {
    exists|k: int| 0 <= k < s.workloads.len() && s.workloads[k].namespace == namespace
        && s.workloads[k].name == name
}

/// Whether the store holds a network endpoint under the given key.
pub open spec fn spec_has_endpoint(s: StoreView, namespace: Seq<char>, name: Seq<char>) -> bool {
    exists|k: int| 0 <= k < s.endpoints.len() && s.endpoints[k].namespace == namespace
        && s.endpoints[k].name == name
}

/// No two applications share a namespace and name.
pub open spec fn spec_apps_unique(apps: Seq<AppView>) -> bool {
    forall|i: int, j: int|
        #![trigger apps[i], apps[j]]
        0 <= i < j < apps.len() ==> !(apps[i].metadata.namespace == apps[j].metadata.namespace
            && apps[i].metadata.name == apps[j].metadata.name)
}

/// No two workloads share a namespace and name.
pub open spec fn spec_workloads_unique(ws: Seq<WorkloadView>) -> bool {
    forall|i: int, j: int|
        #![trigger ws[i], ws[j]]
        0 <= i < j < ws.len() ==> !(ws[i].namespace == ws[j].namespace && ws[i].name == ws[j].name)
}

/// No two network endpoints share a namespace and name.
pub open spec fn spec_endpoints_unique(es: Seq<EndpointView>) -> bool {
    forall|i: int, j: int|
        #![trigger es[i], es[j]]
        0 <= i < j < es.len() ==> !(es[i].namespace == es[j].namespace && es[i].name == es[j].name)
}

/// Keeps every workload except the one stored under the given key.
pub open spec fn spec_other_workloads(namespace: Seq<char>, name: Seq<char>) -> spec_fn(
    WorkloadView,
) -> bool {
    |w: WorkloadView| !(w.namespace == namespace && w.name == name)
}

/// Keeps every network endpoint except the one stored under the given
/// key.
pub open spec fn spec_other_endpoints(namespace: Seq<char>, name: Seq<char>) -> spec_fn(
    EndpointView,
) -> bool {
    |e: EndpointView| !(e.namespace == namespace && e.name == name)
}

/// The store invariant the engine preserves: keys are unique, no object
/// holds the controller's token twice, and every child carries the name
/// derived from its owner.
pub open spec fn spec_store_wf(s: StoreView) -> bool {
    &&& spec_apps_unique(s.apps)
    &&& forall|i: int| 0 <= i < s.apps.len() ==> spec_token_count(
        #[trigger] s.apps[i].metadata.finalizers,
    ) <= 1
    &&& spec_workloads_unique(s.workloads)
    &&& spec_endpoints_unique(s.endpoints)
    &&& forall|k: int| 0 <= k < s.workloads.len() ==> (#[trigger] s.workloads[k]).name
        == spec_workload_name(s.workloads[k].owner.name)
    &&& forall|k: int| 0 <= k < s.endpoints.len() ==> (#[trigger] s.endpoints[k]).name
        == spec_endpoint_name(s.endpoints[k].owner.name)
}

impl ObjectStore {
    /// An empty store.
    pub fn new() -> (res: Self)
        ensures
            res@.apps == Seq::<AppView>::empty(),
            res@.workloads == Seq::<WorkloadView>::empty(),
            res@.endpoints == Seq::<EndpointView>::empty(),
            spec_store_wf(res@),
    {
        let res = ObjectStore { apps: Vec::new(), workloads: Vec::new(), endpoints: Vec::new() };
        proof {
            assert(res@.apps =~= Seq::<AppView>::empty());
            assert(res@.workloads =~= Seq::<WorkloadView>::empty());
            assert(res@.endpoints =~= Seq::<EndpointView>::empty());
        }
        res
    }

    /// Finds the application stored under the given key, if any.
    pub fn find_app(&self, namespace: &String, name: &String) -> (res: Option<usize>)
        ensures
            match res {
                Some(i) => i < self@.apps.len() && spec_app_key_matches(
                    self@.apps[i as int],
                    namespace@,
                    name@,
                ),
                None => !spec_has_app(self@, namespace@, name@),
            },
    {
        let mut i: usize = 0;
        while i < self.apps.len()
            invariant
                0 <= i <= self.apps.len(),
                forall|k: int| 0 <= k < i ==> !spec_app_key_matches(
                    self@.apps[k],
                    namespace@,
                    name@,
                ),
            decreases self.apps.len() - i,
        {
            if self.apps[i].metadata.namespace == *namespace && self.apps[i].metadata.name
                == *name {
                return Some(i);
            }
            i = i + 1;
        }
        None
    }

    /// Whether a workload is stored under the given key.
    pub fn has_workload(&self, namespace: &String, name: &String) -> (res: bool)
        ensures
            res == spec_has_workload(self@, namespace@, name@),
    {
        let mut i: usize = 0;
        while i < self.workloads.len()
            invariant
                0 <= i <= self.workloads.len(),
                forall|k: int| 0 <= k < i ==> !(#[trigger] self@.workloads[k].namespace
                    == namespace@ && self@.workloads[k].name == name@),
            decreases self.workloads.len() - i,
        {
            if self.workloads[i].namespace == *namespace && self.workloads[i].name == *name {
                proof {
                    assert(self@.workloads[i as int].namespace == namespace@
                        && self@.workloads[i as int].name == name@);
                }
                return true;
            }
            i = i + 1;
        }
        false
    }

    /// Whether a network endpoint is stored under the given key.
    pub fn has_endpoint(&self, namespace: &String, name: &String) -> (res: bool)
        ensures
            res == spec_has_endpoint(self@, namespace@, name@),
    {
        let mut i: usize = 0;
        while i < self.endpoints.len()
            invariant
                0 <= i <= self.endpoints.len(),
                forall|k: int| 0 <= k < i ==> !(#[trigger] self@.endpoints[k].namespace
                    == namespace@ && self@.endpoints[k].name == name@),
            decreases self.endpoints.len() - i,
        {
            if self.endpoints[i].namespace == *namespace && self.endpoints[i].name == *name {
                proof {
                    assert(self@.endpoints[i as int].namespace == namespace@
                        && self@.endpoints[i as int].name == name@);
                }
                return true;
            }
            i = i + 1;
        }
        false
    }

    /// Deletes the workload stored under the given key; absence is
    /// tolerated and leaves the store unchanged.
    pub fn delete_workload(&mut self, namespace: &String, name: &String)
        requires
            spec_workloads_unique(old(self)@.workloads),
        ensures
            final(self)@.workloads == old(self)@.workloads.filter(
                spec_other_workloads(namespace@, name@),
            ),
            final(self)@.apps == old(self)@.apps,
            final(self)@.endpoints == old(self)@.endpoints,
            final(self)@.workloads =~= old(self)@.workloads || (exists|k: int|
                0 <= k < old(self)@.workloads.len() && final(self)@.workloads =~= old(
                    self,
                )@.workloads.remove(k)),
    {
        let ghost pred = spec_other_workloads(namespace@, name@);
        let mut i: usize = 0;
        while i < self.workloads.len()
            invariant
                0 <= i <= self.workloads.len(),
                *self == *old(self),
                spec_workloads_unique(self@.workloads),
                forall|k: int| 0 <= k < i ==> pred(#[trigger] self@.workloads[k]),
                pred == spec_other_workloads(namespace@, name@),
            decreases self.workloads.len() - i,
        {
            if self.workloads[i].namespace == *namespace && self.workloads[i].name == *name {
                let ghost wview = self@.workloads;
                let _removed = self.workloads.remove(i);
                proof {
                    assert(wview[i as int].namespace == namespace@ && wview[i as int].name
                        == name@);
                    assert forall|k: int| 0 <= k < wview.len() && k != i as int implies pred(
                        wview[k],
                    ) by {
                        if k > i as int {
                            assert(!(wview[i as int].namespace == wview[k].namespace
                                && wview[i as int].name == wview[k].name));
                        }
                    }
                    lemma_filter_remove_one(wview, pred, i as int);
                    assert(self@.workloads =~= wview.remove(i as int));
                }
                return ;
            }
            i = i + 1;
        }
        proof {
            lemma_filter_all_kept(self@.workloads, pred);
        }
    }

    /// Deletes the network endpoint stored under the given key; absence
    /// is tolerated and leaves the store unchanged.
    pub fn delete_endpoint(&mut self, namespace: &String, name: &String)
        requires
            spec_endpoints_unique(old(self)@.endpoints),
        ensures
            final(self)@.endpoints == old(self)@.endpoints.filter(
                spec_other_endpoints(namespace@, name@),
            ),
            final(self)@.apps == old(self)@.apps,
            final(self)@.workloads == old(self)@.workloads,
            final(self)@.endpoints =~= old(self)@.endpoints || (exists|k: int|
                0 <= k < old(self)@.endpoints.len() && final(self)@.endpoints =~= old(
                    self,
                )@.endpoints.remove(k)),
    {
        let ghost pred = spec_other_endpoints(namespace@, name@);
        let mut i: usize = 0;
        while i < self.endpoints.len()
            invariant
                0 <= i <= self.endpoints.len(),
                *self == *old(self),
                spec_endpoints_unique(self@.endpoints),
                forall|k: int| 0 <= k < i ==> pred(#[trigger] self@.endpoints[k]),
                pred == spec_other_endpoints(namespace@, name@),
            decreases self.endpoints.len() - i,
        {
            if self.endpoints[i].namespace == *namespace && self.endpoints[i].name == *name {
                let ghost eview = self@.endpoints;
                let _removed = self.endpoints.remove(i);
                proof {
                    assert(eview[i as int].namespace == namespace@ && eview[i as int].name
                        == name@);
                    assert forall|k: int| 0 <= k < eview.len() && k != i as int implies pred(
                        eview[k],
                    ) by {
                        if k > i as int {
                            assert(!(eview[i as int].namespace == eview[k].namespace
                                && eview[i as int].name == eview[k].name));
                        }
                    }
                    lemma_filter_remove_one(eview, pred, i as int);
                    assert(self@.endpoints =~= eview.remove(i as int));
                }
                return ;
            }
            i = i + 1;
        }
        proof {
            lemma_filter_all_kept(self@.endpoints, pred);
        }
    }

    /// Replaces the application at the given index.
    fn replace_app(&mut self, i: usize, app: MyApp)
        requires
            i < old(self)@.apps.len(),
        ensures
            final(self)@.apps == old(self)@.apps.update(i as int, app@),
            final(self)@.workloads == old(self)@.workloads,
            final(self)@.endpoints == old(self)@.endpoints,
    {
        let ghost orig = self@.apps;
        let ghost appv = app@;
        let _replaced = self.apps.remove(i);
        self.apps.insert(i, app);
        proof {
            assert(final(self)@.apps =~= orig.update(i as int, appv));
        }
    }
}

/// The application with its finalizer list replaced and everything else
/// kept.
pub open spec fn spec_app_with_finalizers(a: AppView, fins: Seq<Seq<char>>) -> AppView {
    AppView { metadata: MetaView { finalizers: fins, ..a.metadata }, ..a }
}

/// What one reconcile pass does for the application at index `i` of the
/// store: `s` and `m` are the store and the metrics log before the pass,
/// `s2` and `m2` after it, and `r` the directive handed back.
pub open spec fn spec_reconcile_app_post(
    s: StoreView,
    m: Seq<EventView>,
    i: int,
    s2: StoreView,
    m2: Seq<EventView>,
    r: Result<Action, ReconcileError>,
) -> bool {
    let a = s.apps[i];
    let ns = a.metadata.namespace;
    let nm = a.metadata.name;
    let started = (EventView::ReconcileStarted { namespace: ns, name: nm });
    let done_ok = (EventView::ReconcileCompleted { namespace: ns, name: nm, succeeded: true });
    match spec_classify(a) {
        Phase::Done => {
            &&& s2 == s
            &&& m2 == m.push(started).push(done_ok)
            &&& r == Ok::<Action, ReconcileError>(Action::AwaitChange)
        },
        Phase::Cleanup => {
            &&& s2.apps == s.apps.update(
                i,
                spec_app_with_finalizers(a, spec_remove_finalizer(a.metadata.finalizers)),
            )
            &&& s2.workloads == s.workloads.filter(
                spec_other_workloads(ns, spec_workload_name(nm)),
            )
            &&& s2.endpoints == s.endpoints.filter(
                spec_other_endpoints(ns, spec_endpoint_name(nm)),
            )
            &&& m2 == m.push(started).push(done_ok)
            &&& r == Ok::<Action, ReconcileError>(Action::AwaitChange)
        },
        Phase::NeedsFinalizer => {
            &&& s2.apps == s.apps.update(
                i,
                spec_app_with_finalizers(a, spec_add_finalizer(a.metadata.finalizers)),
            )
            &&& s2.workloads == s.workloads
            &&& s2.endpoints == s.endpoints
            &&& m2 == m.push(started)
            &&& r == Ok::<Action, ReconcileError>(Action::RequeueAfterSecs(SHORT_REQUEUE_SECS))
        },
        Phase::Active => {
            if !spec_valid(a.spec) {
                &&& s2 == s
                &&& m2 == m.push(started).push(
                    (EventView::ErrorRecorded { error_kind: "validation_error"@, namespace: ns }),
                )
                &&& r matches Err(ReconcileError::ValidationError(msg))
                &&& !spec_replicas_in_range(a.spec) ==> (r matches Err(
                    ReconcileError::ValidationError(msg),
                ) && msg@ == "replicas must be between 1 and 100"@)
                &&& spec_replicas_in_range(a.spec) ==> (r matches Err(
                    ReconcileError::ValidationError(msg),
                ) && msg@ == "image cannot be empty"@)
            } else {
                &&& s2.workloads == (if spec_has_workload(s, ns, spec_workload_name(nm)) {
                    s.workloads
                } else {
                    s.workloads.push(spec_workload(a))
                })
                &&& s2.endpoints == (if spec_has_endpoint(s, ns, spec_endpoint_name(nm)) {
                    s.endpoints
                } else {
                    s.endpoints.push(spec_endpoint(a))
                })
                &&& s2.apps.len() == s.apps.len()
                &&& forall|j: int| 0 <= j < s.apps.len() && j != i ==> s2.apps[j] == #[trigger] s.apps[j]
                &&& s2.apps[i].metadata == a.metadata
                &&& s2.apps[i].spec == a.spec
                &&& s2.apps[i].status matches Some(st) && spec_status_fresh(st, a)
                &&& m2 == m.push(started).push(
                    (EventView::ManagedResourcesSet {
                        resource_kind: "deployment"@,
                        namespace: ns,
                        count: 1,
                    }),
                ).push(
                    (EventView::ManagedResourcesSet {
                        resource_kind: "service"@,
                        namespace: ns,
                        count: 1,
                    }),
                ).push(done_ok)
                &&& r == Ok::<Action, ReconcileError>(Action::RequeueAfterSecs(RESYNC_SECS))
            }
        },
    }
}

/// What one reconcile pass for the identity `(namespace, name)` does to
/// the store and the metrics log. An identity the store does not hold is
/// nothing to do.
pub open spec fn spec_reconcile_post(
    s: StoreView,
    m: Seq<EventView>,
    namespace: Seq<char>,
    name: Seq<char>,
    s2: StoreView,
    m2: Seq<EventView>,
    r: Result<Action, ReconcileError>,
) -> bool {
    if spec_has_app(s, namespace, name) {
        forall|i: int|
            0 <= i < s.apps.len() && spec_app_key_matches(#[trigger] s.apps[i], namespace, name)
                ==> spec_reconcile_app_post(s, m, i, s2, m2, r)
    } else {
        &&& s2 == s
        &&& m2 == m.push((EventView::ReconcileStarted { namespace, name })).push(
            (EventView::ReconcileCompleted { namespace, name, succeeded: true }),
        )
        &&& r == Ok::<Action, ReconcileError>(Action::AwaitChange)
    }
}

/// Replacing one application with one that carries the same key keeps
/// the key of every slot and every other slot's content.
proof fn lemma_update_keeps_keys(apps: Seq<AppView>, apps2: Seq<AppView>, idx: int)
    requires
        0 <= idx < apps.len(),
        apps2.len() == apps.len(),
        apps2[idx].metadata.namespace == apps[idx].metadata.namespace,
        apps2[idx].metadata.name == apps[idx].metadata.name,
        forall|k: int| 0 <= k < apps.len() && k != idx ==> apps2[k] == #[trigger] apps[k],
    ensures
        forall|k: int|
            0 <= k < apps.len() ==> (#[trigger] apps2[k]).metadata.namespace
                == apps[k].metadata.namespace && apps2[k].metadata.name == apps[k].metadata.name,
        spec_apps_unique(apps) ==> spec_apps_unique(apps2),
{
    assert forall|k: int| 0 <= k < apps.len() implies (#[trigger] apps2[k]).metadata.namespace
        == apps[k].metadata.namespace && apps2[k].metadata.name == apps[k].metadata.name by {
        if k != idx {
            assert(apps2[k] == apps[k]);
        }
    }
}

/// In a store with unique keys, at most one index matches a key.
proof fn lemma_only_index(s: StoreView, namespace: Seq<char>, name: Seq<char>, idx: int)
    requires
        spec_apps_unique(s.apps),
        0 <= idx < s.apps.len(),
        spec_app_key_matches(s.apps[idx], namespace, name),
    ensures
        forall|i: int|
            0 <= i < s.apps.len() && spec_app_key_matches(#[trigger] s.apps[i], namespace, name)
                ==> i == idx,
{
    assert forall|i: int|
        0 <= i < s.apps.len() && spec_app_key_matches(#[trigger] s.apps[i], namespace, name)
        implies i == idx by {
        if i < idx {
            assert(!(s.apps[i].metadata.namespace == s.apps[idx].metadata.namespace
                && s.apps[i].metadata.name == s.apps[idx].metadata.name));
        } else if i > idx {
            assert(!(s.apps[idx].metadata.namespace == s.apps[i].metadata.namespace
                && s.apps[idx].metadata.name == s.apps[i].metadata.name));
        }
    }
}

/// One reconcile pass: reads the object stored under the given identity,
/// classifies it, applies the idempotent mutations its phase calls for,
/// and hands back the next scheduling directive. The store invariant is
/// preserved, and `spec_reconcile_post` pins down everything the pass
/// changed.
pub fn reconcile(
    store: &mut ObjectStore,
    namespace: &str,
    name: &str,
    metrics: &mut MetricsCollector,
) -> (res: Result<Action, ReconcileError>)
    requires
        spec_store_wf(old(store)@),
    ensures
        spec_store_wf(final(store)@),
        spec_reconcile_post(
            old(store)@,
            old(metrics)@,
            namespace@,
            name@,
            final(store)@,
            final(metrics)@,
            res,
        ),
{
    let ghost s0 = store@;
    let ghost m0 = metrics@;
    let timer = metrics.start_reconcile(namespace, name);
    let ns_key = namespace.to_owned();
    let name_key = name.to_owned();
    let idx = match store.find_app(&ns_key, &name_key) {
        None => {
            timer.success(metrics);
            return Ok(Action::AwaitChange);
        },
        Some(i) => i,
    };
    let ghost a = s0.apps[idx as int];
    proof {
        lemma_only_index(s0, namespace@, name@, idx as int);
    }
    let app = store.apps[idx].clone();
    proof {
        assert(app@ == a);
    }
    match classify(&app) {
        Phase::Done => {
            timer.success(metrics);
            Ok(Action::AwaitChange)
        },
        Phase::Cleanup => {
            let wl_name = workload_name(&app.metadata.name);
            let ep_name = endpoint_name(&app.metadata.name);
            store.delete_workload(&app.metadata.namespace, &wl_name);
            store.delete_endpoint(&app.metadata.namespace, &ep_name);
            let ghost s_deleted = store@;
            let mut app2 = app;
            remove_finalizer(&mut app2);
            store.replace_app(idx, app2);
            timer.success(metrics);
            proof {
                lemma_update_keeps_keys(s0.apps, store@.apps, idx as int);
                let fins2 = store@.apps[idx as int].metadata.finalizers;
                assert forall|k: int| 0 <= k < fins2.len() implies fins2[k] != spec_finalizer()
                    by {
                    s0.apps[idx as int].metadata.finalizers.lemma_filter_pred(
                        |f: Seq<char>| f != spec_finalizer(),
                        k,
                    );
                }
                lemma_token_count_absent(fins2);
            }
            Ok(Action::AwaitChange)
        },
        Phase::NeedsFinalizer => {
            let mut app2 = app;
            let _added = add_finalizer(&mut app2);
            store.replace_app(idx, app2);
            proof {
                assert(!spec_has_finalizer(a.metadata.finalizers));
                assert(forall|k: int| 0 <= k < a.metadata.finalizers.len()
                    ==> a.metadata.finalizers[k] != spec_finalizer());
                lemma_token_count_absent(a.metadata.finalizers);
                lemma_token_count_push(a.metadata.finalizers);
                lemma_update_keeps_keys(s0.apps, store@.apps, idx as int);
            }
            Ok(Action::RequeueAfterSecs(SHORT_REQUEUE_SECS))
        },
        Phase::Active => {
            match app.validate() {
                Err(msg) => {
                    metrics.record_error("validation_error", namespace);
                    Err(ReconcileError::ValidationError(msg))
                },
                Ok(()) => {
                    let wl_name = workload_name(&app.metadata.name);
                    if !store.has_workload(&app.metadata.namespace, &wl_name) {
                        let workload = build_workload(&app);
                        store.workloads.push(workload);
                        proof {
                            assert(store@.workloads =~= s0.workloads.push(spec_workload(a)));
                        }
                    }
                    let ep_name = endpoint_name(&app.metadata.name);
                    if !store.has_endpoint(&app.metadata.namespace, &ep_name) {
                        let endpoint = build_endpoint(&app);
                        store.endpoints.push(endpoint);
                        proof {
                            assert(store@.endpoints =~= s0.endpoints.push(spec_endpoint(a)));
                        }
                    }
                    let status = desired_status(&app);
                    let mut app2 = app;
                    app2.status = Some(status);
                    store.replace_app(idx, app2);
                    metrics.set_managed_resources("deployment", namespace, 1);
                    metrics.set_managed_resources("service", namespace, 1);
                    timer.success(metrics);
                    proof {
                        lemma_update_keeps_keys(s0.apps, store@.apps, idx as int);
                        if !spec_has_workload(s0, a.metadata.namespace, spec_workload_name(
                            a.metadata.name,
                        )) {
                            assert forall|k: int, l: int|
                                0 <= k < l < store@.workloads.len() implies !(
                            (#[trigger] store@.workloads[k]).namespace == (
                            #[trigger] store@.workloads[l]).namespace && store@.workloads[k].name
                                == store@.workloads[l].name) by {
                                if l == store@.workloads.len() - 1 {
                                    assert(store@.workloads[k] == s0.workloads[k]);
                                }
                            }
                        }
                        if !spec_has_endpoint(s0, a.metadata.namespace, spec_endpoint_name(
                            a.metadata.name,
                        )) {
                            assert forall|k: int, l: int|
                                0 <= k < l < store@.endpoints.len() implies !(
                            (#[trigger] store@.endpoints[k]).namespace == (
                            #[trigger] store@.endpoints[l]).namespace && store@.endpoints[k].name
                                == store@.endpoints[l].name) by {
                                if l == store@.endpoints.len() - 1 {
                                    assert(store@.endpoints[k] == s0.endpoints[k]);
                                }
                            }
                        }
                    }
                    Ok(Action::RequeueAfterSecs(RESYNC_SECS))
                },
            }
        },
    }
}

/// Law: after one successful reconcile pass over an object whose deletion
/// timestamp is unset, the stored object carries the controller's
/// finalizer token, and carries it once, not twice.
pub proof fn lemma_reconcile_adds_finalizer(
    s: StoreView,
    m: Seq<EventView>,
    namespace: Seq<char>,
    name: Seq<char>,
    s2: StoreView,
    m2: Seq<EventView>,
    r: Result<Action, ReconcileError>,
    i: int,
)
    requires
        spec_store_wf(s),
        spec_reconcile_post(s, m, namespace, name, s2, m2, r),
        r is Ok,
        0 <= i < s.apps.len(),
        spec_app_key_matches(s.apps[i], namespace, name),
        s.apps[i].metadata.deletion_timestamp is None,
    ensures
        spec_has_finalizer(s2.apps[i].metadata.finalizers),
        spec_token_count(s2.apps[i].metadata.finalizers) == 1,
{
    let a = s.apps[i];
    assert(spec_has_app(s, namespace, name));
    assert(spec_reconcile_app_post(s, m, i, s2, m2, r));
    if spec_has_finalizer(a.metadata.finalizers) {
        assert(spec_classify(a) == Phase::Active);
        if spec_valid(a.spec) {
            assert(s2.apps[i].metadata == a.metadata);
            lemma_token_count_one_of_member(a.metadata.finalizers);
        } else {
            assert(r matches Err(ReconcileError::ValidationError(msg)));
            assert(false);
        }
    } else {
        assert(spec_classify(a) == Phase::NeedsFinalizer);
        assert(s2.apps[i] == spec_app_with_finalizers(
            a,
            spec_add_finalizer(a.metadata.finalizers),
        ));
        lemma_add_finalizer_idempotent(a.metadata.finalizers);
    }
}

/// Law: after one successful reconcile pass over an object marked for
/// deletion and still carrying the controller's token, the token is gone
/// and no child resource bearing the object's owner reference remains in
/// the store.
pub proof fn lemma_reconcile_cleanup(
    s: StoreView,
    m: Seq<EventView>,
    namespace: Seq<char>,
    name: Seq<char>,
    s2: StoreView,
    m2: Seq<EventView>,
    r: Result<Action, ReconcileError>,
    i: int,
)
    requires
        spec_store_wf(s),
        spec_store_wf(s2),
        spec_reconcile_post(s, m, namespace, name, s2, m2, r),
        r is Ok,
        0 <= i < s.apps.len(),
        spec_app_key_matches(s.apps[i], namespace, name),
        s.apps[i].metadata.deletion_timestamp is Some,
        spec_has_finalizer(s.apps[i].metadata.finalizers),
    ensures
        !spec_has_finalizer(s2.apps[i].metadata.finalizers),
        forall|k: int|
            0 <= k < s2.workloads.len() ==> !((#[trigger] s2.workloads[k]).namespace
                == s.apps[i].metadata.namespace && s2.workloads[k].owner.name
                == s.apps[i].metadata.name),
        forall|k: int|
            0 <= k < s2.endpoints.len() ==> !((#[trigger] s2.endpoints[k]).namespace
                == s.apps[i].metadata.namespace && s2.endpoints[k].owner.name
                == s.apps[i].metadata.name),
{
    let a = s.apps[i];
    let ns = a.metadata.namespace;
    let nm = a.metadata.name;
    assert(spec_has_app(s, namespace, name));
    assert(spec_reconcile_app_post(s, m, i, s2, m2, r));
    assert(spec_classify(a) == Phase::Cleanup);
    let fins2 = s2.apps[i].metadata.finalizers;
    assert(fins2 == spec_remove_finalizer(a.metadata.finalizers));
    if spec_has_finalizer(fins2) {
        let k = choose|k: int| 0 <= k < fins2.len() && fins2[k] == spec_finalizer();
        a.metadata.finalizers.lemma_filter_pred(|f: Seq<char>| f != spec_finalizer(), k);
        assert(false);
    }
    assert forall|k: int| 0 <= k < s2.workloads.len() implies !(
    (#[trigger] s2.workloads[k]).namespace == ns && s2.workloads[k].owner.name == nm) by {
        s.workloads.lemma_filter_pred(spec_other_workloads(ns, spec_workload_name(nm)), k);
        assert(s2.workloads[k].name == spec_workload_name(s2.workloads[k].owner.name));
    }
    assert forall|k: int| 0 <= k < s2.endpoints.len() implies !(
    (#[trigger] s2.endpoints[k]).namespace == ns && s2.endpoints[k].owner.name == nm) by {
        s.endpoints.lemma_filter_pred(spec_other_endpoints(ns, spec_endpoint_name(nm)), k);
        assert(s2.endpoints[k].name == spec_endpoint_name(s2.endpoints[k].owner.name));
    }
}

/// Law: reconciling twice in a row over an object that did not change
/// between the passes creates nothing new: the second pass leaves the
/// children exactly as the first pass left them and adds no finalizer
/// entry. Create-if-absent tolerates what already exists.
pub proof fn lemma_reconcile_idempotent(
    s: StoreView,
    m: Seq<EventView>,
    namespace: Seq<char>,
    name: Seq<char>,
    s2: StoreView,
    m2: Seq<EventView>,
    r1: Result<Action, ReconcileError>,
    s3: StoreView,
    m3: Seq<EventView>,
    r2: Result<Action, ReconcileError>,
    i: int,
)
    requires
        spec_store_wf(s),
        spec_reconcile_post(s, m, namespace, name, s2, m2, r1),
        r1 is Ok,
        spec_reconcile_post(s2, m2, namespace, name, s3, m3, r2),
        r2 is Ok,
        0 <= i < s.apps.len(),
        spec_app_key_matches(s.apps[i], namespace, name),
        i < s2.apps.len(),
        s2.apps[i].metadata == s.apps[i].metadata,
        s2.apps[i].spec == s.apps[i].spec,
    ensures
        s3.workloads == s2.workloads,
        s3.endpoints == s2.endpoints,
        s3.apps[i].metadata.finalizers == s2.apps[i].metadata.finalizers,
{
    let a = s.apps[i];
    let ns = a.metadata.namespace;
    let nm = a.metadata.name;
    assert(spec_has_app(s, namespace, name));
    assert(spec_reconcile_app_post(s, m, i, s2, m2, r1));
    assert(spec_app_key_matches(s2.apps[i], namespace, name));
    assert(spec_has_app(s2, namespace, name));
    assert(spec_reconcile_app_post(s2, m2, i, s3, m3, r2));
    match spec_classify(a) {
        Phase::NeedsFinalizer => {
            assert(s2.apps[i] == spec_app_with_finalizers(
                a,
                spec_add_finalizer(a.metadata.finalizers),
            ));
            assert(s2.apps[i].metadata.finalizers.len() == a.metadata.finalizers.len() + 1);
            assert(false);
        },
        Phase::Cleanup => {
            let fins2 = s2.apps[i].metadata.finalizers;
            assert(fins2 == spec_remove_finalizer(a.metadata.finalizers));
            if spec_has_finalizer(fins2) {
                let k = choose|k: int| 0 <= k < fins2.len() && fins2[k] == spec_finalizer();
                a.metadata.finalizers.lemma_filter_pred(|f: Seq<char>| f != spec_finalizer(), k);
                assert(false);
            }
            assert(false);
        },
        Phase::Done => {
            assert(s2 == s);
            assert(spec_classify(s2.apps[i]) == Phase::Done);
            assert(s3 == s2);
        },
        Phase::Active => {
            if !spec_valid(a.spec) {
                assert(r1 matches Err(ReconcileError::ValidationError(msg)));
                assert(false);
            }
            assert(spec_classify(s2.apps[i]) == Phase::Active);
            assert(spec_valid(s2.apps[i].spec));
            assert(spec_has_workload(s2, ns, spec_workload_name(nm))) by {
                if spec_has_workload(s, ns, spec_workload_name(nm)) {
                    let k = choose|k: int|
                        0 <= k < s.workloads.len() && s.workloads[k].namespace == ns
                            && s.workloads[k].name == spec_workload_name(nm);
                    assert(s2.workloads[k] == s.workloads[k]);
                } else {
                    assert(s2.workloads == s.workloads.push(spec_workload(a)));
                    assert(s2.workloads[s.workloads.len() as int] == spec_workload(a));
                }
            }
            assert(spec_has_endpoint(s2, ns, spec_endpoint_name(nm))) by {
                if spec_has_endpoint(s, ns, spec_endpoint_name(nm)) {
                    let k = choose|k: int|
                        0 <= k < s.endpoints.len() && s.endpoints[k].namespace == ns
                            && s.endpoints[k].name == spec_endpoint_name(nm);
                    assert(s2.endpoints[k] == s.endpoints[k]);
                } else {
                    assert(s2.endpoints == s.endpoints.push(spec_endpoint(a)));
                    assert(s2.endpoints[s.endpoints.len() as int] == spec_endpoint(a));
                }
            }
            assert(s3.apps[i].metadata == s2.apps[i].metadata);
        },
    }
}

} // verus!
