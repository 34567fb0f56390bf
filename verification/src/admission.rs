use crate::kv::{spec_set_key, spec_value_of};
use crate::resource::{
    spec_image_present, spec_replicas_in_range, spec_valid, AppView, MetaView, MyApp,
    ResourceRequirements, ResourcesView, SpecView,
};
use vstd::prelude::*;
use vstd::string::{StrSliceExecFns, StringExecFns};

verus! {

/// The admission verdict for one object write.
pub enum Verdict {
    /// The write may proceed.
    Allowed,
    /// The write is rejected for the given reason.
    Denied { reason: String },
}

/// Whether position `j` starts the tag component of an image reference:
/// the last colon of the reference.
pub open spec fn spec_tag_start(image: Seq<char>, j: int) -> bool {
    &&& 0 <= j < image.len()
    &&& image[j] == ':'
    &&& forall|k: int| j < k < image.len() ==> image[k] != ':'
}

/// Whether the image reference's tag component is the literal `latest`.
pub open spec fn spec_latest_tag(image: Seq<char>) -> bool {
    exists|j: int| spec_tag_start(image, j) && image.subrange(j + 1, image.len() as int)
        == "latest"@
}

/// A spec passes admission when it is valid and its image tag is not the
/// mutable `latest`.
pub open spec fn spec_admissible(s: SpecView) -> bool {
    spec_valid(s) && !spec_latest_tag(s.image)
}

/// Decides whether the image reference's tag component equals `latest`.
pub fn image_tag_is_latest(image: &String) -> (res: bool)
    ensures
        res == spec_latest_tag(image@),
{
    let s = image.as_str();
    let n = s.unicode_len();
    let mut last: Option<usize> = None;
    let mut i: usize = 0;
    while i < n
        invariant
            0 <= i <= n,
            n == s@.len(),
            s@ == image@,
            match last {
                None => forall|k: int| 0 <= k < i ==> s@[k] != ':',
                Some(j) => 0 <= j < i && s@[j as int] == ':' && forall|k: int|
                    j < k < i ==> s@[k] != ':',
            },
        decreases n - i,
    {
        if s.get_char(i) == ':' {
            last = Some(i);
        }
        i = i + 1;
    }
    match last {
        None => {
            proof {
                assert(forall|j: int| !spec_tag_start(image@, j));
            }
            false
        },
        Some(j) => {
            let tag = s.substring_char(j + 1, n);
            let res = tag.to_owned() == "latest".to_owned();
            proof {
                assert(spec_tag_start(image@, j as int));
                if res {
                    assert(spec_latest_tag(image@));
                } else {
                    if spec_latest_tag(image@) {
                        let j2 = choose|j2: int|
                            spec_tag_start(image@, j2) && image@.subrange(
                                j2 + 1,
                                image@.len() as int,
                            ) == "latest"@;
                        assert(j2 == j as int);
                    }
                }
            }
            res
        },
    }
}

/// Validates an object for admission: accepts exactly the objects whose
/// spec is valid and whose image tag is immutable, and names the first
/// violated rule otherwise.
pub fn validate_object(myapp: &MyApp) -> (res: Verdict)
    ensures
        (res matches Verdict::Allowed) <==> spec_admissible(myapp@.spec),
        !spec_replicas_in_range(myapp@.spec) ==> (res matches Verdict::Denied { reason } && reason@
            == "replicas must be between 1 and 100"@),
        spec_replicas_in_range(myapp@.spec) && !spec_image_present(myapp@.spec) ==> (res matches
            Verdict::Denied { reason } && reason@ == "image cannot be empty"@),
        spec_valid(myapp@.spec) && spec_latest_tag(myapp@.spec.image) ==> (res matches
            Verdict::Denied { reason } && reason@ == "Image tag 'latest' is not allowed"@),
{
    match myapp.validate() {
        Err(reason) => Verdict::Denied { reason },
        Ok(()) => {
            if image_tag_is_latest(&myapp.spec.image) {
                Verdict::Denied { reason: "Image tag 'latest' is not allowed".to_owned() }
            } else {
                Verdict::Allowed
            }
        },
    }
}

/// Validates the object carried by an admission review, denying reviews
/// that carry no object at all.
pub fn validate_review(obj: Option<&MyApp>) -> (res: Verdict)
    ensures
        obj is None ==> (res matches Verdict::Denied { reason } && reason@
            == "No object in request"@),
        obj matches Some(o) ==> ((res matches Verdict::Allowed) <==> spec_admissible(o@.spec)),
{
    match obj {
        None => Verdict::Denied { reason: "No object in request".to_owned() },
        Some(o) => validate_object(o),
    }
}

/// One admission mutation, a RFC 6902 `add` operation on the object.
#[derive(Debug)]
pub enum PatchOp {
    /// Add or replace one label on the object's metadata.
    AddLabel { key: String, value: String },
    /// Add the spec's resource requirements.
    AddResources { resources: ResourceRequirements },
}

/// The mathematical content of a `PatchOp`.
pub ghost enum PatchOpView {
    AddLabel { key: Seq<char>, value: Seq<char> },
    AddResources { resources: ResourcesView },
}

impl View for PatchOp {
    type V = PatchOpView;

    open spec fn view(&self) -> PatchOpView {
        match self {
            PatchOp::AddLabel { key, value } => PatchOpView::AddLabel {
                key: key@,
                value: value@,
            },
            PatchOp::AddResources { resources } => PatchOpView::AddResources {
                resources: resources@,
            },
        }
    }
}

/// The views of a list of patch operations, in order.
pub open spec fn patch_view(ops: Seq<PatchOp>) -> Seq<PatchOpView> {
    ops.map_values(|op: PatchOp| op@)
}

/// A character escaped for use inside a JSON pointer segment: `/` becomes
/// `~1`, everything else stands as itself.
pub open spec fn spec_escape_char(c: char) -> Seq<char> {
    if c == '/' {
        "~1"@
    } else {
        seq![c]
    }
}

/// A whole key escaped for use as one JSON pointer segment.
pub open spec fn spec_escape_pointer(s: Seq<char>) -> Seq<char>
    decreases s.len(),
{
    if s.len() == 0 {
        Seq::empty()
    } else {
        spec_escape_char(s[0]) + spec_escape_pointer(s.drop_first())
    }
}

/// Escaping processes a trailing character independently of the prefix.
proof fn lemma_escape_push(s: Seq<char>, c: char)
    ensures
        spec_escape_pointer(s.push(c)) == spec_escape_pointer(s) + spec_escape_char(c),
    decreases s.len(),
{
    if s.len() == 0 {
        assert(s.push(c).drop_first() =~= s);
        assert(s.push(c)[0] == c);
        assert(spec_escape_char(c) + spec_escape_pointer(s) =~= spec_escape_pointer(s)
            + spec_escape_char(c));
    } else {
        lemma_escape_push(s.drop_first(), c);
        assert(s.push(c).drop_first() =~= s.drop_first().push(c));
        assert(spec_escape_char(s[0]) + (spec_escape_pointer(s.drop_first())
            + spec_escape_char(c)) =~= (spec_escape_char(s[0]) + spec_escape_pointer(
            s.drop_first(),
        )) + spec_escape_char(c));
    }
}

/// Escapes a label key for use as one JSON pointer segment.
pub fn escape_pointer_key(key: &str) -> (res: String)
    ensures
        res@ == spec_escape_pointer(key@),
{
    let n = key.unicode_len();
    let mut acc = String::new();
    proof {
        assert(key@.subrange(0, 0) =~= Seq::<char>::empty());
    }
    let mut i: usize = 0;
    while i < n
        invariant
            0 <= i <= n,
            n == key@.len(),
            acc@ == spec_escape_pointer(key@.subrange(0, i as int)),
        decreases n - i,
    {
        let c = key.get_char(i);
        if c == '/' {
            acc.append("~1");
        } else {
            let piece = key.substring_char(i, i + 1);
            proof {
                assert(piece@ =~= spec_escape_char(c));
            }
            acc.append(piece);
        }
        proof {
            assert(key@.subrange(0, i as int).push(c) =~= key@.subrange(0, i + 1));
            lemma_escape_push(key@.subrange(0, i as int), c);
        }
        i = i + 1;
    }
    proof {
        assert(key@.subrange(0, n as int) =~= key@);
    }
    acc
}

/// The JSON pointer a patch operation targets.
pub open spec fn spec_pointer(op: PatchOpView) -> Seq<char> {
    match op {
        PatchOpView::AddLabel { key, value } => "/metadata/labels/"@ + spec_escape_pointer(key),
        PatchOpView::AddResources { resources } => "/spec/resources"@,
    }
}

impl PatchOp {
    /// The RFC 6902 pointer this operation targets; `~1` escapes any `/`
    /// inside a label key.
    pub fn pointer(&self) -> (res: String)
        ensures
            res@ == spec_pointer(self@),
    {
        match self {
            PatchOp::AddLabel { key, value } => {
                let _ = value;
                let escaped = escape_pointer_key(key.as_str());
                "/metadata/labels/".to_owned().concat(escaped.as_str())
            },
            PatchOp::AddResources { resources } => {
                let _ = resources;
                "/spec/resources".to_owned()
            },
        }
    }
}

/// The label key the controller force-sets on every object it manages.
pub open spec fn spec_managed_by_key() -> Seq<char> {
    "app.kubernetes.io/managed-by"@
}

/// The identity recorded under the managed-by label.
pub open spec fn spec_manager() -> Seq<char> {
    "myapp-controller"@
}

/// The resource requirements filled in when a spec names none.
pub open spec fn spec_default_resources() -> ResourcesView {
    ResourcesView { cpu: "100m"@, memory: "128Mi"@ }
}

/// The mutation patch an object is owed: the managed-by label always, and
/// the default resource requirements when the spec names none.
pub open spec fn spec_mutate_patch(a: AppView) -> Seq<PatchOpView> {
    let label_op = PatchOpView::AddLabel { key: spec_managed_by_key(), value: spec_manager() };
    if a.spec.resources is None {
        seq![
            label_op,
            PatchOpView::AddResources { resources: spec_default_resources() },
        ]
    } else {
        seq![label_op]
    }
}

/// Builds the mutation patch for an object.
pub fn mutate_patch(myapp: &MyApp) -> (res: Vec<PatchOp>)
    ensures
        patch_view(res@) == spec_mutate_patch(myapp@),
{
    let mut ops: Vec<PatchOp> = Vec::new();
    ops.push(
        PatchOp::AddLabel {
            key: "app.kubernetes.io/managed-by".to_owned(),
            value: "myapp-controller".to_owned(),
        },
    );
    if myapp.spec.resources.is_none() {
        ops.push(
            PatchOp::AddResources {
                resources: ResourceRequirements {
                    cpu: "100m".to_owned(),
                    memory: "128Mi".to_owned(),
                },
            },
        );
    }
    proof {
        assert(patch_view(ops@) =~= spec_mutate_patch(myapp@));
    }
    ops
}

/// Builds the mutation patch for the object carried by an admission
/// review, rejecting reviews that carry no object at all.
pub fn mutate_review(obj: Option<&MyApp>) -> (res: Result<Vec<PatchOp>, String>)
    ensures
        obj is None ==> (res matches Err(reason) && reason@ == "No object in request"@),
        obj matches Some(o) ==> (res matches Ok(ops) && patch_view(ops@) == spec_mutate_patch(
            o@,
        )),
{
    match obj {
        None => Err("No object in request".to_owned()),
        Some(o) => Ok(mutate_patch(o)),
    }
}

/// One patch operation applied to an object: labels gain or replace the
/// addressed entry, resources are set.
pub open spec fn spec_apply_op(a: AppView, op: PatchOpView) -> AppView {
    match op {
        PatchOpView::AddLabel { key, value } => AppView {
            metadata: MetaView {
                labels: spec_set_key(a.metadata.labels, key, value),
                ..a.metadata
            },
            ..a
        },
        PatchOpView::AddResources { resources } => AppView {
            spec: SpecView { resources: Some(resources), ..a.spec },
            ..a
        },
    }
}

/// A whole patch applied to an object, first operation first.
pub open spec fn spec_apply_patch(a: AppView, ops: Seq<PatchOpView>) -> AppView
    decreases ops.len(),
{
    if ops.len() == 0 {
        a
    } else {
        spec_apply_patch(spec_apply_op(a, ops[0]), ops.drop_first())
    }
}

/// Applying a patch processes a trailing operation last.
proof fn lemma_apply_push(a: AppView, ops: Seq<PatchOpView>, op: PatchOpView)
    ensures
        spec_apply_patch(a, ops.push(op)) == spec_apply_op(spec_apply_patch(a, ops), op),
    decreases ops.len(),
{
    assert(spec_apply_patch(a, ops.push(op)) == spec_apply_patch(
        spec_apply_op(a, ops.push(op)[0]),
        ops.push(op).drop_first(),
    ));
    if ops.len() == 0 {
        assert(ops.push(op)[0] == op);
        assert(ops.push(op).drop_first() =~= ops);
        assert(spec_apply_patch(spec_apply_op(a, op), ops) == spec_apply_op(a, op));
        assert(spec_apply_patch(a, ops) == a);
    } else {
        lemma_apply_push(spec_apply_op(a, ops[0]), ops.drop_first(), op);
        assert(ops.push(op)[0] == ops[0]);
        assert(ops.push(op).drop_first() =~= ops.drop_first().push(op));
        assert(spec_apply_patch(a, ops) == spec_apply_patch(
            spec_apply_op(a, ops[0]),
            ops.drop_first(),
        ));
    }
}

/// Applies a patch to an object, returning the mutated object.
pub fn apply_patch(myapp: &MyApp, ops: &Vec<PatchOp>) -> (res: MyApp)
    ensures
        res@ == spec_apply_patch(myapp@, patch_view(ops@)),
{
    let ghost opsv = patch_view(ops@);
    let mut out = myapp.clone();
    proof {
        assert(opsv.take(0) =~= Seq::<PatchOpView>::empty());
    }
    let mut i: usize = 0;
    while i < ops.len()
        invariant
            0 <= i <= ops.len(),
            opsv == patch_view(ops@),
            out@ == spec_apply_patch(myapp@, opsv.take(i as int)),
        decreases ops.len() - i,
    {
        match &ops[i] {
            PatchOp::AddLabel { key, value } => {
                crate::kv::set_key(&mut out.metadata.labels, key, value);
            },
            PatchOp::AddResources { resources } => {
                out.spec.resources = Some(resources.clone());
            },
        }
        proof {
            assert(opsv.take(i as int).push(opsv[i as int]) =~= opsv.take(i + 1));
            lemma_apply_push(myapp@, opsv.take(i as int), opsv[i as int]);
        }
        i = i + 1;
    }
    proof {
        assert(opsv.take(ops@.len() as int) =~= opsv);
    }
    out
}

/// The object after the full admission mutation.
pub open spec fn spec_mutated(a: AppView) -> AppView {
    spec_apply_patch(a, spec_mutate_patch(a))
}

/// Law: the admission mutation is additive. It never removes or rewrites
/// anything the user set: the whole spec except an absent resource field
/// is kept, the status is kept, every metadata field except the labels is
/// kept, and among the labels only the managed-by entry is touched.
pub proof fn lemma_mutate_additive(a: AppView)
    ensures
        spec_mutated(a).spec.replicas == a.spec.replicas,
        spec_mutated(a).spec.image == a.spec.image,
        spec_mutated(a).spec.env_vars == a.spec.env_vars,
        spec_mutated(a).spec.scheduling == a.spec.scheduling,
        a.spec.resources is Some ==> spec_mutated(a).spec.resources == a.spec.resources,
        a.spec.resources is None ==> spec_mutated(a).spec.resources == Some(
            spec_default_resources(),
        ),
        spec_mutated(a).status == a.status,
        spec_mutated(a).metadata.name == a.metadata.name,
        spec_mutated(a).metadata.namespace == a.metadata.namespace,
        spec_mutated(a).metadata.uid == a.metadata.uid,
        spec_mutated(a).metadata.generation == a.metadata.generation,
        spec_mutated(a).metadata.resource_version == a.metadata.resource_version,
        spec_mutated(a).metadata.deletion_timestamp == a.metadata.deletion_timestamp,
        spec_mutated(a).metadata.finalizers == a.metadata.finalizers,
        spec_value_of(spec_mutated(a).metadata.labels, spec_managed_by_key()) == Some(
            spec_manager(),
        ),
        forall|k: Seq<char>| k != spec_managed_by_key() ==> spec_value_of(
            spec_mutated(a).metadata.labels,
            k,
        ) == spec_value_of(a.metadata.labels, k),
{
    let ops = spec_mutate_patch(a);
    let label_op = (PatchOpView::AddLabel { key: spec_managed_by_key(), value: spec_manager() });
    let labeled = spec_apply_op(a, label_op);
    if a.spec.resources is None {
        assert(ops[0] == label_op);
        assert(spec_apply_patch(a, ops) == spec_apply_patch(labeled, ops.drop_first()));
        assert(ops.drop_first() =~= seq![ops[1]]);
        assert(spec_apply_patch(labeled, seq![ops[1]]) == spec_apply_patch(
            spec_apply_op(labeled, ops[1]),
            seq![ops[1]].drop_first(),
        ));
        assert(seq![ops[1]].drop_first() =~= Seq::<PatchOpView>::empty());
        assert(spec_mutated(a) == spec_apply_op(labeled, ops[1]));
    } else {
        assert(ops[0] == label_op);
        assert(spec_apply_patch(a, ops) == spec_apply_patch(labeled, ops.drop_first()));
        assert(ops.drop_first() =~= Seq::<PatchOpView>::empty());
        assert(spec_mutated(a) == labeled);
    }
    crate::kv::lemma_set_then_get(a.metadata.labels, spec_managed_by_key(), spec_manager());
    assert forall|k: Seq<char>| k != spec_managed_by_key() implies spec_value_of(
        spec_mutated(a).metadata.labels,
        k,
    ) == spec_value_of(a.metadata.labels, k) by {
        crate::kv::lemma_set_preserves_other_keys(
            a.metadata.labels,
            spec_managed_by_key(),
            spec_manager(),
            k,
        );
    }
}

/// Law: the admission mutation is idempotent. Mutating an already mutated
/// object leaves it exactly as it was: the managed-by label and the
/// resource requirements are already in place.
pub proof fn lemma_mutate_idempotent(a: AppView)
    ensures
        spec_mutated(spec_mutated(a)) == spec_mutated(a),
{
    let b = spec_mutated(a);
    let label_op = (PatchOpView::AddLabel { key: spec_managed_by_key(), value: spec_manager() });
    let ops_a = spec_mutate_patch(a);
    let labeled = spec_apply_op(a, label_op);
    if a.spec.resources is None {
        assert(ops_a[0] == label_op);
        assert(spec_apply_patch(a, ops_a) == spec_apply_patch(labeled, ops_a.drop_first()));
        assert(ops_a.drop_first() =~= seq![ops_a[1]]);
        assert(spec_apply_patch(labeled, seq![ops_a[1]]) == spec_apply_patch(
            spec_apply_op(labeled, ops_a[1]),
            seq![ops_a[1]].drop_first(),
        ));
        assert(seq![ops_a[1]].drop_first() =~= Seq::<PatchOpView>::empty());
        assert(b == spec_apply_op(labeled, ops_a[1]));
    } else {
        assert(ops_a[0] == label_op);
        assert(spec_apply_patch(a, ops_a) == spec_apply_patch(labeled, ops_a.drop_first()));
        assert(ops_a.drop_first() =~= Seq::<PatchOpView>::empty());
        assert(b == labeled);
    }
    assert(b.spec.resources is Some);
    assert(b.metadata.labels == spec_set_key(
        a.metadata.labels,
        spec_managed_by_key(),
        spec_manager(),
    ));
    let ops_b = spec_mutate_patch(b);
    assert(ops_b[0] == label_op);
    assert(spec_apply_patch(b, ops_b) == spec_apply_patch(
        spec_apply_op(b, label_op),
        ops_b.drop_first(),
    ));
    assert(ops_b.drop_first() =~= Seq::<PatchOpView>::empty());
    assert(spec_mutated(b) == spec_apply_op(b, label_op));
    crate::kv::lemma_set_key_idempotent(a.metadata.labels, spec_managed_by_key(), spec_manager());
    assert(spec_apply_op(b, label_op) == b);
}

} // verus!
