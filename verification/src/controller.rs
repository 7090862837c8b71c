//! The controller: what it creates for a bootstrap, in which order, and what it does when something
//! goes wrong.

use crate::crd::{RoleBindingView, UserBootstrap, UserBootstrapView};
use crate::k8s::{
    Metadata, MetadataView, Namespace, NamespaceView, OwnerReference, OwnerReferenceView,
    PatchParams, PatchParamsView, ResourceQuota, ResourceQuotaSpecView, ResourceQuotaView, Role,
    RoleView,
};
use crate::queue::{
    advance, issued, left_after, next_step, runs_stop_at_the_first_failure, Step,
};
use crate::text::lowercase;
use vstd::prelude::*;
use vstd::string::StringExecFns;

verus! {

/// The name under which the controller owns the fields that it sets.
pub const PATCH_MANAGER: &'static str = "bacchus-gpu-controller.bacchus.io";

/// Seconds until a bootstrap is reconciled again.
pub const REQUEUE_SECS: u64 = 30;

/// Seconds until a bootstrap is tried again after an error.
pub const RETRY_SECS: u64 = 3;

/// Why a bootstrap could not be reconciled.
#[derive(Debug, PartialEq)]
pub enum ControllerError {
    MissingObjectKey(String),
    PatchFailed(String),
}

/// What a `ControllerError` says.
pub enum ControllerErrorView {
    MissingObjectKey(Seq<char>),
    PatchFailed(Seq<char>),
}

impl DeepView for ControllerError {
    type V = ControllerErrorView;

    open spec fn deep_view(&self) -> ControllerErrorView {
        match self {
            ControllerError::MissingObjectKey(key) => ControllerErrorView::MissingObjectKey(key@),
            ControllerError::PatchFailed(cause) => ControllerErrorView::PatchFailed(cause@),
        }
    }
}

impl ControllerErrorView {
    /// The message that is shown for this error.
    pub open spec fn message(self) -> Seq<char> {
        match self {
            ControllerErrorView::MissingObjectKey(key) => "missing object key: "@ + key,
            ControllerErrorView::PatchFailed(cause) => "patch failed: "@ + cause,
        }
    }
}

impl ControllerError {
    /// The message that is shown for this error.
    pub fn message(&self) -> (text: String)
        ensures
            text@ == self.deep_view().message(),
    {
        match self {
            ControllerError::MissingObjectKey(key) => "missing object key: ".to_owned().concat(
                key.as_str(),
            ),
            ControllerError::PatchFailed(cause) => "patch failed: ".to_owned().concat(
                cause.as_str(),
            ),
        }
    }
}

/// Why the controller's process failed.
#[derive(Debug, PartialEq)]
pub enum Error {
    HttpServerError(String),
    SignalHandlerError,
}

impl Error {
    /// The message that is shown for this error.
    pub fn message(&self) -> (text: String)
        ensures
            text@ == match self {
                Error::HttpServerError(cause) => "http server error: "@ + cause@,
                Error::SignalHandlerError => "signal handling error"@,
            },
    {
        match self {
            Error::HttpServerError(cause) => "http server error: ".to_owned().concat(
                cause.as_str(),
            ),
            Error::SignalHandlerError => "signal handling error".to_owned(),
        }
    }
}

/// What a task came to, once it was joined. Joining has to have succeeded.
pub fn flatten_error<T>(joined: Result<Result<T, Error>, String>) -> (result: Result<T, Error>)
    requires
        joined is Ok,
    ensures
        joined == Ok::<Result<T, Error>, String>(result),
{
    match joined {
        Ok(Ok(value)) => Ok(value),
        Ok(Err(error)) => Err(error),
        Err(_) => vstd::pervasive::unreached(),
    }
}

/// An object that the controller applies.
#[derive(Debug, PartialEq)]
pub enum ClusterObject {
    Namespace(Namespace),
    ResourceQuota(ResourceQuota),
    Role(Role),
    RoleBinding(crate::k8s::RoleBinding),
}

/// What a `ClusterObject` says.
#[verifier::ext_equal]
pub enum ClusterObjectView {
    Namespace(NamespaceView),
    ResourceQuota(ResourceQuotaView),
    Role(RoleView),
    RoleBinding(crate::k8s::RoleBindingView),
}

impl DeepView for ClusterObject {
    type V = ClusterObjectView;

    open spec fn deep_view(&self) -> ClusterObjectView {
        match self {
            ClusterObject::Namespace(object) => ClusterObjectView::Namespace(object.deep_view()),
            ClusterObject::ResourceQuota(object) => ClusterObjectView::ResourceQuota(
                object.deep_view(),
            ),
            ClusterObject::Role(object) => ClusterObjectView::Role(object.deep_view()),
            ClusterObject::RoleBinding(object) => ClusterObjectView::RoleBinding(
                object.deep_view(),
            ),
        }
    }
}

impl ClusterObjectView {
    /// The object's metadata.
    pub open spec fn metadata(self) -> MetadataView {
        match self {
            ClusterObjectView::Namespace(object) => object.metadata,
            ClusterObjectView::ResourceQuota(object) => object.metadata,
            ClusterObjectView::Role(object) => object.metadata,
            ClusterObjectView::RoleBinding(object) => object.metadata,
        }
    }
}

/// A server-side apply that is to be sent.
#[derive(Debug, PartialEq)]
pub struct Apply {
    /// The namespace that the object lives in; `None` for an object of the whole cluster.
    pub namespace: Option<String>,
    pub name: String,
    pub params: PatchParams,
    pub object: ClusterObject,
}

/// What an `Apply` says.
#[verifier::ext_equal]
pub struct ApplyView {
    pub namespace: Option<Seq<char>>,
    pub name: Seq<char>,
    pub params: PatchParamsView,
    pub object: ClusterObjectView,
}

impl DeepView for Apply {
    type V = ApplyView;

    open spec fn deep_view(&self) -> ApplyView {
        ApplyView {
            namespace: self.namespace.deep_view(),
            name: self.name@,
            params: self.params.deep_view(),
            object: self.object.deep_view(),
        }
    }
}

/// The controller sets its fields by force.
pub open spec fn forced() -> PatchParamsView {
    PatchParamsView { field_manager: Some(PATCH_MANAGER@), force: true }
}

/// Metadata of an object with the given name and owner, and nothing else.
pub open spec fn owned_metadata(name: Seq<char>, owner: OwnerReferenceView) -> MetadataView {
    MetadataView {
        name: Some(name),
        namespace: None,
        uid: None,
        owner_references: Some(seq![owner]),
        rest: None,
    }
}

/// The apply of the user's namespace.
pub open spec fn namespace_apply(name: Seq<char>, owner: OwnerReferenceView) -> ApplyView {
    ApplyView {
        namespace: None,
        name,
        params: forced(),
        object: ClusterObjectView::Namespace(
            NamespaceView { metadata: owned_metadata(name, owner) },
        ),
    }
}

/// The apply of an object in the user's namespace.
pub open spec fn inner_apply(name: Seq<char>, object: ClusterObjectView) -> ApplyView {
    ApplyView { namespace: Some(name), name, params: forced(), object }
}

/// The apply of the quota, where there is one.
pub open spec fn quota_applies(
    name: Seq<char>,
    owner: OwnerReferenceView,
    quota: Option<ResourceQuotaSpecView>,
) -> Seq<ApplyView> {
    match quota {
        Some(quota) => seq![
            inner_apply(
                name,
                ClusterObjectView::ResourceQuota(
                    ResourceQuotaView { metadata: owned_metadata(name, owner), spec: Some(quota) },
                ),
            ),
        ],
        None => Seq::empty(),
    }
}

/// The apply of the role, where there is one: it keeps its own metadata but for its owner.
pub open spec fn role_applies(
    name: Seq<char>,
    owner: OwnerReferenceView,
    role: Option<RoleView>,
) -> Seq<ApplyView> {
    match role {
        Some(role) => seq![
            inner_apply(
                name,
                ClusterObjectView::Role(
                    RoleView {
                        metadata: MetadataView {
                            owner_references: Some(seq![owner]),
                            ..role.metadata
                        },
                        ..role
                    },
                ),
            ),
        ],
        None => Seq::empty(),
    }
}

/// The apply of the role binding, where there is one and the bootstrap is known to stand in the
/// request sheet.
pub open spec fn binding_applies(
    name: Seq<char>,
    owner: OwnerReferenceView,
    binding: Option<RoleBindingView>,
    synchronized: bool,
) -> Seq<ApplyView> {
    match binding {
        Some(binding) if synchronized => seq![
            inner_apply(
                name,
                ClusterObjectView::RoleBinding(
                    crate::k8s::RoleBindingView {
                        metadata: owned_metadata(name, owner),
                        role_ref: binding.role_ref,
                        subjects: binding.subjects,
                    },
                ),
            ),
        ],
        _ => Seq::empty(),
    }
}

/// Whether a bootstrap is known to stand in the request sheet.
pub open spec fn is_synchronized(bootstrap: UserBootstrapView) -> bool {
    bootstrap.status matches Some(status) && status.synchronized_with_sheet
}

/// What is applied for a bootstrap under the given name: the namespace of that name, and in it the
/// quota, the role and the role binding.
pub open spec fn planned_under(
    name: Seq<char>,
    bootstrap: UserBootstrapView,
    owner: OwnerReferenceView,
) -> Seq<ApplyView> {
    seq![namespace_apply(name, owner)] + quota_applies(name, owner, bootstrap.spec.quota)
        + role_applies(name, owner, bootstrap.spec.role) + binding_applies(
        name,
        owner,
        bootstrap.spec.rolebinding,
        is_synchronized(bootstrap),
    )
}

/// What is applied for a bootstrap, under its lowercase name.
pub open spec fn planned(bootstrap: UserBootstrapView, owner: OwnerReferenceView) -> Result<
    Seq<ApplyView>,
    ControllerErrorView,
> {
    match bootstrap.metadata.name {
        None => Err(ControllerErrorView::MissingObjectKey(".metadata.name"@)),
        Some(name) => Ok(planned_under(lowercase(name), bootstrap, owner)),
    }
}

/// What planning came to.
pub open spec fn plan_made(result: Result<Vec<Apply>, ControllerError>) -> Result<
    Seq<ApplyView>,
    ControllerErrorView,
> {
    match result {
        Ok(applies) => Ok(applies.deep_view()),
        Err(error) => Err(error.deep_view()),
    }
}

/// The parameters of every apply.
fn forced_params() -> (params: PatchParams)
    ensures
        params.deep_view() == forced(),
{
    PatchParams { field_manager: Some(PATCH_MANAGER.to_owned()), force: true }
}

/// A list of one owner.
fn sole_owner(owner: &OwnerReference) -> (owners: Vec<OwnerReference>)
    ensures
        owners.deep_view() == seq![owner.deep_view()],
{
    let owners = vec![owner.clone()];
    assert(owners.deep_view() =~= seq![owner.deep_view()]);
    owners
}

/// Metadata of an object with the given name and owner, and nothing else.
fn make_metadata(name: &String, owner: &OwnerReference) -> (metadata: Metadata)
    ensures
        metadata.deep_view() == owned_metadata(name@, owner.deep_view()),
{
    Metadata {
        name: Some(name.clone()),
        namespace: None,
        uid: None,
        owner_references: Some(sole_owner(owner)),
        rest: None,
    }
}

/// Adds the apply of an object in the user's namespace.
fn apply_inside(applies: &mut Vec<Apply>, name: &String, object: ClusterObject)
    ensures
        final(applies).deep_view() == old(applies).deep_view() + seq![
            inner_apply(name@, object.deep_view()),
        ],
{
    let ghost view = inner_apply(name@, object.deep_view());
    applies.push(
        Apply {
            namespace: Some(name.clone()),
            name: name.clone(),
            params: forced_params(),
            object,
        },
    );
    assert(applies.deep_view() =~= old(applies).deep_view() + seq![view]);
}

/// Plans what is applied for a bootstrap under the given name.
pub fn plan_under(name: String, bootstrap: UserBootstrap, owner: &OwnerReference) -> (applies: Vec<
    Apply,
>)
    ensures
        applies.deep_view() == planned_under(name@, bootstrap.deep_view(), owner.deep_view()),
{
    let synchronized = match &bootstrap.status {
        Some(status) => status.synchronized_with_sheet,
        None => false,
    };
    let ghost view = bootstrap.deep_view();
    let ghost mut expected = seq![namespace_apply(name@, owner.deep_view())];
    let mut applies = vec![
        Apply {
            namespace: None,
            name: name.clone(),
            params: forced_params(),
            object: ClusterObject::Namespace(Namespace { metadata: make_metadata(&name, owner) }),
        },
    ];
    assert(applies.deep_view() =~= expected);
    match bootstrap.spec.quota {
        Some(quota) => apply_inside(
            &mut applies,
            &name,
            ClusterObject::ResourceQuota(
                ResourceQuota { metadata: make_metadata(&name, owner), spec: Some(quota) },
            ),
        ),
        None => {},
    }
    proof {
        expected = expected + quota_applies(name@, owner.deep_view(), view.spec.quota);
        assert(applies.deep_view() =~= expected);
    }
    match bootstrap.spec.role {
        Some(role) => {
            let metadata = Metadata {
                name: role.metadata.name,
                namespace: role.metadata.namespace,
                uid: role.metadata.uid,
                owner_references: Some(sole_owner(owner)),
                rest: role.metadata.rest,
            };
            apply_inside(
                &mut applies,
                &name,
                ClusterObject::Role(Role { metadata, rules: role.rules }),
            );
        },
        None => {},
    }
    proof {
        expected = expected + role_applies(name@, owner.deep_view(), view.spec.role);
        assert(applies.deep_view() =~= expected);
    }
    match bootstrap.spec.rolebinding {
        Some(binding) if synchronized => {
            apply_inside(
                &mut applies,
                &name,
                ClusterObject::RoleBinding(
                    crate::k8s::RoleBinding {
                        metadata: make_metadata(&name, owner),
                        role_ref: binding.role_ref,
                        subjects: binding.subjects,
                    },
                ),
            );
        },
        _ => {},
    }
    proof {
        expected = expected + binding_applies(
            name@,
            owner.deep_view(),
            view.spec.rolebinding,
            is_synchronized(view),
        );
        assert(applies.deep_view() =~= expected);
    }
    applies
}

/// Plans what is applied for a bootstrap, given the reference that marks it as the owner.
pub fn plan(bootstrap: UserBootstrap, owner: &OwnerReference) -> (applies: Result<
    Vec<Apply>,
    ControllerError,
>)
    ensures
        plan_made(applies) == planned(bootstrap.deep_view(), owner.deep_view()),
{
    let name = match &bootstrap.metadata.name {
        Some(name) => name.to_lowercase(),
        None => {
            return Err(ControllerError::MissingObjectKey(".metadata.name".to_owned()));
        },
    };
    Ok(plan_under(name, bootstrap, owner))
}

/// Plans what is applied for a bootstrap, which has to have a name and a uid.
pub fn reconcile(bootstrap: UserBootstrap) -> (applies: Result<Vec<Apply>, ControllerError>)
    requires
        bootstrap.deep_view().controller_owner_ref() is Some,
    ensures
        applies is Ok,
        plan_made(applies) == planned(
            bootstrap.deep_view(),
            bootstrap.deep_view().controller_owner_ref()->0,
        ),
{
    let owner = bootstrap.controller_owner_ref().unwrap();
    plan(bootstrap, &owner)
}

/// What happens to a bootstrap next.
#[derive(Clone, Copy, Debug, PartialEq, Eq, Structural)]
pub enum Action {
    /// It is reconciled again after this many seconds.
    Requeue(u64),
}

/// What a reconciliation does next.
#[derive(Debug, PartialEq)]
pub enum ReconcileStep {
    /// Send this apply, and come back with its outcome.
    Apply(Apply),
    /// The reconciliation is over.
    Finish(Action),
    /// Give up.
    Fail(ControllerError),
}

/// The next step of a reconciliation, given what is still to be applied and the outcome of the last
/// apply.
pub open spec fn reconcile_step(pending: Seq<Apply>, outcome: Result<(), String>) -> ReconcileStep {
    match next_step(pending, outcome) {
        Step::Issue(apply) => ReconcileStep::Apply(apply),
        Step::Done => ReconcileStep::Finish(Action::Requeue(30)),
        Step::Failed(cause) => ReconcileStep::Fail(ControllerError::PatchFailed(cause)),
    }
}

/// Takes the next step of a reconciliation, given what is still to be applied and the outcome of
/// the last apply.
pub fn advance_reconcile(pending: &mut Vec<Apply>, outcome: Result<(), String>) -> (step:
    ReconcileStep)
    ensures
        final(pending)@ == left_after(old(pending)@, outcome),
        step == reconcile_step(old(pending)@, outcome),
{
    match advance(pending, outcome) {
        Step::Issue(apply) => ReconcileStep::Apply(apply),
        Step::Done => ReconcileStep::Finish(Action::Requeue(REQUEUE_SECS)),
        Step::Failed(cause) => ReconcileStep::Fail(ControllerError::PatchFailed(cause)),
    }
}

/// What is reported of an error, and what happens next.
#[derive(Debug, PartialEq)]
pub struct ErrorReport {
    pub message: String,
    pub action: Action,
}

/// The text, or `<unknown>` in place of one that is missing.
pub open spec fn or_unknown(text: Option<Seq<char>>) -> Seq<char> {
    match text {
        Some(text) => text,
        None => "<unknown>"@,
    }
}

/// The text, or `<unknown>` in place of one that is missing.
fn text_or_unknown(text: &Option<String>) -> (known: String)
    ensures
        known@ == or_unknown(text.deep_view()),
{
    match text {
        Some(text) => text.clone(),
        None => "<unknown>".to_owned(),
    }
}

/// What is reported of an error of a bootstrap.
pub open spec fn reported(bootstrap: UserBootstrapView, error: ControllerErrorView) -> Seq<char> {
    "error reconciling \""@ + or_unknown(bootstrap.metadata.namespace) + "/"@ + or_unknown(
        bootstrap.metadata.name,
    ) + "\": "@ + error.message()
}

/// What happens after an error of a bootstrap: it is tried again after three seconds.
pub open spec fn retried(bootstrap: UserBootstrapView, error: ControllerErrorView) -> Action {
    Action::Requeue(3)
}

/// Reports an error of a bootstrap, which is then tried again soon.
pub fn error_policy(bootstrap: &UserBootstrap, error: &ControllerError) -> (report: ErrorReport)
    ensures
        report.message@ == reported(bootstrap.deep_view(), error.deep_view()),
        report.action == retried(bootstrap.deep_view(), error.deep_view()),
        report.action == Action::Requeue(3),
{
    let namespace = text_or_unknown(&bootstrap.metadata.namespace);
    let name = text_or_unknown(&bootstrap.metadata.name);
    ErrorReport {
        message: "error reconciling \"".to_owned()
            .concat(namespace.as_str())
            .concat("/")
            .concat(name.as_str())
            .concat("\": ")
            .concat(error.message().as_str()),
        action: Action::Requeue(RETRY_SECS),
    }
}

/// The kinds of the applied objects, in the order in which they are applied.
pub open spec fn rank(object: ClusterObjectView) -> int {
    match object {
        ClusterObjectView::Namespace(_) => 0,
        ClusterObjectView::ResourceQuota(_) => 1,
        ClusterObjectView::Role(_) => 2,
        ClusterObjectView::RoleBinding(_) => 3,
    }
}

/// Some planned object is of the given rank.
pub open spec fn has_rank(applies: Seq<ApplyView>, wanted: int) -> bool {
    exists|k: int| 0 <= k < applies.len() && rank((#[trigger] applies[k]).object) == wanted
}

/// The namespace comes first, and then at most one quota, one role and one role binding, in this
/// order.
pub proof fn plans_are_ordered(
    bootstrap: UserBootstrapView,
    owner: OwnerReferenceView,
    applies: Seq<ApplyView>,
)
    requires
        planned(bootstrap, owner) == Ok::<Seq<ApplyView>, ControllerErrorView>(applies),
    ensures
        1 <= applies.len() <= 4,
        applies[0].object is Namespace,
        forall|j: int, k: int|
            0 <= j < k < applies.len() ==> rank((#[trigger] applies[j]).object) < rank(
                (#[trigger] applies[k]).object,
            ),
{
}

/// Everything that is applied carries the lowercase name of the bootstrap, is owned by the bootstrap
/// alone, is set by force, and, but for the namespace itself, lies in the namespace of that name.
pub proof fn applied_objects_are_owned(
    bootstrap: UserBootstrapView,
    owner: OwnerReferenceView,
    applies: Seq<ApplyView>,
    k: int,
)
    requires
        planned(bootstrap, owner) == Ok::<Seq<ApplyView>, ControllerErrorView>(applies),
        0 <= k < applies.len(),
    ensures
        bootstrap.metadata.name matches Some(name) && applies[k].name == lowercase(name),
        applies[k].params == (PatchParamsView {
            field_manager: Some("bacchus-gpu-controller.bacchus.io"@),
            force: true,
        }),
        applies[k].object.metadata().owner_references == Some(seq![owner]),
        applies[k].namespace == (if applies[k].object is Namespace {
            None
        } else {
            Some(applies[k].name)
        }),
{
}

/// A quota and a role are applied exactly when they are specified; a role binding only once the
/// bootstrap is known to stand in the request sheet.
pub proof fn bindings_wait_for_the_sheet(
    bootstrap: UserBootstrapView,
    owner: OwnerReferenceView,
    applies: Seq<ApplyView>,
)
    requires
        planned(bootstrap, owner) == Ok::<Seq<ApplyView>, ControllerErrorView>(applies),
    ensures
        has_rank(applies, 1) <==> bootstrap.spec.quota is Some,
        has_rank(applies, 2) <==> bootstrap.spec.role is Some,
        has_rank(applies, 3) <==> bootstrap.spec.rolebinding is Some && (
        bootstrap.status matches Some(status) && status.synchronized_with_sheet),
{
    let quotas: int = if bootstrap.spec.quota is Some {
        1
    } else {
        0
    };
    let roles: int = if bootstrap.spec.role is Some {
        1
    } else {
        0
    };
    if bootstrap.spec.quota is Some {
        assert(rank(applies[1].object) == 1);
    }
    if bootstrap.spec.role is Some {
        assert(rank(applies[1 + quotas].object) == 2);
    }
    if bootstrap.spec.rolebinding is Some && is_synchronized(bootstrap) {
        assert(rank(applies[1 + quotas + roles].object) == 3);
    }
}

/// Nothing is applied in a namespace that could not be applied: when the first apply fails, it
/// was that of the namespace and remains the only one.
pub proof fn nothing_is_applied_without_its_namespace(
    bootstrap: UserBootstrapView,
    owner: OwnerReferenceView,
    applies: Seq<ApplyView>,
    later: Seq<Result<(), Seq<char>>>,
)
    requires
        planned(bootstrap, owner) == Ok::<Seq<ApplyView>, ControllerErrorView>(applies),
        later.len() > 0,
        later[0] is Err,
    ensures
        issued(applies, Ok(()), later).len() == 1,
        issued(applies, Ok(()), later)[0].object is Namespace,
{
    runs_stop_at_the_first_failure(applies, later, 0);
}

/// What is applied carries what the bootstrap specifies, in full: a quota has the bootstrap's quota
/// as its spec, a role has the rules and the metadata of the bootstrap's role but for its owner, and
/// a role binding has the role reference and the subjects of the bootstrap's binding. Namespace,
/// quota and binding have nothing in their metadata but the name and the owner.
pub proof fn applied_objects_carry_the_spec(
    name: Seq<char>,
    bootstrap: UserBootstrapView,
    owner: OwnerReferenceView,
    k: int,
)
    requires
        0 <= k < planned_under(name, bootstrap, owner).len(),
    ensures
        ({
            let apply = planned_under(name, bootstrap, owner)[k];
            let plain = MetadataView {
                name: Some(name),
                namespace: None,
                uid: None,
                owner_references: Some(seq![owner]),
                rest: None,
            };
            &&& apply.name == name
            &&& apply.namespace == (if apply.object is Namespace {
                None
            } else {
                Some(name)
            })
            &&& match apply.object {
                ClusterObjectView::Namespace(namespace) => namespace.metadata == plain,
                ClusterObjectView::ResourceQuota(quota) => {
                    &&& quota.metadata == plain
                    &&& quota.spec is Some
                    &&& quota.spec == bootstrap.spec.quota
                },
                ClusterObjectView::Role(applied) => {
                    &&& bootstrap.spec.role matches Some(role)
                    &&& applied.rules == role.rules
                    &&& applied.metadata.owner_references == Some(seq![owner])
                    &&& applied.metadata.name == role.metadata.name
                    &&& applied.metadata.namespace == role.metadata.namespace
                    &&& applied.metadata.uid == role.metadata.uid
                    &&& applied.metadata.rest == role.metadata.rest
                },
                ClusterObjectView::RoleBinding(applied) => {
                    &&& applied.metadata == plain
                    &&& bootstrap.spec.rolebinding matches Some(binding)
                    &&& applied.role_ref == binding.role_ref
                    &&& applied.subjects == binding.subjects
                },
            }
        }),
{
}

/// A plan is made under any name for every part that the bootstrap specifies, and for nothing else:
/// the namespace, the quota and the role in any case, the binding once the bootstrap is known to
/// stand in the request sheet.
pub proof fn every_part_is_planned(
    name: Seq<char>,
    bootstrap: UserBootstrapView,
    owner: OwnerReferenceView,
)
    ensures
        ({
            let applies = planned_under(name, bootstrap, owner);
            let quotas: int = if bootstrap.spec.quota is Some {
                1
            } else {
                0
            };
            let roles: int = if bootstrap.spec.role is Some {
                1
            } else {
                0
            };
            let bindings: int = if bootstrap.spec.rolebinding is Some && (
            bootstrap.status matches Some(status) && status.synchronized_with_sheet) {
                1
            } else {
                0
            };
            &&& applies.len() == 1 + quotas + roles + bindings
            &&& applies[0].object is Namespace
            &&& quotas == 1 ==> applies[1].object is ResourceQuota
            &&& roles == 1 ==> applies[1 + quotas].object is Role
            &&& bindings == 1 ==> applies[1 + quotas + roles].object is RoleBinding
        }),
{
}

/// A plan needs a name and nothing more, and what is planned goes by the lowercase form of it.
pub proof fn plans_need_a_name(bootstrap: UserBootstrapView, owner: OwnerReferenceView)
    ensures
        match bootstrap.metadata.name {
            Some(name) => planned(bootstrap, owner) == Ok::<Seq<ApplyView>, ControllerErrorView>(
                planned_under(lowercase(name), bootstrap, owner),
            ),
            None => planned(bootstrap, owner) == Err::<Seq<ApplyView>, ControllerErrorView>(
                ControllerErrorView::MissingObjectKey(".metadata.name"@),
            ),
        },
{
}

/// The report of an error names the bootstrap, with `<unknown>` for what is missing, and ends in the
/// whole message of the error, which ends in the whole cause.
pub proof fn reports_name_bootstrap_and_cause(
    bootstrap: UserBootstrapView,
    error: ControllerErrorView,
    cause: Seq<char>,
)
    ensures
        ({
            let namespace = if bootstrap.metadata.namespace is Some {
                bootstrap.metadata.namespace->0
            } else {
                "<unknown>"@
            };
            let name = if bootstrap.metadata.name is Some {
                bootstrap.metadata.name->0
            } else {
                "<unknown>"@
            };
            reported(bootstrap, error) == "error reconciling \""@ + namespace + "/"@ + name
                + "\": "@ + error.message()
        }),
        ControllerErrorView::MissingObjectKey(cause).message() == "missing object key: "@ + cause,
        ControllerErrorView::PatchFailed(cause).message() == "patch failed: "@ + cause,
{
}

/// A reconciliation applies the next object as long as each apply goes well, is taken up again half a
/// minute after the last one, and gives up with the cause of an apply that failed, whatever is still
/// to be applied. After any error it is tried again in three seconds.
pub proof fn reconciliations_go_by_their_applies(
    pending: Seq<Apply>,
    cause: String,
    bootstrap: UserBootstrapView,
    error: ControllerErrorView,
)
    ensures
        pending.len() > 0 ==> reconcile_step(pending, Ok(())) == ReconcileStep::Apply(pending[0])
            && left_after(pending, Ok::<(), String>(())) == pending.drop_first(),
        pending.len() == 0 ==> reconcile_step(pending, Ok(())) == ReconcileStep::Finish(
            Action::Requeue(30),
        ),
        reconcile_step(pending, Err(cause)) == ReconcileStep::Fail(
            ControllerError::PatchFailed(cause),
        ),
        retried(bootstrap, error) == Action::Requeue(3),
{
}

} // verus!
