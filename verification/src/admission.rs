//! The admission webhook: who may create, change and delete `UserBootstrap` resources, and what is
//! filled in for them.

use crate::crd::{RoleBinding, RoleBindingView, UserBootstrapSpec, UserBootstrapSpecView};
use crate::k8s::{
    hard_quota, ResourceQuotaSpecView, RoleRef, RoleRefView, Subject, SubjectView,
};
use crate::patch::{
    addition_json, operation_texts, patch_body, patch_json, string_json, value_json, value_left_at,
    well_formed_patch, AddOperation, AddOperationView, PatchValue, PatchValueView,
};
use crate::review::{
    allowing, invalidating, outcome, AdmissionRequest, AdmissionRequestView, AdmissionResponse,
    AdmissionResponseView, AdmissionReview, AdmissionReviewView, Error, ErrorView, Operation,
    RequestObjectView, StatusSummary, UserInfoView,
};
use crate::text::{
    begins_with, joined, pieces, pieces_not_empty, split_at_commas, split_then_join,
};
use vstd::prelude::*;
use vstd::string::StrSliceExecFns;
use vstd::utf8::{decode_utf8, encode_utf8_decode_utf8, encode_utf8_valid_utf8, valid_utf8};

verus! {

/// What the webhook is told at its start.
#[derive(Debug, PartialEq)]
pub struct Config {
    /// A username with this prefix was authenticated with OIDC, so it is not an admin's. Without
    /// the prefix it is the name that is used in the cluster.
    pub oidc_username_prefix: String,
    /// The cluster role that is bound by default.
    pub default_role_name: String,
    /// The groups whose members may create a bootstrap for themselves.
    pub authorized_group_names: Vec<String>,
}

/// What a `Config` says.
#[verifier::ext_equal]
pub struct ConfigView {
    pub oidc_username_prefix: Seq<char>,
    pub default_role_name: Seq<char>,
    pub authorized_group_names: Seq<Seq<char>>,
}

impl DeepView for Config {
    type V = ConfigView;

    open spec fn deep_view(&self) -> ConfigView {
        ConfigView {
            oidc_username_prefix: self.oidc_username_prefix@,
            default_role_name: self.default_role_name@,
            authorized_group_names: self.authorized_group_names.deep_view(),
        }
    }
}

/// What the webhook keeps while it runs.
#[derive(Debug, PartialEq)]
pub struct AppState {
    pub config: Config,
}

/// Reads a list of group names that are separated by commas. Nothing is trimmed or left out.
pub fn comma_separated(text: &str) -> (names: Vec<String>)
    ensures
        names.deep_view() == pieces(text@, ','),
        names.deep_view().len() > 0,
        joined(names.deep_view(), seq![',']) == text@,
        forall|k: int|
            0 <= k < names.deep_view().len() ==> !(#[trigger] names.deep_view()[k]).contains(','),
{
    proof {
        group_lists_are_read_without_loss(text@);
    }
    split_at_commas(text)
}

/// Whether a user is one of the cluster's admins.
#[derive(Clone, Copy, Debug, PartialEq, Eq, Structural)]
pub enum UsernameKind {
    Normal,
    Admin,
}

/// A username as the API server reports it, and what it means in the cluster.
#[derive(Debug, PartialEq)]
pub struct Username {
    pub original_username: String,
    pub kube_username: String,
    pub kind: UsernameKind,
}

/// What a `Username` says.
pub struct UsernameView {
    pub original_username: Seq<char>,
    pub kube_username: Seq<char>,
    pub kind: UsernameKind,
}

impl DeepView for Username {
    type V = UsernameView;

    open spec fn deep_view(&self) -> UsernameView {
        UsernameView {
            original_username: self.original_username@,
            kube_username: self.kube_username@,
            kind: self.kind,
        }
    }
}

/// How a username is read: with the prefix it is a normal user's, and the rest of it is the name in
/// the cluster; without the prefix it is an admin's, and the whole of it is.
pub open spec fn username_of(username: Seq<char>, prefix: Seq<char>) -> UsernameView {
    if prefix.is_prefix_of(username) {
        UsernameView {
            original_username: username,
            kube_username: username.skip(prefix.len() as int),
            kind: UsernameKind::Normal,
        }
    } else {
        UsernameView {
            original_username: username,
            kube_username: username,
            kind: UsernameKind::Admin,
        }
    }
}

impl Username {
    /// Reads a username, given the prefix of OIDC users.
    pub fn from(username: &str, prefix: &str) -> (read: Self)
        ensures
            read.deep_view() == username_of(username@, prefix@),
    {
        if begins_with(username, prefix) {
            let start: usize = prefix.unicode_len();
            let end: usize = username.unicode_len();
            Username {
                original_username: username.to_owned(),
                kube_username: username.substring_char(start, end).to_owned(),
                kind: UsernameKind::Normal,
            }
        } else {
            Username {
                original_username: username.to_owned(),
                kube_username: username.to_owned(),
                kind: UsernameKind::Admin,
            }
        }
    }
}

/// What the rules say of a request.
#[derive(Debug, PartialEq)]
pub enum Decision {
    /// The request makes no sense.
    Invalid(String),
    /// The request is refused.
    Deny(String),
    /// The request is allowed, with these changes to its object.
    Allow(Vec<AddOperation>),
}

/// What a `Decision` says.
#[verifier::ext_equal]
pub enum DecisionView {
    Invalid(Seq<char>),
    Deny(Seq<char>),
    Allow(Seq<AddOperationView>),
}

impl DeepView for Decision {
    type V = DecisionView;

    open spec fn deep_view(&self) -> DecisionView {
        match self {
            Decision::Invalid(reason) => DecisionView::Invalid(reason@),
            Decision::Deny(reason) => DecisionView::Deny(reason@),
            Decision::Allow(operations) => DecisionView::Allow(operations.deep_view()),
        }
    }
}

/// Some name stands in both lists.
pub open spec fn share_a_name(left: Seq<Seq<char>>, right: Seq<Seq<char>>) -> bool {
    exists|k: int| 0 <= k < left.len() && right.contains(#[trigger] left[k])
}

/// Whether one of a user's groups is among the authorized ones.
pub open spec fn is_authorized(groups: Option<Seq<Seq<char>>>, authorized: Seq<Seq<char>>) -> bool {
    match groups {
        Some(groups) => share_a_name(groups, authorized),
        None => false,
    }
}

/// What is decided from the operation and the user alone; `None` when the object has to be looked
/// at.
pub open spec fn gate(operation: Operation, kind: UsernameKind, in_group: bool) -> Option<
    DecisionView,
> {
    match (operation, kind) {
        (Operation::Create, UsernameKind::Normal) => if in_group {
            None
        } else {
            Some(DecisionView::Deny("user is not in authorized group"@))
        },
        (Operation::Create, UsernameKind::Admin) => None,
        (Operation::Delete, UsernameKind::Normal) => Some(
            DecisionView::Deny("normal user is not allowed to delete resource"@),
        ),
        (Operation::Delete, UsernameKind::Admin) => Some(DecisionView::Allow(Seq::empty())),
        (Operation::Update, UsernameKind::Normal) => Some(
            DecisionView::Deny("normal user is not allowed to update resource"@),
        ),
        (Operation::Update, UsernameKind::Admin) => None,
        (Operation::Connect, _) => Some(DecisionView::Invalid("invalid operation"@)),
    }
}

/// The limits of a user who has not been given any others.
pub open spec fn default_limits() -> Seq<(Seq<char>, Seq<char>)> {
    seq![("requests.cpu"@, "1"@), ("requests.memory"@, "500Mi"@)]
}

/// The binding of the default role to one user.
pub open spec fn default_binding(role_name: Seq<char>, subject_name: Seq<char>) -> RoleBindingView {
    RoleBindingView {
        role_ref: RoleRefView {
            api_group: "rbac.authorization.k8s.io"@,
            kind: "ClusterRole"@,
            name: role_name,
        },
        subjects: Some(
            seq![
                SubjectView {
                    api_group: Some("rbac.authorization.k8s.io"@),
                    kind: "User"@,
                    name: subject_name,
                    namespace: None,
                },
            ],
        ),
    }
}

/// The operations that fill in the username.
pub open spec fn username_additions(kube_username: Seq<char>) -> Seq<AddOperationView> {
    seq![
        AddOperationView {
            path: "/spec/kube_username"@,
            value: PatchValueView::Text(kube_username),
        },
    ]
}

/// The operations that fill in the default quota.
pub open spec fn quota_additions() -> Seq<AddOperationView> {
    seq![
        AddOperationView { path: "/spec/quota"@, value: PatchValueView::EmptyObject },
        AddOperationView { path: "/spec/quota"@, value: PatchValueView::Quota(default_limits()) },
    ]
}

/// The operations that fill in the default role binding.
pub open spec fn binding_additions(role_name: Seq<char>, subject_name: Seq<char>) -> Seq<
    AddOperationView,
> {
    seq![
        AddOperationView { path: "/spec/rolebinding"@, value: PatchValueView::EmptyObject },
        AddOperationView {
            path: "/spec/rolebinding"@,
            value: PatchValueView::RoleBinding(default_binding(role_name, subject_name)),
        },
    ]
}

/// What is decided of a bootstrap. A normal user may set neither quota nor role binding and gets
/// the defaults; an admin has to name the user and gets a default for what is left open.
pub open spec fn bootstrap_decision(
    user: UsernameView,
    spec: UserBootstrapSpecView,
    role_name: Seq<char>,
) -> DecisionView {
    match user.kind {
        UsernameKind::Normal => if spec.quota is Some {
            DecisionView::Deny(
                "quota field is not empty. you are a normal user, so leave it empty"@,
            )
        } else if spec.rolebinding is Some {
            DecisionView::Deny(
                "rolebinding field is not empty. you are a normal user, so leave it empty"@,
            )
        } else {
            DecisionView::Allow(
                username_additions(user.kube_username) + quota_additions() + binding_additions(
                    role_name,
                    user.original_username,
                ),
            )
        },
        UsernameKind::Admin => match spec.kube_username {
            Some(kube_username) if kube_username.len() > 0 => DecisionView::Allow(
                (if spec.quota is None {
                    quota_additions()
                } else {
                    Seq::empty()
                }) + (if spec.rolebinding is None {
                    binding_additions(role_name, kube_username)
                } else {
                    Seq::empty()
                }),
            ),
            _ => DecisionView::Deny(
                "kube_username field is empty. you are an admin, so fill it"@,
            ),
        },
    }
}

/// What is decided of the object of a request.
pub open spec fn object_decision(
    user: UsernameView,
    object: RequestObjectView,
    role_name: Seq<char>,
) -> DecisionView {
    match object.name {
        None => DecisionView::Invalid("cannot get resource name from request"@),
        Some(name) => if user.kind == UsernameKind::Normal && user.kube_username != name {
            DecisionView::Deny("username not match with resource name"@)
        } else {
            match object.bootstrap {
                Err(error) => DecisionView::Invalid(error),
                Ok(bootstrap) => bootstrap_decision(user, bootstrap.spec, role_name),
            }
        },
    }
}

/// What the rules say of a request.
pub open spec fn decision(request: AdmissionRequestView, config: ConfigView) -> DecisionView {
    match request.user_info.username {
        None => DecisionView::Invalid("cannot get requester's username from request"@),
        Some(username) => {
            let user = username_of(username, config.oidc_username_prefix);
            let in_group = is_authorized(request.user_info.groups, config.authorized_group_names);
            match gate(request.operation, user.kind, in_group) {
                Some(decided) => decided,
                None => match request.object {
                    None => DecisionView::Allow(Seq::empty()),
                    Some(object) => object_decision(user, object, config.default_role_name),
                },
            }
        },
    }
}

/// Whether `name` is among `names`.
fn is_among(names: &Vec<String>, name: &String) -> (found: bool)
    ensures
        found == names.deep_view().contains(name@),
{
    let mut at: usize = 0;
    while at < names.len()
        invariant
            at <= names.len(),
            forall|k: int| 0 <= k < at ==> #[trigger] names.deep_view()[k] != name@,
        decreases names.len() - at,
    {
        assert(names.deep_view()[at as int] == names[at as int]@);
        if names[at] == *name {
            return true;
        }
        at += 1;
    }
    false
}

/// Whether one of a user's groups is among the authorized ones.
pub fn is_in_authorized_group(groups: &Option<Vec<String>>, authorized: &Vec<String>) -> (found:
    bool)
    ensures
        found == is_authorized(groups.deep_view(), authorized.deep_view()),
{
    match groups {
        None => false,
        Some(listed) => {
            let ghost views = listed.deep_view();
            let mut at: usize = 0;
            while at < listed.len()
                invariant
                    at <= listed.len(),
                    views == listed.deep_view(),
                    groups.deep_view() == Some(views),
                    forall|k: int|
                        0 <= k < at ==> !authorized.deep_view().contains(#[trigger] views[k]),
                decreases listed.len() - at,
            {
                assert(views[at as int] == listed[at as int]@);
                if is_among(authorized, &listed[at]) {
                    assert(share_a_name(views, authorized.deep_view()));
                    return true;
                }
                at += 1;
            }
            false
        },
    }
}

/// The default limits.
fn make_default_limits() -> (limits: Vec<(String, String)>)
    ensures
        limits.deep_view() == default_limits(),
{
    let limits = vec![
        ("requests.cpu".to_owned(), "1".to_owned()),
        ("requests.memory".to_owned(), "500Mi".to_owned()),
    ];
    assert(limits.deep_view() =~= default_limits());
    limits
}

/// The binding of the default role to one user.
fn make_default_binding(role_name: &str, subject_name: &str) -> (binding: RoleBinding)
    ensures
        binding.deep_view() == default_binding(role_name@, subject_name@),
{
    let subject = Subject {
        api_group: Some("rbac.authorization.k8s.io".to_owned()),
        kind: "User".to_owned(),
        name: subject_name.to_owned(),
        namespace: None,
    };
    let ghost view = subject.deep_view();
    let subjects = vec![subject];
    assert(subjects.deep_view() =~= seq![view]);
    RoleBinding {
        role_ref: RoleRef {
            api_group: "rbac.authorization.k8s.io".to_owned(),
            kind: "ClusterRole".to_owned(),
            name: role_name.to_owned(),
        },
        subjects: Some(subjects),
    }
}

/// Adds an operation to a patch.
fn add_at(operations: &mut Vec<AddOperation>, path: &str, value: PatchValue)
    ensures
        final(operations).deep_view() == old(operations).deep_view().push(
            AddOperationView { path: path@, value: value.deep_view() },
        ),
{
    let ghost view = AddOperationView { path: path@, value: value.deep_view() };
    operations.push(AddOperation { path: path.to_owned(), value });
    assert(operations.deep_view() =~= old(operations).deep_view().push(view));
}

/// Decides on the bootstrap that a user asks for.
pub fn decide_bootstrap(user: &Username, spec: &UserBootstrapSpec, role_name: &str) -> (decided:
    Decision)
    ensures
        decided.deep_view() == bootstrap_decision(
            user.deep_view(),
            spec.deep_view(),
            role_name@,
        ),
{
    let mut operations: Vec<AddOperation> = Vec::new();
    let ghost mut expected = Seq::<AddOperationView>::empty();
    assert(operations.deep_view() =~= expected);
    let subject_name: String;
    match user.kind {
        UsernameKind::Normal => {
            add_at(
                &mut operations,
                "/spec/kube_username",
                PatchValue::Text(user.kube_username.clone()),
            );
            subject_name = user.original_username.clone();
            proof {
                expected = username_additions(user.kube_username@);
                assert(operations.deep_view() =~= expected);
            }
        },
        UsernameKind::Admin => {
            match &spec.kube_username {
                Some(kube_username) if !kube_username.as_str().is_empty() => {
                    subject_name = kube_username.clone();
                },
                _ => {
                    return Decision::Deny(
                        "kube_username field is empty. you are an admin, so fill it".to_owned(),
                    );
                },
            }
        },
    }
    if spec.quota.is_none() {
        add_at(&mut operations, "/spec/quota", PatchValue::EmptyObject);
        add_at(&mut operations, "/spec/quota", PatchValue::Quota(make_default_limits()));
        proof {
            expected = expected + quota_additions();
            assert(operations.deep_view() =~= expected);
        }
    } else if user.kind == UsernameKind::Normal {
        return Decision::Deny(
            "quota field is not empty. you are a normal user, so leave it empty".to_owned(),
        );
    }
    if spec.rolebinding.is_none() {
        add_at(&mut operations, "/spec/rolebinding", PatchValue::EmptyObject);
        add_at(
            &mut operations,
            "/spec/rolebinding",
            PatchValue::RoleBinding(make_default_binding(role_name, subject_name.as_str())),
        );
        proof {
            expected = expected + binding_additions(role_name@, subject_name@);
            assert(operations.deep_view() =~= expected);
        }
    } else if user.kind == UsernameKind::Normal {
        return Decision::Deny(
            "rolebinding field is not empty. you are a normal user, so leave it empty".to_owned(),
        );
    }
    let decided = Decision::Allow(operations);
    assert(decided.deep_view() =~= bootstrap_decision(
        user.deep_view(),
        spec.deep_view(),
        role_name@,
    ));
    decided
}

/// Decides on a request.
pub fn decide(request: &AdmissionRequest, config: &Config) -> (decided: Decision)
    ensures
        decided.deep_view() == decision(request.deep_view(), config.deep_view()),
{
    let username = match &request.user_info.username {
        Some(username) => Username::from(
            username.as_str(),
            config.oidc_username_prefix.as_str(),
        ),
        None => {
            return Decision::Invalid("cannot get requester's username from request".to_owned());
        },
    };
    let is_in_group = is_in_authorized_group(
        &request.user_info.groups,
        &config.authorized_group_names,
    );
    match request.operation {
        Operation::Create => {
            if username.kind == UsernameKind::Normal && !is_in_group {
                return Decision::Deny("user is not in authorized group".to_owned());
            }
        },
        Operation::Delete => {
            if username.kind == UsernameKind::Normal {
                return Decision::Deny(
                    "normal user is not allowed to delete resource".to_owned(),
                );
            }
            return allow_as_is();
        },
        Operation::Update => {
            if username.kind == UsernameKind::Normal {
                return Decision::Deny(
                    "normal user is not allowed to update resource".to_owned(),
                );
            }
        },
        Operation::Connect => {
            return Decision::Invalid("invalid operation".to_owned());
        },
    }
    let object = match &request.object {
        Some(object) => object,
        None => {
            return allow_as_is();
        },
    };
    let name = match &object.name {
        Some(name) => name,
        None => {
            return Decision::Invalid("cannot get resource name from request".to_owned());
        },
    };
    if username.kind == UsernameKind::Normal && username.kube_username != *name {
        return Decision::Deny("username not match with resource name".to_owned());
    }
    match &object.bootstrap {
        Ok(bootstrap) => decide_bootstrap(
            &username,
            &bootstrap.spec,
            config.default_role_name.as_str(),
        ),
        Err(error) => Decision::Invalid(error.clone()),
    }
}

/// The decision that changes nothing.
fn allow_as_is() -> (decided: Decision)
    ensures
        decided.deep_view() == DecisionView::Allow(Seq::empty()),
{
    let decided = Decision::Allow(Vec::new());
    assert(decided.deep_view() =~= DecisionView::Allow(Seq::empty()));
    decided
}

/// The answer that carries out a decision.
pub open spec fn answer(
    request: AdmissionRequestView,
    decided: DecisionView,
) -> AdmissionResponseView {
    match decided {
        DecisionView::Invalid(reason) => invalidating(reason),
        DecisionView::Deny(reason) => allowing(request).denying(reason),
        DecisionView::Allow(operations) => if operations.len() == 0 {
            allowing(request)
        } else {
            allowing(request).patching(patch_body(operations))
        },
    }
}

/// Answers a request.
pub fn mutate(request: &AdmissionRequest, state: &AppState) -> (response: Result<
    AdmissionResponse,
    Error,
>)
    ensures
        outcome(response) == Ok::<AdmissionResponseView, ErrorView>(
            answer(
                request.deep_view(),
                decision(request.deep_view(), state.config.deep_view()),
            ),
        ),
{
    proof {
        decided_patches_are_well_formed(request.deep_view(), state.config.deep_view());
    }
    match decide(request, &state.config) {
        Decision::Invalid(reason) => Ok(AdmissionResponse::invalid(reason.as_str())),
        Decision::Deny(reason) => Ok(
            AdmissionResponse::from_request(request).deny(reason.as_str()),
        ),
        Decision::Allow(operations) => {
            let response = AdmissionResponse::from_request(request);
            if operations.is_empty() {
                Ok(response)
            } else {
                response.with_patch(&operations)
            }
        },
    }
}

/// What comes back for a review: the answer to its request, which takes over the review's type, or
/// a refusal when it holds no request.
pub open spec fn handled(review: AdmissionReviewView, config: ConfigView) -> AdmissionReviewView {
    match review.request {
        None => invalidating(
            "failed to convert AdmissionReview into AdmissionRequest"@,
        ).reviewed(),
        Some(request) => {
            let request = AdmissionRequestView { types: review.types, ..request };
            answer(request, decision(request, config)).reviewed()
        },
    }
}

/// Handles a review.
pub fn mutate_handler(review: AdmissionReview, state: &AppState) -> (answered: Result<
    AdmissionReview,
    Error,
>)
    ensures
        answered matches Ok(answer) && answer.deep_view() == handled(
            review.deep_view(),
            state.config.deep_view(),
        ),
{
    let request = match review.request {
        Some(request) => AdmissionRequest {
            types: review.types,
            uid: request.uid,
            operation: request.operation,
            user_info: request.user_info,
            object: request.object,
        },
        None => {
            return Ok(
                AdmissionResponse::invalid(
                    "failed to convert AdmissionReview into AdmissionRequest",
                ).into_review(),
            );
        },
    };
    match mutate(&request, state) {
        Ok(response) => Ok(response.into_review()),
        Err(error) => Err(error),
    }
}

/// A bootstrap's spec after a patch: each field that the patch touches holds what the last operation
/// on it left there. `None` when that is no value of the field.
pub open spec fn patched(
    spec: UserBootstrapSpecView,
    operations: Seq<AddOperationView>,
) -> Option<UserBootstrapSpecView> {
    let kube_username = match value_left_at(operations, "/spec/kube_username"@) {
        None => Some(spec.kube_username),
        Some(PatchValueView::Text(kube_username)) => Some(Some(kube_username)),
        Some(_) => None,
    };
    let quota = match value_left_at(operations, "/spec/quota"@) {
        None => Some(spec.quota),
        Some(PatchValueView::Quota(hard)) => Some(Some(hard_quota(hard))),
        Some(PatchValueView::EmptyObject) => Some(
            Some(ResourceQuotaSpecView { hard: None, scope_selector: None, scopes: None }),
        ),
        Some(_) => None,
    };
    let rolebinding = match value_left_at(operations, "/spec/rolebinding"@) {
        None => Some(spec.rolebinding),
        Some(PatchValueView::RoleBinding(binding)) => Some(Some(binding)),
        Some(_) => None,
    };
    match (kube_username, quota, rolebinding) {
        (Some(kube_username), Some(quota), Some(rolebinding)) => Some(
            UserBootstrapSpecView { kube_username, quota, role: spec.role, rolebinding },
        ),
        _ => None,
    }
}

/// A username is read without loss: a normal user's is the prefix and the name in the cluster, an
/// admin's is the name in the cluster and lacks the prefix.
pub proof fn usernames_are_read_without_loss(username: Seq<char>, prefix: Seq<char>)
    ensures
        username_of(username, prefix).original_username == username,
        username_of(username, prefix).kind == UsernameKind::Normal ==> username == prefix
            + username_of(username, prefix).kube_username,
        username_of(username, prefix).kind == UsernameKind::Admin ==> username_of(
            username,
            prefix,
        ).kube_username == username && !prefix.is_prefix_of(username),
{
    if prefix.is_prefix_of(username) {
        assert(username =~= prefix + username.skip(prefix.len() as int));
    }
}

/// A normal user gets nothing but the creation of a bootstrap of that user's own name, as a member
/// of an authorized group, with quota and role binding left open.
pub proof fn normal_users_only_create_their_own(
    request: AdmissionRequestView,
    config: ConfigView,
    username: Seq<char>,
)
    requires
        request.user_info.username == Some(username),
        config.oidc_username_prefix.is_prefix_of(username),
        decision(request, config) is Allow,
    ensures
        request.operation == Operation::Create,
        is_authorized(request.user_info.groups, config.authorized_group_names),
        request.object matches Some(object) ==> {
            &&& object.name matches Some(name)
            &&& username == config.oidc_username_prefix + name
            &&& object.bootstrap matches Ok(bootstrap)
            &&& bootstrap.spec.quota is None
            &&& bootstrap.spec.rolebinding is None
        },
{
    usernames_are_read_without_loss(username, config.oidc_username_prefix);
}

/// Groups matter to the creation by a normal user alone, and there only by whether one of them is
/// authorized: two requests that differ in nothing but groups are decided alike in any other case.
pub proof fn groups_matter_to_creating_users_only(
    request: AdmissionRequestView,
    config: ConfigView,
    groups: Option<Seq<Seq<char>>>,
)
    ensures
        ({
            let other = AdmissionRequestView {
                user_info: UserInfoView { groups, ..request.user_info },
                ..request
            };
            let creates_as_normal_user = request.operation == Operation::Create && (
            request.user_info.username matches Some(username)
                && config.oidc_username_prefix.is_prefix_of(username));
            let alike = is_authorized(request.user_info.groups, config.authorized_group_names)
                == is_authorized(groups, config.authorized_group_names);
            !creates_as_normal_user || alike ==> decision(request, config) == decision(
                other,
                config,
            )
        }),
{
}

/// An answer allows exactly what was decided to be allowed; one that does not allow carries no
/// patch, and one that does carries a patch exactly when there is something to change.
pub proof fn refusals_carry_no_patch(request: AdmissionRequestView, decided: DecisionView)
    ensures
        ({
            let response = answer(request, decided);
            &&& response.allowed <==> decided is Allow
            &&& !response.allowed ==> response.patch is None && response.patch_type is None
            &&& response.patch is Some <==> response.patch_type is Some
            &&& decided matches DecisionView::Allow(operations) ==> (response.patch is Some
                <==> operations.len() > 0)
        }),
{
}

/// The patch of an answer is a JSON array of add operations, one for each change that was decided,
/// in order, in UTF-8.
pub proof fn patches_are_arrays_of_additions(
    request: AdmissionRequestView,
    operations: Seq<AddOperationView>,
)
    requires
        operations.len() > 0,
    ensures
        answer(request, DecisionView::Allow(operations)).patch matches Some(body)
            && valid_utf8(body) && decode_utf8(body) == "["@ + joined(
            operations.map_values(
                |operation: AddOperationView|
                    "{\"op\":\"add\",\"path\":"@ + string_json(operation.path) + ",\"value\":"@
                        + value_json(operation.value) + "}"@,
            ),
            ","@,
        ) + "]"@,
{
    let text = patch_json(operation_texts(operations));
    encode_utf8_valid_utf8(text);
    encode_utf8_decode_utf8(text);
    assert(operation_texts(operations).map_values(
        |addition: (Seq<char>, Seq<char>)| addition_json(addition.0, addition.1),
    ) =~= operations.map_values(
        |operation: AddOperationView|
            "{\"op\":\"add\",\"path\":"@ + string_json(operation.path) + ",\"value\":"@
                + value_json(operation.value) + "}"@,
    ));
}

/// An answer carries the uid and the type of its request, unless the request made no sense. A
/// refusal says why.
pub proof fn answers_match_their_request(request: AdmissionRequestView, decided: DecisionView)
    requires
        !(decided is Invalid),
    ensures
        ({
            let response = answer(request, decided);
            &&& response.uid == request.uid
            &&& response.types == request.types
            &&& decided matches DecisionView::Deny(reason) ==> response.result.message == reason
        }),
{
}

/// The default limits can stand in a patch: no resource is limited twice or has a reserved name.
proof fn default_limits_are_well_formed()
    ensures
        PatchValueView::Quota(default_limits()).well_formed(),
{
    reveal_strlit("requests.cpu");
    reveal_strlit("requests.memory");
    reveal_strlit("$serde_json::private::Number");
    reveal_strlit("$serde_json::private::RawValue");
    assert("requests.cpu"@.len() == 12);
    assert("requests.memory"@.len() == 15);
    assert("$serde_json::private::Number"@.len() == 28);
    assert("$serde_json::private::RawValue"@.len() == 30);
}

/// Whatever is decided to be changed can be encoded.
pub proof fn decided_patches_are_well_formed(request: AdmissionRequestView, config: ConfigView)
    ensures
        decision(request, config) matches DecisionView::Allow(operations) ==> well_formed_patch(
            operations,
        ),
{
    default_limits_are_well_formed();
}

/// What the operations leave at each of the three paths, when some of the defaults are filled in.
proof fn additions_leave_defaults(
    kube_username: Option<Seq<char>>,
    with_quota: bool,
    binding: Option<(Seq<char>, Seq<char>)>,
    operations: Seq<AddOperationView>,
)
    requires
        operations == (match kube_username {
            Some(kube_username) => username_additions(kube_username),
            None => Seq::empty(),
        }) + (if with_quota {
            quota_additions()
        } else {
            Seq::empty()
        }) + (match binding {
            Some((role_name, subject_name)) => binding_additions(role_name, subject_name),
            None => Seq::empty(),
        }),
    ensures
        value_left_at(operations, "/spec/kube_username"@) == (match kube_username {
            Some(kube_username) => Some(PatchValueView::Text(kube_username)),
            None => None,
        }),
        value_left_at(operations, "/spec/quota"@) == (if with_quota {
            Some(PatchValueView::Quota(default_limits()))
        } else {
            None
        }),
        value_left_at(operations, "/spec/rolebinding"@) == (match binding {
            Some((role_name, subject_name)) => Some(
                PatchValueView::RoleBinding(default_binding(role_name, subject_name)),
            ),
            None => None,
        }),
{
    reveal_strlit("/spec/kube_username");
    reveal_strlit("/spec/quota");
    reveal_strlit("/spec/rolebinding");
    assert("/spec/kube_username"@.len() == 19);
    assert("/spec/quota"@.len() == 11);
    assert("/spec/rolebinding"@.len() == 17);
    reveal_with_fuel(value_left_at, 6);
    let names = match kube_username {
        Some(kube_username) => username_additions(kube_username),
        None => Seq::empty(),
    };
    let limits = if with_quota {
        quota_additions()
    } else {
        Seq::empty()
    };
    let bindings = match binding {
        Some((role_name, subject_name)) => binding_additions(role_name, subject_name),
        None => Seq::empty(),
    };
    if binding is Some {
        assert(operations.drop_last().drop_last() =~= names + limits);
    } else {
        assert(operations =~= names + limits);
    }
    if with_quota {
        assert((names + limits).drop_last().drop_last() =~= names);
    } else {
        assert(names + limits =~= names);
    }
    if kube_username is Some {
        assert(names.drop_last() =~= Seq::empty());
    }
}

/// Whatever is let through is complete after its patch: it has a username, a quota, well-formed if
/// it was not set otherwise, and a role binding. A normal user gets that user's own name and the
/// defaults; for an admin everything that was set is kept, and the defaults bind the user that the
/// admin named. The role is never touched.
pub proof fn admitted_bootstraps_are_complete(
    user: UsernameView,
    spec: UserBootstrapSpecView,
    role_name: Seq<char>,
    operations: Seq<AddOperationView>,
)
    requires
        bootstrap_decision(user, spec, role_name) == DecisionView::Allow(operations),
    ensures
        ({
            &&& patched(spec, operations) matches Some(result)
            &&& result.role == spec.role
            &&& result.quota matches Some(quota)
            &&& spec.quota is None ==> quota.well_formed()
            &&& user.kind == UsernameKind::Normal ==> {
                &&& result.kube_username == Some(user.kube_username)
                &&& result.quota == Some(hard_quota(default_limits()))
                &&& result.rolebinding == Some(default_binding(role_name, user.original_username))
            }
            &&& user.kind == UsernameKind::Admin ==> {
                &&& result.kube_username == spec.kube_username
                &&& spec.kube_username matches Some(kube_username)
                &&& kube_username.len() > 0
                &&& result.quota == (if spec.quota is Some {
                    spec.quota
                } else {
                    Some(hard_quota(default_limits()))
                })
                &&& result.rolebinding == (if spec.rolebinding is Some {
                    spec.rolebinding
                } else {
                    Some(default_binding(role_name, kube_username))
                })
            }
        }),
{
    default_limits_are_well_formed();
    match user.kind {
        UsernameKind::Normal => {
            additions_leave_defaults(
                Some(user.kube_username),
                true,
                Some((role_name, user.original_username)),
                operations,
            );
        },
        UsernameKind::Admin => {
            let kube_username = spec.kube_username->0;
            let binding = if spec.rolebinding is None {
                Some((role_name, kube_username))
            } else {
                None
            };
            let limits = if spec.quota is None {
                quota_additions()
            } else {
                Seq::empty()
            };
            assert(Seq::<AddOperationView>::empty() + limits =~= limits);
            additions_leave_defaults(None, spec.quota is None, binding, operations);
        },
    }
}

/// A bootstrap that went through once needs no further change: an admin's review of it, once it is
/// patched, allows it as it is.
pub proof fn patched_bootstraps_pass_unchanged(
    user: UsernameView,
    spec: UserBootstrapSpecView,
    role_name: Seq<char>,
    operations: Seq<AddOperationView>,
    admin: UsernameView,
    later_role_name: Seq<char>,
)
    requires
        bootstrap_decision(user, spec, role_name) == DecisionView::Allow(operations),
        patched(spec, operations) matches Some(result) && result.kube_username != Some(
            Seq::<char>::empty(),
        ),
        admin.kind == UsernameKind::Admin,
    ensures
        bootstrap_decision(admin, patched(spec, operations)->0, later_role_name)
            == DecisionView::Allow(Seq::empty()),
{
    admitted_bootstraps_are_complete(user, spec, role_name, operations);
    let kube_username = patched(spec, operations)->0.kube_username->0;
    if kube_username.len() == 0 {
        assert(kube_username =~= Seq::empty());
    }
    assert(Seq::<AddOperationView>::empty() + Seq::<AddOperationView>::empty()
        =~= Seq::<AddOperationView>::empty());
}

/// A review is answered in kind: what comes back holds the answer and no request, and unless the
/// request made no sense it has the type of the review and the uid of the request.
pub proof fn reviews_are_answered_in_kind(review: AdmissionReviewView, config: ConfigView)
    ensures
        ({
            let answered = handled(review, config);
            &&& answered.request is None
            &&& answered.response matches Some(response)
            &&& answered.types == response.types
            &&& review.request matches Some(request) ==> {
                ||| decision(
                    AdmissionRequestView { types: review.types, ..request },
                    config,
                ) is Invalid
                ||| answered.types == review.types && response.uid == request.uid
            }
        }),
{
}

/// A list of names is read without loss: the names, joined by commas, give the text back, and no
/// name holds a comma.
pub proof fn group_lists_are_read_without_loss(text: Seq<char>)
    ensures
        pieces(text, ',').len() > 0,
        joined(pieces(text, ','), seq![',']) == text,
        forall|k: int|
            0 <= k < pieces(text, ',').len() ==> !(#[trigger] pieces(text, ',')[k]).contains(','),
{
    pieces_not_empty(text, ',');
    split_then_join(text, ',');
}

/// A user is authorized exactly when one of that user's groups is the same as one of the authorized
/// groups.
pub proof fn members_are_authorized(groups: Option<Seq<Seq<char>>>, authorized: Seq<Seq<char>>)
    ensures
        is_authorized(groups, authorized) <==> groups is Some && exists|j: int, k: int|
            0 <= j < groups->0.len() && 0 <= k < authorized.len() && #[trigger] groups->0[j]
                == #[trigger] authorized[k],
{
    if groups is Some {
        let listed = groups->0;
        if share_a_name(listed, authorized) {
            let j = choose|j: int| 0 <= j < listed.len() && authorized.contains(#[trigger] listed[j]);
            let k = choose|k: int| 0 <= k < authorized.len() && authorized[k] == listed[j];
            assert(listed[j] == authorized[k]);
        }
        if exists|j: int, k: int|
            0 <= j < listed.len() && 0 <= k < authorized.len() && #[trigger] listed[j]
                == #[trigger] authorized[k] {
            let (j, k) = choose|j: int, k: int|
                0 <= j < listed.len() && 0 <= k < authorized.len() && #[trigger] listed[j]
                    == #[trigger] authorized[k];
            assert(authorized.contains(listed[j]));
        }
    }
}

/// Some group of the requester is the same as one of the authorized groups.
pub open spec fn in_authorized_group(request: AdmissionRequestView, config: ConfigView) -> bool {
    request.user_info.groups is Some && exists|j: int, k: int|
        0 <= j < request.user_info.groups->0.len() && 0 <= k < config.authorized_group_names.len()
            && #[trigger] request.user_info.groups->0[j]
            == #[trigger] config.authorized_group_names[k]
}

/// Nobody is refused without cause, and nobody is let through without right. An admin, whose
/// username lacks the prefix, may delete anything, and may create and update whatever has a name,
/// parses and names its user, under any name; a normal user may create what has that user's own
/// name, parses and leaves quota and role binding open, as a member of an authorized group. Without
/// an object there is nothing to hold against a creation or an update.
pub proof fn requests_are_allowed_for_cause(
    request: AdmissionRequestView,
    config: ConfigView,
    username: Seq<char>,
)
    requires
        request.user_info.username == Some(username),
    ensures
        !config.oidc_username_prefix.is_prefix_of(username) ==> (decision(request, config) is Allow
            <==> match request.operation {
            Operation::Delete => true,
            Operation::Connect => false,
            _ => match request.object {
                None => true,
                Some(object) => object.name is Some && (object.bootstrap matches Ok(bootstrap)
                    && bootstrap.spec.kube_username matches Some(kube_username)
                    && kube_username.len() > 0),
            },
        }),
        config.oidc_username_prefix.is_prefix_of(username) ==> (decision(request, config) is Allow
            <==> request.operation == Operation::Create && in_authorized_group(request, config)
            && match request.object {
            None => true,
            Some(object) => (object.name matches Some(name) && username
                == config.oidc_username_prefix + name) && (object.bootstrap matches Ok(bootstrap)
                && bootstrap.spec.quota is None && bootstrap.spec.rolebinding is None),
        }),
{
    let prefix = config.oidc_username_prefix;
    members_are_authorized(request.user_info.groups, config.authorized_group_names);
    usernames_are_read_without_loss(username, prefix);
    if prefix.is_prefix_of(username) && request.object is Some && request.object->0.name is Some {
        let name = request.object->0.name->0;
        if username == prefix + name {
            assert(username.skip(prefix.len() as int) =~= name);
        }
    }
}

/// What makes no sense is said to be so, and nothing else is: a request without a username, a
/// connection, an object without a name, and one that does not parse, each with its own reason.
/// Whoever may not make the request at all, or not for an object of that name, is refused instead.
pub proof fn senseless_requests_are_invalid(request: AdmissionRequestView, config: ConfigView)
    ensures
        request.user_info.username is None ==> decision(request, config) == DecisionView::Invalid(
            "cannot get requester's username from request"@,
        ),
        request.user_info.username matches Some(username) ==> {
            let normal = config.oidc_username_prefix.is_prefix_of(username);
            let looks_at_object = match request.operation {
                Operation::Create => !normal || in_authorized_group(request, config),
                Operation::Update => !normal,
                _ => false,
            };
            let decided = decision(request, config);
            &&& request.operation == Operation::Connect ==> decided == DecisionView::Invalid(
                "invalid operation"@,
            )
            &&& looks_at_object ==> match request.object {
                None => decided == DecisionView::Allow(Seq::empty()),
                Some(object) => match object.name {
                    None => decided == DecisionView::Invalid(
                        "cannot get resource name from request"@,
                    ),
                    Some(name) => if normal && username != config.oidc_username_prefix + name {
                        decided is Deny
                    } else {
                        match object.bootstrap {
                            Err(error) => decided == DecisionView::Invalid(error),
                            Ok(_) => !(decided is Invalid),
                        }
                    },
                },
            }
            &&& !looks_at_object && request.operation != Operation::Connect ==> !(
            decided is Invalid)
        },
{
    members_are_authorized(request.user_info.groups, config.authorized_group_names);
    if request.user_info.username is Some {
        let username = request.user_info.username->0;
        let prefix = config.oidc_username_prefix;
        usernames_are_read_without_loss(username, prefix);
        if prefix.is_prefix_of(username) && request.object is Some && request.object->0.name is Some {
            let name = request.object->0.name->0;
            if username == prefix + name {
                assert(username.skip(prefix.len() as int) =~= name);
            }
        }
    }
}

/// A refusal gives the cause, the first that holds: for a normal user the missing group, the
/// operation, the name of the object, a quota that was set, a role binding that was set; for an
/// admin a user who is not named.
pub proof fn refusals_give_the_cause(
    request: AdmissionRequestView,
    config: ConfigView,
    username: Seq<char>,
)
    requires
        request.user_info.username == Some(username),
    ensures
        ({
            let decided = decision(request, config);
            let normal = config.oidc_username_prefix.is_prefix_of(username);
            let creates = normal && request.operation == Operation::Create;
            let writes = !normal && (request.operation == Operation::Create || request.operation
                == Operation::Update);
            &&& creates && !in_authorized_group(request, config) ==> decided == DecisionView::Deny(
                "user is not in authorized group"@,
            )
            &&& normal && request.operation == Operation::Delete ==> decided == DecisionView::Deny(
                "normal user is not allowed to delete resource"@,
            )
            &&& normal && request.operation == Operation::Update ==> decided == DecisionView::Deny(
                "normal user is not allowed to update resource"@,
            )
            &&& creates && in_authorized_group(request, config) && request.object is Some
                && request.object->0.name is Some ==> {
                let object = request.object->0;
                let own = username == config.oidc_username_prefix + object.name->0;
                &&& !own ==> decided == DecisionView::Deny("username not match with resource name"@)
                &&& own ==> match object.bootstrap {
                    Ok(bootstrap) => {
                        &&& bootstrap.spec.quota is Some ==> decided == DecisionView::Deny(
                            "quota field is not empty. you are a normal user, so leave it empty"@,
                        )
                        &&& bootstrap.spec.quota is None && bootstrap.spec.rolebinding is Some
                            ==> decided == DecisionView::Deny(
                            "rolebinding field is not empty. you are a normal user, so leave it empty"@,
                        )
                    },
                    Err(_) => true,
                }
            }
            &&& writes && request.object is Some && request.object->0.name is Some
                && request.object->0.bootstrap is Ok ==> {
                let kube_username = request.object->0.bootstrap->Ok_0.spec.kube_username;
                kube_username is None || kube_username->0.len() == 0 ==> decided
                    == DecisionView::Deny(
                    "kube_username field is empty. you are an admin, so fill it"@,
                )
            }
        }),
{
    members_are_authorized(request.user_info.groups, config.authorized_group_names);
    let prefix = config.oidc_username_prefix;
    usernames_are_read_without_loss(username, prefix);
    if prefix.is_prefix_of(username) && request.object is Some && request.object->0.name is Some {
        let name = request.object->0.name->0;
        if username == prefix + name {
            assert(username.skip(prefix.len() as int) =~= name);
        }
    }
}

/// What is let through ends up with what it lacked. A creation by a normal user gets the name of the
/// object as its user, the default quota of one core and 500Mi, and the default role bound to the
/// username as it was reported. A bootstrap of an admin keeps all that was set, and gets the default
/// quota and the default role bound to the user whom it names where these were left open.
pub proof fn admitted_objects_get_what_they_lack(
    request: AdmissionRequestView,
    config: ConfigView,
    username: Seq<char>,
    object: RequestObjectView,
    spec: UserBootstrapSpecView,
    operations: Seq<AddOperationView>,
)
    requires
        request.user_info.username == Some(username),
        request.operation != Operation::Delete,
        request.object == Some(object),
        object.bootstrap matches Ok(bootstrap) && bootstrap.spec == spec,
        decision(request, config) == DecisionView::Allow(operations),
    ensures
        ({
            let normal = config.oidc_username_prefix.is_prefix_of(username);
            let quota = ResourceQuotaSpecView {
                hard: Some(seq![("requests.cpu"@, "1"@), ("requests.memory"@, "500Mi"@)]),
                scope_selector: None,
                scopes: None,
            };
            let binding_of = |subject: Seq<char>|
                RoleBindingView {
                    role_ref: RoleRefView {
                        api_group: "rbac.authorization.k8s.io"@,
                        kind: "ClusterRole"@,
                        name: config.default_role_name,
                    },
                    subjects: Some(
                        seq![
                            SubjectView {
                                api_group: Some("rbac.authorization.k8s.io"@),
                                kind: "User"@,
                                name: subject,
                                namespace: None,
                            },
                        ],
                    ),
                };
            &&& patched(spec, operations) matches Some(result)
            &&& result.role == spec.role
            &&& normal ==> {
                &&& result.kube_username == object.name
                &&& result.quota == Some(quota)
                &&& result.rolebinding == Some(binding_of(username))
            }
            &&& !normal ==> {
                &&& result.kube_username == spec.kube_username
                &&& spec.kube_username is Some
                &&& spec.quota is Some ==> result.quota == spec.quota
                &&& spec.quota is None ==> result.quota == Some(quota)
                &&& spec.rolebinding is Some ==> result.rolebinding == spec.rolebinding
                &&& spec.rolebinding is None ==> result.rolebinding == Some(
                    binding_of(spec.kube_username->0),
                )
            }
        }),
{
    let user = username_of(username, config.oidc_username_prefix);
    admitted_bootstraps_are_complete(user, spec, config.default_role_name, operations);
}

/// A patch touches what was left open and nothing else: the username of a normal user's bootstrap
/// once, and quota and role binding, where they were open, twice each, first with an empty object.
/// A deletion is not patched, nor is a request without an object.
pub proof fn patches_touch_open_fields_only(
    request: AdmissionRequestView,
    config: ConfigView,
    username: Seq<char>,
    operations: Seq<AddOperationView>,
)
    requires
        request.user_info.username == Some(username),
        decision(request, config) == DecisionView::Allow(operations),
    ensures
        request.operation == Operation::Delete || request.object is None ==> operations.len() == 0,
        request.operation != Operation::Delete && request.object is Some ==> {
            let spec = request.object->0.bootstrap->Ok_0.spec;
            let names: int = if config.oidc_username_prefix.is_prefix_of(username) {
                1
            } else {
                0
            };
            let quotas: int = if spec.quota is None {
                2
            } else {
                0
            };
            let bindings: int = if spec.rolebinding is None {
                2
            } else {
                0
            };
            &&& operations.len() == names + quotas + bindings
            &&& names > 0 ==> operations[0].path == "/spec/kube_username"@
            &&& quotas > 0 ==> {
                &&& operations[names].path == "/spec/quota"@
                &&& operations[names].value is EmptyObject
                &&& operations[names + 1].path == "/spec/quota"@
            }
            &&& bindings > 0 ==> {
                &&& operations[names + quotas].path == "/spec/rolebinding"@
                &&& operations[names + quotas].value is EmptyObject
                &&& operations[names + quotas + 1].path == "/spec/rolebinding"@
            }
        },
{
}

/// An answer says what was decided. One to a request that makes no sense is a failure that gives
/// the reason, without uid and with the type of an older review; a refusal gives the reason; one
/// that allows gives none. No answer suggests a code.
pub proof fn answers_say_what_was_decided(request: AdmissionRequestView, decided: DecisionView)
    ensures
        ({
            let response = answer(request, decided);
            &&& response.result.code == 0
            &&& match decided {
                DecisionView::Invalid(reason) => {
                    &&& !response.allowed
                    &&& response.result.message == reason
                    &&& response.result.reason == "InvalidRequest"@
                    &&& response.result.status == Some(StatusSummary::Failure)
                    &&& response.uid.len() == 0
                    &&& response.types.api_version == "admission.k8s.io/v1beta1"@
                    &&& response.types.kind == "AdmissionReview"@
                },
                DecisionView::Deny(reason) => {
                    &&& !response.allowed
                    &&& response.result.message == reason
                    &&& response.result.reason.len() == 0
                    &&& response.result.status is None
                },
                DecisionView::Allow(_) => {
                    &&& response.allowed
                    &&& response.result.message.len() == 0
                    &&& response.result.reason.len() == 0
                    &&& response.result.status is None
                },
            }
        }),
{
}

/// A review is allowed exactly when its request is, whatever type the request itself carries, and
/// one that holds no request is refused.
pub proof fn reviews_are_decided_by_their_request(review: AdmissionReviewView, config: ConfigView)
    ensures
        handled(review, config).response matches Some(response) && match review.request {
            Some(request) => {
                &&& response.allowed <==> decision(request, config) is Allow
                &&& decision(request, config) matches DecisionView::Deny(reason)
                    ==> response.result.message == reason
                &&& decision(request, config) matches DecisionView::Invalid(reason)
                    ==> response.result.message == reason
                &&& decision(request, config) matches DecisionView::Allow(operations)
                    ==> response.patch == (if operations.len() == 0 {
                    None
                } else {
                    Some(patch_body(operations))
                })
            },
            None => {
                &&& !response.allowed
                &&& response.patch is None
                &&& response.result.message
                    == "failed to convert AdmissionReview into AdmissionRequest"@
            },
        },
{
}

/// What a request and a configuration say is what they hold.
pub proof fn requests_say_what_they_hold(request: AdmissionRequest, config: Config)
    ensures
        request.deep_view().uid == request.uid@,
        request.deep_view().operation == request.operation,
        request.deep_view().types.api_version == request.types.api_version@,
        request.deep_view().types.kind == request.types.kind@,
        request.deep_view().user_info.username == request.user_info.username.deep_view(),
        request.deep_view().user_info.groups == request.user_info.groups.deep_view(),
        request.deep_view().object is Some <==> request.object is Some,
        request.object matches Some(object) ==> {
            &&& request.deep_view().object->0.name == object.name.deep_view()
            &&& request.deep_view().object->0.bootstrap is Ok <==> object.bootstrap is Ok
            &&& object.bootstrap matches Ok(bootstrap) ==> request.deep_view().object->0.bootstrap->Ok_0
                == bootstrap.deep_view()
            &&& object.bootstrap matches Err(error) ==> request.deep_view().object->0.bootstrap->Err_0
                == error@
        },
        config.deep_view().oidc_username_prefix == config.oidc_username_prefix@,
        config.deep_view().default_role_name == config.default_role_name@,
        config.deep_view().authorized_group_names == config.authorized_group_names.deep_view(),
{
}

} // verus!
