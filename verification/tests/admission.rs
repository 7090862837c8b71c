use bacchus_gpu_controller::admission::{
    comma_separated, decide, is_in_authorized_group, mutate, mutate_handler, AppState, Config,
    Decision, Username, UsernameKind,
};
use bacchus_gpu_controller::crd::{RoleBinding, UserBootstrap};
use bacchus_gpu_controller::k8s::ResourceQuotaSpec;
use bacchus_gpu_controller::patch::{AddOperation, PatchValue};
use bacchus_gpu_controller::review::{
    AdmissionRequest, AdmissionResponse, AdmissionReview, Error, Operation, PatchType,
    RequestObject, StatusSummary, TypeMeta, UserInfo,
};

fn state() -> AppState {
    AppState {
        config: Config {
            oidc_username_prefix: "oidc:".to_string(),
            default_role_name: "gpu-user".to_string(),
            authorized_group_names: comma_separated("bacchus,lab"),
        },
    }
}

fn request(operation: Operation, username: &str, bootstrap: UserBootstrap) -> AdmissionRequest {
    AdmissionRequest {
        types: TypeMeta {
            api_version: "admission.k8s.io/v1".to_string(),
            kind: "AdmissionReview".to_string(),
        },
        uid: "0c9a8d74".to_string(),
        operation,
        user_info: UserInfo {
            username: Some(username.to_string()),
            groups: Some(vec!["students".to_string(), "lab".to_string()]),
        },
        object: Some(RequestObject {
            name: Some("alice".to_string()),
            bootstrap: Ok(bootstrap),
        }),
    }
}

fn named(kube_username: Option<&str>) -> UserBootstrap {
    let mut bootstrap = UserBootstrap::default();
    bootstrap.spec.kube_username = kube_username.map(|name| name.to_string());
    bootstrap
}

fn some_quota() -> Option<ResourceQuotaSpec> {
    Some(ResourceQuotaSpec { hard: None, scope_selector: None, scopes: None })
}

fn assert_denied(request: &AdmissionRequest, reason: &str) {
    assert_eq!(decide(request, &state().config), Decision::Deny(reason.to_string()));
    let response = mutate(request, &state()).unwrap();
    assert!(!response.allowed);
    assert_eq!(response.result.message, reason);
    assert_eq!(response.result.status, None);
    assert_eq!(response.uid, request.uid);
    assert_eq!(response.types, request.types);
    assert_eq!(response.patch, None);
    assert_eq!(response.patch_type, None);
}

fn assert_invalid(request: &AdmissionRequest, reason: &str) {
    assert_eq!(decide(request, &state().config), Decision::Invalid(reason.to_string()));
    let response = mutate(request, &state()).unwrap();
    assert!(!response.allowed);
    assert_eq!(response.result.message, reason);
    assert_eq!(response.result.reason, "InvalidRequest");
    assert_eq!(response.result.status, Some(StatusSummary::Failure));
    assert_eq!(response.uid, "");
    assert_eq!(response.types.api_version, "admission.k8s.io/v1beta1");
    assert_eq!(response.types.kind, "AdmissionReview");
    assert_eq!(response.patch, None);
}

fn assert_patched(request: &AdmissionRequest, patch: &str) {
    let response = mutate(request, &state()).unwrap();
    assert!(response.allowed);
    assert_eq!(String::from_utf8(response.patch.unwrap()).unwrap(), patch);
    assert_eq!(response.patch_type, Some(PatchType::JsonPatch));
    assert_eq!(response.uid, request.uid);
}

fn assert_unchanged(request: &AdmissionRequest) {
    assert_eq!(decide(request, &state().config), Decision::Allow(Vec::new()));
    let response = mutate(request, &state()).unwrap();
    assert!(response.allowed);
    assert_eq!(response.patch, None);
    assert_eq!(response.patch_type, None);
    assert_eq!(response.result.message, "");
}

const QUOTA_PATCH: &str = "{\"op\":\"add\",\"path\":\"/spec/quota\",\"value\":{}},\
{\"op\":\"add\",\"path\":\"/spec/quota\",\"value\":{\"hard\":{\"requests.cpu\":\"1\",\
\"requests.memory\":\"500Mi\"}}}";

fn binding_patch(subject: &str) -> String {
    format!(
        "{{\"op\":\"add\",\"path\":\"/spec/rolebinding\",\"value\":{{}}}},\
         {{\"op\":\"add\",\"path\":\"/spec/rolebinding\",\"value\":{{\"role_ref\":{{\
         \"apiGroup\":\"rbac.authorization.k8s.io\",\"kind\":\"ClusterRole\",\
         \"name\":\"gpu-user\"}},\"subjects\":[{{\"apiGroup\":\"rbac.authorization.k8s.io\",\
         \"kind\":\"User\",\"name\":\"{}\"}}]}}}}",
        subject
    )
}

#[test]
fn usernames() {
    let normal = Username::from("oidc:alice", "oidc:");
    assert_eq!(normal.original_username, "oidc:alice");
    assert_eq!(normal.kube_username, "alice");
    assert_eq!(normal.kind, UsernameKind::Normal);
    let admin = Username::from("kubernetes-admin", "oidc:");
    assert_eq!(admin.original_username, "kubernetes-admin");
    assert_eq!(admin.kube_username, "kubernetes-admin");
    assert_eq!(admin.kind, UsernameKind::Admin);
    let bare = Username::from("oidc:", "oidc:");
    assert_eq!(bare.kube_username, "");
    assert_eq!(bare.kind, UsernameKind::Normal);
    assert_eq!(Username::from("anyone", "").kind, UsernameKind::Normal);
}

#[test]
fn groups() {
    let authorized = vec!["bacchus".to_string(), "lab".to_string()];
    assert!(is_in_authorized_group(&Some(vec!["x".to_string(), "lab".to_string()]), &authorized));
    assert!(!is_in_authorized_group(&Some(vec!["x".to_string()]), &authorized));
    assert!(!is_in_authorized_group(&Some(Vec::new()), &authorized));
    assert!(!is_in_authorized_group(&None, &authorized));
}

#[test]
fn normal_user_gets_the_defaults() {
    let request = request(Operation::Create, "oidc:alice", named(None));
    assert_patched(
        &request,
        &format!(
            "[{{\"op\":\"add\",\"path\":\"/spec/kube_username\",\"value\":\"alice\"}},{},{}]",
            QUOTA_PATCH,
            binding_patch("oidc:alice")
        ),
    );
}

#[test]
fn normal_user_cannot_choose_another_name() {
    let request = request(Operation::Create, "oidc:alice", named(Some("root")));
    assert_patched(
        &request,
        &format!(
            "[{{\"op\":\"add\",\"path\":\"/spec/kube_username\",\"value\":\"alice\"}},{},{}]",
            QUOTA_PATCH,
            binding_patch("oidc:alice")
        ),
    );
}

#[test]
fn decision_holds_the_operations() {
    let mut bootstrap = named(Some("alice"));
    bootstrap.spec.rolebinding = Some(RoleBinding::default());
    let request = request(Operation::Create, "admin", bootstrap);
    assert_eq!(
        decide(&request, &state().config),
        Decision::Allow(vec![
            AddOperation { path: "/spec/quota".to_string(), value: PatchValue::EmptyObject },
            AddOperation {
                path: "/spec/quota".to_string(),
                value: PatchValue::Quota(vec![
                    ("requests.cpu".to_string(), "1".to_string()),
                    ("requests.memory".to_string(), "500Mi".to_string()),
                ]),
            },
        ])
    );
}

#[test]
fn admin_gets_defaults_for_what_is_open() {
    let mut open = request(Operation::Create, "admin", named(Some("alice")));
    open.user_info.groups = None;
    assert_patched(&open, &format!("[{},{}]", QUOTA_PATCH, binding_patch("alice")));
    let mut bootstrap = named(Some("alice"));
    bootstrap.spec.quota = some_quota();
    let with_quota = request(Operation::Update, "admin", bootstrap);
    assert_patched(&with_quota, &format!("[{}]", binding_patch("alice")));
}

#[test]
fn complete_bootstrap_is_left_alone() {
    let mut bootstrap = named(Some("alice"));
    bootstrap.spec.quota = some_quota();
    bootstrap.spec.rolebinding = Some(RoleBinding::default());
    assert_unchanged(&request(Operation::Update, "admin", bootstrap));
}

#[test]
fn admin_has_to_name_the_user() {
    let reason = "kube_username field is empty. you are an admin, so fill it";
    assert_denied(&request(Operation::Create, "admin", named(None)), reason);
    assert_denied(&request(Operation::Update, "admin", named(Some(""))), reason);
}

#[test]
fn admin_may_delete_and_normal_user_may_not() {
    assert_unchanged(&request(Operation::Delete, "admin", named(None)));
    assert_denied(
        &request(Operation::Delete, "oidc:alice", named(None)),
        "normal user is not allowed to delete resource",
    );
}

#[test]
fn normal_user_may_not_update() {
    assert_denied(
        &request(Operation::Update, "oidc:alice", named(None)),
        "normal user is not allowed to update resource",
    );
}

#[test]
fn normal_user_has_to_be_in_a_group() {
    let mut request = request(Operation::Create, "oidc:alice", named(None));
    request.user_info.groups = Some(vec!["students".to_string()]);
    assert_denied(&request, "user is not in authorized group");
    request.user_info.groups = None;
    assert_denied(&request, "user is not in authorized group");
}

#[test]
fn groups_do_not_matter_elsewhere() {
    let cases = [
        (Operation::Create, "admin"),
        (Operation::Update, "admin"),
        (Operation::Delete, "admin"),
        (Operation::Update, "oidc:alice"),
        (Operation::Delete, "oidc:alice"),
    ];
    for (operation, username) in cases {
        let grouped = request(operation, username, named(Some("alice")));
        let mut alone = request(operation, username, named(Some("alice")));
        alone.user_info.groups = None;
        assert_eq!(decide(&grouped, &state().config), decide(&alone, &state().config));
    }
    let mut other = request(Operation::Create, "oidc:alice", named(None));
    other.user_info.groups = Some(vec!["bacchus".to_string()]);
    let first = request(Operation::Create, "oidc:alice", named(None));
    assert_eq!(decide(&first, &state().config), decide(&other, &state().config));
}

#[test]
fn normal_user_creates_own_bootstrap_only() {
    assert_denied(
        &request(Operation::Create, "oidc:bob", named(None)),
        "username not match with resource name",
    );
}

#[test]
fn normal_user_leaves_quota_and_binding_open() {
    let mut bootstrap = named(None);
    bootstrap.spec.rolebinding = Some(RoleBinding::default());
    assert_denied(
        &request(Operation::Create, "oidc:alice", bootstrap.clone()),
        "rolebinding field is not empty. you are a normal user, so leave it empty",
    );
    bootstrap.spec.quota = some_quota();
    assert_denied(
        &request(Operation::Create, "oidc:alice", bootstrap),
        "quota field is not empty. you are a normal user, so leave it empty",
    );
}

#[test]
fn senseless_requests() {
    let mut nobody = request(Operation::Create, "x", named(None));
    nobody.user_info.username = None;
    assert_invalid(&nobody, "cannot get requester's username from request");
    assert_invalid(&request(Operation::Connect, "admin", named(None)), "invalid operation");
    let mut nameless = request(Operation::Create, "admin", named(Some("alice")));
    nameless.object = Some(RequestObject { name: None, bootstrap: Ok(named(Some("alice"))) });
    assert_invalid(&nameless, "cannot get resource name from request");
    let mut unparsed = request(Operation::Create, "admin", named(Some("alice")));
    unparsed.object = Some(RequestObject {
        name: Some("alice".to_string()),
        bootstrap: Err("missing field `spec`".to_string()),
    });
    assert_invalid(&unparsed, "missing field `spec`");
    unparsed.user_info.username = Some("oidc:bob".to_string());
    assert_denied(&unparsed, "username not match with resource name");
}

#[test]
fn request_without_an_object_is_allowed() {
    let mut request = request(Operation::Create, "oidc:alice", named(None));
    request.object = None;
    assert_unchanged(&request);
}

fn review(request: Option<AdmissionRequest>) -> AdmissionReview {
    AdmissionReview {
        types: TypeMeta {
            api_version: "admission.k8s.io/v1".to_string(),
            kind: "AdmissionReview".to_string(),
        },
        request,
        response: None,
    }
}

#[test]
fn answer_takes_over_the_type_of_the_review() {
    let mut request = request(Operation::Delete, "admin", named(None));
    request.types = TypeMeta { api_version: String::new(), kind: String::new() };
    let answered = mutate_handler(review(Some(request)), &state()).unwrap();
    assert_eq!(answered.types.api_version, "admission.k8s.io/v1");
    assert_eq!(answered.request, None);
    let response = answered.response.unwrap();
    assert_eq!(response.types.api_version, "admission.k8s.io/v1");
    assert_eq!(response.uid, "0c9a8d74");
    assert!(response.allowed);
}

#[test]
fn review_without_a_request_is_invalid() {
    let answered = mutate_handler(review(None), &state()).unwrap();
    assert_eq!(answered.types.api_version, "admission.k8s.io/v1beta1");
    let response = answered.response.unwrap();
    assert!(!response.allowed);
    assert_eq!(
        response.result.message,
        "failed to convert AdmissionReview into AdmissionRequest"
    );
}

#[test]
fn responses_match_those_of_kube() {
    let outside = kube::core::admission::AdmissionResponse::invalid("no");
    let ours = AdmissionResponse::invalid("no");
    assert_eq!(ours.types.api_version, outside.types.api_version);
    assert_eq!(ours.types.kind, outside.types.kind);
    assert_eq!(ours.uid, outside.uid);
    assert_eq!(ours.allowed, outside.allowed);
    assert_eq!(ours.result.code, outside.result.code);
    assert_eq!(ours.result.message, outside.result.message);
    assert_eq!(ours.result.reason, outside.result.reason);
    let outside = outside.deny("why");
    let ours = ours.deny("why");
    assert_eq!(ours.allowed, outside.allowed);
    assert_eq!(ours.result.message, outside.result.message);
    assert_eq!(ours.result.reason, outside.result.reason);
}

#[test]
fn encoded_patches_are_attached() {
    let request = request(Operation::Create, "admin", named(None));
    let response = AdmissionResponse::from_request(&request);
    let response = response.with_encoded_patch(Ok(b"[]".to_vec())).unwrap();
    assert!(response.allowed);
    assert_eq!(response.patch, Some(b"[]".to_vec()));
    assert_eq!(response.patch_type, Some(PatchType::JsonPatch));
    let response = AdmissionResponse::from_request(&request);
    assert_eq!(
        response.with_encoded_patch(Err("cause".to_string())),
        Err(Error::SerializePatchError("cause".to_string()))
    );
}

#[test]
fn error_messages() {
    assert_eq!(
        Error::SerializePatchError("cause".to_string()).message(),
        "failed to serialize patch: cause"
    );
    assert_eq!(
        Error::CertReadError("cause".to_string()).message(),
        "failed to read cert: cause"
    );
}
