use bacchus_gpu_controller::controller::{
    advance_reconcile, error_policy, flatten_error, plan, plan_under, reconcile, Action, Apply,
    ClusterObject, ControllerError, Error, ReconcileStep,
};
use bacchus_gpu_controller::crd::{
    RoleBinding, UserBootstrap, UserBootstrapSpec, UserBootstrapStatus,
};
use bacchus_gpu_controller::k8s::{
    Metadata, OwnerReference, PatchParams, PolicyRule, ResourceQuotaSpec, Role, RoleRef, Subject,
};

fn quota() -> ResourceQuotaSpec {
    ResourceQuotaSpec {
        hard: Some(vec![("requests.cpu".to_string(), "1".to_string())]),
        scope_selector: None,
        scopes: Some(vec!["Terminating".to_string()]),
    }
}

fn role() -> Role {
    Role {
        metadata: Metadata {
            name: Some("helper".to_string()),
            rest: Some(k8s_openapi::apimachinery::pkg::apis::meta::v1::ObjectMeta {
                generate_name: Some("kept".to_string()),
                ..Default::default()
            }),
            ..Metadata::default()
        },
        rules: Some(vec![PolicyRule {
            api_groups: Some(vec!["".to_string()]),
            non_resource_urls: None,
            resource_names: None,
            resources: Some(vec!["pods".to_string()]),
            verbs: vec!["get".to_string()],
        }]),
    }
}

fn binding() -> RoleBinding {
    RoleBinding {
        role_ref: RoleRef {
            api_group: "rbac.authorization.k8s.io".to_string(),
            kind: "ClusterRole".to_string(),
            name: "user".to_string(),
        },
        subjects: Some(vec![Subject {
            api_group: None,
            kind: "User".to_string(),
            name: "alice".to_string(),
            namespace: None,
        }]),
    }
}

fn bootstrap(synchronized: Option<bool>) -> UserBootstrap {
    UserBootstrap {
        metadata: Metadata {
            name: Some("Alice".to_string()),
            uid: Some("uid-1".to_string()),
            ..Metadata::default()
        },
        spec: UserBootstrapSpec {
            kube_username: Some("alice".to_string()),
            quota: Some(quota()),
            role: Some(role()),
            rolebinding: Some(binding()),
        },
        status: synchronized
            .map(|synchronized_with_sheet| UserBootstrapStatus { synchronized_with_sheet }),
    }
}

fn owner() -> OwnerReference {
    OwnerReference {
        api_version: "bacchus.io/v1".to_string(),
        block_owner_deletion: None,
        controller: Some(true),
        kind: "UserBootstrap".to_string(),
        name: "Alice".to_string(),
        uid: "uid-1".to_string(),
    }
}

fn owned() -> Metadata {
    Metadata {
        name: Some("alice".to_string()),
        owner_references: Some(vec![owner()]),
        ..Metadata::default()
    }
}

fn forced() -> PatchParams {
    PatchParams {
        field_manager: Some("bacchus-gpu-controller.bacchus.io".to_string()),
        force: true,
    }
}

#[test]
fn owner_reference_needs_name_and_uid() {
    assert_eq!(bootstrap(None).controller_owner_ref(), Some(owner()));
    let mut nameless = bootstrap(None);
    nameless.metadata.name = None;
    assert_eq!(nameless.controller_owner_ref(), None);
    let mut unborn = bootstrap(None);
    unborn.metadata.uid = None;
    assert_eq!(unborn.controller_owner_ref(), None);
}

#[test]
fn everything_is_applied_in_order() {
    let applies = reconcile(bootstrap(Some(true))).unwrap();
    assert_eq!(applies.len(), 4);
    for apply in &applies {
        assert_eq!(apply.name, "alice");
        assert_eq!(apply.params, forced());
    }
    assert_eq!(applies[0].namespace, None);
    assert_eq!(applies[1].namespace, Some("alice".to_string()));
    assert_eq!(applies[2].namespace, Some("alice".to_string()));
    assert_eq!(applies[3].namespace, Some("alice".to_string()));
    match &applies[0].object {
        ClusterObject::Namespace(namespace) => assert_eq!(namespace.metadata, owned()),
        other => panic!("unexpected {:?}", other),
    }
    match &applies[1].object {
        ClusterObject::ResourceQuota(applied) => {
            assert_eq!(applied.metadata, owned());
            assert_eq!(applied.spec, Some(quota()));
        }
        other => panic!("unexpected {:?}", other),
    }
    match &applies[2].object {
        ClusterObject::Role(applied) => {
            let mut expected = role();
            expected.metadata.owner_references = Some(vec![owner()]);
            assert_eq!(*applied, expected);
        }
        other => panic!("unexpected {:?}", other),
    }
    match &applies[3].object {
        ClusterObject::RoleBinding(applied) => {
            assert_eq!(applied.metadata, owned());
            assert_eq!(applied.role_ref, binding().role_ref);
            assert_eq!(applied.subjects, binding().subjects);
        }
        other => panic!("unexpected {:?}", other),
    }
}

#[test]
fn binding_waits_for_the_sheet() {
    assert_eq!(reconcile(bootstrap(Some(false))).unwrap().len(), 3);
    assert_eq!(reconcile(bootstrap(None)).unwrap().len(), 3);
    assert_eq!(reconcile(bootstrap(Some(true))).unwrap().len(), 4);
}

#[test]
fn only_the_namespace_without_a_spec() {
    let mut bare = bootstrap(Some(true));
    bare.spec = UserBootstrapSpec::default();
    let applies = reconcile(bare).unwrap();
    assert_eq!(applies.len(), 1);
    assert!(matches!(applies[0].object, ClusterObject::Namespace(_)));
}

#[test]
fn names_are_lowercased() {
    let mut named = bootstrap(None);
    named.metadata.name = Some("ÄLICE".to_string());
    let applies = reconcile(named).unwrap();
    assert_eq!(applies[0].name, "älice");
}

#[test]
fn missing_name_is_reported() {
    let mut nameless = bootstrap(None);
    nameless.metadata.name = None;
    let error = plan(nameless, &owner()).unwrap_err();
    assert_eq!(error, ControllerError::MissingObjectKey(".metadata.name".to_string()));
    assert_eq!(error.message(), "missing object key: .metadata.name");
}

#[test]
fn plans_use_the_given_name() {
    let applies = plan_under("Given".to_string(), bootstrap(None), &owner());
    assert_eq!(applies[0].name, "Given");
    assert_eq!(applies[1].namespace, Some("Given".to_string()));
    assert_eq!(plan_under("alice".to_string(), bootstrap(Some(true)), &owner()),
        plan(bootstrap(Some(true)), &owner()).unwrap());
}

fn run(mut outcomes: Vec<Result<(), String>>) -> (Vec<Apply>, ReconcileStep) {
    let mut pending = reconcile(bootstrap(Some(true))).unwrap();
    let mut issued = Vec::new();
    let mut outcome = Ok(());
    loop {
        match advance_reconcile(&mut pending, outcome) {
            ReconcileStep::Apply(apply) => {
                issued.push(apply);
                outcome = outcomes.remove(0);
            }
            last => return (issued, last),
        }
    }
}

#[test]
fn successful_run_is_requeued() {
    let (issued, last) = run(vec![Ok(()), Ok(()), Ok(()), Ok(())]);
    assert_eq!(issued, reconcile(bootstrap(Some(true))).unwrap());
    assert_eq!(last, ReconcileStep::Finish(Action::Requeue(30)));
}

#[test]
fn failed_apply_ends_the_run() {
    let (issued, last) = run(vec![Ok(()), Err("conflict".to_string())]);
    assert_eq!(issued.len(), 2);
    assert_eq!(
        last,
        ReconcileStep::Fail(ControllerError::PatchFailed("conflict".to_string()))
    );
}

#[test]
fn failed_namespace_stays_alone() {
    let (issued, _) = run(vec![Err("forbidden".to_string())]);
    assert_eq!(issued.len(), 1);
    assert!(matches!(issued[0].object, ClusterObject::Namespace(_)));
}

#[test]
fn errors_are_reported_and_retried() {
    let mut named = bootstrap(None);
    named.metadata.namespace = Some("lab".to_string());
    let error = ControllerError::PatchFailed("conflict".to_string());
    let report = error_policy(&named, &error);
    assert_eq!(report.message, "error reconciling \"lab/Alice\": patch failed: conflict");
    assert_eq!(report.action, Action::Requeue(3));
    let report = error_policy(&UserBootstrap::default(), &error);
    assert_eq!(
        report.message,
        "error reconciling \"<unknown>/<unknown>\": patch failed: conflict"
    );
}

#[test]
fn joined_results_are_flattened() {
    assert_eq!(flatten_error(Ok(Ok(5))), Ok(5));
    let error = flatten_error::<u8>(Ok(Err(Error::SignalHandlerError))).unwrap_err();
    assert_eq!(error, Error::SignalHandlerError);
    assert_eq!(error.message(), "signal handling error");
    assert_eq!(
        Error::HttpServerError("address in use".to_string()).message(),
        "http server error: address in use"
    );
}

#[test]
fn default_status_is_not_synchronized() {
    assert!(!UserBootstrapStatus::default().synchronized_with_sheet);
    assert_eq!(RoleBinding::default().subjects, None);
    assert_eq!(RoleBinding::default().role_ref.name, "");
}
