//! The `UserBootstrap` resource, of group `bacchus.io` and version `v1`.

use crate::k8s::{
    Metadata, MetadataView, OwnerReference, OwnerReferenceView, ResourceQuotaSpec,
    ResourceQuotaSpecView, Role, RoleRef, RoleRefView, RoleView, Subject, SubjectView,
};
use vstd::prelude::*;

verus! {

/// A role binding without metadata.
#[derive(Clone, Debug, PartialEq)]
pub struct RoleBinding {
    pub role_ref: RoleRef,
    pub subjects: Option<Vec<Subject>>,
}

/// What a `RoleBinding` says.
#[verifier::ext_equal]
pub struct RoleBindingView {
    pub role_ref: RoleRefView,
    pub subjects: Option<Seq<SubjectView>>,
}

impl DeepView for RoleBinding {
    type V = RoleBindingView;

    open spec fn deep_view(&self) -> RoleBindingView {
        RoleBindingView {
            role_ref: self.role_ref.deep_view(),
            subjects: self.subjects.deep_view(),
        }
    }
}

impl Default for RoleBinding {
    fn default() -> (binding: Self)
        ensures
            binding.role_ref.deep_view() == (RoleRefView {
                api_group: Seq::empty(),
                kind: Seq::empty(),
                name: Seq::empty(),
            }),
            binding.subjects is None,
    {
        RoleBinding { role_ref: RoleRef::default(), subjects: None }
    }
}

/// What is wanted for one user.
#[derive(Clone, Debug, PartialEq)]
pub struct UserBootstrapSpec {
    /// Kubernetes username.
    pub kube_username: Option<String>,
    /// ResourceQuota in the namespace.
    pub quota: Option<ResourceQuotaSpec>,
    /// Role in the namespace. If not specified, no additional Role is created.
    pub role: Option<Role>,
    /// RoleBinding in the namespace. If not specified, the admission controller fills in a
    /// default one.
    pub rolebinding: Option<RoleBinding>,
}

/// What a `UserBootstrapSpec` says.
#[verifier::ext_equal]
pub struct UserBootstrapSpecView {
    pub kube_username: Option<Seq<char>>,
    pub quota: Option<ResourceQuotaSpecView>,
    pub role: Option<RoleView>,
    pub rolebinding: Option<RoleBindingView>,
}

impl DeepView for UserBootstrapSpec {
    type V = UserBootstrapSpecView;

    open spec fn deep_view(&self) -> UserBootstrapSpecView {
        UserBootstrapSpecView {
            kube_username: self.kube_username.deep_view(),
            quota: self.quota.deep_view(),
            role: self.role.deep_view(),
            rolebinding: self.rolebinding.deep_view(),
        }
    }
}

impl Default for UserBootstrapSpec {
    fn default() -> (spec: Self)
        ensures
            spec.kube_username is None,
            spec.quota is None,
            spec.role is None,
            spec.rolebinding is None,
    {
        UserBootstrapSpec { kube_username: None, quota: None, role: None, rolebinding: None }
    }
}

/// What has been observed of a bootstrap.
#[derive(Clone, Copy, Debug, PartialEq, Eq, Structural)]
pub struct UserBootstrapStatus {
    /// Whether the request sheet has a matching entry. The role binding waits for it.
    pub synchronized_with_sheet: bool,
}

impl Default for UserBootstrapStatus {
    fn default() -> (status: Self)
        ensures
            status == (UserBootstrapStatus { synchronized_with_sheet: false }),
    {
        UserBootstrapStatus { synchronized_with_sheet: false }
    }
}

/// The request to set up one user, cluster-scoped.
#[derive(Clone, Debug, PartialEq)]
pub struct UserBootstrap {
    pub metadata: Metadata,
    pub spec: UserBootstrapSpec,
    pub status: Option<UserBootstrapStatus>,
}

/// What a `UserBootstrap` says.
#[verifier::ext_equal]
pub struct UserBootstrapView {
    pub metadata: MetadataView,
    pub spec: UserBootstrapSpecView,
    pub status: Option<UserBootstrapStatus>,
}

impl DeepView for UserBootstrap {
    type V = UserBootstrapView;

    open spec fn deep_view(&self) -> UserBootstrapView {
        UserBootstrapView {
            metadata: self.metadata.deep_view(),
            spec: self.spec.deep_view(),
            status: self.status,
        }
    }
}

impl Default for UserBootstrap {
    fn default() -> (bootstrap: Self)
        ensures
            bootstrap.deep_view() == (UserBootstrapView {
                metadata: MetadataView {
                    name: None,
                    namespace: None,
                    uid: None,
                    owner_references: None,
                    rest: None,
                },
                spec: UserBootstrapSpecView {
                    kube_username: None,
                    quota: None,
                    role: None,
                    rolebinding: None,
                },
                status: None,
            }),
    {
        UserBootstrap {
            metadata: Metadata::default(),
            spec: UserBootstrapSpec::default(),
            status: None,
        }
    }
}

impl UserBootstrapView {
    /// The reference by which an object is marked as controlled by this bootstrap: it needs a name
    /// and a uid.
    pub open spec fn controller_owner_ref(self) -> Option<OwnerReferenceView> {
        match (self.metadata.name, self.metadata.uid) {
            (Some(name), Some(uid)) => Some(
                OwnerReferenceView {
                    api_version: "bacchus.io/v1"@,
                    block_owner_deletion: None,
                    controller: Some(true),
                    kind: "UserBootstrap"@,
                    name,
                    uid,
                },
            ),
            _ => None,
        }
    }
}

impl UserBootstrap {
    /// The reference by which an object is marked as controlled by this bootstrap.
    pub fn controller_owner_ref(&self) -> (reference: Option<OwnerReference>)
        ensures
            reference.deep_view() == self.deep_view().controller_owner_ref(),
    {
        match (&self.metadata.name, &self.metadata.uid) {
            (Some(name), Some(uid)) => Some(
                OwnerReference {
                    api_version: "bacchus.io/v1".to_owned(),
                    block_owner_deletion: None,
                    controller: Some(true),
                    kind: "UserBootstrap".to_owned(),
                    name: name.clone(),
                    uid: uid.clone(),
                },
            ),
            _ => None,
        }
    }
}

/// A bootstrap can own objects exactly when it has a name and a uid, and the reference names that
/// bootstrap, as the controller, in the resource's own group, version and kind.
pub proof fn owner_references_name_the_bootstrap(bootstrap: UserBootstrapView)
    ensures
        bootstrap.controller_owner_ref() is Some <==> bootstrap.metadata.name is Some
            && bootstrap.metadata.uid is Some,
        bootstrap.controller_owner_ref() matches Some(reference) ==> {
            &&& bootstrap.metadata.name == Some(reference.name)
            &&& bootstrap.metadata.uid == Some(reference.uid)
            &&& reference.api_version == "bacchus.io/v1"@
            &&& reference.kind == "UserBootstrap"@
            &&& reference.controller == Some(true)
            &&& reference.block_owner_deletion is None
        },
{
}

/// What a bootstrap says is what it holds.
pub proof fn bootstraps_say_what_they_hold(bootstrap: UserBootstrap)
    ensures
        bootstrap.deep_view().status == bootstrap.status,
        bootstrap.deep_view().metadata.name == bootstrap.metadata.name.deep_view(),
        bootstrap.deep_view().metadata.namespace == bootstrap.metadata.namespace.deep_view(),
        bootstrap.deep_view().metadata.uid == bootstrap.metadata.uid.deep_view(),
        bootstrap.deep_view().metadata.owner_references
            == bootstrap.metadata.owner_references.deep_view(),
        bootstrap.deep_view().metadata.rest == bootstrap.metadata.rest,
        bootstrap.deep_view().spec.kube_username == bootstrap.spec.kube_username.deep_view(),
        bootstrap.deep_view().spec.quota is Some <==> bootstrap.spec.quota is Some,
        bootstrap.spec.quota matches Some(quota) ==> {
            &&& bootstrap.deep_view().spec.quota->0.hard == quota.hard.deep_view()
            &&& bootstrap.deep_view().spec.quota->0.scopes == quota.scopes.deep_view()
            &&& bootstrap.deep_view().spec.quota->0.scope_selector
                == quota.scope_selector.deep_view()
        },
        bootstrap.deep_view().spec.role is Some <==> bootstrap.spec.role is Some,
        bootstrap.spec.role matches Some(role) ==> {
            &&& bootstrap.deep_view().spec.role->0.rules == role.rules.deep_view()
            &&& bootstrap.deep_view().spec.role->0.metadata == role.metadata.deep_view()
        },
        bootstrap.deep_view().spec.rolebinding is Some <==> bootstrap.spec.rolebinding is Some,
        bootstrap.spec.rolebinding matches Some(binding) ==> {
            let said = bootstrap.deep_view().spec.rolebinding->0;
            &&& said.role_ref.api_group == binding.role_ref.api_group@
            &&& said.role_ref.kind == binding.role_ref.kind@
            &&& said.role_ref.name == binding.role_ref.name@
            &&& said.subjects == binding.subjects.deep_view()
        },
{
}

} // verus!
