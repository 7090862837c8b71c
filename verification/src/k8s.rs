//! The parts of Kubernetes objects that the rules of this crate read or write, as plain values.

use k8s_openapi::apimachinery::pkg::apis::meta::v1::ObjectMeta as ApiObjectMeta;
use vstd::prelude::*;

verus! {

/// `k8s_openapi`'s `ObjectMeta`, opaque to proofs. It is carried through unread, as the part of an
/// object's metadata that no rule looks at.
#[verifier::external_type_specification]
#[verifier::external_body]
pub struct ExApiObjectMeta(k8s_openapi::apimachinery::pkg::apis::meta::v1::ObjectMeta);

/// A reference to the object that owns another.
#[derive(Debug, PartialEq)]
pub struct OwnerReference {
    pub api_version: String,
    pub block_owner_deletion: Option<bool>,
    pub controller: Option<bool>,
    pub kind: String,
    pub name: String,
    pub uid: String,
}

/// What an `OwnerReference` says.
pub struct OwnerReferenceView {
    pub api_version: Seq<char>,
    pub block_owner_deletion: Option<bool>,
    pub controller: Option<bool>,
    pub kind: Seq<char>,
    pub name: Seq<char>,
    pub uid: Seq<char>,
}

impl DeepView for OwnerReference {
    type V = OwnerReferenceView;

    open spec fn deep_view(&self) -> OwnerReferenceView {
        OwnerReferenceView {
            api_version: self.api_version@,
            block_owner_deletion: self.block_owner_deletion,
            controller: self.controller,
            kind: self.kind@,
            name: self.name@,
            uid: self.uid@,
        }
    }
}

impl Clone for OwnerReference {
    fn clone(&self) -> (copy: Self)
        ensures
            copy == *self,
    {
        OwnerReference {
            api_version: self.api_version.clone(),
            block_owner_deletion: self.block_owner_deletion,
            controller: self.controller,
            kind: self.kind.clone(),
            name: self.name.clone(),
            uid: self.uid.clone(),
        }
    }
}

/// Object metadata: the fields that rules read or write, and the rest of it untouched.
#[derive(Clone, Debug, PartialEq)]
pub struct Metadata {
    pub name: Option<String>,
    pub namespace: Option<String>,
    pub uid: Option<String>,
    pub owner_references: Option<Vec<OwnerReference>>,
    /// Every other field, as it was read; `None` when there is nothing else.
    pub rest: Option<ApiObjectMeta>,
}

/// What a `Metadata` says.
#[verifier::ext_equal]
pub struct MetadataView {
    pub name: Option<Seq<char>>,
    pub namespace: Option<Seq<char>>,
    pub uid: Option<Seq<char>>,
    pub owner_references: Option<Seq<OwnerReferenceView>>,
    pub rest: Option<ApiObjectMeta>,
}

impl DeepView for Metadata {
    type V = MetadataView;

    open spec fn deep_view(&self) -> MetadataView {
        MetadataView {
            name: self.name.deep_view(),
            namespace: self.namespace.deep_view(),
            uid: self.uid.deep_view(),
            owner_references: self.owner_references.deep_view(),
            rest: self.rest,
        }
    }
}

impl Default for Metadata {
    fn default() -> (metadata: Self)
        ensures
            metadata.deep_view() == (MetadataView {
                name: None,
                namespace: None,
                uid: None,
                owner_references: None,
                rest: None,
            }),
    {
        Metadata { name: None, namespace: None, uid: None, owner_references: None, rest: None }
    }
}

/// One requirement of a quota's scope selector.
#[derive(Clone, Debug, PartialEq)]
pub struct ScopeRequirement {
    pub operator: String,
    pub scope_name: String,
    pub values: Option<Vec<String>>,
}

/// What a `ScopeRequirement` says.
#[verifier::ext_equal]
pub struct ScopeRequirementView {
    pub operator: Seq<char>,
    pub scope_name: Seq<char>,
    pub values: Option<Seq<Seq<char>>>,
}

impl DeepView for ScopeRequirement {
    type V = ScopeRequirementView;

    open spec fn deep_view(&self) -> ScopeRequirementView {
        ScopeRequirementView {
            operator: self.operator@,
            scope_name: self.scope_name@,
            values: self.values.deep_view(),
        }
    }
}

/// The filters of a quota that name scopes by requirement.
#[derive(Clone, Debug, PartialEq)]
pub struct ScopeSelector {
    pub match_expressions: Option<Vec<ScopeRequirement>>,
}

/// What a `ScopeSelector` says.
#[verifier::ext_equal]
pub struct ScopeSelectorView {
    pub match_expressions: Option<Seq<ScopeRequirementView>>,
}

impl DeepView for ScopeSelector {
    type V = ScopeSelectorView;

    open spec fn deep_view(&self) -> ScopeSelectorView {
        ScopeSelectorView { match_expressions: self.match_expressions.deep_view() }
    }
}

/// The limits that a resource quota enforces.
#[derive(Clone, Debug, PartialEq)]
pub struct ResourceQuotaSpec {
    /// Resource names with the quantity that each is limited to; no name stands there twice.
    pub hard: Option<Vec<(String, String)>>,
    pub scope_selector: Option<ScopeSelector>,
    pub scopes: Option<Vec<String>>,
}

/// What a `ResourceQuotaSpec` says.
#[verifier::ext_equal]
pub struct ResourceQuotaSpecView {
    pub hard: Option<Seq<(Seq<char>, Seq<char>)>>,
    pub scope_selector: Option<ScopeSelectorView>,
    pub scopes: Option<Seq<Seq<char>>>,
}

impl DeepView for ResourceQuotaSpec {
    type V = ResourceQuotaSpecView;

    open spec fn deep_view(&self) -> ResourceQuotaSpecView {
        ResourceQuotaSpecView {
            hard: self.hard.deep_view(),
            scope_selector: self.scope_selector.deep_view(),
            scopes: self.scopes.deep_view(),
        }
    }
}

/// The quota with the given limits and no scopes.
pub open spec fn hard_quota(hard: Seq<(Seq<char>, Seq<char>)>) -> ResourceQuotaSpecView {
    ResourceQuotaSpecView { hard: Some(hard), scope_selector: None, scopes: None }
}

/// No resource is limited twice.
pub open spec fn limited_once(hard: Seq<(Seq<char>, Seq<char>)>) -> bool {
    forall|j: int, k: int|
        0 <= j < k < hard.len() ==> (#[trigger] hard[j]).0 != (#[trigger] hard[k]).0
}

impl ResourceQuotaSpecView {
    /// Whether the quota limits each resource at most once.
    pub open spec fn well_formed(self) -> bool {
        self.hard matches Some(hard) ==> limited_once(hard)
    }
}

/// One rule of a role.
#[derive(Clone, Debug, PartialEq)]
pub struct PolicyRule {
    pub api_groups: Option<Vec<String>>,
    pub non_resource_urls: Option<Vec<String>>,
    pub resource_names: Option<Vec<String>>,
    pub resources: Option<Vec<String>>,
    pub verbs: Vec<String>,
}

/// What a `PolicyRule` says.
#[verifier::ext_equal]
pub struct PolicyRuleView {
    pub api_groups: Option<Seq<Seq<char>>>,
    pub non_resource_urls: Option<Seq<Seq<char>>>,
    pub resource_names: Option<Seq<Seq<char>>>,
    pub resources: Option<Seq<Seq<char>>>,
    pub verbs: Seq<Seq<char>>,
}

impl DeepView for PolicyRule {
    type V = PolicyRuleView;

    open spec fn deep_view(&self) -> PolicyRuleView {
        PolicyRuleView {
            api_groups: self.api_groups.deep_view(),
            non_resource_urls: self.non_resource_urls.deep_view(),
            resource_names: self.resource_names.deep_view(),
            resources: self.resources.deep_view(),
            verbs: self.verbs.deep_view(),
        }
    }
}

/// A role in a namespace.
#[derive(Clone, Debug, PartialEq)]
pub struct Role {
    pub metadata: Metadata,
    pub rules: Option<Vec<PolicyRule>>,
}

/// What a `Role` says.
#[verifier::ext_equal]
pub struct RoleView {
    pub metadata: MetadataView,
    pub rules: Option<Seq<PolicyRuleView>>,
}

impl DeepView for Role {
    type V = RoleView;

    open spec fn deep_view(&self) -> RoleView {
        RoleView { metadata: self.metadata.deep_view(), rules: self.rules.deep_view() }
    }
}

/// The role that a role binding grants.
#[derive(Clone, Debug, PartialEq)]
pub struct RoleRef {
    pub api_group: String,
    pub kind: String,
    pub name: String,
}

/// What a `RoleRef` says.
pub struct RoleRefView {
    pub api_group: Seq<char>,
    pub kind: Seq<char>,
    pub name: Seq<char>,
}

impl DeepView for RoleRef {
    type V = RoleRefView;

    open spec fn deep_view(&self) -> RoleRefView {
        RoleRefView { api_group: self.api_group@, kind: self.kind@, name: self.name@ }
    }
}

impl Default for RoleRef {
    fn default() -> (role_ref: Self)
        ensures
            role_ref.deep_view() == (RoleRefView {
                api_group: Seq::empty(),
                kind: Seq::empty(),
                name: Seq::empty(),
            }),
    {
        RoleRef { api_group: String::new(), kind: String::new(), name: String::new() }
    }
}

/// Someone whom a role binding grants its role to.
#[derive(Clone, Debug, PartialEq)]
pub struct Subject {
    pub api_group: Option<String>,
    pub kind: String,
    pub name: String,
    pub namespace: Option<String>,
}

/// What a `Subject` says.
#[verifier::ext_equal]
pub struct SubjectView {
    pub api_group: Option<Seq<char>>,
    pub kind: Seq<char>,
    pub name: Seq<char>,
    pub namespace: Option<Seq<char>>,
}

impl DeepView for Subject {
    type V = SubjectView;

    open spec fn deep_view(&self) -> SubjectView {
        SubjectView {
            api_group: self.api_group.deep_view(),
            kind: self.kind@,
            name: self.name@,
            namespace: self.namespace.deep_view(),
        }
    }
}

/// A namespace, of which only the metadata is ever set.
#[derive(Clone, Debug, PartialEq)]
pub struct Namespace {
    pub metadata: Metadata,
}

/// What a `Namespace` says.
#[verifier::ext_equal]
pub struct NamespaceView {
    pub metadata: MetadataView,
}

impl DeepView for Namespace {
    type V = NamespaceView;

    open spec fn deep_view(&self) -> NamespaceView {
        NamespaceView { metadata: self.metadata.deep_view() }
    }
}

/// A resource quota in a namespace.
#[derive(Clone, Debug, PartialEq)]
pub struct ResourceQuota {
    pub metadata: Metadata,
    pub spec: Option<ResourceQuotaSpec>,
}

/// What a `ResourceQuota` says.
#[verifier::ext_equal]
pub struct ResourceQuotaView {
    pub metadata: MetadataView,
    pub spec: Option<ResourceQuotaSpecView>,
}

impl DeepView for ResourceQuota {
    type V = ResourceQuotaView;

    open spec fn deep_view(&self) -> ResourceQuotaView {
        ResourceQuotaView { metadata: self.metadata.deep_view(), spec: self.spec.deep_view() }
    }
}

/// A role binding in a namespace.
#[derive(Clone, Debug, PartialEq)]
pub struct RoleBinding {
    pub metadata: Metadata,
    pub role_ref: RoleRef,
    pub subjects: Option<Vec<Subject>>,
}

/// What a `RoleBinding` says.
#[verifier::ext_equal]
pub struct RoleBindingView {
    pub metadata: MetadataView,
    pub role_ref: RoleRefView,
    pub subjects: Option<Seq<SubjectView>>,
}

impl DeepView for RoleBinding {
    type V = RoleBindingView;

    open spec fn deep_view(&self) -> RoleBindingView {
        RoleBindingView {
            metadata: self.metadata.deep_view(),
            role_ref: self.role_ref.deep_view(),
            subjects: self.subjects.deep_view(),
        }
    }
}

/// How a patch is sent.
#[derive(Clone, Debug, PartialEq)]
pub struct PatchParams {
    /// The name under which the sender owns the fields that it sets.
    pub field_manager: Option<String>,
    /// Whether fields that others own are taken over.
    pub force: bool,
}

/// What a `PatchParams` says.
pub struct PatchParamsView {
    pub field_manager: Option<Seq<char>>,
    pub force: bool,
}

impl DeepView for PatchParams {
    type V = PatchParamsView;

    open spec fn deep_view(&self) -> PatchParamsView {
        PatchParamsView { field_manager: self.field_manager.deep_view(), force: self.force }
    }
}

} // verus!
