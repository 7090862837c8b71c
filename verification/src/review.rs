//! Admission reviews: the requests that the API server sends and the answers to them.

use crate::crd::{UserBootstrap, UserBootstrapView};
use crate::patch::{encode_patch, encoding, patch_body, well_formed_patch, AddOperation};
use vstd::prelude::*;
use vstd::string::StringExecFns;

verus! {

/// Why a request to the webhook, or its upkeep, failed.
#[derive(Debug, PartialEq)]
pub enum Error {
    CertReadError(String),
    SerializePatchError(String),
}

/// What an `Error` says.
pub enum ErrorView {
    CertReadError(Seq<char>),
    SerializePatchError(Seq<char>),
}

impl DeepView for Error {
    type V = ErrorView;

    open spec fn deep_view(&self) -> ErrorView {
        match self {
            Error::CertReadError(cause) => ErrorView::CertReadError(cause@),
            Error::SerializePatchError(cause) => ErrorView::SerializePatchError(cause@),
        }
    }
}

impl ErrorView {
    /// The message that is shown for this error.
    pub open spec fn message(self) -> Seq<char> {
        match self {
            ErrorView::CertReadError(cause) => "failed to read cert: "@ + cause,
            ErrorView::SerializePatchError(cause) => "failed to serialize patch: "@ + cause,
        }
    }
}

impl Error {
    /// The message that is shown for this error.
    pub fn message(&self) -> (text: String)
        ensures
            text@ == self.deep_view().message(),
    {
        match self {
            Error::CertReadError(cause) => "failed to read cert: ".to_owned().concat(
                cause.as_str(),
            ),
            Error::SerializePatchError(cause) => "failed to serialize patch: ".to_owned().concat(
                cause.as_str(),
            ),
        }
    }
}

/// The operation that is under review.
#[derive(Clone, Copy, Debug, PartialEq, Eq, Structural)]
pub enum Operation {
    Create,
    Update,
    Delete,
    Connect,
}

/// The API version and kind of a review.
#[derive(Debug, PartialEq)]
pub struct TypeMeta {
    pub api_version: String,
    pub kind: String,
}

/// What a `TypeMeta` says.
pub struct TypeMetaView {
    pub api_version: Seq<char>,
    pub kind: Seq<char>,
}

impl DeepView for TypeMeta {
    type V = TypeMetaView;

    open spec fn deep_view(&self) -> TypeMetaView {
        TypeMetaView { api_version: self.api_version@, kind: self.kind@ }
    }
}

impl Clone for TypeMeta {
    fn clone(&self) -> (copy: Self)
        ensures
            copy == *self,
    {
        TypeMeta { api_version: self.api_version.clone(), kind: self.kind.clone() }
    }
}

/// Who made the request.
#[derive(Debug, PartialEq)]
pub struct UserInfo {
    pub username: Option<String>,
    pub groups: Option<Vec<String>>,
}

/// What a `UserInfo` says.
#[verifier::ext_equal]
pub struct UserInfoView {
    pub username: Option<Seq<char>>,
    pub groups: Option<Seq<Seq<char>>>,
}

impl DeepView for UserInfo {
    type V = UserInfoView;

    open spec fn deep_view(&self) -> UserInfoView {
        UserInfoView { username: self.username.deep_view(), groups: self.groups.deep_view() }
    }
}

/// The object of a request: its name, and what it reads as, which is a bootstrap or the error met
/// while it was parsed as one.
#[derive(Debug, PartialEq)]
pub struct RequestObject {
    pub name: Option<String>,
    pub bootstrap: Result<UserBootstrap, String>,
}

/// What a `RequestObject` says.
#[verifier::ext_equal]
pub struct RequestObjectView {
    pub name: Option<Seq<char>>,
    pub bootstrap: Result<UserBootstrapView, Seq<char>>,
}

impl DeepView for RequestObject {
    type V = RequestObjectView;

    open spec fn deep_view(&self) -> RequestObjectView {
        RequestObjectView {
            name: self.name.deep_view(),
            bootstrap: match self.bootstrap {
                Ok(bootstrap) => Ok(bootstrap.deep_view()),
                Err(error) => Err(error@),
            },
        }
    }
}

/// A request to review an operation.
#[derive(Debug, PartialEq)]
pub struct AdmissionRequest {
    pub types: TypeMeta,
    pub uid: String,
    pub operation: Operation,
    pub user_info: UserInfo,
    pub object: Option<RequestObject>,
}

/// What an `AdmissionRequest` says.
#[verifier::ext_equal]
pub struct AdmissionRequestView {
    pub types: TypeMetaView,
    pub uid: Seq<char>,
    pub operation: Operation,
    pub user_info: UserInfoView,
    pub object: Option<RequestObjectView>,
}

impl DeepView for AdmissionRequest {
    type V = AdmissionRequestView;

    open spec fn deep_view(&self) -> AdmissionRequestView {
        AdmissionRequestView {
            types: self.types.deep_view(),
            uid: self.uid@,
            operation: self.operation,
            user_info: self.user_info.deep_view(),
            object: self.object.deep_view(),
        }
    }
}

/// Whether an operation went well.
#[derive(Clone, Copy, Debug, PartialEq, Eq, Structural)]
pub enum StatusSummary {
    Success,
    Failure,
}

/// The details of a response that refuses.
#[derive(Debug, PartialEq)]
pub struct Status {
    pub status: Option<StatusSummary>,
    pub code: u16,
    pub message: String,
    pub reason: String,
}

/// What a `Status` says.
pub struct StatusView {
    pub status: Option<StatusSummary>,
    pub code: u16,
    pub message: Seq<char>,
    pub reason: Seq<char>,
}

impl DeepView for Status {
    type V = StatusView;

    open spec fn deep_view(&self) -> StatusView {
        StatusView {
            status: self.status,
            code: self.code,
            message: self.message@,
            reason: self.reason@,
        }
    }
}

/// The form of a patch.
#[derive(Clone, Copy, Debug, PartialEq, Eq, Structural)]
pub enum PatchType {
    JsonPatch,
}

/// The answer to a request. Audit annotations and warnings are never set, so they are left out.
#[derive(Debug, PartialEq)]
pub struct AdmissionResponse {
    pub types: TypeMeta,
    pub uid: String,
    pub allowed: bool,
    pub result: Status,
    pub patch: Option<Vec<u8>>,
    pub patch_type: Option<PatchType>,
}

/// What an `AdmissionResponse` says.
#[verifier::ext_equal]
pub struct AdmissionResponseView {
    pub types: TypeMetaView,
    pub uid: Seq<char>,
    pub allowed: bool,
    pub result: StatusView,
    pub patch: Option<Seq<u8>>,
    pub patch_type: Option<PatchType>,
}

impl DeepView for AdmissionResponse {
    type V = AdmissionResponseView;

    open spec fn deep_view(&self) -> AdmissionResponseView {
        AdmissionResponseView {
            types: self.types.deep_view(),
            uid: self.uid@,
            allowed: self.allowed,
            result: self.result.deep_view(),
            patch: match self.patch {
                Some(bytes) => Some(bytes@),
                None => None,
            },
            patch_type: self.patch_type,
        }
    }
}

/// What is exchanged with the API server: it comes with a request and goes with a response.
#[derive(Debug, PartialEq)]
pub struct AdmissionReview {
    pub types: TypeMeta,
    pub request: Option<AdmissionRequest>,
    pub response: Option<AdmissionResponse>,
}

/// What an `AdmissionReview` says.
#[verifier::ext_equal]
pub struct AdmissionReviewView {
    pub types: TypeMetaView,
    pub request: Option<AdmissionRequestView>,
    pub response: Option<AdmissionResponseView>,
}

impl DeepView for AdmissionReview {
    type V = AdmissionReviewView;

    open spec fn deep_view(&self) -> AdmissionReviewView {
        AdmissionReviewView {
            types: self.types.deep_view(),
            request: self.request.deep_view(),
            response: self.response.deep_view(),
        }
    }
}

/// The answer that allows a request as it is: it carries the request's type and uid.
pub open spec fn allowing(request: AdmissionRequestView) -> AdmissionResponseView {
    AdmissionResponseView {
        types: request.types,
        uid: request.uid,
        allowed: true,
        result: StatusView { status: None, code: 0, message: Seq::empty(), reason: Seq::empty() },
        patch: None,
        patch_type: None,
    }
}

/// The answer to a request that makes no sense: it carries no uid.
pub open spec fn invalidating(reason: Seq<char>) -> AdmissionResponseView {
    AdmissionResponseView {
        types: TypeMetaView { api_version: "admission.k8s.io/v1beta1"@, kind: "AdmissionReview"@ },
        uid: Seq::empty(),
        allowed: false,
        result: StatusView {
            status: Some(StatusSummary::Failure),
            code: 0,
            message: reason,
            reason: "InvalidRequest"@,
        },
        patch: None,
        patch_type: None,
    }
}

impl AdmissionResponseView {
    /// The same answer, turned into a refusal with a reason.
    pub open spec fn denying(self, reason: Seq<char>) -> AdmissionResponseView {
        AdmissionResponseView {
            allowed: false,
            result: StatusView { message: reason, ..self.result },
            ..self
        }
    }

    /// The same answer, with the body of a JSON patch.
    pub open spec fn patching(self, body: Seq<u8>) -> AdmissionResponseView {
        AdmissionResponseView {
            patch: Some(body),
            patch_type: Some(PatchType::JsonPatch),
            ..self
        }
    }

    /// The same answer with a patch that has been encoded, or the error met while encoding it.
    pub open spec fn carrying(self, encoded: Result<Seq<u8>, Seq<char>>) -> Result<
        AdmissionResponseView,
        ErrorView,
    > {
        match encoded {
            Ok(body) => Ok(self.patching(body)),
            Err(cause) => Err(ErrorView::SerializePatchError(cause)),
        }
    }

    /// The review that carries this answer.
    pub open spec fn reviewed(self) -> AdmissionReviewView {
        AdmissionReviewView { types: self.types, request: None, response: Some(self) }
    }
}

impl AdmissionResponse {
    /// The answer that allows a request as it is.
    pub fn from_request(request: &AdmissionRequest) -> (response: Self)
        ensures
            response.deep_view() == allowing(request.deep_view()),
    {
        AdmissionResponse {
            types: request.types.clone(),
            uid: request.uid.clone(),
            allowed: true,
            result: Status {
                status: None,
                code: 0,
                message: String::new(),
                reason: String::new(),
            },
            patch: None,
            patch_type: None,
        }
    }

    /// The answer to a request that makes no sense.
    pub fn invalid(reason: &str) -> (response: Self)
        ensures
            response.deep_view() == invalidating(reason@),
    {
        AdmissionResponse {
            types: TypeMeta {
                api_version: "admission.k8s.io/v1beta1".to_owned(),
                kind: "AdmissionReview".to_owned(),
            },
            uid: String::new(),
            allowed: false,
            result: Status {
                status: Some(StatusSummary::Failure),
                code: 0,
                message: reason.to_owned(),
                reason: "InvalidRequest".to_owned(),
            },
            patch: None,
            patch_type: None,
        }
    }

    /// Turns the answer into a refusal with a reason.
    pub fn deny(self, reason: &str) -> (response: Self)
        ensures
            response.deep_view() == self.deep_view().denying(reason@),
    {
        AdmissionResponse {
            types: self.types,
            uid: self.uid,
            allowed: false,
            result: Status {
                status: self.result.status,
                code: self.result.code,
                message: reason.to_owned(),
                reason: self.result.reason,
            },
            patch: self.patch,
            patch_type: self.patch_type,
        }
    }

    /// Adds the body of a patch, once it has been encoded, to the answer.
    pub fn with_encoded_patch(self, encoded: Result<Vec<u8>, String>) -> (response: Result<
        Self,
        Error,
    >)
        ensures
            outcome(response) == self.deep_view().carrying(encoding(encoded)),
    {
        match encoded {
            Ok(body) => Ok(
                AdmissionResponse {
                    types: self.types,
                    uid: self.uid,
                    allowed: self.allowed,
                    result: self.result,
                    patch: Some(body),
                    patch_type: Some(PatchType::JsonPatch),
                },
            ),
            Err(cause) => Err(Error::SerializePatchError(cause)),
        }
    }

    /// Adds a patch of the object to the answer.
    pub fn with_patch(self, operations: &Vec<AddOperation>) -> (response: Result<Self, Error>)
        requires
            well_formed_patch(operations.deep_view()),
        ensures
            outcome(response) == Ok::<AdmissionResponseView, ErrorView>(
                self.deep_view().patching(patch_body(operations.deep_view())),
            ),
    {
        self.with_encoded_patch(encode_patch(operations))
    }

    /// Wraps the answer in a review.
    pub fn into_review(self) -> (review: AdmissionReview)
        ensures
            review.deep_view() == self.deep_view().reviewed(),
    {
        AdmissionReview { types: self.types.clone(), request: None, response: Some(self) }
    }
}

/// What a handler came to.
pub open spec fn outcome(result: Result<AdmissionResponse, Error>) -> Result<
    AdmissionResponseView,
    ErrorView,
> {
    match result {
        Ok(response) => Ok(response.deep_view()),
        Err(error) => Err(error.deep_view()),
    }
}

/// The message of an error says what failed and then the whole cause.
pub proof fn messages_give_the_cause(cause: Seq<char>)
    ensures
        ErrorView::CertReadError(cause).message() == "failed to read cert: "@ + cause,
        ErrorView::SerializePatchError(cause).message() == "failed to serialize patch: "@ + cause,
{
}

/// A refusal changes nothing of an answer but that it is one, and its message, which is the reason.
/// A patch changes nothing but the patch, which is the encoded body as it is, marked as a JSON patch.
/// A review carries its answer as it is.
pub proof fn answers_change_in_one_respect(
    response: AdmissionResponseView,
    reason: Seq<char>,
    body: Seq<u8>,
    cause: Seq<char>,
)
    ensures
        ({
            let denied = response.denying(reason);
            &&& !denied.allowed
            &&& denied.result.message == reason
            &&& denied.result.status == response.result.status
            &&& denied.result.code == response.result.code
            &&& denied.result.reason == response.result.reason
            &&& denied.types == response.types
            &&& denied.uid == response.uid
            &&& denied.patch == response.patch
            &&& denied.patch_type == response.patch_type
        }),
        ({
            let patched = response.patching(body);
            &&& patched.patch == Some(body)
            &&& patched.patch_type == Some(PatchType::JsonPatch)
            &&& patched.allowed == response.allowed
            &&& patched.result == response.result
            &&& patched.types == response.types
            &&& patched.uid == response.uid
            &&& response.carrying(Ok(body)) == Ok::<AdmissionResponseView, ErrorView>(patched)
            &&& response.carrying(Err(cause)) == Err::<AdmissionResponseView, ErrorView>(
                ErrorView::SerializePatchError(cause),
            )
        }),
        response.reviewed().response == Some(response),
        response.reviewed().types == response.types,
        response.reviewed().request is None,
{
}

} // verus!
