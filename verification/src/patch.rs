//! JSON patches: the additions that a webhook asks for, and their encoding.

use crate::crd::{RoleBinding, RoleBindingView};
use crate::k8s::{limited_once, RoleRef, RoleRefView, Subject, SubjectView};
use crate::text::{digit, joined, precedes, precedes_one_way};
use vstd::prelude::*;
use vstd::string::StringExecFns;
use vstd::utf8::encode_utf8;

verus! {

/// A JSON value that a patch adds.
#[derive(Debug, PartialEq)]
pub enum PatchValue {
    /// `{}`.
    EmptyObject,
    /// A JSON string.
    Text(String),
    /// A resource quota spec with these hard limits and nothing else.
    Quota(Vec<(String, String)>),
    /// A role binding without metadata.
    RoleBinding(RoleBinding),
}

/// What a `PatchValue` says.
#[verifier::ext_equal]
pub enum PatchValueView {
    EmptyObject,
    Text(Seq<char>),
    Quota(Seq<(Seq<char>, Seq<char>)>),
    RoleBinding(RoleBindingView),
}

impl DeepView for PatchValue {
    type V = PatchValueView;

    open spec fn deep_view(&self) -> PatchValueView {
        match self {
            PatchValue::EmptyObject => PatchValueView::EmptyObject,
            PatchValue::Text(text) => PatchValueView::Text(text@),
            PatchValue::Quota(hard) => PatchValueView::Quota(hard.deep_view()),
            PatchValue::RoleBinding(binding) => PatchValueView::RoleBinding(binding.deep_view()),
        }
    }
}

/// The patch operation that puts a value at a path, in place of what is there.
#[derive(Debug, PartialEq)]
pub struct AddOperation {
    pub path: String,
    pub value: PatchValue,
}

/// What an `AddOperation` says.
#[verifier::ext_equal]
pub struct AddOperationView {
    pub path: Seq<char>,
    pub value: PatchValueView,
}

impl DeepView for AddOperation {
    type V = AddOperationView;

    open spec fn deep_view(&self) -> AddOperationView {
        AddOperationView { path: self.path@, value: self.value.deep_view() }
    }
}

/// The names that `serde_json` keeps for itself: an object that begins with one of them is not read
/// back as an object.
pub open spec fn is_reserved(name: Seq<char>) -> bool {
    name == "$serde_json::private::Number"@ || name == "$serde_json::private::RawValue"@
}

impl PatchValueView {
    /// Whether the value has a JSON text: a quota limits each resource once.
    pub open spec fn limits_once(self) -> bool {
        self matches PatchValueView::Quota(hard) ==> limited_once(hard)
    }

    /// Whether the value can stand in a patch: a quota limits each resource once, and no resource
    /// by a reserved name.
    pub open spec fn well_formed(self) -> bool {
        &&& self.limits_once()
        &&& self matches PatchValueView::Quota(hard) ==> forall|k: int|
            0 <= k < hard.len() ==> !is_reserved((#[trigger] hard[k]).0)
    }
}

/// Whether every value can stand in a patch.
pub open spec fn well_formed_patch(operations: Seq<AddOperationView>) -> bool {
    forall|k: int| 0 <= k < operations.len() ==> (#[trigger] operations[k]).value.well_formed()
}

/// The value that a patch leaves at `path`: that of the last operation on that path, or `None`
/// when the patch does not touch it.
pub open spec fn value_left_at(
    operations: Seq<AddOperationView>,
    path: Seq<char>,
) -> Option<PatchValueView>
    decreases operations.len(),
{
    if operations.len() == 0 {
        None
    } else if operations.last().path == path {
        Some(operations.last().value)
    } else {
        value_left_at(operations.drop_last(), path)
    }
}

/// A hexadecimal digit.
pub open spec fn hex_digit(value: int) -> char {
    if value < 10 {
        digit(value as nat)
    } else if value == 10 {
        'a'
    } else if value == 11 {
        'b'
    } else if value == 12 {
        'c'
    } else if value == 13 {
        'd'
    } else if value == 14 {
        'e'
    } else {
        'f'
    }
}

/// A character as it stands in a JSON string: quotes, backslashes and control characters are
/// escaped, in the short form where JSON has one.
pub open spec fn escaped(character: char) -> Seq<char> {
    let code = character as int;
    if character == '"' || character == '\\' {
        seq!['\\', character]
    } else if code == 8 {
        seq!['\\', 'b']
    } else if code == 9 {
        seq!['\\', 't']
    } else if code == 10 {
        seq!['\\', 'n']
    } else if code == 12 {
        seq!['\\', 'f']
    } else if code == 13 {
        seq!['\\', 'r']
    } else if code < 32 {
        seq!['\\', 'u', '0', '0', hex_digit(code / 16), hex_digit(code % 16)]
    } else {
        seq![character]
    }
}

/// The JSON text of a string.
pub open spec fn string_json(text: Seq<char>) -> Seq<char> {
    seq!['"'] + text.map_values(|character: char| escaped(character)).flatten() + seq!['"']
}

/// The entries with one more, which comes in front of those at the end that it precedes.
pub open spec fn placed(
    entries: Seq<(Seq<char>, Seq<char>)>,
    entry: (Seq<char>, Seq<char>),
) -> Seq<(Seq<char>, Seq<char>)>
    decreases entries.len(),
{
    if entries.len() > 0 && precedes(entry.0, entries.last().0) {
        placed(entries.drop_last(), entry).push(entries.last())
    } else {
        entries.push(entry)
    }
}

/// The entries, sorted by their names.
pub open spec fn by_name(entries: Seq<(Seq<char>, Seq<char>)>) -> Seq<(Seq<char>, Seq<char>)>
    decreases entries.len(),
{
    if entries.len() == 0 {
        Seq::empty()
    } else {
        placed(by_name(entries.drop_last()), entries.last())
    }
}

/// The JSON text of a resource quota spec with the given hard limits and nothing else: an object
/// whose one field holds the limits, sorted by the names of the resources.
pub open spec fn quota_json(hard: Seq<(Seq<char>, Seq<char>)>) -> Seq<char> {
    "{\"hard\":{"@ + joined(
        by_name(hard).map_values(
            |limit: (Seq<char>, Seq<char>)| string_json(limit.0) + ":"@ + string_json(limit.1),
        ),
        ","@,
    ) + "}}"@
}

/// The JSON text of a role reference.
pub open spec fn role_ref_json(role_ref: RoleRefView) -> Seq<char> {
    "{\"apiGroup\":"@ + string_json(role_ref.api_group) + ",\"kind\":"@ + string_json(
        role_ref.kind,
    ) + ",\"name\":"@ + string_json(role_ref.name) + "}"@
}

/// The JSON text of a subject: the API group and the namespace only where they are set.
pub open spec fn subject_json(subject: SubjectView) -> Seq<char> {
    let api_group = match subject.api_group {
        Some(api_group) => "\"apiGroup\":"@ + string_json(api_group) + ","@,
        None => Seq::empty(),
    };
    let namespace = match subject.namespace {
        Some(namespace) => ",\"namespace\":"@ + string_json(namespace),
        None => Seq::empty(),
    };
    "{"@ + api_group + "\"kind\":"@ + string_json(subject.kind) + ",\"name\":"@ + string_json(
        subject.name,
    ) + namespace + "}"@
}

/// The JSON text of a list of subjects, `null` for none at all.
pub open spec fn subjects_json(subjects: Option<Seq<SubjectView>>) -> Seq<char> {
    match subjects {
        Some(subjects) => "["@ + joined(
            subjects.map_values(|subject: SubjectView| subject_json(subject)),
            ","@,
        ) + "]"@,
        None => "null"@,
    }
}

/// The JSON text of a role binding without metadata.
pub open spec fn role_binding_json(binding: RoleBindingView) -> Seq<char> {
    "{\"role_ref\":"@ + role_ref_json(binding.role_ref) + ",\"subjects\":"@ + subjects_json(
        binding.subjects,
    ) + "}"@
}

/// The JSON text of a patch value.
pub open spec fn value_json(value: PatchValueView) -> Seq<char> {
    match value {
        PatchValueView::EmptyObject => "{}"@,
        PatchValueView::Text(text) => string_json(text),
        PatchValueView::Quota(hard) => quota_json(hard),
        PatchValueView::RoleBinding(binding) => role_binding_json(binding),
    }
}

/// The paths of a patch, each with the JSON text of its value.
pub open spec fn operation_texts(operations: Seq<AddOperationView>) -> Seq<(
    Seq<char>,
    Seq<char>,
)> {
    operations.map_values(
        |operation: AddOperationView| (operation.path, value_json(operation.value)),
    )
}

/// The JSON text of the operation that adds a value, given as JSON, at a path.
pub open spec fn addition_json(path: Seq<char>, value: Seq<char>) -> Seq<char> {
    "{\"op\":\"add\",\"path\":"@ + string_json(path) + ",\"value\":"@ + value + "}"@
}

/// The JSON text of a patch that adds each value, given as JSON, at its path: the array of its
/// operations.
pub open spec fn patch_json(additions: Seq<(Seq<char>, Seq<char>)>) -> Seq<char> {
    "["@ + joined(
        additions.map_values(
            |addition: (Seq<char>, Seq<char>)| addition_json(addition.0, addition.1),
        ),
        ","@,
    ) + "]"@
}

/// The encoded form of a patch.
pub open spec fn patch_body(operations: Seq<AddOperationView>) -> Seq<u8> {
    encode_utf8(patch_json(operation_texts(operations)))
}

/// What an encoding attempt came to: the bytes, or the text of the error.
pub open spec fn encoding(result: Result<Vec<u8>, String>) -> Result<Seq<u8>, Seq<char>> {
    match result {
        Ok(bytes) => Ok(bytes@),
        Err(error) => Err(error@),
    }
}

/// Calls `serde_json::Value::to_string` on the JSON string that holds `text`. Trusted: it quotes the
/// text and escapes what has to be escaped.
#[verifier::external_body]
fn string_to_json(text: &str) -> (json: String)
    ensures
        json@ == string_json(text@),
{
    serde_json::Value::String(text.to_owned()).to_string()
}

/// Calls `serde_json::to_value` on a `k8s_openapi` `ResourceQuotaSpec` whose `hard` map is made of
/// the given pairs, and writes the value as text. Trusted: the text is an object with the field
/// `hard`, which holds an object with a JSON string for each pair, in the order of the map's keys.
#[verifier::external_body]
fn quota_to_json(hard: &Vec<(String, String)>) -> (json: String)
    requires
        limited_once(hard.deep_view()),
    ensures
        json@ == quota_json(hard.deep_view()),
{
    let quota = k8s_openapi::api::core::v1::ResourceQuotaSpec {
        hard: Some(
            hard.iter().map(
                |entry| (
                    entry.0.clone(),
                    k8s_openapi::apimachinery::pkg::api::resource::Quantity(entry.1.clone()),
                ),
            ).collect(),
        ),
        ..Default::default()
    };
    serde_json::to_value(quota).unwrap().to_string()
}

/// Calls `serde_json::to_value` on the `k8s_openapi` `RoleRef` with the given fields, and writes the
/// value as text. Trusted: the text is an object of the three fields, in this order, each a JSON
/// string.
#[verifier::external_body]
fn role_ref_to_json(role_ref: &RoleRef) -> (json: String)
    ensures
        json@ == role_ref_json(role_ref.deep_view()),
{
    let role_ref = k8s_openapi::api::rbac::v1::RoleRef {
        api_group: role_ref.api_group.clone(),
        kind: role_ref.kind.clone(),
        name: role_ref.name.clone(),
    };
    serde_json::to_value(role_ref).unwrap().to_string()
}

/// Calls `serde_json::to_value` on the `k8s_openapi` `Subject` with the given fields, and writes the
/// value as text. Trusted: the text is an object of the fields that are set, in this order, each a
/// JSON string.
#[verifier::external_body]
fn subject_to_json(subject: &Subject) -> (json: String)
    ensures
        json@ == subject_json(subject.deep_view()),
{
    let subject = k8s_openapi::api::rbac::v1::Subject {
        api_group: subject.api_group.clone(),
        kind: subject.kind.clone(),
        name: subject.name.clone(),
        namespace: subject.namespace.clone(),
    };
    serde_json::to_value(subject).unwrap().to_string()
}

/// The text is that of a value that can stand in a patch.
pub open spec fn is_value_text(text: Seq<char>) -> bool {
    exists|value: PatchValueView| value.well_formed() && text == #[trigger] value_json(value)
}

/// Calls `kube`'s `AdmissionResponse::with_patch` on the `json_patch::Patch` that adds each value,
/// read from its JSON text with `serde_json::from_str`, at its path, and takes the patch body out of
/// the response. Trusted: reading and encoding go well on the texts of values, and the body is the
/// UTF-8 form of the array of the operations, in which each value is written as it was read.
#[verifier::external_body]
fn patch_to_bytes(operations: &Vec<(String, String)>) -> (bytes: Result<Vec<u8>, String>)
    requires
        forall|k: int|
            0 <= k < operations.deep_view().len() ==> is_value_text(
                (#[trigger] operations.deep_view()[k]).1,
            ),
    ensures
        bytes is Ok,
        bytes->Ok_0@ == encode_utf8(patch_json(operations.deep_view())),
{
    let mut additions: Vec<json_patch::PatchOperation> = Vec::new();
    for (path, json) in operations {
        let value = serde_json::from_str(json).map_err(|error| error.to_string())?;
        let addition = json_patch::AddOperation { path: path.clone(), value };
        additions.push(json_patch::PatchOperation::Add(addition));
    }
    kube::core::admission::AdmissionResponse::invalid("")
        .with_patch(json_patch::Patch(additions))
        .map(|response| response.patch.unwrap())
        .map_err(|error| error.to_string())
}

/// The JSON text of a list of subjects.
fn subjects_to_json(subjects: &Option<Vec<Subject>>) -> (json: String)
    ensures
        json@ == subjects_json(subjects.deep_view()),
{
    match subjects {
        None => "null".to_owned(),
        Some(subjects) => {
            let ghost views = subjects.deep_view();
            let ghost texts = views.map_values(|subject: SubjectView| subject_json(subject));
            let mut list = "".to_owned();
            let mut at: usize = 0;
            proof {
                reveal_strlit("");
                assert(list@ =~= joined(texts.take(0), ","@));
            }
            while at < subjects.len()
                invariant
                    at <= subjects.len(),
                    views == subjects.deep_view(),
                    texts == views.map_values(|subject: SubjectView| subject_json(subject)),
                    list@ == joined(texts.take(at as int), ","@),
                decreases subjects.len() - at,
            {
                assert(texts.take(at + 1).drop_last() =~= texts.take(at as int));
                assert(texts.take(at + 1).last() == subject_json(subjects[at as int].deep_view()));
                if at > 0 {
                    list.append(",");
                }
                list.append(subject_to_json(&subjects[at]).as_str());
                assert(list@ =~= joined(texts.take(at + 1), ","@));
                at += 1;
            }
            assert(texts.take(at as int) =~= texts);
            "[".to_owned().concat(list.as_str()).concat("]")
        },
    }
}

/// The JSON text of a role binding without metadata.
fn role_binding_to_json(binding: &RoleBinding) -> (json: String)
    ensures
        json@ == role_binding_json(binding.deep_view()),
{
    "{\"role_ref\":".to_owned()
        .concat(role_ref_to_json(&binding.role_ref).as_str())
        .concat(",\"subjects\":")
        .concat(subjects_to_json(&binding.subjects).as_str())
        .concat("}")
}

/// The JSON text of a patch value.
pub fn value_to_json(value: &PatchValue) -> (json: String)
    requires
        value.deep_view().limits_once(),
    ensures
        json@ == value_json(value.deep_view()),
{
    match value {
        PatchValue::EmptyObject => "{}".to_owned(),
        PatchValue::Text(text) => string_to_json(text.as_str()),
        PatchValue::Quota(hard) => quota_to_json(hard),
        PatchValue::RoleBinding(binding) => role_binding_to_json(binding),
    }
}

/// Encodes a patch, as the body of an admission response carries it.
pub fn encode_patch(operations: &Vec<AddOperation>) -> (bytes: Result<Vec<u8>, String>)
    requires
        well_formed_patch(operations.deep_view()),
    ensures
        bytes is Ok,
        bytes->Ok_0@ == patch_body(operations.deep_view()),
{
    let ghost views = operations.deep_view();
    let mut texts: Vec<(String, String)> = Vec::new();
    let mut at: usize = 0;
    while at < operations.len()
        invariant
            at <= operations.len(),
            views == operations.deep_view(),
            well_formed_patch(views),
            texts.deep_view() == operation_texts(views.take(at as int)),
        decreases operations.len() - at,
    {
        let ghost before = texts.deep_view();
        assert(views[at as int].value.well_formed());
        texts.push((operations[at].path.clone(), value_to_json(&operations[at].value)));
        proof {
            let operation = operations[at as int].deep_view();
            assert(texts.deep_view() =~= before.push((operation.path, value_json(operation.value))));
            assert(views.take(at + 1) =~= views.take(at as int).push(operation));
            assert(texts.deep_view() =~= operation_texts(views.take(at + 1)));
        }
        at += 1;
    }
    assert(views.take(at as int) =~= views);
    assert forall|k: int| 0 <= k < texts.deep_view().len() implies is_value_text(
        (#[trigger] texts.deep_view()[k]).1,
    ) by {
        assert(views[k].value.well_formed());
        assert(texts.deep_view()[k].1 == value_json(views[k].value));
    }
    patch_to_bytes(&texts)
}

/// Limits that are listed in the order of their names are written in that order.
pub proof fn limits_in_order_stay(hard: Seq<(Seq<char>, Seq<char>)>)
    requires
        forall|j: int, k: int|
            0 <= j < k < hard.len() ==> precedes((#[trigger] hard[j]).0, (#[trigger] hard[k]).0),
    ensures
        by_name(hard) == hard,
    decreases hard.len(),
{
    if hard.len() > 0 {
        let before = hard.drop_last();
        limits_in_order_stay(before);
        if before.len() > 0 {
            assert(precedes(hard[before.len() - 1].0, hard[before.len() as int].0));
            precedes_one_way(before.last().0, hard.last().0);
        }
        assert(before.push(hard.last()) =~= hard);
    }
}

/// Subjects are written one by one: one more subject adds its text, behind a comma where there are
/// others, in front of the closing bracket.
pub proof fn subjects_are_written_one_by_one(subjects: Seq<SubjectView>, subject: SubjectView)
    ensures
        subjects_json(None) == "null"@,
        subjects_json(Some(Seq::empty())) == seq!['[', ']'],
        subjects_json(Some(subjects.push(subject))) == subjects_json(Some(subjects)).drop_last() + (
        if subjects.len() == 0 {
            Seq::empty()
        } else {
            seq![',']
        }) + subject_json(subject) + seq![']'],
{
    let text = |subject: SubjectView| subject_json(subject);
    let texts = subjects.map_values(text);
    reveal_strlit("[");
    reveal_strlit("]");
    reveal_strlit(",");
    assert(Seq::<SubjectView>::empty().map_values(text) =~= Seq::empty());
    assert(subjects_json(Some(Seq::empty())) =~= seq!['[', ']']);
    assert(subjects.push(subject).map_values(text) =~= texts.push(subject_json(subject)));
    assert(texts.push(subject_json(subject)).drop_last() =~= texts);
    if subjects.len() == 0 {
        assert(joined(texts, ","@) =~= Seq::empty());
    }
    assert(subjects_json(Some(subjects.push(subject))) =~= subjects_json(
        Some(subjects),
    ).drop_last() + (if subjects.len() == 0 {
        Seq::empty()
    } else {
        seq![',']
    }) + subject_json(subject) + seq![']']);
}

/// Every value is written as JSON of its own form, and a role binding as an object of its role
/// reference and its subjects.
pub proof fn values_are_written_in_full(
    text: Seq<char>,
    hard: Seq<(Seq<char>, Seq<char>)>,
    binding: RoleBindingView,
)
    ensures
        value_json(PatchValueView::EmptyObject) == "{}"@,
        value_json(PatchValueView::Text(text)) == string_json(text),
        value_json(PatchValueView::Quota(hard)) == quota_json(hard),
        value_json(PatchValueView::RoleBinding(binding)) == "{\"role_ref\":"@ + role_ref_json(
            binding.role_ref,
        ) + ",\"subjects\":"@ + subjects_json(binding.subjects) + "}"@,
{
}

/// Strings are written one character after the other between quotes. A character stands for itself
/// unless it is a quote, a backslash or a control character, which a backslash announces.
pub proof fn strings_are_written_one_by_one(text: Seq<char>, character: char)
    ensures
        string_json(Seq::empty()) == seq!['"', '"'],
        string_json(text.push(character)) == string_json(text).drop_last() + escaped(character)
            + seq!['"'],
        character != '"' && character != '\\' && character as int >= 32 ==> escaped(character)
            == seq![character],
        character == '"' || character == '\\' ==> escaped(character) == seq!['\\', character],
        (character as int) < 32 ==> escaped(character).len() >= 2 && escaped(character)[0] == '\\',
{
    let form = |character: char| escaped(character);
    let forms = text.map_values(form);
    assert(Seq::<char>::empty().map_values(form) =~= Seq::empty());
    assert(string_json(Seq::empty()) =~= seq!['"', '"']);
    assert(text.push(character).map_values(form) =~= forms.push(escaped(character)));
    forms.lemma_flatten_push(escaped(character));
    assert(string_json(text.push(character)) =~= string_json(text).drop_last() + escaped(character)
        + seq!['"']);
}

/// Limits are written one by one, each as its name and its quantity: one more at the end of the order
/// adds its text, behind a comma where there are others, in front of the closing brackets.
pub proof fn limits_are_written_one_by_one(
    hard: Seq<(Seq<char>, Seq<char>)>,
    limit: (Seq<char>, Seq<char>),
)
    requires
        forall|j: int, k: int|
            0 <= j < k < hard.len() ==> precedes((#[trigger] hard[j]).0, (#[trigger] hard[k]).0),
        forall|j: int| 0 <= j < hard.len() ==> precedes((#[trigger] hard[j]).0, limit.0),
    ensures
        quota_json(Seq::empty()) == "{\"hard\":{"@ + "}}"@,
        quota_json(hard.push(limit)) == quota_json(hard).take(quota_json(hard).len() - 2) + (
        if hard.len() == 0 {
            Seq::empty()
        } else {
            seq![',']
        }) + string_json(limit.0) + ":"@ + string_json(limit.1) + "}}"@,
{
    let text = |limit: (Seq<char>, Seq<char>)| string_json(limit.0) + ":"@ + string_json(limit.1);
    let texts = hard.map_values(text);
    let more = hard.push(limit);
    reveal_strlit("}}");
    reveal_strlit(",");
    assert forall|j: int, k: int| 0 <= j < k < more.len() implies precedes(
        (#[trigger] more[j]).0,
        (#[trigger] more[k]).0,
    ) by {
        assert(more[j] == hard[j]);
        if k < hard.len() {
            assert(more[k] == hard[k]);
        }
    }
    limits_in_order_stay(hard);
    limits_in_order_stay(more);
    assert(Seq::<(Seq<char>, Seq<char>)>::empty().map_values(text) =~= Seq::empty());
    assert(quota_json(Seq::empty()) =~= "{\"hard\":{"@ + "}}"@);
    assert(more.map_values(text) =~= texts.push(text(limit)));
    assert(texts.push(text(limit)).drop_last() =~= texts);
    if hard.len() == 0 {
        assert(joined(texts, ","@) =~= Seq::empty());
    }
    assert(quota_json(more) =~= quota_json(hard).take(quota_json(hard).len() - 2) + (if hard.len()
        == 0 {
        Seq::empty()
    } else {
        seq![',']
    }) + string_json(limit.0) + ":"@ + string_json(limit.1) + "}}"@);
}

/// A subject and a role reference are written with all that they hold, and nothing else: what is not
/// set is left out.
pub proof fn references_are_written_in_full(
    api_group: Seq<char>,
    kind: Seq<char>,
    name: Seq<char>,
    namespace: Seq<char>,
)
    ensures
        role_ref_json(RoleRefView { api_group, kind, name }) == "{\"apiGroup\":"@ + string_json(
            api_group,
        ) + ",\"kind\":"@ + string_json(kind) + ",\"name\":"@ + string_json(name) + "}"@,
        subject_json(
            SubjectView { api_group: Some(api_group), kind, name, namespace: Some(namespace) },
        ) == "{\"apiGroup\":"@ + string_json(api_group) + ",\"kind\":"@ + string_json(kind)
            + ",\"name\":"@ + string_json(name) + ",\"namespace\":"@ + string_json(namespace) + "}"@,
        subject_json(SubjectView { api_group: Some(api_group), kind, name, namespace: None })
            == "{\"apiGroup\":"@ + string_json(api_group) + ",\"kind\":"@ + string_json(kind)
            + ",\"name\":"@ + string_json(name) + "}"@,
        subject_json(SubjectView { api_group: None, kind, name, namespace: Some(namespace) })
            == "{\"kind\":"@ + string_json(kind) + ",\"name\":"@ + string_json(name)
            + ",\"namespace\":"@ + string_json(namespace) + "}"@,
        subject_json(SubjectView { api_group: None, kind, name, namespace: None }) == "{\"kind\":"@
            + string_json(kind) + ",\"name\":"@ + string_json(name) + "}"@,
{
    reveal_strlit("{");
    reveal_strlit("}");
    reveal_strlit(",");
    reveal_strlit("\"apiGroup\":");
    reveal_strlit("{\"apiGroup\":");
    reveal_strlit("\"kind\":");
    reveal_strlit("{\"kind\":");
    reveal_strlit(",\"kind\":");
    assert("{"@ + "\"apiGroup\":"@ =~= "{\"apiGroup\":"@);
    assert("{"@ + "\"kind\":"@ =~= "{\"kind\":"@);
    assert(","@ + "\"kind\":"@ =~= ",\"kind\":"@);
    let set = SubjectView { api_group: Some(api_group), kind, name, namespace: Some(namespace) };
    let global = SubjectView { api_group: Some(api_group), kind, name, namespace: None };
    let core = SubjectView { api_group: None, kind, name, namespace: Some(namespace) };
    let bare = SubjectView { api_group: None, kind, name, namespace: None };
    let head = "{\"apiGroup\":"@ + string_json(api_group) + ",\"kind\":"@ + string_json(kind);
    let short = "{\"kind\":"@ + string_json(kind);
    let tail = ",\"name\":"@ + string_json(name);
    let place = ",\"namespace\":"@ + string_json(namespace);
    assert(subject_json(set) =~= head + tail + place + "}"@);
    assert(subject_json(global) =~= head + tail + "}"@);
    assert(subject_json(core) =~= short + tail + place + "}"@);
    assert(subject_json(bare) =~= short + tail + "}"@);
    assert(head + ",\"name\":"@ + string_json(name) =~= head + tail);
    assert(short + ",\"name\":"@ + string_json(name) =~= short + tail);
    assert(head + tail + ",\"namespace\":"@ + string_json(namespace) =~= head + tail + place);
    assert(short + tail + ",\"namespace\":"@ + string_json(namespace) =~= short + tail + place);
}

} // verus!
