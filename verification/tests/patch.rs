use bacchus_gpu_controller::crd::RoleBinding;
use bacchus_gpu_controller::k8s::{RoleRef, Subject};
use bacchus_gpu_controller::patch::{encode_patch, value_to_json, AddOperation, PatchValue};

fn binding(subjects: Option<Vec<Subject>>) -> RoleBinding {
    RoleBinding {
        role_ref: RoleRef {
            api_group: "rbac.authorization.k8s.io".to_string(),
            kind: "ClusterRole".to_string(),
            name: "user \"default\"".to_string(),
        },
        subjects,
    }
}

#[test]
fn text_values_are_quoted() {
    assert_eq!(value_to_json(&PatchValue::Text("alice".to_string())), "\"alice\"");
    assert_eq!(value_to_json(&PatchValue::Text("a\"b\\c\n".to_string())), "\"a\\\"b\\\\c\\n\"");
    assert_eq!(value_to_json(&PatchValue::EmptyObject), "{}");
}

#[test]
fn control_characters_are_escaped() {
    let text = "\u{0}\u{8}\t\n\u{b}\u{c}\r\u{1f} /\u{7f}\u{2028}이름";
    assert_eq!(
        value_to_json(&PatchValue::Text(text.to_string())),
        "\"\\u0000\\b\\t\\n\\u000b\\f\\r\\u001f /\u{7f}\u{2028}이름\""
    );
}

#[test]
fn resources_are_ordered_by_code_point() {
    let limit = |name: &str| (name.to_string(), "1".to_string());
    let quota = PatchValue::Quota(vec![
        limit("é"),
        limit("b"),
        limit("\u{10000}"),
        limit("ab"),
        limit("\u{ffff}"),
        limit("a"),
        limit("Z"),
    ]);
    assert_eq!(
        value_to_json(&quota),
        "{\"hard\":{\"Z\":\"1\",\"a\":\"1\",\"ab\":\"1\",\"b\":\"1\",\"é\":\"1\",\
         \"\u{ffff}\":\"1\",\"\u{10000}\":\"1\"}}"
    );
    assert_eq!(value_to_json(&PatchValue::Quota(Vec::new())), "{\"hard\":{}}");
}

#[test]
fn reserved_names_are_written_like_others() {
    let name = "$serde_json::private::RawValue";
    let quota = PatchValue::Quota(vec![(name.to_string(), "1".to_string())]);
    assert_eq!(value_to_json(&quota), format!("{{\"hard\":{{\"{}\":\"1\"}}}}", name));
    let name = "$serde_json::private::Number";
    let quota = PatchValue::Quota(vec![(name.to_string(), "1".to_string())]);
    assert_eq!(value_to_json(&quota), format!("{{\"hard\":{{\"{}\":\"1\"}}}}", name));
}

#[test]
fn quotas_are_sorted_by_resource() {
    let quota = PatchValue::Quota(vec![
        ("requests.memory".to_string(), "500Mi".to_string()),
        ("requests.cpu".to_string(), "1".to_string()),
    ]);
    assert_eq!(
        value_to_json(&quota),
        "{\"hard\":{\"requests.cpu\":\"1\",\"requests.memory\":\"500Mi\"}}"
    );
}

#[test]
fn bindings_without_subjects() {
    assert_eq!(
        value_to_json(&PatchValue::RoleBinding(binding(None))),
        "{\"role_ref\":{\"apiGroup\":\"rbac.authorization.k8s.io\",\"kind\":\"ClusterRole\",\
         \"name\":\"user \\\"default\\\"\"},\"subjects\":null}"
    );
    let empty = value_to_json(&PatchValue::RoleBinding(binding(Some(Vec::new()))));
    assert!(empty.ends_with("\"subjects\":[]}"));
}

#[test]
fn bindings_with_subjects() {
    let subjects = vec![
        Subject {
            api_group: Some("rbac.authorization.k8s.io".to_string()),
            kind: "User".to_string(),
            name: "alice".to_string(),
            namespace: None,
        },
        Subject {
            api_group: None,
            kind: "ServiceAccount".to_string(),
            name: "robot".to_string(),
            namespace: Some("lab".to_string()),
        },
    ];
    let json = value_to_json(&PatchValue::RoleBinding(binding(Some(subjects))));
    assert!(json.ends_with(
        "\"subjects\":[{\"apiGroup\":\"rbac.authorization.k8s.io\",\"kind\":\"User\",\
         \"name\":\"alice\"},{\"kind\":\"ServiceAccount\",\"name\":\"robot\",\
         \"namespace\":\"lab\"}]}"
    ));
}

#[test]
fn written_values_match_serde() {
    let subject = k8s_openapi::api::rbac::v1::Subject {
        api_group: None,
        kind: "ServiceAccount".to_string(),
        name: "robot \u{1}".to_string(),
        namespace: Some("lab".to_string()),
    };
    let expected = serde_json::to_string(&subject).unwrap();
    let json = value_to_json(&PatchValue::RoleBinding(binding(Some(vec![Subject {
        api_group: None,
        kind: "ServiceAccount".to_string(),
        name: "robot \u{1}".to_string(),
        namespace: Some("lab".to_string()),
    }]))));
    assert!(json.contains(&expected));
}

#[test]
fn patches_are_encoded_in_order() {
    let operations = vec![
        AddOperation { path: "/spec/quota".to_string(), value: PatchValue::EmptyObject },
        AddOperation {
            path: "/spec/kube_username".to_string(),
            value: PatchValue::Text("alice".to_string()),
        },
    ];
    let bytes = encode_patch(&operations).unwrap();
    assert_eq!(
        String::from_utf8(bytes).unwrap(),
        "[{\"op\":\"add\",\"path\":\"/spec/quota\",\"value\":{}},\
         {\"op\":\"add\",\"path\":\"/spec/kube_username\",\"value\":\"alice\"}]"
    );
    assert_eq!(encode_patch(&Vec::new()).unwrap(), b"[]".to_vec());
}

#[test]
fn values_are_encoded_as_they_are_written() {
    let values = vec![
        PatchValue::Text("a\"b\\c\u{1}é".to_string()),
        PatchValue::Quota(vec![
            ("requests.memory".to_string(), "500Mi".to_string()),
            ("requests.cpu".to_string(), "\n".to_string()),
        ]),
        PatchValue::RoleBinding(binding(None)),
        PatchValue::RoleBinding(binding(Some(Vec::new()))),
        PatchValue::EmptyObject,
    ];
    for value in values {
        let json = value_to_json(&value);
        let bytes = encode_patch(&vec![AddOperation { path: "/a\"b".to_string(), value }]).unwrap();
        assert_eq!(
            String::from_utf8(bytes).unwrap(),
            format!("[{{\"op\":\"add\",\"path\":\"/a\\\"b\",\"value\":{}}}]", json)
        );
    }
}
