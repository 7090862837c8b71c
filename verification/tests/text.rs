use bacchus_gpu_controller::text::{
    begins_with, contains_text, decimal_text, same_text, split_at_commas,
};

#[test]
fn decimal_numbers() {
    assert_eq!(decimal_text(0), "0");
    assert_eq!(decimal_text(7), "7");
    assert_eq!(decimal_text(10), "10");
    assert_eq!(decimal_text(1234567890), "1234567890");
    assert_eq!(decimal_text(-42), "-42");
    assert_eq!(decimal_text(i64::MAX), "9223372036854775807");
    assert_eq!(decimal_text(i64::MIN), "-9223372036854775808");
}

#[test]
fn prefixes() {
    assert!(begins_with("oidc:alice", "oidc:"));
    assert!(begins_with("oidc:", "oidc:"));
    assert!(begins_with("alice", ""));
    assert!(!begins_with("alice", "oidc:"));
    assert!(!begins_with("oid", "oidc:"));
    assert!(begins_with("이름표", "이름"));
}

#[test]
fn parts_of_text() {
    assert!(contains_text("CPU 코어 수", "CPU 코어"));
    assert!(contains_text("사용할 메모리", "메모리"));
    assert!(contains_text("abc", ""));
    assert!(contains_text("aab", "ab"));
    assert!(!contains_text("abc", "ac"));
    assert!(!contains_text("ab", "abc"));
    assert!(same_text("이름", "이름"));
    assert!(!same_text("이름", "이름 "));
}

#[test]
fn commas_separate_and_nothing_is_lost() {
    assert_eq!(split_at_commas("a,b,c"), vec!["a", "b", "c"]);
    assert_eq!(split_at_commas("single"), vec!["single"]);
    assert_eq!(split_at_commas(""), vec![""]);
    assert_eq!(split_at_commas(",a,,b,"), vec!["", "a", "", "b", ""]);
    assert_eq!(split_at_commas("연구실, 학부"), vec!["연구실", " 학부"]);
    assert_eq!(split_at_commas(",a,,b,").join(","), ",a,,b,");
}
