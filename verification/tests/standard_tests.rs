use dicom_ul::standard::{check_consistent, distinct_values, tag_type_from_str, Module, TagType};

fn module(usage: &str, conditional: Option<&str>) -> Module {
    Module {
        module_id: "patient".to_string(),
        usage: usage.to_string(),
        conditional: conditional.map(|c| c.to_string()),
        ie: "Patient".to_string(),
    }
}

#[test]
fn mandatory_modules_are_required() {
    assert!(module("M", None).is_required());
}

#[test]
fn optional_modules_are_not_required() {
    assert!(!module("U", None).is_required());
    assert!(!module("C", None).is_required());
}

#[test]
fn tag_types_from_codes() {
    assert_eq!(tag_type_from_str("1"), TagType::Type1);
    assert_eq!(tag_type_from_str("1C"), TagType::Type1C);
    assert_eq!(tag_type_from_str("2"), TagType::Type2);
    assert_eq!(tag_type_from_str("2C"), TagType::Type2C);
    assert_eq!(tag_type_from_str("3"), TagType::Type3);
    assert_eq!(tag_type_from_str(""), TagType::Unknown);
    assert_eq!(tag_type_from_str("4"), TagType::Unknown);
}

#[test]
fn consistent_values_pass() {
    let values = vec!["1.2.3".to_string(), "1.2.3".to_string(), "1.2.3".to_string()];
    assert_eq!(check_consistent(&values), Ok(()));
}

#[test]
fn inconsistent_values_report_each_distinct_value_once() {
    let values = vec![
        "CT".to_string(),
        "MR".to_string(),
        "CT".to_string(),
        "US".to_string(),
    ];
    assert_eq!(
        check_consistent(&values),
        Err(vec!["CT".to_string(), "MR".to_string(), "US".to_string()])
    );
}

#[test]
fn no_values_at_all_fail_the_check() {
    assert_eq!(check_consistent(&Vec::new()), Err(Vec::new()));
}

#[test]
fn distinct_keeps_first_occurrence_order() {
    let values = vec!["b".to_string(), "a".to_string(), "b".to_string()];
    assert_eq!(distinct_values(&values), vec!["b".to_string(), "a".to_string()]);
}
