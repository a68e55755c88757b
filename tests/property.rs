use schema_compare::property::{
    compare_int_property, compare_option_int_property, compare_option_property,
    compare_option_property_ignore_whitespace, compare_property,
};
use schema_compare::report::{HasChanges, PropertyComparison};

fn unchanged(p: &PropertyComparison) -> (String, String) {
    match p {
        PropertyComparison::PropertyUnchanged { property_name, value } => (property_name.clone(), value.clone()),
        PropertyComparison::PropertyChanged { .. } => panic!("expected an unchanged property"),
    }
}

fn changed(p: &PropertyComparison) -> (String, String, String) {
    match p {
        PropertyComparison::PropertyChanged { property_name, left_value, right_value } => {
            (property_name.clone(), left_value.clone(), right_value.clone())
        }
        PropertyComparison::PropertyUnchanged { .. } => panic!("expected a changed property"),
    }
}

#[test]
fn required_text_equal_is_unchanged() {
    let p = compare_property("owner", &"alice".to_string(), &"alice".to_string());
    assert_eq!(unchanged(&p), ("owner".to_string(), "alice".to_string()));
    assert!(!p.has_changes());
}

#[test]
fn required_text_different_is_changed() {
    let p = compare_property("owner", &"alice".to_string(), &"bob".to_string());
    assert_eq!(changed(&p), ("owner".to_string(), "alice".to_string(), "bob".to_string()));
    assert!(p.has_changes());
}

#[test]
fn integers_render_in_decimal() {
    let p = compare_int_property("ordinal_position", -42, 7);
    assert_eq!(changed(&p), ("ordinal_position".to_string(), "-42".to_string(), "7".to_string()));
    let q = compare_int_property("ordinal_position", 1200, 1200);
    assert_eq!(unchanged(&q), ("ordinal_position".to_string(), "1200".to_string()));
}

#[test]
fn both_absent_is_unchanged_at_none() {
    let p = compare_option_property("collation_name", &None, &None);
    assert_eq!(unchanged(&p), ("collation_name".to_string(), "<none>".to_string()));
}

#[test]
fn present_against_absent_is_changed() {
    let p = compare_option_property("collation_name", &Some("x".to_string()), &None);
    assert_eq!(changed(&p), ("collation_name".to_string(), "x".to_string(), "<none>".to_string()));
    let q = compare_option_property("collation_name", &None, &Some("x".to_string()));
    assert_eq!(changed(&q), ("collation_name".to_string(), "<none>".to_string(), "x".to_string()));
}

#[test]
fn both_present_and_equal_is_unchanged() {
    let p = compare_option_property("collation_name", &Some("x".to_string()), &Some("x".to_string()));
    assert_eq!(unchanged(&p), ("collation_name".to_string(), "x".to_string()));
    let q = compare_option_property("collation_name", &Some("x".to_string()), &Some("y".to_string()));
    assert_eq!(changed(&q), ("collation_name".to_string(), "x".to_string(), "y".to_string()));
}

#[test]
fn optional_integers() {
    let p = compare_option_int_property("numeric_scale", Some(2), None);
    assert_eq!(changed(&p), ("numeric_scale".to_string(), "2".to_string(), "<none>".to_string()));
    let q = compare_option_int_property("numeric_scale", None, None);
    assert_eq!(unchanged(&q), ("numeric_scale".to_string(), "<none>".to_string()));
    let r = compare_option_int_property("numeric_scale", Some(-3), Some(-3));
    assert_eq!(unchanged(&r), ("numeric_scale".to_string(), "-3".to_string()));
}

#[test]
fn definitions_up_to_whitespace() {
    let l = Some("select  1\n from t".to_string());
    let r = Some(" select 1 from\tt ".to_string());
    let p = compare_option_property_ignore_whitespace("routine_definition", &l, &r);
    assert_eq!(unchanged(&p), ("routine_definition".to_string(), "select  1\n from t".to_string()));
    let strict = compare_option_property("routine_definition", &l, &r);
    assert!(strict.has_changes());
    let s = Some("select  2".to_string());
    let q = compare_option_property_ignore_whitespace("routine_definition", &Some("select 1".to_string()), &s);
    assert!(q.has_changes());
    let n = compare_option_property_ignore_whitespace("routine_definition", &None, &s);
    assert_eq!(changed(&n), ("routine_definition".to_string(), "<none>".to_string(), "select  2".to_string()));
}
