use schema_compare::order::{key_eq, key_lt, text_lt};
use schema_compare::reconcile::{pair_shared, reconcile, Pairing};

fn keys(names: &[&str]) -> Vec<Vec<String>> {
    names.iter().map(|n| vec![n.to_string()]).collect()
}

#[test]
fn partitions_into_removed_maintained_added() {
    let plan = reconcile(&keys(&["a", "b"]), &keys(&["b", "c"]));
    assert_eq!(
        plan,
        vec![
            Pairing::Removed { left: 0 },
            Pairing::Maintained { left: 1, right: 0 },
            Pairing::Added { right: 1 },
        ]
    );
}

#[test]
fn added_entries_come_sorted_by_key() {
    let plan = reconcile(&keys(&["m"]), &keys(&["z", "m", "b", "q"]));
    assert_eq!(
        plan,
        vec![
            Pairing::Maintained { left: 0, right: 1 },
            Pairing::Added { right: 2 },
            Pairing::Added { right: 3 },
            Pairing::Added { right: 0 },
        ]
    );
}

#[test]
fn maintained_entries_keep_left_order() {
    let plan = reconcile(&keys(&["c", "a", "b"]), &keys(&["a", "b", "c"]));
    assert_eq!(
        plan,
        vec![
            Pairing::Maintained { left: 0, right: 2 },
            Pairing::Maintained { left: 1, right: 0 },
            Pairing::Maintained { left: 2, right: 1 },
        ]
    );
}

#[test]
fn right_order_does_not_change_the_report() {
    let left = keys(&["a", "x"]);
    let one = reconcile(&left, &keys(&["d", "a", "c", "b"]));
    let two = reconcile(&left, &keys(&["b", "c", "a", "d"]));
    let right_one = keys(&["d", "a", "c", "b"]);
    let right_two = keys(&["b", "c", "a", "d"]);
    let names = |plan: &Vec<Pairing>, right: &Vec<Vec<String>>| -> Vec<String> {
        plan.iter()
            .map(|p| match p {
                Pairing::Removed { left: i } => format!("-{}", left[*i][0]),
                Pairing::Maintained { left: i, .. } => format!("={}", left[*i][0]),
                Pairing::Added { right: j } => format!("+{}", right[*j][0]),
            })
            .collect()
    };
    assert_eq!(names(&one, &right_one), vec!["=a", "-x", "+b", "+c", "+d"]);
    assert_eq!(names(&one, &right_one), names(&two, &right_two));
    assert_eq!(reconcile(&left, &right_one), one);
}

#[test]
fn counts_match_the_key_sets() {
    let plan = reconcile(&keys(&["a", "b", "c", "d"]), &keys(&["c", "d", "e"]));
    let removed = plan.iter().filter(|p| matches!(p, Pairing::Removed { .. })).count();
    let maintained = plan.iter().filter(|p| matches!(p, Pairing::Maintained { .. })).count();
    let added = plan.iter().filter(|p| matches!(p, Pairing::Added { .. })).count();
    assert_eq!((removed, maintained, added), (2, 2, 1));
}

#[test]
fn empty_sides() {
    assert_eq!(reconcile(&keys(&[]), &keys(&[])), vec![]);
    assert_eq!(reconcile(&keys(&["a"]), &keys(&[])), vec![Pairing::Removed { left: 0 }]);
    assert_eq!(reconcile(&keys(&[]), &keys(&["a"])), vec![Pairing::Added { right: 0 }]);
}

#[test]
fn duplicate_keys_match_once() {
    let plan = reconcile(&keys(&["a", "a"]), &keys(&["a", "b", "b"]));
    assert_eq!(
        plan,
        vec![
            Pairing::Maintained { left: 0, right: 0 },
            Pairing::Removed { left: 1 },
            Pairing::Added { right: 2 },
        ]
    );
}

#[test]
fn composite_keys_order_by_component() {
    let left: Vec<Vec<String>> = vec![];
    let right = vec![
        vec!["t".to_string(), "UPDATE".to_string()],
        vec!["s".to_string(), "INSERT".to_string()],
        vec!["t".to_string(), "INSERT".to_string()],
    ];
    let plan = reconcile(&left, &right);
    assert_eq!(
        plan,
        vec![Pairing::Added { right: 1 }, Pairing::Added { right: 2 }, Pairing::Added { right: 0 }]
    );
}

#[test]
fn shared_pairs_leave_out_one_sided_keys() {
    let pairs = pair_shared(&keys(&["v1", "v2", "v3"]), &keys(&["v3", "v1", "v4"]));
    assert_eq!(
        pairs,
        vec![Pairing::Maintained { left: 0, right: 1 }, Pairing::Maintained { left: 2, right: 0 }]
    );
}

#[test]
fn key_order_is_by_code_point() {
    let a: Vec<char> = "abc".chars().collect();
    let b: Vec<char> = "abd".chars().collect();
    let p: Vec<char> = "ab".chars().collect();
    assert!(text_lt(&a, &b));
    assert!(!text_lt(&b, &a));
    assert!(text_lt(&p, &a));
    assert!(!text_lt(&a, &a));
    let upper: Vec<char> = "Z".chars().collect();
    let lower: Vec<char> = "a".chars().collect();
    assert!(text_lt(&upper, &lower));
    assert!(key_lt(&vec!["a".to_string(), "z".to_string()], &vec!["b".to_string(), "a".to_string()]));
    assert!(key_eq(&vec!["a".to_string()], &vec!["a".to_string()]));
    assert!(!key_eq(&vec!["a".to_string()], &vec!["a".to_string(), "b".to_string()]));
}
