use safeql::classify::{ambiguous_from, column_from, first_group, function_from, group, operator_info_from, split_arg_types};

fn caps(groups: &[Option<&str>]) -> Option<Vec<Option<String>>> {
    Some(groups.iter().map(|g| g.map(|s| s.to_string())).collect())
}

#[test]
fn group_selection() {
    let c = caps(&[Some("whole"), Some("a"), None]);
    assert_eq!(group(&c, 1), Some("a".to_string()));
    assert_eq!(group(&c, 2), None);
    assert_eq!(group(&c, 7), None);
    assert_eq!(group(&None, 0), None);
    assert_eq!(first_group(&None, &caps(&[Some("x"), Some("p")]), 1), Some("p".to_string()));
    assert_eq!(first_group(&caps(&[Some("x"), Some("q")]), &caps(&[Some("x"), Some("p")]), 1), Some("q".to_string()));
}

#[test]
fn column_forms_in_order() {
    let of_rel = caps(&[Some("m"), Some("nm"), Some("users")]);
    let qualified = caps(&[Some("m"), Some("u"), Some("nm")]);
    let words = caps(&[Some("m"), Some("p"), Some("  County Name ")]);
    let bare = caps(&[Some("m"), Some(" a.b ")]);
    assert_eq!(
        column_from(&of_rel, &qualified, &None, &None, &None),
        Some((Some("users".to_string()), "nm".to_string()))
    );
    assert_eq!(column_from(&None, &qualified, &None, &None, &None), Some((Some("u".to_string()), "nm".to_string())));
    assert_eq!(
        column_from(&None, &None, &None, &words, &None),
        Some((Some("p".to_string()), "County Name".to_string()))
    );
    assert_eq!(column_from(&None, &None, &None, &caps(&[Some("m"), Some("p"), Some("   ")]), &caps(&[Some("m"), Some("x y")])), Some((None, "x y".to_string())));
    assert_eq!(column_from(&None, &None, &None, &None, &bare), None);
    assert_eq!(column_from(&None, &None, &None, &None, &None), None);
}

#[test]
fn function_and_operator_groups() {
    assert_eq!(
        function_from(&caps(&[Some("m"), Some(" date_part "), Some("unknown, , bigint")])),
        Some(("date_part".to_string(), vec!["unknown".to_string(), "bigint".to_string()]))
    );
    assert_eq!(function_from(&None), None);
    assert_eq!(split_arg_types(" a ,b,, c "), vec!["a".to_string(), "b".to_string(), "c".to_string()]);
    let op = operator_info_from(&caps(&[Some("m"), Some("int"), Some("~~"), Some("text")]), &None);
    assert_eq!((op.operator_name.as_str(), op.left_type.as_deref(), op.right_type.as_deref()), ("~~", Some("int"), Some("text")));
    let eq = operator_info_from(&None, &caps(&[Some("m"), Some("point")]));
    assert_eq!((eq.operator_name.as_str(), eq.left_type.as_deref()), ("=", Some("point")));
    assert_eq!(ambiguous_from(&None, &None, &caps(&[Some("m"), Some("id")])), Some("id".to_string()));
    assert_eq!(ambiguous_from(&None, &None, &None), None);
}
