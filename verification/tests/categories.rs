use course_log::categories::split_category_names;

#[test]
fn split_on_both_separators_with_trimming() {
    assert_eq!(
        split_category_names("graphs, trees、 induction "),
        vec!["graphs".to_string(), "trees".to_string(), "induction".to_string()]
    );
}

#[test]
fn split_drops_empty_pieces() {
    assert_eq!(split_category_names(""), Vec::<String>::new());
    assert_eq!(split_category_names(" , ,、"), Vec::<String>::new());
    assert_eq!(split_category_names(",a,"), vec!["a".to_string()]);
}

#[test]
fn split_single_name() {
    assert_eq!(split_category_names("  动态规划  "), vec!["动态规划".to_string()]);
}

#[test]
fn split_trims_ideographic_whitespace() {
    assert_eq!(
        split_category_names("\u{3000}图论\u{3000}, 树\u{00A0}"),
        vec!["图论".to_string(), "树".to_string()]
    );
}
