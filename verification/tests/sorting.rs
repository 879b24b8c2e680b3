use aws_logs_tui::catalog::{sort_functions, Catalog, Function};

fn to_names(v: &[Function]) -> Vec<String> {
    v.iter().map(|f| f.name.clone()).collect()
}

#[test]
fn sort_is_ordinal_and_case_sensitive() {
    let input = vec![Function::new("zebra"), Function::new("apple"), Function::new("Apple")];
    let sorted = sort_functions(input);
    assert_eq!(to_names(&sorted), vec!["Apple", "apple", "zebra"]);
}

#[test]
fn sort_is_deterministic() {
    let make = || {
        vec![
            Function::new("zebra"),
            Function::new("apple"),
            Function::new("Apple"),
            Function::new("apple"),
        ]
    };
    let first = sort_functions(make());
    let second = sort_functions(make());
    assert_eq!(to_names(&first), to_names(&second));
    assert_eq!(to_names(&first), vec!["Apple", "apple", "apple", "zebra"]);
}

#[test]
fn sort_handles_prefixes_and_empty_names() {
    let input = vec![
        Function::new("ab"),
        Function::new(""),
        Function::new("a"),
        Function::new("abc"),
    ];
    let sorted = sort_functions(input);
    assert_eq!(to_names(&sorted), vec!["", "a", "ab", "abc"]);
}

#[test]
fn sort_orders_by_unicode_scalar_value() {
    let input = vec![
        Function::new("\u{03a9}mega"),
        Function::new("zeta"),
        Function::new("Alpha"),
    ];
    let sorted = sort_functions(input);
    assert_eq!(to_names(&sorted), vec!["Alpha", "zeta", "\u{03a9}mega"]);
}

#[test]
fn catalog_is_sorted_on_construction() {
    let entries = vec![
        Function::new("gamma"),
        Function::new("alpha"),
        Function::new("beta"),
    ];
    let catalog = Catalog::from_entries(entries);
    assert_eq!(catalog.len(), 3);
    assert_eq!(catalog.name_at(0).as_str(), "alpha");
    assert_eq!(catalog.name_at(1).as_str(), "beta");
    assert_eq!(catalog.name_at(2).as_str(), "gamma");
}
