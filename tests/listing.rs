use clawlet_core::listing::{name_precedes_or_equals, sort_entries};

#[test]
fn entries_come_out_in_name_order() {
    let entries = vec![
        ("src".to_string(), true),
        ("Cargo.toml".to_string(), false),
        ("README.md".to_string(), false),
        ("app".to_string(), true),
        ("a".to_string(), false),
    ];
    let sorted = sort_entries(entries);
    assert_eq!(
        sorted,
        vec![
            ("Cargo.toml".to_string(), false),
            ("README.md".to_string(), false),
            ("a".to_string(), false),
            ("app".to_string(), true),
            ("src".to_string(), true),
        ]
    );
}

#[test]
fn empty_listing_stays_empty() {
    assert!(sort_entries(vec![]).is_empty());
}

#[test]
fn names_compare_as_strings_do() {
    let names = ["", "a", "ab", "b", "B", "\u{e9}", "z", "aa"];
    for x in names.iter() {
        for y in names.iter() {
            assert_eq!(name_precedes_or_equals(x, y), x <= y, "{x} {y}");
        }
    }
}
