use panamax::layout::{crate_path, detect_layout, CrateLayout};

fn names(v: &[&str]) -> Vec<String> {
    v.iter().map(|s| s.to_string()).collect()
}

#[test]
fn empty_tree_is_current() {
    assert_eq!(detect_layout(&names(&[])), CrateLayout::Current);
}

#[test]
fn prefix_directories_are_current() {
    assert_eq!(detect_layout(&names(&["1", "2", "3", "se", "to"])), CrateLayout::Current);
}

#[test]
fn crate_named_directories_are_legacy() {
    assert_eq!(detect_layout(&names(&["1", "serde"])), CrateLayout::Legacy);
    assert_eq!(detect_layout(&names(&["4"])), CrateLayout::Legacy);
}

#[test]
fn crate_paths_by_name_length() {
    assert_eq!(crate_path("a", "0.1.0").unwrap(), "1/a/0.1.0/a-0.1.0.crate");
    assert_eq!(crate_path("ab", "1.0.0").unwrap(), "2/ab/1.0.0/ab-1.0.0.crate");
    assert_eq!(crate_path("abc", "2.0.0").unwrap(), "3/a/abc/2.0.0/abc-2.0.0.crate");
    assert_eq!(
        crate_path("serde", "1.0.1").unwrap(),
        "se/rd/serde/1.0.1/serde-1.0.1.crate"
    );
}

#[test]
fn empty_name_has_no_path() {
    assert!(crate_path("", "1.0.0").is_none());
}
