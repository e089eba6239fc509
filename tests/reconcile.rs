use panamax::layout::crate_path;
use panamax::reconcile::{compare_text, missing_entries, IndexRecord, MissingEntry};

fn rec(name: &str, version: &str) -> IndexRecord {
    IndexRecord {
        name: name.to_string(),
        version: version.to_string(),
        checksum: "00".to_string(),
        yanked: false,
    }
}

fn keys(v: &[MissingEntry]) -> Vec<(String, String)> {
    v.iter().map(|e| (e.get_name().to_string(), e.get_vers().to_string())).collect()
}

fn path(name: &str, version: &str) -> String {
    crate_path(name, version).unwrap()
}

#[test]
fn missing_sorted_by_name_then_version() {
    let recs = vec![rec("serde", "1.0.1"), rec("anyhow", "1.0.0"), rec("serde", "1.0.0")];
    let out = missing_entries(&recs, &vec![]);
    assert_eq!(
        keys(&out),
        vec![
            ("anyhow".to_string(), "1.0.0".to_string()),
            ("serde".to_string(), "1.0.0".to_string()),
            ("serde".to_string(), "1.0.1".to_string()),
        ]
    );
}

#[test]
fn present_archives_are_not_missing() {
    let recs = vec![rec("serde", "1.0.1"), rec("anyhow", "1.0.0")];
    let present = vec![path("serde", "1.0.1")];
    let out = missing_entries(&recs, &present);
    assert_eq!(keys(&out), vec![("anyhow".to_string(), "1.0.0".to_string())]);
}

#[test]
fn diff_independent_of_record_order() {
    let a = vec![rec("log", "0.4.0"), rec("rand", "0.8.5"), rec("libc", "0.2.1"), rec("log", "0.3.9")];
    let b = vec![rec("libc", "0.2.1"), rec("log", "0.3.9"), rec("rand", "0.8.5"), rec("log", "0.4.0")];
    let present = vec![path("rand", "0.8.5")];
    assert_eq!(keys(&missing_entries(&a, &present)), keys(&missing_entries(&b, &present)));
    assert_eq!(keys(&missing_entries(&a, &present)), keys(&missing_entries(&a, &present)));
}

#[test]
fn duplicate_records_listed_once() {
    let recs = vec![rec("log", "0.4.0"), rec("log", "0.4.0")];
    assert_eq!(missing_entries(&recs, &vec![]).len(), 1);
}

#[test]
fn second_sync_after_full_fetch_is_empty() {
    let recs = vec![rec("log", "0.4.0"), rec("rand", "0.8.5"), rec("a", "1.0.0")];
    let first = missing_entries(&recs, &vec![]);
    assert_eq!(first.len(), 3);
    let present: Vec<String> = first.iter().map(|e| path(e.get_name(), e.get_vers())).collect();
    assert!(missing_entries(&recs, &present).is_empty());
}

#[test]
fn rerun_submits_only_failed() {
    let recs = vec![rec("log", "0.4.0"), rec("rand", "0.8.5"), rec("libc", "0.2.1"), rec("abc", "1.0.0")];
    let first = missing_entries(&recs, &vec![]);
    assert_eq!(first.len(), 4);
    // the second and fourth downloads failed
    let present: Vec<String> = first
        .iter()
        .enumerate()
        .filter(|(i, _)| *i != 1 && *i != 3)
        .map(|(_, e)| path(e.get_name(), e.get_vers()))
        .collect();
    let second = missing_entries(&recs, &present);
    assert_eq!(keys(&second), vec![keys(&first)[1].clone(), keys(&first)[3].clone()]);
}

#[test]
fn empty_name_never_missing() {
    let recs = vec![rec("", "1.0.0")];
    assert!(missing_entries(&recs, &vec![]).is_empty());
}

#[test]
fn text_order() {
    assert_eq!(compare_text("abc", "abd"), -1);
    assert_eq!(compare_text("ab", "abc"), -1);
    assert_eq!(compare_text("abc", "abc"), 0);
    assert_eq!(compare_text("b", "abc"), 1);
    assert_eq!(compare_text("", ""), 0);
}
