use algoworld::classifier::{parse_file_extensions, TableError};

fn lines(v: &[&str]) -> Vec<String> {
    v.iter().map(|s| s.to_string()).collect()
}

#[test]
fn table_maps_trimmed_extensions_to_labels() {
    let table = parse_file_extensions(&lines(&[" py , Python ", "cpp,C++", "rs,Rust"])).unwrap();
    assert_eq!(table.label_for(&"py".to_string()), Some("Python".to_string()));
    assert_eq!(table.label_for(&"cpp".to_string()), Some("C++".to_string()));
    assert_eq!(table.label_for(&"rs".to_string()), Some("Rust".to_string()));
    assert_eq!(table.label_for(&"txt".to_string()), None);
}

#[test]
fn table_splits_at_the_first_comma_only() {
    let table = parse_file_extensions(&lines(&["h,C, C++ header"])).unwrap();
    assert_eq!(table.label_for(&"h".to_string()), Some("C, C++ header".to_string()));
}

#[test]
fn later_line_replaces_earlier_label() {
    let table = parse_file_extensions(&lines(&["py,Python 2", "py,Python"])).unwrap();
    assert_eq!(table.label_for(&"py".to_string()), Some("Python".to_string()));
}

#[test]
fn line_without_comma_fails_the_table() {
    let r = parse_file_extensions(&lines(&["py,Python", "cpp C++", "rs"]));
    assert_eq!(r.err(), Some(TableError::MissingComma { line: 1 }));
}

#[test]
fn empty_table_has_no_labels() {
    let table = parse_file_extensions(&Vec::new()).unwrap();
    assert_eq!(table.label_for(&"py".to_string()), None);
}
