use algoworld::aggregate::implementation_files;
use algoworld::classifier::parse_file_extensions;

fn strings(v: &[&str]) -> Vec<String> {
    v.iter().map(|s| s.to_string()).collect()
}

fn chosen(names: &[&str], descriptor: &str, table_lines: &[&str]) -> Vec<(String, String)> {
    let table = parse_file_extensions(&strings(table_lines)).unwrap();
    let names = strings(names);
    let mut r: Vec<(String, String)> = implementation_files(&names, &descriptor.to_string(), &table)
        .into_iter()
        .map(|f| (f.label, names[f.index].clone()))
        .collect();
    r.sort();
    r
}

#[test]
fn unknown_extensions_are_skipped() {
    let r = chosen(&["sort.py", "sort.cpp", "sort.txt"], "sort.toml", &["py,Python", "cpp,C++"]);
    assert_eq!(
        r,
        vec![("C++".to_string(), "sort.cpp".to_string()), ("Python".to_string(), "sort.py".to_string())]
    );
}

#[test]
fn descriptor_and_markdown_body_are_never_listed() {
    let r = chosen(
        &["sort.toml", "sort.md", "sort.py", "notes.md"],
        "sort.toml",
        &["py,Python", "md,Markdown", "toml,TOML"],
    );
    assert_eq!(
        r,
        vec![("Markdown".to_string(), "notes.md".to_string()), ("Python".to_string(), "sort.py".to_string())]
    );
}

#[test]
fn same_label_yields_one_entry() {
    let r = chosen(&["a.py", "b.py"], "x.toml", &["py,Python"]);
    assert_eq!(r.len(), 1);
    assert_eq!(r[0].0, "Python");
    assert!(r[0].1 == "a.py" || r[0].1 == "b.py");
}

#[test]
fn files_without_extension_are_skipped() {
    let r = chosen(&["Makefile", ".py", "run.py"], "x.toml", &["py,Python"]);
    assert_eq!(r, vec![("Python".to_string(), "run.py".to_string())]);
}
