use algoworld::aggregate::markdown_name;
use algoworld::descriptor::{check_output_paths, is_descriptor_name, output_path, PageType, WikiPageToml};
use algoworld::sorting::insertion_sort;
use algoworld::text::{file_extension, file_stem};

#[test]
fn extension_follows_the_last_dot() {
    assert_eq!(file_extension("sort.py"), Some("py".to_string()));
    assert_eq!(file_extension("archive.tar.gz"), Some("gz".to_string()));
    assert_eq!(file_extension("trailing."), Some("".to_string()));
}

#[test]
fn names_without_extension() {
    assert_eq!(file_extension("Makefile"), None);
    assert_eq!(file_extension(".bashrc"), None);
    assert_eq!(file_extension(""), None);
}

#[test]
fn stem_drops_the_extension() {
    assert_eq!(file_stem("insertion_sort.toml"), "insertion_sort");
    assert_eq!(file_stem("archive.tar.gz"), "archive.tar");
    assert_eq!(file_stem(".bashrc"), ".bashrc");
}

#[test]
fn markdown_body_sits_beside_the_descriptor() {
    assert_eq!(markdown_name("insertion_sort.toml"), "insertion_sort.md");
    assert_eq!(markdown_name("page"), "page.md");
}

#[test]
fn output_path_appends_html() {
    assert_eq!(output_path(&"sorting/insertion_sort".to_string()), "sorting/insertion_sort.html");
    assert_eq!(output_path(&"a.b".to_string()), "a.b.html");
}

#[test]
fn insertion_sort_sorts() {
    let mut a: Vec<i64> = vec![5, -1, 3, 3, 0, 9, -7];
    insertion_sort(&mut a);
    assert_eq!(a, vec![-7, -1, 0, 3, 3, 5, 9]);
    let mut e: Vec<i64> = vec![];
    insertion_sort(&mut e);
    assert!(e.is_empty());
    let mut one: Vec<i64> = vec![i64::MAX, i64::MIN];
    insertion_sort(&mut one);
    assert_eq!(one, vec![i64::MIN, i64::MAX]);
}

#[test]
fn shared_url_is_reported() {
    let page = |t: &str, u: &str| WikiPageToml {
        title: t.to_string(),
        page_type: PageType::Generic,
        url: u.to_string(),
        related: None,
        categories: None,
        subpages: None,
    };
    assert!(check_output_paths(&vec![page("A", "a"), page("B", "b")]).is_ok());
    let e = check_output_paths(&vec![page("A", "a"), page("B", "b"), page("C", "a")]).unwrap_err();
    assert_eq!(e.url, "a");
    assert!(check_output_paths(&Vec::new()).is_ok());
}

#[test]
fn descriptor_files_end_in_toml() {
    assert!(is_descriptor_name("insertion_sort.toml"));
    assert!(is_descriptor_name(".toml"));
    assert!(!is_descriptor_name("toml"));
    assert!(!is_descriptor_name("insertion_sort.md"));
    assert!(!is_descriptor_name("a.toml.bak"));
}
