use algoworld::descriptor::{PageType, WikiPageToml};
use algoworld::links::{LinkError, LinkTable};

fn page(title: &str, url: &str) -> WikiPageToml {
    WikiPageToml {
        title: title.to_string(),
        page_type: PageType::Algorithm,
        url: url.to_string(),
        related: None,
        categories: None,
        subpages: None,
    }
}

#[test]
fn each_title_resolves_to_its_url() {
    let pages = vec![
        page("Insertion Sort", "sorting/insertion_sort"),
        page("Sorting", "sorting"),
        page("Quick Sort", "sorting/quick_sort"),
    ];
    let table = LinkTable::build(&pages).unwrap();
    for p in &pages {
        assert_eq!(table.resolve(&p.title).unwrap(), p.url);
    }
}

#[test]
fn unknown_title_is_unresolved() {
    let table = LinkTable::build(&vec![page("Sorting", "sorting")]).unwrap();
    match table.resolve(&"Bubble Sort".to_string()) {
        Err(LinkError::UnresolvedReference { title }) => assert_eq!(title, "Bubble Sort"),
        other => panic!("unexpected {:?}", other),
    }
}

#[test]
fn empty_table_resolves_nothing() {
    let table = LinkTable::build(&Vec::new()).unwrap();
    assert!(table.resolve(&"".to_string()).is_err());
}

#[test]
fn duplicate_titles_fail_the_table() {
    let pages = vec![page("Sorting", "a"), page("Other", "b"), page("Sorting", "c")];
    match LinkTable::build(&pages) {
        Err(LinkError::DuplicateTitle { title }) => assert_eq!(title, "Sorting"),
        other => panic!("unexpected {:?}", other.is_ok()),
    }
}
