use algoworld::aggregate::markdown_name;
use algoworld::classifier::parse_file_extensions;
use algoworld::descriptor::{output_path, PageType, WikiPageToml};
use algoworld::links::LinkTable;
use algoworld::highlight::Highlighter;
use algoworld::page::{AlgorithmPage, SourceFile};

const SOURCE: &str = "fn insertion_sort(a: &mut [i64]) {\n    let n = a.len();\n}\n";

#[test]
fn insertion_sort_page_end_to_end() {
    let table = parse_file_extensions(&vec!["rs,Rust".to_string(), "py,Python".to_string()]).unwrap();
    let d = WikiPageToml {
        title: "Insertion Sort".to_string(),
        page_type: PageType::Algorithm,
        url: "sorting/insertion_sort".to_string(),
        related: None,
        categories: None,
        subpages: None,
    };
    let descriptor_name = "insertion_sort.toml".to_string();
    assert_eq!(markdown_name(&descriptor_name), "insertion_sort.md");
    let files = vec![
        SourceFile { name: "insertion_sort.toml".to_string(), content: "title = \"Insertion Sort\"".to_string() },
        SourceFile { name: "insertion_sort.md".to_string(), content: "Sorts by *inserting*.".to_string() },
        SourceFile { name: "insertion_sort.rs".to_string(), content: SOURCE.to_string() },
    ];

    let markdown = "Sorts by *inserting*.";
    let information = comrak::markdown_to_html(markdown, &comrak::Options::default());
    assert!(information.contains("<em>inserting</em>"));

    let links = LinkTable::build(&vec![WikiPageToml { ..d_clone(&d) }]).unwrap();
    let page = AlgorithmPage::from(d, information.clone(), &files, &descriptor_name, &table);
    assert_eq!(page.implementations.len(), 1);
    assert_eq!(page.implementations[0].label, "Rust");
    assert_eq!(page.implementations[0].content, SOURCE);
    let doc = page.render(&links, &Highlighter::new()).unwrap();
    assert_eq!(output_path(&page.url), "sorting/insertion_sort.html");
    assert!(doc.contains(&information));
    assert!(doc.contains("<h2>Rust</h2><code>"));
    assert!(doc.contains("insertion_sort"));
    assert!(doc.contains("openTab('Implementations', this)"));
    assert!(!doc.contains("href=\"/.html\""));
}

fn d_clone(d: &WikiPageToml) -> WikiPageToml {
    WikiPageToml {
        title: d.title.clone(),
        page_type: d.page_type,
        url: d.url.clone(),
        related: d.related.clone(),
        categories: d.categories.clone(),
        subpages: d.subpages.clone(),
    }
}
