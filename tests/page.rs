use algoworld::descriptor::{PageType, WikiPageToml};
use algoworld::links::LinkTable;
use algoworld::classifier::parse_file_extensions;
use algoworld::page::{base_page, generate_links, AlgorithmPage, CategoryPage, RenderError, SourceFile};
use algoworld::highlight::Highlighter;

fn strings(v: &[&str]) -> Vec<String> {
    v.iter().map(|s| s.to_string()).collect()
}

fn descriptor(title: &str, page_type: PageType, url: &str) -> WikiPageToml {
    WikiPageToml {
        title: title.to_string(),
        page_type,
        url: url.to_string(),
        related: None,
        categories: None,
        subpages: None,
    }
}

fn algorithm(d: WikiPageToml, information: &str, files: &[(&str, &str)], table: &[&str]) -> AlgorithmPage {
    let files: Vec<SourceFile> = files
        .iter()
        .map(|(n, c)| SourceFile { name: n.to_string(), content: c.to_string() })
        .collect();
    let table = parse_file_extensions(&strings(table)).unwrap();
    AlgorithmPage::from(d, information.to_string(), &files, &"page.toml".to_string(), &table)
}

fn site() -> LinkTable {
    LinkTable::build(&vec![
        descriptor("Insertion Sort", PageType::Algorithm, "sorting/insertion_sort"),
        descriptor("Sorting", PageType::Category, "sorting"),
        descriptor("Tom & Jerry <3", PageType::Generic, "a\"b"),
    ])
    .unwrap()
}

#[test]
fn links_are_comma_separated_anchors() {
    let s = generate_links(&strings(&["Insertion Sort", "Sorting"]), &site()).unwrap();
    assert_eq!(
        s,
        "<a href=\"/sorting/insertion_sort.html\">Insertion Sort</a>, <a href=\"/sorting.html\">Sorting</a>"
    );
    assert_eq!(generate_links(&Vec::new(), &site()).unwrap(), "");
}

#[test]
fn link_text_and_target_are_escaped() {
    let s = generate_links(&strings(&["Tom & Jerry <3"]), &site()).unwrap();
    assert_eq!(s, "<a href=\"/a&quot;b.html\">Tom &amp; Jerry &lt;3</a>");
}

#[test]
fn document_frames_the_content() {
    let d = base_page("<p>x</p>");
    assert!(d.starts_with("<!DOCTYPE html><head>"));
    assert!(d.contains("<div class=\"page\"><p>x</p></div><footer>"));
    assert!(d.ends_with("</footer></body>"));
}

#[test]
fn algorithm_page_without_implementations_has_no_implementations_tab() {
    let page = algorithm(
        descriptor("Insertion Sort", PageType::Algorithm, "sorting/insertion_sort"),
        "<p>body</p>",
        &[("page.toml", "title = 1"), ("page.md", "body"), ("notes.txt", "x")],
        &["md,Markdown", "toml,TOML"],
    );
    let doc = page.render_highlighted(&site(), &Vec::new()).unwrap();
    assert!(!doc.contains("Implementations"));
    assert!(doc.contains("openTab('Information', this)"));
    assert!(doc.contains("<h1>Insertion Sort</h1><p>Related: </p><p>Categories: </p>"));
    assert!(doc.contains("id=\"Information\"><p>body</p></div>"));
}

#[test]
fn algorithm_page_lists_each_implementation() {
    let d = WikiPageToml {
        related: Some(strings(&["Sorting"])),
        categories: Some(strings(&["Sorting"])),
        ..descriptor("Insertion Sort", PageType::Algorithm, "sorting/insertion_sort")
    };
    let page = algorithm(d, "", &[("x.cpp", "int x;")], &["cpp,C++"]);
    let doc = page.render_highlighted(&site(), &strings(&["<pre>int x;</pre>"])).unwrap();
    assert!(doc.contains("<p>Related: <a href=\"/sorting.html\">Sorting</a></p>"));
    assert!(doc.contains("<p>Categories: <a href=\"/sorting.html\">Sorting</a></p>"));
    assert!(doc.contains("openTab('Implementations', this)"));
    assert!(doc.contains("id=\"Implementations\"><h2>C++</h2><code><pre>int x;</pre></code></div>"));
}

#[test]
fn algorithm_page_with_unknown_related_title_fails() {
    let d = WikiPageToml {
        related: Some(strings(&["Sorting", "Heap Sort"])),
        ..descriptor("Insertion Sort", PageType::Algorithm, "sorting/insertion_sort")
    };
    let page = algorithm(d, "", &[], &[]);
    match page.render_highlighted(&site(), &Vec::new()) {
        Err(RenderError::UnresolvedReference { page, title }) => {
            assert_eq!(page, "Insertion Sort");
            assert_eq!(title, "Heap Sort");
        }
        other => panic!("unexpected {:?}", other),
    }
}

#[test]
fn category_page_lists_its_pages() {
    let d = WikiPageToml {
        subpages: Some(strings(&["Insertion Sort"])),
        ..descriptor("Sorting", PageType::Category, "sorting")
    };
    let page = CategoryPage::from(d, "<p>All sorts.</p>".to_string());
    let doc = page.render(&site()).unwrap();
    assert!(doc.contains(
        "<h1>Sorting</h1><div class=\"wrapper\" id=\"Information\"><p>All sorts.</p><h1>Pages</h1><p><a href=\"/sorting/insertion_sort.html\">Insertion Sort</a></p></div>"
    ));
}

#[test]
fn category_page_with_unknown_subpage_fails_naming_it() {
    let d = WikiPageToml {
        subpages: Some(strings(&["Insertion Sort", "Merge Sort"])),
        ..descriptor("Sorting", PageType::Category, "sorting")
    };
    let page = CategoryPage::from(d, String::new());
    match page.render(&site()) {
        Err(RenderError::UnresolvedReference { page, title }) => {
            assert_eq!(page, "Sorting");
            assert_eq!(title, "Merge Sort");
        }
        other => panic!("unexpected {:?}", other),
    }
}

#[test]
fn unknown_language_fails_the_page() {
    let highlighter = Highlighter::new();
    let page = algorithm(descriptor("Insertion Sort", PageType::Algorithm, "s"), "", &[("a.kl", "x")], &["kl,Klingon"]);
    match page.render(&site(), &highlighter) {
        Err(RenderError::UnknownLanguage { page, label }) => {
            assert_eq!(page, "Insertion Sort");
            assert_eq!(label, "Klingon");
        }
        other => panic!("unexpected {:?}", other),
    }
}

#[test]
fn bare_algorithm_page_renders_without_implementations_tab() {
    let page = algorithm(descriptor("Lonely", PageType::Algorithm, "lonely"), "", &[], &[]);
    let empty = LinkTable::build(&Vec::new()).unwrap();
    let doc = page.render(&empty, &Highlighter::new()).unwrap();
    assert!(!doc.contains("Implementations"));
    assert!(doc.contains("id=\"Information\""));
}

#[test]
fn each_block_holds_its_own_listing() {
    let page = algorithm(
        descriptor("Two", PageType::Algorithm, "two"),
        "",
        &[("a.py", "def first_fn(): pass\n"), ("b.rs", "fn second_fn() {}\n")],
        &["py,Python", "rs,Rust"],
    );
    let doc = page.render(&site(), &Highlighter::new()).unwrap();
    let py = doc.find("<h2>Python</h2>").unwrap();
    let rs = doc.find("<h2>Rust</h2>").unwrap();
    let first = doc.find("first_fn").unwrap();
    let second = doc.find("second_fn").unwrap();
    assert!(py < first && first < rs && rs < second);
}

#[test]
fn two_files_of_one_language_give_one_listing() {
    let page = algorithm(
        descriptor("Dup", PageType::Algorithm, "dup"),
        "",
        &[("a.py", "AAA"), ("b.py", "BBB"), ("page.md", "MD"), ("page.toml", "TOML")],
        &["py,Python", "md,Markdown", "toml,TOML"],
    );
    assert_eq!(page.implementations.len(), 1);
    assert_eq!(page.implementations[0].label, "Python");
    let c = &page.implementations[0].content;
    assert!(c == "AAA" || c == "BBB");
}
