//! Page descriptors: what each page's config file declares.

use vstd::prelude::*;
use vstd::string::{StrSliceExecFns, StringExecFns};

verus! {

/// How a page is rendered.
#[derive(Debug, Clone, Copy, PartialEq, Eq, Structural)]
pub enum PageType {
    Algorithm,
    Category,
    Generic,
}

/// One page's descriptor: its title (unique over the site), variant, output
/// url, and the titles of the pages that it refers to.
#[derive(Debug)]
pub struct WikiPageToml {
    pub title: String,
    pub page_type: PageType,
    pub url: String,
    pub related: Option<Vec<String>>,
    pub categories: Option<Vec<String>>,
    pub subpages: Option<Vec<String>>,
}

/// The texts of a list of strings.
pub open spec fn texts(v: Seq<String>) -> Seq<Seq<char>> {
    v.map_values(|s: String| s@)
}

/// The titles that an optional list holds; an absent list holds none.
pub open spec fn titles_of(o: Option<Vec<String>>) -> Seq<Seq<char>> {
    match o {
        Some(v) => texts(v@),
        None => Seq::empty(),
    }
}

/// The file extension of a written page.
pub open spec fn html_suffix() -> Seq<char> {
    seq!['.', 'h', 't', 'm', 'l']
}

/// The list of an optional title list, empty where it is absent.
pub fn titles_or_empty(o: Option<Vec<String>>) -> (r: Vec<String>)
    ensures
        texts(r@) == titles_of(o),
{
    match o {
        Some(v) => v,
        None => Vec::new(),
    }
}

/// The site-relative path that a page with this url is written to: the url
/// with `.html` appended.
pub fn output_path(url: &String) -> (r: String)
    ensures
        r@ == url@ + html_suffix(),
{
    proof {
        reveal_strlit(".html");
    }
    let r = url.clone().concat(".html");
    assert(".html"@ =~= html_suffix());
    r
}

/// No two descriptors share a url, so no two pages are written to one file.
pub open spec fn urls_unique(pages: Seq<WikiPageToml>) -> bool {
    forall|i: int, j: int| 0 <= i < j < pages.len() ==> pages[i].url@ != pages[j].url@
}

/// Two descriptors whose pages would be written to the same file.
#[derive(Debug)]
pub struct DuplicateUrl {
    pub url: String,
}

/// Checks that every page has an output file of its own; the error names a
/// url that two descriptors share.
pub fn check_output_paths(pages: &Vec<WikiPageToml>) -> (r: Result<(), DuplicateUrl>)
    ensures
        r is Ok <==> urls_unique(pages@),
        r matches Err(e) ==> exists|i: int, j: int|
            0 <= i < j < pages@.len() && pages@[i].url@ == e.url@ && pages@[j].url@ == e.url@,
{
    let mut j: usize = 0;
    while j < pages.len()
        invariant
            j <= pages@.len(),
            forall|a: int, b: int| 0 <= a < b < j ==> pages@[a].url@ != pages@[b].url@,
        decreases pages@.len() - j,
    {
        let mut i: usize = 0;
        while i < j
            invariant
                i <= j < pages@.len(),
                forall|a: int| 0 <= a < i ==> pages@[a].url@ != pages@[j as int].url@,
            decreases j - i,
        {
            if pages[i].url == pages[j].url {
                return Err(DuplicateUrl { url: pages[j].url.clone() });
            }
            i = i + 1;
        }
        j = j + 1;
    }
    Ok(())
}

/// The suffix that marks a descriptor file.
pub open spec fn toml_suffix() -> Seq<char> {
    seq!['.', 't', 'o', 'm', 'l']
}

/// A file is a descriptor when its name ends with `.toml`.
pub open spec fn is_descriptor_name_spec(name: Seq<char>) -> bool {
    name.len() >= toml_suffix().len() && name.subrange(
        name.len() - toml_suffix().len(),
        name.len() as int,
    ) == toml_suffix()
}

/// Whether a file, by its name, is a page descriptor.
pub fn is_descriptor_name(name: &str) -> (r: bool)
    ensures
        r == is_descriptor_name_spec(name@),
{
    let n: usize = name.unicode_len();
    if n < 5 {
        return false;
    }
    let tail = name.substring_char(n - 5, n);
    let r = tail.get_char(0) == '.' && tail.get_char(1) == 't' && tail.get_char(2) == 'o'
        && tail.get_char(3) == 'm' && tail.get_char(4) == 'l';
    assert(r <==> tail@ =~= toml_suffix());
    r
}

} // verus!
