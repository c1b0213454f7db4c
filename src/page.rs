//! Rendering of the two page variants to complete HTML documents.

use vstd::prelude::*;
use vstd::string::StringExecFns;
use crate::aggregate::{file_label, implementation_files, markdown_name_of, selection_exact, ImplementationFile};
use crate::classifier::ExtensionTable;
use crate::descriptor::{texts, titles_of, titles_or_empty, WikiPageToml};
use crate::highlight::{highlight, highlighted_of, Highlighter};
use crate::links::{LinkError, LinkTable};
use crate::text::{escape_html, html_escaped};

verus! {

/// Everything of a document before the page's own content.
pub const PAGE_HEAD: &'static str = "<!DOCTYPE html><head><meta charset=\"UTF-8\"><link rel=\"stylesheet\" href=\"/base.css\"><link rel=\"stylesheet\" href=\"https://cdn.jsdelivr.net/npm/katex@0.11.1/dist/katex.min.css\" integrity=\"sha384-zB1R0rpPzHqg7Kpt0Aljp8JPLqbXI3bhnPWROx27a9N0Ll6ZP/+DiW/UqRcLbRjq\" crossorigin=\"anonymous\"><script src=\"https://cdn.jsdelivr.net/npm/katex@0.11.1/dist/katex.min.js\" integrity=\"sha384-y23I5Q6l+B6vatafAwxRu/0oK/79VlbSz7Q9aiSZUvyWYIYsd+qj+o24G5ZU2zJz\" crossorigin=\"anonymous\"></script><script src=\"https://cdn.jsdelivr.net/npm/katex@0.11.1/dist/contrib/auto-render.min.js\" integrity=\"sha384-kWPLUVMOks5AQFrykwIup5lo0m3iMkkHrD0uJ4H5cjeGihAutqP0yW0J6dpFiVkI\" crossorigin=\"anonymous\"></script><script>document.addEventListener(\"DOMContentLoaded\", () => {renderMathInElement(document.body)});</script></head><body><nav>AlgoWorld<input class=\"search\" type=\"text\" placeholder=\"Search...\" name=\"Search\"></nav><div class=\"page\">";

/// Everything of a document after the page's own content.
pub const PAGE_FOOT: &'static str = "</div><footer>Created by Terts Diepraam<br>Source code hosted on <a href=\"https://github.com/tertsdiepraam/AlgoWorld\">Github</a></footer></body>";

pub const LINK_OPEN: &'static str = "<a href=\"/";
pub const LINK_MID: &'static str = ".html\">";
pub const LINK_CLOSE: &'static str = "</a>";
pub const LINK_SEP: &'static str = ", ";
pub const PARA_OPEN: &'static str = "<p>";
pub const PARA_CLOSE: &'static str = "</p>";
pub const TITLE_OPEN: &'static str = "<h1>";
pub const TITLE_CLOSE: &'static str = "</h1>";
pub const RELATED_OPEN: &'static str = "<p>Related: ";
pub const CATEGORIES_OPEN: &'static str = "</p><p>Categories: ";
pub const TABS_OPEN: &'static str = "</p><div><button class=\"tablink\" id=\"defaultOpen\" onclick=\"openTab('Information', this)\">Information</button>";
pub const IMPL_TAB: &'static str = "<button class=\"tablink\" onclick=\"openTab('Implementations', this)\">Implementations</button>";
pub const INFO_OPEN: &'static str = "</div><div class=\"tabcontent wrapper\" id=\"Information\">";
pub const IMPLS_OPEN: &'static str = "<div class=\"tabcontent wrapper\" id=\"Implementations\">";
pub const LABEL_OPEN: &'static str = "<h2>";
pub const LABEL_CLOSE: &'static str = "</h2><code>";
pub const CODE_CLOSE: &'static str = "</code>";
pub const DIV_CLOSE: &'static str = "</div>";
pub const TAB_SCRIPT: &'static str = "<script src=\"/tab.js\"></script>";
pub const CATEGORY_INFO_OPEN: &'static str = "<div class=\"wrapper\" id=\"Information\">";
pub const PAGES_HEADING: &'static str = "<h1>Pages</h1>";

/// A document: the page's content inside the site's frame.
pub open spec fn base_page_html(content: Seq<char>) -> Seq<char> {
    PAGE_HEAD@ + content + PAGE_FOOT@
}

/// A hyperlink to a page: to `/{url}.html`, showing the title.
pub open spec fn link_html(title: Seq<char>, url: Seq<char>) -> Seq<char> {
    LINK_OPEN@ + html_escaped(url) + LINK_MID@ + html_escaped(title) + LINK_CLOSE@
}

/// Every title has an entry in the link table.
pub open spec fn all_resolve(titles: Seq<Seq<char>>, links: Map<Seq<char>, Seq<char>>) -> bool {
    forall|i: int| 0 <= i < titles.len() ==> links.contains_key(#[trigger] titles[i])
}

/// `title` is the first of the titles that the link table lacks.
pub open spec fn first_unresolved(
    titles: Seq<Seq<char>>,
    links: Map<Seq<char>, Seq<char>>,
    title: Seq<char>,
) -> bool {
    exists|i: int|
        0 <= i < titles.len() && titles[i] == title && !links.contains_key(title) && all_resolve(
            titles.take(i),
            links,
        )
}

/// The titles as hyperlinks, separated by commas.
pub open spec fn link_list_html(titles: Seq<Seq<char>>, links: Map<Seq<char>, Seq<char>>) -> Seq<char>
    decreases titles.len(),
{
    if titles.len() == 0 {
        Seq::empty()
    } else {
        link_list_html(titles.drop_last(), links) + (if titles.len() > 1 {
            LINK_SEP@
        } else {
            Seq::empty()
        }) + link_html(titles.last(), links[titles.last()])
    }
}

/// The titles as hyperlinks, one paragraph each.
pub open spec fn link_paragraphs_html(titles: Seq<Seq<char>>, links: Map<Seq<char>, Seq<char>>) -> Seq<char>
    decreases titles.len(),
{
    if titles.len() == 0 {
        Seq::empty()
    } else {
        link_paragraphs_html(titles.drop_last(), links) + PARA_OPEN@ + link_html(
            titles.last(),
            links[titles.last()],
        ) + PARA_CLOSE@
    }
}

/// A source listing to show on an algorithm page, under its language's label.
#[derive(Debug)]
pub struct Implementation {
    pub label: String,
    pub content: String,
}

/// A regular file of a page's directory, with what it holds.
#[derive(Debug)]
pub struct SourceFile {
    pub name: String,
    pub content: String,
}

/// The names of the files.
pub open spec fn file_names(files: Seq<SourceFile>) -> Seq<Seq<char>> {
    files.map_values(|f: SourceFile| f.name@)
}

/// A listing holds the content of the last file of the directory that
/// carries its label.
pub open spec fn listed_from(
    table: Map<Seq<char>, Seq<char>>,
    descriptor: Seq<char>,
    files: Seq<SourceFile>,
    imp: Implementation,
) -> bool {
    exists|k: int|
        {
            &&& 0 <= k < files.len()
            &&& file_label(table, descriptor, files[k].name@) == Some(imp.label@)
            &&& imp.content@ == files[k].content@
            &&& forall|l: int|
                k < l < files.len() ==> file_label(table, descriptor, files[l].name@) != Some(
                    imp.label@,
                )
        }
}

/// The listings are exactly those of the directory: one per label that some
/// file carries, holding the content of the last file with that label; never
/// the descriptor or the markdown body, never a file of unknown extension.
pub open spec fn listings_exact(
    table: Map<Seq<char>, Seq<char>>,
    descriptor: Seq<char>,
    files: Seq<SourceFile>,
    impls: Seq<Implementation>,
) -> bool {
    &&& forall|m: int, p: int| 0 <= m < p < impls.len() ==> impls[m].label@ != impls[p].label@
    &&& forall|m: int|
        0 <= m < impls.len() ==> #[trigger] listed_from(table, descriptor, files, impls[m])
    &&& forall|k: int|
        0 <= k < files.len() && file_label(table, descriptor, files[k].name@) is Some ==> exists|m: int|
            0 <= m < impls.len() && Some(impls[m].label@) == file_label(table, descriptor, files[k].name@)
}

/// The listings, each label with its highlighted code.
pub open spec fn listings_html(labels: Seq<Seq<char>>, highlighted: Seq<Seq<char>>) -> Seq<char>
    decreases labels.len(),
{
    if labels.len() == 0 || highlighted.len() == 0 {
        Seq::empty()
    } else {
        listings_html(labels.drop_last(), highlighted.drop_last()) + LABEL_OPEN@ + html_escaped(
            labels.last(),
        ) + LABEL_CLOSE@ + highlighted.last() + CODE_CLOSE@
    }
}

/// The labels of the listings.
pub open spec fn labels_of(impls: Seq<Implementation>) -> Seq<Seq<char>> {
    impls.map_values(|i: Implementation| i.label@)
}

/// Every listing can be highlighted under its label.
pub open spec fn all_highlight(impls: Seq<Implementation>) -> bool {
    forall|i: int|
        0 <= i < impls.len() ==> #[trigger] highlighted_of(impls[i].content@, impls[i].label@) is Some
}

/// The highlighted code of each listing, under its own label.
pub open spec fn highlights(impls: Seq<Implementation>) -> Seq<Seq<char>> {
    impls.map_values(|i: Implementation| highlighted_of(i.content@, i.label@)->Some_0)
}

/// Why a page could not be rendered, naming the page.
#[derive(Debug)]
pub enum RenderError {
    UnresolvedReference { page: String, title: String },
    UnknownLanguage { page: String, label: String },
}

/// A page that describes an algorithm, with its rendered markdown body and
/// its implementations.
pub struct AlgorithmPage {
    pub title: String,
    pub url: String,
    pub related: Vec<String>,
    pub categories: Vec<String>,
    pub information: String,
    pub implementations: Vec<Implementation>,
}

/// The content of an algorithm page, with the given highlighted listings.
pub open spec fn algorithm_content_html(
    p: AlgorithmPage,
    links: Map<Seq<char>, Seq<char>>,
    highlighted: Seq<Seq<char>>,
) -> Seq<char> {
    let has_impls = p.implementations@.len() > 0;
    TITLE_OPEN@ + html_escaped(p.title@) + TITLE_CLOSE@ + RELATED_OPEN@ + link_list_html(
        texts(p.related@),
        links,
    ) + CATEGORIES_OPEN@ + link_list_html(texts(p.categories@), links) + TABS_OPEN@ + (if has_impls {
        IMPL_TAB@
    } else {
        Seq::empty()
    }) + INFO_OPEN@ + p.information@ + DIV_CLOSE@ + (if has_impls {
        IMPLS_OPEN@ + listings_html(labels_of(p.implementations@), highlighted) + DIV_CLOSE@
    } else {
        Seq::empty()
    }) + TAB_SCRIPT@
}

/// The document of an algorithm page.
pub open spec fn algorithm_html(
    p: AlgorithmPage,
    links: Map<Seq<char>, Seq<char>>,
    highlighted: Seq<Seq<char>>,
) -> Seq<char> {
    base_page_html(algorithm_content_html(p, links, highlighted))
}

/// A page that lists the pages of a category.
pub struct CategoryPage {
    pub title: String,
    pub url: String,
    pub related: Vec<String>,
    pub information: String,
    pub subpages: Vec<String>,
}

/// The document of a category page.
pub open spec fn category_html(p: CategoryPage, links: Map<Seq<char>, Seq<char>>) -> Seq<char> {
    base_page_html(
        TITLE_OPEN@ + html_escaped(p.title@) + TITLE_CLOSE@ + CATEGORY_INFO_OPEN@ + p.information@
            + PAGES_HEADING@ + link_paragraphs_html(texts(p.subpages@), links) + DIV_CLOSE@,
    )
}

/// Appends `piece` to `out`.
fn push(out: &mut String, piece: &str)
    ensures
        final(out)@ == old(out)@ + piece@,
{
    out.append(piece);
}

/// Frames a page's content as a complete document.
pub fn base_page(content: &str) -> (r: String)
    ensures
        r@ == base_page_html(content@),
{
    let mut out = String::new();
    push(&mut out, PAGE_HEAD);
    push(&mut out, content);
    push(&mut out, PAGE_FOOT);
    out
}

/// Appends a hyperlink to a page.
fn push_link(out: &mut String, title: &String, url: &String)
    ensures
        final(out)@ == old(out)@ + link_html(title@, url@),
{
    push(out, LINK_OPEN);
    let u = escape_html(url.as_str());
    push(out, u.as_str());
    push(out, LINK_MID);
    let t = escape_html(title.as_str());
    push(out, t.as_str());
    push(out, LINK_CLOSE);
}

/// Looks every title up, failing on the first one that the table lacks.
fn check_resolved(titles: &Vec<String>, links: &LinkTable) -> (r: Result<(), LinkError>)
    requires
        links.wf(),
    ensures
        r is Ok <==> all_resolve(texts(titles@), links@),
        r matches Err(e) ==> e matches LinkError::UnresolvedReference { title }
            && first_unresolved(texts(titles@), links@, title@),
{
    let ghost ts = texts(titles@);
    let mut i: usize = 0;
    while i < titles.len()
        invariant
            i <= titles@.len(),
            ts == texts(titles@),
            links.wf(),
            all_resolve(ts.take(i as int), links@),
        decreases titles@.len() - i,
    {
        match links.resolve(&titles[i]) {
            Err(e) => {
                assert(ts[i as int] == titles@[i as int]@);
                return Err(e);
            },
            Ok(_) => {},
        }
        assert forall|k: int| 0 <= k < i + 1 implies links@.contains_key(#[trigger] ts.take(i + 1)[k]) by {
            if k < i {
                assert(ts.take(i as int)[k] == ts.take(i + 1)[k]);
            }
        }
        i = i + 1;
    }
    assert(ts.take(titles@.len() as int) =~= ts);
    Ok(())
}

/// The titles as hyperlinks to their pages, separated by commas; a title that
/// the link table lacks fails the list.
pub fn generate_links(titles: &Vec<String>, links: &LinkTable) -> (r: Result<String, LinkError>)
    requires
        links.wf(),
    ensures
        r is Ok <==> all_resolve(texts(titles@), links@),
        r matches Ok(s) ==> s@ == link_list_html(texts(titles@), links@),
        r matches Err(e) ==> e matches LinkError::UnresolvedReference { title }
            && first_unresolved(texts(titles@), links@, title@),
{
    let ghost ts = texts(titles@);
    let mut out = String::new();
    let mut i: usize = 0;
    while i < titles.len()
        invariant
            i <= titles@.len(),
            ts == texts(titles@),
            links.wf(),
            all_resolve(ts.take(i as int), links@),
            out@ == link_list_html(ts.take(i as int), links@),
        decreases titles@.len() - i,
    {
        let url = match links.resolve(&titles[i]) {
            Err(e) => {
                assert(ts[i as int] == titles@[i as int]@);
                return Err(e);
            },
            Ok(u) => u,
        };
        if i > 0 {
            push(&mut out, LINK_SEP);
        }
        push_link(&mut out, &titles[i], &url);
        assert(ts.take(i + 1).drop_last() =~= ts.take(i as int));
        assert forall|k: int| 0 <= k < i + 1 implies links@.contains_key(#[trigger] ts.take(i + 1)[k]) by {
            if k < i {
                assert(ts.take(i as int)[k] == ts.take(i + 1)[k]);
            }
        }
        i = i + 1;
    }
    assert(ts.take(titles@.len() as int) =~= ts);
    Ok(out)
}

/// The titles as hyperlinks, one paragraph each; a title that the link
/// table lacks fails the list.
fn link_paragraphs(titles: &Vec<String>, links: &LinkTable) -> (r: Result<String, LinkError>)
    requires
        links.wf(),
    ensures
        r is Ok <==> all_resolve(texts(titles@), links@),
        r matches Ok(s) ==> s@ == link_paragraphs_html(texts(titles@), links@),
        r matches Err(e) ==> e matches LinkError::UnresolvedReference { title }
            && first_unresolved(texts(titles@), links@, title@),
{
    let ghost ts = texts(titles@);
    let mut out = String::new();
    let mut i: usize = 0;
    while i < titles.len()
        invariant
            i <= titles@.len(),
            ts == texts(titles@),
            links.wf(),
            all_resolve(ts.take(i as int), links@),
            out@ == link_paragraphs_html(ts.take(i as int), links@),
        decreases titles@.len() - i,
    {
        let url = match links.resolve(&titles[i]) {
            Err(e) => {
                assert(ts[i as int] == titles@[i as int]@);
                return Err(e);
            },
            Ok(u) => u,
        };
        push(&mut out, PARA_OPEN);
        push_link(&mut out, &titles[i], &url);
        push(&mut out, PARA_CLOSE);
        assert(ts.take(i + 1).drop_last() =~= ts.take(i as int));
        assert forall|k: int| 0 <= k < i + 1 implies links@.contains_key(#[trigger] ts.take(i + 1)[k]) by {
            if k < i {
                assert(ts.take(i as int)[k] == ts.take(i + 1)[k]);
            }
        }
        i = i + 1;
    }
    assert(ts.take(titles@.len() as int) =~= ts);
    Ok(out)
}

/// The resolution error of a page, naming the page and the missing title.
fn unresolved(page: &String, e: LinkError) -> (r: RenderError)
    requires
        e is UnresolvedReference,
    ensures
        e matches LinkError::UnresolvedReference { title } ==> r matches RenderError::UnresolvedReference {
            page: p,
            title: t,
        } && p@ == page@ && t@ == title@,
{
    match e {
        LinkError::UnresolvedReference { title } => RenderError::UnresolvedReference {
            page: page.clone(),
            title,
        },
        LinkError::DuplicateTitle { title } => {
            proof {
                assert(false);
            }
            RenderError::UnresolvedReference { page: page.clone(), title }
        },
    }
}

/// The listing of each chosen file: its label and its content.
fn listings_of(
    sel: &Vec<ImplementationFile>,
    files: &Vec<SourceFile>,
    table: Ghost<Map<Seq<char>, Seq<char>>>,
    descriptor: Ghost<Seq<char>>,
) -> (r: Vec<Implementation>)
    requires
        selection_exact(table@, descriptor@, file_names(files@), sel@),
    ensures
        listings_exact(table@, descriptor@, files@, r@),
{
    let ghost names = file_names(files@);
    let mut r: Vec<Implementation> = Vec::new();
    let mut m: usize = 0;
    while m < sel.len()
        invariant
            m <= sel@.len(),
            names == file_names(files@),
            selection_exact(table@, descriptor@, names, sel@),
            r@.len() == m,
            forall|p: int|
                0 <= p < m ==> #[trigger] r@[p].label@ == sel@[p].label@ && r@[p].content@
                    == files@[sel@[p].index as int].content@,
        decreases sel@.len() - m,
    {
        let k = sel[m].index;
        r.push(Implementation { label: sel[m].label.clone(), content: files[k].content.clone() });
        m = m + 1;
    }
    assert forall|p: int| 0 <= p < r@.len() implies #[trigger] listed_from(table@, descriptor@, files@, r@[p]) by {
        let k = sel@[p].index as int;
        assert(0 <= k < names.len());
        assert(names[k] == files@[k].name@);
        assert(file_label(table@, descriptor@, names[k]) == Some(sel@[p].label@));
        assert(r@[p].label@ == sel@[p].label@);
        assert(r@[p].content@ == files@[k].content@);
        assert forall|l: int| k < l < files@.len() implies file_label(
            table@,
            descriptor@,
            files@[l].name@,
        ) != Some(r@[p].label@) by {
            assert(names[l] == files@[l].name@);
        }
    }
    assert forall|k: int|
        0 <= k < files@.len() && file_label(table@, descriptor@, files@[k].name@) is Some implies exists|p: int|
            0 <= p < r@.len() && Some(r@[p].label@) == file_label(table@, descriptor@, files@[k].name@) by {
        assert(names[k] == files@[k].name@);
        let p = choose|p: int| 0 <= p < sel@.len() && Some(sel@[p].label@) == file_label(table@, descriptor@, names[k]);
        assert(r@[p].label@ == sel@[p].label@);
    }
    assert forall|a: int, b: int| 0 <= a < b < r@.len() implies r@[a].label@ != r@[b].label@ by {
        assert(r@[a].label@ == sel@[a].label@);
        assert(r@[b].label@ == sel@[b].label@);
    }
    r
}

impl AlgorithmPage {
    /// The page of a descriptor, with its rendered markdown body and the
    /// implementations found among the regular files of its directory (see
    /// `implementation_files`); absent title lists become empty ones.
    pub fn from(
        page_toml: WikiPageToml,
        information: String,
        files: &Vec<SourceFile>,
        descriptor_name: &String,
        table: &ExtensionTable,
    ) -> (r: AlgorithmPage)
        requires
            table.wf(),
        ensures
            r.title == page_toml.title,
            r.url == page_toml.url,
            texts(r.related@) == titles_of(page_toml.related),
            texts(r.categories@) == titles_of(page_toml.categories),
            r.information == information,
            listings_exact(table@, descriptor_name@, files@, r.implementations@),
    {
        let mut names: Vec<String> = Vec::new();
        let mut i: usize = 0;
        while i < files.len()
            invariant
                i <= files@.len(),
                names@.len() == i,
                forall|k: int| 0 <= k < i ==> #[trigger] names@[k]@ == files@[k].name@,
            decreases files@.len() - i,
        {
            names.push(files[i].name.clone());
            i = i + 1;
        }
        assert(names@.map_values(|s: String| s@) =~= file_names(files@));
        let sel = implementation_files(&names, descriptor_name, table);
        let implementations = listings_of(&sel, files, Ghost(table@), Ghost(descriptor_name@));
        AlgorithmPage {
            title: page_toml.title,
            url: page_toml.url,
            related: titles_or_empty(page_toml.related),
            categories: titles_or_empty(page_toml.categories),
            information,
            implementations,
        }
    }

    /// The listings section: each label with its highlighted code.
    fn listings(&self, highlighted: &Vec<String>) -> (r: String)
        requires
            highlighted@.len() == self.implementations@.len(),
        ensures
            r@ == listings_html(labels_of(self.implementations@), texts(highlighted@)),
    {
        let ghost ls = labels_of(self.implementations@);
        let ghost hs = texts(highlighted@);
        let mut out = String::new();
        let mut i: usize = 0;
        while i < highlighted.len()
            invariant
                i <= highlighted@.len() == self.implementations@.len(),
                ls == labels_of(self.implementations@),
                hs == texts(highlighted@),
                out@ == listings_html(ls.take(i as int), hs.take(i as int)),
            decreases highlighted@.len() - i,
        {
            push(&mut out, LABEL_OPEN);
            let l = escape_html(self.implementations[i].label.as_str());
            push(&mut out, l.as_str());
            push(&mut out, LABEL_CLOSE);
            push(&mut out, highlighted[i].as_str());
            push(&mut out, CODE_CLOSE);
            assert(ls.take(i + 1).drop_last() =~= ls.take(i as int));
            assert(hs.take(i + 1).drop_last() =~= hs.take(i as int));
            i = i + 1;
        }
        assert(ls.take(highlighted@.len() as int) =~= ls);
        assert(hs.take(highlighted@.len() as int) =~= hs);
        out
    }

    /// The document of the page, with the given highlighted code of each
    /// implementation. A related or category title that the link table lacks
    /// fails it, naming the page and the first such title.
    pub fn render_highlighted(&self, links: &LinkTable, highlighted: &Vec<String>) -> (r: Result<String, RenderError>)
        requires
            links.wf(),
            highlighted@.len() == self.implementations@.len(),
        ensures
            r is Ok <==> all_resolve(texts(self.related@), links@) && all_resolve(
                texts(self.categories@),
                links@,
            ),
            r matches Ok(s) ==> s@ == algorithm_html(*self, links@, texts(highlighted@)),
            r matches Err(e) ==> e matches RenderError::UnresolvedReference { page, title }
                && page@ == self.title@ && (first_unresolved(texts(self.related@), links@, title@) || (
            all_resolve(texts(self.related@), links@) && first_unresolved(
                texts(self.categories@),
                links@,
                title@,
            ))),
    {
        let related = match generate_links(&self.related, links) {
            Ok(s) => s,
            Err(e) => {
                return Err(unresolved(&self.title, e));
            },
        };
        let categories = match generate_links(&self.categories, links) {
            Ok(s) => s,
            Err(e) => {
                return Err(unresolved(&self.title, e));
            },
        };
        let has_impls = self.implementations.len() > 0;
        let mut c = String::new();
        push(&mut c, TITLE_OPEN);
        let t = escape_html(self.title.as_str());
        push(&mut c, t.as_str());
        push(&mut c, TITLE_CLOSE);
        push(&mut c, RELATED_OPEN);
        push(&mut c, related.as_str());
        push(&mut c, CATEGORIES_OPEN);
        push(&mut c, categories.as_str());
        push(&mut c, TABS_OPEN);
        let ghost tabs = c@;
        if has_impls {
            push(&mut c, IMPL_TAB);
        }
        let ghost tab_part = if has_impls { IMPL_TAB@ } else { Seq::<char>::empty() };
        assert(c@ == tabs + tab_part);
        push(&mut c, INFO_OPEN);
        push(&mut c, self.information.as_str());
        push(&mut c, DIV_CLOSE);
        let ghost info = c@;
        let listings = self.listings(highlighted);
        if has_impls {
            push(&mut c, IMPLS_OPEN);
            push(&mut c, listings.as_str());
            push(&mut c, DIV_CLOSE);
        }
        let ghost impl_part = if has_impls {
            IMPLS_OPEN@ + listings@ + DIV_CLOSE@
        } else {
            Seq::<char>::empty()
        };
        assert(c@ =~= info + impl_part);
        push(&mut c, TAB_SCRIPT);
        assert(c@ =~= algorithm_content_html(*self, links@, texts(highlighted@)));
        Ok(base_page(c.as_str()))
    }

    /// The document of the page, each implementation highlighted with the
    /// grammar that its label names. A related or category title that the
    /// link table lacks fails it, before any highlighting; otherwise a
    /// listing that cannot be highlighted under its label fails it.
    pub fn render(&self, links: &LinkTable, highlighter: &Highlighter) -> (r: Result<String, RenderError>)
        requires
            links.wf(),
        ensures
            r is Ok <==> all_resolve(texts(self.related@), links@) && all_resolve(
                texts(self.categories@),
                links@,
            ) && all_highlight(self.implementations@),
            r matches Ok(s) ==> s@ == algorithm_html(*self, links@, highlights(self.implementations@)),
            (r matches Err(RenderError::UnresolvedReference { .. })) <==> !(all_resolve(
                texts(self.related@),
                links@,
            ) && all_resolve(texts(self.categories@), links@)),
            r matches Err(RenderError::UnresolvedReference { page, title }) ==> page@ == self.title@
                && (first_unresolved(texts(self.related@), links@, title@) || (all_resolve(
                texts(self.related@),
                links@,
            ) && first_unresolved(texts(self.categories@), links@, title@))),
            r matches Err(RenderError::UnknownLanguage { page, label }) ==> page@ == self.title@
                && exists|i: int|
                0 <= i < self.implementations@.len() && self.implementations@[i].label@ == label@
                    && highlighted_of(
                    self.implementations@[i].content@,
                    self.implementations@[i].label@,
                ) is None,
    {
        match check_resolved(&self.related, links) {
            Err(e) => {
                return Err(unresolved(&self.title, e));
            },
            Ok(()) => {},
        }
        match check_resolved(&self.categories, links) {
            Err(e) => {
                return Err(unresolved(&self.title, e));
            },
            Ok(()) => {},
        }
        let ghost hs = highlights(self.implementations@);
        let mut highlighted: Vec<String> = Vec::new();
        let mut i: usize = 0;
        while i < self.implementations.len()
            invariant
                i <= self.implementations@.len(),
                hs == highlights(self.implementations@),
                links.wf(),
                all_resolve(texts(self.related@), links@),
                all_resolve(texts(self.categories@), links@),
                highlighted@.len() == i,
                texts(highlighted@) == hs.take(i as int),
                forall|k: int|
                    0 <= k < i ==> #[trigger] highlighted_of(
                        self.implementations@[k].content@,
                        self.implementations@[k].label@,
                    ) is Some,
            decreases self.implementations@.len() - i,
        {
            let imp = &self.implementations[i];
            match highlight(highlighter, imp.content.as_str(), imp.label.as_str()) {
                Some(h) => {
                    assert(hs[i as int] == h@);
                    let ghost prev = highlighted@;
                    highlighted.push(h);
                    assert forall|k: int| 0 <= k < i implies texts(highlighted@)[k] == hs.take(i + 1)[k] by {
                        assert(highlighted@[k] == prev[k]);
                        assert(texts(prev)[k] == hs.take(i as int)[k]);
                    }
                    assert(texts(highlighted@) =~= hs.take(i + 1));
                },
                None => {
                    return Err(RenderError::UnknownLanguage { page: self.title.clone(), label: imp.label.clone() });
                },
            }
            i = i + 1;
        }
        assert(texts(highlighted@) =~= hs);
        self.render_highlighted(links, &highlighted)
    }
}

impl CategoryPage {
    /// The page of a descriptor, with its rendered markdown body; absent
    /// title lists become empty ones.
    pub fn from(page_toml: WikiPageToml, information: String) -> (r: CategoryPage)
        ensures
            r.title == page_toml.title,
            r.url == page_toml.url,
            texts(r.related@) == titles_of(page_toml.related),
            texts(r.subpages@) == titles_of(page_toml.subpages),
            r.information == information,
    {
        CategoryPage {
            title: page_toml.title,
            url: page_toml.url,
            related: titles_or_empty(page_toml.related),
            information,
            subpages: titles_or_empty(page_toml.subpages),
        }
    }

    /// The document of the page. A subpage title that the link table lacks
    /// fails it, naming the page and the first such title.
    pub fn render(&self, links: &LinkTable) -> (r: Result<String, RenderError>)
        requires
            links.wf(),
        ensures
            r is Ok <==> all_resolve(texts(self.subpages@), links@),
            r matches Ok(s) ==> s@ == category_html(*self, links@),
            r matches Err(e) ==> e matches RenderError::UnresolvedReference { page, title }
                && page@ == self.title@ && first_unresolved(texts(self.subpages@), links@, title@),
    {
        let pages = match link_paragraphs(&self.subpages, links) {
            Ok(s) => s,
            Err(e) => {
                return Err(unresolved(&self.title, e));
            },
        };
        let mut c = String::new();
        push(&mut c, TITLE_OPEN);
        let t = escape_html(self.title.as_str());
        push(&mut c, t.as_str());
        push(&mut c, TITLE_CLOSE);
        push(&mut c, CATEGORY_INFO_OPEN);
        push(&mut c, self.information.as_str());
        push(&mut c, PAGES_HEADING);
        push(&mut c, pages.as_str());
        push(&mut c, DIV_CLOSE);
        Ok(base_page(c.as_str()))
    }
}

/// An algorithm page without implementations has no implementations tab and
/// no implementations section: its document is the title, the two link
/// lists, the information tab and the body alone.
pub proof fn lemma_no_implementations_no_tab(
    p: AlgorithmPage,
    links: Map<Seq<char>, Seq<char>>,
    highlighted: Seq<Seq<char>>,
)
    requires
        p.implementations@.len() == 0,
    ensures
        algorithm_html(p, links, highlighted) == base_page_html(
            TITLE_OPEN@ + html_escaped(p.title@) + TITLE_CLOSE@ + RELATED_OPEN@ + link_list_html(
                texts(p.related@),
                links,
            ) + CATEGORIES_OPEN@ + link_list_html(texts(p.categories@), links) + TABS_OPEN@
                + INFO_OPEN@ + p.information@ + DIV_CLOSE@ + TAB_SCRIPT@,
        ),
{
    assert(algorithm_content_html(p, links, highlighted) =~= TITLE_OPEN@ + html_escaped(p.title@)
        + TITLE_CLOSE@ + RELATED_OPEN@ + link_list_html(texts(p.related@), links) + CATEGORIES_OPEN@
        + link_list_html(texts(p.categories@), links) + TABS_OPEN@ + INFO_OPEN@ + p.information@
        + DIV_CLOSE@ + TAB_SCRIPT@);
}

/// With no titles, a link list is empty.
pub proof fn lemma_empty_link_list(links: Map<Seq<char>, Seq<char>>)
    ensures
        link_list_html(Seq::empty(), links) == Seq::<char>::empty(),
{
}

/// The listings of a page never come from its descriptor file or its
/// markdown body, whatever their extensions, and each label is listed once.
pub proof fn lemma_listings_skip_descriptor_and_body(
    table: Map<Seq<char>, Seq<char>>,
    descriptor: Seq<char>,
    files: Seq<SourceFile>,
    impls: Seq<Implementation>,
    m: int,
)
    requires
        listings_exact(table, descriptor, files, impls),
        0 <= m < impls.len(),
    ensures
        exists|k: int|
            0 <= k < files.len() && files[k].name@ != descriptor && files[k].name@ != markdown_name_of(
                descriptor,
            ) && impls[m].content@ == files[k].content@,
        forall|p: int| 0 <= p < impls.len() && p != m ==> impls[p].label@ != impls[m].label@,
{
    assert(listed_from(table, descriptor, files, impls[m]));
    let k = choose|k: int|
        {
            &&& 0 <= k < files.len()
            &&& file_label(table, descriptor, files[k].name@) == Some(impls[m].label@)
            &&& impls[m].content@ == files[k].content@
            &&& forall|l: int|
                k < l < files.len() ==> file_label(table, descriptor, files[l].name@) != Some(
                    impls[m].label@,
                )
        };
    assert(files[k].name@ != descriptor && files[k].name@ != markdown_name_of(descriptor));
    assert forall|p: int| 0 <= p < impls.len() && p != m implies impls[p].label@ != impls[m].label@ by {
        if p < m {
            assert(impls[p].label@ != impls[m].label@);
        } else {
            assert(impls[m].label@ != impls[p].label@);
        }
    }
}

} // verus!
