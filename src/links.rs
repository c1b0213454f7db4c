//! The link table: every page title mapped to the url that the page is
//! written to, built once from all descriptors and read by every renderer.

use vstd::prelude::*;
use crate::descriptor::WikiPageToml;

verus! {

/// No two descriptors share a title.
pub open spec fn titles_unique(pages: Seq<WikiPageToml>) -> bool {
    forall|i: int, j: int| 0 <= i < j < pages.len() ==> pages[i].title@ != pages[j].title@
}

/// Title to url, over a sequence of descriptors.
pub open spec fn link_map(pages: Seq<WikiPageToml>) -> Map<Seq<char>, Seq<char>>
    decreases pages.len(),
{
    if pages.len() == 0 {
        Map::empty()
    } else {
        link_map(pages.drop_last()).insert(pages.last().title@, pages.last().url@)
    }
}

/// Why a link table could not be built, or a title not resolved.
#[derive(Debug)]
pub enum LinkError {
    DuplicateTitle { title: String },
    UnresolvedReference { title: String },
}

/// Title to url, each title held once.
pub struct LinkTable {
    entries: Vec<(String, String)>,
    contents: Ghost<Map<Seq<char>, Seq<char>>>,
}

impl View for LinkTable {
    type V = Map<Seq<char>, Seq<char>>;

    closed spec fn view(&self) -> Map<Seq<char>, Seq<char>> {
        self.contents@
    }
}

impl LinkTable {
    /// Each title is held once, and the entries are exactly the map.
    pub closed spec fn wf(&self) -> bool {
        &&& forall|i: int, j: int|
            0 <= i < j < self.entries@.len() ==> self.entries@[i].0@ != self.entries@[j].0@
        &&& forall|i: int|
            0 <= i < self.entries@.len() ==> #[trigger] self.contents@.contains_key(
                self.entries@[i].0@,
            ) && self.contents@[self.entries@[i].0@] == self.entries@[i].1@
        &&& forall|k: Seq<char>|
            #[trigger] self.contents@.contains_key(k) ==> exists|i: int|
                0 <= i < self.entries@.len() && self.entries@[i].0@ == k
    }

    /// Position of a title among the entries.
    fn position(&self, title: &String) -> (r: Option<usize>)
        requires
            self.wf(),
        ensures
            r is None <==> !self@.contains_key(title@),
            r matches Some(p) ==> p < self.entries@.len() && self.entries@[p as int].0@ == title@,
    {
        let mut i: usize = 0;
        while i < self.entries.len()
            invariant
                self.wf(),
                i <= self.entries@.len(),
                forall|k: int| 0 <= k < i ==> self.entries@[k].0@ != title@,
            decreases self.entries@.len() - i,
        {
            if self.entries[i].0 == *title {
                return Some(i);
            }
            i = i + 1;
        }
        None
    }

    /// Builds the table from all descriptors; two descriptors with one title
    /// fail it.
    pub fn build(pages: &Vec<WikiPageToml>) -> (r: Result<LinkTable, LinkError>)
        ensures
            r is Ok <==> titles_unique(pages@),
            r matches Ok(t) ==> t.wf() && t@ == link_map(pages@),
            r matches Err(e) ==> e matches LinkError::DuplicateTitle { title }
                && exists|i: int, j: int|
                0 <= i < j < pages@.len() && pages@[i].title@ == title@ && pages@[j].title@ == title@,
    {
        let mut table = LinkTable { entries: Vec::new(), contents: Ghost(Map::empty()) };
        let mut i: usize = 0;
        while i < pages.len()
            invariant
                i <= pages@.len(),
                table.wf(),
                table@ == link_map(pages@.take(i as int)),
                titles_unique(pages@.take(i as int)),
                forall|k: int| 0 <= k < i ==> table@.contains_key(#[trigger] pages@[k].title@),
                forall|t: Seq<char>|
                    #[trigger] table@.contains_key(t) ==> exists|k: int|
                        0 <= k < i && pages@[k].title@ == t,
            decreases pages@.len() - i,
        {
            let page = &pages[i];
            if table.position(&page.title).is_some() {
                proof {
                    let k = choose|k: int| 0 <= k < i && pages@[k].title@ == page.title@;
                    assert(pages@[k].title@ == pages@[i as int].title@);
                }
                return Err(LinkError::DuplicateTitle { title: page.title.clone() });
            }
            let ghost key = page.title@;
            let ghost value = page.url@;
            let ghost before = table;
            table.entries.push((page.title.clone(), page.url.clone()));
            table.contents = Ghost(table.contents@.insert(key, value));
            assert forall|t: Seq<char>| #[trigger] table.contents@.contains_key(t) implies exists|j: int|
                0 <= j < table.entries@.len() && table.entries@[j].0@ == t by {
                if t != key {
                    let j = choose|j: int|
                        0 <= j < before.entries@.len() && before.entries@[j].0@ == t;
                    assert(table.entries@[j].0@ == t);
                } else {
                    assert(table.entries@[before.entries@.len() as int].0@ == t);
                }
            }
            assert(pages@.take(i as int + 1).drop_last() =~= pages@.take(i as int));
            assert forall|t: Seq<char>| #[trigger] table@.contains_key(t) implies exists|k: int|
                0 <= k < i + 1 && pages@[k].title@ == t by {
                if t != key {
                    assert(before@.contains_key(t));
                } else {
                    assert(pages@[i as int].title@ == t);
                }
            }
            i = i + 1;
        }
        assert(pages@.take(pages@.len() as int) =~= pages@);
        Ok(table)
    }

    /// The url of a title; a title that no descriptor holds is an error,
    /// never a default.
    pub fn resolve(&self, title: &String) -> (r: Result<String, LinkError>)
        requires
            self.wf(),
        ensures
            r is Ok <==> self@.contains_key(title@),
            r matches Ok(u) ==> u@ == self@[title@],
            r matches Err(e) ==> e matches LinkError::UnresolvedReference { title: t } && t@ == title@,
    {
        match self.position(title) {
            None => Err(LinkError::UnresolvedReference { title: title.clone() }),
            Some(p) => Ok(self.entries[p].1.clone()),
        }
    }
}

/// In a table built from descriptors with unique titles, each descriptor's
/// title resolves to that descriptor's url.
pub proof fn lemma_built_table_resolves(pages: Seq<WikiPageToml>, i: int)
    requires
        titles_unique(pages),
        0 <= i < pages.len(),
    ensures
        link_map(pages).contains_key(pages[i].title@),
        link_map(pages)[pages[i].title@] == pages[i].url@,
    decreases pages.len(),
{
    if i < pages.len() - 1 {
        let rest = pages.drop_last();
        assert(titles_unique(rest));
        lemma_built_table_resolves(rest, i);
        assert(pages[i].title@ != pages.last().title@);
    }
}

/// A title that no descriptor holds is absent from the table built from them.
pub proof fn lemma_unknown_title_absent(pages: Seq<WikiPageToml>, title: Seq<char>)
    requires
        forall|i: int| 0 <= i < pages.len() ==> pages[i].title@ != title,
    ensures
        !link_map(pages).contains_key(title),
    decreases pages.len(),
{
    if pages.len() > 0 {
        lemma_unknown_title_absent(pages.drop_last(), title);
    }
}

} // verus!
