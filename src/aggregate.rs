//! The implementation aggregator: which files of a page's directory are
//! listed as implementations, and under which label.

use vstd::prelude::*;
use vstd::string::StringExecFns;
use crate::classifier::ExtensionTable;
use crate::text::{extension_of, file_extension, file_stem, stem_of};

verus! {

/// The extension of a page's markdown body.
pub open spec fn md_suffix() -> Seq<char> {
    seq!['.', 'm', 'd']
}

/// The name of the markdown body that sits beside a descriptor file.
pub open spec fn markdown_name_of(descriptor: Seq<char>) -> Seq<char> {
    stem_of(descriptor) + md_suffix()
}

/// The label under which a file is listed: none for the descriptor, for the
/// markdown body, and for a file whose extension the table does not know.
pub open spec fn file_label(
    table: Map<Seq<char>, Seq<char>>,
    descriptor: Seq<char>,
    name: Seq<char>,
) -> Option<Seq<char>> {
    if name == descriptor || name == markdown_name_of(descriptor) {
        None
    } else {
        match extension_of(name) {
            Some(e) => if table.contains_key(e) {
                Some(table[e])
            } else {
                None
            },
            None => None,
        }
    }
}

/// The file chosen for a label: its label and its index in the listing.
#[derive(Debug)]
pub struct ImplementationFile {
    pub label: String,
    pub index: usize,
}

/// The selection is exact: one file per label that some file of the listing
/// carries, and that file is the last one with the label.
pub open spec fn selection_exact(
    table: Map<Seq<char>, Seq<char>>,
    descriptor: Seq<char>,
    names: Seq<Seq<char>>,
    sel: Seq<ImplementationFile>,
) -> bool {
    &&& forall|m: int, p: int| 0 <= m < p < sel.len() ==> sel[m].label@ != sel[p].label@
    &&& forall|m: int|
        0 <= m < sel.len() ==> {
            &&& sel[m].index < names.len()
            &&& file_label(table, descriptor, names[sel[m].index as int]) == Some(sel[m].label@)
            &&& forall|k: int|
                sel[m].index < k < names.len() ==> file_label(table, descriptor, names[k])
                    != Some(sel[m].label@)
        }
    &&& forall|k: int|
        0 <= k < names.len() && file_label(table, descriptor, names[k]) is Some ==> exists|m: int|
            0 <= m < sel.len() && Some(sel[m].label@) == file_label(table, descriptor, names[k])
}

/// The name of the markdown body beside a descriptor file: the descriptor's
/// stem with `.md`.
pub fn markdown_name(descriptor: &str) -> (r: String)
    ensures
        r@ == markdown_name_of(descriptor@),
{
    proof {
        reveal_strlit(".md");
    }
    let r = file_stem(descriptor).concat(".md");
    assert(".md"@ =~= md_suffix());
    r
}

/// The label of one file of the listing, as `file_label` gives it.
fn label_of_file(table: &ExtensionTable, descriptor: &String, md_name: &String, name: &String) -> (r: Option<String>)
    requires
        table.wf(),
        md_name@ == markdown_name_of(descriptor@),
    ensures
        r is None <==> file_label(table@, descriptor@, name@) is None,
        r matches Some(l) ==> file_label(table@, descriptor@, name@) == Some(l@),
{
    if *name == *descriptor || *name == *md_name {
        return None;
    }
    match file_extension(name.as_str()) {
        None => None,
        Some(e) => table.label_for(&e),
    }
}

/// Position of a label among the chosen files.
fn find_label(sel: &Vec<ImplementationFile>, label: &String) -> (r: Option<usize>)
    ensures
        r is None ==> forall|m: int| 0 <= m < sel@.len() ==> sel@[m].label@ != label@,
        r matches Some(p) ==> p < sel@.len() && sel@[p as int].label@ == label@,
{
    let mut p: usize = 0;
    while p < sel.len()
        invariant
            p <= sel@.len(),
            forall|m: int| 0 <= m < p ==> sel@[m].label@ != label@,
        decreases sel@.len() - p,
    {
        if sel[p].label == *label {
            return Some(p);
        }
        p = p + 1;
    }
    None
}

/// Chooses, among the regular files of a page's directory, those listed as
/// implementations: never the descriptor file or the markdown body, only
/// files whose extension the table knows, and one file per label (the last
/// of the listing).
pub fn implementation_files(names: &Vec<String>, descriptor: &String, table: &ExtensionTable) -> (r: Vec<ImplementationFile>)
    requires
        table.wf(),
    ensures
        selection_exact(table@, descriptor@, names@.map_values(|s: String| s@), r@),
{
    let ghost ns = names@.map_values(|s: String| s@);
    let md_name = markdown_name(descriptor.as_str());
    let mut sel: Vec<ImplementationFile> = Vec::new();
    let mut i: usize = 0;
    while i < names.len()
        invariant
            i <= names@.len(),
            ns == names@.map_values(|s: String| s@),
            table.wf(),
            md_name@ == markdown_name_of(descriptor@),
            forall|m: int, p: int| 0 <= m < p < sel@.len() ==> sel@[m].label@ != sel@[p].label@,
            forall|m: int|
                0 <= m < sel@.len() ==> {
                    &&& sel@[m].index < i
                    &&& file_label(table@, descriptor@, ns[sel@[m].index as int]) == Some(sel@[m].label@)
                    &&& forall|k: int|
                        sel@[m].index < k < i ==> file_label(table@, descriptor@, ns[k])
                            != Some(sel@[m].label@)
                },
            forall|k: int|
                0 <= k < i && file_label(table@, descriptor@, ns[k]) is Some ==> exists|m: int|
                    0 <= m < sel@.len() && Some(sel@[m].label@) == file_label(table@, descriptor@, ns[k]),
        decreases names@.len() - i,
    {
        match label_of_file(table, descriptor, &md_name, &names[i]) {
            None => {},
            Some(label) => {
                let found = find_label(&sel, &label);
                let ghost before = sel@;
                if let Some(p) = found {
                    sel.set(p, ImplementationFile { label, index: i });
                    assert forall|k: int|
                        0 <= k < i + 1 && file_label(table@, descriptor@, ns[k]) is Some implies exists|m: int|
                            0 <= m < sel@.len() && Some(sel@[m].label@) == file_label(table@, descriptor@, ns[k]) by {
                        if k < i {
                            let m = choose|m: int|
                                0 <= m < before.len() && Some(before[m].label@) == file_label(table@, descriptor@, ns[k]);
                            assert(Some(sel@[m].label@) == file_label(table@, descriptor@, ns[k]));
                        } else {
                            assert(Some(sel@[p as int].label@) == file_label(table@, descriptor@, ns[k]));
                        }
                    }
                } else {
                    sel.push(ImplementationFile { label, index: i });
                    assert forall|k: int|
                        0 <= k < i + 1 && file_label(table@, descriptor@, ns[k]) is Some implies exists|m: int|
                            0 <= m < sel@.len() && Some(sel@[m].label@) == file_label(table@, descriptor@, ns[k]) by {
                        if k < i {
                            let m = choose|m: int|
                                0 <= m < before.len() && Some(before[m].label@) == file_label(table@, descriptor@, ns[k]);
                            assert(Some(sel@[m].label@) == file_label(table@, descriptor@, ns[k]));
                        } else {
                            assert(Some(sel@[before.len() as int].label@) == file_label(table@, descriptor@, ns[k]));
                        }
                    }
                }
            },
        }
        i = i + 1;
    }
    sel
}

/// No exact selection ever lists the descriptor file or the markdown body,
/// whatever their extensions, and no two chosen files share a label.
pub proof fn lemma_selection_skips_descriptor_and_body(
    table: Map<Seq<char>, Seq<char>>,
    descriptor: Seq<char>,
    names: Seq<Seq<char>>,
    sel: Seq<ImplementationFile>,
    m: int,
)
    requires
        selection_exact(table, descriptor, names, sel),
        0 <= m < sel.len(),
    ensures
        names[sel[m].index as int] != descriptor,
        names[sel[m].index as int] != markdown_name_of(descriptor),
        forall|p: int| 0 <= p < sel.len() && p != m ==> sel[p].label@ != sel[m].label@,
{
    assert forall|p: int| 0 <= p < sel.len() && p != m implies sel[p].label@ != sel[m].label@ by {
        if p < m {
            assert(sel[p].label@ != sel[m].label@);
        } else {
            assert(sel[m].label@ != sel[p].label@);
        }
    }
}

} // verus!
