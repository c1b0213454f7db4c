//! The extension classifier: a table from file extension to the display label
//! of a language, read from lines of the form `extension,label`.

use vstd::prelude::*;
use vstd::string::StrSliceExecFns;
use crate::text::{trim_text, trimmed};

verus! {

/// Index of the first comma at or after position `i`, or -1 when there is none.
pub open spec fn comma_from(s: Seq<char>, i: int) -> int
    decreases s.len() - i,
{
    if i < 0 || i >= s.len() {
        -1
    } else if s[i] == ',' {
        i
    } else {
        comma_from(s, i + 1)
    }
}

/// Index of the first comma of a line, or -1.
pub open spec fn first_comma(line: Seq<char>) -> int {
    comma_from(line, 0)
}

/// A line is well formed when it holds a comma.
pub open spec fn well_formed_line(line: Seq<char>) -> bool {
    first_comma(line) >= 0
}

/// The extension that a well-formed line maps: what stands before its first comma, trimmed.
pub open spec fn line_key(line: Seq<char>) -> Seq<char> {
    trimmed(line.subrange(0, first_comma(line)))
}

/// The label of a well-formed line: what follows its first comma, trimmed.
pub open spec fn line_label(line: Seq<char>) -> Seq<char> {
    trimmed(line.subrange(first_comma(line) + 1, line.len() as int))
}

/// The table that a sequence of well-formed lines describes; a later line
/// for the same extension replaces an earlier one.
pub open spec fn table_of(lines: Seq<Seq<char>>) -> Map<Seq<char>, Seq<char>>
    decreases lines.len(),
{
    if lines.len() == 0 {
        Map::empty()
    } else {
        table_of(lines.drop_last()).insert(line_key(lines.last()), line_label(lines.last()))
    }
}

/// A line of the table file that has no comma, by its index.
#[derive(Debug, Clone, Copy, PartialEq, Eq, Structural)]
pub enum TableError {
    MissingComma { line: usize },
}

/// Extension to label, each extension held once.
pub struct ExtensionTable {
    entries: Vec<(String, String)>,
    contents: Ghost<Map<Seq<char>, Seq<char>>>,
}

impl View for ExtensionTable {
    type V = Map<Seq<char>, Seq<char>>;

    closed spec fn view(&self) -> Map<Seq<char>, Seq<char>> {
        self.contents@
    }
}

impl ExtensionTable {
    /// Each extension is held once, and the entries are exactly the map.
    pub closed spec fn wf(&self) -> bool {
        &&& forall|i: int, j: int|
            0 <= i < j < self.entries@.len() ==> self.entries@[i].0@ != self.entries@[j].0@
        &&& forall|i: int|
            0 <= i < self.entries@.len() ==> #[trigger] self.contents@.contains_key(
                self.entries@[i].0@,
            ) && self.contents@[self.entries@[i].0@] == self.entries@[i].1@
        &&& forall|k: Seq<char>|
            #[trigger] self.contents@.contains_key(k) ==> exists|i: int|
                0 <= i < self.entries@.len() && self.entries@[i].0@ == k
    }

    /// The empty table.
    pub fn new() -> (r: ExtensionTable)
        ensures
            r.wf(),
            r@ == Map::<Seq<char>, Seq<char>>::empty(),
    {
        ExtensionTable { entries: Vec::new(), contents: Ghost(Map::empty()) }
    }

    /// Position of an extension among the entries.
    fn position(&self, extension: &String) -> (r: Option<usize>)
        requires
            self.wf(),
        ensures
            r is None <==> !self@.contains_key(extension@),
            r matches Some(p) ==> p < self.entries@.len() && self.entries@[p as int].0@
                == extension@,
    {
        let mut i: usize = 0;
        while i < self.entries.len()
            invariant
                self.wf(),
                i <= self.entries@.len(),
                forall|k: int| 0 <= k < i ==> self.entries@[k].0@ != extension@,
            decreases self.entries@.len() - i,
        {
            if self.entries[i].0 == *extension {
                return Some(i);
            }
            i = i + 1;
        }
        None
    }

    /// Maps `extension` to `label`, replacing an earlier label for it.
    pub fn insert(&mut self, extension: String, label: String)
        requires
            old(self).wf(),
        ensures
            final(self).wf(),
            final(self)@ == old(self)@.insert(extension@, label@),
    {
        let ghost key = extension@;
        let ghost value = label@;
        match self.position(&extension) {
            Some(p) => {
                self.entries.set(p, (extension, label));
            },
            None => {
                self.entries.push((extension, label));
            },
        }
        self.contents = Ghost(self.contents@.insert(key, value));
        assert forall|k: Seq<char>| #[trigger] self.contents@.contains_key(k) implies exists|i: int|
            0 <= i < self.entries@.len() && self.entries@[i].0@ == k by {
            if k != key {
                assert(old(self).contents@.contains_key(k));
                let i = choose|i: int|
                    0 <= i < old(self).entries@.len() && old(self).entries@[i].0@ == k;
                assert(self.entries@[i].0@ == k);
            } else {
                let i = if self.entries@.len() > old(self).entries@.len() {
                    old(self).entries@.len() as int
                } else {
                    choose|i: int| 0 <= i < old(self).entries@.len() && old(self).entries@[i].0@ == key
                };
                assert(self.entries@[i].0@ == k);
            }
        }
    }

    /// The label of an extension, if the table knows it.
    pub fn label_for(&self, extension: &String) -> (r: Option<String>)
        requires
            self.wf(),
        ensures
            r is None <==> !self@.contains_key(extension@),
            r matches Some(l) ==> l@ == self@[extension@],
    {
        match self.position(extension) {
            None => None,
            Some(p) => Some(self.entries[p].1.clone()),
        }
    }
}

/// Position of the first comma of a line, if it has one.
fn find_comma(line: &str) -> (r: Option<usize>)
    ensures
        r is None <==> first_comma(line@) < 0,
        r matches Some(c) ==> c == first_comma(line@) && c < line@.len(),
{
    let n: usize = line.unicode_len();
    let mut i: usize = 0;
    while i < n
        invariant
            i <= n == line@.len(),
            comma_from(line@, 0) == comma_from(line@, i as int),
        decreases n - i,
    {
        if line.get_char(i) == ',' {
            return Some(i);
        }
        i = i + 1;
    }
    None
}

/// Reads the extension table from its lines. Each line is split at its first
/// comma into an extension and a label, both trimmed; a line without a comma
/// fails the whole table.
pub fn parse_file_extensions(lines: &Vec<String>) -> (r: Result<ExtensionTable, TableError>)
    ensures
        r is Ok <==> forall|i: int| 0 <= i < lines@.len() ==> well_formed_line(#[trigger] lines@[i]@),
        r matches Ok(t) ==> t.wf() && t@ == table_of(lines@.map_values(|l: String| l@)),
        r matches Err(TableError::MissingComma { line }) ==> line < lines@.len()
            && !well_formed_line(lines@[line as int]@)
            && forall|i: int| 0 <= i < line ==> well_formed_line(#[trigger] lines@[i]@),
{
    let ghost texts = lines@.map_values(|l: String| l@);
    let mut table = ExtensionTable::new();
    let mut i: usize = 0;
    while i < lines.len()
        invariant
            i <= lines@.len(),
            texts == lines@.map_values(|l: String| l@),
            table.wf(),
            table@ == table_of(texts.take(i as int)),
            forall|k: int| 0 <= k < i ==> well_formed_line(#[trigger] lines@[k]@),
        decreases lines@.len() - i,
    {
        let line: &str = lines[i].as_str();
        match find_comma(line) {
            None => {
                return Err(TableError::MissingComma { line: i });
            },
            Some(c) => {
                let n: usize = line.unicode_len();
                let key = trim_text(line.substring_char(0, c));
                let label = trim_text(line.substring_char(c + 1, n));
                table.insert(key, label);
                assert(texts.take(i as int + 1).drop_last() =~= texts.take(i as int));
            },
        }
        i = i + 1;
    }
    assert(texts.take(lines@.len() as int) =~= texts);
    Ok(table)
}

} // verus!
