//! Text helpers: HTML escaping and whitespace trimming, each done by the
//! outside code that the site generator relies on for it, and the file-name
//! arithmetic that picks extensions and stems.

use vstd::prelude::*;
use vstd::string::StrSliceExecFns;

verus! {

/// What the escaper writes for one character: `&`, `<`, `>` and `"` become
/// entities, every other character stands for itself.
pub open spec fn escaped_char(c: char) -> Seq<char> {
    if c == '&' {
        seq!['&', 'a', 'm', 'p', ';']
    } else if c == '<' {
        seq!['&', 'l', 't', ';']
    } else if c == '>' {
        seq!['&', 'g', 't', ';']
    } else if c == '"' {
        seq!['&', 'q', 'u', 'o', 't', ';']
    } else {
        seq![c]
    }
}

/// The HTML-escaped form of a text, character by character.
pub open spec fn html_escaped(s: Seq<char>) -> Seq<char>
    decreases s.len(),
{
    if s.len() == 0 {
        Seq::empty()
    } else {
        html_escaped(s.drop_last()) + escaped_char(s.last())
    }
}

/// The text with leading and trailing whitespace removed.
pub uninterp spec fn trimmed(s: Seq<char>) -> Seq<char>;

/// Relies on maud's `Render` impl for `str`, which writes the text with
/// `&`, `<`, `>` and `"` replaced by entities and every other byte kept.
#[verifier::external_body]
pub(crate) fn escape_html(s: &str) -> (r: String)
    ensures
        r@ == html_escaped(s@),
{
    let mut out = String::new();
    maud::Render::render_to(s, &mut out);
    out
}

/// Relies on `str::trim`: the result depends on the text alone.
#[verifier::external_body]
pub(crate) fn trim_text(s: &str) -> (r: String)
    ensures
        r@ == trimmed(s@),
{
    s.trim().to_owned()
}

/// Index of the last `.` before position `i`, or -1 when there is none.
pub open spec fn last_dot(s: Seq<char>, i: int) -> int
    decreases i,
{
    if i <= 0 {
        -1
    } else if s[i - 1] == '.' {
        i - 1
    } else {
        last_dot(s, i - 1)
    }
}

/// The extension of a file name: what follows its last dot, unless that dot
/// opens the name (a hidden file) or there is no dot at all.
pub open spec fn extension_of(name: Seq<char>) -> Option<Seq<char>> {
    let d = last_dot(name, name.len() as int);
    if d <= 0 {
        None
    } else {
        Some(name.subrange(d + 1, name.len() as int))
    }
}

/// The file name without its extension.
pub open spec fn stem_of(name: Seq<char>) -> Seq<char> {
    let d = last_dot(name, name.len() as int);
    if d <= 0 {
        name
    } else {
        name.subrange(0, d)
    }
}

/// Position of the dot that starts the extension, if the name has one.
fn extension_dot(name: &str) -> (r: Option<usize>)
    ensures
        r is None <==> last_dot(name@, name@.len() as int) <= 0,
        r matches Some(d) ==> d == last_dot(name@, name@.len() as int) && 0 < d < name@.len(),
{
    let n: usize = name.unicode_len();
    let mut i: usize = n;
    while i > 0
        invariant
            i <= n == name@.len(),
            last_dot(name@, n as int) == last_dot(name@, i as int),
        decreases i,
    {
        if name.get_char(i - 1) == '.' {
            if i - 1 == 0 {
                return None;
            }
            return Some(i - 1);
        }
        i = i - 1;
    }
    None
}

/// The extension of a file name, as `Path::extension` gives it for a name.
pub fn file_extension(name: &str) -> (r: Option<String>)
    ensures
        r is None <==> extension_of(name@) is None,
        r matches Some(e) ==> extension_of(name@) == Some(e@),
{
    let n: usize = name.unicode_len();
    match extension_dot(name) {
        None => None,
        Some(d) => Some(name.substring_char(d + 1, n).to_owned()),
    }
}

/// The file name without its extension, as `Path::file_stem` gives it.
pub fn file_stem(name: &str) -> (r: String)
    ensures
        r@ == stem_of(name@),
{
    match extension_dot(name) {
        None => name.to_owned(),
        Some(d) => name.substring_char(0, d).to_owned(),
    }
}

} // verus!
