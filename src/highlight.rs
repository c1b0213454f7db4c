//! Syntax highlighting of implementation listings, done by syntect with its
//! bundled grammars and the InspiredGitHub theme.

use vstd::prelude::*;
use syntect::highlighting::{Theme, ThemeSet};
use syntect::parsing::SyntaxSet;

verus! {

/// A set of grammars.
#[verifier::external_type_specification]
#[verifier::external_body]
pub struct ExSyntaxSet(SyntaxSet);

/// A colour theme.
#[verifier::external_type_specification]
#[verifier::external_body]
pub struct ExTheme(Theme);

/// The HTML snippet that syntect makes of a listing, coloured by the bundled
/// grammar whose name is the label and by the InspiredGitHub theme; `None`
/// where no bundled grammar has that name or highlighting fails.
pub uninterp spec fn highlighted_of(code: Seq<char>, label: Seq<char>) -> Option<Seq<char>>;

/// Relies on syntect's `SyntaxSet::load_defaults_newlines`: the bundled grammars.
#[verifier::external_body]
fn default_syntaxes() -> (r: SyntaxSet) {
    SyntaxSet::load_defaults_newlines()
}

/// Relies on syntect's `ThemeSet::load_defaults`: its bundled InspiredGitHub theme.
#[verifier::external_body]
fn default_theme() -> (r: Theme) {
    ThemeSet::load_defaults().themes["InspiredGitHub"].clone()
}

/// The bundled grammars and the site's theme, loaded once and shared by
/// every page.
pub struct Highlighter {
    syntaxes: SyntaxSet,
    theme: Theme,
}

impl Highlighter {
    /// Loads the bundled grammars and the InspiredGitHub theme.
    pub fn new() -> (r: Highlighter) {
        Highlighter { syntaxes: default_syntaxes(), theme: default_theme() }
    }
}

/// Relies on syntect's `SyntaxSet::find_syntax_by_name` and
/// `highlighted_html_for_string`: the grammar is looked up by the label among
/// the bundled ones, and the snippet depends on the code and the label alone.
#[verifier::external_body]
pub(crate) fn highlight(h: &Highlighter, code: &str, label: &str) -> (r: Option<String>)
    ensures
        match r {
            Some(s) => highlighted_of(code@, label@) == Some(s@),
            None => highlighted_of(code@, label@) is None,
        },
{
    let syntax = h.syntaxes.find_syntax_by_name(label)?;
    syntect::html::highlighted_html_for_string(code, &h.syntaxes, syntax, &h.theme).ok()
}

} // verus!
