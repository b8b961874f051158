//! Code rendering for workspace files: syntax highlighting when the
//! highlighting engine knows the file's extension, plain HTML escaping
//! otherwise.
use vstd::prelude::*;

use crate::html::escape;
use crate::html::spec_escape;

verus! {

/// What the highlighting engine produces for a piece of code under a given
/// file extension; nothing when it does not know the extension.
pub uninterp spec fn highlighted(code: Seq<char>, ext: Seq<char>) -> Option<Seq<char>>;

/// Highlights `code` according to the syntax the engine selects for `ext`.
///
/// Relies on syntect: `SyntaxSet::load_defaults_newlines` and
/// `find_syntax_by_extension` select the syntax from a fixed table compiled
/// into the engine, and `ClassedHTMLGenerator` produces class-annotated,
/// already escaped HTML line by line; the outcome depends on `code` and
/// `ext` alone.
#[verifier::external_body]
fn try_highlight(code: &str, ext: &str) -> (r: Option<String>)
    ensures
        r is Some <==> highlighted(code@, ext@) is Some,
        r matches Some(h) ==> highlighted(code@, ext@) == Some(h@),
{
    let syntax_set = syntect::parsing::SyntaxSet::load_defaults_newlines();
    let syntax = syntax_set.find_syntax_by_extension(ext)?;
    let style = syntect::html::ClassStyle::SpacedPrefixed { prefix: "csai-code-" };
    let mut generator =
        syntect::html::ClassedHTMLGenerator::new_with_class_style(syntax, &syntax_set, style);
    for line in syntect::util::LinesWithEndings::from(code) {
        generator.parse_html_for_line_which_includes_newline(line).ok()?;
    }
    Some(generator.finalize())
}

/// Escapes and highlights `code` using `ext` as the file extension to
/// select the language's syntax.
///
/// If the highlighting engine doesn't support the file extension, the
/// returned string is only escaped.
pub fn escape_and_highlight(code: &str, ext: &str) -> (r: String)
    ensures
        r@ == match highlighted(code@, ext@) {
            Some(h) => h,
            None => spec_escape(code@),
        },
{
    match try_highlight(code, ext) {
        Some(h) => h,
        None => escape(code),
    }
}

} // verus!
