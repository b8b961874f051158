//! Tests of HTML escaping, highlighting, configuration escaping, and export
//! naming rules.
use codasai::code::escape_and_highlight;
use codasai::config::{escape_toml_string, guide_config_contents};
use codasai::export::{html_companion_path, is_sass_candidate, with_extension};
use codasai::html::escape;
use codasai::paths::{join_path, ProjectPaths};

#[test]
fn escape_replaces_the_five_significant_characters() {
    assert_eq!(escape("<a href=\"x\">&'</a>"), "&lt;a href=&quot;x&quot;&gt;&amp;&#39;&lt;/a&gt;");
    assert_eq!(escape("plain text"), "plain text");
    assert_eq!(escape(""), "");
}

#[test]
fn unknown_extensions_are_only_escaped() {
    assert_eq!(escape_and_highlight("a < b", "zzz-unknown"), "a &lt; b");
}

#[test]
fn known_extensions_are_highlighted() {
    let html = escape_and_highlight("fn main() { let x = 1; }", "rs");
    assert!(html.contains("csai-code-"));
    assert_ne!(html, "fn main() { let x = 1; }");
}

#[test]
fn escape_toml_string_escapes_quotes_backslashes_and_controls() {
    assert_eq!(escape_toml_string("plain"), "plain");
    assert_eq!(escape_toml_string("a\"b"), "a\\\"b");
    assert_eq!(escape_toml_string("a\\b"), "a\\\\b");
    assert_eq!(escape_toml_string("a\nb\tc"), "a\\nb\\tc");
    assert_eq!(escape_toml_string("\u{1}"), "\\u{1}");
    assert_eq!(escape_toml_string("\u{1f}"), "\\u{1f}");
}

#[test]
fn guide_config_holds_one_quoted_title() {
    assert_eq!(guide_config_contents("My \"Guide\""), "title = \"My \\\"Guide\\\"\"");
}

#[test]
fn sass_candidates_are_non_partial_scss_files() {
    assert!(is_sass_candidate("theme/sass/style.scss"));
    assert!(is_sass_candidate("style.scss"));
    assert!(!is_sass_candidate("theme/sass/_partial.scss"));
    assert!(!is_sass_candidate("theme/sass/style.css"));
    assert!(!is_sass_candidate("theme/sass/.scss"));
}

#[test]
fn with_extension_replaces_or_appends() {
    assert_eq!(with_extension("a/b.scss", "css"), "a/b.css");
    assert_eq!(with_extension("a/b.tar.gz", "css"), "a/b.tar.css");
    assert_eq!(with_extension("noext", "css"), "noext.css");
    assert_eq!(with_extension("dir.d/noext", "css"), "dir.d/noext.css");
    assert_eq!(with_extension(".hidden", "css"), ".hidden.css");
}

#[test]
fn html_companions_append_the_extension() {
    assert_eq!(html_companion_path("src/main.rs"), "src/main.rs.html");
    assert_eq!(html_companion_path("Makefile"), "Makefile.html");
}

#[test]
fn join_path_handles_empty_and_trailing_separators() {
    assert_eq!(join_path("", "x"), "x");
    assert_eq!(join_path("a", "x"), "a/x");
    assert_eq!(join_path("a/", "x"), "a/x");
}

#[test]
fn project_paths_lay_out_the_fixed_locations() {
    let mut paths = ProjectPaths::new("/home/me/guide".to_string());
    assert_eq!(paths.project(), "/home/me/guide");
    assert_eq!(paths.codasai(), "/home/me/guide/.codasai");
    assert_eq!(paths.pages(), "/home/me/guide/pages");
    assert_eq!(paths.workspace(), "/home/me/guide/workspace");
    assert_eq!(paths.user_static(), "/home/me/guide/static");
    assert_eq!(paths.theme(), "/home/me/guide/.codasai/theme");
    assert_eq!(paths.export(), "/home/me/guide/.codasai/export");
    assert_eq!(paths.config_file(), "/home/me/guide/.codasai/guide.toml");
    assert_eq!(paths.index_file(), "/home/me/guide/.codasai/index.toml");

    paths.set_export("/tmp/out".to_string());
    assert_eq!(paths.export(), "/tmp/out");
}
