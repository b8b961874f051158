//! Tests of page handling: titles, markdown rendering, preprocessing, URLs,
//! slugs, and unsaved-page detection.
use codasai::page::{
    commit_message, extract_title, find_unsaved_page, markdown_to_html, page_code,
    preprocess_page, static_resource_url, url_join, StatusRecord,
};

#[test]
fn extract_title_takes_the_first_heading() {
    assert_eq!(extract_title("# Hello World\n\nBody text."), "Hello World");
    assert_eq!(extract_title("intro\n\n## Deep Heading\n"), "Deep Heading");
}

#[test]
fn extract_title_defaults_to_untitled() {
    assert_eq!(extract_title("just a paragraph"), "Untitled");
    assert_eq!(extract_title(""), "Untitled");
}

#[test]
fn markdown_to_html_renders_paragraphs() {
    assert_eq!(markdown_to_html("hello"), "<p>hello</p>\n");
    assert_eq!(markdown_to_html("*hi*"), "<p><em>hi</em></p>\n");
}

#[test]
fn markdown_to_html_sanitizes_scripts() {
    let html = markdown_to_html("safe\n\n<script>alert(1)</script>");
    assert!(!html.contains("<script>"));
    assert!(html.contains("safe"));
}

#[test]
fn preprocess_page_expands_static_resources() {
    let page = "![logo]({{ static_resource(\"img/logo.png\") }})";
    let out = preprocess_page("/", page).expect("valid template");
    assert_eq!(out, "![logo](/public/user/img/logo.png)");
}

#[test]
fn preprocess_page_rejects_broken_templates() {
    assert!(preprocess_page("/", "{{ unclosed").is_err());
}

#[test]
fn static_resource_url_joins_base_prefix_and_path() {
    assert_eq!(static_resource_url("/", "logo.png"), "/public/user/logo.png");
    assert_eq!(static_resource_url("/guide", "/logo.png"), "/guide/public/user/logo.png");
    assert_eq!(static_resource_url("", "a/b.css"), "/public/user/a/b.css");
}

#[test]
fn url_join_uses_exactly_one_separator() {
    assert_eq!(url_join("/base", "x/y.html"), "/base/x/y.html");
    assert_eq!(url_join("/base/", "/x.html"), "/base/x.html");
    assert_eq!(url_join("", "/x.html"), "x.html");
}

#[test]
fn page_code_strips_directory_and_extension() {
    assert_eq!(page_code("pages/first-steps.md"), "first-steps");
    assert_eq!(page_code("pages/sub/deep.md"), "deep");
    assert_eq!(page_code("plain.md"), "plain");
    assert_eq!(page_code("no-extension"), "no-extension");
}

fn status(path: &str, is_wt_new: bool) -> StatusRecord {
    StatusRecord { path: path.to_string(), is_wt_new }
}

#[test]
fn find_unsaved_page_picks_the_one_new_page() {
    let statuses = vec![
        status("workspace/main.rs", true),
        status("pages/old.md", false),
        status("pages/new.md", true),
    ];
    let found = find_unsaved_page(&statuses).expect("one unsaved page");
    assert_eq!(found, Some("pages/new.md".to_string()));
}

#[test]
fn find_unsaved_page_finds_nothing_without_new_pages() {
    let statuses = vec![status("workspace/main.rs", true), status("pages/old.md", false)];
    let found = find_unsaved_page(&statuses).expect("no unsaved page is fine");
    assert_eq!(found, None);
}

#[test]
fn find_unsaved_page_rejects_several_new_pages() {
    let statuses = vec![status("pages/one.md", true), status("pages/two.md", true)];
    assert!(find_unsaved_page(&statuses).is_err());
}

#[test]
fn commit_message_names_title_and_code() {
    assert_eq!(commit_message("My Page", "my-page"), "Add page: My Page\nCode: my-page");
}
