//! Tests of the workspace outline builder.
use codasai::context::workspace::Directory;
use codasai::context::WorkspaceOutlineBuilder;

fn dir_names(d: &Directory) -> Vec<String> {
    d.directories().iter().map(|c| c.name().clone()).collect()
}

fn file_names(d: &Directory) -> Vec<String> {
    d.files().iter().map(|f| f.name().clone()).collect()
}

#[test]
fn empty_input_yields_bare_root() {
    let builder = WorkspaceOutlineBuilder::new();
    let root = builder.finish();
    assert_eq!(root.name(), "");
    assert_eq!(root.depth(), 0);
    assert!(root.directories().is_empty());
    assert!(root.files().is_empty());
}

#[test]
fn sibling_directories_do_not_nest() {
    let mut builder = WorkspaceOutlineBuilder::new();
    builder.push_dir("a".to_string(), 1);
    builder.push_file("x".to_string(), "a/x".to_string(), 2);
    builder.push_dir("b".to_string(), 1);
    builder.push_file("y".to_string(), "b/y".to_string(), 2);
    let root = builder.finish();

    assert_eq!(dir_names(&root), vec!["a".to_string(), "b".to_string()]);
    assert!(root.files().is_empty());
    let a = &root.directories()[0];
    let b = &root.directories()[1];
    assert_eq!(file_names(a), vec!["x".to_string()]);
    assert!(a.directories().is_empty());
    assert_eq!(file_names(b), vec!["y".to_string()]);
    assert!(b.directories().is_empty());
    assert_eq!(a.files()[0].path(), "a/x");
    assert_eq!(a.files()[0].depth(), 2);
}

#[test]
fn nested_directories_close_on_shallower_entry() {
    let mut builder = WorkspaceOutlineBuilder::new();
    builder.push_dir("outer".to_string(), 1);
    builder.push_dir("inner".to_string(), 2);
    builder.push_file("deep.txt".to_string(), "outer/inner/deep.txt".to_string(), 3);
    builder.push_file("top.txt".to_string(), "top.txt".to_string(), 1);
    let root = builder.finish();

    assert_eq!(dir_names(&root), vec!["outer".to_string()]);
    assert_eq!(file_names(&root), vec!["top.txt".to_string()]);
    let outer = &root.directories()[0];
    assert_eq!(dir_names(outer), vec!["inner".to_string()]);
    assert!(outer.files().is_empty());
    let inner = &outer.directories()[0];
    assert_eq!(file_names(inner), vec!["deep.txt".to_string()]);
}

#[test]
fn file_attaches_one_level_above_its_depth() {
    let mut builder = WorkspaceOutlineBuilder::new();
    builder.push_dir("a".to_string(), 1);
    builder.push_file("f1".to_string(), "a/f1".to_string(), 2);
    // After a file at depth 2 the cursor sits at depth 1, so another
    // directory at depth 2 opens inside `a`.
    builder.push_dir("sub".to_string(), 2);
    builder.push_file("f2".to_string(), "a/sub/f2".to_string(), 3);
    let root = builder.finish();

    let a = &root.directories()[0];
    assert_eq!(file_names(a), vec!["f1".to_string()]);
    assert_eq!(dir_names(a), vec!["sub".to_string()]);
    assert_eq!(file_names(&a.directories()[0]), vec!["f2".to_string()]);
}

fn same_tree(x: &Directory, y: &Directory) -> bool {
    if x.name() != y.name() || x.depth() != y.depth() {
        return false;
    }
    if x.files().len() != y.files().len() || x.directories().len() != y.directories().len() {
        return false;
    }
    for (fx, fy) in x.files().iter().zip(y.files().iter()) {
        if fx.name() != fy.name() || fx.path() != fy.path() || fx.depth() != fy.depth() {
            return false;
        }
    }
    for (dx, dy) in x.directories().iter().zip(y.directories().iter()) {
        if !same_tree(dx, dy) {
            return false;
        }
    }
    true
}

fn replay(d: &Directory, builder: &mut WorkspaceOutlineBuilder) {
    for f in d.files() {
        builder.push_file(f.name().clone(), f.path().clone(), f.depth());
    }
    for c in d.directories() {
        builder.push_dir(c.name().clone(), c.depth());
        replay(c, builder);
    }
}

#[test]
fn replaying_a_traversal_reconstructs_the_tree() {
    let mut builder = WorkspaceOutlineBuilder::new();
    builder.push_file("readme".to_string(), "readme".to_string(), 1);
    builder.push_dir("src".to_string(), 1);
    builder.push_file("main.rs".to_string(), "src/main.rs".to_string(), 2);
    builder.push_dir("nested".to_string(), 2);
    builder.push_file("lib.rs".to_string(), "src/nested/lib.rs".to_string(), 3);
    builder.push_dir("assets".to_string(), 1);
    builder.push_file("logo.svg".to_string(), "assets/logo.svg".to_string(), 2);
    let first = builder.finish();

    let mut second_builder = WorkspaceOutlineBuilder::new();
    replay(&first, &mut second_builder);
    let second = second_builder.finish();

    assert!(same_tree(&first, &second));
}
