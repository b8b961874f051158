//! Tests of per-step projection, from sequenced revisions to full page
//! contexts.
use codasai::context::{Index, IndexEntry};
use codasai::page::page_code;
use codasai::projector::{
    build_workspace_outline, preview_page_context, project_step, ProjectError, TreeWalkEntry,
};
use codasai::sequencer::{sequence_revisions, RevisionRecord, TreeFile};

fn entry(parent: &str, name: &str, is_blob: bool) -> TreeWalkEntry {
    TreeWalkEntry { parent: parent.to_string(), name: name.to_string(), is_blob }
}

fn file(path: &str, content: &str) -> TreeFile {
    TreeFile { path: path.to_string(), content: content.as_bytes().to_vec() }
}

#[test]
fn outline_ignores_entries_outside_the_workspace() {
    let entries = vec![
        entry("", "pages", false),
        entry("pages/", "a.md", true),
        entry("", "workspace", false),
        entry("workspace/", "main.rs", true),
    ];
    let root = build_workspace_outline(&entries).expect("valid walk");
    assert!(root.directories().is_empty());
    assert_eq!(root.files().len(), 1);
    assert_eq!(root.files()[0].name(), "main.rs");
    assert_eq!(root.files()[0].path(), "main.rs");
    assert_eq!(root.files()[0].depth(), 1);
}

#[test]
fn outline_nests_workspace_directories() {
    let entries = vec![
        entry("", "workspace", false),
        entry("workspace/", "sub", false),
        entry("workspace/sub/", "lib.rs", true),
        entry("workspace/", "top.txt", true),
    ];
    let root = build_workspace_outline(&entries).expect("valid walk");
    assert_eq!(root.directories().len(), 1);
    let sub = &root.directories()[0];
    assert_eq!(sub.name(), "sub");
    assert_eq!(sub.files().len(), 1);
    assert_eq!(sub.files()[0].path(), "sub/lib.rs");
    assert_eq!(root.files().len(), 1);
    assert_eq!(root.files()[0].name(), "top.txt");
}

#[test]
fn outline_rejects_an_orphan_depth_jump() {
    let entries = vec![entry("workspace/ghost/", "stray.txt", true)];
    let err = build_workspace_outline(&entries).expect_err("no open parent directory");
    assert_eq!(err.path, "workspace/ghost/stray.txt");
}

#[test]
fn three_revision_history_projects_two_linked_steps() {
    let revs = vec![
        RevisionRecord {
            id: "r0".to_string(),
            files: vec![file("pages/a.md", "# Alpha"), file("workspace/main.rs", "fn main() {}")],
        },
        RevisionRecord {
            id: "r1".to_string(),
            files: vec![
                file("pages/a.md", "# Alpha"),
                file("workspace/main.rs", "fn main() {}"),
                file("pages/b.md", "# Beta"),
                file("workspace/sub/lib.rs", "pub fn lib() {}"),
            ],
        },
        RevisionRecord {
            id: "r2".to_string(),
            files: vec![
                file("pages/a.md", "# Alpha"),
                file("workspace/main.rs", "fn main() { changed(); }"),
                file("pages/b.md", "# Beta"),
                file("workspace/sub/lib.rs", "pub fn lib() {}"),
            ],
        },
    ];
    let steps = sequence_revisions(&revs).expect("well-formed history");
    assert_eq!(steps.len(), 2);

    let mut index = Index::default();
    for step in &steps {
        index.append(IndexEntry {
            name: format!("Page {}", step.sequence_number),
            code: page_code(&step.path),
        });
    }
    assert_eq!(index.entries[0].code, "a");
    assert_eq!(index.entries[1].code, "b");

    let walk0 = vec![entry("", "workspace", false), entry("workspace/", "main.rs", true)];
    let walk1 = vec![
        entry("", "workspace", false),
        entry("workspace/", "main.rs", true),
        entry("workspace/", "sub", false),
        entry("workspace/sub/", "lib.rs", true),
    ];

    let first = project_step(&steps[0], &index, "/", &walk0).expect("projects cleanly");
    assert_eq!(first.number, 0);
    assert_eq!(first.code, "a");
    assert_eq!(first.title, "Alpha");
    assert_eq!(first.content, "<h1>Alpha</h1>\n");
    assert_eq!(first.previous_page_code, None);
    assert_eq!(first.next_page_code, Some("b".to_string()));
    assert_eq!(first.workspace.files().len(), 1);

    let second = project_step(&steps[1], &index, "/", &walk1).expect("projects cleanly");
    assert_eq!(second.number, 1);
    assert_eq!(second.code, "b");
    assert_eq!(second.title, "Beta");
    assert_eq!(second.previous_page_code, Some("a".to_string()));
    assert_eq!(second.next_page_code, None);
    assert_eq!(second.workspace.directories().len(), 1);
    assert_eq!(second.workspace.directories()[0].name(), "sub");
}

#[test]
fn broken_page_template_is_wrapped_with_the_step_code() {
    let revs = vec![RevisionRecord {
        id: "r0".to_string(),
        files: vec![file("pages/a.md", "{{ broken")],
    }];
    let steps = sequence_revisions(&revs).expect("sequencing ignores template syntax");
    let mut index = Index::default();
    index.append(IndexEntry { name: "A".to_string(), code: "a".to_string() });
    match project_step(&steps[0], &index, "/", &Vec::new()) {
        Err(ProjectError::Preprocess { code, .. }) => assert_eq!(code, "a"),
        _ => panic!("expected a preprocess error"),
    }
}

#[test]
fn preview_context_has_fixed_code_and_no_links() {
    let walk = vec![entry("", "workspace", false), entry("workspace/", "demo.txt", true)];
    let pc = preview_page_context("# Draft\n\ntext", "/", &walk).expect("projects cleanly");
    assert_eq!(pc.number, 0);
    assert_eq!(pc.code, "preview");
    assert_eq!(pc.title, "Draft");
    assert_eq!(pc.previous_page_code, None);
    assert_eq!(pc.next_page_code, None);
    assert_eq!(pc.workspace.files().len(), 1);
}
