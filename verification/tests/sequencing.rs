//! Tests of the revision sequencer.
use codasai::sequencer::{sequence_revisions, RevisionRecord, SequenceError, TreeFile};

fn file(path: &str, content: &str) -> TreeFile {
    TreeFile { path: path.to_string(), content: content.as_bytes().to_vec() }
}

fn rev(id: &str, files: Vec<TreeFile>) -> RevisionRecord {
    RevisionRecord { id: id.to_string(), files }
}

#[test]
fn qualifying_revisions_are_numbered_consecutively_in_ancestry_order() {
    let revs = vec![
        rev("r0", vec![file("pages/a.md", "# A"), file("workspace/main.rs", "fn main() {}")]),
        rev(
            "r1",
            vec![
                file("pages/a.md", "# A"),
                file("workspace/main.rs", "fn main() {}"),
                file("pages/b.md", "# B"),
            ],
        ),
        rev(
            "r2",
            vec![
                file("pages/a.md", "# A"),
                file("workspace/main.rs", "fn main() { println!(); }"),
                file("pages/b.md", "# B"),
            ],
        ),
    ];
    let steps = sequence_revisions(&revs).expect("history is well-formed");
    assert_eq!(steps.len(), 2);
    assert_eq!(steps[0].sequence_number, 0);
    assert_eq!(steps[0].revision_index, 0);
    assert_eq!(steps[0].path, "pages/a.md");
    assert_eq!(steps[0].text, "# A");
    assert_eq!(steps[1].sequence_number, 1);
    assert_eq!(steps[1].revision_index, 1);
    assert_eq!(steps[1].path, "pages/b.md");
    assert_eq!(steps[1].text, "# B");
}

#[test]
fn two_new_pages_in_one_revision_is_a_fatal_error() {
    let revs = vec![rev("r0", vec![file("pages/a.md", "# A"), file("pages/b.md", "# B")])];
    match sequence_revisions(&revs) {
        Err(SequenceError::MultipleNewPages { revision_index, revision }) => {
            assert_eq!(revision_index, 0);
            assert_eq!(revision, "r0");
        },
        _ => panic!("expected a multiple-new-pages error"),
    }
}

#[test]
fn pageless_revision_is_skipped_but_advances_the_baseline() {
    let revs = vec![
        rev("r0", vec![file("workspace/a.txt", "one")]),
        rev("r1", vec![file("workspace/a.txt", "one"), file("pages/intro.md", "# Intro")]),
    ];
    let steps = sequence_revisions(&revs).expect("history is well-formed");
    assert_eq!(steps.len(), 1);
    assert_eq!(steps[0].sequence_number, 0);
    assert_eq!(steps[0].revision_index, 1);
    assert_eq!(steps[0].path, "pages/intro.md");
}

#[test]
fn first_revision_counts_only_page_files_as_pages() {
    let revs = vec![rev(
        "r0",
        vec![
            TreeFile { path: "workspace/bin.dat".to_string(), content: vec![0, 159, 146, 150] },
            file("README.md", "# Not a page"),
            file("pages.md", "# Not under the pages root"),
            file("pages/.md", "# No stem"),
            file("pages/start.md", "# Start"),
        ],
    )];
    let steps = sequence_revisions(&revs).expect("exactly one real page");
    assert_eq!(steps.len(), 1);
    assert_eq!(steps[0].path, "pages/start.md");
}

#[test]
fn page_with_invalid_text_is_a_fatal_error() {
    let revs = vec![
        rev("r0", vec![file("pages/a.md", "# A")]),
        rev(
            "r1",
            vec![
                file("pages/a.md", "# A"),
                TreeFile { path: "pages/bad.md".to_string(), content: vec![0xff, 0xfe, 0x00] },
            ],
        ),
    ];
    match sequence_revisions(&revs) {
        Err(SequenceError::InvalidPageText { revision_index, revision, path }) => {
            assert_eq!(revision_index, 1);
            assert_eq!(revision, "r1");
            assert_eq!(path, "pages/bad.md");
        },
        _ => panic!("expected an invalid-page-text error"),
    }
}

#[test]
fn removed_then_readded_page_counts_again() {
    let revs = vec![
        rev("r0", vec![file("pages/a.md", "# A")]),
        rev("r1", vec![]),
        rev("r2", vec![file("pages/a.md", "# A again")]),
    ];
    let steps = sequence_revisions(&revs).expect("history is well-formed");
    assert_eq!(steps.len(), 2);
    assert_eq!(steps[1].revision_index, 2);
    assert_eq!(steps[1].text, "# A again");
}

#[test]
fn empty_history_yields_no_steps() {
    let steps = sequence_revisions(&Vec::new()).expect("empty history is fine");
    assert!(steps.is_empty());
}
