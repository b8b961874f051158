//! Per-step projection: turning one sequenced revision into the full
//! per-page context — title, rendered content, workspace outline, and
//! previous/next navigation against the final index.
use vstd::prelude::*;

use crate::context::index::Index;
use crate::context::page::PageContext;
use crate::context::workspace::initial_builder;
use crate::context::workspace::finish_model;
use crate::context::workspace::lemma_run_concat;
use crate::context::workspace::lemma_run_one;
use crate::context::workspace::run_model;
use crate::context::workspace::step_model;
use crate::context::workspace::BuilderModel;
use crate::context::workspace::Directory;
use crate::context::workspace::OutlineEntry;
use crate::context::workspace::WorkspaceOutlineBuilder;
use crate::page::extract_title;
use crate::page::markdown_html;
use crate::page::markdown_to_html;
use crate::page::preprocess_page;
use crate::page::preprocessed;
use crate::page::sanitized_html;
use crate::page::spec_title;
use crate::paths::char_count;
use crate::paths::count_char;
use crate::paths::join_path;
use crate::paths::spec_join;
use crate::paths::spec_starts_with;
use crate::paths::strip_prefix;
use crate::sequencer::SequencedPage;

verus! {

broadcast use vstd::seq::group_seq_axioms;

/// One entry of a pre-order walk over a revision's tree: the entry's parent
/// path (empty at the top, possibly with a trailing separator), the entry's
/// own name, and whether it is a file rather than a directory.
pub struct TreeWalkEntry {
    pub parent: String,
    pub name: String,
    pub is_blob: bool,
}

/// Mathematical value of a [`TreeWalkEntry`].
#[verifier::ext_equal]
pub ghost struct TreeWalkEntryModel {
    pub parent: Seq<char>,
    pub name: Seq<char>,
    pub is_blob: bool,
}

impl View for TreeWalkEntry {
    type V = TreeWalkEntryModel;

    open spec fn view(&self) -> TreeWalkEntryModel {
        TreeWalkEntryModel { parent: self.parent@, name: self.name@, is_blob: self.is_blob }
    }
}

/// The models of a walk, in traversal order.
pub open spec fn walk_view(entries: Seq<TreeWalkEntry>) -> Seq<TreeWalkEntryModel> {
    entries.map_values(|e: TreeWalkEntry| e@)
}

/// The full path of a walked entry.
pub open spec fn walk_entry_path(e: TreeWalkEntryModel) -> Seq<char> {
    spec_join(e.parent, e.name)
}

/// Does the entry lie below the workspace root?
pub open spec fn entry_in_workspace(e: TreeWalkEntryModel) -> bool {
    spec_starts_with(walk_entry_path(e), "workspace/"@)
}

/// Depth of a walked entry, counted so that the workspace root itself has
/// depth 0 and its direct entries have depth 1: the number of separators in
/// the entry's path.
pub open spec fn walk_entry_depth(e: TreeWalkEntryModel) -> int {
    count_char(walk_entry_path(e), '/')
}

/// The outline entry a walked workspace entry produces; files carry their
/// workspace-relative path.
pub open spec fn walk_entry_outline(e: TreeWalkEntryModel) -> OutlineEntry {
    let p = walk_entry_path(e);
    if e.is_blob {
        OutlineEntry::FileEntry {
            name: e.name,
            path: p.subrange("workspace/"@.len() as int, p.len() as int),
            depth: walk_entry_depth(e),
        }
    } else {
        OutlineEntry::Dir { name: e.name, depth: walk_entry_depth(e) }
    }
}

/// The outline entries of a whole walk: its workspace entries, in order.
pub open spec fn outline_entries(es: Seq<TreeWalkEntryModel>) -> Seq<OutlineEntry>
    decreases es.len(),
{
    if es.len() == 0 {
        Seq::empty()
    } else {
        outline_entries(es.subrange(0, es.len() - 1)) + if entry_in_workspace(
            es[es.len() - 1],
        ) {
            seq![walk_entry_outline(es[es.len() - 1])]
        } else {
            Seq::empty()
        }
    }
}

/// A workspace entry fits the outline open at builder state `m`: it opens
/// no level that no directory has opened (its depth is at most one below
/// the cursor) and its depth stays in machine range.
pub open spec fn walk_step_ok(m: BuilderModel, e: TreeWalkEntryModel) -> bool {
    entry_in_workspace(e) ==> 1 <= walk_entry_depth(e) <= m.depth + 1 && walk_entry_depth(e)
        <= i32::MAX
}

/// The walk is a valid pre-order traversal of a workspace tree: every entry
/// fits the outline its predecessors left open.
pub open spec fn spec_walk_valid(es: Seq<TreeWalkEntryModel>) -> bool
    decreases es.len(),
{
    if es.len() == 0 {
        true
    } else {
        let front = es.subrange(0, es.len() - 1);
        spec_walk_valid(front) && walk_step_ok(
            run_model(initial_builder(), outline_entries(front)),
            es[es.len() - 1],
        )
    }
}

proof fn lemma_walk_valid_prefix(es: Seq<TreeWalkEntryModel>, k: int)
    requires
        spec_walk_valid(es),
        0 <= k <= es.len(),
    ensures
        spec_walk_valid(es.subrange(0, k)),
    decreases es.len(),
{
    if k == es.len() {
        assert(es.subrange(0, k) =~= es);
    } else {
        let front = es.subrange(0, es.len() - 1);
        assert(front.subrange(0, k) =~= es.subrange(0, k));
        lemma_walk_valid_prefix(front, k);
    }
}

/// A walk entry at a depth with no open parent directory: the walk is not a
/// valid pre-order traversal of a workspace tree.
#[derive(Debug)]
pub struct WalkError {
    pub path: String,
}

/// Traverses the walked entries of a revision's tree and builds the
/// workspace outline: every entry below the workspace root is folded, in
/// order, into a fresh outline builder.
pub fn build_workspace_outline(entries: &Vec<TreeWalkEntry>) -> (r: Result<Directory, WalkError>)
    ensures
        ({
            let es = walk_view(entries@);
            &&& (r is Ok <==> spec_walk_valid(es))
            &&& r matches Ok(root) ==> root@ == finish_model(
                run_model(initial_builder(), outline_entries(es)),
            )
            &&& r matches Err(w) ==> exists|i: int|
                0 <= i < es.len() && spec_walk_valid(es.subrange(0, i)) && !walk_step_ok(
                    run_model(initial_builder(), outline_entries(es.subrange(0, i))),
                    #[trigger] es[i],
                ) && w.path@ == walk_entry_path(es[i])
        }),
{
    let ghost es = walk_view(entries@);
    let mut builder = WorkspaceOutlineBuilder::new();
    let mut i: usize = 0;
    proof {
        assert(es.subrange(0, 0) =~= Seq::<TreeWalkEntryModel>::empty());
    }
    while i < entries.len()
        invariant
            i <= entries.len(),
            es == walk_view(entries@),
            es.len() == entries@.len(),
            builder.wf(),
            spec_walk_valid(es.subrange(0, i as int)),
            builder@ == run_model(initial_builder(), outline_entries(es.subrange(0, i as int))),
        decreases entries.len() - i,
    {
        let ghost em = es[i as int];
        let ghost front = es.subrange(0, i as int);
        let ghost m = builder@;
        proof {
            assert(es.subrange(0, i as int + 1).subrange(0, i as int) =~= front);
            assert(es.subrange(0, i as int + 1)[i as int] == em);
        }
        let e = &entries[i];
        let path = join_path(e.parent.as_str(), e.name.as_str());
        proof {
            assert(path@ == walk_entry_path(em));
        }
        match strip_prefix(path.as_str(), "workspace/") {
            Some(rel) => {
                let depth_count = char_count(path.as_str(), '/');
                proof {
                    assert(depth_count == walk_entry_depth(em));
                }
                if depth_count > (i32::MAX as usize) {
                proof {
                    assert(entry_in_workspace(em));
                    assert(!walk_step_ok(m, em));
                    if spec_walk_valid(es) {
                        lemma_walk_valid_prefix(es, i as int + 1);
                        let upto = es.subrange(0, i as int + 1);
                        assert(upto.subrange(0, upto.len() - 1) =~= front);
                        assert(upto[upto.len() - 1] == em);
                        assert(walk_step_ok(m, em));
                        assert(false);
                    }
                    assert(es.subrange(0, i as int) == front);
                }
                    return Err(WalkError { path });
                }
                let depth = depth_count as i32;
                if depth < 1 || depth - 1 > builder.depth() {
                proof {
                    assert(entry_in_workspace(em));
                    assert(!walk_step_ok(m, em));
                    if spec_walk_valid(es) {
                        lemma_walk_valid_prefix(es, i as int + 1);
                        let upto = es.subrange(0, i as int + 1);
                        assert(upto.subrange(0, upto.len() - 1) =~= front);
                        assert(upto[upto.len() - 1] == em);
                        assert(walk_step_ok(m, em));
                        assert(false);
                    }
                    assert(es.subrange(0, i as int) == front);
                }
                    return Err(WalkError { path });
                }
                let rel_owned = rel.to_owned();
                if e.is_blob {
                    builder.push_file(e.name.clone(), rel_owned, depth);
                } else {
                    builder.push_dir(e.name.clone(), depth);
                }
                proof {
                    assert(builder@ == step_model(m, walk_entry_outline(em)));
                    assert(outline_entries(es.subrange(0, i as int + 1)) =~= outline_entries(
                        front,
                    ) + seq![walk_entry_outline(em)]);
                    lemma_run_concat(
                        initial_builder(),
                        outline_entries(front),
                        seq![walk_entry_outline(em)],
                    );
                    lemma_run_one(m, walk_entry_outline(em));
                }
            },
            None => {
                proof {
                    assert(outline_entries(es.subrange(0, i as int + 1)) =~= outline_entries(
                        front,
                    ));
                }
            },
        }
        i = i + 1;
    }
    proof {
        assert(es.subrange(0, es.len() as int) =~= es);
    }
    Ok(builder.finish())
}

/// Why one step could not be projected.
#[derive(Debug)]
pub enum ProjectError {
    /// The page preprocessor rejected the page; carries the collaborator's
    /// message, wrapped with the step's code for attribution.
    Preprocess { code: String, message: String },
    /// The revision's workspace walk is not a valid pre-order traversal;
    /// carries the offending entry's path, wrapped with the step's code.
    InvalidWalk { code: String, path: String },
}

/// Projects one sequenced step to the full per-page context: the page's
/// number, title, code, preprocessed and rendered content, workspace
/// outline, and previous/next navigation resolved against the final index —
/// the index of the complete guide, so links are never partial.
pub fn project_step(
    step: &SequencedPage,
    index: &Index,
    base_url: &str,
    workspace_entries: &Vec<TreeWalkEntry>,
) -> (r: Result<PageContext, ProjectError>)
    requires
        step@.sequence_number < index@.len(),
        index@.len() + 1 <= i64::MAX,
    ensures
        ({
            let num = step@.sequence_number;
            let es = walk_view(workspace_entries@);
            &&& (r is Ok <==> preprocessed(base_url@, step@.text) is Some && spec_walk_valid(es))
            &&& r matches Ok(pc) ==> {
                &&& pc@.number == num
                &&& pc@.title == spec_title(step@.text)
                &&& pc@.code == index@[num].code
                &&& match preprocessed(base_url@, step@.text) {
                    Some(t) => pc@.content == sanitized_html(markdown_html(t)),
                    None => false,
                }
                &&& pc@.workspace == finish_model(
                    run_model(initial_builder(), outline_entries(es)),
                )
                &&& pc@.previous_page_code == (if num > 0 {
                    Some(index@[num - 1].code)
                } else {
                    None::<Seq<char>>
                })
                &&& pc@.next_page_code == (if num + 1 < index@.len() {
                    Some(index@[num + 1].code)
                } else {
                    None::<Seq<char>>
                })
            }
            &&& r matches Err(ProjectError::Preprocess { code, message }) ==> preprocessed(
                base_url@,
                step@.text,
            ) is None && code@ == index@[num].code
            &&& r matches Err(ProjectError::InvalidWalk { code, path }) ==> !spec_walk_valid(es)
                && code@ == index@[num].code
        }),
{
    let num = step.sequence_number;
    let code = index.entries[num].code.clone();
    let title = extract_title(step.text.as_str());
    let content = match preprocess_page(base_url, step.text.as_str()) {
        Ok(t) => markdown_to_html(t.as_str()),
        Err(message) => {
            return Err(ProjectError::Preprocess { code, message });
        },
    };
    let workspace = match build_workspace_outline(workspace_entries) {
        Ok(root) => root,
        Err(w) => {
            return Err(ProjectError::InvalidWalk { code, path: w.path });
        },
    };
    let pos = num as i64;
    let previous_page_code = match index.lookup_by_position(pos - 1) {
        Some(e) => Some(e.code.clone()),
        None => None,
    };
    let next_page_code = match index.lookup_by_position(pos + 1) {
        Some(e) => Some(e.code.clone()),
        None => None,
    };
    Ok(
        PageContext {
            number: num,
            title,
            code,
            content,
            workspace,
            previous_page_code,
            next_page_code,
        },
    )
}

/// The per-page context of the one unsaved page, previewed before it is
/// saved: it is numbered 0, published under the fixed code `preview`, and
/// carries no navigation links.
pub fn preview_page_context(
    page_text: &str,
    base_url: &str,
    workspace_entries: &Vec<TreeWalkEntry>,
) -> (r: Result<PageContext, ProjectError>)
    ensures
        ({
            let es = walk_view(workspace_entries@);
            &&& (r is Ok <==> preprocessed(base_url@, page_text@) is Some && spec_walk_valid(es))
            &&& r matches Ok(pc) ==> {
                &&& pc@.number == 0
                &&& pc@.title == spec_title(page_text@)
                &&& pc@.code == "preview"@
                &&& match preprocessed(base_url@, page_text@) {
                    Some(t) => pc@.content == sanitized_html(markdown_html(t)),
                    None => false,
                }
                &&& pc@.workspace == finish_model(
                    run_model(initial_builder(), outline_entries(es)),
                )
                &&& pc@.previous_page_code is None
                &&& pc@.next_page_code is None
            }
            &&& r matches Err(ProjectError::Preprocess { code, message }) ==> preprocessed(
                base_url@,
                page_text@,
            ) is None && code@ == "preview"@
            &&& r matches Err(ProjectError::InvalidWalk { code, path }) ==> !spec_walk_valid(es)
                && code@ == "preview"@
        }),
{
    let code = String::from_str("preview");
    let title = extract_title(page_text);
    let content = match preprocess_page(base_url, page_text) {
        Ok(t) => markdown_to_html(t.as_str()),
        Err(message) => {
            return Err(ProjectError::Preprocess { code, message });
        },
    };
    let workspace = match build_workspace_outline(workspace_entries) {
        Ok(root) => root,
        Err(w) => {
            return Err(ProjectError::InvalidWalk { code, path: w.path });
        },
    };
    Ok(
        PageContext {
            number: 0,
            title,
            code,
            content,
            workspace,
            previous_page_code: None,
            next_page_code: None,
        },
    )
}

} // verus!
