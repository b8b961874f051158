//! Revision sequencing: replaying a linear commit history, oldest first,
//! into the ordered list of page build steps.
//!
//! Every revision's tree is compared with its predecessor's; a revision that
//! introduces exactly one new page document becomes one step, a revision
//! that introduces none is skipped (but still advances the comparison
//! baseline), and a revision that introduces several is a construction
//! error.
use vstd::prelude::*;

use vstd::utf8::decode_utf8;
use vstd::utf8::valid_utf8;

use crate::paths::path_file_name;
use crate::paths::spec_ends_with;
use crate::paths::spec_file_name;
use crate::paths::spec_starts_with;
use crate::paths::str_ends_with;
use crate::paths::str_starts_with;

verus! {

broadcast use vstd::seq::group_seq_axioms;

/// One file of a revision's tree: its path relative to the repository root,
/// and its raw content.
pub struct TreeFile {
    pub path: String,
    pub content: Vec<u8>,
}

/// Mathematical value of a [`TreeFile`].
#[verifier::ext_equal]
pub ghost struct TreeFileModel {
    pub path: Seq<char>,
    pub content: Seq<u8>,
}

impl View for TreeFile {
    type V = TreeFileModel;

    open spec fn view(&self) -> TreeFileModel {
        TreeFileModel { path: self.path@, content: self.content@ }
    }
}

/// The models of a tree's files, in order.
pub open spec fn tree_view(files: Seq<TreeFile>) -> Seq<TreeFileModel> {
    files.map_values(|f: TreeFile| f@)
}

/// One revision of the history: its identifier and its full tree.
pub struct RevisionRecord {
    pub id: String,
    pub files: Vec<TreeFile>,
}

/// Mathematical value of a [`RevisionRecord`].
#[verifier::ext_equal]
pub ghost struct RevisionModel {
    pub id: Seq<char>,
    pub files: Seq<TreeFileModel>,
}

impl View for RevisionRecord {
    type V = RevisionModel;

    open spec fn view(&self) -> RevisionModel {
        RevisionModel { id: self.id@, files: tree_view(self.files@) }
    }
}

/// The models of a revision list, oldest first.
pub open spec fn revs_view(revs: Seq<RevisionRecord>) -> Seq<RevisionModel> {
    revs.map_values(|r: RevisionRecord| r@)
}

/// Is `p` the path of a page document: directly or indirectly under the
/// `pages` root, carrying the `.md` extension on a nonempty file name stem.
pub open spec fn spec_is_page_path(p: Seq<char>) -> bool {
    &&& spec_starts_with(p, "pages/"@)
    &&& spec_ends_with(p, ".md"@)
    &&& spec_file_name(p).len() > ".md"@.len()
}

/// Does `path` name a page document?
pub fn is_page_path(path: &str) -> (r: bool)
    ensures
        r == spec_is_page_path(path@),
{
    proof {
        reveal_strlit(".md");
    }
    str_starts_with(path, "pages/") && str_ends_with(path, ".md") && path_file_name(
        path,
    ).unicode_len() > 3
}

/// Some file of `files` has exactly the path `p`.
pub open spec fn contains_path(files: Seq<TreeFileModel>, p: Seq<char>) -> bool {
    exists|j: int| 0 <= j < files.len() && files[j].path == p
}

fn tree_contains_path(files: &Vec<TreeFile>, path: &String) -> (r: bool)
    ensures
        r == contains_path(tree_view(files@), path@),
{
    let mut j: usize = 0;
    while j < files.len()
        invariant
            j <= files.len(),
            forall|t: int| 0 <= t < j ==> tree_view(files@)[t].path != path@,
        decreases files.len() - j,
    {
        if files[j].path.eq(path) {
            assert(tree_view(files@)[j as int].path == path@);
            return true;
        }
        j = j + 1;
    }
    false
}

/// File `j` of `cur` is a newly added page document relative to `prev`:
/// a page path that `prev` does not contain.
pub open spec fn is_new_page(prev: Seq<TreeFileModel>, cur: Seq<TreeFileModel>, j: int) -> bool {
    &&& 0 <= j < cur.len()
    &&& spec_is_page_path(cur[j].path)
    &&& !contains_path(prev, cur[j].path)
}

/// Finds the page document newly added between two consecutive trees.
///
/// Returns the index in `cur` of the one new page; `None` when the revision
/// adds no page; and the indices of the first two candidates when it adds
/// more than one — never a silently chosen single page.
pub fn find_new_page(prev: &Vec<TreeFile>, cur: &Vec<TreeFile>) -> (r: Result<
    Option<usize>,
    (usize, usize),
>)
    ensures
        ({
            let pv = tree_view(prev@);
            let cv = tree_view(cur@);
            &&& r matches Ok(None) ==> forall|j: int| !is_new_page(pv, cv, j)
            &&& r matches Ok(Some(i)) ==> is_new_page(pv, cv, i as int) && forall|j: int|
                is_new_page(pv, cv, j) ==> j == i as int
            &&& r matches Err(p) ==> p.0 < p.1 && is_new_page(pv, cv, p.0 as int) && is_new_page(
                pv,
                cv,
                p.1 as int,
            )
            &&& (r is Err <==> exists|j1: int, j2: int|
                j1 != j2 && is_new_page(pv, cv, j1) && is_new_page(pv, cv, j2))
        }),
{
    let ghost pv = tree_view(prev@);
    let ghost cv = tree_view(cur@);
    let mut found: Option<usize> = None;
    let mut k: usize = 0;
    while k < cur.len()
        invariant
            k <= cur.len(),
            pv == tree_view(prev@),
            cv == tree_view(cur@),
            cv.len() == cur@.len(),
            found matches Some(i) ==> i < k && is_new_page(pv, cv, i as int),
            found matches Some(i) ==> forall|j: int| 0 <= j < k && is_new_page(pv, cv, j) ==> j
                == i as int,
            found is None ==> forall|j: int| 0 <= j < k ==> !is_new_page(pv, cv, j),
        decreases cur.len() - k,
    {
        if is_page_path(cur[k].path.as_str()) && !tree_contains_path(prev, &cur[k].path) {
            assert(is_new_page(pv, cv, k as int));
            match found {
                Some(i) => {
                    return Err((i, k));
                },
                None => {
                    found = Some(k);
                },
            }
        } else {
            assert(!is_new_page(pv, cv, k as int));
        }
        k = k + 1;
    }
    assert(forall|j: int| is_new_page(pv, cv, j) ==> 0 <= j < cv.len());
    Ok(found)
}

/// The tree a revision is compared against: its predecessor's, or the empty
/// tree before the first revision, where every file counts as added.
pub open spec fn prev_files(revs: Seq<RevisionModel>, i: int) -> Seq<TreeFileModel> {
    if i == 0 {
        Seq::empty()
    } else {
        revs[i - 1].files
    }
}

/// Revision `i` introduces more than one new page document.
pub open spec fn multiple_new_pages_at(revs: Seq<RevisionModel>, i: int) -> bool {
    exists|j1: int, j2: int|
        j1 != j2 && is_new_page(prev_files(revs, i), revs[i].files, j1) && is_new_page(
            prev_files(revs, i),
            revs[i].files,
            j2,
        )
}

/// Revision `i` introduces exactly one new page document: it emits a step.
pub open spec fn qualifying(revs: Seq<RevisionModel>, i: int) -> bool {
    (exists|j: int| is_new_page(prev_files(revs, i), revs[i].files, j)) && !multiple_new_pages_at(
        revs,
        i,
    )
}

/// Revision `i` introduces exactly one new page document, but its bytes are
/// not valid text.
pub open spec fn undecodable_page_at(revs: Seq<RevisionModel>, i: int) -> bool {
    qualifying(revs, i) && exists|j: int|
        is_new_page(prev_files(revs, i), revs[i].files, j) && !valid_utf8(revs[i].files[j].content)
}

/// Revision `i` aborts the build: several new pages in one revision, or a
/// new page whose content is not text.
pub open spec fn bad_revision(revs: Seq<RevisionModel>, i: int) -> bool {
    multiple_new_pages_at(revs, i) || undecodable_page_at(revs, i)
}

/// The indices of the qualifying revisions among the first `n`, ascending.
pub open spec fn qualifying_indices(revs: Seq<RevisionModel>, n: int) -> Seq<int>
    decreases n,
{
    if n <= 0 {
        Seq::empty()
    } else if qualifying(revs, n - 1) {
        qualifying_indices(revs, n - 1).push(n - 1)
    } else {
        qualifying_indices(revs, n - 1)
    }
}

/// The qualifying indices are exactly the qualifying revisions, in ancestry
/// order: each lies in `[0, n)` and qualifies, they ascend strictly, and no
/// qualifying revision is missed.
pub proof fn lemma_qualifying_indices_characterize(revs: Seq<RevisionModel>, n: int)
    ensures
        ({
            let q = qualifying_indices(revs, n);
            &&& forall|k: int| 0 <= k < q.len() ==> 0 <= #[trigger] q[k] < n && qualifying(revs, q[k])
            &&& forall|k1: int, k2: int| 0 <= k1 < k2 < q.len() ==> q[k1] < q[k2]
            &&& forall|i: int| 0 <= i < n && qualifying(revs, i) ==> exists|k: int|
                0 <= k < q.len() && #[trigger] q[k] == i
        }),
    decreases n,
{
    if n > 0 {
        lemma_qualifying_indices_characterize(revs, n - 1);
        let q0 = qualifying_indices(revs, n - 1);
        let q = qualifying_indices(revs, n);
        assert forall|i: int| 0 <= i < n && qualifying(revs, i) implies exists|k: int|
            0 <= k < q.len() && #[trigger] q[k] == i by {
            if i < n - 1 {
                let k0 = choose|k: int| 0 <= k < q0.len() && #[trigger] q0[k] == i;
                assert(q[k0] == i);
            } else {
                assert(q[q.len() - 1] == i);
            }
        }
    }
}

/// One step of the guide: the `sequence_number`-th revision that introduces
/// exactly one new page document, with the page's path and decoded text.
pub struct SequencedPage {
    pub sequence_number: usize,
    pub revision_index: usize,
    pub path: String,
    pub text: String,
}

/// Mathematical value of a [`SequencedPage`].
#[verifier::ext_equal]
pub ghost struct SequencedPageModel {
    pub sequence_number: int,
    pub revision_index: int,
    pub path: Seq<char>,
    pub text: Seq<char>,
}

impl View for SequencedPage {
    type V = SequencedPageModel;

    open spec fn view(&self) -> SequencedPageModel {
        SequencedPageModel {
            sequence_number: self.sequence_number as int,
            revision_index: self.revision_index as int,
            path: self.path@,
            text: self.text@,
        }
    }
}

/// Why a history cannot be sequenced. Both cases name the offending
/// revision so the author can mend the history.
#[derive(Debug)]
pub enum SequenceError {
    /// A revision introduced more than one new page document; pages are
    /// expected to be introduced one at a time.
    MultipleNewPages { revision_index: usize, revision: String },
    /// The revision's one new page document holds bytes that are not valid
    /// text.
    InvalidPageText { revision_index: usize, revision: String, path: String },
}

/// Step `k` of the output corresponds to qualifying revision `i`: it carries
/// sequence number `k`, revision index `i`, and the path and decoded text of
/// that revision's one new page document.
pub open spec fn step_matches(
    revs: Seq<RevisionModel>,
    s: SequencedPageModel,
    k: int,
    i: int,
) -> bool {
    &&& s.sequence_number == k
    &&& s.revision_index == i
    &&& forall|j: int|
        is_new_page(prev_files(revs, i), revs[i].files, j) ==> s.path == revs[i].files[j].path
            && s.text == decode_utf8(revs[i].files[j].content)
}

/// Decodes raw bytes as text.
///
/// Relies on std's `String::from_utf8`: it returns precisely the character
/// sequence whose UTF-8 encoding is `bytes`, and fails exactly when `bytes`
/// is not valid UTF-8.
#[verifier::external_body]
fn decode_text(bytes: &Vec<u8>) -> (r: Option<String>)
    ensures
        r is Some <==> valid_utf8(bytes@),
        r matches Some(s) ==> s@ == decode_utf8(bytes@),
{
    match String::from_utf8(bytes.clone()) {
        Ok(s) => Some(s),
        Err(_) => None,
    }
}

/// Walks the revisions oldest first and emits one step for every revision
/// that introduces exactly one new page document, numbered densely and
/// consecutively from 0 in ancestry order.
///
/// A revision that introduces no page is skipped and does not advance the
/// numbering, but later diffs still compare against it. A revision that
/// introduces several pages, or one whose page is not valid text, aborts
/// the whole walk with an error naming the first such revision.
pub fn sequence_revisions(revs: &Vec<RevisionRecord>) -> (r: Result<
    Vec<SequencedPage>,
    SequenceError,
>)
    ensures
        ({
            let rm = revs_view(revs@);
            let q = qualifying_indices(rm, rm.len() as int);
            &&& (r is Ok <==> (forall|i: int| 0 <= i < rm.len() ==> !bad_revision(rm, i)))
            &&& r matches Ok(steps) ==> steps@.len() == q.len() && forall|k: int|
                0 <= k < q.len() ==> step_matches(rm, #[trigger] steps@[k]@, k, q[k])
            &&& r matches Err(SequenceError::MultipleNewPages { revision_index, revision })
                ==> multiple_new_pages_at(rm, revision_index as int) && revision@
                == rm[revision_index as int].id && (forall|i: int|
                0 <= i < revision_index ==> !bad_revision(rm, i))
            &&& r matches Err(SequenceError::InvalidPageText { revision_index, revision, path })
                ==> undecodable_page_at(rm, revision_index as int) && revision@
                == rm[revision_index as int].id && (forall|i: int|
                0 <= i < revision_index ==> !bad_revision(rm, i)) && (forall|j: int|
                is_new_page(prev_files(rm, revision_index as int), rm[revision_index as int].files, j)
                    ==> path@ == rm[revision_index as int].files[j].path)
        }),
{
    let ghost rm = revs_view(revs@);
    let empty: Vec<TreeFile> = Vec::new();
    let mut steps: Vec<SequencedPage> = Vec::new();
    let mut i: usize = 0;
    proof {
        assert(tree_view(empty@) =~= Seq::<TreeFileModel>::empty());
    }
    while i < revs.len()
        invariant
            i <= revs.len(),
            rm == revs_view(revs@),
            rm.len() == revs@.len(),
            tree_view(empty@) == Seq::<TreeFileModel>::empty(),
            forall|t: int| 0 <= t < i ==> !bad_revision(rm, t),
            steps@.len() == qualifying_indices(rm, i as int).len(),
            steps@.len() <= i,
            forall|k: int|
                0 <= k < steps@.len() ==> step_matches(
                    rm,
                    #[trigger] steps@[k]@,
                    k,
                    qualifying_indices(rm, i as int)[k],
                ),
        decreases revs.len() - i,
    {
        let ghost pf = prev_files(rm, i as int);
        let ghost cf = rm[i as int].files;
        let prev: &Vec<TreeFile> = if i == 0 {
            &empty
        } else {
            &revs[i - 1].files
        };
        proof {
            assert(tree_view(prev@) == pf);
            assert(tree_view(revs[i as int].files@) == cf);
        }
        match find_new_page(prev, &revs[i].files) {
            Err(_) => {
                proof {
                    assert(multiple_new_pages_at(rm, i as int));
                    assert(bad_revision(rm, i as int));
                    assert(rm[i as int].id == revs@[i as int].id@);
                }
                return Err(
                    SequenceError::MultipleNewPages {
                        revision_index: i,
                        revision: revs[i].id.clone(),
                    },
                );
            },
            Ok(None) => {
                proof {
                    assert(!multiple_new_pages_at(rm, i as int));
                    assert(!qualifying(rm, i as int));
                    assert(qualifying_indices(rm, i as int + 1) == qualifying_indices(
                        rm,
                        i as int,
                    ));
                }
            },
            Ok(Some(idx)) => {
                proof {
                    assert(is_new_page(pf, cf, idx as int));
                    assert(qualifying(rm, i as int));
                    assert(qualifying_indices(rm, i as int + 1) == qualifying_indices(
                        rm,
                        i as int,
                    ).push(i as int));
                }
                match decode_text(&revs[i].files[idx].content) {
                    None => {
                        proof {
                            assert(undecodable_page_at(rm, i as int));
                            assert(bad_revision(rm, i as int));
                            assert(rm[i as int].id == revs@[i as int].id@);
                            assert(forall|j: int| is_new_page(pf, cf, j) ==> j == idx as int);
                            assert(rm[i as int].files == cf);
                        }
                        return Err(
                            SequenceError::InvalidPageText {
                                revision_index: i,
                                revision: revs[i].id.clone(),
                                path: revs[i].files[idx].path.clone(),
                            },
                        );
                    },
                    Some(text) => {
                        proof {
                            assert(!undecodable_page_at(rm, i as int));
                        }
                        let sp = SequencedPage {
                            sequence_number: steps.len(),
                            revision_index: i,
                            path: revs[i].files[idx].path.clone(),
                            text,
                        };
                        steps.push(sp);
                    },
                }
            },
        }
        i = i + 1;
    }
    Ok(steps)
}

} // verus!
