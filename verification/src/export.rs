//! Pure naming rules of the export step: which stylesheet sources are
//! compiled, where a compiled stylesheet lands, and how an exported
//! workspace file's rendered companion is named. The file writes themselves
//! are the caller's concern.
use vstd::prelude::*;

use crate::paths::last_index_of;
use crate::paths::lemma_last_index_skip;
use crate::paths::path_file_name;
use crate::paths::spec_ends_with;
use crate::paths::spec_file_name;
use crate::paths::str_ends_with;

verus! {

broadcast use vstd::seq::group_seq_axioms;

/// Is `p` a stylesheet source to compile: a `.scss` file with a nonempty
/// name stem that is not a partial (one whose name begins with `_`).
pub open spec fn spec_is_sass_candidate(p: Seq<char>) -> bool {
    let name = spec_file_name(p);
    &&& spec_ends_with(name, ".scss"@)
    &&& name.len() > ".scss"@.len()
    &&& name[0] != '_'
}

/// Does `path` name a stylesheet source to compile?
pub fn is_sass_candidate(path: &str) -> (r: bool)
    ensures
        r == spec_is_sass_candidate(path@),
{
    proof {
        reveal_strlit(".scss");
    }
    let name = path_file_name(path);
    str_ends_with(name, ".scss") && name.unicode_len() > 5 && name.get_char(0) != '_'
}

/// `p` with its extension replaced by `ext`: everything from the last `.`
/// of the file name on is replaced, or `.ext` is appended when the name has
/// no extension (no `.` after its first character).
pub open spec fn spec_with_extension(p: Seq<char>, ext: Seq<char>) -> Seq<char> {
    let name = spec_file_name(p);
    let d = last_index_of(name, '.');
    if d >= 1 {
        p.subrange(0, p.len() - name.len() + d) + seq!['.'] + ext
    } else {
        p + seq!['.'] + ext
    }
}

/// Replaces `path`'s extension with `ext`, or appends `.ext` when the file
/// name has none; compiled stylesheets keep their place with a `css`
/// extension this way.
pub fn with_extension(path: &str, ext: &str) -> (r: String)
    ensures
        r@ == spec_with_extension(path@, ext@),
{
    let name = path_file_name(path);
    let m = path.unicode_len();
    let n = name.unicode_len();
    proof {
        crate::paths::lemma_last_index_bounds(path@, '/');
        assert(n <= m);
    }
    let mut i: usize = n;
    while i > 1
        invariant
            1 <= i <= n || (n <= 1 && i == n),
            n == name@.len(),
            m == path@.len(),
            n <= m,
            name@ == spec_file_name(path@),
            forall|j: int| i <= j < n ==> name@[j] != '.',
        decreases i,
    {
        if name.get_char(i - 1) == '.' {
            proof {
                lemma_last_index_skip(name@, i as int, '.');
                assert(name@.subrange(0, i as int)[i - 1] == name@[i - 1]);
                assert(last_index_of(name@, '.') == i - 1);
            }
            let mut out = path.substring_char(0, m - n + (i - 1)).to_owned();
            crate::html::push_char(&mut out, '.');
            out.append(ext);
            return out;
        }
        i = i - 1;
    }
    proof {
        lemma_last_index_skip(name@, i as int, '.');
        crate::paths::lemma_last_index_bounds(name@.subrange(0, i as int), '.');
        assert(last_index_of(name@, '.') < 1);
    }
    let mut out = path.to_owned();
    crate::html::push_char(&mut out, '.');
    out.append(ext);
    out
}

/// The name of the rendered companion of an exported workspace file: the
/// file's path with `.html` appended after its extension.
pub fn html_companion_path(path: &str) -> (r: String)
    ensures
        r@ == path@ + ".html"@,
{
    let mut out = path.to_owned();
    out.append(".html");
    out
}

} // verus!
