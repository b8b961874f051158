//! Path handling: string-level path operations (paths are `/`-separated
//! relative or absolute names) and the fixed layout of a project directory.
use vstd::prelude::*;

verus! {

broadcast use vstd::seq::group_seq_axioms;

/// `s` begins with `prefix`.
pub open spec fn spec_starts_with(s: Seq<char>, prefix: Seq<char>) -> bool {
    prefix.len() <= s.len() && s.subrange(0, prefix.len() as int) == prefix
}

/// `s` ends with `suffix`.
pub open spec fn spec_ends_with(s: Seq<char>, suffix: Seq<char>) -> bool {
    suffix.len() <= s.len() && s.subrange(s.len() - suffix.len(), s.len() as int) == suffix
}

/// How many times `c` occurs in `s`.
pub open spec fn count_char(s: Seq<char>, c: char) -> int
    decreases s.len(),
{
    if s.len() == 0 {
        0
    } else {
        count_char(s.subrange(0, s.len() - 1), c) + if s[s.len() - 1] == c {
            1int
        } else {
            0int
        }
    }
}

/// Index of the last occurrence of `c` in `s`, or `-1` when `s` holds none.
pub open spec fn last_index_of(s: Seq<char>, c: char) -> int
    decreases s.len(),
{
    if s.len() == 0 {
        -1
    } else if s[s.len() - 1] == c {
        s.len() - 1
    } else {
        last_index_of(s.subrange(0, s.len() - 1), c)
    }
}

/// Index of the last `/` in `s`, or `-1` when `s` holds none.
pub open spec fn last_slash(s: Seq<char>) -> int {
    last_index_of(s, '/')
}

/// The part of `s` after its last `/`: a path's own file name.
pub open spec fn spec_file_name(s: Seq<char>) -> Seq<char> {
    s.subrange(last_slash(s) + 1, s.len() as int)
}

/// `base` and `name` joined with exactly one separator; an empty `base`
/// yields `name` itself.
pub open spec fn spec_join(base: Seq<char>, name: Seq<char>) -> Seq<char> {
    if base.len() == 0 {
        name
    } else if base[base.len() - 1] == '/' {
        base + name
    } else {
        base + seq!['/'] + name
    }
}

pub proof fn lemma_last_index_bounds(s: Seq<char>, c: char)
    ensures
        -1 <= last_index_of(s, c) < s.len(),
        last_index_of(s, c) >= 0 ==> s[last_index_of(s, c)] == c,
    decreases s.len(),
{
    if s.len() > 0 && s[s.len() - 1] != c {
        lemma_last_index_bounds(s.subrange(0, s.len() - 1), c);
    }
}

pub proof fn lemma_last_index_skip(s: Seq<char>, i: int, c: char)
    requires
        0 <= i <= s.len(),
        forall|j: int| i <= j < s.len() ==> s[j] != c,
    ensures
        last_index_of(s, c) == last_index_of(s.subrange(0, i), c),
    decreases s.len() - i,
{
    if i < s.len() {
        assert(s.subrange(0, s.len() - 1).subrange(0, i) =~= s.subrange(0, i));
        lemma_last_index_skip(s.subrange(0, s.len() - 1), i, c);
        assert(s.subrange(0, s.len()as int) =~= s);
    } else {
        assert(s.subrange(0, i) =~= s);
    }
}

/// Does `s` begin with `prefix`?
pub fn str_starts_with(s: &str, prefix: &str) -> (r: bool)
    ensures
        r == spec_starts_with(s@, prefix@),
{
    let n = prefix.unicode_len();
    if s.unicode_len() < n {
        return false;
    }
    let mut i: usize = 0;
    while i < n
        invariant
            i <= n,
            n == prefix@.len(),
            n <= s@.len(),
            forall|j: int| 0 <= j < i ==> s@[j] == prefix@[j],
        decreases n - i,
    {
        if s.get_char(i) != prefix.get_char(i) {
            assert(!spec_starts_with(s@, prefix@)) by {
                assert(s@.subrange(0, n as int)[i as int] == s@[i as int]);
            }
            return false;
        }
        i = i + 1;
    }
    assert(s@.subrange(0, n as int) =~= prefix@);
    true
}

/// Does `s` end with `suffix`?
pub fn str_ends_with(s: &str, suffix: &str) -> (r: bool)
    ensures
        r == spec_ends_with(s@, suffix@),
{
    let n = suffix.unicode_len();
    let m = s.unicode_len();
    if m < n {
        return false;
    }
    let off = m - n;
    let mut i: usize = 0;
    while i < n
        invariant
            i <= n,
            n == suffix@.len(),
            m == s@.len(),
            off == m - n,
            forall|j: int| 0 <= j < i ==> s@[off + j] == suffix@[j],
        decreases n - i,
    {
        if s.get_char(off + i) != suffix.get_char(i) {
            assert(!spec_ends_with(s@, suffix@)) by {
                assert(s@.subrange(off as int, m as int)[i as int] == s@[off + i]);
            }
            return false;
        }
        i = i + 1;
    }
    assert(s@.subrange(off as int, m as int) =~= suffix@);
    true
}

/// The part of `s` before `suffix`, when `s` ends with it.
pub fn strip_suffix<'a>(s: &'a str, suffix: &str) -> (r: Option<&'a str>)
    ensures
        r is Some <==> spec_ends_with(s@, suffix@),
        r matches Some(t) ==> t@ == s@.subrange(0, s@.len() - suffix@.len()),
{
    if str_ends_with(s, suffix) {
        Some(s.substring_char(0, s.unicode_len() - suffix.unicode_len()))
    } else {
        None
    }
}

/// The part of `s` after `prefix`, when `s` begins with it.
pub fn strip_prefix<'a>(s: &'a str, prefix: &str) -> (r: Option<&'a str>)
    ensures
        r is Some <==> spec_starts_with(s@, prefix@),
        r matches Some(t) ==> t@ == s@.subrange(prefix@.len() as int, s@.len() as int),
{
    if str_starts_with(s, prefix) {
        Some(s.substring_char(prefix.unicode_len(), s.unicode_len()))
    } else {
        None
    }
}

/// How many times `c` occurs in `s`.
pub fn char_count(s: &str, c: char) -> (r: usize)
    ensures
        r == count_char(s@, c),
{
    let n = s.unicode_len();
    let mut i: usize = 0;
    let mut cnt: usize = 0;
    while i < n
        invariant
            i <= n,
            n == s@.len(),
            cnt <= i,
            cnt == count_char(s@.subrange(0, i as int), c),
        decreases n - i,
    {
        let ghost pre = s@.subrange(0, i as int + 1);
        proof {
            assert(pre.subrange(0, pre.len() - 1) =~= s@.subrange(0, i as int));
            assert(pre[pre.len() - 1] == s@[i as int]);
        }
        if s.get_char(i) == c {
            cnt = cnt + 1;
        }
        i = i + 1;
    }
    proof {
        assert(s@.subrange(0, n as int) =~= s@);
    }
    cnt
}

/// The path's own file name: everything after the last `/`, or the whole
/// path when it has none.
pub fn path_file_name(s: &str) -> (r: &str)
    ensures
        r@ == spec_file_name(s@),
{
    let n = s.unicode_len();
    let mut i: usize = n;
    while i > 0
        invariant
            0 <= i <= n,
            n == s@.len(),
            forall|j: int| i <= j < n ==> s@[j] != '/',
        decreases i,
    {
        if s.get_char(i - 1) == '/' {
            proof {
                lemma_last_index_skip(s@, i as int, '/');
                assert(s@.subrange(0, i as int)[i - 1] == s@[i - 1]);
                assert(last_slash(s@.subrange(0, i as int)) == i - 1);
            }
            return s.substring_char(i, n);
        }
        i = i - 1;
    }
    proof {
        lemma_last_index_skip(s@, 0, '/');
        assert(s@.subrange(0, 0) =~= Seq::<char>::empty());
        assert(last_slash(s@) == -1);
        assert(s@.subrange(0, n as int) =~= s@);
    }
    s.substring_char(0, n)
}

/// Joins `base` and `name` with exactly one `/`; an empty `base` yields
/// `name` itself.
pub fn join_path(base: &str, name: &str) -> (r: String)
    ensures
        r@ == spec_join(base@, name@),
{
    let n = base.unicode_len();
    if n == 0 {
        return name.to_owned();
    }
    let mut out = base.to_owned();
    if base.get_char(n - 1) != '/' {
        out.append("/");
        proof {
            reveal_strlit("/");
            assert(base@ + "/"@ =~= base@ + seq!['/']);
        }
    }
    out.append(name);
    out
}

/// Mathematical value of [`ProjectPaths`]: each location as a character
/// sequence.
#[verifier::ext_equal]
pub ghost struct ProjectPathsModel {
    pub project: Seq<char>,
    pub codasai: Seq<char>,
    pub pages: Seq<char>,
    pub workspace: Seq<char>,
    pub user_static: Seq<char>,
    pub theme: Seq<char>,
    pub export: Seq<char>,
    pub config_file: Seq<char>,
    pub index_file: Seq<char>,
}

/// The fixed layout of a project, derived from its root directory.
pub open spec fn spec_project_paths(project: Seq<char>) -> ProjectPathsModel {
    let codasai = spec_join(project, ".codasai"@);
    ProjectPathsModel {
        project,
        codasai,
        pages: spec_join(project, "pages"@),
        workspace: spec_join(project, "workspace"@),
        user_static: spec_join(project, "static"@),
        theme: spec_join(codasai, "theme"@),
        export: spec_join(codasai, "export"@),
        config_file: spec_join(codasai, "guide.toml"@),
        index_file: spec_join(codasai, "index.toml"@),
    }
}

/// The well-known locations inside one project directory.
pub struct ProjectPaths {
    project: String,
    codasai: String,
    pages: String,
    workspace: String,
    user_static: String,
    theme: String,
    export: String,
    config_file: String,
    index_file: String,
}

impl View for ProjectPaths {
    type V = ProjectPathsModel;

    closed spec fn view(&self) -> ProjectPathsModel {
        ProjectPathsModel {
            project: self.project@,
            codasai: self.codasai@,
            pages: self.pages@,
            workspace: self.workspace@,
            user_static: self.user_static@,
            theme: self.theme@,
            export: self.export@,
            config_file: self.config_file@,
            index_file: self.index_file@,
        }
    }
}

impl ProjectPaths {
    /// Lays out every location under the given project root directory.
    pub fn new(project: String) -> (r: Self)
        ensures
            r@ == spec_project_paths(project@),
    {
        let codasai = join_path(project.as_str(), ".codasai");
        Self {
            pages: join_path(project.as_str(), "pages"),
            workspace: join_path(project.as_str(), "workspace"),
            user_static: join_path(project.as_str(), "static"),
            theme: join_path(codasai.as_str(), "theme"),
            export: join_path(codasai.as_str(), "export"),
            config_file: join_path(codasai.as_str(), "guide.toml"),
            index_file: join_path(codasai.as_str(), "index.toml"),
            project,
            codasai,
        }
    }

    /// Replaces the export directory with a caller-chosen one.
    pub fn set_export(&mut self, path: String)
        ensures
            final(self)@ == (ProjectPathsModel { export: path@, ..old(self)@ }),
    {
        self.export = path;
    }

    /// Get a reference to the project paths's project.
    pub fn project(&self) -> (r: &String)
        ensures
            r@ == self@.project,
    {
        &self.project
    }

    /// Get a reference to the project paths's codasai.
    pub fn codasai(&self) -> (r: &String)
        ensures
            r@ == self@.codasai,
    {
        &self.codasai
    }

    /// Get a reference to the project paths's pages.
    pub fn pages(&self) -> (r: &String)
        ensures
            r@ == self@.pages,
    {
        &self.pages
    }

    /// Get a reference to the project paths's workspace.
    pub fn workspace(&self) -> (r: &String)
        ensures
            r@ == self@.workspace,
    {
        &self.workspace
    }

    /// Get a reference to the project paths's user static.
    pub fn user_static(&self) -> (r: &String)
        ensures
            r@ == self@.user_static,
    {
        &self.user_static
    }

    /// Get a reference to the project paths's theme.
    pub fn theme(&self) -> (r: &String)
        ensures
            r@ == self@.theme,
    {
        &self.theme
    }

    /// Get a reference to the project paths's export.
    pub fn export(&self) -> (r: &String)
        ensures
            r@ == self@.export,
    {
        &self.export
    }

    /// Get a reference to the project paths's config file.
    pub fn config_file(&self) -> (r: &String)
        ensures
            r@ == self@.config_file,
    {
        &self.config_file
    }

    /// Get a reference to the project paths's index file.
    pub fn index_file(&self) -> (r: &String)
        ensures
            r@ == self@.index_file,
    {
        &self.index_file
    }
}

} // verus!
