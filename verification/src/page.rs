//! Page handling: markdown rendering and sanitizing, title extraction,
//! page preprocessing through the template collaborator, slug derivation,
//! and detection of the one unsaved page among working-tree status entries.
use vstd::prelude::*;

use crate::paths::path_file_name;
use crate::paths::spec_ends_with;
use crate::paths::spec_file_name;
use crate::paths::spec_join;
use crate::paths::strip_suffix;
use crate::sequencer::spec_is_page_path;
use crate::sequencer::is_page_path;

verus! {

broadcast use vstd::seq::group_seq_axioms;

/// The HTML the markdown renderer produces for a text.
pub uninterp spec fn markdown_html(s: Seq<char>) -> Seq<char>;

/// The sanitized form of an HTML fragment.
pub uninterp spec fn sanitized_html(s: Seq<char>) -> Seq<char>;

/// Renders markdown to raw, unsanitized HTML.
///
/// Relies on pulldown_cmark's `Parser::new_ext` (all extensions enabled) and
/// `html::push_html`: the produced HTML depends on the markdown text alone.
#[verifier::external_body]
fn render_markdown(markdown: &str) -> (r: String)
    ensures
        r@ == markdown_html(markdown@),
{
    let parser = pulldown_cmark::Parser::new_ext(markdown, pulldown_cmark::Options::all());
    let mut out = String::new();
    pulldown_cmark::html::push_html(&mut out, parser);
    out
}

/// Sanitizes an HTML fragment.
///
/// Relies on ammonia's `clean`: the sanitized HTML depends on the input
/// alone.
#[verifier::external_body]
fn clean_html(html: &str) -> (r: String)
    ensures
        r@ == sanitized_html(html@),
{
    ammonia::clean(html)
}

/// Converts markdown to sanitized html.
pub fn markdown_to_html(markdown: &str) -> (r: String)
    ensures
        r@ == sanitized_html(markdown_html(markdown@)),
{
    let page_html_unsafe = render_markdown(markdown);
    clean_html(page_html_unsafe.as_str())
}

/// One markdown event, reduced to what title extraction inspects: a heading
/// opening or closing, or text flowing.
pub enum MdEvent {
    HeadingStart,
    HeadingEnd,
    Text(String),
    Other,
}

/// Mathematical value of an [`MdEvent`].
#[verifier::ext_equal]
pub ghost enum MdEventModel {
    HeadingStart,
    HeadingEnd,
    Text(Seq<char>),
    Other,
}

impl View for MdEvent {
    type V = MdEventModel;

    open spec fn view(&self) -> MdEventModel {
        match self {
            MdEvent::HeadingStart => MdEventModel::HeadingStart,
            MdEvent::HeadingEnd => MdEventModel::HeadingEnd,
            MdEvent::Text(t) => MdEventModel::Text(t@),
            MdEvent::Other => MdEventModel::Other,
        }
    }
}

/// The markdown event stream of a page, reduced for title extraction.
pub uninterp spec fn md_events(page: Seq<char>) -> Seq<MdEventModel>;

/// The markdown events of a page, reduced to the variants title extraction
/// inspects.
///
/// Relies on pulldown_cmark's `Parser::new_ext` (all extensions enabled):
/// the event stream depends on the page text alone; each event is converted
/// to one variant, moving only the text.
#[verifier::external_body]
fn markdown_events(page: &str) -> (r: Vec<MdEvent>)
    ensures
        r@.map_values(|e: MdEvent| e@) == md_events(page@),
{
    let parser = pulldown_cmark::Parser::new_ext(page, pulldown_cmark::Options::all());
    parser.map(|event| match event {
        pulldown_cmark::Event::Start(pulldown_cmark::Tag::Heading { .. }) => MdEvent::HeadingStart,
        pulldown_cmark::Event::End(pulldown_cmark::TagEnd::Heading(_)) => MdEvent::HeadingEnd,
        pulldown_cmark::Event::Text(text) => MdEvent::Text(text.to_string()),
        _ => MdEvent::Other,
    }).collect()
}

/// The first text inside a heading, scanning the events in order;
/// `"Untitled"` when no heading text arrives.
pub open spec fn spec_title_from(events: Seq<MdEventModel>, in_heading: bool) -> Seq<char>
    decreases events.len(),
{
    if events.len() == 0 {
        "Untitled"@
    } else {
        let rest = events.subrange(1, events.len() as int);
        match events[0] {
            MdEventModel::HeadingStart => spec_title_from(rest, true),
            MdEventModel::HeadingEnd => spec_title_from(rest, false),
            MdEventModel::Text(t) => if in_heading {
                t
            } else {
                spec_title_from(rest, in_heading)
            },
            MdEventModel::Other => spec_title_from(rest, in_heading),
        }
    }
}

/// The title of a page: the first heading text its markdown holds, or the
/// fixed placeholder when there is none.
pub open spec fn spec_title(page: Seq<char>) -> Seq<char> {
    spec_title_from(md_events(page), false)
}

/// Extracts the first title found in markdown's syntax; a page without one
/// is "Untitled".
pub fn extract_title(page: &str) -> (r: String)
    ensures
        r@ == spec_title(page@),
{
    let events = markdown_events(page);
    let ghost evs = events@.map_values(|e: MdEvent| e@);
    proof {
        assert(evs == md_events(page@));
    }
    let mut in_heading = false;
    let mut i: usize = 0;
    proof {
        assert(evs.subrange(0, evs.len() as int) =~= evs);
    }
    while i < events.len()
        invariant
            i <= events.len(),
            evs == events@.map_values(|e: MdEvent| e@),
            evs.len() == events@.len(),
            evs == md_events(page@),
            spec_title_from(evs, false) == spec_title_from(
                evs.subrange(i as int, evs.len() as int),
                in_heading,
            ),
        decreases events.len() - i,
    {
        let ghost here = evs.subrange(i as int, evs.len() as int);
        proof {
            assert(here[0] == evs[i as int]);
            assert(here.subrange(1, here.len() as int) =~= evs.subrange(
                i as int + 1,
                evs.len() as int,
            ));
        }
        match &events[i] {
            MdEvent::HeadingStart => {
                in_heading = true;
            },
            MdEvent::HeadingEnd => {
                in_heading = false;
            },
            MdEvent::Text(text) => {
                if in_heading {
                    proof {
                        assert(here[0] == MdEventModel::Text(text@));
                        assert(spec_title_from(here, true) == text@);
                    }
                    return text.clone();
                }
            },
            MdEvent::Other => {},
        }
        i = i + 1;
    }
    proof {
        assert(evs.subrange(evs.len() as int, evs.len() as int) =~= Seq::<MdEventModel>::empty());
    }
    String::from_str("Untitled")
}

/// The absolute URL of one of the guide's static resources: the base URL,
/// one separator, the fixed public prefix, then the resource's path with a
/// single leading `/` dropped.
pub open spec fn spec_static_resource_url(base_url: Seq<char>, path: Seq<char>) -> Seq<char> {
    let base = if base_url.len() > 0 && base_url[base_url.len() - 1] == '/' {
        base_url
    } else {
        base_url + seq!['/']
    };
    let rel = if path.len() > 0 && path[0] == '/' {
        path.subrange(1, path.len() as int)
    } else {
        path
    };
    base + "public/user/"@ + rel
}

/// The URL a page's `static_resource` template function resolves to.
pub fn static_resource_url(base_url: &str, path: &str) -> (r: String)
    ensures
        r@ == spec_static_resource_url(base_url@, path@),
{
    let mut url = base_url.to_owned();
    let n = base_url.unicode_len();
    if n == 0 || base_url.get_char(n - 1) != '/' {
        url.append("/");
        proof {
            reveal_strlit("/");
            assert(base_url@ + "/"@ =~= base_url@ + seq!['/']);
        }
    }
    url.append("public/user/");
    let m = path.unicode_len();
    if m > 0 && path.get_char(0) == '/' {
        url.append(path.substring_char(1, m));
    } else {
        url.append(path);
    }
    url
}

/// A base URL joined with a fragment, the fragment's single leading `/`
/// dropped first.
pub open spec fn spec_url_join(base_url: Seq<char>, fragment: Seq<char>) -> Seq<char> {
    let rel = if fragment.len() > 0 && fragment[0] == '/' {
        fragment.subrange(1, fragment.len() as int)
    } else {
        fragment
    };
    spec_join(base_url, rel)
}

/// The `url_join` template filter: joins a base URL and a fragment with
/// exactly one separator.
pub fn url_join(base_url: &str, fragment: &str) -> (r: String)
    ensures
        r@ == spec_url_join(base_url@, fragment@),
{
    let m = fragment.unicode_len();
    if m > 0 && fragment.get_char(0) == '/' {
        crate::paths::join_path(base_url, fragment.substring_char(1, m))
    } else {
        crate::paths::join_path(base_url, fragment)
    }
}

/// The text the template collaborator produces when it expands a page as a
/// template with the guide's functions installed; nothing when it rejects
/// the page.
pub uninterp spec fn preprocessed(base_url: Seq<char>, page: Seq<char>) -> Option<Seq<char>>;

/// Expands a page's own template syntax before markdown rendering.
///
/// Relies on minijinja's `Environment::render_str`, with one installed
/// function, `static_resource`, whose value comes from the verified
/// [`static_resource_url`]: the result depends on the base URL and the page
/// text alone, and rendering fails exactly when the collaborator rejects
/// the page. The error carries the collaborator's message.
#[verifier::external_body]
pub fn preprocess_page(base_url: &str, page: &str) -> (r: Result<String, String>)
    ensures
        r is Ok <==> preprocessed(base_url@, page@) is Some,
        r matches Ok(s) ==> preprocessed(base_url@, page@) == Some(s@),
{
    let mut env = minijinja::Environment::new();
    let base = base_url.to_string();
    let static_resource = move |path: String| -> String { static_resource_url(&base, &path) };
    env.add_function("static_resource", static_resource);
    env.render_str(page, ()).map_err(|e| e.to_string())
}

/// The stable slug ("code") of a page: its file name without the page
/// extension.
pub open spec fn spec_page_code(path: Seq<char>) -> Seq<char> {
    let name = spec_file_name(path);
    if spec_ends_with(name, ".md"@) {
        name.subrange(0, name.len() - ".md"@.len())
    } else {
        name
    }
}

/// Derives a page's slug from its path: the file name, its `.md` extension
/// stripped.
pub fn page_code(path: &str) -> (r: String)
    ensures
        r@ == spec_page_code(path@),
{
    let name = path_file_name(path);
    match strip_suffix(name, ".md") {
        Some(stem) => stem.to_owned(),
        None => name.to_owned(),
    }
}

/// One entry of the working tree's status: a path and whether the entry is
/// a newly created, not yet tracked file.
pub struct StatusRecord {
    pub path: String,
    pub is_wt_new: bool,
}

/// Mathematical value of a [`StatusRecord`].
#[verifier::ext_equal]
pub ghost struct StatusModel {
    pub path: Seq<char>,
    pub is_wt_new: bool,
}

impl View for StatusRecord {
    type V = StatusModel;

    open spec fn view(&self) -> StatusModel {
        StatusModel { path: self.path@, is_wt_new: self.is_wt_new }
    }
}

/// The models of a status list, in order.
pub open spec fn statuses_view(statuses: Seq<StatusRecord>) -> Seq<StatusModel> {
    statuses.map_values(|s: StatusRecord| s@)
}

/// Entry `j` is an unsaved page: a newly created file under the pages root
/// with the page extension.
pub open spec fn is_unsaved_page(statuses: Seq<StatusModel>, j: int) -> bool {
    &&& 0 <= j < statuses.len()
    &&& statuses[j].is_wt_new
    &&& spec_is_page_path(statuses[j].path)
}

/// Finds the unsaved page among the working tree's status entries.
///
/// Returns its path; `None` when no entry is an unsaved page; and the
/// indices of the first two candidates when several are — never a silently
/// chosen one.
pub fn find_unsaved_page(statuses: &Vec<StatusRecord>) -> (r: Result<
    Option<String>,
    (usize, usize),
>)
    ensures
        ({
            let sv = statuses_view(statuses@);
            &&& r matches Ok(None) ==> forall|j: int| !is_unsaved_page(sv, j)
            &&& r matches Ok(Some(p)) ==> (exists|j: int| is_unsaved_page(sv, j)) && forall|j: int|
                is_unsaved_page(sv, j) ==> p@ == sv[j].path
            &&& r matches Err(pair) ==> pair.0 < pair.1 && is_unsaved_page(sv, pair.0 as int)
                && is_unsaved_page(sv, pair.1 as int)
            &&& (r is Err <==> exists|j1: int, j2: int|
                j1 != j2 && is_unsaved_page(sv, j1) && is_unsaved_page(sv, j2))
        }),
{
    let ghost sv = statuses_view(statuses@);
    let mut found: Option<usize> = None;
    let mut k: usize = 0;
    while k < statuses.len()
        invariant
            k <= statuses.len(),
            sv == statuses_view(statuses@),
            sv.len() == statuses@.len(),
            found matches Some(i) ==> i < k && is_unsaved_page(sv, i as int),
            found matches Some(i) ==> forall|j: int| 0 <= j < k && is_unsaved_page(sv, j) ==> j
                == i as int,
            found is None ==> forall|j: int| 0 <= j < k ==> !is_unsaved_page(sv, j),
        decreases statuses.len() - k,
    {
        if statuses[k].is_wt_new && is_page_path(statuses[k].path.as_str()) {
            assert(is_unsaved_page(sv, k as int));
            match found {
                Some(i) => {
                    return Err((i, k));
                },
                None => {
                    found = Some(k);
                },
            }
        } else {
            assert(!is_unsaved_page(sv, k as int));
        }
        k = k + 1;
    }
    assert(forall|j: int| is_unsaved_page(sv, j) ==> 0 <= j < sv.len());
    match found {
        Some(i) => Ok(Some(statuses[i].path.clone())),
        None => Ok(None),
    }
}

/// The message of the commit that saves a page: the page's title and code,
/// each on its own line.
pub fn commit_message(title: &str, code: &str) -> (r: String)
    ensures
        r@ == "Add page: "@ + title@ + "\nCode: "@ + code@,
{
    let mut out = String::from_str("Add page: ");
    out.append(title);
    out.append("\nCode: ");
    out.append(code);
    out
}

} // verus!
