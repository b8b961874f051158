//! Per-page data passed to the front-end.
use vstd::prelude::*;

use crate::context::workspace::Directory;
use crate::context::workspace::DirectoryModel;

verus! {

/// Context used to pass a page's data to the front-end.
pub struct PageContext {
    pub number: usize,
    pub title: String,
    pub code: String,
    pub content: String,
    pub workspace: Directory,
    pub previous_page_code: Option<String>,
    pub next_page_code: Option<String>,
}

/// Mathematical value of a [`PageContext`].
#[verifier::ext_equal]
pub ghost struct PageContextModel {
    pub number: int,
    pub title: Seq<char>,
    pub code: Seq<char>,
    pub content: Seq<char>,
    pub workspace: DirectoryModel,
    pub previous_page_code: Option<Seq<char>>,
    pub next_page_code: Option<Seq<char>>,
}

impl View for PageContext {
    type V = PageContextModel;

    open spec fn view(&self) -> PageContextModel {
        PageContextModel {
            number: self.number as int,
            title: self.title@,
            code: self.code@,
            content: self.content@,
            workspace: self.workspace@,
            previous_page_code: match self.previous_page_code {
                Some(ref c) => Some(c@),
                None => None,
            },
            next_page_code: match self.next_page_code {
                Some(ref c) => Some(c@),
                None => None,
            },
        }
    }
}

} // verus!
