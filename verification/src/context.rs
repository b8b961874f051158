//! Data passed to the front-end: the guide's index, per-page data, and the
//! workspace outline tree.
pub mod guide;
pub mod index;
pub mod page;
pub mod workspace;

pub use guide::GuideContext;
pub use index::{Index, IndexEntry};
pub use page::PageContext;
pub use workspace::{Directory, File, WorkspaceOutlineBuilder};

use vstd::prelude::*;

verus! {

/// The whole context handed to the template renderer for one page.
pub struct GlobalContext<'a> {
    pub page: &'a PageContext,
    pub guide: &'a GuideContext,
}

} // verus!
