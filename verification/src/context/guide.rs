//! Guide-wide data passed to the front-end.
use vstd::prelude::*;

use crate::context::index::Index;

verus! {

/// Context used to pass a guide's data to the front-end.
pub struct GuideContext {
    pub index: Index,
    pub base_url: String,
}

} // verus!
