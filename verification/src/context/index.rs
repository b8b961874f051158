//! The guide's index: an ordered, append-only registry mapping each page's
//! stable slug ("code") to its display title. The order is set at creation
//! time — insertion order is guide order — and is never changed.
use vstd::prelude::*;

verus! {

/// One page of the guide's index: its display title and its stable slug.
#[derive(Clone)]
pub struct IndexEntry {
    pub name: String,
    pub code: String,
}

/// Mathematical value of an [`IndexEntry`].
#[verifier::ext_equal]
pub ghost struct IndexEntryModel {
    pub name: Seq<char>,
    pub code: Seq<char>,
}

impl View for IndexEntry {
    type V = IndexEntryModel;

    open spec fn view(&self) -> IndexEntryModel {
        IndexEntryModel { name: self.name@, code: self.code@ }
    }
}

/// A structure used to hold a guide's index.
///
/// This structure is used to create the file that contains the guide's index
/// and also to pass the guide's index to the front-end.
#[derive(Clone)]
pub struct Index {
    pub entries: Vec<IndexEntry>,
}

impl View for Index {
    type V = Seq<IndexEntryModel>;

    open spec fn view(&self) -> Seq<IndexEntryModel> {
        self.entries@.map_values(|e: IndexEntry| e@)
    }
}

impl Default for Index {
    /// An empty index: the valid state of a guide before its first page.
    fn default() -> (r: Self)
        ensures
            r@ == Seq::<IndexEntryModel>::empty(),
    {
        let r = Index { entries: Vec::new() };
        proof {
            assert(r@ =~= Seq::<IndexEntryModel>::empty());
        }
        r
    }
}

impl Index {
    /// Appends an entry at the end of the index; existing positions are
    /// never disturbed.
    pub fn append(&mut self, entry: IndexEntry)
        ensures
            final(self)@ == old(self)@.push(entry@),
    {
        let ghost e0 = entry@;
        self.entries.push(entry);
        proof {
            assert(final(self)@ =~= old(self)@.push(e0));
        }
    }

    /// Number of pages in the index.
    pub fn len(&self) -> (r: usize)
        ensures
            r == self@.len(),
    {
        self.entries.len()
    }

    /// The entry at `position`, or nothing when `position` lies outside
    /// `[0, len)` — in particular for `-1` and for `len`, the positions the
    /// previous/next links of the first and last page ask about.
    pub fn lookup_by_position(&self, position: i64) -> (r: Option<&IndexEntry>)
        ensures
            r is Some <==> 0 <= position < self@.len(),
            r matches Some(e) ==> e@ == self@[position as int],
    {
        if position < 0 {
            None
        } else {
            let p = position as u64;
            if p < self.entries.len() as u64 {
                let idx = p as usize;
                Some(&self.entries[idx])
            } else {
                None
            }
        }
    }
}

} // verus!
