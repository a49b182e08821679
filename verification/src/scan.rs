//! Rebuilding the catalog from what lies under the root of a disk resolver:
//! area directories, in them category directories, in them item directories.
//!
//! A scan passes over hidden entries. Any other entry that is a plain file,
//! or whose name is not written as its level demands, ends the scan as
//! invalid; so does an area, a category or an item that the catalog refuses.

use vstd::prelude::*;

use crate::disk::DiskResolver;
use crate::error::Error;
use crate::index::{Index, IndexModel};
use crate::naming::{
    hidden_text, is_hidden, parse_area_name, parse_area_text, parse_category_name,
    parse_category_text, parse_item_name, parse_item_text,
};

verus! {

/// An entry of the directory of a category.
#[derive(Debug)]
pub struct ItemEntry {
    pub name: String,
    pub is_dir: bool,
}

/// An entry of the directory of an area, with the entries found in it where
/// it is a directory.
#[derive(Debug)]
pub struct CategoryEntry {
    pub name: String,
    pub is_dir: bool,
    pub items: Vec<ItemEntry>,
}

/// An entry of the root directory, with the entries found in it where it is a
/// directory.
#[derive(Debug)]
pub struct AreaEntry {
    pub name: String,
    pub is_dir: bool,
    pub categories: Vec<CategoryEntry>,
}

/// How far a scan has come: the catalog so far, and what ended the scan if it
/// has ended early.
pub struct ScanModel {
    pub index: IndexModel,
    pub refusal: Option<Error>,
}

impl ScanModel {
    /// A scan that has not ended, over the given catalog.
    pub open spec fn start(index: IndexModel) -> ScanModel {
        ScanModel { index, refusal: None }
    }

    /// The scan ended by the refusal `e`; the catalog stays as it is.
    pub open spec fn refused(self, e: Error) -> ScanModel {
        ScanModel { index: self.index, refusal: Some(e) }
    }

    /// What the scan returns.
    pub open spec fn outcome(self) -> Result<(), Error> {
        match self.refusal {
            Some(e) => Err(e),
            None => Ok(()),
        }
    }
}

/// The scan after one entry of the directory of the category `category_id`.
pub open spec fn scan_item(state: ScanModel, entry: ItemEntry, category_id: usize) -> ScanModel {
    if state.refusal is Some || hidden_text(entry.name@) {
        state
    } else if !entry.is_dir {
        state.refused(Error::Validation)
    } else {
        match parse_item_text(entry.name@, category_id) {
            Some(item) => match state.index.import_item(item) {
                Ok(index) => ScanModel::start(index),
                Err(e) => state.refused(e),
            },
            None => state.refused(Error::Validation),
        }
    }
}

/// The scan after the first `n` entries of the directory of a category.
pub open spec fn scan_items(state: ScanModel, entries: Seq<ItemEntry>, category_id: usize, n: int) -> ScanModel
    decreases n,
{
    if n <= 0 {
        state
    } else {
        scan_item(scan_items(state, entries, category_id, n - 1), entries[n - 1], category_id)
    }
}

/// The scan after one entry of the directory of the area with the given
/// bounds, the entries below it included.
pub open spec fn scan_category(state: ScanModel, entry: CategoryEntry, bounds: (usize, usize)) -> ScanModel {
    if state.refusal is Some || hidden_text(entry.name@) {
        state
    } else if !entry.is_dir {
        state.refused(Error::Validation)
    } else {
        match parse_category_text(entry.name@, bounds) {
            Some((id, name)) => match state.index.create_category(id, name) {
                Ok(index) => scan_items(
                    ScanModel::start(index),
                    entry.items@,
                    id,
                    entry.items@.len() as int,
                ),
                Err(e) => state.refused(e),
            },
            None => state.refused(Error::Validation),
        }
    }
}

/// The scan after the first `n` entries of the directory of an area.
pub open spec fn scan_categories(
    state: ScanModel,
    entries: Seq<CategoryEntry>,
    bounds: (usize, usize),
    n: int,
) -> ScanModel
    decreases n,
{
    if n <= 0 {
        state
    } else {
        scan_category(scan_categories(state, entries, bounds, n - 1), entries[n - 1], bounds)
    }
}

/// The scan after one entry of the root directory, the entries below it
/// included.
pub open spec fn scan_area(state: ScanModel, entry: AreaEntry) -> ScanModel {
    if state.refusal is Some || hidden_text(entry.name@) {
        state
    } else if !entry.is_dir {
        state.refused(Error::Validation)
    } else {
        match parse_area_text(entry.name@) {
            Some((bounds, name)) => match state.index.create_area(bounds, name) {
                Ok(index) => scan_categories(
                    ScanModel::start(index),
                    entry.categories@,
                    bounds,
                    entry.categories@.len() as int,
                ),
                Err(e) => state.refused(e),
            },
            None => state.refused(Error::Validation),
        }
    }
}

/// The scan after the first `n` entries of the root directory.
pub open spec fn scan_areas(state: ScanModel, entries: Seq<AreaEntry>, n: int) -> ScanModel
    decreases n,
{
    if n <= 0 {
        state
    } else {
        scan_area(scan_areas(state, entries, n - 1), entries[n - 1])
    }
}

/// A scan of item entries that has ended early stays as it ended.
pub proof fn lemma_scan_items_ended(
    state: ScanModel,
    entries: Seq<ItemEntry>,
    category_id: usize,
    m: int,
    n: int,
)
    requires
        0 <= m <= n,
        scan_items(state, entries, category_id, m).refusal is Some,
    ensures
        scan_items(state, entries, category_id, n) == scan_items(state, entries, category_id, m),
    decreases n,
{
    if m < n {
        lemma_scan_items_ended(state, entries, category_id, m, n - 1);
    }
}

/// A scan of category entries that has ended early stays as it ended.
pub proof fn lemma_scan_categories_ended(
    state: ScanModel,
    entries: Seq<CategoryEntry>,
    bounds: (usize, usize),
    m: int,
    n: int,
)
    requires
        0 <= m <= n,
        scan_categories(state, entries, bounds, m).refusal is Some,
    ensures
        scan_categories(state, entries, bounds, n) == scan_categories(state, entries, bounds, m),
    decreases n,
{
    if m < n {
        lemma_scan_categories_ended(state, entries, bounds, m, n - 1);
    }
}

/// A scan of area entries that has ended early stays as it ended.
pub proof fn lemma_scan_areas_ended(state: ScanModel, entries: Seq<AreaEntry>, m: int, n: int)
    requires
        0 <= m <= n,
        scan_areas(state, entries, m).refusal is Some,
    ensures
        scan_areas(state, entries, n) == scan_areas(state, entries, m),
    decreases n,
{
    if m < n {
        lemma_scan_areas_ended(state, entries, m, n - 1);
    }
}

impl DiskResolver {
    /// Imports the items found in the directory of the category
    /// `category_id`, entry by entry, until one is refused.
    pub fn collect_category(&self, entries: &Vec<ItemEntry>, category_id: usize, index: &mut Index) -> (r:
        Result<(), Error>)
        ensures
            ({
                let end = scan_items(
                    ScanModel::start(old(index)@),
                    entries@,
                    category_id,
                    entries@.len() as int,
                );
                final(index)@ == end.index && r == end.outcome()
            }),
    {
        let ghost start = ScanModel::start(index@);
        let n = entries.len();
        let mut i: usize = 0;
        while i < n
            invariant
                i <= n,
                n == entries@.len(),
                start == ScanModel::start(old(index)@),
                scan_items(start, entries@, category_id, i as int) == ScanModel::start(index@),
            decreases n - i,
        {
            let entry = &entries[i];
            let ghost before = ScanModel::start(index@);
            let step: Result<(), Error> = if is_hidden(entry.name.as_str()) {
                Ok(())
            } else if !entry.is_dir {
                Err(Error::Validation)
            } else {
                match parse_item_name(entry.name.as_str(), category_id) {
                    Ok(item) => match index.import_item(item) {
                        Ok(_) => Ok(()),
                        Err(e) => Err(e),
                    },
                    Err(e) => Err(e),
                }
            };
            match step {
                Ok(()) => {},
                Err(e) => {
                    proof {
                        assert(scan_items(start, entries@, category_id, i + 1) == before.refused(e));
                        lemma_scan_items_ended(start, entries@, category_id, i + 1, n as int);
                    }
                    return Err(e);
                },
            }
            i += 1;
        }
        Ok(())
    }

    /// Creates the categories found in the directory of the area with the
    /// given bounds and imports their items, entry by entry, until one is
    /// refused.
    pub fn collect_area(
        &self,
        entries: &Vec<CategoryEntry>,
        bounds: (usize, usize),
        index: &mut Index,
    ) -> (r: Result<(), Error>)
        ensures
            ({
                let end = scan_categories(
                    ScanModel::start(old(index)@),
                    entries@,
                    bounds,
                    entries@.len() as int,
                );
                final(index)@ == end.index && r == end.outcome()
            }),
    {
        let ghost start = ScanModel::start(index@);
        let n = entries.len();
        let mut i: usize = 0;
        while i < n
            invariant
                i <= n,
                n == entries@.len(),
                start == ScanModel::start(old(index)@),
                scan_categories(start, entries@, bounds, i as int) == ScanModel::start(index@),
            decreases n - i,
        {
            let entry = &entries[i];
            let ghost before = ScanModel::start(index@);
            let step: Result<(), Error> = if is_hidden(entry.name.as_str()) {
                Ok(())
            } else if !entry.is_dir {
                Err(Error::Validation)
            } else {
                match parse_category_name(entry.name.as_str(), bounds) {
                    Ok((id, name)) => {
                        let created = match index.create_category(id, name) {
                            Ok(_) => Ok(()),
                            Err(e) => Err(e),
                        };
                        match created {
                            Ok(()) => self.collect_category(&entry.items, id, index),
                            Err(e) => Err(e),
                        }
                    },
                    Err(e) => Err(e),
                }
            };
            match step {
                Ok(()) => {},
                Err(e) => {
                    proof {
                        assert(scan_categories(start, entries@, bounds, i + 1).refusal == Some(e));
                        assert(scan_categories(start, entries@, bounds, i + 1).index == index@);
                        lemma_scan_categories_ended(start, entries@, bounds, i + 1, n as int);
                    }
                    return Err(e);
                },
            }
            i += 1;
        }
        Ok(())
    }

    /// Creates the areas found in the root directory, their categories and
    /// their items, entry by entry, until one is refused. What was created
    /// before a refusal stays in the catalog.
    pub fn collect(&self, entries: &Vec<AreaEntry>, index: &mut Index) -> (r: Result<(), Error>)
        ensures
            ({
                let end = scan_areas(ScanModel::start(old(index)@), entries@, entries@.len() as int);
                final(index)@ == end.index && r == end.outcome()
            }),
    {
        let ghost start = ScanModel::start(index@);
        let n = entries.len();
        let mut i: usize = 0;
        while i < n
            invariant
                i <= n,
                n == entries@.len(),
                start == ScanModel::start(old(index)@),
                scan_areas(start, entries@, i as int) == ScanModel::start(index@),
            decreases n - i,
        {
            let entry = &entries[i];
            let ghost before = ScanModel::start(index@);
            let step: Result<(), Error> = if is_hidden(entry.name.as_str()) {
                Ok(())
            } else if !entry.is_dir {
                Err(Error::Validation)
            } else {
                match parse_area_name(entry.name.as_str()) {
                    Ok((bounds, name)) => {
                        let created = match index.create_area(bounds, name.as_str()) {
                            Ok(_) => Ok(()),
                            Err(e) => Err(e),
                        };
                        match created {
                            Ok(()) => self.collect_area(&entry.categories, bounds, index),
                            Err(e) => Err(e),
                        }
                    },
                    Err(e) => Err(e),
                }
            };
            match step {
                Ok(()) => {},
                Err(e) => {
                    proof {
                        assert(scan_areas(start, entries@, i + 1).refusal == Some(e));
                        assert(scan_areas(start, entries@, i + 1).index == index@);
                        lemma_scan_areas_ended(start, entries@, i + 1, n as int);
                    }
                    return Err(e);
                },
            }
            i += 1;
        }
        Ok(())
    }
}

} // verus!
