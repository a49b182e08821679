//! Uploading a directory tree to the object store: what is written into the
//! metadata of each record, and the order in which the tree is walked.
//!
//! The record of a directory must exist before anything below it is
//! uploaded, because a child names the record of its parent. The walk keeps
//! a stack of entries still to visit, each with the identifier of the record
//! of its parent; the entries of a directory are put on the stack only once
//! the record of that directory has been made.

use vstd::prelude::*;
use vstd::string::*;

use crate::item::{format_id, Item, ItemModel};

verus! {

/// Whether a record stands for a file or for a directory.
#[derive(Clone, Copy, Debug, PartialEq, Eq, Structural)]
pub enum BlobKind {
    File,
    Directory,
}

/// What is written into the metadata of a record.
#[derive(Debug)]
pub struct BlobMeta {
    pub name: String,
    pub kind: BlobKind,
    pub parent: Option<String>,
    pub size: Option<u64>,
    pub tags: Vec<String>,
    pub metadata: Vec<(String, String)>,
}

/// The metadata of a record as a value.
pub struct BlobMetaModel {
    pub name: Seq<char>,
    pub kind: BlobKind,
    pub parent: Option<Seq<char>>,
    pub size: Option<u64>,
    pub tags: Seq<Seq<char>>,
    pub metadata: Seq<(Seq<char>, Seq<char>)>,
}

impl View for BlobMeta {
    type V = BlobMetaModel;

    open spec fn view(&self) -> BlobMetaModel {
        BlobMetaModel {
            name: self.name@,
            kind: self.kind,
            parent: match self.parent {
                Some(p) => Some(p@),
                None => None,
            },
            size: self.size,
            tags: Seq::new(self.tags@.len(), |i: int| self.tags@[i]@),
            metadata: Seq::new(
                self.metadata@.len(),
                |i: int| (self.metadata@[i].0@, self.metadata@[i].1@),
            ),
        }
    }
}

/// The metadata of the record that stands for an item: a directory under the
/// name of the item, which carries the identifier of the item under `jd_id`.
pub open spec fn root_meta(item: ItemModel) -> BlobMetaModel {
    BlobMetaModel {
        name: item.name,
        kind: BlobKind::Directory,
        parent: None,
        size: None,
        tags: Seq::empty(),
        metadata: seq![("jd_id"@, format_id(item.id))],
    }
}

/// The metadata of the record of an entry below an item: its name and kind,
/// the record of its parent, its size if it is a file, the tag `jd_item`,
/// and the identifier of the item under `jd_parent_id`.
pub open spec fn entry_meta(
    name: Seq<char>,
    kind: BlobKind,
    parent: Seq<char>,
    size: u64,
    item: ItemModel,
) -> BlobMetaModel {
    BlobMetaModel {
        name,
        kind,
        parent: Some(parent),
        size: if kind == BlobKind::File {
            Some(size)
        } else {
            None
        },
        tags: seq!["jd_item"@],
        metadata: seq![("jd_parent_id"@, format_id(item.id))],
    }
}

impl BlobMeta {
    /// The metadata of the record that stands for `item`.
    pub fn for_item(item: &Item) -> (r: BlobMeta)
        ensures
            r@ == root_meta(item@),
    {
        let mut metadata: Vec<(String, String)> = Vec::new();
        metadata.push(("jd_id".to_owned(), item.id.to_string()));
        let r = BlobMeta {
            name: item.name.clone(),
            kind: BlobKind::Directory,
            parent: None,
            size: None,
            tags: Vec::new(),
            metadata,
        };
        assert(r@.tags =~= root_meta(item@).tags);
        assert(r@.metadata =~= root_meta(item@).metadata);
        r
    }

    /// The metadata of the record of an entry below `item`. `size` counts
    /// only for a file.
    pub fn for_entry(name: &str, kind: BlobKind, parent: &str, size: u64, item: &Item) -> (r:
        BlobMeta)
        ensures
            r@ == entry_meta(name@, kind, parent@, size, item@),
    {
        let mut tags: Vec<String> = Vec::new();
        tags.push("jd_item".to_owned());
        let mut metadata: Vec<(String, String)> = Vec::new();
        metadata.push(("jd_parent_id".to_owned(), item.id.to_string()));
        let size = match kind {
            BlobKind::File => Some(size),
            BlobKind::Directory => None,
        };
        let r = BlobMeta {
            name: name.to_owned(),
            kind,
            parent: Some(parent.to_owned()),
            size,
            tags,
            metadata,
        };
        assert(r@.tags =~= entry_meta(name@, kind, parent@, size.unwrap_or(0), item@).tags);
        assert(r@.metadata =~= entry_meta(
            name@,
            kind,
            parent@,
            size.unwrap_or(0),
            item@,
        ).metadata);
        r
    }
}

/// What a stack of entries holds: for each, the identifier of the record of
/// its parent and its path.
pub open spec fn pending_model(pending: Seq<(String, String)>) -> Seq<(Seq<char>, Seq<char>)> {
    Seq::new(pending.len(), |i: int| (pending[i].0@, pending[i].1@))
}

/// The entries at `paths`, each below the record `parent`.
pub open spec fn children_of(parent: Seq<char>, paths: Seq<String>) -> Seq<(Seq<char>, Seq<char>)> {
    Seq::new(paths.len(), |i: int| (parent, paths[i]@))
}

/// The walk over a directory tree that is being uploaded.
pub struct Upload {
    pending: Vec<(String, String)>,
    created: Ghost<Set<Seq<char>>>,
}

impl Upload {
    /// Every entry on the stack names a parent whose record exists.
    #[verifier::type_invariant]
    pub closed spec fn inv(self) -> bool {
        forall|i: int|
            0 <= i < self.pending@.len() ==> self.created@.contains((#[trigger] self.pending@[i]).0@)
    }

    /// The entries still to visit; the last is visited next.
    pub closed spec fn pending(&self) -> Seq<(Seq<char>, Seq<char>)> {
        pending_model(self.pending@)
    }

    /// The identifiers of the records that are known to exist.
    pub closed spec fn created(&self) -> Set<Seq<char>> {
        self.created@
    }

    /// Every entry still to visit lies below a record that exists.
    pub proof fn lemma_parents_created(self)
        requires
            self.inv(),
        ensures
            forall|i: int|
                0 <= i < self.pending().len() ==> self.created().contains(
                    (#[trigger] self.pending()[i]).0,
                ),
    {
        assert forall|i: int| 0 <= i < self.pending().len() implies self.created().contains(
            (#[trigger] self.pending()[i]).0,
        ) by {
            assert(self.created@.contains(self.pending@[i].0@));
        }
    }

    /// The walk over the entries `children` of the directory of an item,
    /// whose record `root_id` has been made.
    pub fn new(root_id: String, children: Vec<String>) -> (r: Upload)
        ensures
            r.pending() == children_of(root_id@, children@),
            r.created() == Set::<Seq<char>>::empty().insert(root_id@),
    {
        let mut pending: Vec<(String, String)> = Vec::new();
        let n = children.len();
        let mut i: usize = 0;
        while i < n
            invariant
                i <= n,
                n == children@.len(),
                pending@.len() == i,
                forall|j: int|
                    0 <= j < i ==> (#[trigger] pending@[j]).0@ == root_id@ && pending@[j].1@
                        == children@[j]@,
            decreases n - i,
        {
            pending.push((root_id.clone(), children[i].clone()));
            i += 1;
        }
        let ghost target = children_of(root_id@, children@);
        let r = Upload { pending, created: Ghost(Set::<Seq<char>>::empty().insert(root_id@)) };
        assert(r.pending() =~= target);
        r
    }

    /// Whether nothing is left to visit.
    pub fn is_done(&self) -> (r: bool)
        ensures
            r == (self.pending().len() == 0),
    {
        self.pending.len() == 0
    }

    /// Takes the entry to visit next: the last that was put on the stack. The
    /// record of its parent exists.
    pub fn next(&mut self) -> (r: Option<(String, String)>)
        ensures
            final(self).created() == old(self).created(),
            match r {
                Some(entry) => {
                    &&& old(self).pending().len() > 0
                    &&& (entry.0@, entry.1@) == old(self).pending().last()
                    &&& final(self).pending() == old(self).pending().drop_last()
                    &&& old(self).created().contains(entry.0@)
                },
                None => old(self).pending().len() == 0 && final(self).pending() == old(
                    self,
                ).pending(),
            },
    {
        proof {
            use_type_invariant(&*self);
        }
        let mut pending: Vec<(String, String)> = Vec::new();
        core::mem::swap(&mut self.pending, &mut pending);
        let ghost before = pending@;
        let r = pending.pop();
        core::mem::swap(&mut self.pending, &mut pending);
        proof {
            if before.len() > 0 {
                assert(self.pending() =~= pending_model(before).drop_last());
            } else {
                assert(self.pending() =~= pending_model(before));
            }
        }
        r
    }

    /// Records that the record `directory_id` of a directory has been made,
    /// and puts the entries `children` of that directory on the stack.
    pub fn descend(&mut self, directory_id: String, children: Vec<String>)
        ensures
            final(self).pending() == old(self).pending() + children_of(directory_id@, children@),
            final(self).created() == old(self).created().insert(directory_id@),
    {
        proof {
            use_type_invariant(&*self);
        }
        let ghost before = self.pending@;
        let ghost known = self.created@;
        let mut pending: Vec<(String, String)> = Vec::new();
        core::mem::swap(&mut self.pending, &mut pending);
        self.created = Ghost(known.insert(directory_id@));
        let n = children.len();
        let mut i: usize = 0;
        while i < n
            invariant
                i <= n,
                n == children@.len(),
                pending@.len() == before.len() + i,
                forall|j: int| 0 <= j < before.len() ==> pending@[j] == before[j],
                forall|j: int|
                    0 <= j < i ==> (#[trigger] pending@[before.len() + j]).0@ == directory_id@
                        && pending@[before.len() + j].1@ == children@[j]@,
            decreases n - i,
        {
            pending.push((directory_id.clone(), children[i].clone()));
            i += 1;
        }
        proof {
            assert forall|j: int| 0 <= j < pending@.len() implies known.insert(
                directory_id@,
            ).contains((#[trigger] pending@[j]).0@) by {
                if j < before.len() {
                    assert(known.contains(before[j].0@));
                } else {
                    assert(pending@[before.len() + (j - before.len())].0@ == directory_id@);
                }
            }
        }
        let ghost filled = pending@;
        core::mem::swap(&mut self.pending, &mut pending);
        proof {
            let target = pending_model(before) + children_of(directory_id@, children@);
            assert(self.pending().len() == target.len());
            assert forall|k: int| 0 <= k < target.len() implies self.pending()[k] == target[k] by {
                if k >= before.len() {
                    let j = k - before.len();
                    assert(filled[before.len() + j].0@ == directory_id@);
                }
            }
            assert(self.pending() =~= target);
        }
    }
}

} // verus!
