//! The resolver that keeps items as directories under a root path, laid out
//! as `<root>/LL-HH Name/CC Name/CC.III Name`.

use vstd::prelude::*;
use vstd::string::*;

use crate::error::Error;
use crate::index::{area_text, category_text, Index, IndexModel};
use crate::item::{item_text, Item, ItemModel};
use crate::location::{
    actions_model, join, joined, Action, ActionModel, Location, LocationModel, Lookup,
    LookupModel,
};
use crate::naming::build_category_name;

verus! {

/// The directory of a category under `root`: the directory of its area, then
/// its own. The category must exist with its area.
pub open spec fn category_path(root: Seq<char>, category: usize, index: IndexModel) -> Result<
    Seq<char>,
    Error,
> {
    match index.area(category) {
        Ok(area) => match area.category(category) {
            Ok(found) => Ok(
                joined(
                    joined(root, area_text(area.bounds, area.name)),
                    category_text(found.id, found.name),
                ),
            ),
            Err(e) => Err(e),
        },
        Err(e) => Err(e),
    }
}

/// The directory of an item under `root`: the directory of its category, then
/// its own.
pub open spec fn item_path(root: Seq<char>, item: ItemModel, index: IndexModel) -> Result<
    Seq<char>,
    Error,
> {
    match category_path(root, item.id.category, index) {
        Ok(directory) => Ok(joined(directory, item_text(item))),
        Err(e) => Err(e),
    }
}

/// Where an item lives on disk: in its directory, provided that the directory
/// of its category exists.
pub open spec fn disk_get(root: Seq<char>, item: ItemModel, index: IndexModel) -> Result<
    LookupModel,
    Error,
> {
    match category_path(root, item.id.category, index) {
        Ok(directory) => Ok(
            LookupModel::IfDirectoryExists {
                directory,
                location: LocationModel::Path(joined(directory, item_text(item))),
            },
        ),
        Err(e) => Err(e),
    }
}

/// The steps that put the content at `source` into the directory of an item:
/// make the directory of the category, then move the source into place. A
/// source that is an address is not supported.
pub open spec fn disk_set(
    root: Seq<char>,
    item: ItemModel,
    source: LocationModel,
    index: IndexModel,
) -> Result<Seq<ActionModel>, Error> {
    match category_path(root, item.id.category, index) {
        Ok(directory) => match source {
            LocationModel::Path(from) => Ok(
                seq![
                    ActionModel::CreateDirAll { path: directory },
                    ActionModel::MoveDir { from, to: joined(directory, item_text(item)) },
                ],
            ),
            LocationModel::URL(_) => Err(Error::Unsupported),
        },
        Err(e) => Err(e),
    }
}

/// The step that removes the directory of an item.
pub open spec fn disk_remove(root: Seq<char>, item: ItemModel, index: IndexModel) -> Result<
    Seq<ActionModel>,
    Error,
> {
    match item_path(root, item, index) {
        Ok(path) => Ok(seq![ActionModel::RemoveDirAll { path }]),
        Err(e) => Err(e),
    }
}

/// The step that moves the directory of a category to the one that its new
/// name implies. The catalog still holds the old name.
pub open spec fn disk_rename_category(
    root: Seq<char>,
    category: usize,
    new_name: Seq<char>,
    index: IndexModel,
) -> Result<Seq<ActionModel>, Error> {
    match category_path(root, category, index) {
        Ok(from) => {
            let area = index.area(category).unwrap();
            Ok(
                seq![
                    ActionModel::MoveDir {
                        from,
                        to: joined(
                            joined(root, area_text(area.bounds, area.name)),
                            category_text(category, new_name),
                        ),
                    },
                ],
            )
        },
        Err(e) => Err(e),
    }
}

/// The step that moves the directory of an item to the one that the item
/// implies under its new name.
pub open spec fn disk_rename_item(
    root: Seq<char>,
    old_item: ItemModel,
    new_item: ItemModel,
    index: IndexModel,
) -> Result<Seq<ActionModel>, Error> {
    match item_path(root, old_item, index) {
        Ok(from) => match item_path(root, new_item, index) {
            Ok(to) => Ok(seq![ActionModel::MoveDir { from, to }]),
            Err(e) => Err(e),
        },
        Err(e) => Err(e),
    }
}

/// A resolver over the directories under one root path.
#[derive(Debug)]
pub struct DiskResolver {
    root_path: String,
}

impl DiskResolver {
    /// The root path of the resolver.
    pub closed spec fn root(&self) -> Seq<char> {
        self.root_path@
    }

    /// The resolver over the directories under `root_path`.
    pub fn new(root_path: String) -> (r: DiskResolver)
        ensures
            r.root() == root_path@,
    {
        DiskResolver { root_path }
    }

    /// The root path of the resolver.
    pub fn root_path(&self) -> (r: &str)
        ensures
            r@ == self.root(),
    {
        self.root_path.as_str()
    }

    /// The directory of a category, which must exist with its area.
    pub fn get_category_path(&self, category: usize, index: &Index) -> (r: Result<String, Error>)
        ensures
            match category_path(self.root(), category, index@) {
                Ok(path) => r matches Ok(found) && found@ == path,
                Err(e) => r matches Err(refusal) && refusal == e,
            },
    {
        let area = match index.get_area_from_category(category) {
            Ok(Some(area)) => area,
            Ok(None) => {
                return Err(Error::NotFound);
            },
            Err(e) => {
                return Err(e);
            },
        };
        let found = match area.get_category(category) {
            Ok(Some(found)) => found,
            Ok(None) => {
                return Err(Error::NotFound);
            },
            Err(e) => {
                return Err(e);
            },
        };
        let area_dir = join(self.root_path.as_str(), area.to_string().as_str());
        Ok(join(area_dir.as_str(), found.to_string().as_str()))
    }

    /// The directory of an item, whose category must exist with its area.
    pub fn get_item_path(&self, item: &Item, index: &Index) -> (r: Result<String, Error>)
        ensures
            match item_path(self.root(), item@, index@) {
                Ok(path) => r matches Ok(found) && found@ == path,
                Err(e) => r matches Err(refusal) && refusal == e,
            },
    {
        match self.get_category_path(item.id.category, index) {
            Ok(directory) => Ok(join(directory.as_str(), item.to_string().as_str())),
            Err(e) => Err(e),
        }
    }

    /// What has to be learnt to say where an item lives.
    pub fn get(&self, item: &Item, index: &Index) -> (r: Result<Lookup, Error>)
        ensures
            match disk_get(self.root(), item@, index@) {
                Ok(lookup) => r matches Ok(found) && found@ == lookup,
                Err(e) => r matches Err(refusal) && refusal == e,
            },
    {
        match self.get_category_path(item.id.category, index) {
            Ok(directory) => {
                let location = Location::Path(join(directory.as_str(), item.to_string().as_str()));
                Ok(Lookup::IfDirectoryExists { directory, location })
            },
            Err(e) => Err(e),
        }
    }

    /// The steps that put the content at `src_location` into the directory of
    /// the item.
    pub fn set(&self, item: &Item, src_location: Location, index: &Index) -> (r: Result<
        Vec<Action>,
        Error,
    >)
        ensures
            match disk_set(self.root(), item@, src_location@, index@) {
                Ok(actions) => r matches Ok(found) && actions_model(found@) == actions,
                Err(e) => r matches Err(refusal) && refusal == e,
            },
    {
        let directory = match self.get_category_path(item.id.category, index) {
            Ok(directory) => directory,
            Err(e) => {
                return Err(e);
            },
        };
        match src_location {
            Location::Path(from) => {
                let to = join(directory.as_str(), item.to_string().as_str());
                let mut actions: Vec<Action> = Vec::new();
                actions.push(Action::CreateDirAll { path: directory });
                actions.push(Action::MoveDir { from, to });
                proof {
                    assert(actions_model(actions@) =~= disk_set(
                        self.root(),
                        item@,
                        src_location@,
                        index@,
                    ).unwrap());
                }
                Ok(actions)
            },
            Location::URL(_) => Err(Error::Unsupported),
        }
    }

    /// The step that removes the directory of the item.
    pub fn remove(&self, item: &Item, index: &Index) -> (r: Result<Vec<Action>, Error>)
        ensures
            match disk_remove(self.root(), item@, index@) {
                Ok(actions) => r matches Ok(found) && actions_model(found@) == actions,
                Err(e) => r matches Err(refusal) && refusal == e,
            },
    {
        match self.get_item_path(item, index) {
            Ok(path) => {
                let mut actions: Vec<Action> = Vec::new();
                actions.push(Action::RemoveDirAll { path });
                proof {
                    assert(actions_model(actions@) =~= disk_remove(
                        self.root(),
                        item@,
                        index@,
                    ).unwrap());
                }
                Ok(actions)
            },
            Err(e) => Err(e),
        }
    }

    /// The step that moves the directory of a category to the one that
    /// `new_name` implies. The catalog must still hold the old name.
    pub fn rename_category(&self, category: usize, new_name: &str, index: &Index) -> (r: Result<
        Vec<Action>,
        Error,
    >)
        ensures
            match disk_rename_category(self.root(), category, new_name@, index@) {
                Ok(actions) => r matches Ok(found) && actions_model(found@) == actions,
                Err(e) => r matches Err(refusal) && refusal == e,
            },
    {
        let from = match self.get_category_path(category, index) {
            Ok(from) => from,
            Err(e) => {
                return Err(e);
            },
        };
        let area = match index.get_area_from_category(category) {
            Ok(Some(area)) => area,
            Ok(None) => {
                return Err(Error::NotFound);
            },
            Err(e) => {
                return Err(e);
            },
        };
        let area_dir = join(self.root_path.as_str(), area.to_string().as_str());
        let to = join(area_dir.as_str(), build_category_name(category, new_name).as_str());
        let mut actions: Vec<Action> = Vec::new();
        actions.push(Action::MoveDir { from, to });
        proof {
            assert(actions_model(actions@) =~= disk_rename_category(
                self.root(),
                category,
                new_name@,
                index@,
            ).unwrap());
        }
        Ok(actions)
    }

    /// The step that moves the directory of `old_item` to that of `new_item`.
    pub fn rename_item(&self, old_item: &Item, new_item: &Item, index: &Index) -> (r: Result<
        Vec<Action>,
        Error,
    >)
        ensures
            match disk_rename_item(self.root(), old_item@, new_item@, index@) {
                Ok(actions) => r matches Ok(found) && actions_model(found@) == actions,
                Err(e) => r matches Err(refusal) && refusal == e,
            },
    {
        let from = match self.get_item_path(old_item, index) {
            Ok(from) => from,
            Err(e) => {
                return Err(e);
            },
        };
        let to = match self.get_item_path(new_item, index) {
            Ok(to) => to,
            Err(e) => {
                return Err(e);
            },
        };
        let mut actions: Vec<Action> = Vec::new();
        actions.push(Action::MoveDir { from, to });
        proof {
            assert(actions_model(actions@) =~= disk_rename_item(
                self.root(),
                old_item@,
                new_item@,
                index@,
            ).unwrap());
        }
        Ok(actions)
    }
}

} // verus!
