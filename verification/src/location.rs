//! Where an item lives, what is to be done to put it there, and what has to
//! be asked outside before its place is known.

use vstd::prelude::*;
use vstd::string::*;

use crate::item::{Item, ItemModel};

verus! {

/// The place of an item: a path of the file system or an address.
#[derive(Debug)]
pub enum Location {
    Path(String),
    URL(String),
}

/// A location as a value.
pub enum LocationModel {
    Path(Seq<char>),
    URL(Seq<char>),
}

impl View for Location {
    type V = LocationModel;

    open spec fn view(&self) -> LocationModel {
        match self {
            Location::Path(p) => LocationModel::Path(p@),
            Location::URL(u) => LocationModel::URL(u@),
        }
    }
}

impl LocationModel {
    /// The text of the location: the path or the address as it is.
    pub open spec fn text(self) -> Seq<char> {
        match self {
            LocationModel::Path(p) => p,
            LocationModel::URL(u) => u,
        }
    }
}

impl Clone for Location {
    fn clone(&self) -> (r: Location)
        ensures
            r == *self,
    {
        match self {
            Location::Path(p) => Location::Path(p.clone()),
            Location::URL(u) => Location::URL(u.clone()),
        }
    }
}

impl Location {
    /// The text of the location.
    pub fn to_string(&self) -> (r: String)
        ensures
            r@ == self@.text(),
    {
        match self {
            Location::Path(p) => p.clone(),
            Location::URL(u) => u.clone(),
        }
    }
}

/// What the model of an optional location is.
pub open spec fn location_option_model(location: Option<Location>) -> Option<LocationModel> {
    match location {
        Some(l) => Some(l@),
        None => None,
    }
}

/// The path of the entry `name` of the directory `base`: the two with one
/// separator between them, which is left out where `base` is empty or ends in
/// one already.
pub open spec fn joined(base: Seq<char>, name: Seq<char>) -> Seq<char> {
    if base.len() == 0 || base.last() == '/' {
        base + name
    } else {
        base + seq!['/'] + name
    }
}

/// The path of the entry `name` of the directory `base`.
pub fn join(base: &str, name: &str) -> (r: String)
    ensures
        r@ == joined(base@, name@),
{
    let mut out = base.to_owned();
    let n = base.unicode_len();
    if n > 0 && base.get_char(n - 1) != '/' {
        out.push('/');
    }
    out.append(name);
    assert(out@ =~= joined(base@, name@));
    out
}

/// One physical step that makes the storage follow the catalog. The steps of
/// an operation are carried out in the order given, and the first that fails
/// ends the operation.
#[derive(Debug)]
pub enum Action {
    /// Create the directory and the parents that it lacks.
    CreateDirAll { path: String },
    /// Move the directory `from` to `to`: copy, then delete the source.
    MoveDir { from: String, to: String },
    /// Delete the directory tree, if it is there.
    RemoveDirAll { path: String },
    /// Upload the directory tree at `source` as `item` to the object store
    /// that the profile `profile` reaches.
    UploadDir { profile: String, source: String, item: Item },
    /// Write the whole catalog to its file.
    Persist,
}

/// A step as a value.
pub enum ActionModel {
    CreateDirAll { path: Seq<char> },
    MoveDir { from: Seq<char>, to: Seq<char> },
    RemoveDirAll { path: Seq<char> },
    UploadDir { profile: Seq<char>, source: Seq<char>, item: ItemModel },
    Persist,
}

impl View for Action {
    type V = ActionModel;

    open spec fn view(&self) -> ActionModel {
        match self {
            Action::CreateDirAll { path } => ActionModel::CreateDirAll { path: path@ },
            Action::MoveDir { from, to } => ActionModel::MoveDir { from: from@, to: to@ },
            Action::RemoveDirAll { path } => ActionModel::RemoveDirAll { path: path@ },
            Action::UploadDir { profile, source, item } => ActionModel::UploadDir {
                profile: profile@,
                source: source@,
                item: item@,
            },
            Action::Persist => ActionModel::Persist,
        }
    }
}

/// What a list of steps holds, step by step.
pub open spec fn actions_model(actions: Seq<Action>) -> Seq<ActionModel> {
    Seq::new(actions.len(), |i: int| actions[i]@)
}

/// What a resolver has to learn from outside before it can say where an item
/// lives.
#[derive(Debug)]
pub enum Lookup {
    /// Nothing: the item lives at `location`.
    Known(Location),
    /// Whether `directory` exists: if so the item lives at `location`, else it
    /// is not materialized.
    IfDirectoryExists { directory: String, location: Location },
    /// The first record whose metadata holds `value` under `key`, in the
    /// object store that the profile `profile` reaches: its address is where
    /// the item lives.
    StoreQuery { profile: String, key: String, value: String },
}

/// A lookup as a value.
pub enum LookupModel {
    Known(LocationModel),
    IfDirectoryExists { directory: Seq<char>, location: LocationModel },
    StoreQuery { profile: Seq<char>, key: Seq<char>, value: Seq<char> },
}

impl View for Lookup {
    type V = LookupModel;

    open spec fn view(&self) -> LookupModel {
        match self {
            Lookup::Known(l) => LookupModel::Known(l@),
            Lookup::IfDirectoryExists { directory, location } => LookupModel::IfDirectoryExists {
                directory: directory@,
                location: location@,
            },
            Lookup::StoreQuery { profile, key, value } => LookupModel::StoreQuery {
                profile: profile@,
                key: key@,
                value: value@,
            },
        }
    }
}

/// What was learnt outside for a lookup.
#[derive(Debug)]
pub enum Evidence {
    /// Nothing was asked.
    Nothing,
    /// Whether the directory exists.
    Directory(bool),
    /// The address of the first record found, if any.
    Store(Option<String>),
}

/// Evidence as a value.
pub enum EvidenceModel {
    Nothing,
    Directory(bool),
    Store(Option<Seq<char>>),
}

impl View for Evidence {
    type V = EvidenceModel;

    open spec fn view(&self) -> EvidenceModel {
        match self {
            Evidence::Nothing => EvidenceModel::Nothing,
            Evidence::Directory(b) => EvidenceModel::Directory(*b),
            Evidence::Store(hit) => EvidenceModel::Store(
                match hit {
                    Some(url) => Some(url@),
                    None => None,
                },
            ),
        }
    }
}

impl LookupModel {
    /// Where the item lives, given what was learnt outside: the known
    /// location whatever was learnt; the location behind a directory only if
    /// the directory was found to exist; the address of the record only if
    /// one was found.
    pub open spec fn conclude(self, evidence: EvidenceModel) -> Option<LocationModel> {
        match self {
            LookupModel::Known(location) => Some(location),
            LookupModel::IfDirectoryExists { directory, location } => match evidence {
                EvidenceModel::Directory(true) => Some(location),
                _ => None,
            },
            LookupModel::StoreQuery { profile, key, value } => match evidence {
                EvidenceModel::Store(Some(url)) => Some(LocationModel::URL(url)),
                _ => None,
            },
        }
    }
}

impl Lookup {
    /// Where the item lives, given what was learnt outside.
    pub fn conclude(self, evidence: Evidence) -> (r: Option<Location>)
        ensures
            location_option_model(r) == self@.conclude(evidence@),
    {
        match self {
            Lookup::Known(location) => Some(location),
            Lookup::IfDirectoryExists { directory, location } => match evidence {
                Evidence::Directory(true) => Some(location),
                _ => None,
            },
            Lookup::StoreQuery { profile, key, value } => match evidence {
                Evidence::Store(Some(url)) => Some(Location::URL(url)),
                _ => None,
            },
        }
    }
}

} // verus!
