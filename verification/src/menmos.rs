//! The resolver that keeps items as records of an object store, found again
//! by the identifier written into their metadata.

use vstd::prelude::*;
use vstd::string::*;

use crate::error::Error;
use crate::index::Index;
use crate::item::{format_id, Item, ItemModel};
use crate::location::{
    actions_model, Action, ActionModel, Location, LocationModel, Lookup, LookupModel,
};

verus! {

/// The query that finds the record of an item: the text of its identifier
/// under the key `jd_id`.
pub open spec fn menmos_get(profile: Seq<char>, item: ItemModel) -> LookupModel {
    LookupModel::StoreQuery { profile, key: "jd_id"@, value: format_id(item.id) }
}

/// The steps that put the content at `source` into the store: nothing for an
/// address, the upload of the directory tree for a path.
pub open spec fn menmos_set(profile: Seq<char>, item: ItemModel, source: LocationModel) -> Seq<
    ActionModel,
> {
    match source {
        LocationModel::URL(_) => Seq::empty(),
        LocationModel::Path(source) => seq![ActionModel::UploadDir { profile, source, item }],
    }
}

/// A resolver over the records of an object store, reached with a profile.
#[derive(Debug)]
pub struct MenmosResolver {
    profile: String,
}

impl MenmosResolver {
    /// The name of the profile of the resolver.
    pub closed spec fn profile_name(&self) -> Seq<char> {
        self.profile@
    }

    /// The resolver over the store that the profile `profile` reaches.
    pub fn new(profile: &str) -> (r: MenmosResolver)
        ensures
            r.profile_name() == profile@,
    {
        MenmosResolver { profile: profile.to_owned() }
    }

    /// The name of the profile of the resolver.
    pub fn profile(&self) -> (r: &str)
        ensures
            r@ == self.profile_name(),
    {
        self.profile.as_str()
    }

    /// What has to be asked of the store to say where an item lives.
    pub fn get(&self, item: &Item, index: &Index) -> (r: Result<Lookup, Error>)
        ensures
            r matches Ok(found) && found@ == menmos_get(self.profile_name(), item@),
    {
        Ok(
            Lookup::StoreQuery {
                profile: self.profile.clone(),
                key: "jd_id".to_owned(),
                value: item.id.to_string(),
            },
        )
    }

    /// The steps that put the content at `src_location` into the store.
    pub fn set(&self, item: &Item, src_location: Location, index: &Index) -> (r: Result<
        Vec<Action>,
        Error,
    >)
        ensures
            r matches Ok(found) && actions_model(found@) == menmos_set(
                self.profile_name(),
                item@,
                src_location@,
            ),
    {
        let mut actions: Vec<Action> = Vec::new();
        match src_location {
            Location::URL(_) => {},
            Location::Path(source) => {
                actions.push(
                    Action::UploadDir { profile: self.profile.clone(), source, item: item.clone() },
                );
            },
        }
        assert(actions_model(actions@) =~= menmos_set(self.profile_name(), item@, src_location@));
        Ok(actions)
    }

    /// Removing a record is not supported.
    pub fn remove(&self, item: &Item, index: &Index) -> (r: Result<Vec<Action>, Error>)
        ensures
            r matches Err(refusal) && refusal == Error::Unsupported,
    {
        Err(Error::Unsupported)
    }

    /// Renaming a category is not supported.
    pub fn rename_category(&self, category: usize, new_name: &str, index: &Index) -> (r: Result<
        Vec<Action>,
        Error,
    >)
        ensures
            r matches Err(refusal) && refusal == Error::Unsupported,
    {
        Err(Error::Unsupported)
    }

    /// Renaming an item is not supported.
    pub fn rename_item(&self, old_item: &Item, new_item: &Item, index: &Index) -> (r: Result<
        Vec<Action>,
        Error,
    >)
        ensures
            r matches Err(refusal) && refusal == Error::Unsupported,
    {
        Err(Error::Unsupported)
    }
}

} // verus!
