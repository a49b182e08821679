//! The resolvers as one closed set of backends, and the list that routes a
//! category to the first resolver that answers for it.

use vstd::prelude::*;
use vstd::string::*;

use crate::config::{ResolverConfig, ResolverConstraint};
use crate::disk::{
    disk_get, disk_remove, disk_rename_category, disk_rename_item, disk_set, DiskResolver,
};
use crate::error::Error;
use crate::github::{github_get, GithubResolver};
use crate::index::{Index, IndexModel};
use crate::item::{Item, ItemModel};
use crate::location::{actions_model, Action, ActionModel, Location, LocationModel, Lookup, LookupModel};
use crate::menmos::{menmos_get, menmos_set, MenmosResolver};
use crate::scan::{scan_areas, AreaEntry, ScanModel};

verus! {

/// A resolver of one of the three backends.
#[derive(Debug)]
pub enum Backend {
    Disk(DiskResolver),
    Github(GithubResolver),
    Menmos(MenmosResolver),
}

/// A resolver as a value: its backend and what the backend was made with.
pub enum BackendModel {
    Disk { root: Seq<char> },
    Github { area: usize },
    Menmos { profile: Seq<char> },
}

impl View for Backend {
    type V = BackendModel;

    open spec fn view(&self) -> BackendModel {
        match self {
            Backend::Disk(r) => BackendModel::Disk { root: r.root() },
            Backend::Github(r) => BackendModel::Github { area: r.area() },
            Backend::Menmos(r) => BackendModel::Menmos { profile: r.profile_name() },
        }
    }
}

/// The resolver that a configuration describes.
pub open spec fn backend_of(config: ResolverConfig) -> BackendModel {
    match config {
        ResolverConfig::DiskResolver { root } => BackendModel::Disk { root: root@ },
        ResolverConfig::GithubResolver { github_area } => BackendModel::Github {
            area: github_area,
        },
        ResolverConfig::MenmosResolver { profile } => BackendModel::Menmos { profile: profile@ },
    }
}

impl BackendModel {
    /// What has to be learnt to say where an item lives.
    pub open spec fn get(self, item: ItemModel, index: IndexModel) -> Result<LookupModel, Error> {
        match self {
            BackendModel::Disk { root } => disk_get(root, item, index),
            BackendModel::Github { area } => github_get(area, item, index),
            BackendModel::Menmos { profile } => Ok(menmos_get(profile, item)),
        }
    }

    /// The steps that materialize an item from the content at `source`.
    pub open spec fn set(self, item: ItemModel, source: LocationModel, index: IndexModel) -> Result<
        Seq<ActionModel>,
        Error,
    > {
        match self {
            BackendModel::Disk { root } => disk_set(root, item, source, index),
            BackendModel::Github { area } => Ok(Seq::empty()),
            BackendModel::Menmos { profile } => Ok(menmos_set(profile, item, source)),
        }
    }

    /// The steps that delete what materializes an item.
    pub open spec fn remove(self, item: ItemModel, index: IndexModel) -> Result<
        Seq<ActionModel>,
        Error,
    > {
        match self {
            BackendModel::Disk { root } => disk_remove(root, item, index),
            _ => Err(Error::Unsupported),
        }
    }

    /// The steps that make the storage follow a new name of a category.
    pub open spec fn rename_category(
        self,
        category: usize,
        new_name: Seq<char>,
        index: IndexModel,
    ) -> Result<Seq<ActionModel>, Error> {
        match self {
            BackendModel::Disk { root } => disk_rename_category(root, category, new_name, index),
            _ => Err(Error::Unsupported),
        }
    }

    /// The steps that make the storage follow a new name of an item.
    pub open spec fn rename_item(self, old_item: ItemModel, new_item: ItemModel, index: IndexModel) -> Result<
        Seq<ActionModel>,
        Error,
    > {
        match self {
            BackendModel::Disk { root } => disk_rename_item(root, old_item, new_item, index),
            _ => Err(Error::Unsupported),
        }
    }

    /// The directory whose content a rebuild has to be given for this
    /// resolver, if it takes part in a rebuild.
    pub open spec fn scan_root(self) -> Option<Seq<char>> {
        match self {
            BackendModel::Disk { root } => Some(root),
            _ => None,
        }
    }

    /// The scan after this resolver has added what it holds: the content of
    /// its root for a disk resolver, nothing for the others.
    pub open spec fn collect(self, state: ScanModel, listing: Seq<AreaEntry>) -> ScanModel {
        match self {
            BackendModel::Disk { root } => if state.refusal is Some {
                state
            } else {
                scan_areas(state, listing, listing.len() as int)
            },
            _ => state,
        }
    }
}

impl Backend {
    /// The resolver that a configuration describes.
    pub fn from_config(config: &ResolverConfig) -> (r: Backend)
        ensures
            r@ == backend_of(*config),
    {
        match config {
            ResolverConfig::DiskResolver { root } => Backend::Disk(DiskResolver::new(root.clone())),
            ResolverConfig::GithubResolver { github_area } => Backend::Github(
                GithubResolver::new(*github_area),
            ),
            ResolverConfig::MenmosResolver { profile } => Backend::Menmos(
                MenmosResolver::new(profile.as_str()),
            ),
        }
    }

    /// The directory whose content a rebuild has to be given for this
    /// resolver, if it takes part in a rebuild.
    pub fn scan_root(&self) -> (r: Option<String>)
        ensures
            match self@.scan_root() {
                Some(root) => r matches Some(found) && found@ == root,
                None => r is None,
            },
    {
        match self {
            Backend::Disk(r) => Some(r.root_path().to_owned()),
            _ => None,
        }
    }

}

/// Whether a result is the given lookup or refusal.
pub open spec fn is_lookup(r: Result<Lookup, Error>, outcome: Result<LookupModel, Error>) -> bool {
    match outcome {
        Ok(lookup) => r matches Ok(found) && found@ == lookup,
        Err(e) => r matches Err(refusal) && refusal == e,
    }
}

/// Whether a result is the given steps or refusal.
pub open spec fn is_steps(r: Result<Vec<Action>, Error>, outcome: Result<Seq<ActionModel>, Error>) -> bool {
    match outcome {
        Ok(actions) => r matches Ok(found) && actions_model(found@) == actions,
        Err(e) => r matches Err(refusal) && refusal == e,
    }
}

/// What every resolver offers, whatever its backend: to say where an item
/// lives, to plan the steps that put it there, remove it or follow a new
/// name, and to add what it holds to a catalog.
pub trait LocationResolver {
    /// The resolver as a value.
    spec fn backend(&self) -> BackendModel;

    fn get(&self, item: &Item, index: &Index) -> (r: Result<Lookup, Error>)
        ensures
            is_lookup(r, self.backend().get(item@, index@)),
    ;

    fn collect(&self, listing: &Vec<AreaEntry>, index: &mut Index) -> (r: Result<(), Error>)
        ensures
            ({
                let end = self.backend().collect(ScanModel::start(old(index)@), listing@);
                final(index)@ == end.index && r == end.outcome()
            }),
    ;

    fn set(&self, item: &Item, src_location: Location, index: &Index) -> (r: Result<
        Vec<Action>,
        Error,
    >)
        ensures
            is_steps(r, self.backend().set(item@, src_location@, index@)),
    ;

    fn remove(&self, item: &Item, index: &Index) -> (r: Result<Vec<Action>, Error>)
        ensures
            is_steps(r, self.backend().remove(item@, index@)),
    ;

    fn rename_category(&self, category: usize, new_name: &str, index: &Index) -> (r: Result<
        Vec<Action>,
        Error,
    >)
        ensures
            is_steps(r, self.backend().rename_category(category, new_name@, index@)),
    ;

    fn rename_item(&self, old_item: &Item, new_item: &Item, index: &Index) -> (r: Result<
        Vec<Action>,
        Error,
    >)
        ensures
            is_steps(r, self.backend().rename_item(old_item@, new_item@, index@)),
    ;
}

impl LocationResolver for DiskResolver {
    open spec fn backend(&self) -> BackendModel {
        BackendModel::Disk { root: self.root() }
    }

    fn get(&self, item: &Item, index: &Index) -> (r: Result<Lookup, Error>) {
        DiskResolver::get(self, item, index)
    }

    fn collect(&self, listing: &Vec<AreaEntry>, index: &mut Index) -> (r: Result<(), Error>) {
        DiskResolver::collect(self, listing, index)
    }

    fn set(&self, item: &Item, src_location: Location, index: &Index) -> (r: Result<
        Vec<Action>,
        Error,
    >) {
        DiskResolver::set(self, item, src_location, index)
    }

    fn remove(&self, item: &Item, index: &Index) -> (r: Result<Vec<Action>, Error>) {
        DiskResolver::remove(self, item, index)
    }

    fn rename_category(&self, category: usize, new_name: &str, index: &Index) -> (r: Result<
        Vec<Action>,
        Error,
    >) {
        DiskResolver::rename_category(self, category, new_name, index)
    }

    fn rename_item(&self, old_item: &Item, new_item: &Item, index: &Index) -> (r: Result<
        Vec<Action>,
        Error,
    >) {
        DiskResolver::rename_item(self, old_item, new_item, index)
    }
}

impl LocationResolver for GithubResolver {
    open spec fn backend(&self) -> BackendModel {
        BackendModel::Github { area: self.area() }
    }

    fn get(&self, item: &Item, index: &Index) -> (r: Result<Lookup, Error>) {
        GithubResolver::get(self, item, index)
    }

    /// Nothing is added: the repositories of the code host are not listed.
    fn collect(&self, listing: &Vec<AreaEntry>, index: &mut Index) -> (r: Result<(), Error>) {
        Ok(())
    }

    fn set(&self, item: &Item, src_location: Location, index: &Index) -> (r: Result<
        Vec<Action>,
        Error,
    >) {
        let done = GithubResolver::set(self, item, src_location, index);
        proof {
            assert(actions_model(done.unwrap()@) =~= Seq::<ActionModel>::empty());
        }
        done
    }

    fn remove(&self, item: &Item, index: &Index) -> (r: Result<Vec<Action>, Error>) {
        GithubResolver::remove(self, item, index)
    }

    fn rename_category(&self, category: usize, new_name: &str, index: &Index) -> (r: Result<
        Vec<Action>,
        Error,
    >) {
        GithubResolver::rename_category(self, category, new_name, index)
    }

    fn rename_item(&self, old_item: &Item, new_item: &Item, index: &Index) -> (r: Result<
        Vec<Action>,
        Error,
    >) {
        GithubResolver::rename_item(self, old_item, new_item, index)
    }
}

impl LocationResolver for MenmosResolver {
    open spec fn backend(&self) -> BackendModel {
        BackendModel::Menmos { profile: self.profile_name() }
    }

    fn get(&self, item: &Item, index: &Index) -> (r: Result<Lookup, Error>) {
        MenmosResolver::get(self, item, index)
    }

    /// Nothing is added: the records of the store are not listed.
    fn collect(&self, listing: &Vec<AreaEntry>, index: &mut Index) -> (r: Result<(), Error>) {
        Ok(())
    }

    fn set(&self, item: &Item, src_location: Location, index: &Index) -> (r: Result<
        Vec<Action>,
        Error,
    >) {
        MenmosResolver::set(self, item, src_location, index)
    }

    fn remove(&self, item: &Item, index: &Index) -> (r: Result<Vec<Action>, Error>) {
        MenmosResolver::remove(self, item, index)
    }

    fn rename_category(&self, category: usize, new_name: &str, index: &Index) -> (r: Result<
        Vec<Action>,
        Error,
    >) {
        MenmosResolver::rename_category(self, category, new_name, index)
    }

    fn rename_item(&self, old_item: &Item, new_item: &Item, index: &Index) -> (r: Result<
        Vec<Action>,
        Error,
    >) {
        MenmosResolver::rename_item(self, old_item, new_item, index)
    }
}

impl LocationResolver for Backend {
    open spec fn backend(&self) -> BackendModel {
        self@
    }

    fn get(&self, item: &Item, index: &Index) -> (r: Result<Lookup, Error>) {
        match self {
            Backend::Disk(r) => LocationResolver::get(r, item, index),
            Backend::Github(r) => LocationResolver::get(r, item, index),
            Backend::Menmos(r) => LocationResolver::get(r, item, index),
        }
    }

    fn collect(&self, listing: &Vec<AreaEntry>, index: &mut Index) -> (r: Result<(), Error>) {
        match self {
            Backend::Disk(r) => LocationResolver::collect(r, listing, index),
            Backend::Github(r) => LocationResolver::collect(r, listing, index),
            Backend::Menmos(r) => LocationResolver::collect(r, listing, index),
        }
    }

    fn set(&self, item: &Item, src_location: Location, index: &Index) -> (r: Result<
        Vec<Action>,
        Error,
    >) {
        match self {
            Backend::Disk(r) => LocationResolver::set(r, item, src_location, index),
            Backend::Github(r) => LocationResolver::set(r, item, src_location, index),
            Backend::Menmos(r) => LocationResolver::set(r, item, src_location, index),
        }
    }

    fn remove(&self, item: &Item, index: &Index) -> (r: Result<Vec<Action>, Error>) {
        match self {
            Backend::Disk(r) => LocationResolver::remove(r, item, index),
            Backend::Github(r) => LocationResolver::remove(r, item, index),
            Backend::Menmos(r) => LocationResolver::remove(r, item, index),
        }
    }

    fn rename_category(&self, category: usize, new_name: &str, index: &Index) -> (r: Result<
        Vec<Action>,
        Error,
    >) {
        match self {
            Backend::Disk(r) => LocationResolver::rename_category(r, category, new_name, index),
            Backend::Github(r) => LocationResolver::rename_category(r, category, new_name, index),
            Backend::Menmos(r) => LocationResolver::rename_category(r, category, new_name, index),
        }
    }

    fn rename_item(&self, old_item: &Item, new_item: &Item, index: &Index) -> (r: Result<
        Vec<Action>,
        Error,
    >) {
        match self {
            Backend::Disk(r) => LocationResolver::rename_item(r, old_item, new_item, index),
            Backend::Github(r) => LocationResolver::rename_item(r, old_item, new_item, index),
            Backend::Menmos(r) => LocationResolver::rename_item(r, old_item, new_item, index),
        }
    }
}

/// What a list of constraints and resolvers holds, pair by pair.
pub open spec fn route_model(resolvers: Seq<(ResolverConstraint, Backend)>) -> Seq<
    (ResolverConstraint, BackendModel),
> {
    Seq::new(resolvers.len(), |i: int| (resolvers[i].0, resolvers[i].1@))
}

/// The position at or after `from` of the first pair whose constraint holds
/// of the category; the length of the list when there is none.
pub open spec fn first_match(
    route: Seq<(ResolverConstraint, BackendModel)>,
    category: usize,
    from: int,
) -> int
    decreases route.len() - from,
{
    if from >= route.len() {
        route.len() as int
    } else if route[from].0.admits(category) {
        from
    } else {
        first_match(route, category, from + 1)
    }
}

/// The resolver that answers for a category: that of the first pair, in the
/// order of the list, whose constraint holds of it.
pub open spec fn find(route: Seq<(ResolverConstraint, BackendModel)>, category: usize) -> Option<
    BackendModel,
> {
    let i = first_match(route, category, 0);
    if i < route.len() {
        Some(route[i].1)
    } else {
        None
    }
}

/// The first match is a match, and no pair before it is one.
pub proof fn lemma_first_match(
    route: Seq<(ResolverConstraint, BackendModel)>,
    category: usize,
    from: int,
)
    requires
        0 <= from <= route.len(),
    ensures
        from <= first_match(route, category, from) <= route.len(),
        forall|j: int|
            from <= j < first_match(route, category, from) ==> !(#[trigger] route[j]).0.admits(
                category,
            ),
        first_match(route, category, from) < route.len() ==> route[first_match(
            route,
            category,
            from,
        )].0.admits(category),
    decreases route.len() - from,
{
    if from < route.len() && !route[from].0.admits(category) {
        lemma_first_match(route, category, from + 1);
    }
}

/// The position of the first pair whose constraint holds of the category.
pub fn find_position(resolvers: &Vec<(ResolverConstraint, Backend)>, category: usize) -> (r: Option<
    usize,
>)
    ensures
        match r {
            Some(i) => i < resolvers@.len() && i == first_match(
                route_model(resolvers@),
                category,
                0,
            ),
            None => first_match(route_model(resolvers@), category, 0) == resolvers@.len(),
        },
{
    let ghost route = route_model(resolvers@);
    let mut i: usize = 0;
    while i < resolvers.len()
        invariant
            i <= resolvers@.len(),
            route == route_model(resolvers@),
            first_match(route, category, 0) == first_match(route, category, i as int),
        decreases resolvers@.len() - i,
    {
        if resolvers[i].0.matches(category) {
            return Some(i);
        }
        i += 1;
    }
    None
}

} // verus!
