//! The catalog client: each operation changes the catalog in memory and says
//! which physical steps are to follow, in which order.
//!
//! The client performs no step itself. The caller carries the steps out one
//! after the other and stops at the first that fails; nothing is rolled back,
//! so a failure between two steps leaves the catalog file and the storage
//! apart. `Action::Persist` stands where the catalog is written.

use vstd::prelude::*;
use vstd::string::*;

use crate::config::{Config, Resolver, ResolverConstraint};
use crate::error::Error;
use crate::index::{Index, IndexModel};
use crate::item::{Item, ItemModel, ID};
use crate::laws::lemma_allocate_then_get;
use crate::location::{
    actions_model, Action, ActionModel, Evidence, EvidenceModel, Location, LocationModel, Lookup,
    LookupModel,
};
use crate::resolver::{
    backend_of, find, find_position, route_model, Backend, BackendModel, LocationResolver,
};
use crate::scan::{AreaEntry, ScanModel};

verus! {

/// The list of constraints and resolvers as the client uses it.
pub type Route = Seq<(ResolverConstraint, BackendModel)>;

/// The route that a list of configured resolvers describes, in its order.
pub open spec fn configured_route(resolvers: Seq<Resolver>) -> Route {
    Seq::new(resolvers.len(), |i: int| (resolvers[i].constraint, backend_of(resolvers[i].config)))
}

/// What an operation that makes an item comes to: the catalog afterwards,
/// and either the item with the steps to carry out or the refusal.
pub type ItemPlan = (IndexModel, Result<(ItemModel, Seq<ActionModel>), Error>);

/// What an operation that makes no item comes to: the catalog afterwards,
/// and either the steps to carry out or the refusal.
pub type Plan = (IndexModel, Result<Seq<ActionModel>, Error>);

/// Whether a result is the given outcome.
pub open spec fn is_item_outcome(
    r: Result<(Item, Vec<Action>), Error>,
    outcome: Result<(ItemModel, Seq<ActionModel>), Error>,
) -> bool {
    match outcome {
        Ok((item, actions)) => r matches Ok(found) && found.0@ == item && actions_model(found.1@)
            == actions,
        Err(e) => r matches Err(refusal) && refusal == e,
    }
}

/// Whether a result is the given outcome.
pub open spec fn is_outcome(r: Result<Vec<Action>, Error>, outcome: Result<Seq<ActionModel>, Error>) -> bool {
    match outcome {
        Ok(actions) => r matches Ok(found) && actions_model(found@) == actions,
        Err(e) => r matches Err(refusal) && refusal == e,
    }
}

/// Adding the content at the path `source` to a category under `name`: the
/// item is allocated, the catalog is written, then the resolver of the
/// category puts the content in place.
pub open spec fn mv_plan(
    index: IndexModel,
    route: Route,
    category: usize,
    name: Seq<char>,
    source: Seq<char>,
    explicit: Option<ID>,
) -> ItemPlan {
    match find(route, category) {
        None => (index, Err(Error::NotFound)),
        Some(resolver) => match index.allocate_item(category, name, explicit) {
            Err(e) => (index, Err(e)),
            Ok((after, item)) => match resolver.set(item, LocationModel::Path(source), after) {
                Ok(actions) => (after, Ok((item, seq![ActionModel::Persist] + actions))),
                Err(e) => (after, Err(e)),
            },
        },
    }
}

/// Adding an address to a category under `name`: the item is allocated, the
/// resolver of the category is handed the address, then the catalog is
/// written.
pub open spec fn alloc_url_plan(
    index: IndexModel,
    route: Route,
    category: usize,
    name: Seq<char>,
    url: Seq<char>,
) -> ItemPlan {
    match find(route, category) {
        None => (index, Err(Error::NotFound)),
        Some(resolver) => match index.allocate_item(category, name, None) {
            Err(e) => (index, Err(e)),
            Ok((after, item)) => match resolver.set(item, LocationModel::URL(url), after) {
                Ok(actions) => (after, Ok((item, actions.push(ActionModel::Persist)))),
                Err(e) => (after, Err(e)),
            },
        },
    }
}

/// What has to be learnt to say where the item named by `id` lives; nothing
/// where the slot is empty.
pub open spec fn locate_plan(index: IndexModel, route: Route, id: ID) -> Result<
    Option<LookupModel>,
    Error,
> {
    match find(route, id.category) {
        None => Err(Error::NotFound),
        Some(resolver) => match index.get_item(id) {
            Err(e) => Err(e),
            Ok(None) => Ok(None),
            Ok(Some(item)) => match resolver.get(item, index) {
                Ok(lookup) => Ok(Some(lookup)),
                Err(e) => Err(e),
            },
        },
    }
}

/// Moving an item to another category: the item leaves its slot, its content
/// is located with what was learnt outside, a new item of the same name is
/// allocated at the lowest free slot of the other category, the resolver of
/// that category puts the content in place, then the catalog is written.
pub open spec fn relocate_plan(
    index: IndexModel,
    route: Route,
    id: ID,
    category: usize,
    evidence: EvidenceModel,
) -> ItemPlan {
    match index.get_item(id) {
        Err(e) => (index, Err(e)),
        Ok(None) => (index, Err(Error::NotFound)),
        Ok(Some(item)) => {
            let removed = index.remove_item(id).unwrap();
            match find(route, id.category) {
                None => (removed, Err(Error::NotFound)),
                Some(from) => match from.get(item, removed) {
                    Err(e) => (removed, Err(e)),
                    Ok(lookup) => match lookup.conclude(evidence) {
                        None => (removed, Err(Error::NotFound)),
                        Some(source) => match removed.allocate_item(category, item.name, None) {
                            Err(e) => (removed, Err(e)),
                            Ok((after, moved)) => match find(route, category) {
                                None => (after, Err(Error::NotFound)),
                                Some(to) => match to.set(moved, source, after) {
                                    Ok(actions) => (
                                        after,
                                        Ok((moved, actions.push(ActionModel::Persist))),
                                    ),
                                    Err(e) => (after, Err(e)),
                                },
                            },
                        },
                    },
                },
            }
        },
    }
}

/// Removing an item: where its slot is occupied the item leaves it and its
/// resolver deletes what materializes it; then the catalog is written. An
/// empty slot is no refusal.
pub open spec fn rm_plan(index: IndexModel, route: Route, id: ID) -> Plan {
    match index.get_item(id) {
        Err(e) => (index, Err(e)),
        Ok(None) => (index, Ok(seq![ActionModel::Persist])),
        Ok(Some(item)) => {
            let removed = index.remove_item(id).unwrap();
            match find(route, id.category) {
                None => (removed, Err(Error::NotFound)),
                Some(resolver) => match resolver.remove(item, removed) {
                    Ok(actions) => (removed, Ok(actions.push(ActionModel::Persist))),
                    Err(e) => (removed, Err(e)),
                },
            }
        },
    }
}

/// Renaming a category: its resolver plans the move while the catalog still
/// holds the old name, the catalog takes the new name, then it is written.
pub open spec fn rename_category_plan(
    index: IndexModel,
    route: Route,
    category: usize,
    new_name: Seq<char>,
) -> Plan {
    match find(route, category) {
        None => (index, Err(Error::NotFound)),
        Some(resolver) => match resolver.rename_category(category, new_name, index) {
            Err(e) => (index, Err(e)),
            Ok(actions) => match index.rename_category(category, new_name) {
                Ok(after) => (after, Ok(actions.push(ActionModel::Persist))),
                Err(e) => (index, Err(e)),
            },
        },
    }
}

/// Renaming an item: the item leaves its slot and is allocated again at the
/// same identifier under the new name, its resolver moves the content, then
/// the catalog is written.
pub open spec fn rename_plan(index: IndexModel, route: Route, id: ID, new_name: Seq<char>) -> ItemPlan {
    match find(route, id.category) {
        None => (index, Err(Error::NotFound)),
        Some(resolver) => match index.get_item(id) {
            Err(e) => (index, Err(e)),
            Ok(None) => (index, Err(Error::NotFound)),
            Ok(Some(old_item)) => {
                let removed = index.remove_item(id).unwrap();
                match removed.allocate_item(id.category, new_name, Some(id)) {
                    Err(e) => (removed, Err(e)),
                    Ok((after, new_item)) => match resolver.rename_item(old_item, new_item, after) {
                        Ok(actions) => (after, Ok((new_item, actions.push(ActionModel::Persist)))),
                        Err(e) => (after, Err(e)),
                    },
                }
            },
        },
    }
}

/// The scan after the first `n` resolvers have each added what they hold,
/// the `i`-th from the `i`-th listing.
pub open spec fn collect_all(route: Route, listings: Seq<Vec<AreaEntry>>, state: ScanModel, n: int) -> ScanModel
    decreases n,
{
    if n <= 0 {
        state
    } else {
        route[n - 1].1.collect(collect_all(route, listings, state, n - 1), listings[n - 1]@)
    }
}

/// Rebuilding the catalog: it starts empty, every resolver in turn adds what
/// it holds, then the catalog is written. The listings must be one for each
/// resolver.
pub open spec fn rebuild_plan(index: IndexModel, route: Route, listings: Seq<Vec<AreaEntry>>) -> Plan {
    if listings.len() != route.len() {
        (index, Err(Error::Validation))
    } else {
        let end = collect_all(
            route,
            listings,
            ScanModel::start(IndexModel::empty()),
            route.len() as int,
        );
        match end.refusal {
            None => (end.index, Ok(seq![ActionModel::Persist])),
            Some(e) => (end.index, Err(e)),
        }
    }
}

/// Once a resolver has refused, the resolvers after it add nothing.
pub proof fn lemma_collect_all_ended(
    route: Route,
    listings: Seq<Vec<AreaEntry>>,
    state: ScanModel,
    m: int,
    n: int,
)
    requires
        0 <= m <= n,
        collect_all(route, listings, state, m).refusal is Some,
    ensures
        collect_all(route, listings, state, n) == collect_all(route, listings, state, m),
    decreases n,
{
    if m < n {
        lemma_collect_all_ended(route, listings, state, m, n - 1);
    }
}

/// Adding content from a path is refused only before the catalog changes:
/// once the item is allocated, its resolver always has steps to put the
/// content in place, and the catalog is written before the first of them.
pub proof fn lemma_mv_persists_first(
    index: IndexModel,
    route: Route,
    category: usize,
    name: Seq<char>,
    source: Seq<char>,
    explicit: Option<ID>,
)
    requires
        index.wf(),
    ensures
        ({
            let plan = mv_plan(index, route, category, name, source, explicit);
            match plan.1 {
                Ok((item, actions)) => {
                    &&& index.allocate_item(category, name, explicit) == Ok::<
                        (IndexModel, ItemModel),
                        Error,
                    >((plan.0, item))
                    &&& actions.len() >= 1
                    &&& actions[0] == ActionModel::Persist
                },
                Err(e) => plan.0 == index,
            }
        }),
{
    if find(route, category) is Some && index.allocate_item(category, name, explicit) is Ok {
        let (after, item) = index.allocate_item(category, name, explicit).unwrap();
        lemma_allocate_then_get(index, category, name, explicit);
        assert(after.get_item(item.id) == Ok::<Option<ItemModel>, Error>(Some(item)));
        assert(after.area(item.id.category) is Ok);
        assert(after.area(item.id.category).unwrap().category(item.id.category) is Ok);
    }
}

/// The explicit identifier of a request, as a value.
pub open spec fn explicit_id(id: Option<&ID>) -> Option<ID> {
    match id {
        Some(id) => Some(*id),
        None => None,
    }
}

/// What an optional lookup holds.
pub open spec fn lookup_option_model(lookup: Option<Lookup>) -> Option<LookupModel> {
    match lookup {
        Some(l) => Some(l@),
        None => None,
    }
}

/// The steps `actions` followed by the writing of the catalog.
fn then_persist(actions: Vec<Action>) -> (r: Vec<Action>)
    ensures
        actions_model(r@) == actions_model(actions@).push(ActionModel::Persist),
{
    let mut out = actions;
    out.push(Action::Persist);
    assert(actions_model(out@) =~= actions_model(actions@).push(ActionModel::Persist));
    out
}

/// The writing of the catalog and nothing else.
fn only_persist() -> (r: Vec<Action>)
    ensures
        actions_model(r@) == seq![ActionModel::Persist],
{
    let mut out: Vec<Action> = Vec::new();
    out.push(Action::Persist);
    assert(actions_model(out@) =~= seq![ActionModel::Persist]);
    out
}

/// The writing of the catalog followed by the steps `actions`.
fn persist_then(actions: Vec<Action>) -> (r: Vec<Action>)
    ensures
        actions_model(r@) == seq![ActionModel::Persist] + actions_model(actions@),
{
    let mut out: Vec<Action> = Vec::new();
    out.push(Action::Persist);
    let mut rest = actions;
    out.append(&mut rest);
    assert(actions_model(out@) =~= seq![ActionModel::Persist] + actions_model(actions@));
    out
}

/// The catalog with the resolvers that keep its items in place.
#[derive(Debug)]
pub struct JohnnyDecimal {
    pub config: Config,
    pub index: Index,
    pub resolvers: Vec<(ResolverConstraint, Backend)>,
}

impl JohnnyDecimal {
    /// The constraints and resolvers of the client, in the order in which
    /// they are tried.
    pub open spec fn route(&self) -> Route {
        route_model(self.resolvers@)
    }

    /// The path of the file that keeps the catalog.
    pub open spec fn index_path_text(&self) -> Seq<char> {
        self.config.index_path@
    }

    /// The client of a configuration over the catalog that was loaded, or
    /// over an empty one where none was.
    pub fn new(config: Config, loaded: Option<Index>) -> (r: Result<JohnnyDecimal, Error>)
        ensures
            r matches Ok(client) && client.route() == configured_route(config.resolvers@)
                && client.index_path_text() == config.index_path@ && client.index@ == (match loaded {
                Some(index) => index@,
                None => IndexModel::empty(),
            }),
    {
        let index = match loaded {
            Some(index) => index,
            None => Index::new(),
        };
        let mut resolvers: Vec<(ResolverConstraint, Backend)> = Vec::new();
        let mut i: usize = 0;
        while i < config.resolvers.len()
            invariant
                i <= config.resolvers@.len(),
                resolvers@.len() == i,
                forall|j: int|
                    0 <= j < i ==> (#[trigger] resolvers@[j]).0 == config.resolvers@[j].constraint
                        && resolvers@[j].1@ == backend_of(config.resolvers@[j].config),
            decreases config.resolvers@.len() - i,
        {
            let resolver = &config.resolvers[i];
            resolvers.push((resolver.constraint, Backend::from_config(&resolver.config)));
            i += 1;
        }
        assert(route_model(resolvers@) =~= configured_route(config.resolvers@));
        Ok(JohnnyDecimal { config, index, resolvers })
    }

    /// The path of the file that keeps the catalog.
    pub fn index_path(&self) -> (r: &str)
        ensures
            r@ == self.index_path_text(),
    {
        self.config.index_path.as_str()
    }

    /// The resolver that answers for a category: the first, in the order of
    /// the configuration, whose constraint holds of it.
    pub fn find_resolver(&self, category: usize) -> (r: Option<&Backend>)
        ensures
            match find(self.route(), category) {
                Some(resolver) => r matches Some(found) && found@ == resolver,
                None => r is None,
            },
    {
        match find_position(&self.resolvers, category) {
            Some(i) => Some(&self.resolvers[i].1),
            None => None,
        }
    }

    /// Adds the content at the path `source_path` to a category as an item
    /// under `name`, at `id` where one is given.
    pub fn mv(&mut self, category: usize, name: &str, source_path: &str, id: Option<&ID>) -> (r:
        Result<(Item, Vec<Action>), Error>)
        ensures
            ({
                let plan = mv_plan(
                    old(self).index@,
                    old(self).route(),
                    category,
                    name@,
                    source_path@,
                    explicit_id(id),
                );
                &&& final(self).index@ == plan.0
                &&& final(self).route() == old(self).route()
                &&& final(self).index_path_text() == old(self).index_path_text()
                &&& is_item_outcome(r, plan.1)
            }),
    {
        let at = match find_position(&self.resolvers, category) {
            Some(at) => at,
            None => {
                return Err(Error::NotFound);
            },
        };
        let item = match self.index.allocate_item(category, name, id) {
            Ok(item) => item,
            Err(e) => {
                return Err(e);
            },
        };
        let source = Location::Path(source_path.to_owned());
        match self.resolvers[at].1.set(&item, source, &self.index) {
            Ok(actions) => Ok((item, persist_then(actions))),
            Err(e) => Err(e),
        }
    }

    /// Adds an address to a category as an item under `name`.
    pub fn alloc_url(&mut self, category: usize, name: &str, url: &str) -> (r: Result<
        (Item, Vec<Action>),
        Error,
    >)
        ensures
            ({
                let plan = alloc_url_plan(
                    old(self).index@,
                    old(self).route(),
                    category,
                    name@,
                    url@,
                );
                &&& final(self).index@ == plan.0
                &&& final(self).route() == old(self).route()
                &&& final(self).index_path_text() == old(self).index_path_text()
                &&& is_item_outcome(r, plan.1)
            }),
    {
        let at = match find_position(&self.resolvers, category) {
            Some(at) => at,
            None => {
                return Err(Error::NotFound);
            },
        };
        let item = match self.index.allocate_item(category, name, None) {
            Ok(item) => item,
            Err(e) => {
                return Err(e);
            },
        };
        let source = Location::URL(url.to_owned());
        match self.resolvers[at].1.set(&item, source, &self.index) {
            Ok(actions) => Ok((item, then_persist(actions))),
            Err(e) => Err(e),
        }
    }

    /// What has to be learnt to say where the item named by `id` lives;
    /// nothing where the slot is empty.
    pub fn locate(&self, id: &ID) -> (r: Result<Option<Lookup>, Error>)
        ensures
            match locate_plan(self.index@, self.route(), *id) {
                Ok(lookup) => r matches Ok(found) && lookup_option_model(found) == lookup,
                Err(e) => r matches Err(refusal) && refusal == e,
            },
    {
        let at = match find_position(&self.resolvers, id.category) {
            Some(at) => at,
            None => {
                return Err(Error::NotFound);
            },
        };
        match self.index.get_item(id) {
            Ok(Some(item)) => match self.resolvers[at].1.get(&item, &self.index) {
                Ok(lookup) => Ok(Some(lookup)),
                Err(e) => Err(e),
            },
            Ok(None) => Ok(None),
            Err(e) => Err(e),
        }
    }

    /// Moves the item named by `id` to another category. `evidence` is what
    /// was learnt outside for the lookup that `locate` gives for `id`.
    pub fn relocate(&mut self, id: &ID, category: usize, evidence: Evidence) -> (r: Result<
        (Item, Vec<Action>),
        Error,
    >)
        ensures
            ({
                let plan = relocate_plan(
                    old(self).index@,
                    old(self).route(),
                    *id,
                    category,
                    evidence@,
                );
                &&& final(self).index@ == plan.0
                &&& final(self).route() == old(self).route()
                &&& final(self).index_path_text() == old(self).index_path_text()
                &&& is_item_outcome(r, plan.1)
            }),
    {
        let item = match self.index.get_item(id) {
            Ok(Some(item)) => item,
            Ok(None) => {
                return Err(Error::NotFound);
            },
            Err(e) => {
                return Err(e);
            },
        };
        match self.index.remove_item(id) {
            Ok(()) => {},
            Err(e) => {
                return Err(e);
            },
        }
        let from = match find_position(&self.resolvers, id.category) {
            Some(from) => from,
            None => {
                return Err(Error::NotFound);
            },
        };
        let lookup = match self.resolvers[from].1.get(&item, &self.index) {
            Ok(lookup) => lookup,
            Err(e) => {
                return Err(e);
            },
        };
        let source = match lookup.conclude(evidence) {
            Some(source) => source,
            None => {
                return Err(Error::NotFound);
            },
        };
        let moved = match self.index.allocate_item(category, item.name.as_str(), None) {
            Ok(moved) => moved,
            Err(e) => {
                return Err(e);
            },
        };
        let to = match find_position(&self.resolvers, category) {
            Some(to) => to,
            None => {
                return Err(Error::NotFound);
            },
        };
        match self.resolvers[to].1.set(&moved, source, &self.index) {
            Ok(actions) => Ok((moved, then_persist(actions))),
            Err(e) => Err(e),
        }
    }

    /// Removes the item named by `id`. An empty slot is no refusal: the
    /// catalog is written as it is.
    pub fn rm(&mut self, id: &ID) -> (r: Result<Vec<Action>, Error>)
        ensures
            ({
                let plan = rm_plan(old(self).index@, old(self).route(), *id);
                &&& final(self).index@ == plan.0
                &&& final(self).route() == old(self).route()
                &&& final(self).index_path_text() == old(self).index_path_text()
                &&& is_outcome(r, plan.1)
            }),
    {
        let item = match self.index.get_item(id) {
            Ok(Some(item)) => item,
            Ok(None) => {
                return Ok(only_persist());
            },
            Err(e) => {
                return Err(e);
            },
        };
        match self.index.remove_item(id) {
            Ok(()) => {},
            Err(e) => {
                return Err(e);
            },
        }
        let at = match find_position(&self.resolvers, id.category) {
            Some(at) => at,
            None => {
                return Err(Error::NotFound);
            },
        };
        match self.resolvers[at].1.remove(&item, &self.index) {
            Ok(actions) => Ok(then_persist(actions)),
            Err(e) => Err(e),
        }
    }

    /// Gives a category another name.
    pub fn rename_category(&mut self, category: usize, new_name: &str) -> (r: Result<
        Vec<Action>,
        Error,
    >)
        ensures
            ({
                let plan = rename_category_plan(
                    old(self).index@,
                    old(self).route(),
                    category,
                    new_name@,
                );
                &&& final(self).index@ == plan.0
                &&& final(self).route() == old(self).route()
                &&& final(self).index_path_text() == old(self).index_path_text()
                &&& is_outcome(r, plan.1)
            }),
    {
        let at = match find_position(&self.resolvers, category) {
            Some(at) => at,
            None => {
                return Err(Error::NotFound);
            },
        };
        let actions = match self.resolvers[at].1.rename_category(category, new_name, &self.index) {
            Ok(actions) => actions,
            Err(e) => {
                return Err(e);
            },
        };
        match self.index.rename_category(category, new_name) {
            Ok(()) => Ok(then_persist(actions)),
            Err(e) => Err(e),
        }
    }

    /// Gives the item named by `id` another name; it keeps its identifier.
    pub fn rename(&mut self, id: ID, new_name: &str) -> (r: Result<(Item, Vec<Action>), Error>)
        ensures
            ({
                let plan = rename_plan(old(self).index@, old(self).route(), id, new_name@);
                &&& final(self).index@ == plan.0
                &&& final(self).route() == old(self).route()
                &&& final(self).index_path_text() == old(self).index_path_text()
                &&& is_item_outcome(r, plan.1)
            }),
    {
        let at = match find_position(&self.resolvers, id.category) {
            Some(at) => at,
            None => {
                return Err(Error::NotFound);
            },
        };
        let old_item = match self.index.get_item(&id) {
            Ok(Some(item)) => item,
            Ok(None) => {
                return Err(Error::NotFound);
            },
            Err(e) => {
                return Err(e);
            },
        };
        match self.index.remove_item(&id) {
            Ok(()) => {},
            Err(e) => {
                return Err(e);
            },
        }
        let new_item = match self.index.allocate_item(id.category, new_name, Some(&id)) {
            Ok(new_item) => new_item,
            Err(e) => {
                return Err(e);
            },
        };
        match self.resolvers[at].1.rename_item(&old_item, &new_item, &self.index) {
            Ok(actions) => Ok((new_item, then_persist(actions))),
            Err(e) => Err(e),
        }
    }

    /// For each resolver, in order, the directory whose content a rebuild has
    /// to be given, if the resolver takes part in a rebuild.
    pub fn scan_roots(&self) -> (r: Vec<Option<String>>)
        ensures
            r@.len() == self.route().len(),
            forall|i: int|
                0 <= i < r@.len() ==> match (#[trigger] self.route()[i]).1.scan_root() {
                    Some(root) => r@[i] matches Some(found) && found@ == root,
                    None => r@[i] is None,
                },
    {
        let mut out: Vec<Option<String>> = Vec::new();
        let mut i: usize = 0;
        while i < self.resolvers.len()
            invariant
                i <= self.resolvers@.len(),
                out@.len() == i,
                forall|j: int|
                    0 <= j < i ==> match (#[trigger] route_model(
                        self.resolvers@,
                    )[j]).1.scan_root() {
                        Some(root) => out@[j] matches Some(found) && found@ == root,
                        None => out@[j] is None,
                    },
            decreases self.resolvers@.len() - i,
        {
            out.push(self.resolvers[i].1.scan_root());
            i += 1;
        }
        out
    }

    /// Rebuilds the catalog from what the resolvers hold. `listings` holds,
    /// for each resolver in order, the content of the directory that
    /// `scan_roots` names for it; the entry of a resolver that takes no part
    /// is not read.
    pub fn rebuild(&mut self, listings: &Vec<Vec<AreaEntry>>) -> (r: Result<Vec<Action>, Error>)
        ensures
            ({
                let plan = rebuild_plan(old(self).index@, old(self).route(), listings@);
                &&& final(self).index@ == plan.0
                &&& final(self).route() == old(self).route()
                &&& final(self).index_path_text() == old(self).index_path_text()
                &&& is_outcome(r, plan.1)
            }),
    {
        if listings.len() != self.resolvers.len() {
            return Err(Error::Validation);
        }
        self.index = Index::new();
        let ghost route = self.route();
        let ghost start = ScanModel::start(IndexModel::empty());
        let n = self.resolvers.len();
        let mut i: usize = 0;
        while i < n
            invariant
                i <= n,
                n == self.resolvers@.len(),
                n == listings@.len(),
                route == self.route(),
                route == old(self).route(),
                self.index_path_text() == old(self).index_path_text(),
                start == ScanModel::start(IndexModel::empty()),
                collect_all(route, listings@, start, i as int) == ScanModel::start(self.index@),
            decreases n - i,
        {
            match self.resolvers[i].1.collect(&listings[i], &mut self.index) {
                Ok(()) => {},
                Err(e) => {
                    proof {
                        assert(collect_all(route, listings@, start, i + 1).refusal == Some(e));
                        assert(collect_all(route, listings@, start, i + 1).index == self.index@);
                        lemma_collect_all_ended(route, listings@, start, i + 1, n as int);
                    }
                    return Err(e);
                },
            }
            i += 1;
        }
        Ok(only_persist())
    }
}

} // verus!
