//! The resolver that answers for one area with the repositories of a code
//! host: the category names the organization, the item the repository.

use vstd::prelude::*;
use vstd::string::*;

use crate::error::Error;
use crate::index::{Index, IndexModel};
use crate::item::{Item, ItemModel, ID};
use crate::location::{Action, Location, LocationModel, Lookup, LookupModel};

verus! {

/// The organization and the name of the repository that an identifier
/// stands for: the name of its category and the name of its item. The
/// identifier must be of the area of the resolver, and the item must be in
/// the catalog.
pub open spec fn repo_of(project_area: usize, id: ID, index: IndexModel) -> Result<
    (Seq<char>, Seq<char>),
    Error,
> {
    if id.category / 10 != project_area / 10 {
        Err(Error::Validation)
    } else {
        match index.category(id.category) {
            Ok(category) => match category.get(id) {
                Ok(Some(item)) => Ok((category.name, item.name)),
                Ok(None) => Err(Error::NotFound),
                Err(e) => Err(e),
            },
            Err(e) => Err(e),
        }
    }
}

/// The address of a repository.
pub open spec fn repo_url(org: Seq<char>, name: Seq<char>) -> Seq<char> {
    "https://github.com/"@ + org + seq!['/'] + name
}

/// Where an item lives on the code host.
pub open spec fn github_get(project_area: usize, item: ItemModel, index: IndexModel) -> Result<
    LookupModel,
    Error,
> {
    match repo_of(project_area, item.id, index) {
        Ok((org, name)) => Ok(LookupModel::Known(LocationModel::URL(repo_url(org, name)))),
        Err(e) => Err(e),
    }
}

/// A repository: the organization that owns it and its name.
#[derive(Debug)]
pub struct Repo {
    pub org: String,
    pub name: String,
}

/// A resolver over the repositories of one area.
#[derive(Debug)]
pub struct GithubResolver {
    project_area: usize,
}

impl GithubResolver {
    /// The number that names the area of the resolver.
    pub closed spec fn area(&self) -> usize {
        self.project_area
    }

    /// The resolver for the area that holds the number `area`.
    pub fn new(area: usize) -> (r: GithubResolver)
        ensures
            r.area() == area,
    {
        GithubResolver { project_area: area }
    }

    /// The number that names the area of the resolver.
    pub fn project_area(&self) -> (r: usize)
        ensures
            r == self.area(),
    {
        self.project_area
    }

    /// The repository that an identifier stands for.
    pub fn get_repo_url(&self, id: &ID, index: &Index) -> (r: Result<Repo, Error>)
        ensures
            match repo_of(self.area(), *id, index@) {
                Ok((org, name)) => r matches Ok(repo) && repo.org@ == org && repo.name@ == name,
                Err(e) => r matches Err(refusal) && refusal == e,
            },
    {
        if id.category / 10 != self.project_area / 10 {
            return Err(Error::Validation);
        }
        let category = match index.get_category(id.category) {
            Ok(category) => category,
            Err(e) => {
                return Err(e);
            },
        };
        match category.get_item(id) {
            Ok(Some(item)) => Ok(Repo { org: category.name().to_owned(), name: item.name }),
            Ok(None) => Err(Error::NotFound),
            Err(e) => Err(e),
        }
    }

    /// Where the item lives: the address of its repository, known from the
    /// catalog alone.
    pub fn get(&self, item: &Item, index: &Index) -> (r: Result<Lookup, Error>)
        ensures
            match github_get(self.area(), item@, index@) {
                Ok(lookup) => r matches Ok(found) && found@ == lookup,
                Err(e) => r matches Err(refusal) && refusal == e,
            },
    {
        match self.get_repo_url(&item.id, index) {
            Ok(repo) => {
                let mut url = "https://github.com/".to_owned();
                url.append(repo.org.as_str());
                url.push('/');
                url.append(repo.name.as_str());
                assert(url@ =~= repo_url(repo.org@, repo.name@));
                Ok(Lookup::Known(Location::URL(url)))
            },
            Err(e) => Err(e),
        }
    }

    /// Nothing is to be done to put an item in place: the content is with the
    /// code host already.
    pub fn set(&self, item: &Item, src_location: Location, index: &Index) -> (r: Result<
        Vec<Action>,
        Error,
    >)
        ensures
            r matches Ok(actions) && actions@.len() == 0,
    {
        Ok(Vec::new())
    }

    /// Removing a repository is not supported.
    pub fn remove(&self, item: &Item, index: &Index) -> (r: Result<Vec<Action>, Error>)
        ensures
            r matches Err(refusal) && refusal == Error::Unsupported,
    {
        Err(Error::Unsupported)
    }

    /// Renaming a category is not supported: it would rename the
    /// organization.
    pub fn rename_category(&self, category: usize, new_name: &str, index: &Index) -> (r: Result<
        Vec<Action>,
        Error,
    >)
        ensures
            r matches Err(refusal) && refusal == Error::Unsupported,
    {
        Err(Error::Unsupported)
    }

    /// Renaming an item is not supported: it would rename the repository.
    pub fn rename_item(&self, old_item: &Item, new_item: &Item, index: &Index) -> (r: Result<
        Vec<Action>,
        Error,
    >)
        ensures
            r matches Err(refusal) && refusal == Error::Unsupported,
    {
        Err(Error::Unsupported)
    }
}

} // verus!
