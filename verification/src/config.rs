//! What the catalog is configured with: where it is kept, and which resolver
//! answers for which categories.

use vstd::prelude::*;
use vstd::string::*;

use crate::location::{join, joined};

verus! {

/// The backend of a resolver and what it needs to know.
#[derive(Debug)]
pub enum ResolverConfig {
    /// Directories under the root path `root`.
    DiskResolver { root: String },
    /// Repositories of a code host, for the area that holds `github_area`.
    GithubResolver { github_area: usize },
    /// Records of an object store, reached with the profile `profile`.
    MenmosResolver { profile: String },
}

impl Clone for ResolverConfig {
    fn clone(&self) -> (r: ResolverConfig)
        ensures
            r == *self,
    {
        match self {
            ResolverConfig::DiskResolver { root } => ResolverConfig::DiskResolver {
                root: root.clone(),
            },
            ResolverConfig::GithubResolver { github_area } => ResolverConfig::GithubResolver {
                github_area: *github_area,
            },
            ResolverConfig::MenmosResolver { profile } => ResolverConfig::MenmosResolver {
                profile: profile.clone(),
            },
        }
    }
}

/// The categories that a resolver answers for: one, or all of a range with
/// both ends included.
#[derive(Clone, Copy, Debug)]
pub enum ResolverConstraint {
    ID(usize),
    Range((usize, usize)),
}

impl ResolverConstraint {
    /// Whether the constraint holds of the category number `id`.
    pub open spec fn admits(self, id: usize) -> bool {
        match self {
            ResolverConstraint::ID(i) => id == i,
            ResolverConstraint::Range(range) => range.0 <= id <= range.1,
        }
    }

    /// Whether the constraint holds of the category number `id`.
    pub fn matches(&self, id: usize) -> (r: bool)
        ensures
            r == self.admits(id),
    {
        match self {
            ResolverConstraint::ID(i) => id == *i,
            ResolverConstraint::Range(range) => id >= range.0 && id <= range.1,
        }
    }
}

/// One configured resolver.
#[derive(Debug)]
pub struct Resolver {
    pub constraint: ResolverConstraint,
    pub config: ResolverConfig,
}

/// The configuration: the path of the file that keeps the catalog, and the
/// resolvers in the order in which they are tried.
#[derive(Debug)]
pub struct Config {
    pub index_path: String,
    pub resolvers: Vec<Resolver>,
}

impl Clone for Resolver {
    fn clone(&self) -> (r: Resolver)
        ensures
            r == *self,
    {
        Resolver { constraint: self.constraint, config: self.config.clone() }
    }
}

impl Clone for Config {
    fn clone(&self) -> (r: Config)
        ensures
            r.index_path == self.index_path,
            r.resolvers@ == self.resolvers@,
    {
        let mut resolvers: Vec<Resolver> = Vec::new();
        let mut i: usize = 0;
        while i < self.resolvers.len()
            invariant
                i <= self.resolvers@.len(),
                resolvers@.len() == i,
                forall|j: int| 0 <= j < i ==> resolvers@[j] == self.resolvers@[j],
            decreases self.resolvers@.len() - i,
        {
            resolvers.push(self.resolvers[i].clone());
            i += 1;
        }
        assert(resolvers@ =~= self.resolvers@);
        Config { index_path: self.index_path.clone(), resolvers }
    }
}

/// The path of the catalog file under a data directory.
pub open spec fn default_index_path(data_dir: Seq<char>) -> Seq<char> {
    joined(joined(joined(data_dir, "dalloriam"@), "jd"@), "index.json"@)
}

impl Config {
    /// The configuration used where none is written down: the catalog file
    /// under the data directory `data_dir`, and no resolver.
    pub fn default_in(data_dir: &str) -> (r: Config)
        ensures
            r.index_path@ == default_index_path(data_dir@),
            r.resolvers@.len() == 0,
    {
        let vendor = join(data_dir, "dalloriam");
        let tool = join(vendor.as_str(), "jd");
        let index_path = join(tool.as_str(), "index.json");
        Config { index_path, resolvers: Vec::new() }
    }
}

} // verus!
