use johnny::config::{Config, Resolver, ResolverConfig, ResolverConstraint};
use johnny::disk::DiskResolver;
use johnny::github::GithubResolver;
use johnny::location::{join, Action, Evidence, Location, Lookup};
use johnny::menmos::MenmosResolver;
use johnny::resolver::{find_position, Backend};
use johnny::{Error, Index, Item, LocationResolver, ID};

fn personal() -> Index {
    let mut index = Index::new();
    index.create_area((10, 19), "Personal").unwrap();
    index.create_category(11, String::from("Finance")).unwrap();
    index
}

fn taxes() -> Item {
    Item { id: ID { category: 11, id: 1 }, name: String::from("taxes") }
}

#[test]
fn join_puts_one_separator_between() {
    assert_eq!(join("/data", "10-19 Personal"), "/data/10-19 Personal");
    assert_eq!(join("/data/", "10-19 Personal"), "/data/10-19 Personal");
    assert_eq!(join("", "x"), "x");
    assert_eq!(join("/", "x"), "/x");
    assert_eq!(join("rel", ""), "rel/");
}

#[test]
fn constraint_matches_one_or_a_range() {
    assert!(ResolverConstraint::ID(11).matches(11));
    assert!(!ResolverConstraint::ID(11).matches(12));
    assert!(ResolverConstraint::Range((10, 19)).matches(10));
    assert!(ResolverConstraint::Range((10, 19)).matches(19));
    assert!(!ResolverConstraint::Range((10, 19)).matches(20));
    assert!(!ResolverConstraint::Range((10, 19)).matches(9));
    assert!(!ResolverConstraint::Range((19, 10)).matches(15));
}

#[test]
fn first_matching_resolver_wins() {
    let resolvers = vec![
        (ResolverConstraint::ID(50), Backend::Github(GithubResolver::new(50))),
        (ResolverConstraint::Range((10, 19)), Backend::Disk(DiskResolver::new(String::from("/a")))),
        (ResolverConstraint::ID(11), Backend::Disk(DiskResolver::new(String::from("/b")))),
    ];
    assert_eq!(find_position(&resolvers, 11), Some(1));
    assert_eq!(find_position(&resolvers, 50), Some(0));
    assert_eq!(find_position(&resolvers, 20), None);
    assert_eq!(find_position(&Vec::new(), 11), None);
}

#[test]
fn disk_paths_follow_the_layout() {
    let disk = DiskResolver::new(String::from("/data"));
    let index = personal();
    assert_eq!(disk.root_path(), "/data");
    assert_eq!(disk.get_category_path(11, &index).unwrap(), "/data/10-19 Personal/11 Finance");
    assert_eq!(
        disk.get_item_path(&taxes(), &index).unwrap(),
        "/data/10-19 Personal/11 Finance/11.001 taxes"
    );
    assert_eq!(disk.get_category_path(12, &index).unwrap_err(), Error::NotFound);
    assert_eq!(disk.get_category_path(21, &index).unwrap_err(), Error::NotFound);
    assert_eq!(disk.get_category_path(100, &index).unwrap_err(), Error::Validation);
}

#[test]
fn disk_get_depends_on_the_category_directory() {
    let disk = DiskResolver::new(String::from("/data"));
    let index = personal();
    let lookup = disk.get(&taxes(), &index).unwrap();
    match &lookup {
        Lookup::IfDirectoryExists { directory, location } => {
            assert_eq!(directory, "/data/10-19 Personal/11 Finance");
            assert_eq!(location.to_string(), "/data/10-19 Personal/11 Finance/11.001 taxes");
            assert!(matches!(location, Location::Path(_)));
        }
        other => panic!("unexpected lookup {:?}", other),
    }
    assert!(lookup.conclude(Evidence::Directory(false)).is_none());
    let lookup = disk.get(&taxes(), &index).unwrap();
    assert!(lookup.conclude(Evidence::Nothing).is_none());
    let lookup = disk.get(&taxes(), &index).unwrap();
    let found = lookup.conclude(Evidence::Directory(true)).unwrap();
    assert_eq!(found.to_string(), "/data/10-19 Personal/11 Finance/11.001 taxes");
}

#[test]
fn disk_set_makes_the_directory_then_moves() {
    let disk = DiskResolver::new(String::from("/data"));
    let index = personal();
    let actions = disk.set(&taxes(), Location::Path(String::from("/tmp/taxes")), &index).unwrap();
    assert_eq!(actions.len(), 2);
    match &actions[0] {
        Action::CreateDirAll { path } => assert_eq!(path, "/data/10-19 Personal/11 Finance"),
        other => panic!("unexpected step {:?}", other),
    }
    match &actions[1] {
        Action::MoveDir { from, to } => {
            assert_eq!(from, "/tmp/taxes");
            assert_eq!(to, "/data/10-19 Personal/11 Finance/11.001 taxes");
        }
        other => panic!("unexpected step {:?}", other),
    }
    let url = Location::URL(String::from("https://example.org"));
    assert_eq!(disk.set(&taxes(), url, &index).unwrap_err(), Error::Unsupported);
}

#[test]
fn disk_remove_and_renames() {
    let disk = DiskResolver::new(String::from("/data"));
    let index = personal();
    let actions = disk.remove(&taxes(), &index).unwrap();
    assert!(matches!(&actions[..], [Action::RemoveDirAll { path }]
        if path == "/data/10-19 Personal/11 Finance/11.001 taxes"));
    let actions = disk.rename_category(11, "Finances", &index).unwrap();
    assert!(matches!(&actions[..], [Action::MoveDir { from, to }]
        if from == "/data/10-19 Personal/11 Finance" && to == "/data/10-19 Personal/11 Finances"));
    let renamed = Item { id: ID { category: 11, id: 1 }, name: String::from("taxes 2023") };
    let actions = disk.rename_item(&taxes(), &renamed, &index).unwrap();
    assert!(matches!(&actions[..], [Action::MoveDir { from, to }]
        if from == "/data/10-19 Personal/11 Finance/11.001 taxes"
            && to == "/data/10-19 Personal/11 Finance/11.001 taxes 2023"));
    assert_eq!(disk.rename_category(12, "x", &index).unwrap_err(), Error::NotFound);
}

#[test]
fn github_address_is_organization_and_repository() {
    let github = GithubResolver::new(15);
    assert_eq!(github.project_area(), 15);
    let mut index = personal();
    let item = index.allocate_item(11, "jd", None).unwrap();
    let repo = github.get_repo_url(&item.id, &index).unwrap();
    assert_eq!(repo.org, "Finance");
    assert_eq!(repo.name, "jd");
    match github.get(&item, &index).unwrap() {
        Lookup::Known(Location::URL(url)) => assert_eq!(url, "https://github.com/Finance/jd"),
        other => panic!("unexpected lookup {:?}", other),
    }
    let elsewhere = Item { id: ID { category: 21, id: 1 }, name: String::from("x") };
    assert_eq!(github.get(&elsewhere, &index).unwrap_err(), Error::Validation);
    let missing = Item { id: ID { category: 11, id: 2 }, name: String::from("x") };
    assert_eq!(github.get(&missing, &index).unwrap_err(), Error::NotFound);
    let no_category = Item { id: ID { category: 12, id: 1 }, name: String::from("x") };
    assert_eq!(github.get(&no_category, &index).unwrap_err(), Error::NotFound);
}

#[test]
fn github_supports_neither_removal_nor_renaming() {
    let github = GithubResolver::new(10);
    let index = personal();
    assert!(github.set(&taxes(), Location::Path(String::from("/tmp")), &index).unwrap().is_empty());
    assert_eq!(github.remove(&taxes(), &index).unwrap_err(), Error::Unsupported);
    assert_eq!(github.rename_category(11, "x", &index).unwrap_err(), Error::Unsupported);
    assert_eq!(github.rename_item(&taxes(), &taxes(), &index).unwrap_err(), Error::Unsupported);
}

#[test]
fn menmos_queries_by_identifier_and_uploads_paths() {
    let menmos = MenmosResolver::new("home");
    assert_eq!(menmos.profile(), "home");
    let index = personal();
    match menmos.get(&taxes(), &index).unwrap() {
        Lookup::StoreQuery { profile, key, value } => {
            assert_eq!(profile, "home");
            assert_eq!(key, "jd_id");
            assert_eq!(value, "11.001");
        }
        other => panic!("unexpected lookup {:?}", other),
    }
    let lookup = menmos.get(&taxes(), &index).unwrap();
    let hit = lookup.conclude(Evidence::Store(Some(String::from("https://store/blob")))).unwrap();
    assert!(matches!(hit, Location::URL(url) if url == "https://store/blob"));
    let lookup = menmos.get(&taxes(), &index).unwrap();
    assert!(lookup.conclude(Evidence::Store(None)).is_none());

    let actions = menmos.set(&taxes(), Location::Path(String::from("/tmp/taxes")), &index).unwrap();
    assert!(matches!(&actions[..], [Action::UploadDir { profile, source, item }]
        if profile == "home" && source == "/tmp/taxes" && item.id == taxes().id && item.name == "taxes"));
    let url = Location::URL(String::from("https://example.org"));
    assert!(menmos.set(&taxes(), url, &index).unwrap().is_empty());
    assert_eq!(menmos.remove(&taxes(), &index).unwrap_err(), Error::Unsupported);
    assert_eq!(menmos.rename_category(11, "x", &index).unwrap_err(), Error::Unsupported);
    assert_eq!(menmos.rename_item(&taxes(), &taxes(), &index).unwrap_err(), Error::Unsupported);
}

#[test]
fn backend_is_made_from_its_configuration() {
    let disk = Backend::from_config(&ResolverConfig::DiskResolver { root: String::from("/data") });
    assert_eq!(disk.scan_root(), Some(String::from("/data")));
    let github = Backend::from_config(&ResolverConfig::GithubResolver { github_area: 20 });
    assert!(matches!(&github, Backend::Github(r) if r.project_area() == 20));
    assert_eq!(github.scan_root(), None);
    let menmos =
        Backend::from_config(&ResolverConfig::MenmosResolver { profile: String::from("home") });
    assert!(matches!(&menmos, Backend::Menmos(r) if r.profile() == "home"));
    let index = personal();
    assert_eq!(menmos.remove(&taxes(), &index).unwrap_err(), Error::Unsupported);
    assert_eq!(disk.remove(&taxes(), &index).unwrap().len(), 1);
    assert_eq!(github.rename_category(11, "x", &index).unwrap_err(), Error::Unsupported);
    assert_eq!(disk.rename_category(11, "x", &index).unwrap().len(), 1);
    assert_eq!(disk.rename_item(&taxes(), &taxes(), &index).unwrap().len(), 1);
    assert!(matches!(disk.get(&taxes(), &index).unwrap(), Lookup::IfDirectoryExists { .. }));
}

#[test]
fn default_configuration_lies_under_the_data_directory() {
    let config = Config::default_in("/home/u/.local/share");
    assert_eq!(config.index_path, "/home/u/.local/share/dalloriam/jd/index.json");
    assert!(config.resolvers.is_empty());
    let copy = ResolverConfig::MenmosResolver { profile: String::from("p") }.clone();
    assert!(matches!(copy, ResolverConfig::MenmosResolver { profile } if profile == "p"));
    let resolver = Resolver {
        constraint: ResolverConstraint::ID(1),
        config: ResolverConfig::GithubResolver { github_area: 1 },
    };
    assert!(resolver.constraint.matches(1));
}

fn plan_removal<R: LocationResolver>(resolver: &R, index: &Index) -> Result<usize, Error> {
    resolver.remove(&taxes(), index).map(|actions| actions.len())
}

#[test]
fn resolvers_answer_through_the_common_interface() {
    let index = personal();
    assert_eq!(plan_removal(&DiskResolver::new(String::from("/data")), &index), Ok(1));
    assert_eq!(plan_removal(&GithubResolver::new(10), &index), Err(Error::Unsupported));
    assert_eq!(plan_removal(&MenmosResolver::new("home"), &index), Err(Error::Unsupported));
    let backend = Backend::Disk(DiskResolver::new(String::from("/data")));
    assert_eq!(plan_removal(&backend, &index), Ok(1));
    let mut rebuilt = Index::new();
    let github = GithubResolver::new(10);
    assert_eq!(LocationResolver::collect(&github, &vec![], &mut rebuilt), Ok(()));
    assert!(rebuilt.list_areas().is_empty());
}
