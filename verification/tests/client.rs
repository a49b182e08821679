use johnny::config::{Config, Resolver, ResolverConfig, ResolverConstraint};
use johnny::location::{Action, Evidence, Location, Lookup};
use johnny::scan::{AreaEntry, CategoryEntry, ItemEntry};
use johnny::{Error, Index, JohnnyDecimal, ID};

fn config() -> Config {
    Config {
        index_path: String::from("/state/index.json"),
        resolvers: vec![
            Resolver {
                constraint: ResolverConstraint::Range((10, 19)),
                config: ResolverConfig::DiskResolver { root: String::from("/data") },
            },
            Resolver {
                constraint: ResolverConstraint::Range((20, 29)),
                config: ResolverConfig::GithubResolver { github_area: 20 },
            },
            Resolver {
                constraint: ResolverConstraint::Range((30, 39)),
                config: ResolverConfig::MenmosResolver { profile: String::from("home") },
            },
            Resolver {
                constraint: ResolverConstraint::Range((10, 49)),
                config: ResolverConfig::DiskResolver { root: String::from("/other") },
            },
        ],
    }
}

fn client() -> JohnnyDecimal {
    let mut index = Index::new();
    index.create_area((10, 19), "Personal").unwrap();
    index.create_category(11, String::from("Finance")).unwrap();
    index.create_category(12, String::from("Health")).unwrap();
    index.create_area((20, 29), "Code").unwrap();
    index.create_category(21, String::from("dalloriam")).unwrap();
    index.create_area((30, 39), "Media").unwrap();
    index.create_category(31, String::from("Photos")).unwrap();
    index.create_area((50, 59), "Loose").unwrap();
    index.create_category(51, String::from("Unrouted")).unwrap();
    JohnnyDecimal::new(config(), Some(index)).unwrap()
}

fn texts(actions: &[Action]) -> Vec<String> {
    actions
        .iter()
        .map(|action| match action {
            Action::CreateDirAll { path } => format!("mkdir {}", path),
            Action::MoveDir { from, to } => format!("move {} -> {}", from, to),
            Action::RemoveDirAll { path } => format!("remove {}", path),
            Action::UploadDir { profile, source, item } => {
                format!("upload {} as {} to {}", source, item.to_string(), profile)
            }
            Action::Persist => String::from("persist"),
        })
        .collect()
}

#[test]
fn new_client_starts_empty_without_a_loaded_catalog() {
    let jd = JohnnyDecimal::new(config(), None).unwrap();
    assert!(jd.index.list_areas().is_empty());
    assert_eq!(jd.index_path(), "/state/index.json");
    assert_eq!(jd.resolvers.len(), 4);
    assert!(jd.find_resolver(11).is_some());
    assert!(jd.find_resolver(51).is_none());
    assert_eq!(jd.find_resolver(45).unwrap().scan_root(), Some(String::from("/other")));
    assert_eq!(jd.find_resolver(15).unwrap().scan_root(), Some(String::from("/data")));
}

#[test]
fn add_from_path_allocates_persists_and_moves() {
    let mut jd = client();
    let (item, actions) = jd.mv(11, "taxes", "/tmp/taxes", None).unwrap();
    assert_eq!(item.to_string(), "11.001 taxes");
    assert_eq!(
        texts(&actions),
        vec![
            "persist",
            "mkdir /data/10-19 Personal/11 Finance",
            "move /tmp/taxes -> /data/10-19 Personal/11 Finance/11.001 taxes",
        ]
    );
    assert_eq!(jd.index.get_item(&item.id).unwrap().unwrap().name, "taxes");
}

#[test]
fn add_from_path_with_explicit_identifier() {
    let mut jd = client();
    let id = ID { category: 11, id: 7 };
    let (item, _) = jd.mv(11, "taxes", "/tmp/taxes", Some(&id)).unwrap();
    assert_eq!(item.id, id);
    assert_eq!(jd.mv(11, "again", "/tmp/x", Some(&id)).unwrap_err(), Error::Conflict);
}

#[test]
fn add_from_path_needs_a_resolver_and_a_category() {
    let mut jd = client();
    assert_eq!(jd.mv(51, "x", "/tmp/x", None).unwrap_err(), Error::NotFound);
    assert!(jd.index.list_items(51).unwrap().is_empty());
    assert_eq!(jd.mv(13, "x", "/tmp/x", None).unwrap_err(), Error::NotFound);
    assert_eq!(jd.mv(45, "x", "/tmp/x", None).unwrap_err(), Error::NotFound);
}

#[test]
fn add_to_object_store_uploads_after_persisting() {
    let mut jd = client();
    let (item, actions) = jd.mv(31, "holiday", "/tmp/holiday", None).unwrap();
    assert_eq!(item.to_string(), "31.001 holiday");
    assert_eq!(texts(&actions), vec!["persist", "upload /tmp/holiday as 31.001 holiday to home"]);
}

#[test]
fn add_url_persists_last() {
    let mut jd = client();
    let (item, actions) = jd.alloc_url(21, "jd", "https://github.com/dalloriam/jd").unwrap();
    assert_eq!(item.to_string(), "21.001 jd");
    assert_eq!(texts(&actions), vec!["persist"]);
    let (_, actions) = jd.alloc_url(31, "clip", "https://example.org/clip").unwrap();
    assert_eq!(texts(&actions), vec!["persist"]);
}

#[test]
fn add_url_to_disk_is_unsupported_but_allocates() {
    let mut jd = client();
    assert_eq!(jd.alloc_url(11, "x", "https://example.org").unwrap_err(), Error::Unsupported);
    assert_eq!(jd.index.list_items(11).unwrap().len(), 1);
    assert_eq!(jd.alloc_url(51, "x", "https://example.org").unwrap_err(), Error::NotFound);
}

#[test]
fn locate_routes_to_the_resolver() {
    let mut jd = client();
    let (item, _) = jd.mv(11, "taxes", "/tmp/taxes", None).unwrap();
    match jd.locate(&item.id).unwrap().unwrap() {
        Lookup::IfDirectoryExists { directory, location } => {
            assert_eq!(directory, "/data/10-19 Personal/11 Finance");
            assert_eq!(location.to_string(), "/data/10-19 Personal/11 Finance/11.001 taxes");
        }
        other => panic!("unexpected lookup {:?}", other),
    }
    assert!(jd.locate(&ID { category: 11, id: 2 }).unwrap().is_none());
    assert_eq!(jd.locate(&ID { category: 51, id: 1 }).unwrap_err(), Error::NotFound);
    assert_eq!(jd.locate(&ID { category: 13, id: 1 }).unwrap_err(), Error::NotFound);
    let (repo, _) = jd.alloc_url(21, "jd", "ignored").unwrap();
    match jd.locate(&repo.id).unwrap().unwrap() {
        Lookup::Known(Location::URL(url)) => assert_eq!(url, "https://github.com/dalloriam/jd"),
        other => panic!("unexpected lookup {:?}", other),
    }
}

#[test]
fn relocate_moves_to_the_lowest_free_slot_of_the_target() {
    let mut jd = client();
    let (item, _) = jd.mv(11, "taxes", "/tmp/taxes", None).unwrap();
    jd.mv(12, "first", "/tmp/first", None).unwrap();
    let (moved, actions) = jd.relocate(&item.id, 12, Evidence::Directory(true)).unwrap();
    assert_eq!(moved.to_string(), "12.002 taxes");
    assert_eq!(
        texts(&actions),
        vec![
            "mkdir /data/10-19 Personal/12 Health",
            "move /data/10-19 Personal/11 Finance/11.001 taxes -> /data/10-19 Personal/12 Health/12.002 taxes",
            "persist",
        ]
    );
    assert!(jd.index.get_item(&item.id).unwrap().is_none());
    assert_eq!(jd.index.get_item(&moved.id).unwrap().unwrap().name, "taxes");
}

#[test]
fn relocate_fails_when_the_source_is_not_materialized() {
    let mut jd = client();
    let (item, _) = jd.mv(11, "taxes", "/tmp/taxes", None).unwrap();
    assert_eq!(
        jd.relocate(&item.id, 12, Evidence::Directory(false)).unwrap_err(),
        Error::NotFound
    );
    assert!(jd.index.get_item(&item.id).unwrap().is_none());
    assert!(jd.index.list_items(12).unwrap().is_empty());
}

#[test]
fn relocate_reports_missing_items_and_targets() {
    let mut jd = client();
    assert_eq!(
        jd.relocate(&ID { category: 11, id: 1 }, 12, Evidence::Directory(true)).unwrap_err(),
        Error::NotFound
    );
    let (item, _) = jd.mv(11, "taxes", "/tmp/taxes", None).unwrap();
    assert_eq!(
        jd.relocate(&item.id, 13, Evidence::Directory(true)).unwrap_err(),
        Error::NotFound
    );
    let (item, _) = jd.mv(11, "more", "/tmp/more", None).unwrap();
    assert_eq!(
        jd.relocate(&item.id, 51, Evidence::Directory(true)).unwrap_err(),
        Error::NotFound
    );
    assert_eq!(jd.index.list_items(51).unwrap().len(), 1);
}

#[test]
fn relocate_within_the_store_uploads_nothing_for_an_address() {
    let mut jd = client();
    let (item, _) = jd.mv(31, "holiday", "/tmp/holiday", None).unwrap();
    let evidence = Evidence::Store(Some(String::from("https://store/blob/1")));
    let (moved, actions) = jd.relocate(&item.id, 31, evidence).unwrap();
    assert_eq!(moved.to_string(), "31.001 holiday");
    assert_eq!(texts(&actions), vec!["persist"]);
}

#[test]
fn remove_deletes_then_persists() {
    let mut jd = client();
    let (item, _) = jd.mv(11, "taxes", "/tmp/taxes", None).unwrap();
    let actions = jd.rm(&item.id).unwrap();
    assert_eq!(
        texts(&actions),
        vec!["remove /data/10-19 Personal/11 Finance/11.001 taxes", "persist"]
    );
    assert!(jd.index.get_item(&item.id).unwrap().is_none());
}

#[test]
fn remove_of_an_absent_item_only_persists() {
    let mut jd = client();
    let actions = jd.rm(&ID { category: 11, id: 5 }).unwrap();
    assert_eq!(texts(&actions), vec!["persist"]);
    assert_eq!(jd.rm(&ID { category: 13, id: 5 }).unwrap_err(), Error::NotFound);
    assert_eq!(jd.rm(&ID { category: 11, id: 1000 }).unwrap_err(), Error::Validation);
}

#[test]
fn remove_from_unsupporting_resolver_fails_after_the_catalog_changed() {
    let mut jd = client();
    let (repo, _) = jd.alloc_url(21, "jd", "ignored").unwrap();
    assert_eq!(jd.rm(&repo.id).unwrap_err(), Error::Unsupported);
    assert!(jd.index.get_item(&repo.id).unwrap().is_none());
}

#[test]
fn rename_category_moves_the_directory_then_persists() {
    let mut jd = client();
    let actions = jd.rename_category(11, "Finances").unwrap();
    assert_eq!(
        texts(&actions),
        vec![
            "move /data/10-19 Personal/11 Finance -> /data/10-19 Personal/11 Finances",
            "persist",
        ]
    );
    assert_eq!(jd.index.get_category(11).unwrap().name(), "Finances");
    assert_eq!(jd.rename_category(21, "x").unwrap_err(), Error::Unsupported);
    assert_eq!(jd.index.get_category(21).unwrap().name(), "dalloriam");
    assert_eq!(jd.rename_category(51, "x").unwrap_err(), Error::NotFound);
    assert_eq!(jd.rename_category(13, "x").unwrap_err(), Error::NotFound);
}

#[test]
fn rename_keeps_the_identifier() {
    let mut jd = client();
    let (item, _) = jd.mv(11, "taxes", "/tmp/taxes", None).unwrap();
    let (renamed, actions) = jd.rename(item.id, "taxes 2023").unwrap();
    assert_eq!(renamed.to_string(), "11.001 taxes 2023");
    assert_eq!(
        texts(&actions),
        vec![
            "move /data/10-19 Personal/11 Finance/11.001 taxes -> /data/10-19 Personal/11 Finance/11.001 taxes 2023",
            "persist",
        ]
    );
    assert_eq!(jd.index.get_item(&item.id).unwrap().unwrap().name, "taxes 2023");
    assert_eq!(jd.rename(ID { category: 11, id: 9 }, "x").unwrap_err(), Error::NotFound);
    assert_eq!(jd.rename(ID { category: 51, id: 1 }, "x").unwrap_err(), Error::NotFound);
    let (repo, _) = jd.alloc_url(21, "jd", "ignored").unwrap();
    assert_eq!(jd.rename(repo.id, "jd2").unwrap_err(), Error::Unsupported);
    assert_eq!(jd.index.get_item(&repo.id).unwrap().unwrap().name, "jd2");
}

fn dir(name: &str) -> ItemEntry {
    ItemEntry { name: String::from(name), is_dir: true }
}

fn listing() -> Vec<AreaEntry> {
    vec![
        AreaEntry { name: String::from(".DS_Store"), is_dir: false, categories: vec![] },
        AreaEntry {
            name: String::from("10-19 Personal"),
            is_dir: true,
            categories: vec![
                CategoryEntry {
                    name: String::from("11 Finance"),
                    is_dir: true,
                    items: vec![dir("11.001 taxes"), dir(".hidden"), dir("11.007 bank")],
                },
                CategoryEntry { name: String::from("12 Health"), is_dir: true, items: vec![] },
            ],
        },
        AreaEntry { name: String::from("40-49 Hobbies"), is_dir: true, categories: vec![] },
    ]
}

#[test]
fn rebuild_collects_from_every_disk_resolver() {
    let mut jd = client();
    assert_eq!(
        jd.scan_roots(),
        vec![Some(String::from("/data")), None, None, Some(String::from("/other"))]
    );
    let other = vec![AreaEntry {
        name: String::from("20-29 Code"),
        is_dir: true,
        categories: vec![],
    }];
    let actions = jd.rebuild(&vec![listing(), vec![], vec![], other]).unwrap();
    assert_eq!(texts(&actions), vec!["persist"]);
    let areas: Vec<String> = jd.index.list_areas().iter().map(|a| a.to_string()).collect();
    assert_eq!(areas, vec!["10-19 Personal", "20-29 Code", "40-49 Hobbies"]);
    let items: Vec<String> =
        jd.index.list_items(11).unwrap().iter().map(|i| i.to_string()).collect();
    assert_eq!(items, vec!["11.001 taxes", "11.007 bank"]);
}

#[test]
fn rebuild_stops_at_the_first_refusal() {
    let mut jd = client();
    let again = vec![AreaEntry {
        name: String::from("10-19 Twice"),
        is_dir: true,
        categories: vec![],
    }];
    assert_eq!(jd.rebuild(&vec![listing(), vec![], vec![], again]).unwrap_err(), Error::Conflict);
    assert_eq!(jd.index.list_areas().len(), 2);
    assert_eq!(jd.rebuild(&vec![listing()]).unwrap_err(), Error::Validation);
    assert_eq!(jd.index.list_areas().len(), 2);
}
