use johnny::commands::{MkAreaCommand, MkCatCommand, MoveCommand};
use johnny::config::Config;
use johnny::location::Action;
use johnny::upload::{BlobKind, BlobMeta, Upload};
use johnny::views::Viewer;
use johnny::{Error, Item, JohnnyDecimal, ID};

fn taxes() -> Item {
    Item { id: ID { category: 11, id: 1 }, name: String::from("taxes") }
}

fn strings(values: &[&str]) -> Vec<String> {
    values.iter().map(|v| String::from(*v)).collect()
}

#[test]
fn item_record_carries_the_identifier() {
    let meta = BlobMeta::for_item(&taxes());
    assert_eq!(meta.name, "taxes");
    assert_eq!(meta.kind, BlobKind::Directory);
    assert_eq!(meta.parent, None);
    assert_eq!(meta.size, None);
    assert!(meta.tags.is_empty());
    assert_eq!(meta.metadata, vec![(String::from("jd_id"), String::from("11.001"))]);
}

#[test]
fn entry_record_names_parent_and_item() {
    let file = BlobMeta::for_entry("a.txt", BlobKind::File, "blob-1", 42, &taxes());
    assert_eq!(file.name, "a.txt");
    assert_eq!(file.kind, BlobKind::File);
    assert_eq!(file.parent, Some(String::from("blob-1")));
    assert_eq!(file.size, Some(42));
    assert_eq!(file.tags, strings(&["jd_item"]));
    assert_eq!(file.metadata, vec![(String::from("jd_parent_id"), String::from("11.001"))]);
    let directory = BlobMeta::for_entry("sub", BlobKind::Directory, "blob-1", 42, &taxes());
    assert_eq!(directory.size, None);
    assert_eq!(directory.kind, BlobKind::Directory);
}

#[test]
fn walk_is_depth_first_and_parents_come_first() {
    let mut walk = Upload::new(String::from("root"), strings(&["/s/a", "/s/d", "/s/b"]));
    assert!(!walk.is_done());
    assert_eq!(walk.next(), Some((String::from("root"), String::from("/s/b"))));
    assert_eq!(walk.next(), Some((String::from("root"), String::from("/s/d"))));
    walk.descend(String::from("id-d"), strings(&["/s/d/x", "/s/d/y"]));
    assert_eq!(walk.next(), Some((String::from("id-d"), String::from("/s/d/y"))));
    walk.descend(String::from("id-y"), strings(&[]));
    assert_eq!(walk.next(), Some((String::from("id-d"), String::from("/s/d/x"))));
    assert_eq!(walk.next(), Some((String::from("root"), String::from("/s/a"))));
    assert!(walk.is_done());
    assert_eq!(walk.next(), None);
    assert_eq!(walk.next(), None);
}

#[test]
fn empty_directory_has_nothing_to_visit() {
    let mut walk = Upload::new(String::from("root"), vec![]);
    assert!(walk.is_done());
    assert_eq!(walk.next(), None);
}

fn client() -> JohnnyDecimal {
    JohnnyDecimal::new(Config::default_in("/d"), None).unwrap()
}

#[test]
fn make_area_rounds_down_to_the_ten() {
    let command = MkAreaCommand { area: 17, name: String::from("Personal") };
    assert_eq!(command.bounds(), Some((10, 19)));
    let mut jd = client();
    let (text, actions) = command.run(&mut jd).unwrap();
    assert_eq!(text, "10-19 Personal");
    assert!(matches!(&actions[..], [Action::Persist]));
    assert_eq!(command.run(&mut jd).unwrap_err(), Error::Conflict);
    let far = MkAreaCommand { area: 100, name: String::from("x") };
    assert_eq!(far.bounds(), Some((100, 109)));
    assert_eq!(far.run(&mut jd).unwrap_err(), Error::Validation);
    let huge = MkAreaCommand { area: usize::MAX, name: String::from("x") };
    assert_eq!(huge.bounds(), None);
    assert_eq!(huge.run(&mut jd).unwrap_err(), Error::Validation);
    assert_eq!(MkAreaCommand { area: 0, name: String::new() }.bounds(), Some((0, 9)));
}

#[test]
fn make_category_needs_the_area() {
    let mut jd = client();
    let command = MkCatCommand { category: 11, name: String::from("Finance") };
    assert_eq!(command.run(&mut jd).unwrap_err(), Error::NotFound);
    MkAreaCommand { area: 10, name: String::from("Personal") }.run(&mut jd).unwrap();
    let actions = command.run(&mut jd).unwrap();
    assert!(matches!(&actions[..], [Action::Persist]));
    assert_eq!(command.run(&mut jd).unwrap_err(), Error::Conflict);
    assert_eq!(jd.index.get_category(11).unwrap().to_string(), "11 Finance");
}

#[test]
fn identifier_goes_with_one_path_only() {
    let id = Some(ID { category: 11, id: 1 });
    let one = MoveCommand { category: 11, id, files: strings(&["/a"]) };
    assert_eq!(one.validate_id(), Ok(()));
    let two = MoveCommand { category: 11, id, files: strings(&["/a", "/b"]) };
    assert_eq!(two.validate_id(), Err(Error::Validation));
    let free = MoveCommand { category: 11, id: None, files: strings(&["/a", "/b"]) };
    assert_eq!(free.validate_id(), Ok(()));
    let none = MoveCommand { category: 11, id, files: vec![] };
    assert_eq!(none.validate_id(), Ok(()));
}

#[test]
fn views_show_item_and_category() {
    let mut jd = client();
    jd.index.create_area((10, 19), "Personal").unwrap();
    jd.index.create_category(11, String::from("Finance")).unwrap();
    let item = jd.index.allocate_item(11, "taxes", None).unwrap();
    let viewer = Viewer::new(&jd);
    let view = viewer.item(&item).unwrap();
    assert_eq!(view.id, "11.001");
    assert_eq!(view.name, "taxes");
    assert_eq!(view.category_name, "11 Finance");
    assert_eq!(view.category.id, 11);
    assert_eq!(view.category.name, "Finance");
    let category = viewer.category(jd.index.get_category(11).unwrap());
    assert_eq!(category.id, 11);
    assert_eq!(category.name, "Finance");
    let stray = Item { id: ID { category: 12, id: 1 }, name: String::from("x") };
    assert_eq!(viewer.item(&stray).unwrap_err(), Error::NotFound);
    let far = Item { id: ID { category: 100, id: 1 }, name: String::from("x") };
    assert_eq!(viewer.item(&far).unwrap_err(), Error::Validation);
}
