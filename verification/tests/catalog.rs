use johnny::index::{check_bounds, Area, Category, Index};
use johnny::{Error, Item, ID};

fn personal() -> Index {
    let mut index = Index::new();
    index.create_area((10, 19), "Personal").unwrap();
    index.create_category(11, String::from("Finance")).unwrap();
    index
}

#[test]
fn first_allocation_takes_slot_one() {
    let mut index = personal();
    let item = index.allocate_item(11, "Taxes2023", None).unwrap();
    assert_eq!(item.id.to_string(), "11.001");
    assert_eq!(item.name, "Taxes2023");
}

#[test]
fn second_allocation_takes_slot_two() {
    let mut index = personal();
    index.allocate_item(11, "Taxes2023", None).unwrap();
    let second = index.allocate_item(11, "Receipts", None).unwrap();
    assert_eq!(second.id.to_string(), "11.002");
}

#[test]
fn removed_slot_is_reused() {
    let mut index = personal();
    index.allocate_item(11, "Taxes2023", None).unwrap();
    index.allocate_item(11, "Receipts", None).unwrap();
    index.remove_item(&ID { category: 11, id: 1 }).unwrap();
    let again = index.allocate_item(11, "Insurance", None).unwrap();
    assert_eq!(again.id.to_string(), "11.001");
    let third = index.allocate_item(11, "Bank", None).unwrap();
    assert_eq!(third.id.to_string(), "11.003");
}

#[test]
fn search_finds_item_whatever_the_case() {
    let mut index = personal();
    index.allocate_item(11, "Taxes2023", None).unwrap();
    index.allocate_item(11, "Receipts", None).unwrap();
    let hits = index.search("tax");
    assert!(hits.iter().any(|item| item.id == ID { category: 11, id: 1 }));
    assert_eq!(hits.len(), 1);
    let upper = index.search("TAX");
    assert_eq!(upper.len(), 1);
    assert_eq!(upper[0].name, "Taxes2023");
    assert!(index.search("nothing").is_empty());
    assert_eq!(index.search("").len(), 2);
}

#[test]
fn category_search_takes_the_query_as_it_is() {
    let mut category = Category::new(11, String::from("Finance"));
    category.add_item("Taxes2023", None).unwrap();
    assert_eq!(category.search("tax").len(), 1);
    assert!(category.search("TAX").is_empty());
}

#[test]
fn search_spans_areas_in_ascending_order() {
    let mut index = personal();
    index.create_area((20, 29), "Work").unwrap();
    index.create_category(25, String::from("Reports")).unwrap();
    index.create_category(12, String::from("Health")).unwrap();
    index.allocate_item(25, "tax report", None).unwrap();
    index.allocate_item(12, "Tax refund", None).unwrap();
    index.allocate_item(11, "TAXES", None).unwrap();
    let hits = index.search("Tax");
    let ids: Vec<String> = hits.iter().map(|item| item.id.to_string()).collect();
    assert_eq!(ids, vec!["11.001", "12.001", "25.001"]);
}

#[test]
fn create_area_rejects_malformed_bounds() {
    let mut index = Index::new();
    assert!(matches!(index.create_area((11, 20), "x"), Err(Error::Validation)));
    assert!(matches!(index.create_area((10, 18), "x"), Err(Error::Validation)));
    assert!(matches!(index.create_area((10, 20), "x"), Err(Error::Validation)));
    assert!(matches!(index.create_area((100, 109), "x"), Err(Error::Validation)));
    assert!(matches!(index.create_area((usize::MAX, 8), "x"), Err(Error::Validation)));
    assert!(index.list_areas().is_empty());
}

#[test]
fn create_area_rejects_occupied_slot() {
    let mut index = personal();
    assert!(matches!(index.create_area((10, 19), "Again"), Err(Error::Conflict)));
    assert_eq!(index.list_areas()[0].name(), "Personal");
}

#[test]
fn create_area_returns_the_new_area() {
    let mut index = Index::new();
    let area = index.create_area((90, 99), "Archive").unwrap();
    assert_eq!(area.bounds(), (90, 99));
    assert_eq!(area.name(), "Archive");
    assert_eq!(area.to_string(), "90-99 Archive");
    assert!(area.list_categories().is_empty());
}

#[test]
fn create_category_needs_its_area() {
    let mut index = personal();
    assert!(matches!(index.create_category(21, String::from("x")), Err(Error::NotFound)));
    assert!(matches!(index.create_category(100, String::from("x")), Err(Error::Validation)));
    assert!(matches!(index.create_category(11, String::from("x")), Err(Error::Conflict)));
    let created = index.create_category(19, String::from("Misc")).unwrap();
    assert_eq!(created.to_string(), "19 Misc");
    assert!(created.list_items().is_empty());
}

#[test]
fn area_rejects_category_outside_bounds() {
    let mut area = Area::new((10, 19), String::from("Personal"));
    assert!(matches!(area.create_category(20, String::from("x")), Err(Error::Validation)));
    assert!(matches!(area.create_category(9, String::from("x")), Err(Error::Validation)));
    let created = area.create_category(10, String::from("Home")).unwrap();
    assert_eq!(created.id(), 10);
    assert_eq!(created.to_string(), "10 Home");
    assert!(matches!(area.create_category(10, String::from("x")), Err(Error::Conflict)));
    assert!(matches!(area.get_category(25), Err(Error::Validation)));
    assert!(matches!(area.get_category(11), Ok(None)));
    assert_eq!(area.get_category(10).unwrap().unwrap().name(), "Home");
}

#[test]
fn allocate_fails_without_area_or_category() {
    let mut index = personal();
    assert_eq!(index.allocate_item(31, "x", None).unwrap_err(), Error::NotFound);
    assert_eq!(index.allocate_item(12, "x", None).unwrap_err(), Error::NotFound);
    assert_eq!(index.allocate_item(100, "x", None).unwrap_err(), Error::Validation);
}

#[test]
fn explicit_identifier_takes_that_slot() {
    let mut index = personal();
    let id = ID { category: 11, id: 500 };
    let item = index.allocate_item(11, "Fixed", Some(&id)).unwrap();
    assert_eq!(item.id, id);
    assert_eq!(index.allocate_item(11, "Again", Some(&id)).unwrap_err(), Error::Conflict);
    let zero = ID { category: 11, id: 0 };
    assert_eq!(index.allocate_item(11, "Zero", Some(&zero)).unwrap().id, zero);
    let next = index.allocate_item(11, "Next", None).unwrap();
    assert_eq!(next.id, ID { category: 11, id: 1 });
}

#[test]
fn explicit_identifier_must_fit_the_category() {
    let mut index = personal();
    let other = ID { category: 12, id: 1 };
    assert_eq!(index.allocate_item(11, "x", Some(&other)).unwrap_err(), Error::Validation);
    let far = ID { category: 11, id: 1000 };
    assert_eq!(index.allocate_item(11, "x", Some(&far)).unwrap_err(), Error::Validation);
}

#[test]
fn allocation_is_exhausted_after_999_items() {
    let mut category = Category::new(11, String::from("Finance"));
    for expected in 1..1000 {
        let item = category.add_item("x", None).unwrap();
        assert_eq!(item.id.id, expected);
    }
    assert_eq!(category.add_item("x", None).unwrap_err(), Error::Exhausted);
    assert!(category.slot(0).is_none());
    assert_eq!(category.list_items().len(), 999);
}

#[test]
fn remove_then_get_is_empty() {
    let mut index = personal();
    let item = index.allocate_item(11, "Taxes2023", None).unwrap();
    assert_eq!(index.get_item(&item.id).unwrap().unwrap().name, "Taxes2023");
    index.remove_item(&item.id).unwrap();
    assert!(index.get_item(&item.id).unwrap().is_none());
    assert_eq!(index.remove_item(&item.id), Ok(()));
}

#[test]
fn remove_does_not_renumber_neighbours() {
    let mut index = personal();
    index.allocate_item(11, "a", None).unwrap();
    index.allocate_item(11, "b", None).unwrap();
    index.allocate_item(11, "c", None).unwrap();
    index.remove_item(&ID { category: 11, id: 2 }).unwrap();
    let names: Vec<String> =
        index.list_items(11).unwrap().iter().map(|item| item.to_string()).collect();
    assert_eq!(names, vec!["11.001 a", "11.003 c"]);
}

#[test]
fn get_and_remove_report_what_is_missing() {
    let mut index = personal();
    assert_eq!(index.get_item(&ID { category: 100, id: 1 }).unwrap_err(), Error::Validation);
    assert_eq!(index.get_item(&ID { category: 11, id: 1000 }).unwrap_err(), Error::Validation);
    assert_eq!(index.get_item(&ID { category: 31, id: 1 }).unwrap_err(), Error::NotFound);
    assert_eq!(index.get_item(&ID { category: 12, id: 1 }).unwrap_err(), Error::NotFound);
    assert_eq!(index.remove_item(&ID { category: 12, id: 1 }), Err(Error::NotFound));
    assert_eq!(index.remove_item(&ID { category: 11, id: 1000 }), Err(Error::Validation));
    assert_eq!(index.list_items(12).unwrap_err(), Error::NotFound);
}

#[test]
fn import_puts_item_at_its_own_slot() {
    let mut index = personal();
    let item = Item { id: ID { category: 11, id: 42 }, name: String::from("Imported") };
    let back = index.import_item(item).unwrap();
    assert_eq!(back.id, ID { category: 11, id: 42 });
    let found = index.get_item(&ID { category: 11, id: 42 }).unwrap().unwrap();
    assert_eq!(found.name, "Imported");
    let again = Item { id: ID { category: 11, id: 42 }, name: String::from("Twice") };
    assert_eq!(index.import_item(again).unwrap_err(), Error::Conflict);
}

#[test]
fn category_import_checks_category_and_range() {
    let mut category = Category::new(11, String::from("Finance"));
    let wrong = Item { id: ID { category: 12, id: 1 }, name: String::from("x") };
    assert_eq!(category.import_item(wrong).unwrap_err(), Error::Validation);
    let far = Item { id: ID { category: 11, id: 1000 }, name: String::from("x") };
    assert_eq!(category.import_item(far).unwrap_err(), Error::Validation);
    assert_eq!(category.get_item(&ID { category: 12, id: 1 }).unwrap_err(), Error::Validation);
    assert_eq!(category.remove_item(&ID { category: 12, id: 1 }), Err(Error::Validation));
}

#[test]
fn lists_are_in_ascending_order() {
    let mut index = Index::new();
    index.create_area((20, 29), "Work").unwrap();
    index.create_area((10, 19), "Personal").unwrap();
    index.create_category(25, String::from("Reports")).unwrap();
    index.create_category(21, String::from("Clients")).unwrap();
    index.create_category(11, String::from("Finance")).unwrap();
    let areas: Vec<String> = index.list_areas().iter().map(|a| a.to_string()).collect();
    assert_eq!(areas, vec!["10-19 Personal", "20-29 Work"]);
    let categories: Vec<String> =
        index.list_categories().iter().map(|c| c.to_string()).collect();
    assert_eq!(categories, vec!["11 Finance", "21 Clients", "25 Reports"]);
}

#[test]
fn area_lookups_by_bounds_and_category() {
    let index = personal();
    assert_eq!(index.get_area((10, 19)).unwrap().unwrap().name(), "Personal");
    assert!(index.get_area((20, 29)).unwrap().is_none());
    assert!(matches!(index.get_area((11, 20)), Err(Error::Validation)));
    assert_eq!(index.get_area_from_category(15).unwrap().unwrap().bounds(), (10, 19));
    assert!(index.get_area_from_category(55).unwrap().is_none());
    assert!(matches!(index.get_area_from_category(100), Err(Error::Validation)));
    assert_eq!(index.get_category(11).unwrap().name(), "Finance");
    assert!(matches!(index.get_category(12), Err(Error::NotFound)));
}

#[test]
fn rename_category_keeps_items() {
    let mut index = personal();
    index.allocate_item(11, "Taxes2023", None).unwrap();
    index.rename_category(11, "Finances").unwrap();
    assert_eq!(index.get_category(11).unwrap().to_string(), "11 Finances");
    assert_eq!(index.list_items(11).unwrap().len(), 1);
    assert_eq!(index.rename_category(12, "x"), Err(Error::NotFound));
}

#[test]
fn bounds_check_matches_the_rule() {
    assert!(check_bounds((0, 9)));
    assert!(check_bounds((90, 99)));
    assert!(check_bounds((100, 109)));
    assert!(!check_bounds((5, 14)));
    assert!(!check_bounds((10, 20)));
    assert!(!check_bounds((usize::MAX - 5, 3)));
}

fn slots_of(category: &Category) -> Vec<Option<Item>> {
    (0..1000).map(|k| category.slot(k).cloned()).collect()
}

#[test]
fn catalog_is_made_again_of_its_own_slots() {
    let mut index = personal();
    index.create_area((40, 49), "Hobbies").unwrap();
    index.create_category(47, String::from("Chess")).unwrap();
    index.allocate_item(11, "Taxes2023", None).unwrap();
    index.allocate_item(47, "Openings", Some(&ID { category: 47, id: 900 })).unwrap();

    let mut areas = Vec::new();
    for a in 0..10 {
        areas.push(index.slot(a).map(|area| {
            let mut categories = Vec::new();
            for c in 0..10 {
                categories.push(area.slot(c).map(|category| {
                    Category::from_slots(
                        category.id(),
                        category.name().to_string(),
                        slots_of(category),
                    )
                    .unwrap()
                }));
            }
            Area::from_slots(area.bounds(), area.name().to_string(), categories).unwrap()
        }));
    }
    let copy = Index::from_slots(areas).unwrap();

    for a in 0..10 {
        assert_eq!(copy.slot(a).is_some(), index.slot(a).is_some());
        if let (Some(x), Some(y)) = (copy.slot(a), index.slot(a)) {
            assert_eq!(x.to_string(), y.to_string());
            for c in 0..10 {
                assert_eq!(x.slot(c).is_some(), y.slot(c).is_some());
                if let (Some(p), Some(q)) = (x.slot(c), y.slot(c)) {
                    assert_eq!(p.to_string(), q.to_string());
                    for i in 0..1000 {
                        assert_eq!(
                            p.slot(i).map(|item| item.to_string()),
                            q.slot(i).map(|item| item.to_string())
                        );
                    }
                }
            }
        }
    }
    assert!(index.slot(10).is_none());
}

#[test]
fn from_slots_rejects_tables_that_break_the_rules() {
    assert_eq!(
        Category::from_slots(11, String::from("x"), vec![None, None]).unwrap_err(),
        Error::Validation
    );
    let mut items: Vec<Option<Item>> = (0..1000).map(|_| None).collect();
    items[5] = Some(Item { id: ID { category: 11, id: 6 }, name: String::from("x") });
    assert_eq!(Category::from_slots(11, String::from("x"), items).unwrap_err(), Error::Validation);
    let mut items: Vec<Option<Item>> = (0..1000).map(|_| None).collect();
    items[5] = Some(Item { id: ID { category: 12, id: 5 }, name: String::from("x") });
    assert_eq!(Category::from_slots(11, String::from("x"), items).unwrap_err(), Error::Validation);

    let mut categories: Vec<Option<Category>> = (0..10).map(|_| None).collect();
    categories[1] = Some(Category::new(12, String::from("x")));
    assert_eq!(
        Area::from_slots((10, 19), String::from("x"), categories).unwrap_err(),
        Error::Validation
    );
    let categories: Vec<Option<Category>> = (0..10).map(|_| None).collect();
    assert_eq!(
        Area::from_slots((10, 20), String::from("x"), categories).unwrap_err(),
        Error::Validation
    );
    assert_eq!(Area::from_slots((10, 19), String::from("x"), vec![]).unwrap_err(), Error::Validation);

    let mut areas: Vec<Option<Area>> = (0..10).map(|_| None).collect();
    areas[2] = Some(Area::new((10, 19), String::from("x")));
    assert_eq!(Index::from_slots(areas).unwrap_err(), Error::Validation);
    assert_eq!(Index::from_slots(vec![]).unwrap_err(), Error::Validation);
    let mut areas: Vec<Option<Area>> = (0..10).map(|_| None).collect();
    areas[1] = Some(Area::new((10, 19), String::from("x")));
    assert!(Index::from_slots(areas).is_ok());
}

#[test]
fn default_catalog_is_empty() {
    let index = Index::default();
    assert!(index.list_areas().is_empty());
    assert!(index.list_categories().is_empty());
    assert!(index.search("").is_empty());
}

#[test]
fn a_copy_of_the_catalog_is_independent() {
    let mut index = personal();
    let copy = index.clone();
    index.allocate_item(11, "Taxes2023", None).unwrap();
    assert!(copy.list_items(11).unwrap().is_empty());
    assert_eq!(index.list_items(11).unwrap().len(), 1);
    assert_eq!(copy.get_category(11).unwrap().to_string(), "11 Finance");
}

#[test]
fn occupied_slots_hold_their_own_numbers() {
    let mut index = personal();
    index.create_area((40, 49), "Hobbies").unwrap();
    index.create_category(47, String::from("Chess")).unwrap();
    index.create_category(19, String::from("Misc")).unwrap();
    for name in ["a", "b", "c"] {
        index.allocate_item(11, name, None).unwrap();
        index.allocate_item(47, name, None).unwrap();
    }
    index.allocate_item(19, "far", Some(&ID { category: 19, id: 999 })).unwrap();
    index.remove_item(&ID { category: 11, id: 2 }).unwrap();
    let mut seen = 0;
    for a in 0..10 {
        if let Some(area) = index.slot(a) {
            let (low, high) = area.bounds();
            assert_eq!(low % 10, 0);
            assert_eq!(high, low + 9);
            assert_eq!(low / 10, a);
            for c in 0..10 {
                if let Some(category) = area.slot(c) {
                    assert!(low <= category.id() && category.id() <= high);
                    assert_eq!(category.id() % 10, c);
                    let mut ids = Vec::new();
                    for i in 0..1000 {
                        if let Some(item) = category.slot(i) {
                            assert_eq!(item.id.id, i);
                            assert_eq!(item.id.category, category.id());
                            assert!(!ids.contains(&item.id.id));
                            ids.push(item.id.id);
                            seen += 1;
                        }
                    }
                    assert!(category.slot(1000).is_none());
                }
            }
        }
    }
    assert_eq!(seen, 6);
}
