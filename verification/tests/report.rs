use johnny::commands::{OpenCommand, RelocateCommand};
use johnny::config::{Config, Resolver, ResolverConfig, ResolverConstraint};
use johnny::location::{Evidence, Lookup};
use johnny::report::{
    category_views, item_views, CategoriesCommand, Line, LsCommand, Records, SearchCommand,
};
use johnny::views::Viewer;
use johnny::{Error, Item, JohnnyDecimal, ID};

fn client() -> JohnnyDecimal {
    let config = Config {
        index_path: String::from("/state/index.json"),
        resolvers: vec![Resolver {
            constraint: ResolverConstraint::Range((10, 29)),
            config: ResolverConfig::DiskResolver { root: String::from("/data") },
        }],
    };
    let mut jd = JohnnyDecimal::new(config, None).unwrap();
    jd.index.create_area((10, 19), "Personal").unwrap();
    jd.index.create_area((20, 29), "Work").unwrap();
    jd.index.create_category(11, String::from("Finance")).unwrap();
    jd.index.create_category(12, String::from("Health")).unwrap();
    jd.index.create_category(21, String::from("Finance")).unwrap();
    jd.index.allocate_item(11, "Taxes2023", None).unwrap();
    jd.index.allocate_item(11, "Bank", None).unwrap();
    jd.index.allocate_item(12, "Tax refund for glasses", None).unwrap();
    jd.index.allocate_item(21, "Corporate tax", None).unwrap();
    jd
}

fn texts(lines: &[Line]) -> Vec<String> {
    lines
        .iter()
        .map(|line| match line {
            Line::Area(t) => format!("[{}]", t),
            Line::Category(t) => format!("  {}", t),
            Line::Item(t) => format!("    {}", t),
        })
        .collect()
}

#[test]
fn listing_without_filter_shows_areas_and_categories() {
    let jd = client();
    let lines = LsCommand { category: None }.run(&jd);
    assert_eq!(
        texts(&lines),
        vec!["[10-19 Personal]", "  11 Finance", "  12 Health", "[20-29 Work]", "  21 Finance"]
    );
    assert_eq!(texts(&CategoriesCommand {}.run(&jd)), texts(&lines));
}

#[test]
fn listing_with_filter_shows_one_category_with_items() {
    let jd = client();
    let lines = LsCommand { category: Some(11) }.run(&jd);
    assert_eq!(
        texts(&lines),
        vec!["[10-19 Personal]", "  11 Finance", "    11.001 Taxes2023", "    11.002 Bank"]
    );
    let lines = LsCommand { category: Some(13) }.run(&jd);
    assert_eq!(texts(&lines), vec!["[10-19 Personal]"]);
    assert!(LsCommand { category: Some(55) }.run(&jd).is_empty());
}

#[test]
fn listing_records_follow_the_filter() {
    let jd = client();
    match (LsCommand { category: Some(11) }).run_json(&jd).unwrap() {
        Records::Items(views) => {
            let ids: Vec<&str> = views.iter().map(|v| v.id.as_str()).collect();
            assert_eq!(ids, vec!["11.001", "11.002"]);
            assert_eq!(views[0].category_name, "11 Finance");
        }
        other => panic!("unexpected records {:?}", other),
    }
    match (LsCommand { category: Some(55) }).run_json(&jd).unwrap() {
        Records::Items(views) => assert!(views.is_empty()),
        other => panic!("unexpected records {:?}", other),
    }
    match (LsCommand { category: None }).run_json(&jd).unwrap() {
        Records::Categories(views) => {
            let ids: Vec<usize> = views.iter().map(|v| v.id).collect();
            assert_eq!(ids, vec![11, 12, 21]);
        }
        other => panic!("unexpected records {:?}", other),
    }
    assert_eq!(CategoriesCommand {}.run_json(&jd).len(), 3);
}

#[test]
fn search_report_groups_hits_under_headers() {
    let jd = client();
    let search = SearchCommand { expr: String::from("TAX"), area: None, category: None };
    assert_eq!(
        texts(&search.run(&jd).unwrap()),
        vec![
            "[10-19 Personal]",
            "  11 Finance",
            "    11.001 Taxes2023",
            "  12 Health",
            "    12.001 Tax refund for glasses",
            "[20-29 Work]",
            "  21 Finance",
            "    21.001 Corporate tax",
        ]
    );
}

#[test]
fn search_headers_repeat_only_when_the_name_changes() {
    let mut jd = client();
    jd.index.remove_item(&ID { category: 12, id: 1 }).unwrap();
    let search = SearchCommand { expr: String::from("tax"), area: None, category: None };
    assert_eq!(
        texts(&search.run(&jd).unwrap()),
        vec![
            "[10-19 Personal]",
            "  11 Finance",
            "    11.001 Taxes2023",
            "[20-29 Work]",
            "    21.001 Corporate tax",
        ]
    );
}

#[test]
fn search_restrictions_keep_area_or_category() {
    let jd = client();
    let in_area = SearchCommand { expr: String::from("tax"), area: Some(25), category: None };
    assert_eq!(
        texts(&in_area.run(&jd).unwrap()),
        vec!["[20-29 Work]", "  21 Finance", "    21.001 Corporate tax"]
    );
    let in_category = SearchCommand { expr: String::from("tax"), area: None, category: Some(12) };
    assert_eq!(
        texts(&in_category.run(&jd).unwrap()),
        vec!["[10-19 Personal]", "  12 Health", "    12.001 Tax refund for glasses"]
    );
    let both = SearchCommand { expr: String::from("tax"), area: Some(20), category: Some(12) };
    assert!(both.run(&jd).unwrap().is_empty());
    let item = Item { id: ID { category: 12, id: 1 }, name: String::from("x") };
    assert!(in_category.keeps(&item));
    assert!(!in_area.keeps(&item));
    assert_eq!(in_area.run_json(&jd).unwrap().len(), 3);
}

#[test]
fn views_of_lists() {
    let jd = client();
    let viewer = Viewer::new(&jd);
    let items = jd.index.list_items(11).unwrap();
    let views = item_views(&viewer, &items).unwrap();
    assert_eq!(views.len(), 2);
    assert_eq!(views[1].name, "Bank");
    let stray = vec![Item { id: ID { category: 13, id: 1 }, name: String::from("x") }];
    assert_eq!(item_views(&viewer, &stray).unwrap_err(), Error::NotFound);
    let categories = jd.index.list_categories();
    let views = category_views(&viewer, &categories);
    assert_eq!(views[2].name, "Finance");
    assert_eq!(views[2].id, 21);
}

#[test]
fn relocate_command_reads_the_identifier() {
    let mut jd = client();
    let command = RelocateCommand { item: String::from("11.001"), category: 21 };
    assert!(matches!(command.probe(&jd).unwrap(), Some(Lookup::IfDirectoryExists { .. })));
    let (moved, actions) = command.run(&mut jd, Evidence::Directory(true)).unwrap();
    assert_eq!(moved.to_string(), "21.002 Taxes2023");
    assert_eq!(actions.len(), 3);
    assert!(command.probe(&jd).unwrap().is_none());
    let bad = RelocateCommand { item: String::from("11-001"), category: 21 };
    assert_eq!(bad.probe(&jd).unwrap_err(), Error::Validation);
    assert_eq!(bad.run(&mut jd, Evidence::Nothing).unwrap_err(), Error::Validation);
}

#[test]
fn open_command_reads_the_identifier() {
    let jd = client();
    let lookup = OpenCommand { id: String::from("12.001") }.open(&jd).unwrap().unwrap();
    let place = lookup.conclude(Evidence::Directory(true)).unwrap();
    assert_eq!(
        place.to_string(),
        "/data/10-19 Personal/12 Health/12.001 Tax refund for glasses"
    );
    assert!(OpenCommand { id: String::from("12.002") }.open(&jd).unwrap().is_none());
    assert_eq!(OpenCommand { id: String::from("x") }.open(&jd).unwrap_err(), Error::Validation);
    assert_eq!(OpenCommand { id: String::from("55.001") }.open(&jd).unwrap_err(), Error::NotFound);
}
