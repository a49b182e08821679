use johnny::naming::{
    build_area_name, build_category_name, build_item_name, is_hidden, parse_area_name,
    parse_category_name, parse_item_name,
};
use johnny::{Error, Item, ID};

#[test]
fn builds_the_three_names() {
    assert_eq!(build_area_name((10, 19), "Personal"), "10-19 Personal");
    assert_eq!(build_area_name((0, 9), "Meta"), "00-09 Meta");
    assert_eq!(build_category_name(11, "Finance"), "11 Finance");
    assert_eq!(build_category_name(3, "Low"), "03 Low");
    let item = Item { id: ID { category: 11, id: 1 }, name: String::from("taxes") };
    assert_eq!(build_item_name(&item), "11.001 taxes");
}

#[test]
fn parses_area_names() {
    assert_eq!(parse_area_name("10-19 Personal"), Ok(((10, 19), String::from("Personal"))));
    assert_eq!(parse_area_name("00-09 "), Ok(((0, 9), String::new())));
    assert_eq!(parse_area_name("15-24 Odd"), Ok(((15, 24), String::from("Odd"))));
    assert_eq!(parse_area_name("10-19 two words"), Ok(((10, 19), String::from("two words"))));
}

#[test]
fn rejects_bad_area_names() {
    for name in ["", "10-19", "10-19Personal", "10-20 Personal", "1-10 x", "10_19 x", "ab-cd x",
        "x10-19 Personal", "90-99x", "95-04 x"]
    {
        assert_eq!(parse_area_name(name), Err(Error::Validation), "{:?}", name);
    }
}

#[test]
fn parses_category_names_within_bounds() {
    assert_eq!(parse_category_name("11 Finance", (10, 19)), Ok((11, String::from("Finance"))));
    assert_eq!(parse_category_name("19 ", (10, 19)), Ok((19, String::new())));
    assert_eq!(parse_category_name("20 Work", (10, 19)), Err(Error::Validation));
    assert_eq!(parse_category_name("09 Low", (10, 19)), Err(Error::Validation));
    assert_eq!(parse_category_name("1 Finance", (10, 19)), Err(Error::Validation));
    assert_eq!(parse_category_name("11Finance", (10, 19)), Err(Error::Validation));
    assert_eq!(parse_category_name("11", (10, 19)), Err(Error::Validation));
    assert_eq!(parse_category_name("x11 Finance", (10, 19)), Err(Error::Validation));
}

#[test]
fn parses_item_names_of_the_category() {
    let item = parse_item_name("11.001 taxes", 11).unwrap();
    assert_eq!(item.id, ID { category: 11, id: 1 });
    assert_eq!(item.name, "taxes");
    assert_eq!(parse_item_name("11.999 ", 11).unwrap().name, "");
    assert_eq!(parse_item_name("12.001 taxes", 11).unwrap_err(), Error::Validation);
    assert_eq!(parse_item_name("11.01 taxes", 11).unwrap_err(), Error::Validation);
    assert_eq!(parse_item_name("11.0001 taxes", 11).unwrap_err(), Error::Validation);
    assert_eq!(parse_item_name("11-001 taxes", 11).unwrap_err(), Error::Validation);
    assert_eq!(parse_item_name("11.001taxes", 11).unwrap_err(), Error::Validation);
    assert_eq!(parse_item_name("", 11).unwrap_err(), Error::Validation);
}

#[test]
fn names_round_trip() {
    for low in [0usize, 10, 50, 90] {
        let text = build_area_name((low, low + 9), "Some area");
        assert_eq!(parse_area_name(&text), Ok(((low, low + 9), String::from("Some area"))));
        for offset in 0..10 {
            let text = build_category_name(low + offset, " odd  name ");
            assert_eq!(
                parse_category_name(&text, (low, low + 9)),
                Ok((low + offset, String::from(" odd  name ")))
            );
            for number in [0usize, 1, 9, 10, 99, 100, 999] {
                let item = Item {
                    id: ID { category: low + offset, id: number },
                    name: String::from("é.x 1"),
                };
                let back = parse_item_name(&build_item_name(&item), low + offset).unwrap();
                assert_eq!(back.id, item.id);
                assert_eq!(back.name, item.name);
            }
        }
    }
}

#[test]
fn well_formed_item_names_are_rebuilt_exactly() {
    for text in ["11.001 taxes", "00.000 ", "99.999 a b  c", "11.010 11.010 x"] {
        let category = text[0..2].parse::<usize>().unwrap();
        let item = parse_item_name(text, category).unwrap();
        assert_eq!(build_item_name(&item), text);
    }
}

#[test]
fn hidden_entries_start_with_a_dot() {
    assert!(is_hidden(".git"));
    assert!(is_hidden("."));
    assert!(!is_hidden("11 Finance"));
    assert!(!is_hidden(""));
    assert!(!is_hidden("a.b"));
}
