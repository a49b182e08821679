use johnny::{Error, Item, ID};

#[test]
fn parses_canonical_text() {
    let id = ID::from_str("11.001").unwrap();
    assert_eq!(id, ID { category: 11, id: 1 });
}

#[test]
fn formats_with_zero_padding() {
    assert_eq!(ID { category: 3, id: 7 }.to_string(), "03.007");
    assert_eq!(ID { category: 0, id: 0 }.to_string(), "00.000");
    assert_eq!(ID { category: 99, id: 999 }.to_string(), "99.999");
}

#[test]
fn formats_large_numbers_without_truncation() {
    assert_eq!(ID { category: 123, id: 4567 }.to_string(), "123.4567");
}

#[test]
fn round_trips_every_valid_identifier() {
    for category in 0..100 {
        for item in 0..1000 {
            let id = ID { category, id: item };
            assert_eq!(ID::from_str(&id.to_string()), Ok(id));
        }
    }
}

#[test]
fn accepts_short_and_signed_numbers() {
    assert_eq!(ID::from_str("1.2"), Ok(ID { category: 1, id: 2 }));
    assert_eq!(ID::from_str("+11.+001"), Ok(ID { category: 11, id: 1 }));
    assert_eq!(ID::from_str("0000011.0000001"), Ok(ID { category: 11, id: 1 }));
}

#[test]
fn rejects_out_of_range_category() {
    assert_eq!(ID::from_str("100.001"), Err(Error::Validation));
}

#[test]
fn rejects_out_of_range_item() {
    assert_eq!(ID::from_str("11.1000"), Err(Error::Validation));
    assert_eq!(ID::from_str("11.99999999999999999999999999"), Err(Error::Validation));
}

#[test]
fn rejects_malformed_text() {
    for text in ["", "11", "11.", ".001", "ab.cde", "11.001.2", "11,001", "-1.001", "11.-1",
        "+.1", "1.+", " 11.001", "11.001 ", "1 1.001"]
    {
        assert_eq!(ID::from_str(text), Err(Error::Validation), "{:?}", text);
    }
}

#[test]
fn item_text_is_identifier_space_name() {
    let item = Item { id: ID { category: 11, id: 1 }, name: String::from("Taxes2023") };
    assert_eq!(item.to_string(), "11.001 Taxes2023");
    let copy = item.clone();
    assert_eq!(copy.id, item.id);
    assert_eq!(copy.name, item.name);
}
