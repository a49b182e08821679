//! The directory names of areas, categories and items: how each is written
//! and how each is read back.
//!
//! An area is written `LL-HH Name`, a category `CC Name` and an item
//! `CC.III Name`. The numbers have exactly the digits shown; the name is
//! everything after the one space that follows them, and may be empty.

use vstd::prelude::*;
use vstd::string::*;

use crate::error::Error;
use crate::index::{area_text, category_text};
use crate::item::{item_text, Item, ItemModel, ID};
use crate::text::{
    chars_of, digit_char, digit_of, digit_value, is_digit, lemma_digit_char, lemma_digit_value,
    lemma_three_digits, lemma_two_digits, push_chars, push_padded,
};

verus! {

/// The number written by the two digits at `at`, if two digits stand there.
pub open spec fn two_digits_at(s: Seq<char>, at: int) -> Option<nat> {
    if 0 <= at && at + 2 <= s.len() && is_digit(s[at]) && is_digit(s[at + 1]) {
        Some(digit_value(s[at]) * 10 + digit_value(s[at + 1]))
    } else {
        None
    }
}

/// The number written by the three digits at `at`, if three digits stand
/// there.
pub open spec fn three_digits_at(s: Seq<char>, at: int) -> Option<nat> {
    if 0 <= at && at + 3 <= s.len() && is_digit(s[at]) && is_digit(s[at + 1]) && is_digit(
        s[at + 2],
    ) {
        Some(digit_value(s[at]) * 100 + digit_value(s[at + 1]) * 10 + digit_value(s[at + 2]))
    } else {
        None
    }
}

/// The bounds and the name that a directory name gives an area: two digits, a
/// hyphen, two digits that write nine more, a space and the name.
pub open spec fn parse_area_text(s: Seq<char>) -> Option<((usize, usize), Seq<char>)> {
    match (two_digits_at(s, 0), two_digits_at(s, 3)) {
        (Some(low), Some(high)) => if s.len() >= 6 && s[2] == '-' && s[5] == ' ' && high == low
            + 9 {
            Some(((low as usize, high as usize), s.subrange(6, s.len() as int)))
        } else {
            None
        },
        _ => None,
    }
}

/// The number and the name that a directory name gives a category of an area
/// with the given bounds: two digits that write a number within the bounds, a
/// space and the name.
pub open spec fn parse_category_text(s: Seq<char>, bounds: (usize, usize)) -> Option<
    (usize, Seq<char>),
> {
    match two_digits_at(s, 0) {
        Some(id) => if s.len() >= 3 && s[2] == ' ' && bounds.0 <= id <= bounds.1 {
            Some((id as usize, s.subrange(3, s.len() as int)))
        } else {
            None
        },
        None => None,
    }
}

/// The item that a directory name gives in the category of the given number:
/// two digits that write that number, a dot, three digits, a space and the
/// name.
pub open spec fn parse_item_text(s: Seq<char>, category_id: usize) -> Option<ItemModel> {
    match (two_digits_at(s, 0), three_digits_at(s, 3)) {
        (Some(category), Some(id)) => if s.len() >= 7 && s[2] == '.' && s[6] == ' ' && category
            == category_id {
            Some(
                ItemModel {
                    id: ID { category: category as usize, id: id as usize },
                    name: s.subrange(7, s.len() as int),
                },
            )
        } else {
            None
        },
        _ => None,
    }
}

/// The directory name of an area is read back as its bounds and its name.
pub proof fn lemma_parse_build_area(bounds: (usize, usize), name: Seq<char>)
    requires
        bounds.1 == bounds.0 + 9,
        bounds.1 < 100,
    ensures
        parse_area_text(area_text(bounds, name)) == Some((bounds, name)),
{
    let (low, high) = (bounds.0 as nat, bounds.1 as nat);
    lemma_two_digits(low);
    lemma_two_digits(high);
    lemma_digit_char(low / 10);
    lemma_digit_char(low % 10);
    lemma_digit_char(high / 10);
    lemma_digit_char(high % 10);
    let s = area_text(bounds, name);
    let head = seq![
        digit_char(low / 10),
        digit_char(low % 10),
        '-',
        digit_char(high / 10),
        digit_char(high % 10),
        ' ',
    ];
    assert(s =~= head + name);
    assert(s.subrange(6, s.len() as int) =~= name);
}

/// A directory name that is read as an area is the name that is written for
/// what was read.
pub proof fn lemma_build_parse_area(s: Seq<char>)
    requires
        parse_area_text(s) is Some,
    ensures
        area_text(parse_area_text(s).unwrap().0, parse_area_text(s).unwrap().1) == s,
{
    let (bounds, name) = parse_area_text(s).unwrap();
    let (low, high) = (bounds.0 as nat, bounds.1 as nat);
    lemma_digit_value(s[0]);
    lemma_digit_value(s[1]);
    lemma_digit_value(s[3]);
    lemma_digit_value(s[4]);
    lemma_two_digits(low);
    lemma_two_digits(high);
    assert(area_text(bounds, name) =~= s);
}

/// The directory name of a category is read back as its number and its name.
pub proof fn lemma_parse_build_category(id: usize, name: Seq<char>, bounds: (usize, usize))
    requires
        id < 100,
        bounds.0 <= id <= bounds.1,
    ensures
        parse_category_text(category_text(id, name), bounds) == Some((id, name)),
{
    let n = id as nat;
    lemma_two_digits(n);
    lemma_digit_char(n / 10);
    lemma_digit_char(n % 10);
    let s = category_text(id, name);
    assert(s =~= seq![digit_char(n / 10), digit_char(n % 10), ' '] + name);
    assert(s.subrange(3, s.len() as int) =~= name);
}

/// A directory name that is read as a category is the name that is written
/// for what was read.
pub proof fn lemma_build_parse_category(s: Seq<char>, bounds: (usize, usize))
    requires
        parse_category_text(s, bounds) is Some,
    ensures
        category_text(
            parse_category_text(s, bounds).unwrap().0,
            parse_category_text(s, bounds).unwrap().1,
        ) == s,
{
    let (id, name) = parse_category_text(s, bounds).unwrap();
    lemma_digit_value(s[0]);
    lemma_digit_value(s[1]);
    lemma_two_digits(id as nat);
    assert(category_text(id, name) =~= s);
}

/// The directory name of an item is read back as the item.
pub proof fn lemma_parse_build_item(item: ItemModel)
    requires
        item.id.valid(),
    ensures
        parse_item_text(item_text(item), item.id.category) == Some(item),
{
    let c = item.id.category as nat;
    let i = item.id.id as nat;
    lemma_two_digits(c);
    lemma_three_digits(i);
    lemma_digit_char(c / 10);
    lemma_digit_char(c % 10);
    lemma_digit_char(i / 100);
    lemma_digit_char((i / 10) % 10);
    lemma_digit_char(i % 10);
    let s = item_text(item);
    let head = seq![
        digit_char(c / 10),
        digit_char(c % 10),
        '.',
        digit_char(i / 100),
        digit_char((i / 10) % 10),
        digit_char(i % 10),
        ' ',
    ];
    assert(s =~= head + item.name);
    assert(s.subrange(7, s.len() as int) =~= item.name);
}

/// A directory name that is read as an item is the name that is written for
/// the item read.
pub proof fn lemma_build_parse_item(s: Seq<char>, category_id: usize)
    requires
        parse_item_text(s, category_id) is Some,
    ensures
        item_text(parse_item_text(s, category_id).unwrap()) == s,
        parse_item_text(s, category_id).unwrap().id.valid(),
        parse_item_text(s, category_id).unwrap().id.category == category_id,
{
    let item = parse_item_text(s, category_id).unwrap();
    lemma_digit_value(s[0]);
    lemma_digit_value(s[1]);
    lemma_digit_value(s[3]);
    lemma_digit_value(s[4]);
    lemma_digit_value(s[5]);
    lemma_two_digits(item.id.category as nat);
    lemma_three_digits(item.id.id as nat);
    let i = item.id.id as nat;
    assert(i / 100 == digit_value(s[3]));
    assert((i / 10) % 10 == digit_value(s[4]));
    assert(i % 10 == digit_value(s[5]));
    assert(item_text(item) =~= s);
}

/// The directory name of an area.
pub fn build_area_name(bounds: (usize, usize), name: &str) -> (r: String)
    ensures
        r@ == area_text(bounds, name@),
{
    let mut out = String::new();
    push_padded(&mut out, bounds.0, 2);
    out.push('-');
    push_padded(&mut out, bounds.1, 2);
    out.push(' ');
    out.append(name);
    assert(out@ =~= area_text(bounds, name@));
    out
}

/// The directory name of a category.
pub fn build_category_name(id: usize, name: &str) -> (r: String)
    ensures
        r@ == category_text(id, name@),
{
    let mut out = String::new();
    push_padded(&mut out, id, 2);
    out.push(' ');
    out.append(name);
    assert(out@ =~= category_text(id, name@));
    out
}

/// The directory name of an item.
pub fn build_item_name(item: &Item) -> (r: String)
    ensures
        r@ == item_text(item@),
{
    item.to_string()
}

/// Reads the two digits at `at`.
fn read_two_digits(chars: &Vec<char>, at: usize) -> (r: Option<usize>)
    requires
        at <= usize::MAX - 2,
    ensures
        match r {
            Some(v) => two_digits_at(chars@, at as int) == Some(v as nat) && v < 100,
            None => two_digits_at(chars@, at as int) is None,
        },
{
    if at + 2 > chars.len() {
        return None;
    }
    match (digit_of(chars[at]), digit_of(chars[at + 1])) {
        (Some(a), Some(b)) => {
            proof {
                lemma_digit_value(chars@[at as int]);
                lemma_digit_value(chars@[at + 1]);
            }
            Some(a * 10 + b)
        },
        _ => None,
    }
}

/// Reads the three digits at `at`.
fn read_three_digits(chars: &Vec<char>, at: usize) -> (r: Option<usize>)
    requires
        at <= usize::MAX - 3,
    ensures
        match r {
            Some(v) => three_digits_at(chars@, at as int) == Some(v as nat) && v < 1000,
            None => three_digits_at(chars@, at as int) is None,
        },
{
    if at + 3 > chars.len() {
        return None;
    }
    match (digit_of(chars[at]), digit_of(chars[at + 1]), digit_of(chars[at + 2])) {
        (Some(a), Some(b), Some(c)) => {
            proof {
                lemma_digit_value(chars@[at as int]);
                lemma_digit_value(chars@[at + 1]);
                lemma_digit_value(chars@[at + 2]);
            }
            Some(a * 100 + b * 10 + c)
        },
        _ => None,
    }
}

/// The text made of the characters from `from` to the end.
fn rest_of(chars: &Vec<char>, from: usize) -> (r: String)
    requires
        from <= chars.len(),
    ensures
        r@ == chars@.subrange(from as int, chars@.len() as int),
{
    let mut out = String::new();
    push_chars(&mut out, chars, from, chars.len());
    assert(out@ =~= chars@.subrange(from as int, chars@.len() as int));
    out
}

/// Reads the directory name of an area: its bounds and its name. A name
/// that is not written as an area is refused as invalid.
pub fn parse_area_name(s: &str) -> (r: Result<((usize, usize), String), Error>)
    ensures
        match parse_area_text(s@) {
            Some((bounds, name)) => r matches Ok(found) && found.0 == bounds && found.1@ == name,
            None => r matches Err(e) && e == Error::Validation,
        },
{
    let chars = chars_of(s);
    match (read_two_digits(&chars, 0), read_two_digits(&chars, 3)) {
        (Some(low), Some(high)) => {
            if chars.len() >= 6 && chars[2] == '-' && chars[5] == ' ' && high == low + 9 {
                Ok(((low, high), rest_of(&chars, 6)))
            } else {
                Err(Error::Validation)
            }
        },
        _ => Err(Error::Validation),
    }
}

/// Reads the directory name of a category of an area with the given bounds:
/// its number and its name. A name that is not written as a category, or
/// whose number lies outside the bounds, is refused as invalid.
pub fn parse_category_name(s: &str, bounds: (usize, usize)) -> (r: Result<(usize, String), Error>)
    ensures
        match parse_category_text(s@, bounds) {
            Some((id, name)) => r matches Ok(found) && found.0 == id && found.1@ == name,
            None => r matches Err(e) && e == Error::Validation,
        },
{
    let chars = chars_of(s);
    match read_two_digits(&chars, 0) {
        Some(id) => {
            if chars.len() >= 3 && chars[2] == ' ' && bounds.0 <= id && id <= bounds.1 {
                Ok((id, rest_of(&chars, 3)))
            } else {
                Err(Error::Validation)
            }
        },
        None => Err(Error::Validation),
    }
}

/// Reads the directory name of an item of the category of the given number.
/// A name that is not written as an item, or that names another category,
/// is refused as invalid.
pub fn parse_item_name(s: &str, category_id: usize) -> (r: Result<Item, Error>)
    ensures
        match parse_item_text(s@, category_id) {
            Some(item) => r matches Ok(found) && found@ == item,
            None => r matches Err(e) && e == Error::Validation,
        },
{
    let chars = chars_of(s);
    match (read_two_digits(&chars, 0), read_three_digits(&chars, 3)) {
        (Some(category), Some(id)) => {
            if chars.len() >= 7 && chars[2] == '.' && chars[6] == ' ' && category == category_id {
                Ok(Item { id: ID { category, id }, name: rest_of(&chars, 7) })
            } else {
                Err(Error::Validation)
            }
        },
        _ => Err(Error::Validation),
    }
}

/// Whether a directory entry is hidden: its name starts with a dot.
pub open spec fn hidden_text(s: Seq<char>) -> bool {
    s.len() > 0 && s[0] == '.'
}

/// Whether a directory entry is hidden, and so passed over by a scan.
pub fn is_hidden(name: &str) -> (r: bool)
    ensures
        r == hidden_text(name@),
{
    let chars = chars_of(name);
    chars.len() > 0 && chars[0] == '.'
}

} // verus!
