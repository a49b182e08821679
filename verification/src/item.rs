//! Identifiers `CC.III` and the items they name.

use vstd::prelude::*;
use vstd::string::*;

use crate::error::Error;
use crate::text::{
    all_digits, chars_of, digit_char, lemma_digit_char, lemma_three_digits,
    lemma_two_digits, lemma_value_of_three, lemma_value_of_two, padded, parse_digits, push_padded,
    value_of,
};

verus! {

/// The number of categories, and the bound on a category number.
pub const CATEGORY_COUNT: usize = 100;

/// The number of item slots of a category, and the bound on an item number.
pub const ITEM_COUNT: usize = 1000;

/// A category number and an item number within that category.
#[derive(Clone, Copy, Debug, PartialEq, Eq, Structural)]
pub struct ID {
    pub category: usize,
    pub id: usize,
}

/// The position of the first `c` in `s` at or after `start`; the length of
/// `s` when there is none.
pub open spec fn find_from(s: Seq<char>, c: char, start: int) -> int
    decreases s.len() - start,
{
    if start >= s.len() {
        s.len() as int
    } else if s[start] == c {
        start
    } else {
        find_from(s, c, start + 1)
    }
}

/// The number that `s` writes as an optional plus sign followed by one or
/// more digits.
pub open spec fn number_text(s: Seq<char>) -> Option<nat> {
    let body = if s.len() > 0 && s[0] == '+' {
        s.subrange(1, s.len() as int)
    } else {
        s
    };
    if body.len() > 0 && all_digits(body) {
        Some(value_of(body))
    } else {
        None
    }
}

/// The identifier that a text writes: a number below one hundred, the first
/// dot of the text, and a number below one thousand.
pub open spec fn parse_id(s: Seq<char>) -> Option<ID> {
    let dot = find_from(s, '.', 0);
    if dot < s.len() {
        match (number_text(s.subrange(0, dot)), number_text(s.subrange(dot + 1, s.len() as int))) {
            (Some(category), Some(id)) => if category < CATEGORY_COUNT && id < ITEM_COUNT {
                Some(ID { category: category as usize, id: id as usize })
            } else {
                None
            },
            _ => None,
        }
    } else {
        None
    }
}

/// The canonical text of an identifier: the category on two digits, a dot,
/// the item on three digits, each zero-padded.
pub open spec fn format_id(id: ID) -> Seq<char> {
    padded(id.category as nat, 2) + seq!['.'] + padded(id.id as nat, 3)
}

/// Reading the canonical text of a valid identifier gives the identifier back.
pub proof fn lemma_parse_format_id(id: ID)
    requires
        id.category < CATEGORY_COUNT,
        id.id < ITEM_COUNT,
    ensures
        parse_id(format_id(id)) == Some(id),
{
    let c = id.category as nat;
    let i = id.id as nat;
    let (a, b) = (digit_char(c / 10), digit_char(c % 10));
    let (x, y, z) = (digit_char(i / 100), digit_char((i / 10) % 10), digit_char(i % 10));
    lemma_two_digits(c);
    lemma_three_digits(i);
    lemma_digit_char(c / 10);
    lemma_digit_char(c % 10);
    lemma_digit_char(i / 100);
    lemma_digit_char((i / 10) % 10);
    lemma_digit_char(i % 10);
    let s = format_id(id);
    assert(s =~= seq![a, b, '.', x, y, z]);
    reveal_with_fuel(find_from, 4);
    assert(find_from(s, '.', 0) == 2);
    assert(s.subrange(0, 2) =~= seq![a, b]);
    assert(s.subrange(3, 6) =~= seq![x, y, z]);
    lemma_value_of_two(a, b);
    lemma_value_of_three(x, y, z);
}

/// The index of the first `c` in `chars`, or their number when there is none.
pub(crate) fn find_char(chars: &Vec<char>, c: char) -> (r: usize)
    ensures
        r == find_from(chars@, c, 0),
        r <= chars.len(),
{
    let mut i: usize = 0;
    while i < chars.len() && chars[i] != c
        invariant
            i <= chars.len(),
            find_from(chars@, c, 0) == find_from(chars@, c, i as int),
        decreases chars.len() - i,
    {
        i += 1;
    }
    i
}

/// Reads `chars[from..to]` as an optional plus sign and digits that write a
/// number below `limit`.
pub(crate) fn parse_number(chars: &Vec<char>, from: usize, to: usize, limit: usize) -> (r: Option<
    usize,
>)
    requires
        from <= to <= chars.len(),
        limit <= 1000,
    ensures
        match r {
            Some(v) => v < limit && number_text(chars@.subrange(from as int, to as int)) == Some(
                v as nat,
            ),
            None => match number_text(chars@.subrange(from as int, to as int)) {
                Some(v) => v >= limit,
                None => true,
            },
        },
{
    let ghost s = chars@.subrange(from as int, to as int);
    let start = if from < to && chars[from] == '+' {
        from + 1
    } else {
        from
    };
    proof {
        if start == from + 1 {
            assert(s[0] == '+');
            assert(s.subrange(1, s.len() as int) =~= chars@.subrange(start as int, to as int));
        } else {
            if s.len() > 0 {
                assert(s[0] == chars@[from as int]);
            }
        }
    }
    parse_digits(chars, start, to, limit)
}

impl ID {
    /// Reads an identifier from its text. A text that writes no identifier is
    /// refused as invalid.
    pub fn from_str(s: &str) -> (r: Result<ID, Error>)
        ensures
            r == match parse_id(s@) {
                Some(id) => Ok::<ID, Error>(id),
                None => Err::<ID, Error>(Error::Validation),
            },
    {
        let chars = chars_of(s);
        let dot = find_char(&chars, '.');
        if dot >= chars.len() {
            return Err(Error::Validation);
        }
        let category = parse_number(&chars, 0, dot, CATEGORY_COUNT);
        let id = parse_number(&chars, dot + 1, chars.len(), ITEM_COUNT);
        match (category, id) {
            (Some(category), Some(id)) => Ok(ID { category, id }),
            _ => Err(Error::Validation),
        }
    }

    /// The canonical text of the identifier.
    pub fn to_string(&self) -> (r: String)
        ensures
            r@ == format_id(*self),
    {
        let mut out = String::new();
        push_padded(&mut out, self.category, 2);
        out.push('.');
        push_padded(&mut out, self.id, 3);
        assert(out@ =~= format_id(*self));
        out
    }

    /// Whether the identifier is one that a text can write: the category is
    /// below one hundred and the item below one thousand.
    pub open spec fn valid(self) -> bool {
        self.category < CATEGORY_COUNT && self.id < ITEM_COUNT
    }
}

/// A named entry of the catalog.
#[derive(Debug)]
pub struct Item {
    pub id: ID,
    pub name: String,
}

/// What an item is: its identifier and the characters of its name.
pub struct ItemModel {
    pub id: ID,
    pub name: Seq<char>,
}

impl View for Item {
    type V = ItemModel;

    open spec fn view(&self) -> ItemModel {
        ItemModel { id: self.id, name: self.name@ }
    }
}

impl Clone for Item {
    fn clone(&self) -> (r: Item)
        ensures
            r == *self,
    {
        Item { id: self.id, name: self.name.clone() }
    }
}

/// The text of an item: its identifier, a space and its name.
pub open spec fn item_text(item: ItemModel) -> Seq<char> {
    format_id(item.id) + seq![' '] + item.name
}

impl Item {
    /// The text of the item, which is also the name of its directory.
    pub fn to_string(&self) -> (r: String)
        ensures
            r@ == item_text(self@),
    {
        let mut out = self.id.to_string();
        out.push(' ');
        out.append(self.name.as_str());
        out
    }
}

} // verus!
