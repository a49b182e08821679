//! The numbering catalog: categories of item slots, areas of category slots
//! and the index of area slots.

use vstd::prelude::*;
use vstd::string::*;

use crate::error::Error;
use crate::item::{Item, ItemModel, CATEGORY_COUNT, ID, ITEM_COUNT};
use crate::slots::{empty_slots, present, put_slot, take_slot};
use crate::naming::{build_area_name, build_category_name};
use crate::text::{lowercase_of, name_matches, occurs_in_text, padded, str_to_lowercase};

verus! {

/// The number of category slots of an area, and of area slots of the index.
pub const AREA_WIDTH: usize = 10;

/// What a slot holds, as a model.
pub open spec fn item_slot_model(slot: Option<Item>) -> Option<ItemModel> {
    match slot {
        Some(item) => Some(item@),
        None => None,
    }
}

/// What a table of item slots holds, slot by slot.
pub open spec fn item_slots_model(slots: Seq<Option<Item>>) -> Seq<Option<ItemModel>> {
    Seq::new(slots.len(), |i: int| item_slot_model(slots[i]))
}

/// What a list of items holds, item by item.
pub open spec fn items_model(items: Seq<Item>) -> Seq<ItemModel> {
    Seq::new(items.len(), |i: int| items[i]@)
}

/// The lowest free slot at or after `from`; the number of slots when none of
/// them is free.
pub open spec fn lowest_free(items: Seq<Option<ItemModel>>, from: int) -> int
    decreases items.len() - from,
{
    if from >= items.len() {
        items.len() as int
    } else if items[from] is None {
        from
    } else {
        lowest_free(items, from + 1)
    }
}

/// The hits of a query among the first `n` slots, in ascending order of slot.
pub open spec fn hits(items: Seq<Option<ItemModel>>, query: Seq<char>, n: int) -> Seq<ItemModel>
    decreases n,
{
    if n <= 0 {
        Seq::empty()
    } else {
        match items[n - 1] {
            Some(item) => if name_matches(item.name, query) {
                hits(items, query, n - 1).push(item)
            } else {
                hits(items, query, n - 1)
            },
            None => hits(items, query, n - 1),
        }
    }
}

/// A category as a value: its number, its name and its thousand item slots.
#[verifier::ext_equal]
pub struct CategoryModel {
    pub id: usize,
    pub name: Seq<char>,
    pub items: Seq<Option<ItemModel>>,
}

impl CategoryModel {
    /// Every occupied slot holds the item of that number and of this category.
    pub open spec fn wf(self) -> bool {
        &&& self.items.len() == ITEM_COUNT
        &&& forall|i: int|
            0 <= i < ITEM_COUNT ==> (#[trigger] self.items[i] matches Some(item) ==> item.id.id == i
                && item.id.category == self.id)
    }

    /// The category without any item.
    pub open spec fn empty(id: usize, name: Seq<char>) -> CategoryModel {
        CategoryModel { id, name, items: Seq::new(ITEM_COUNT as nat, |i: int| None) }
    }

    /// Whether `id` names a slot of this category.
    pub open spec fn owns(self, id: ID) -> bool {
        id.category == self.id && id.id < ITEM_COUNT
    }

    /// The category with `slot` written into the slot of number `k`.
    pub open spec fn with_slot(self, k: int, slot: Option<ItemModel>) -> CategoryModel {
        CategoryModel { id: self.id, name: self.name, items: self.items.update(k, slot) }
    }

    /// The category under another name.
    pub open spec fn renamed(self, name: Seq<char>) -> CategoryModel {
        CategoryModel { id: self.id, name, items: self.items }
    }

    /// The category after `item` is put into the slot of its own number:
    /// refused as invalid when the item is of another category or its number
    /// names no slot, as a conflict when the slot is occupied.
    pub open spec fn import(self, item: ItemModel) -> Result<CategoryModel, Error> {
        if !self.owns(item.id) {
            Err(Error::Validation)
        } else if self.items[item.id.id as int] is Some {
            Err(Error::Conflict)
        } else {
            Ok(self.with_slot(item.id.id as int, Some(item)))
        }
    }

    /// The item that an allocation under `name` makes: at the explicit
    /// identifier where one is given, else at the lowest free slot from 1 on.
    pub open spec fn allocation(self, name: Seq<char>, explicit: Option<ID>) -> Result<
        ItemModel,
        Error,
    > {
        match explicit {
            Some(id) => Ok(ItemModel { id, name }),
            None => {
                let slot = lowest_free(self.items, 1);
                if slot >= ITEM_COUNT {
                    Err(Error::Exhausted)
                } else {
                    Ok(ItemModel { id: ID { category: self.id, id: slot as usize }, name })
                }
            },
        }
    }

    /// The category after an allocation, with the item allocated.
    pub open spec fn allocate(self, name: Seq<char>, explicit: Option<ID>) -> Result<
        (CategoryModel, ItemModel),
        Error,
    > {
        match self.allocation(name, explicit) {
            Ok(item) => match self.import(item) {
                Ok(category) => Ok((category, item)),
                Err(e) => Err(e),
            },
            Err(e) => Err(e),
        }
    }

    /// What the slot named by `id` holds.
    pub open spec fn get(self, id: ID) -> Result<Option<ItemModel>, Error> {
        if self.owns(id) {
            Ok(self.items[id.id as int])
        } else {
            Err(Error::Validation)
        }
    }

    /// The category after the slot named by `id` is emptied.
    pub open spec fn remove(self, id: ID) -> Result<CategoryModel, Error> {
        if self.owns(id) {
            Ok(self.with_slot(id.id as int, None))
        } else {
            Err(Error::Validation)
        }
    }

    /// The items of the category in ascending order of their numbers.
    pub open spec fn listed(self) -> Seq<ItemModel> {
        present(self.items, ITEM_COUNT as int)
    }

    /// The items whose lowercase name holds `query`, in ascending order.
    pub open spec fn search(self, query: Seq<char>) -> Seq<ItemModel> {
        hits(self.items, query, ITEM_COUNT as int)
    }

    /// The category made of a number, a name and a table of slots, where the
    /// table has a thousand slots and each occupied one holds the item of its
    /// own number.
    pub open spec fn from_slots(id: usize, name: Seq<char>, items: Seq<Option<ItemModel>>) -> Result<
        CategoryModel,
        Error,
    > {
        let category = CategoryModel { id, name, items };
        if category.wf() {
            Ok(category)
        } else {
            Err(Error::Validation)
        }
    }
}

/// The text of a category: its number on two digits, a space and its name.
pub open spec fn category_text(id: usize, name: Seq<char>) -> Seq<char> {
    padded(id as nat, 2) + seq![' '] + name
}

/// A named bucket of up to a thousand items.
#[derive(Debug)]
pub struct Category {
    id: usize,
    name: String,
    items: Vec<Option<Item>>,
}

impl View for Category {
    type V = CategoryModel;

    closed spec fn view(&self) -> CategoryModel {
        CategoryModel { id: self.id, name: self.name@, items: item_slots_model(self.items@) }
    }
}

impl Clone for Category {
    fn clone(&self) -> (r: Category)
        ensures
            r@ == self@,
    {
        proof {
            use_type_invariant(self);
        }
        let mut items: Vec<Option<Item>> = Vec::new();
        let mut i: usize = 0;
        while i < ITEM_COUNT
            invariant
                i <= ITEM_COUNT,
                self.items@.len() == ITEM_COUNT,
                items@.len() == i,
                forall|j: int| 0 <= j < i ==> items@[j] == self.items@[j],
            decreases ITEM_COUNT - i,
        {
            let slot = match &self.items[i] {
                Some(item) => Some(item.clone()),
                None => None,
            };
            items.push(slot);
            i += 1;
        }
        assert(items@ =~= self.items@);
        Category { id: self.id, name: self.name.clone(), items }
    }
}

impl Category {
    /// What every value of the type meets, stated over its fields.
    #[verifier::type_invariant]
    pub closed spec fn inv(self) -> bool {
        &&& self.items@.len() == ITEM_COUNT
        &&& forall|i: int|
            0 <= i < ITEM_COUNT ==> (#[trigger] self.items@[i] matches Some(item) ==> item.id.id
                == i && item.id.category == self.id)
    }

    /// A category that meets its invariant is well formed as a value.
    pub proof fn lemma_inv_wf(self)
        requires
            self.inv(),
        ensures
            self@.wf(),
    {
    }

    /// The category of number `id` under `name`, without any item.
    pub fn new(id: usize, name: String) -> (c: Category)
        ensures
            c@ == CategoryModel::empty(id, name@),
            c@.wf(),
    {
        let items: Vec<Option<Item>> = empty_slots(ITEM_COUNT);
        let c = Category { id, name, items };
        assert(c@.items =~= CategoryModel::empty(id, name@).items);
        c
    }

    /// The number of the category.
    pub fn id(&self) -> (r: usize)
        ensures
            r == self@.id,
    {
        self.id
    }

    /// The name.
    pub fn name(&self) -> (r: &str)
        ensures
            r@ == self@.name,
    {
        self.name.as_str()
    }

    /// Gives the category another name; its items stay.
    pub fn set_name(&mut self, name: String)
        ensures
            final(self)@ == old(self)@.renamed(name@),
            final(self)@.wf(),
    {
        proof {
            use_type_invariant(&*self);
        }
        self.name = name;
    }

    /// The text of the category, which is also the name of its directory.
    pub fn to_string(&self) -> (r: String)
        ensures
            r@ == category_text(self@.id, self@.name),
    {
        build_category_name(self.id, self.name.as_str())
    }

    /// Puts a fully formed item into the slot of its own number.
    pub fn import_item(&mut self, item: Item) -> (r: Result<Item, Error>)
        ensures
            final(self)@.wf(),
            match old(self)@.import(item@) {
                Ok(category) => final(self)@ == category && r == Ok::<Item, Error>(item),
                Err(e) => final(self)@ == old(self)@ && r == Err::<Item, Error>(e),
            },
    {
        proof {
            use_type_invariant(&*self);
        }
        if item.id.id >= ITEM_COUNT || item.id.category != self.id {
            return Err(Error::Validation);
        }
        let k = item.id.id;
        if self.items[k].is_some() {
            return Err(Error::Conflict);
        }
        let kept = item.clone();
        put_slot(&mut self.items, k, Some(kept));
        assert(self@.items =~= old(self)@.items.update(k as int, Some(item@)));
        Ok(item)
    }

    /// Allocates an item under `name`: at `id` where one is given, else at the
    /// lowest free slot from 1 on (slot 0 is never handed out this way).
    pub fn add_item(&mut self, name: &str, id: Option<&ID>) -> (r: Result<Item, Error>)
        ensures
            final(self)@.wf(),
            match old(self)@.allocate(
                name@,
                match id {
                    Some(id) => Some(*id),
                    None => None,
                },
            ) {
                Ok((category, item)) => final(self)@ == category && r is Ok && r.unwrap()@ == item,
                Err(e) => final(self)@ == old(self)@ && r == Err::<Item, Error>(e),
            },
            id is None && r is Ok ==> {
                let slot = r.unwrap().id.id as int;
                &&& 1 <= slot < ITEM_COUNT
                &&& old(self)@.items[slot] is None
                &&& forall|j: int| 1 <= j < slot ==> old(self)@.items[j] is Some
            },
            id is None && r is Err ==> forall|j: int|
                1 <= j < ITEM_COUNT ==> old(self)@.items[j] is Some,
    {
        proof {
            use_type_invariant(&*self);
        }
        let target = match id {
            Some(id) => *id,
            None => {
                let mut i: usize = 1;
                while i < ITEM_COUNT && self.items[i].is_some()
                    invariant
                        1 <= i <= ITEM_COUNT,
                        self.items@.len() == ITEM_COUNT,
                        lowest_free(self@.items, 1) == lowest_free(self@.items, i as int),
                        forall|j: int| 1 <= j < i ==> self@.items[j] is Some,
                    decreases ITEM_COUNT - i,
                {
                    i += 1;
                }
                if i >= ITEM_COUNT {
                    return Err(Error::Exhausted);
                }
                ID { category: self.id, id: i }
            },
        };
        let item = Item { id: target, name: name.to_owned() };
        self.import_item(item)
    }

    /// The item in the slot that `id` names, if the slot is occupied.
    pub fn get_item(&self, id: &ID) -> (r: Result<Option<Item>, Error>)
        ensures
            match self@.get(*id) {
                Ok(slot) => r is Ok && item_slot_model(r.unwrap()) == slot,
                Err(e) => r == Err::<Option<Item>, Error>(e),
            },
    {
        proof {
            use_type_invariant(self);
        }
        if id.category != self.id || id.id >= ITEM_COUNT {
            return Err(Error::Validation);
        }
        match &self.items[id.id] {
            Some(item) => Ok(Some(item.clone())),
            None => Ok(None),
        }
    }

    /// Empties the slot that `id` names; the other slots stay as they are.
    pub fn remove_item(&mut self, id: &ID) -> (r: Result<(), Error>)
        ensures
            final(self)@.wf(),
            match old(self)@.remove(*id) {
                Ok(category) => final(self)@ == category && r is Ok,
                Err(e) => final(self)@ == old(self)@ && r == Err::<(), Error>(e),
            },
    {
        proof {
            use_type_invariant(&*self);
        }
        if id.category != self.id || id.id >= ITEM_COUNT {
            return Err(Error::Validation);
        }
        put_slot(&mut self.items, id.id, None);
        assert(self@.items =~= old(self)@.items.update(id.id as int, None));
        Ok(())
    }

    /// The items of the category in ascending order of their numbers.
    pub fn list_items(&self) -> (r: Vec<Item>)
        ensures
            items_model(r@) == self@.listed(),
    {
        proof {
            use_type_invariant(self);
        }
        let mut out: Vec<Item> = Vec::new();
        let mut i: usize = 0;
        assert(items_model(out@) =~= present(self@.items, 0));
        while i < ITEM_COUNT
            invariant
                i <= ITEM_COUNT,
                self.items@.len() == ITEM_COUNT,
                items_model(out@) == present(self@.items, i as int),
            decreases ITEM_COUNT - i,
        {
            let ghost before = out@;
            match &self.items[i] {
                Some(item) => {
                    out.push(item.clone());
                    assert(items_model(out@) =~= items_model(before).push(item@));
                },
                None => {},
            }
            i += 1;
        }
        out
    }

    /// The items whose lowercase name holds `query`, in ascending order of
    /// their numbers. The query is taken as it is.
    pub fn search(&self, query: &str) -> (r: Vec<Item>)
        ensures
            items_model(r@) == self@.search(query@),
    {
        proof {
            use_type_invariant(self);
        }
        let mut out: Vec<Item> = Vec::new();
        let mut i: usize = 0;
        assert(items_model(out@) =~= hits(self@.items, query@, 0));
        while i < ITEM_COUNT
            invariant
                i <= ITEM_COUNT,
                self.items@.len() == ITEM_COUNT,
                items_model(out@) == hits(self@.items, query@, i as int),
            decreases ITEM_COUNT - i,
        {
            let ghost before = out@;
            match &self.items[i] {
                Some(item) => {
                    let lowered = str_to_lowercase(item.name.as_str());
                    if occurs_in_text(query, lowered.as_str()) {
                        out.push(item.clone());
                        assert(items_model(out@) =~= items_model(before).push(item@));
                    }
                },
                None => {},
            }
            i += 1;
        }
        out
    }

    /// Makes a category of a number, a name and a table of slots. The table
    /// is refused as invalid unless it has a thousand slots and each occupied
    /// one holds the item of its own number and of this category.
    pub fn from_slots(id: usize, name: String, items: Vec<Option<Item>>) -> (r: Result<
        Category,
        Error,
    >)
        ensures
            match CategoryModel::from_slots(id, name@, item_slots_model(items@)) {
                Ok(category) => r is Ok && r.unwrap()@ == category,
                Err(e) => r matches Err(refusal) && refusal == e,
            },
    {
        let ghost model = CategoryModel { id, name: name@, items: item_slots_model(items@) };
        if items.len() != ITEM_COUNT {
            return Err(Error::Validation);
        }
        let mut i: usize = 0;
        while i < ITEM_COUNT
            invariant
                i <= ITEM_COUNT,
                items@.len() == ITEM_COUNT,
                model == (CategoryModel { id, name: name@, items: item_slots_model(items@) }),
                forall|j: int|
                    0 <= j < i ==> (#[trigger] items@[j] matches Some(item) ==> item.id.id == j
                        && item.id.category == id),
            decreases ITEM_COUNT - i,
        {
            match &items[i] {
                Some(item) => {
                    if item.id.id != i || item.id.category != id {
                        proof {
                            assert(model.items[i as int] == Some(item@));
                        }
                        return Err(Error::Validation);
                    }
                },
                None => {},
            }
            i += 1;
        }
        Ok(Category { id, name, items })
    }

    /// What slot `k` holds; nothing where there is no such slot.
    pub fn slot(&self, k: usize) -> (r: Option<&Item>)
        ensures
            match r {
                Some(item) => k < ITEM_COUNT && self@.items[k as int] == Some(item@),
                None => k < ITEM_COUNT ==> self@.items[k as int] is None,
            },
    {
        proof {
            use_type_invariant(self);
        }
        if k < ITEM_COUNT {
            self.items[k].as_ref()
        } else {
            None
        }
    }
}

/// What a slot of an area holds, as a model.
pub open spec fn category_slot_model(slot: Option<Category>) -> Option<CategoryModel> {
    match slot {
        Some(category) => Some(category@),
        None => None,
    }
}

/// What a table of category slots holds, slot by slot.
pub open spec fn category_slots_model(slots: Seq<Option<Category>>) -> Seq<Option<CategoryModel>> {
    Seq::new(slots.len(), |i: int| category_slot_model(slots[i]))
}

/// What a list of borrowed categories holds, one by one.
pub open spec fn categories_model(categories: Seq<&Category>) -> Seq<CategoryModel> {
    Seq::new(categories.len(), |i: int| categories[i]@)
}

/// Bounds of an area: ten consecutive category numbers from a multiple of ten.
pub open spec fn valid_bounds(bounds: (usize, usize)) -> bool {
    bounds.0 % 10 == 0 && bounds.1 == bounds.0 + 9
}

/// The hits of a query in the categories of the first `n` slots, category by
/// category in ascending order.
pub open spec fn area_hits(
    categories: Seq<Option<CategoryModel>>,
    query: Seq<char>,
    n: int,
) -> Seq<ItemModel>
    decreases n,
{
    if n <= 0 {
        Seq::empty()
    } else {
        match categories[n - 1] {
            Some(category) => area_hits(categories, query, n - 1) + category.search(query),
            None => area_hits(categories, query, n - 1),
        }
    }
}

/// An area as a value: its bounds, its name and its ten category slots.
#[verifier::ext_equal]
pub struct AreaModel {
    pub bounds: (usize, usize),
    pub name: Seq<char>,
    pub categories: Seq<Option<CategoryModel>>,
}

impl AreaModel {
    /// The bounds are valid, and every occupied slot holds a well-formed
    /// category whose number lies within the bounds and ends in the number of
    /// the slot.
    pub open spec fn wf(self) -> bool {
        &&& valid_bounds(self.bounds)
        &&& self.categories.len() == AREA_WIDTH
        &&& forall|k: int|
            0 <= k < AREA_WIDTH ==> (#[trigger] self.categories[k] matches Some(category)
                ==> category.wf() && self.holds(category.id) && category.id % 10 == k)
    }

    /// Whether the category number lies within the bounds.
    pub open spec fn holds(self, category_id: usize) -> bool {
        self.bounds.0 <= category_id <= self.bounds.1
    }

    /// The area without any category.
    pub open spec fn empty(bounds: (usize, usize), name: Seq<char>) -> AreaModel {
        AreaModel { bounds, name, categories: Seq::new(AREA_WIDTH as nat, |k: int| None) }
    }

    /// The area with `category` in the slot of its number.
    pub open spec fn with_category(self, category: CategoryModel) -> AreaModel {
        AreaModel {
            bounds: self.bounds,
            name: self.name,
            categories: self.categories.update(category.id as int % 10, Some(category)),
        }
    }

    /// The area after a category is created: refused as invalid when the
    /// number lies outside the bounds, as a conflict when its slot is
    /// occupied.
    pub open spec fn create_category(self, category_id: usize, name: Seq<char>) -> Result<
        AreaModel,
        Error,
    > {
        if !self.holds(category_id) {
            Err(Error::Validation)
        } else if self.categories[category_id as int % 10] is Some {
            Err(Error::Conflict)
        } else {
            Ok(self.with_category(CategoryModel::empty(category_id, name)))
        }
    }

    /// What the slot of a category number holds.
    pub open spec fn get_category(self, category_id: usize) -> Result<Option<CategoryModel>, Error> {
        if self.holds(category_id) {
            Ok(self.categories[category_id as int % 10])
        } else {
            Err(Error::Validation)
        }
    }

    /// The category of a number, which must exist.
    pub open spec fn category(self, category_id: usize) -> Result<CategoryModel, Error> {
        match self.get_category(category_id) {
            Ok(Some(category)) => Ok(category),
            Ok(None) => Err(Error::NotFound),
            Err(e) => Err(e),
        }
    }

    /// The area after an allocation in one of its categories, with the item
    /// made.
    pub open spec fn add_item(self, category_id: usize, name: Seq<char>, explicit: Option<ID>) -> Result<
        (AreaModel, ItemModel),
        Error,
    > {
        match self.category(category_id) {
            Ok(category) => match category.allocate(name, explicit) {
                Ok((category, item)) => Ok((self.with_category(category), item)),
                Err(e) => Err(e),
            },
            Err(e) => Err(e),
        }
    }

    /// The area after a fully formed item is put into its own slot.
    pub open spec fn import_item(self, item: ItemModel) -> Result<AreaModel, Error> {
        match self.category(item.id.category) {
            Ok(category) => match category.import(item) {
                Ok(category) => Ok(self.with_category(category)),
                Err(e) => Err(e),
            },
            Err(e) => Err(e),
        }
    }

    /// What the slot named by `id` holds.
    pub open spec fn get_item(self, id: ID) -> Result<Option<ItemModel>, Error> {
        match self.category(id.category) {
            Ok(category) => category.get(id),
            Err(e) => Err(e),
        }
    }

    /// The area after the slot named by `id` is emptied.
    pub open spec fn remove_item(self, id: ID) -> Result<AreaModel, Error> {
        match self.category(id.category) {
            Ok(category) => match category.remove(id) {
                Ok(category) => Ok(self.with_category(category)),
                Err(e) => Err(e),
            },
            Err(e) => Err(e),
        }
    }

    /// The area after one of its categories is given another name.
    pub open spec fn rename_category(self, category_id: usize, name: Seq<char>) -> Result<
        AreaModel,
        Error,
    > {
        match self.category(category_id) {
            Ok(category) => Ok(self.with_category(category.renamed(name))),
            Err(e) => Err(e),
        }
    }

    /// The categories of the area in ascending order of their numbers.
    pub open spec fn listed(self) -> Seq<CategoryModel> {
        present(self.categories, AREA_WIDTH as int)
    }

    /// The hits of a query in the area, category by category.
    pub open spec fn search(self, query: Seq<char>) -> Seq<ItemModel> {
        area_hits(self.categories, query, AREA_WIDTH as int)
    }

    /// The area made of bounds, a name and a table of slots, where the bounds
    /// are valid, the table has ten slots and each occupied one holds a
    /// category of the area in the slot of its number.
    pub open spec fn from_slots(
        bounds: (usize, usize),
        name: Seq<char>,
        categories: Seq<Option<CategoryModel>>,
    ) -> Result<AreaModel, Error> {
        let area = AreaModel { bounds, name, categories };
        if area.wf() {
            Ok(area)
        } else {
            Err(Error::Validation)
        }
    }
}

/// The text of an area: its two bounds on two digits each with a hyphen
/// between them, a space and its name.
pub open spec fn area_text(bounds: (usize, usize), name: Seq<char>) -> Seq<char> {
    padded(bounds.0 as nat, 2) + seq!['-'] + padded(bounds.1 as nat, 2) + seq![' '] + name
}

/// Whether the bounds are those of an area.
pub fn check_bounds(bounds: (usize, usize)) -> (r: bool)
    ensures
        r == valid_bounds(bounds),
{
    bounds.0 % 10 == 0 && bounds.0 <= usize::MAX - 9 && bounds.1 == bounds.0 + 9
}

/// A block of ten consecutive category numbers under one name.
#[derive(Debug)]
pub struct Area {
    bounds: (usize, usize),
    name: String,
    categories: Vec<Option<Category>>,
}

impl View for Area {
    type V = AreaModel;

    closed spec fn view(&self) -> AreaModel {
        AreaModel {
            bounds: self.bounds,
            name: self.name@,
            categories: category_slots_model(self.categories@),
        }
    }
}

impl Clone for Area {
    fn clone(&self) -> (r: Area)
        ensures
            r@ == self@,
    {
        proof {
            use_type_invariant(self);
        }
        let mut categories: Vec<Option<Category>> = Vec::new();
        let mut k: usize = 0;
        while k < AREA_WIDTH
            invariant
                k <= AREA_WIDTH,
                self.categories@.len() == AREA_WIDTH,
                categories@.len() == k,
                forall|j: int|
                    0 <= j < k ==> category_slot_model(#[trigger] categories@[j])
                        == category_slot_model(self.categories@[j]) && (categories@[j] matches Some(
                        category,
                    ) ==> category.inv()),
            decreases AREA_WIDTH - k,
        {
            let slot = match &self.categories[k] {
                Some(category) => {
                    let copy = category.clone();
                    proof {
                        use_type_invariant(&copy);
                    }
                    Some(copy)
                },
                None => None,
            };
            categories.push(slot);
            k += 1;
        }
        proof {
            assert(category_slots_model(categories@) =~= category_slots_model(self.categories@));
            assert forall|j: int| 0 <= j < AREA_WIDTH implies (#[trigger] categories@[j] matches Some(
                category,
            ) ==> category.inv() && self.bounds.0 <= category.id <= self.bounds.1 && category.id
                % 10 == j) by {
                assert(category_slot_model(categories@[j]) == category_slot_model(
                    self.categories@[j],
                ));
            }
        }
        Area { bounds: self.bounds, name: self.name.clone(), categories }
    }
}

impl Area {
    /// What every value of the type meets, stated over its fields.
    #[verifier::type_invariant]
    pub closed spec fn inv(self) -> bool {
        &&& valid_bounds(self.bounds)
        &&& self.categories@.len() == AREA_WIDTH
        &&& forall|k: int|
            0 <= k < AREA_WIDTH ==> (#[trigger] self.categories@[k] matches Some(category)
                ==> category.inv() && self.bounds.0 <= category.id <= self.bounds.1 && category.id
                % 10 == k)
    }

    /// An area that meets its invariant is well formed as a value.
    pub proof fn lemma_inv_wf(self)
        requires
            self.inv(),
        ensures
            self@.wf(),
    {
        assert forall|k: int| 0 <= k < AREA_WIDTH implies (#[trigger] self@.categories[k] matches Some(
            category,
        ) ==> category.wf() && self@.holds(category.id) && category.id % 10 == k) by {
            if let Some(category) = self.categories@[k] {
                category.lemma_inv_wf();
            }
        }
    }

    /// The area of the given bounds under `name`, without any category.
    pub fn new(bounds: (usize, usize), name: String) -> (a: Area)
        requires
            valid_bounds(bounds),
        ensures
            a@ == AreaModel::empty(bounds, name@),
            a@.wf(),
    {
        let categories: Vec<Option<Category>> = empty_slots(AREA_WIDTH);
        let a = Area { bounds, name, categories };
        assert(a@.categories =~= AreaModel::empty(bounds, name@).categories);
        a
    }

    /// The lowest and the highest category number of the area.
    pub fn bounds(&self) -> (r: (usize, usize))
        ensures
            r == self@.bounds,
    {
        self.bounds
    }

    /// The name.
    pub fn name(&self) -> (r: &str)
        ensures
            r@ == self@.name,
    {
        self.name.as_str()
    }

    /// The text of the area, which is also the name of its directory.
    pub fn to_string(&self) -> (r: String)
        ensures
            r@ == area_text(self@.bounds, self@.name),
    {
        build_area_name(self.bounds, self.name.as_str())
    }

    /// Creates the category of number `category_id` under `name`.
    pub fn create_category(&mut self, category_id: usize, name: String) -> (r: Result<
        &Category,
        Error,
    >)
        ensures
            final(self)@.wf(),
            match old(self)@.create_category(category_id, name@) {
                Ok(area) => final(self)@ == area && r is Ok && r.unwrap()@ == CategoryModel::empty(
                    category_id,
                    name@,
                ),
                Err(e) => final(self)@ == old(self)@ && r == Err::<&Category, Error>(e),
            },
    {
        proof {
            use_type_invariant(&*self);
            self.lemma_inv_wf();
        }
        if category_id < self.bounds.0 || category_id > self.bounds.1 {
            return Err(Error::Validation);
        }
        let k = category_id % 10;
        if self.categories[k].is_some() {
            return Err(Error::Conflict);
        }
        let category = Category::new(category_id, name);
        proof {
            use_type_invariant(&category);
        }
        put_slot(&mut self.categories, k, Some(category));
        proof {
            assert(self@.categories =~= old(self)@.categories.update(
                k as int,
                Some(CategoryModel::empty(category_id, name@)),
            ));
            use_type_invariant(&*self);
            self.lemma_inv_wf();
        }
        match &self.categories[k] {
            Some(category) => Ok(category),
            None => Err(Error::NotFound),
        }
    }

    /// The category in the slot of `category_id`, if the slot is occupied.
    pub fn get_category(&self, category_id: usize) -> (r: Result<Option<&Category>, Error>)
        ensures
            match self@.get_category(category_id) {
                Ok(Some(category)) => r is Ok && r.unwrap() is Some && r.unwrap().unwrap()@
                    == category,
                Ok(None) => r is Ok && r.unwrap() is None,
                Err(e) => r == Err::<Option<&Category>, Error>(e),
            },
    {
        proof {
            use_type_invariant(self);
        }
        if category_id < self.bounds.0 || category_id > self.bounds.1 {
            return Err(Error::Validation);
        }
        Ok(self.categories[category_id % 10].as_ref())
    }

    /// The categories of the area in ascending order of their numbers.
    pub fn list_categories(&self) -> (r: Vec<&Category>)
        ensures
            categories_model(r@) == self@.listed(),
    {
        proof {
            use_type_invariant(self);
        }
        let mut out: Vec<&Category> = Vec::new();
        let mut k: usize = 0;
        assert(categories_model(out@) =~= present(self@.categories, 0));
        while k < AREA_WIDTH
            invariant
                k <= AREA_WIDTH,
                self.categories@.len() == AREA_WIDTH,
                categories_model(out@) == present(self@.categories, k as int),
            decreases AREA_WIDTH - k,
        {
            let ghost before = out@;
            match &self.categories[k] {
                Some(category) => {
                    out.push(category);
                    assert(categories_model(out@) =~= categories_model(before).push(category@));
                },
                None => {},
            }
            k += 1;
        }
        out
    }

    /// The hits of a query in the area, category by category in ascending
    /// order. The query is taken as it is.
    pub fn search(&self, query: &str) -> (r: Vec<Item>)
        ensures
            items_model(r@) == self@.search(query@),
    {
        proof {
            use_type_invariant(self);
        }
        let mut out: Vec<Item> = Vec::new();
        let mut k: usize = 0;
        assert(items_model(out@) =~= area_hits(self@.categories, query@, 0));
        while k < AREA_WIDTH
            invariant
                k <= AREA_WIDTH,
                self.categories@.len() == AREA_WIDTH,
                items_model(out@) == area_hits(self@.categories, query@, k as int),
            decreases AREA_WIDTH - k,
        {
            let ghost before = out@;
            match &self.categories[k] {
                Some(category) => {
                    let mut found = category.search(query);
                    let ghost found_items = found@;
                    out.append(&mut found);
                    assert(items_model(out@) =~= items_model(before) + items_model(found_items));
                },
                None => {},
            }
            k += 1;
        }
        out
    }

    /// Allocates an item in the category of number `category_id`.
    pub fn add_item(&mut self, category_id: usize, name: &str, id: Option<&ID>) -> (r: Result<
        Item,
        Error,
    >)
        ensures
            final(self)@.wf(),
            match old(self)@.add_item(
                category_id,
                name@,
                match id {
                    Some(id) => Some(*id),
                    None => None,
                },
            ) {
                Ok((area, item)) => final(self)@ == area && r is Ok && r.unwrap()@ == item,
                Err(e) => final(self)@ == old(self)@ && r == Err::<Item, Error>(e),
            },
    {
        proof {
            use_type_invariant(&*self);
            self.lemma_inv_wf();
        }
        if category_id < self.bounds.0 || category_id > self.bounds.1 {
            return Err(Error::Validation);
        }
        let k = category_id % 10;
        match take_slot(&mut self.categories, k) {
            Some(category) => {
                let mut category = category;
                proof {
                    use_type_invariant(&category);
                }
                let r = category.add_item(name, id);
                proof {
                    use_type_invariant(&category);
                }
                put_slot(&mut self.categories, k, Some(category));
                proof {
                    assert(self@.categories =~= old(self)@.categories.update(
                        k as int,
                        Some(category@),
                    ));
                    if r is Err {
                        assert(self@.categories =~= old(self)@.categories);
                    }
                    use_type_invariant(&*self);
                    self.lemma_inv_wf();
                }
                r
            },
            None => {
                assert(self.categories@ =~= old(self).categories@);
                Err(Error::NotFound)
            },
        }
    }

    /// Puts a fully formed item into the slot of its number, in the category
    /// of its category number.
    pub fn import_item(&mut self, item: Item) -> (r: Result<Item, Error>)
        ensures
            final(self)@.wf(),
            match old(self)@.import_item(item@) {
                Ok(area) => final(self)@ == area && r == Ok::<Item, Error>(item),
                Err(e) => final(self)@ == old(self)@ && r == Err::<Item, Error>(e),
            },
    {
        proof {
            use_type_invariant(&*self);
            self.lemma_inv_wf();
        }
        let category_id = item.id.category;
        if category_id < self.bounds.0 || category_id > self.bounds.1 {
            return Err(Error::Validation);
        }
        let k = category_id % 10;
        match take_slot(&mut self.categories, k) {
            Some(category) => {
                let mut category = category;
                proof {
                    use_type_invariant(&category);
                }
                let r = category.import_item(item);
                proof {
                    use_type_invariant(&category);
                }
                put_slot(&mut self.categories, k, Some(category));
                proof {
                    assert(self@.categories =~= old(self)@.categories.update(
                        k as int,
                        Some(category@),
                    ));
                    if r is Err {
                        assert(self@.categories =~= old(self)@.categories);
                    }
                    use_type_invariant(&*self);
                    self.lemma_inv_wf();
                }
                r
            },
            None => {
                assert(self.categories@ =~= old(self).categories@);
                Err(Error::NotFound)
            },
        }
    }

    /// The item that `id` names, if its slot is occupied.
    pub fn get_item(&self, id: &ID) -> (r: Result<Option<Item>, Error>)
        ensures
            match self@.get_item(*id) {
                Ok(slot) => r is Ok && item_slot_model(r.unwrap()) == slot,
                Err(e) => r == Err::<Option<Item>, Error>(e),
            },
    {
        match self.get_category(id.category) {
            Ok(Some(category)) => category.get_item(id),
            Ok(None) => Err(Error::NotFound),
            Err(e) => Err(e),
        }
    }

    /// Empties the slot that `id` names.
    pub fn remove_item(&mut self, id: &ID) -> (r: Result<(), Error>)
        ensures
            final(self)@.wf(),
            match old(self)@.remove_item(*id) {
                Ok(area) => final(self)@ == area && r is Ok,
                Err(e) => final(self)@ == old(self)@ && r == Err::<(), Error>(e),
            },
    {
        proof {
            use_type_invariant(&*self);
            self.lemma_inv_wf();
        }
        let category_id = id.category;
        if category_id < self.bounds.0 || category_id > self.bounds.1 {
            return Err(Error::Validation);
        }
        let k = category_id % 10;
        match take_slot(&mut self.categories, k) {
            Some(category) => {
                let mut category = category;
                proof {
                    use_type_invariant(&category);
                }
                let r = category.remove_item(id);
                proof {
                    use_type_invariant(&category);
                }
                put_slot(&mut self.categories, k, Some(category));
                proof {
                    assert(self@.categories =~= old(self)@.categories.update(
                        k as int,
                        Some(category@),
                    ));
                    if r is Err {
                        assert(self@.categories =~= old(self)@.categories);
                    }
                    use_type_invariant(&*self);
                    self.lemma_inv_wf();
                }
                r
            },
            None => {
                assert(self.categories@ =~= old(self).categories@);
                Err(Error::NotFound)
            },
        }
    }

    /// Gives the category of number `category_id` another name.
    pub fn rename_category(&mut self, category_id: usize, name: String) -> (r: Result<(), Error>)
        ensures
            final(self)@.wf(),
            match old(self)@.rename_category(category_id, name@) {
                Ok(area) => final(self)@ == area && r is Ok,
                Err(e) => final(self)@ == old(self)@ && r == Err::<(), Error>(e),
            },
    {
        proof {
            use_type_invariant(&*self);
            self.lemma_inv_wf();
        }
        if category_id < self.bounds.0 || category_id > self.bounds.1 {
            return Err(Error::Validation);
        }
        let k = category_id % 10;
        match take_slot(&mut self.categories, k) {
            Some(category) => {
                let mut category = category;
                proof {
                    use_type_invariant(&category);
                }
                category.set_name(name);
                proof {
                    use_type_invariant(&category);
                }
                put_slot(&mut self.categories, k, Some(category));
                proof {
                    assert(self@.categories =~= old(self)@.categories.update(
                        k as int,
                        Some(category@),
                    ));
                    use_type_invariant(&*self);
                    self.lemma_inv_wf();
                }
                Ok(())
            },
            None => {
                assert(self.categories@ =~= old(self).categories@);
                Err(Error::NotFound)
            },
        }
    }

    /// Makes an area of bounds, a name and a table of slots. The table is
    /// refused as invalid unless the bounds are valid, it has ten slots and
    /// each occupied one holds a category of the area in the slot of its
    /// number.
    pub fn from_slots(bounds: (usize, usize), name: String, categories: Vec<Option<Category>>) -> (r:
        Result<Area, Error>)
        ensures
            match AreaModel::from_slots(bounds, name@, category_slots_model(categories@)) {
                Ok(area) => r is Ok && r.unwrap()@ == area,
                Err(e) => r matches Err(refusal) && refusal == e,
            },
    {
        let ghost model = AreaModel {
            bounds,
            name: name@,
            categories: category_slots_model(categories@),
        };
        if !check_bounds(bounds) || categories.len() != AREA_WIDTH {
            return Err(Error::Validation);
        }
        let mut k: usize = 0;
        while k < AREA_WIDTH
            invariant
                k <= AREA_WIDTH,
                categories@.len() == AREA_WIDTH,
                model == (AreaModel {
                    bounds,
                    name: name@,
                    categories: category_slots_model(categories@),
                }),
                forall|j: int|
                    0 <= j < k ==> (#[trigger] categories@[j] matches Some(category)
                        ==> category.inv() && bounds.0 <= category.id <= bounds.1 && category.id
                        % 10 == j),
            decreases AREA_WIDTH - k,
        {
            match &categories[k] {
                Some(category) => {
                    proof {
                        use_type_invariant(category);
                    }
                    if category.id < bounds.0 || category.id > bounds.1 || category.id % 10 != k {
                        proof {
                            assert(model.categories[k as int] == Some(category@));
                        }
                        return Err(Error::Validation);
                    }
                },
                None => {},
            }
            k += 1;
        }
        let area = Area { bounds, name, categories };
        proof {
            area.lemma_inv_wf();
        }
        Ok(area)
    }

    /// What slot `k` holds; nothing where there is no such slot.
    pub fn slot(&self, k: usize) -> (r: Option<&Category>)
        ensures
            match r {
                Some(category) => k < AREA_WIDTH && self@.categories[k as int] == Some(category@),
                None => k < AREA_WIDTH ==> self@.categories[k as int] is None,
            },
    {
        proof {
            use_type_invariant(self);
        }
        if k < AREA_WIDTH {
            self.categories[k].as_ref()
        } else {
            None
        }
    }
}

/// What a slot of the index holds, as a model.
pub open spec fn area_slot_model(slot: Option<Area>) -> Option<AreaModel> {
    match slot {
        Some(area) => Some(area@),
        None => None,
    }
}

/// What a table of area slots holds, slot by slot.
pub open spec fn area_slots_model(slots: Seq<Option<Area>>) -> Seq<Option<AreaModel>> {
    Seq::new(slots.len(), |i: int| area_slot_model(slots[i]))
}

/// What a list of borrowed areas holds, one by one.
pub open spec fn areas_model(areas: Seq<&Area>) -> Seq<AreaModel> {
    Seq::new(areas.len(), |i: int| areas[i]@)
}

/// The hits of a query in the areas of the first `n` slots, area by area in
/// ascending order.
pub open spec fn index_hits(areas: Seq<Option<AreaModel>>, query: Seq<char>, n: int) -> Seq<
    ItemModel,
>
    decreases n,
{
    if n <= 0 {
        Seq::empty()
    } else {
        match areas[n - 1] {
            Some(area) => index_hits(areas, query, n - 1) + area.search(query),
            None => index_hits(areas, query, n - 1),
        }
    }
}

/// The categories of the areas of the first `n` slots, area by area in
/// ascending order.
pub open spec fn index_categories(areas: Seq<Option<AreaModel>>, n: int) -> Seq<CategoryModel>
    decreases n,
{
    if n <= 0 {
        Seq::empty()
    } else {
        match areas[n - 1] {
            Some(area) => index_categories(areas, n - 1) + area.listed(),
            None => index_categories(areas, n - 1),
        }
    }
}

/// The catalog as a value: its ten area slots.
#[verifier::ext_equal]
pub struct IndexModel {
    pub areas: Seq<Option<AreaModel>>,
}

impl IndexModel {
    /// Every occupied slot holds a well-formed area whose lower bound,
    /// divided by ten, is the number of the slot.
    pub open spec fn wf(self) -> bool {
        &&& self.areas.len() == AREA_WIDTH
        &&& forall|k: int|
            0 <= k < AREA_WIDTH ==> (#[trigger] self.areas[k] matches Some(area) ==> area.wf()
                && area.bounds.0 / 10 == k)
    }

    /// The catalog without any area.
    pub open spec fn empty() -> IndexModel {
        IndexModel { areas: Seq::new(AREA_WIDTH as nat, |k: int| None) }
    }

    /// The catalog with `area` in the slot of its lower bound.
    pub open spec fn with_area(self, area: AreaModel) -> IndexModel {
        IndexModel { areas: self.areas.update(area.bounds.0 as int / 10, Some(area)) }
    }

    /// Whether the bounds are those of an area of the catalog.
    pub open spec fn admits(bounds: (usize, usize)) -> bool {
        valid_bounds(bounds) && bounds.0 < CATEGORY_COUNT
    }

    /// The catalog after an area is created: refused as invalid when the
    /// bounds are malformed, as a conflict when the slot is occupied.
    pub open spec fn create_area(self, bounds: (usize, usize), name: Seq<char>) -> Result<
        IndexModel,
        Error,
    > {
        if !Self::admits(bounds) {
            Err(Error::Validation)
        } else if self.areas[bounds.0 as int / 10] is Some {
            Err(Error::Conflict)
        } else {
            Ok(self.with_area(AreaModel::empty(bounds, name)))
        }
    }

    /// What the slot of the given bounds holds.
    pub open spec fn get_area(self, bounds: (usize, usize)) -> Result<Option<AreaModel>, Error> {
        if Self::admits(bounds) {
            Ok(self.areas[bounds.0 as int / 10])
        } else {
            Err(Error::Validation)
        }
    }

    /// What the slot of the area of a category number holds.
    pub open spec fn get_area_from_category(self, category_id: usize) -> Result<
        Option<AreaModel>,
        Error,
    > {
        if category_id < CATEGORY_COUNT {
            Ok(self.areas[category_id as int / 10])
        } else {
            Err(Error::Validation)
        }
    }

    /// The area of a category number, which must exist.
    pub open spec fn area(self, category_id: usize) -> Result<AreaModel, Error> {
        match self.get_area_from_category(category_id) {
            Ok(Some(area)) => Ok(area),
            Ok(None) => Err(Error::NotFound),
            Err(e) => Err(e),
        }
    }

    /// The category of a number, which must exist with its area.
    pub open spec fn category(self, category_id: usize) -> Result<CategoryModel, Error> {
        match self.area(category_id) {
            Ok(area) => area.category(category_id),
            Err(e) => Err(e),
        }
    }

    /// The catalog after a category is created: refused as invalid when the
    /// number is not below one hundred, as not found when its area is absent,
    /// as a conflict when its slot is occupied.
    pub open spec fn create_category(self, category_id: usize, name: Seq<char>) -> Result<
        IndexModel,
        Error,
    > {
        match self.area(category_id) {
            Ok(area) => match area.create_category(category_id, name) {
                Ok(area) => Ok(self.with_area(area)),
                Err(e) => Err(e),
            },
            Err(e) => Err(e),
        }
    }

    /// The catalog after an allocation in a category, with the item made.
    pub open spec fn allocate_item(
        self,
        category_id: usize,
        name: Seq<char>,
        explicit: Option<ID>,
    ) -> Result<(IndexModel, ItemModel), Error> {
        match self.area(category_id) {
            Ok(area) => match area.add_item(category_id, name, explicit) {
                Ok((area, item)) => Ok((self.with_area(area), item)),
                Err(e) => Err(e),
            },
            Err(e) => Err(e),
        }
    }

    /// The catalog after a fully formed item is put into its own slot.
    pub open spec fn import_item(self, item: ItemModel) -> Result<IndexModel, Error> {
        match self.area(item.id.category) {
            Ok(area) => match area.import_item(item) {
                Ok(area) => Ok(self.with_area(area)),
                Err(e) => Err(e),
            },
            Err(e) => Err(e),
        }
    }

    /// What the slot named by `id` holds.
    pub open spec fn get_item(self, id: ID) -> Result<Option<ItemModel>, Error> {
        match self.area(id.category) {
            Ok(area) => area.get_item(id),
            Err(e) => Err(e),
        }
    }

    /// The catalog after the slot named by `id` is emptied.
    pub open spec fn remove_item(self, id: ID) -> Result<IndexModel, Error> {
        match self.area(id.category) {
            Ok(area) => match area.remove_item(id) {
                Ok(area) => Ok(self.with_area(area)),
                Err(e) => Err(e),
            },
            Err(e) => Err(e),
        }
    }

    /// The catalog after a category is given another name.
    pub open spec fn rename_category(self, category_id: usize, name: Seq<char>) -> Result<
        IndexModel,
        Error,
    > {
        match self.area(category_id) {
            Ok(area) => match area.rename_category(category_id, name) {
                Ok(area) => Ok(self.with_area(area)),
                Err(e) => Err(e),
            },
            Err(e) => Err(e),
        }
    }

    /// The items of a category in ascending order of their numbers.
    pub open spec fn list_items(self, category_id: usize) -> Result<Seq<ItemModel>, Error> {
        match self.category(category_id) {
            Ok(category) => Ok(category.listed()),
            Err(e) => Err(e),
        }
    }

    /// The areas of the catalog in ascending order of their bounds.
    pub open spec fn list_areas(self) -> Seq<AreaModel> {
        present(self.areas, AREA_WIDTH as int)
    }

    /// The categories of the catalog in ascending order of their numbers.
    pub open spec fn list_categories(self) -> Seq<CategoryModel> {
        index_categories(self.areas, AREA_WIDTH as int)
    }

    /// The hits of a query as it is given, area by area.
    pub open spec fn hits(self, query: Seq<char>) -> Seq<ItemModel> {
        index_hits(self.areas, query, AREA_WIDTH as int)
    }

    /// The items whose lowercase name holds the lowercase form of `query`.
    pub open spec fn search(self, query: Seq<char>) -> Seq<ItemModel> {
        self.hits(lowercase_of(query))
    }

    /// The catalog made of a table of slots, where the table has ten slots
    /// and each occupied one holds a well-formed area in the slot of its
    /// lower bound.
    pub open spec fn from_slots(areas: Seq<Option<AreaModel>>) -> Result<IndexModel, Error> {
        let index = IndexModel { areas };
        if index.wf() {
            Ok(index)
        } else {
            Err(Error::Validation)
        }
    }
}

/// The catalog: ten area slots, each area with ten category slots, each
/// category with a thousand item slots.
#[derive(Debug)]
pub struct Index {
    areas: Vec<Option<Area>>,
}

impl View for Index {
    type V = IndexModel;

    closed spec fn view(&self) -> IndexModel {
        IndexModel { areas: area_slots_model(self.areas@) }
    }
}

impl Default for Index {
    fn default() -> (r: Index)
        ensures
            r@ == IndexModel::empty(),
    {
        Index::new()
    }
}

impl Clone for Index {
    fn clone(&self) -> (r: Index)
        ensures
            r@ == self@,
    {
        proof {
            use_type_invariant(self);
        }
        let mut areas: Vec<Option<Area>> = Vec::new();
        let mut k: usize = 0;
        while k < AREA_WIDTH
            invariant
                k <= AREA_WIDTH,
                self.areas@.len() == AREA_WIDTH,
                areas@.len() == k,
                forall|j: int|
                    0 <= j < k ==> area_slot_model(#[trigger] areas@[j]) == area_slot_model(
                        self.areas@[j],
                    ) && (areas@[j] matches Some(area) ==> area.inv()),
            decreases AREA_WIDTH - k,
        {
            let slot = match &self.areas[k] {
                Some(area) => {
                    let copy = area.clone();
                    proof {
                        use_type_invariant(&copy);
                    }
                    Some(copy)
                },
                None => None,
            };
            areas.push(slot);
            k += 1;
        }
        proof {
            assert(area_slots_model(areas@) =~= area_slots_model(self.areas@));
            assert forall|j: int| 0 <= j < AREA_WIDTH implies (#[trigger] areas@[j] matches Some(
                area,
            ) ==> area.inv() && area.bounds.0 / 10 == j) by {
                assert(area_slot_model(areas@[j]) == area_slot_model(self.areas@[j]));
            }
        }
        Index { areas }
    }
}

impl Index {
    /// What every value of the type meets, stated over its fields.
    #[verifier::type_invariant]
    pub closed spec fn inv(self) -> bool {
        &&& self.areas@.len() == AREA_WIDTH
        &&& forall|k: int|
            0 <= k < AREA_WIDTH ==> (#[trigger] self.areas@[k] matches Some(area) ==> area.inv()
                && area.bounds.0 / 10 == k)
    }

    /// A catalog that meets its invariant is well formed as a value.
    pub proof fn lemma_inv_wf(self)
        requires
            self.inv(),
        ensures
            self@.wf(),
    {
        assert forall|k: int| 0 <= k < AREA_WIDTH implies (#[trigger] self@.areas[k] matches Some(
            area,
        ) ==> area.wf() && area.bounds.0 / 10 == k) by {
            if let Some(area) = self.areas@[k] {
                area.lemma_inv_wf();
            }
        }
    }

    /// The catalog without any area.
    pub fn new() -> (r: Index)
        ensures
            r@ == IndexModel::empty(),
            r@.wf(),
    {
        let areas: Vec<Option<Area>> = empty_slots(AREA_WIDTH);
        let r = Index { areas };
        assert(r@.areas =~= IndexModel::empty().areas);
        r
    }

    /// Creates the area of the given bounds under `name`.
    pub fn create_area(&mut self, bounds: (usize, usize), name: &str) -> (r: Result<&Area, Error>)
        ensures
            final(self)@.wf(),
            match old(self)@.create_area(bounds, name@) {
                Ok(index) => final(self)@ == index && r is Ok && r.unwrap()@ == AreaModel::empty(
                    bounds,
                    name@,
                ),
                Err(e) => final(self)@ == old(self)@ && r == Err::<&Area, Error>(e),
            },
    {
        proof {
            use_type_invariant(&*self);
            self.lemma_inv_wf();
        }
        if !check_bounds(bounds) || bounds.0 >= CATEGORY_COUNT {
            return Err(Error::Validation);
        }
        let k = bounds.0 / 10;
        if self.areas[k].is_some() {
            return Err(Error::Conflict);
        }
        let area = Area::new(bounds, name.to_owned());
        proof {
            use_type_invariant(&area);
        }
        put_slot(&mut self.areas, k, Some(area));
        proof {
            assert(self@.areas =~= old(self)@.areas.update(
                k as int,
                Some(AreaModel::empty(bounds, name@)),
            ));
            use_type_invariant(&*self);
            self.lemma_inv_wf();
        }
        match &self.areas[k] {
            Some(area) => Ok(area),
            None => Err(Error::NotFound),
        }
    }

    /// The area in the slot of the given bounds, if the slot is occupied.
    pub fn get_area(&self, bounds: (usize, usize)) -> (r: Result<Option<&Area>, Error>)
        ensures
            match self@.get_area(bounds) {
                Ok(Some(area)) => r is Ok && r.unwrap() is Some && r.unwrap().unwrap()@ == area,
                Ok(None) => r is Ok && r.unwrap() is None,
                Err(e) => r == Err::<Option<&Area>, Error>(e),
            },
    {
        proof {
            use_type_invariant(self);
        }
        if !check_bounds(bounds) || bounds.0 >= CATEGORY_COUNT {
            return Err(Error::Validation);
        }
        Ok(self.areas[bounds.0 / 10].as_ref())
    }

    /// The area that holds the category number, if its slot is occupied.
    pub fn get_area_from_category(&self, category: usize) -> (r: Result<Option<&Area>, Error>)
        ensures
            match self@.get_area_from_category(category) {
                Ok(Some(area)) => r is Ok && r.unwrap() is Some && r.unwrap().unwrap()@ == area,
                Ok(None) => r is Ok && r.unwrap() is None,
                Err(e) => r == Err::<Option<&Area>, Error>(e),
            },
    {
        proof {
            use_type_invariant(self);
        }
        if category >= CATEGORY_COUNT {
            return Err(Error::Validation);
        }
        Ok(self.areas[category / 10].as_ref())
    }

    /// The category of the given number, which must exist with its area.
    pub fn get_category(&self, category: usize) -> (r: Result<&Category, Error>)
        ensures
            match self@.category(category) {
                Ok(found) => r is Ok && r.unwrap()@ == found,
                Err(e) => r == Err::<&Category, Error>(e),
            },
    {
        match self.get_area_from_category(category) {
            Ok(Some(area)) => match area.get_category(category) {
                Ok(Some(found)) => Ok(found),
                Ok(None) => Err(Error::NotFound),
                Err(e) => Err(e),
            },
            Ok(None) => Err(Error::NotFound),
            Err(e) => Err(e),
        }
    }

    /// The areas of the catalog in ascending order of their bounds.
    pub fn list_areas(&self) -> (r: Vec<&Area>)
        ensures
            areas_model(r@) == self@.list_areas(),
    {
        proof {
            use_type_invariant(self);
        }
        let mut out: Vec<&Area> = Vec::new();
        let mut k: usize = 0;
        assert(areas_model(out@) =~= present(self@.areas, 0));
        while k < AREA_WIDTH
            invariant
                k <= AREA_WIDTH,
                self.areas@.len() == AREA_WIDTH,
                areas_model(out@) == present(self@.areas, k as int),
            decreases AREA_WIDTH - k,
        {
            let ghost before = out@;
            match &self.areas[k] {
                Some(area) => {
                    out.push(area);
                    assert(areas_model(out@) =~= areas_model(before).push(area@));
                },
                None => {},
            }
            k += 1;
        }
        out
    }

    /// The categories of the catalog in ascending order of their numbers.
    pub fn list_categories(&self) -> (r: Vec<&Category>)
        ensures
            categories_model(r@) == self@.list_categories(),
    {
        proof {
            use_type_invariant(self);
        }
        let mut out: Vec<&Category> = Vec::new();
        let mut k: usize = 0;
        assert(categories_model(out@) =~= index_categories(self@.areas, 0));
        while k < AREA_WIDTH
            invariant
                k <= AREA_WIDTH,
                self.areas@.len() == AREA_WIDTH,
                categories_model(out@) == index_categories(self@.areas, k as int),
            decreases AREA_WIDTH - k,
        {
            let ghost before = out@;
            match &self.areas[k] {
                Some(area) => {
                    let mut found = area.list_categories();
                    let ghost found_categories = found@;
                    out.append(&mut found);
                    assert(categories_model(out@) =~= categories_model(before) + categories_model(
                        found_categories,
                    ));
                },
                None => {},
            }
            k += 1;
        }
        out
    }

    /// The items of a category in ascending order of their numbers.
    pub fn list_items(&self, category: usize) -> (r: Result<Vec<Item>, Error>)
        ensures
            match self@.list_items(category) {
                Ok(items) => r is Ok && items_model(r.unwrap()@) == items,
                Err(e) => r == Err::<Vec<Item>, Error>(e),
            },
    {
        match self.get_category(category) {
            Ok(found) => Ok(found.list_items()),
            Err(e) => Err(e),
        }
    }

    /// The hits of a query given in lowercase, area by area.
    pub fn search_lowered(&self, lowered_query: &str) -> (r: Vec<Item>)
        ensures
            items_model(r@) == self@.hits(lowered_query@),
    {
        proof {
            use_type_invariant(self);
        }
        let mut out: Vec<Item> = Vec::new();
        let mut k: usize = 0;
        assert(items_model(out@) =~= index_hits(self@.areas, lowered_query@, 0));
        while k < AREA_WIDTH
            invariant
                k <= AREA_WIDTH,
                self.areas@.len() == AREA_WIDTH,
                items_model(out@) == index_hits(self@.areas, lowered_query@, k as int),
            decreases AREA_WIDTH - k,
        {
            let ghost before = out@;
            match &self.areas[k] {
                Some(area) => {
                    let mut found = area.search(lowered_query);
                    let ghost found_items = found@;
                    out.append(&mut found);
                    assert(items_model(out@) =~= items_model(before) + items_model(found_items));
                },
                None => {},
            }
            k += 1;
        }
        out
    }

    /// The items whose name holds `query`, letter case set aside.
    pub fn search(&self, query: &str) -> (r: Vec<Item>)
        ensures
            items_model(r@) == self@.search(query@),
    {
        let lowered = str_to_lowercase(query);
        self.search_lowered(lowered.as_str())
    }

    /// Creates the category of number `category_id` under `name` in its area.
    pub fn create_category(&mut self, category_id: usize, name: String) -> (r: Result<
        &Category,
        Error,
    >)
        ensures
            final(self)@.wf(),
            match old(self)@.create_category(category_id, name@) {
                Ok(index) => final(self)@ == index && r is Ok && r.unwrap()@ == CategoryModel::empty(
                    category_id,
                    name@,
                ),
                Err(e) => final(self)@ == old(self)@ && r == Err::<&Category, Error>(e),
            },
    {
        proof {
            use_type_invariant(&*self);
            self.lemma_inv_wf();
        }
        if category_id >= CATEGORY_COUNT {
            return Err(Error::Validation);
        }
        let k = category_id / 10;
        let created = match take_slot(&mut self.areas, k) {
            Some(area) => {
                let mut area = area;
                proof {
                    use_type_invariant(&area);
                }
                let r = match area.create_category(category_id, name) {
                    Ok(_) => Ok(()),
                    Err(e) => Err(e),
                };
                proof {
                    use_type_invariant(&area);
                }
                put_slot(&mut self.areas, k, Some(area));
                proof {
                    assert(self@.areas =~= old(self)@.areas.update(k as int, Some(area@)));
                    if r is Err {
                        assert(self@.areas =~= old(self)@.areas);
                    }
                    use_type_invariant(&*self);
                    self.lemma_inv_wf();
                }
                r
            },
            None => {
                assert(self.areas@ =~= old(self).areas@);
                Err(Error::NotFound)
            },
        };
        match created {
            Ok(()) => self.get_category(category_id),
            Err(e) => Err(e),
        }
    }

    /// Allocates an item under `name` in the category of number
    /// `category_id`: at `explicit_id` where one is given, else at the lowest
    /// free slot of the category from 1 on.
    pub fn allocate_item(&mut self, category_id: usize, name: &str, explicit_id: Option<&ID>) -> (r:
        Result<Item, Error>)
        ensures
            final(self)@.wf(),
            match old(self)@.allocate_item(
                category_id,
                name@,
                match explicit_id {
                    Some(id) => Some(*id),
                    None => None,
                },
            ) {
                Ok((index, item)) => final(self)@ == index && r is Ok && r.unwrap()@ == item,
                Err(e) => final(self)@ == old(self)@ && r == Err::<Item, Error>(e),
            },
    {
        proof {
            use_type_invariant(&*self);
            self.lemma_inv_wf();
        }
        if category_id >= CATEGORY_COUNT {
            return Err(Error::Validation);
        }
        let k = category_id / 10;
        match take_slot(&mut self.areas, k) {
            Some(area) => {
                let mut area = area;
                proof {
                    use_type_invariant(&area);
                }
                let r = area.add_item(category_id, name, explicit_id);
                proof {
                    use_type_invariant(&area);
                }
                put_slot(&mut self.areas, k, Some(area));
                proof {
                    assert(self@.areas =~= old(self)@.areas.update(k as int, Some(area@)));
                    if r is Err {
                        assert(self@.areas =~= old(self)@.areas);
                    }
                    use_type_invariant(&*self);
                    self.lemma_inv_wf();
                }
                r
            },
            None => {
                assert(self.areas@ =~= old(self).areas@);
                Err(Error::NotFound)
            },
        }
    }

    /// Puts a fully formed item into the slot that its identifier names.
    pub fn import_item(&mut self, item: Item) -> (r: Result<Item, Error>)
        ensures
            final(self)@.wf(),
            match old(self)@.import_item(item@) {
                Ok(index) => final(self)@ == index && r == Ok::<Item, Error>(item),
                Err(e) => final(self)@ == old(self)@ && r == Err::<Item, Error>(e),
            },
    {
        proof {
            use_type_invariant(&*self);
            self.lemma_inv_wf();
        }
        let category_id = item.id.category;
        if category_id >= CATEGORY_COUNT {
            return Err(Error::Validation);
        }
        let k = category_id / 10;
        match take_slot(&mut self.areas, k) {
            Some(area) => {
                let mut area = area;
                proof {
                    use_type_invariant(&area);
                }
                let r = area.import_item(item);
                proof {
                    use_type_invariant(&area);
                }
                put_slot(&mut self.areas, k, Some(area));
                proof {
                    assert(self@.areas =~= old(self)@.areas.update(k as int, Some(area@)));
                    if r is Err {
                        assert(self@.areas =~= old(self)@.areas);
                    }
                    use_type_invariant(&*self);
                    self.lemma_inv_wf();
                }
                r
            },
            None => {
                assert(self.areas@ =~= old(self).areas@);
                Err(Error::NotFound)
            },
        }
    }

    /// The item that `id` names, if its slot is occupied.
    pub fn get_item(&self, id: &ID) -> (r: Result<Option<Item>, Error>)
        ensures
            match self@.get_item(*id) {
                Ok(slot) => r is Ok && item_slot_model(r.unwrap()) == slot,
                Err(e) => r == Err::<Option<Item>, Error>(e),
            },
    {
        match self.get_area_from_category(id.category) {
            Ok(Some(area)) => area.get_item(id),
            Ok(None) => Err(Error::NotFound),
            Err(e) => Err(e),
        }
    }

    /// Empties the slot that `id` names; no other slot changes.
    pub fn remove_item(&mut self, id: &ID) -> (r: Result<(), Error>)
        ensures
            final(self)@.wf(),
            match old(self)@.remove_item(*id) {
                Ok(index) => final(self)@ == index && r is Ok,
                Err(e) => final(self)@ == old(self)@ && r == Err::<(), Error>(e),
            },
    {
        proof {
            use_type_invariant(&*self);
            self.lemma_inv_wf();
        }
        let category_id = id.category;
        if category_id >= CATEGORY_COUNT {
            return Err(Error::Validation);
        }
        let k = category_id / 10;
        match take_slot(&mut self.areas, k) {
            Some(area) => {
                let mut area = area;
                proof {
                    use_type_invariant(&area);
                }
                let r = area.remove_item(id);
                proof {
                    use_type_invariant(&area);
                }
                put_slot(&mut self.areas, k, Some(area));
                proof {
                    assert(self@.areas =~= old(self)@.areas.update(k as int, Some(area@)));
                    if r is Err {
                        assert(self@.areas =~= old(self)@.areas);
                    }
                    use_type_invariant(&*self);
                    self.lemma_inv_wf();
                }
                r
            },
            None => {
                assert(self.areas@ =~= old(self).areas@);
                Err(Error::NotFound)
            },
        }
    }

    /// Gives the category of number `category_id` another name.
    pub fn rename_category(&mut self, category_id: usize, name: &str) -> (r: Result<(), Error>)
        ensures
            final(self)@.wf(),
            match old(self)@.rename_category(category_id, name@) {
                Ok(index) => final(self)@ == index && r is Ok,
                Err(e) => final(self)@ == old(self)@ && r == Err::<(), Error>(e),
            },
    {
        proof {
            use_type_invariant(&*self);
            self.lemma_inv_wf();
        }
        if category_id >= CATEGORY_COUNT {
            return Err(Error::Validation);
        }
        let k = category_id / 10;
        match take_slot(&mut self.areas, k) {
            Some(area) => {
                let mut area = area;
                proof {
                    use_type_invariant(&area);
                }
                let r = area.rename_category(category_id, name.to_owned());
                proof {
                    use_type_invariant(&area);
                }
                put_slot(&mut self.areas, k, Some(area));
                proof {
                    assert(self@.areas =~= old(self)@.areas.update(k as int, Some(area@)));
                    if r is Err {
                        assert(self@.areas =~= old(self)@.areas);
                    }
                    use_type_invariant(&*self);
                    self.lemma_inv_wf();
                }
                r
            },
            None => {
                assert(self.areas@ =~= old(self).areas@);
                Err(Error::NotFound)
            },
        }
    }

    /// Makes a catalog of a table of slots. The table is refused as invalid
    /// unless it has ten slots and each occupied one holds an area in the slot
    /// of its lower bound.
    pub fn from_slots(areas: Vec<Option<Area>>) -> (r: Result<Index, Error>)
        ensures
            match IndexModel::from_slots(area_slots_model(areas@)) {
                Ok(index) => r is Ok && r.unwrap()@ == index,
                Err(e) => r matches Err(refusal) && refusal == e,
            },
    {
        let ghost model = IndexModel { areas: area_slots_model(areas@) };
        if areas.len() != AREA_WIDTH {
            return Err(Error::Validation);
        }
        let mut k: usize = 0;
        while k < AREA_WIDTH
            invariant
                k <= AREA_WIDTH,
                areas@.len() == AREA_WIDTH,
                model == (IndexModel { areas: area_slots_model(areas@) }),
                forall|j: int|
                    0 <= j < k ==> (#[trigger] areas@[j] matches Some(area) ==> area.inv()
                        && area.bounds.0 / 10 == j),
            decreases AREA_WIDTH - k,
        {
            match &areas[k] {
                Some(area) => {
                    proof {
                        use_type_invariant(area);
                    }
                    if area.bounds.0 / 10 != k {
                        proof {
                            assert(model.areas[k as int] == Some(area@));
                        }
                        return Err(Error::Validation);
                    }
                },
                None => {},
            }
            k += 1;
        }
        let index = Index { areas };
        proof {
            index.lemma_inv_wf();
        }
        Ok(index)
    }

    /// What slot `k` holds; nothing where there is no such slot.
    pub fn slot(&self, k: usize) -> (r: Option<&Area>)
        ensures
            match r {
                Some(area) => k < AREA_WIDTH && self@.areas[k as int] == Some(area@),
                None => k < AREA_WIDTH ==> self@.areas[k as int] is None,
            },
    {
        proof {
            use_type_invariant(self);
        }
        if k < AREA_WIDTH {
            self.areas[k].as_ref()
        } else {
            None
        }
    }
}

/// The lowest free slot is free, and every slot between the start of the scan
/// and it is occupied; it is the number of slots exactly when none is free.
pub proof fn lemma_lowest_free(items: Seq<Option<ItemModel>>, from: int)
    requires
        0 <= from <= items.len(),
    ensures
        from <= lowest_free(items, from) <= items.len(),
        forall|j: int| from <= j < lowest_free(items, from) ==> items[j] is Some,
        lowest_free(items, from) < items.len() ==> items[lowest_free(items, from)] is None,
    decreases items.len() - from,
{
    if from < items.len() && items[from] is Some {
        lemma_lowest_free(items, from + 1);
    }
}

} // verus!
