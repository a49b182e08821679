//! What holds of every well-formed catalog, stated over its values.

use vstd::prelude::*;

use crate::error::Error;
use crate::index::{
    area_hits, hits, index_hits, lemma_lowest_free, AreaModel, CategoryModel, IndexModel,
};
use crate::item::{ItemModel, ID, ITEM_COUNT};
use crate::slots::lemma_present_contains;
use crate::text::name_matches;

verus! {

/// Every occupied item slot of a well-formed catalog holds the item whose
/// number is the number of the slot and whose category is the category that
/// owns the slot.
pub proof fn lemma_item_slot_matches_id(index: IndexModel, a: int, c: int, i: int)
    requires
        index.wf(),
        0 <= a < 10,
        0 <= c < 10,
        0 <= i < ITEM_COUNT,
        index.areas[a] is Some,
        index.areas[a].unwrap().categories[c] is Some,
        index.areas[a].unwrap().categories[c].unwrap().items[i] is Some,
    ensures
        ({
            let category = index.areas[a].unwrap().categories[c].unwrap();
            let item = category.items[i].unwrap();
            item.id.id == i && item.id.category == category.id
        }),
{
}

/// Every occupied category slot of a well-formed catalog holds a category
/// whose number lies within the bounds of its area, and those bounds start at
/// a multiple of ten and span ten numbers.
pub proof fn lemma_category_within_bounds(index: IndexModel, a: int, c: int)
    requires
        index.wf(),
        0 <= a < 10,
        0 <= c < 10,
        index.areas[a] is Some,
        index.areas[a].unwrap().categories[c] is Some,
    ensures
        ({
            let area = index.areas[a].unwrap();
            let category = area.categories[c].unwrap();
            &&& area.bounds.0 <= category.id <= area.bounds.1
            &&& area.bounds.0 % 10 == 0
            &&& area.bounds.1 == area.bounds.0 + 9
            &&& area.bounds.0 == 10 * a
            &&& category.id == 10 * a + c
        }),
{
}

/// No two occupied slots of a well-formed category hold items of the same
/// number.
pub proof fn lemma_item_ids_distinct(category: CategoryModel, i: int, j: int)
    requires
        category.wf(),
        0 <= i < ITEM_COUNT,
        0 <= j < ITEM_COUNT,
        i != j,
        category.items[i] is Some,
        category.items[j] is Some,
    ensures
        category.items[i].unwrap().id != category.items[j].unwrap().id,
{
}

/// An allocation without an explicit identifier takes the smallest number
/// from 1 on whose slot is free at that time, and fails as exhausted exactly
/// when no such slot is free.
pub proof fn lemma_allocation_is_lowest_free(category: CategoryModel, name: Seq<char>)
    requires
        category.wf(),
    ensures
        match category.allocate(name, None) {
            Ok((after, item)) => {
                &&& 1 <= item.id.id < ITEM_COUNT
                &&& item.id.category == category.id
                &&& item.name == name
                &&& category.items[item.id.id as int] is None
                &&& forall|j: int| 1 <= j < item.id.id ==> category.items[j] is Some
                &&& after == category.with_slot(item.id.id as int, Some(item))
                &&& after.wf()
            },
            Err(e) => e == Error::Exhausted && forall|j: int|
                1 <= j < ITEM_COUNT ==> category.items[j] is Some,
        },
{
    lemma_lowest_free(category.items, 1);
}

/// The same, for an allocation through the catalog: the category that the
/// allocation reaches is the one of the given number, and the item is made
/// at its lowest free slot from 1 on.
pub proof fn lemma_index_allocation_is_lowest_free(
    index: IndexModel,
    category_id: usize,
    name: Seq<char>,
)
    requires
        index.wf(),
        index.allocate_item(category_id, name, None) is Ok,
    ensures
        ({
            let item = index.allocate_item(category_id, name, None).unwrap().1;
            let category = index.category(category_id).unwrap();
            &&& index.category(category_id) is Ok
            &&& category.id == category_id
            &&& item.id.category == category_id
            &&& 1 <= item.id.id < ITEM_COUNT
            &&& category.items[item.id.id as int] is None
            &&& forall|j: int| 1 <= j < item.id.id ==> category.items[j] is Some
        }),
{
    let area = index.area(category_id).unwrap();
    let category = area.category(category_id).unwrap();
    assert(index.areas[category_id as int / 10] == Some(area));
    assert(area.categories[category_id as int % 10] == Some(category));
    lemma_allocation_is_lowest_free(category, name);
}

/// After an item is removed, the slot that its identifier names is empty.
pub proof fn lemma_remove_then_get(index: IndexModel, id: ID)
    requires
        index.wf(),
        index.remove_item(id) is Ok,
    ensures
        index.remove_item(id).unwrap().get_item(id) == Ok::<Option<ItemModel>, Error>(None),
        index.remove_item(id).unwrap().wf(),
{
    let area = index.area(id.category).unwrap();
    let category = area.category(id.category).unwrap();
    assert(index.areas[id.category as int / 10] == Some(area));
    assert(area.categories[id.category as int % 10] == Some(category));
    lemma_area_with_category_wf(area, category.remove(id).unwrap());
    lemma_index_with_area_wf(index, area.remove_item(id).unwrap());
}

/// After an item is allocated, the slot that its identifier names holds it.
pub proof fn lemma_allocate_then_get(
    index: IndexModel,
    category_id: usize,
    name: Seq<char>,
    explicit: Option<ID>,
)
    requires
        index.wf(),
        index.allocate_item(category_id, name, explicit) is Ok,
    ensures
        ({
            let (after, item) = index.allocate_item(category_id, name, explicit).unwrap();
            after.get_item(item.id) == Ok::<Option<ItemModel>, Error>(Some(item)) && after.wf()
        }),
{
    let area = index.area(category_id).unwrap();
    let category = area.category(category_id).unwrap();
    assert(index.areas[category_id as int / 10] == Some(area));
    assert(area.categories[category_id as int % 10] == Some(category));
    lemma_lowest_free(category.items, 1);
    let (category_after, item) = category.allocate(name, explicit).unwrap();
    lemma_area_with_category_wf(area, category_after);
    lemma_index_with_area_wf(index, area.with_category(category_after));
}

/// Putting a well-formed category of an area back into the slot of its number
/// keeps the area well formed.
pub proof fn lemma_area_with_category_wf(area: AreaModel, category: CategoryModel)
    requires
        area.wf(),
        category.wf(),
        area.holds(category.id),
    ensures
        area.with_category(category).wf(),
        area.with_category(category).category(category.id) == Ok::<CategoryModel, Error>(category),
{
}

/// Putting a well-formed area back into the slot of its lower bound keeps the
/// catalog well formed.
pub proof fn lemma_index_with_area_wf(index: IndexModel, area: AreaModel)
    requires
        index.wf(),
        area.wf(),
        area.bounds.0 < 100,
    ensures
        index.with_area(area).wf(),
        forall|category_id: usize|
            area.holds(category_id) ==> #[trigger] index.with_area(area).area(category_id) == Ok::<
                AreaModel,
                Error,
            >(area),
{
}

/// An item is among the hits in the first `n` slots of a category exactly
/// when one of those slots holds it and its lowercase name holds the query.
pub proof fn lemma_hits_contains(
    items: Seq<Option<ItemModel>>,
    query: Seq<char>,
    n: int,
    item: ItemModel,
)
    requires
        0 <= n <= items.len(),
    ensures
        hits(items, query, n).contains(item) <==> name_matches(item.name, query) && exists|i: int|
            0 <= i < n && #[trigger] items[i] == Some(item),
    decreases n,
{
    if n > 0 {
        lemma_hits_contains(items, query, n - 1, item);
        let shorter = hits(items, query, n - 1);
        let longer = hits(items, query, n);
        if longer.contains(item) {
            let j = choose|j: int| 0 <= j < longer.len() && longer[j] == item;
            if j < shorter.len() {
                assert(shorter[j] == item);
                assert(shorter.contains(item));
                let i = choose|i: int| 0 <= i < n - 1 && #[trigger] items[i] == Some(item);
                assert(0 <= i < n && items[i] == Some(item));
            } else {
                assert(items[n - 1] == Some(item));
            }
        }
        if name_matches(item.name, query) && exists|i: int|
            0 <= i < n && #[trigger] items[i] == Some(item) {
            let i = choose|i: int| 0 <= i < n && #[trigger] items[i] == Some(item);
            if i < n - 1 {
                assert(shorter.contains(item));
                let j = choose|j: int| 0 <= j < shorter.len() && shorter[j] == item;
                assert(longer[j] == item);
            } else {
                assert(longer[longer.len() - 1] == item);
            }
        }
    }
}

/// An item is among the hits in the first `n` categories of an area exactly
/// when it is among the hits of one of them.
pub proof fn lemma_area_hits_contains(
    categories: Seq<Option<CategoryModel>>,
    query: Seq<char>,
    n: int,
    item: ItemModel,
)
    requires
        0 <= n <= categories.len(),
    ensures
        area_hits(categories, query, n).contains(item) <==> exists|k: int|
            0 <= k < n && (#[trigger] categories[k]) is Some && categories[k].unwrap().search(
                query,
            ).contains(item),
    decreases n,
{
    if n > 0 {
        lemma_area_hits_contains(categories, query, n - 1, item);
        let shorter = area_hits(categories, query, n - 1);
        let longer = area_hits(categories, query, n);
        let last = match categories[n - 1] {
            Some(category) => category.search(query),
            None => Seq::empty(),
        };
        assert(longer =~= shorter + last);
        if longer.contains(item) {
            let j = choose|j: int| 0 <= j < longer.len() && longer[j] == item;
            if j < shorter.len() {
                assert(shorter[j] == item);
                assert(shorter.contains(item));
                let k = choose|k: int|
                    0 <= k < n - 1 && (#[trigger] categories[k]) is Some
                        && categories[k].unwrap().search(query).contains(item);
                assert(0 <= k < n && categories[k] is Some);
            } else {
                assert(last[j - shorter.len()] == item);
                assert(last.contains(item));
                assert(categories[n - 1] is Some);
            }
        }
        if exists|k: int|
            0 <= k < n && (#[trigger] categories[k]) is Some && categories[k].unwrap().search(
                query,
            ).contains(item) {
            let k = choose|k: int|
                0 <= k < n && (#[trigger] categories[k]) is Some
                    && categories[k].unwrap().search(query).contains(item);
            if k < n - 1 {
                assert(shorter.contains(item));
                let j = choose|j: int| 0 <= j < shorter.len() && shorter[j] == item;
                assert(longer[j] == item);
            } else {
                let j = choose|j: int| 0 <= j < last.len() && last[j] == item;
                assert(longer[shorter.len() + j] == item);
            }
        }
    }
}

/// An item is among the hits in the first `n` areas of a catalog exactly
/// when it is among the hits of one of them.
pub proof fn lemma_index_hits_contains(
    areas: Seq<Option<AreaModel>>,
    query: Seq<char>,
    n: int,
    item: ItemModel,
)
    requires
        0 <= n <= areas.len(),
    ensures
        index_hits(areas, query, n).contains(item) <==> exists|k: int|
            0 <= k < n && (#[trigger] areas[k]) is Some && areas[k].unwrap().search(
                query,
            ).contains(item),
    decreases n,
{
    if n > 0 {
        lemma_index_hits_contains(areas, query, n - 1, item);
        let shorter = index_hits(areas, query, n - 1);
        let longer = index_hits(areas, query, n);
        let last = match areas[n - 1] {
            Some(area) => area.search(query),
            None => Seq::empty(),
        };
        assert(longer =~= shorter + last);
        if longer.contains(item) {
            let j = choose|j: int| 0 <= j < longer.len() && longer[j] == item;
            if j < shorter.len() {
                assert(shorter[j] == item);
                assert(shorter.contains(item));
                let k = choose|k: int|
                    0 <= k < n - 1 && (#[trigger] areas[k]) is Some && areas[k].unwrap().search(
                        query,
                    ).contains(item);
                assert(0 <= k < n && areas[k] is Some);
            } else {
                assert(last[j - shorter.len()] == item);
                assert(last.contains(item));
                assert(areas[n - 1] is Some);
            }
        }
        if exists|k: int|
            0 <= k < n && (#[trigger] areas[k]) is Some && areas[k].unwrap().search(
                query,
            ).contains(item) {
            let k = choose|k: int|
                0 <= k < n && (#[trigger] areas[k]) is Some && areas[k].unwrap().search(
                    query,
                ).contains(item);
            if k < n - 1 {
                assert(shorter.contains(item));
                let j = choose|j: int| 0 <= j < shorter.len() && shorter[j] == item;
                assert(longer[j] == item);
            } else {
                let j = choose|j: int| 0 <= j < last.len() && last[j] == item;
                assert(longer[shorter.len() + j] == item);
            }
        }
    }
}

/// The hits of a query in a well-formed catalog are exactly the items that
/// the catalog holds and whose lowercase name holds the query, in whatever
/// order they come.
pub proof fn lemma_hits_are_matching_items(index: IndexModel, query: Seq<char>, item: ItemModel)
    requires
        index.wf(),
    ensures
        index.hits(query).contains(item) <==> index.get_item(item.id) == Ok::<
            Option<ItemModel>,
            Error,
        >(Some(item)) && name_matches(item.name, query),
{
    lemma_index_hits_contains(index.areas, query, 10, item);
    if index.hits(query).contains(item) {
        let a = choose|k: int|
            0 <= k < 10 && (#[trigger] index.areas[k]) is Some && index.areas[k].unwrap().search(
                query,
            ).contains(item);
        let area = index.areas[a].unwrap();
        lemma_area_hits_contains(area.categories, query, 10, item);
        let c = choose|k: int|
            0 <= k < 10 && (#[trigger] area.categories[k]) is Some
                && area.categories[k].unwrap().search(query).contains(item);
        let category = area.categories[c].unwrap();
        lemma_hits_contains(category.items, query, ITEM_COUNT as int, item);
        let i = choose|i: int| 0 <= i < ITEM_COUNT && #[trigger] category.items[i] == Some(item);
        assert(item.id.id == i && item.id.category == category.id);
        assert(category.id % 10 == c && area.bounds.0 / 10 == a);
        assert(index.areas[item.id.category as int / 10] == Some(area));
        assert(area.categories[item.id.category as int % 10] == Some(category));
    }
    if index.get_item(item.id) == Ok::<Option<ItemModel>, Error>(Some(item)) && name_matches(
        item.name,
        query,
    ) {
        let a = item.id.category as int / 10;
        let c = item.id.category as int % 10;
        let area = index.areas[a].unwrap();
        let category = area.categories[c].unwrap();
        assert(category.items[item.id.id as int] == Some(item));
        lemma_hits_contains(category.items, query, ITEM_COUNT as int, item);
        assert(category.search(query).contains(item));
        lemma_area_hits_contains(area.categories, query, 10, item);
        assert(area.categories[c] is Some);
        assert(area.search(query).contains(item));
        assert(index.areas[a] is Some);
    }
}

/// The items listed for a category of a well-formed catalog are all of that
/// category.
pub proof fn lemma_listed_items_belong(index: IndexModel, category_id: usize)
    requires
        index.wf(),
        index.category(category_id) is Ok,
    ensures
        index.category(category_id).unwrap().id == category_id,
        index.category(category_id).unwrap().wf(),
        forall|i: int|
            0 <= i < index.category(category_id).unwrap().listed().len() ==> (
            #[trigger] index.category(category_id).unwrap().listed()[i]).id.category == category_id,
{
    let area = index.area(category_id).unwrap();
    let category = area.category(category_id).unwrap();
    assert(index.areas[category_id as int / 10] == Some(area));
    assert(area.categories[category_id as int % 10] == Some(category));
    assert forall|i: int| 0 <= i < category.listed().len() implies (
    #[trigger] category.listed()[i]).id.category == category_id by {
        let item = category.listed()[i];
        assert(category.listed().contains(item));
        lemma_present_contains(category.items, ITEM_COUNT as int, item);
    }
}

/// A well-formed catalog is made again, slot for slot, of the table of its
/// own slots: empty slots stay empty and occupied ones keep what they hold.
pub proof fn lemma_from_slots_of_slots(index: IndexModel)
    requires
        index.wf(),
    ensures
        IndexModel::from_slots(index.areas) == Ok::<IndexModel, Error>(index),
        forall|a: int|
            0 <= a < 10 ==> (#[trigger] index.areas[a] matches Some(area) ==> AreaModel::from_slots(
                area.bounds,
                area.name,
                area.categories,
            ) == Ok::<AreaModel, Error>(area)),
        forall|a: int, c: int|
            0 <= a < 10 && 0 <= c < 10 && index.areas[a] is Some && (
            #[trigger] index.areas[a].unwrap().categories[c]) is Some ==> ({
                let category = index.areas[a].unwrap().categories[c].unwrap();
                CategoryModel::from_slots(category.id, category.name, category.items) == Ok::<
                    CategoryModel,
                    Error,
                >(category)
            }),
{
}

} // verus!
