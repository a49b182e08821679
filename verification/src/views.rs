//! Flat records of categories and items, as they are handed out for display.

use vstd::prelude::*;
use vstd::string::*;

use crate::client::JohnnyDecimal;
use crate::error::Error;
use crate::index::{category_text, Category, CategoryModel, IndexModel};
use crate::item::{format_id, Item, ItemModel};

verus! {

/// A category for display: its number and its name.
#[derive(Debug)]
pub struct CategoryView {
    pub id: usize,
    pub name: String,
}

/// An item for display: the text of its identifier, its name, and the text
/// and the record of the category that holds it.
#[derive(Debug)]
pub struct ItemView {
    pub id: String,
    pub name: String,
    pub category_name: String,
    pub category: CategoryView,
}

/// Whether a record shows the category.
pub open spec fn shows_category(view: CategoryView, category: CategoryModel) -> bool {
    view.id == category.id && view.name@ == category.name
}

/// Whether a record shows the item as an item of the category.
pub open spec fn shows_item(view: ItemView, item: ItemModel, category: CategoryModel) -> bool {
    &&& view.id@ == format_id(item.id)
    &&& view.name@ == item.name
    &&& view.category_name@ == category_text(category.id, category.name)
    &&& shows_category(view.category, category)
}

/// Makes the records for display from the catalog of a client.
pub struct Viewer<'a> {
    jd: &'a JohnnyDecimal,
}

impl<'a> Viewer<'a> {
    /// The catalog that the viewer reads.
    pub closed spec fn catalog(&self) -> IndexModel {
        self.jd.index@
    }

    /// The viewer over the catalog of `jd`.
    pub fn new(jd: &'a JohnnyDecimal) -> (r: Viewer<'a>)
        ensures
            r.catalog() == jd.index@,
    {
        Viewer { jd }
    }

    /// The record of a category.
    pub fn category(&self, category: &Category) -> (r: CategoryView)
        ensures
            shows_category(r, category@),
    {
        CategoryView { id: category.id(), name: category.name().to_owned() }
    }

    /// The record of an item, with the category that the catalog holds under
    /// the category number of the item. The category must exist with its
    /// area.
    pub fn item(&self, item: &Item) -> (r: Result<ItemView, Error>)
        ensures
            match self.catalog().category(item.id.category) {
                Ok(category) => r matches Ok(view) && shows_item(view, item@, category),
                Err(e) => r matches Err(refusal) && refusal == e,
            },
    {
        let category = match self.jd.index.get_category(item.id.category) {
            Ok(category) => category,
            Err(e) => {
                return Err(e);
            },
        };
        Ok(
            ItemView {
                id: item.id.to_string(),
                name: item.name.clone(),
                category_name: category.to_string(),
                category: self.category(category),
            },
        )
    }
}

} // verus!
