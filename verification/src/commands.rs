//! The commands of the catalog tool, as far as they decide anything: what
//! each asks of the client, and which steps are to follow.

use vstd::prelude::*;
use vstd::string::*;

use crate::client::{
    is_item_outcome, is_outcome, locate_plan, lookup_option_model, relocate_plan, JohnnyDecimal,
};
use crate::error::Error;
use crate::index::area_text;
use crate::item::{parse_id, Item, ID};
use crate::location::{actions_model, Action, ActionModel, Evidence, Lookup};

verus! {

/// The bounds of the area that holds the number `area`: from the multiple of
/// ten at or below it, ten numbers.
pub open spec fn bounds_around(area: usize) -> (int, int) {
    ((area / 10) * 10, (area / 10) * 10 + 9)
}

/// Creates the area that holds a number.
#[derive(Debug)]
pub struct MkAreaCommand {
    pub area: usize,
    pub name: String,
}

impl MkAreaCommand {
    /// The bounds of the area to create, where the machine can hold them.
    pub fn bounds(&self) -> (r: Option<(usize, usize)>)
        ensures
            match r {
                Some(bounds) => (bounds.0 as int, bounds.1 as int) == bounds_around(self.area),
                None => bounds_around(self.area).1 > usize::MAX,
            },
    {
        let low = (self.area / 10) * 10;
        if low > usize::MAX - 9 {
            None
        } else {
            Some((low, low + 9))
        }
    }

    /// Creates the area and asks for the catalog to be written. Gives the
    /// text of the area with the step.
    pub fn run(&self, jd: &mut JohnnyDecimal) -> (r: Result<(String, Vec<Action>), Error>)
        ensures
            final(jd).route() == old(jd).route(),
            final(jd).index_path_text() == old(jd).index_path_text(),
            ({
                let bounds = bounds_around(self.area);
                if bounds.1 > usize::MAX {
                    &&& final(jd).index@ == old(jd).index@
                    &&& r matches Err(refusal)
                    &&& refusal == Error::Validation
                } else {
                    let bounds = (bounds.0 as usize, bounds.1 as usize);
                    match old(jd).index@.create_area(bounds, self.name@) {
                        Ok(index) => {
                            &&& final(jd).index@ == index
                            &&& r matches Ok(done)
                            &&& done.0@ == area_text(bounds, self.name@)
                            &&& actions_model(done.1@) == seq![ActionModel::Persist]
                        },
                        Err(e) => {
                            &&& final(jd).index@ == old(jd).index@
                            &&& r matches Err(refusal)
                            &&& refusal == e
                        },
                    }
                }
            }),
    {
        let bounds = match self.bounds() {
            Some(bounds) => bounds,
            None => {
                return Err(Error::Validation);
            },
        };
        let text = match jd.index.create_area(bounds, self.name.as_str()) {
            Ok(area) => area.to_string(),
            Err(e) => {
                return Err(e);
            },
        };
        let mut actions: Vec<Action> = Vec::new();
        actions.push(Action::Persist);
        assert(actions_model(actions@) =~= seq![ActionModel::Persist]);
        Ok((text, actions))
    }
}

/// Creates a category in the area that holds its number.
#[derive(Debug)]
pub struct MkCatCommand {
    pub category: usize,
    pub name: String,
}

impl MkCatCommand {
    /// Creates the category and asks for the catalog to be written.
    pub fn run(&self, jd: &mut JohnnyDecimal) -> (r: Result<Vec<Action>, Error>)
        ensures
            final(jd).route() == old(jd).route(),
            final(jd).index_path_text() == old(jd).index_path_text(),
            match old(jd).index@.create_category(self.category, self.name@) {
                Ok(index) => final(jd).index@ == index && is_outcome(
                    r,
                    Ok(seq![ActionModel::Persist]),
                ),
                Err(e) => final(jd).index@ == old(jd).index@ && is_outcome(r, Err(e)),
            },
    {
        match jd.index.create_category(self.category, self.name.clone()) {
            Ok(_) => {
                let mut actions: Vec<Action> = Vec::new();
                actions.push(Action::Persist);
                assert(actions_model(actions@) =~= seq![ActionModel::Persist]);
                Ok(actions)
            },
            Err(e) => Err(e),
        }
    }
}

/// Adds the content at some paths to a category, at an identifier where one
/// is given.
#[derive(Debug)]
pub struct MoveCommand {
    pub category: usize,
    pub id: Option<ID>,
    pub files: Vec<String>,
}

impl MoveCommand {
    /// An identifier can be given for one path only: with more than one path
    /// it is refused as invalid.
    pub fn validate_id(&self) -> (r: Result<(), Error>)
        ensures
            r == (if self.files@.len() > 1 && self.id is Some {
                Err::<(), Error>(Error::Validation)
            } else {
                Ok::<(), Error>(())
            }),
    {
        if self.files.len() > 1 && self.id.is_some() {
            Err(Error::Validation)
        } else {
            Ok(())
        }
    }
}

/// Moves an item, named by the text of its identifier, to another category.
#[derive(Debug)]
pub struct RelocateCommand {
    pub item: String,
    pub category: usize,
}

impl RelocateCommand {
    /// What has to be learnt outside before the item can be moved: nothing
    /// where its slot is empty. The text must write an identifier.
    pub fn probe(&self, jd: &JohnnyDecimal) -> (r: Result<Option<Lookup>, Error>)
        ensures
            match parse_id(self.item@) {
                Some(id) => match locate_plan(jd.index@, jd.route(), id) {
                    Ok(lookup) => r matches Ok(found) && lookup_option_model(found) == lookup,
                    Err(e) => r matches Err(refusal) && refusal == e,
                },
                None => r matches Err(refusal) && refusal == Error::Validation,
            },
    {
        match ID::from_str(self.item.as_str()) {
            Ok(id) => jd.locate(&id),
            Err(e) => Err(e),
        }
    }

    /// Moves the item, given what was learnt outside. The text must write an
    /// identifier.
    pub fn run(&self, jd: &mut JohnnyDecimal, evidence: Evidence) -> (r: Result<
        (Item, Vec<Action>),
        Error,
    >)
        ensures
            final(jd).route() == old(jd).route(),
            final(jd).index_path_text() == old(jd).index_path_text(),
            match parse_id(self.item@) {
                Some(id) => {
                    let plan = relocate_plan(
                        old(jd).index@,
                        old(jd).route(),
                        id,
                        self.category,
                        evidence@,
                    );
                    final(jd).index@ == plan.0 && is_item_outcome(r, plan.1)
                },
                None => final(jd).index@ == old(jd).index@ && is_item_outcome(
                    r,
                    Err(Error::Validation),
                ),
            },
    {
        match ID::from_str(self.item.as_str()) {
            Ok(id) => jd.relocate(&id, self.category, evidence),
            Err(e) => Err(e),
        }
    }
}

/// Opens the place of an item, named by the text of its identifier.
#[derive(Debug)]
pub struct OpenCommand {
    pub id: String,
}

impl OpenCommand {
    /// What has to be learnt outside to find the place to open: nothing
    /// where the slot of the item is empty. The text must write an
    /// identifier.
    pub fn open(&self, jd: &JohnnyDecimal) -> (r: Result<Option<Lookup>, Error>)
        ensures
            match parse_id(self.id@) {
                Some(id) => match locate_plan(jd.index@, jd.route(), id) {
                    Ok(lookup) => r matches Ok(found) && lookup_option_model(found) == lookup,
                    Err(e) => r matches Err(refusal) && refusal == e,
                },
                None => r matches Err(refusal) && refusal == Error::Validation,
            },
    {
        match ID::from_str(self.id.as_str()) {
            Ok(id) => jd.locate(&id),
            Err(e) => Err(e),
        }
    }
}

} // verus!
