//! What the listing and the search of the catalog tool show: the lines, in
//! order, each an area, a category or an item.

use vstd::prelude::*;
use vstd::string::*;

use crate::client::JohnnyDecimal;
use crate::error::Error;
use crate::index::{
    area_text, areas_model, categories_model, category_text, items_model, Area, AreaModel,
    Category, CategoryModel, IndexModel,
};
use crate::item::{item_text, Item, ItemModel};
use crate::views::{shows_category, shows_item, CategoryView, ItemView, Viewer};

verus! {

/// One line of a listing.
#[derive(Debug)]
pub enum Line {
    Area(String),
    Category(String),
    Item(String),
}

/// A line as a value.
pub enum LineModel {
    Area(Seq<char>),
    Category(Seq<char>),
    Item(Seq<char>),
}

impl View for Line {
    type V = LineModel;

    open spec fn view(&self) -> LineModel {
        match self {
            Line::Area(t) => LineModel::Area(t@),
            Line::Category(t) => LineModel::Category(t@),
            Line::Item(t) => LineModel::Item(t@),
        }
    }
}

/// What a list of lines holds, line by line.
pub open spec fn lines_model(lines: Seq<Line>) -> Seq<LineModel> {
    Seq::new(lines.len(), |i: int| lines[i]@)
}

/// The lines of the first `n` items.
pub open spec fn item_lines(items: Seq<ItemModel>, n: int) -> Seq<LineModel>
    decreases n,
{
    if n <= 0 {
        Seq::empty()
    } else {
        item_lines(items, n - 1).push(LineModel::Item(item_text(items[n - 1])))
    }
}

/// The lines of a category: none if a filter names another category; else
/// the category, followed by its items if a filter is given.
pub open spec fn category_lines(filter: Option<usize>, category: CategoryModel) -> Seq<LineModel> {
    let head = seq![LineModel::Category(category_text(category.id, category.name))];
    match filter {
        Some(wanted) => if wanted != category.id {
            Seq::empty()
        } else {
            head + item_lines(category.listed(), category.listed().len() as int)
        },
        None => head,
    }
}

/// The lines of the first `n` categories.
pub open spec fn categories_lines(filter: Option<usize>, categories: Seq<CategoryModel>, n: int) -> Seq<
    LineModel,
>
    decreases n,
{
    if n <= 0 {
        Seq::empty()
    } else {
        categories_lines(filter, categories, n - 1) + category_lines(filter, categories[n - 1])
    }
}

/// The lines of an area: none if a filter names a category of another area;
/// else the area, followed by the lines of its categories.
pub open spec fn area_lines(filter: Option<usize>, area: AreaModel) -> Seq<LineModel> {
    if filter matches Some(wanted) && wanted / 10 != area.bounds.0 / 10 {
        Seq::empty()
    } else {
        seq![LineModel::Area(area_text(area.bounds, area.name))] + categories_lines(
            filter,
            area.listed(),
            area.listed().len() as int,
        )
    }
}

/// The lines of the first `n` areas.
pub open spec fn areas_lines(filter: Option<usize>, areas: Seq<AreaModel>, n: int) -> Seq<LineModel>
    decreases n,
{
    if n <= 0 {
        Seq::empty()
    } else {
        areas_lines(filter, areas, n - 1) + area_lines(filter, areas[n - 1])
    }
}

/// The listing of a catalog: all areas with their categories; with a filter,
/// the one category it names, under its area, with its items.
pub open spec fn listing(filter: Option<usize>, index: IndexModel) -> Seq<LineModel> {
    areas_lines(filter, index.list_areas(), index.list_areas().len() as int)
}

/// Lists the catalog, or one category of it with its items.
#[derive(Debug)]
pub struct LsCommand {
    pub category: Option<usize>,
}

/// Appends `more` to `lines`.
fn extend(lines: &mut Vec<Line>, more: Vec<Line>)
    ensures
        lines_model(final(lines)@) == lines_model(old(lines)@) + lines_model(more@),
{
    let mut more = more;
    let ghost added = more@;
    lines.append(&mut more);
    assert(lines_model(lines@) =~= lines_model(old(lines)@) + lines_model(added));
}

impl LsCommand {
    fn of_category(&self, category: &Category) -> (r: Vec<Line>)
        ensures
            lines_model(r@) == category_lines(self.category, category@),
    {
        let mut out: Vec<Line> = Vec::new();
        match self.category {
            Some(wanted) => {
                if wanted != category.id() {
                    assert(lines_model(out@) =~= category_lines(self.category, category@));
                    return out;
                }
            },
            None => {},
        }
        out.push(Line::Category(category.to_string()));
        if self.category.is_some() {
            let items = category.list_items();
            let ghost listed = category@.listed();
            let ghost head = lines_model(out@);
            let mut i: usize = 0;
            assert(lines_model(out@) =~= head + item_lines(listed, 0));
            while i < items.len()
                invariant
                    i <= items@.len(),
                    items_model(items@) == listed,
                    lines_model(out@) == head + item_lines(listed, i as int),
                decreases items@.len() - i,
            {
                let ghost before = lines_model(out@);
                out.push(Line::Item(items[i].to_string()));
                assert(listed[i as int] == items@[i as int]@);
                assert(lines_model(out@) =~= before.push(
                    LineModel::Item(item_text(listed[i as int])),
                ));
                i += 1;
            }
            assert(head =~= seq![
                LineModel::Category(category_text(category@.id, category@.name)),
            ]);
        } else {
            assert(lines_model(out@) =~= category_lines(self.category, category@));
        }
        out
    }

    fn of_area(&self, area: &Area) -> (r: Vec<Line>)
        ensures
            lines_model(r@) == area_lines(self.category, area@),
    {
        let mut out: Vec<Line> = Vec::new();
        match self.category {
            Some(wanted) => {
                if wanted / 10 != area.bounds().0 / 10 {
                    assert(lines_model(out@) =~= area_lines(self.category, area@));
                    return out;
                }
            },
            None => {},
        }
        out.push(Line::Area(area.to_string()));
        let categories = area.list_categories();
        let ghost listed = area@.listed();
        let ghost head = lines_model(out@);
        assert(head =~= seq![LineModel::Area(area_text(area@.bounds, area@.name))]);
        assert(lines_model(out@) =~= head + categories_lines(self.category, listed, 0));
        let mut i: usize = 0;
        while i < categories.len()
            invariant
                i <= categories@.len(),
                categories_model(categories@) == listed,
                lines_model(out@) == head + categories_lines(self.category, listed, i as int),
            decreases categories@.len() - i,
        {
            let ghost before = lines_model(out@);
            assert(listed[i as int] == categories@[i as int]@);
            extend(&mut out, self.of_category(categories[i]));
            assert(lines_model(out@) =~= head + categories_lines(
                self.category,
                listed,
                i as int + 1,
            ));
            i += 1;
        }
        out
    }

    /// The lines of the listing.
    pub fn run(&self, jd: &JohnnyDecimal) -> (r: Vec<Line>)
        ensures
            lines_model(r@) == listing(self.category, jd.index@),
    {
        let mut out: Vec<Line> = Vec::new();
        let areas = jd.index.list_areas();
        let ghost listed = jd.index@.list_areas();
        assert(lines_model(out@) =~= areas_lines(self.category, listed, 0));
        let mut i: usize = 0;
        while i < areas.len()
            invariant
                i <= areas@.len(),
                areas_model(areas@) == listed,
                lines_model(out@) == areas_lines(self.category, listed, i as int),
            decreases areas@.len() - i,
        {
            assert(listed[i as int] == areas@[i as int]@);
            extend(&mut out, self.of_area(areas[i]));
            i += 1;
        }
        out
    }
}

/// Whether a hit passes the restrictions of a search: it lies in the area
/// that holds the number `area`, if one is given, and in the category
/// `category`, if one is given.
pub open spec fn keeps(area: Option<usize>, category: Option<usize>, item: ItemModel) -> bool {
    &&& area matches Some(a) ==> a / 10 == item.id.category / 10
    &&& category matches Some(c) ==> c == item.id.category
}

/// How far the report of a search has come: the lines so far, the names of
/// the area and of the category shown last, and what ended it if it has
/// ended early.
pub struct ReportModel {
    pub lines: Seq<LineModel>,
    pub last_area: Seq<char>,
    pub last_category: Seq<char>,
    pub refusal: Option<Error>,
}

/// The report after one more hit: a hit that the restrictions keep is shown
/// under its area and its category, each of which is shown again only when
/// its name differs from the name shown last.
pub open spec fn report_hit(
    area: Option<usize>,
    category: Option<usize>,
    index: IndexModel,
    state: ReportModel,
    hit: ItemModel,
) -> ReportModel {
    if state.refusal is Some || !keeps(area, category, hit) {
        state
    } else {
        match index.category(hit.id.category) {
            Err(e) => ReportModel {
                lines: state.lines,
                last_area: state.last_area,
                last_category: state.last_category,
                refusal: Some(e),
            },
            Ok(found) => {
                let owner = index.area(hit.id.category).unwrap();
                let with_area = if owner.name != state.last_area {
                    state.lines.push(LineModel::Area(area_text(owner.bounds, owner.name)))
                } else {
                    state.lines
                };
                let with_category = if found.name != state.last_category {
                    with_area.push(LineModel::Category(category_text(found.id, found.name)))
                } else {
                    with_area
                };
                ReportModel {
                    lines: with_category.push(LineModel::Item(item_text(hit))),
                    last_area: owner.name,
                    last_category: found.name,
                    refusal: None,
                }
            },
        }
    }
}

/// The report after the first `n` hits.
pub open spec fn report_hits(
    area: Option<usize>,
    category: Option<usize>,
    index: IndexModel,
    hits: Seq<ItemModel>,
    n: int,
) -> ReportModel
    decreases n,
{
    if n <= 0 {
        ReportModel {
            lines: Seq::empty(),
            last_area: Seq::empty(),
            last_category: Seq::empty(),
            refusal: None,
        }
    } else {
        report_hit(area, category, index, report_hits(area, category, index, hits, n - 1), hits[n - 1])
    }
}

/// A report that has ended early stays as it ended.
pub proof fn lemma_report_ended(
    area: Option<usize>,
    category: Option<usize>,
    index: IndexModel,
    hits: Seq<ItemModel>,
    m: int,
    n: int,
)
    requires
        0 <= m <= n,
        report_hits(area, category, index, hits, m).refusal is Some,
    ensures
        report_hits(area, category, index, hits, n) == report_hits(area, category, index, hits, m),
    decreases n,
{
    if m < n {
        lemma_report_ended(area, category, index, hits, m, n - 1);
    }
}

/// Searches the items by name, within an area or a category if one is given.
#[derive(Debug)]
pub struct SearchCommand {
    pub expr: String,
    pub area: Option<usize>,
    pub category: Option<usize>,
}

impl SearchCommand {
    /// Whether a hit passes the restrictions of the search.
    pub fn keeps(&self, item: &Item) -> (r: bool)
        ensures
            r == keeps(self.area, self.category, item@),
    {
        let in_area = match self.area {
            Some(a) => a / 10 == item.id.category / 10,
            None => true,
        };
        let in_category = match self.category {
            Some(c) => c == item.id.category,
            None => true,
        };
        in_area && in_category
    }

    /// Adds one hit to the report.
    fn show(
        &self,
        jd: &JohnnyDecimal,
        hit: &Item,
        out: &mut Vec<Line>,
        last_area: &mut String,
        last_category: &mut String,
    ) -> (r: Result<(), Error>)
        ensures
            ({
                let before = ReportModel {
                    lines: lines_model(old(out)@),
                    last_area: old(last_area)@,
                    last_category: old(last_category)@,
                    refusal: None,
                };
                let after = report_hit(self.area, self.category, jd.index@, before, hit@);
                match after.refusal {
                    None => r is Ok && after == (ReportModel {
                        lines: lines_model(final(out)@),
                        last_area: final(last_area)@,
                        last_category: final(last_category)@,
                        refusal: None,
                    }),
                    Some(e) => r == Err::<(), Error>(e),
                }
            }),
    {
        if !self.keeps(hit) {
            return Ok(());
        }
        let category = match jd.index.get_category(hit.id.category) {
            Ok(category) => category,
            Err(e) => {
                return Err(e);
            },
        };
        let area = match jd.index.get_area_from_category(hit.id.category) {
            Ok(Some(area)) => area,
            Ok(None) => {
                return Err(Error::NotFound);
            },
            Err(e) => {
                return Err(e);
            },
        };
        let ghost before = lines_model(out@);
        let ghost mut shown = before;
        let area_name = area.name().to_owned();
        let category_name = category.name().to_owned();
        if !(area_name == *last_area) {
            out.push(Line::Area(area.to_string()));
            proof {
                shown = before.push(LineModel::Area(area_text(area@.bounds, area@.name)));
                assert(lines_model(out@) =~= shown);
            }
        }
        *last_area = area_name;
        let ghost with_area = shown;
        if !(category_name == *last_category) {
            out.push(Line::Category(category.to_string()));
            proof {
                shown = with_area.push(
                    LineModel::Category(category_text(category@.id, category@.name)),
                );
                assert(lines_model(out@) =~= shown);
            }
        }
        *last_category = category_name;
        let ghost with_category = shown;
        out.push(Line::Item(hit.to_string()));
        assert(lines_model(out@) =~= with_category.push(LineModel::Item(item_text(hit@))));
        Ok(())
    }

    /// The report of the search: the hits that the restrictions keep, in the
    /// order in which the catalog gives them, each under its area and its
    /// category.
    pub fn run(&self, jd: &JohnnyDecimal) -> (r: Result<Vec<Line>, Error>)
        ensures
            ({
                let hits = jd.index@.search(self.expr@);
                let end = report_hits(
                    self.area,
                    self.category,
                    jd.index@,
                    hits,
                    hits.len() as int,
                );
                match end.refusal {
                    None => r matches Ok(lines) && lines_model(lines@) == end.lines,
                    Some(e) => r matches Err(refusal) && refusal == e,
                }
            }),
    {
        let hits = jd.index.search(self.expr.as_str());
        let ghost found = jd.index@.search(self.expr@);
        let mut out: Vec<Line> = Vec::new();
        let mut last_area = String::new();
        let mut last_category = String::new();
        let mut i: usize = 0;
        assert(lines_model(out@) =~= Seq::<LineModel>::empty());
        while i < hits.len()
            invariant
                i <= hits@.len(),
                items_model(hits@) == found,
                found == jd.index@.search(self.expr@),
                report_hits(self.area, self.category, jd.index@, found, i as int) == (ReportModel {
                    lines: lines_model(out@),
                    last_area: last_area@,
                    last_category: last_category@,
                    refusal: None,
                }),
            decreases hits@.len() - i,
        {
            assert(found[i as int] == hits@[i as int]@);
            match self.show(jd, &hits[i], &mut out, &mut last_area, &mut last_category) {
                Ok(()) => {},
                Err(e) => {
                    proof {
                        assert(report_hits(
                            self.area,
                            self.category,
                            jd.index@,
                            found,
                            i + 1,
                        ).refusal == Some(e));
                        lemma_report_ended(
                            self.area,
                            self.category,
                            jd.index@,
                            found,
                            i + 1,
                            found.len() as int,
                        );
                    }
                    return Err(e);
                },
            }
            i += 1;
        }
        Ok(out)
    }
}

/// Whether the records show the items, each with the category that the
/// catalog holds under its category number.
pub open spec fn show_items(views: Seq<ItemView>, items: Seq<ItemModel>, index: IndexModel) -> bool {
    &&& views.len() == items.len()
    &&& forall|i: int| 0 <= i < views.len() ==> shows_item_of(#[trigger] views[i], items[i], index)
}

/// Whether a record shows the item with the category that the catalog holds
/// under its category number.
pub open spec fn shows_item_of(view: ItemView, item: ItemModel, index: IndexModel) -> bool {
    index.category(item.id.category) matches Ok(category) && shows_item(view, item, category)
}

/// The position of the first item whose category the catalog lacks; the
/// number of items when there is none.
pub open spec fn first_stray(items: Seq<ItemModel>, index: IndexModel, from: int) -> int
    decreases items.len() - from,
{
    if from >= items.len() {
        items.len() as int
    } else if index.category(items[from].id.category) is Err {
        from
    } else {
        first_stray(items, index, from + 1)
    }
}

/// The records of some items for display. The first item whose category the
/// catalog lacks ends the work with the refusal of that lookup.
pub fn item_views(viewer: &Viewer, items: &Vec<Item>) -> (r: Result<Vec<ItemView>, Error>)
    ensures
        ({
            let stray = first_stray(items_model(items@), viewer.catalog(), 0);
            if stray < items@.len() {
                r matches Err(refusal) && Err::<CategoryModel, Error>(refusal)
                    == viewer.catalog().category(items@[stray]@.id.category)
            } else {
                r matches Ok(views) && show_items(views@, items_model(items@), viewer.catalog())
            }
        }),
{
    let ghost models = items_model(items@);
    let mut out: Vec<ItemView> = Vec::new();
    let mut i: usize = 0;
    while i < items.len()
        invariant
            i <= items@.len(),
            models == items_model(items@),
            out@.len() == i,
            first_stray(models, viewer.catalog(), 0) == first_stray(
                models,
                viewer.catalog(),
                i as int,
            ),
            forall|j: int|
                0 <= j < i ==> shows_item_of(#[trigger] out@[j], models[j], viewer.catalog()),
        decreases items@.len() - i,
    {
        assert(models[i as int] == items@[i as int]@);
        let ghost before = out@;
        match viewer.item(&items[i]) {
            Ok(view) => {
                out.push(view);
            },
            Err(e) => {
                assert(first_stray(models, viewer.catalog(), i as int) == i);
                return Err(e);
            },
        }
        i += 1;
    }
    Ok(out)
}

/// The records of some categories for display.
pub fn category_views(viewer: &Viewer, categories: &Vec<&Category>) -> (r: Vec<CategoryView>)
    ensures
        r@.len() == categories@.len(),
        forall|i: int| 0 <= i < r@.len() ==> shows_category(#[trigger] r@[i], categories@[i]@),
{
    let mut out: Vec<CategoryView> = Vec::new();
    let mut i: usize = 0;
    while i < categories.len()
        invariant
            i <= categories@.len(),
            out@.len() == i,
            forall|j: int| 0 <= j < i ==> shows_category(#[trigger] out@[j], categories@[j]@),
        decreases categories@.len() - i,
    {
        out.push(viewer.category(categories[i]));
        i += 1;
    }
    out
}

/// Records for display: of items or of categories.
#[derive(Debug)]
pub enum Records {
    Items(Vec<ItemView>),
    Categories(Vec<CategoryView>),
}

/// Whether the records show the categories.
pub open spec fn show_categories(views: Seq<CategoryView>, categories: Seq<CategoryModel>) -> bool {
    &&& views.len() == categories.len()
    &&& forall|i: int| 0 <= i < views.len() ==> shows_category(#[trigger] views[i], categories[i])
}

/// The items that a listing with a filter shows: those of the category that
/// the filter names, none where the catalog lacks it.
pub open spec fn filtered_items(wanted: usize, index: IndexModel) -> Seq<ItemModel> {
    match index.category(wanted) {
        Ok(category) => category.listed(),
        Err(_) => Seq::empty(),
    }
}

impl LsCommand {
    /// The records of the listing: with a filter the items of the category
    /// that it names, without one all categories.
    pub fn run_json(&self, jd: &JohnnyDecimal) -> (r: Result<Records, Error>)
        ensures
            match self.category {
                Some(wanted) => r matches Ok(Records::Items(views)) && show_items(
                    views@,
                    filtered_items(wanted, jd.index@),
                    jd.index@,
                ),
                None => r matches Ok(Records::Categories(views)) && show_categories(
                    views@,
                    jd.index@.list_categories(),
                ),
            },
    {
        let viewer = Viewer::new(jd);
        match self.category {
            Some(wanted) => {
                let items = match jd.index.get_category(wanted) {
                    Ok(category) => category.list_items(),
                    Err(_) => Vec::new(),
                };
                let ghost models = items_model(items@);
                proof {
                    assert(models =~= filtered_items(wanted, jd.index@));
                    if jd.index@.category(wanted) is Ok {
                        let category = jd.index@.category(wanted).unwrap();
                        use_type_invariant(&jd.index);
                        jd.index.lemma_inv_wf();
                        crate::laws::lemma_listed_items_belong(jd.index@, wanted);
                        lemma_no_stray(models, jd.index@, wanted, 0);
                    }
                }
                match item_views(&viewer, &items) {
                    Ok(views) => Ok(Records::Items(views)),
                    Err(e) => Err(e),
                }
            },
            None => {
                let categories = jd.index.list_categories();
                let views = category_views(&viewer, &categories);
                proof {
                    let listed = jd.index@.list_categories();
                    assert forall|i: int| 0 <= i < views@.len() implies shows_category(
                        #[trigger] views@[i],
                        listed[i],
                    ) by {
                        assert(listed[i] == categories@[i]@);
                    }
                }
                Ok(Records::Categories(views))
            },
        }
    }
}

/// Items that are all of one category that the catalog holds have no stray
/// among them.
pub proof fn lemma_no_stray(items: Seq<ItemModel>, index: IndexModel, category: usize, from: int)
    requires
        0 <= from <= items.len(),
        index.category(category) is Ok,
        forall|i: int| 0 <= i < items.len() ==> (#[trigger] items[i]).id.category == category,
    ensures
        first_stray(items, index, from) == items.len(),
    decreases items.len() - from,
{
    if from < items.len() {
        assert(items[from].id.category == category);
        lemma_no_stray(items, index, category, from + 1);
    }
}

/// Lists all areas with their categories.
#[derive(Debug)]
pub struct CategoriesCommand {}

impl CategoriesCommand {
    /// The lines of the listing.
    pub fn run(&self, jd: &JohnnyDecimal) -> (r: Vec<Line>)
        ensures
            lines_model(r@) == listing(None, jd.index@),
    {
        let all = LsCommand { category: None };
        all.run(jd)
    }

    /// The records of all categories.
    pub fn run_json(&self, jd: &JohnnyDecimal) -> (r: Vec<CategoryView>)
        ensures
            show_categories(r@, jd.index@.list_categories()),
    {
        let viewer = Viewer::new(jd);
        let categories = jd.index.list_categories();
        let views = category_views(&viewer, &categories);
        proof {
            let listed = jd.index@.list_categories();
            assert forall|i: int| 0 <= i < views@.len() implies shows_category(
                #[trigger] views@[i],
                listed[i],
            ) by {
                assert(listed[i] == categories@[i]@);
            }
        }
        views
    }
}

impl SearchCommand {
    /// The records of all hits; the restrictions of the search do not count
    /// here.
    pub fn run_json(&self, jd: &JohnnyDecimal) -> (r: Result<Vec<ItemView>, Error>)
        ensures
            ({
                let hits = jd.index@.search(self.expr@);
                let stray = first_stray(hits, jd.index@, 0);
                if stray < hits.len() {
                    r matches Err(refusal) && Err::<CategoryModel, Error>(refusal)
                        == jd.index@.category(hits[stray].id.category)
                } else {
                    r matches Ok(views) && show_items(views@, hits, jd.index@)
                }
            }),
    {
        let viewer = Viewer::new(jd);
        let hits = jd.index.search(self.expr.as_str());
        proof {
            let models = items_model(hits@);
            let stray = first_stray(models, jd.index@, 0);
            if stray < models.len() {
                lemma_first_stray(models, jd.index@, 0);
                assert(models[stray] == hits@[stray]@);
            }
        }
        item_views(&viewer, &hits)
    }
}

/// The first stray is a stray, and lies within the items.
pub proof fn lemma_first_stray(items: Seq<ItemModel>, index: IndexModel, from: int)
    requires
        0 <= from <= items.len(),
    ensures
        from <= first_stray(items, index, from) <= items.len(),
        first_stray(items, index, from) < items.len() ==> index.category(
            items[first_stray(items, index, from)].id.category,
        ) is Err,
    decreases items.len() - from,
{
    if from < items.len() && index.category(items[from].id.category) is Ok {
        lemma_first_stray(items, index, from + 1);
    }
}

} // verus!
