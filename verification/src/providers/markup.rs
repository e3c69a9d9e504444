//! Reading HTML, left to the `scraper` crate.
//!
//! How a page parses and what a selector matches fills a standard and a
//! half. Nothing here restates it: each result has a name, and the listings
//! are decoded from whatever the names hold.

use crate::provider::ListError;
use vstd::prelude::*;

verus! {

/// A table row as the cells found in it: each with the value of one
/// attribute and its text.
pub type Row = Vec<(Option<String>, String)>;

/// A `Row` as plain text.
pub type RowView = Seq<(Option<Seq<char>>, Seq<char>)>;

/// The inner HTML of every element of `page` that `selector` matches, in
/// the order in which the selection yields them; `None` where `selector` is
/// no CSS selector.
pub uninterp spec fn selected_inner_html(page: Seq<char>, selector: Seq<char>) -> Option<
    Seq<Seq<char>>,
>;

/// For every element of `page` that `rows` matches, its descendants that
/// `cells` matches, each as the value of its attribute `attribute` and its
/// text; `None` where `rows` or `cells` is no CSS selector.
pub uninterp spec fn selected_cells(
    page: Seq<char>,
    rows: Seq<char>,
    cells: Seq<char>,
    attribute: Seq<char>,
) -> Option<Seq<RowView>>;

/// Calls `Html::parse_document`, `Selector::parse`, `Html::select` and
/// `ElementRef::inner_html`. The contract only gives the outcome its name:
/// the same page and selector always yield the same list.
#[verifier::external_body]
fn select_inner_html(page: &str, selector: &str) -> (found: Option<Vec<String>>)
    ensures
        found.deep_view() == selected_inner_html(page@, selector@),
{
    let document = scraper::Html::parse_document(page);
    let selector = scraper::Selector::parse(selector).ok()?;
    let mut found = Vec::new();
    for element in document.select(&selector) {
        found.push(element.inner_html());
    }
    Some(found)
}

/// Calls `Html::parse_document`, `Selector::parse`, `Html::select`,
/// `ElementRef::select`, `Element::attr` and `ElementRef::text`. The contract
/// only gives the outcome its name: the same arguments always yield the same
/// table.
#[verifier::external_body]
fn select_cells(page: &str, rows: &str, cells: &str, attribute: &str) -> (found: Option<Vec<Row>>)
    ensures
        found.deep_view() == selected_cells(page@, rows@, cells@, attribute@),
{
    let document = scraper::Html::parse_document(page);
    let rows = scraper::Selector::parse(rows).ok()?;
    let cells = scraper::Selector::parse(cells).ok()?;
    let mut found = Vec::new();
    for row in document.select(&rows) {
        let mut line = Vec::new();
        for cell in row.select(&cells) {
            line.push((cell.value().attr(attribute).map(String::from), cell.text().collect()));
        }
        found.push(line);
    }
    Some(found)
}

/// The inner HTML of every element of `page` that `selector` matches.
pub fn inner_html_of(page: &str, selector: &str) -> (found: Result<Vec<String>, ListError>)
    ensures
        match found {
            Ok(list) => selected_inner_html(page@, selector@) == Some(list.deep_view()),
            Err(e) => e == ListError::Markup && selected_inner_html(page@, selector@) is None,
        },
{
    match select_inner_html(page, selector) {
        Some(list) => Ok(list),
        None => Err(ListError::Markup),
    }
}

/// The rows of `page` that `rows` matches, each as the cells in it that
/// `cells` matches, each cell as the value of `attribute` and its text.
pub fn cells_of(page: &str, rows: &str, cells: &str, attribute: &str) -> (found: Result<
    Vec<Row>,
    ListError,
>)
    ensures
        match found {
            Ok(table) => selected_cells(page@, rows@, cells@, attribute@) == Some(
                table.deep_view(),
            ),
            Err(e) => e == ListError::Markup && selected_cells(page@, rows@, cells@, attribute@)
                is None,
        },
{
    match select_cells(page, rows, cells, attribute) {
        Some(table) => Ok(table),
        None => Err(ListError::Markup),
    }
}

} // verus!
